use cargobase::{Json, Number, Row};

fn john() -> Json {
    Json::Object(vec![
        ("name".to_string(), Json::String("John Doe".to_string())),
        ("age".to_string(), Json::Number(Number::PosInt(30))),
    ])
}

fn jane() -> Json {
    Json::Object(vec![
        ("name".to_string(), Json::String("Jane Doe".to_string())),
        ("age".to_string(), Json::Number(Number::PosInt(25))),
    ])
}

#[test]
fn test_row_new() {
    let row = Row::new(john());
    assert_eq!(row.data.get("name"), Some(&Json::String("John Doe".to_string())));
    assert_eq!(row.data.get("age"), Some(&Json::Number(Number::PosInt(30))));
    assert_eq!(row.data, john());
}

#[test]
fn test_row_id() {
    let row = Row::new(john());
    assert_eq!(uuid::Uuid::parse_str(&row._id).is_ok(), true);
}

#[test]
fn test_row_id_unique() {
    let row1 = Row::new(john());
    let row2 = Row::new(jane());
    assert_ne!(row1._id, row2._id);
}

#[test]
fn test_row_id_length() {
    let row = Row::new(john());
    assert_eq!(row._id.len(), 36);
}

#[test]
fn row_id_is_hyphenated_and_random() {
    let row = Row::new(Json::Null);
    let id: Vec<char> = row._id.chars().collect();
    assert_eq!(id.len(), 36);
    for (at, c) in id.iter().enumerate() {
        if at == 8 || at == 13 || at == 18 || at == 23 {
            assert_eq!(*c, '-');
        } else {
            assert!(c.is_ascii_hexdigit());
        }
    }
    let parsed = uuid::Uuid::parse_str(&row._id).unwrap();
    assert_eq!(parsed.get_version_num(), 4);
}

#[test]
fn row_id_does_not_depend_on_the_payload() {
    let first = Row::new(john());
    let second = Row::new(john());
    assert_eq!(first.data, second.data);
    assert_ne!(first._id, second._id);
}

#[test]
fn row_with_id_keeps_both() {
    let row = Row::with_id("r-1".to_string(), jane());
    assert_eq!(row._id, "r-1");
    assert_eq!(row.data, jane());
    assert_eq!(row.clone(), row);
}

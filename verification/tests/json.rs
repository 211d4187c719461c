use cargobase::json::{member_index, merge_members, set_member};
use cargobase::{Json, Number};

fn text(value: &str) -> Json {
    Json::String(value.to_string())
}

fn members(list: Vec<(&str, Json)>) -> Vec<(String, Json)> {
    list.into_iter().map(|(key, value)| (key.to_string(), value)).collect()
}

fn object(list: Vec<(&str, Json)>) -> Json {
    Json::Object(members(list))
}

#[test]
fn get_finds_the_member_of_an_object() {
    let value = object(vec![("id", text("1")), ("name", text("Ann")), ("id", text("2"))]);
    assert_eq!(value.get("name"), Some(&text("Ann")));
    // the first member of a key counts
    assert_eq!(value.get("id"), Some(&text("1")));
    assert_eq!(value.get("age"), None);
    assert_eq!(value.get(""), None);
}

#[test]
fn get_on_a_value_that_is_no_object_finds_nothing() {
    assert_eq!(Json::Null.get("id"), None);
    assert_eq!(text("id").get("id"), None);
    assert_eq!(Json::Array(vec![object(vec![("id", text("1"))])]).get("id"), None);
}

#[test]
fn as_str_is_the_text_of_a_string_only() {
    assert_eq!(text("Ann").as_str(), Some("Ann"));
    assert_eq!(text("").as_str(), Some(""));
    assert_eq!(Json::Null.as_str(), None);
    assert_eq!(Json::Bool(true).as_str(), None);
    assert_eq!(Json::Number(Number::PosInt(1)).as_str(), None);
    assert_eq!(object(vec![]).as_str(), None);
}

#[test]
fn member_index_is_the_first_position_of_a_key() {
    let list = members(vec![("a", Json::Null), ("b", Json::Null), ("a", Json::Bool(true))]);
    assert_eq!(member_index(&list, "a"), Some(0));
    assert_eq!(member_index(&list, "b"), Some(1));
    assert_eq!(member_index(&list, "c"), None);
    assert_eq!(member_index(&Vec::new(), "a"), None);
}

#[test]
fn set_member_replaces_in_place_or_appends() {
    let mut list = members(vec![("a", text("1")), ("b", text("2"))]);
    set_member(&mut list, "a".to_string(), text("9"));
    assert_eq!(list, members(vec![("a", text("9")), ("b", text("2"))]));
    set_member(&mut list, "c".to_string(), Json::Null);
    assert_eq!(list, members(vec![("a", text("9")), ("b", text("2")), ("c", Json::Null)]));
}

#[test]
fn merge_members_overwrites_and_adds() {
    let mut base = members(vec![("id", text("1")), ("name", text("Alice"))]);
    let update = members(vec![("name", text("Updated Alice")), ("age", text("30"))]);
    merge_members(&mut base, &update);
    assert_eq!(
        base,
        members(vec![("id", text("1")), ("name", text("Updated Alice")), ("age", text("30"))])
    );
}

#[test]
fn merge_members_with_nothing_changes_nothing() {
    let mut base = members(vec![("id", text("1"))]);
    merge_members(&mut base, &Vec::new());
    assert_eq!(base, members(vec![("id", text("1"))]));
    let mut empty = Vec::new();
    merge_members(&mut empty, &members(vec![("id", text("1"))]));
    assert_eq!(empty, members(vec![("id", text("1"))]));
}

#[test]
fn merge_members_takes_the_last_of_a_repeated_key() {
    let mut base = members(vec![("a", text("0"))]);
    let update = members(vec![("a", text("1")), ("b", text("2")), ("a", text("3"))]);
    merge_members(&mut base, &update);
    assert_eq!(base, members(vec![("a", text("3")), ("b", text("2"))]));
}

#[test]
fn merge_members_is_shallow() {
    let mut base = members(vec![("address", object(vec![("city", text("Oslo")), ("zip", text("1"))]))]);
    let update = members(vec![("address", object(vec![("city", text("Bergen"))]))]);
    merge_members(&mut base, &update);
    assert_eq!(base, members(vec![("address", object(vec![("city", text("Bergen"))]))]));
}

#[test]
fn clone_copies_the_whole_value() {
    let value = object(vec![
        ("null", Json::Null),
        ("flag", Json::Bool(false)),
        ("count", Json::Number(Number::PosInt(u64::MAX))),
        ("debt", Json::Number(Number::NegInt(i64::MIN))),
        ("ratio", Json::Number(Number::Float(1.5f64.to_bits()))),
        ("name", text("Ann")),
        ("tags", Json::Array(vec![text("a"), Json::Array(vec![]), object(vec![])])),
        ("nested", object(vec![("deep", object(vec![("deeper", Json::Array(vec![Json::Null]))]))])),
    ]);
    let copy = value.clone();
    assert_eq!(copy, value);
    assert_eq!(Json::Null.clone(), Json::Null);
    assert_eq!(Json::Array(vec![]).clone(), Json::Array(vec![]));
}

#[test]
fn objects_keep_the_order_of_their_members() {
    let ab = object(vec![("a", Json::Null), ("b", Json::Null)]);
    let ba = object(vec![("b", Json::Null), ("a", Json::Null)]);
    assert_ne!(ab, ba);
}

#[test]
fn numbers_are_told_apart_by_kind() {
    assert_ne!(Number::PosInt(1), Number::Float(1.0f64.to_bits()));
    assert_eq!(Number::Float(0.25f64.to_bits()), Number::Float(0.25f64.to_bits()));
    assert_ne!(Number::NegInt(-1), Number::PosInt(1));
}

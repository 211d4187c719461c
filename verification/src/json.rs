//! JSON values as a closed variant type, with the object operations the
//! store needs: key lookup, key update and shallow merge.

use vstd::prelude::*;
use crate::lookup::{find, first_at, lemma_find, lemma_find_is, lemma_find_none, same_text};

verus! {

/// A JSON number, held exactly.
#[derive(Clone, Copy, Debug, PartialEq, Eq)]
pub enum Number {
    /// An integer that is not negative.
    PosInt(u64),
    /// A negative integer.
    NegInt(i64),
    /// Any other number, as the bit pattern of its IEEE-754 binary64 form.
    Float(u64),
}

/// A JSON value. An object keeps its members in the order they were added.
#[derive(Debug, PartialEq)]
pub enum Json {
    Null,
    Bool(bool),
    Number(Number),
    String(String),
    Array(Vec<Json>),
    Object(Vec<(String, Json)>),
}

/// The mathematical value of a [`Json`].
pub enum JsonView {
    Null,
    Bool(bool),
    Number(Number),
    String(Seq<char>),
    Array(Seq<JsonView>),
    Object(Seq<(Seq<char>, JsonView)>),
}

/// The mathematical value of a JSON value: the same tree, with sequences
/// for vectors and strings.
pub open spec fn json_view(json: Json) -> JsonView
    decreases json,
{
    match json {
        Json::Null => JsonView::Null,
        Json::Bool(b) => JsonView::Bool(b),
        Json::Number(n) => JsonView::Number(n),
        Json::String(s) => JsonView::String(s@),
        Json::Array(items) => JsonView::Array(
            Seq::new(
                items@.len(),
                |i: int|
                    if 0 <= i < items@.len() {
                        json_view(items@[i])
                    } else {
                        JsonView::Null
                    },
            ),
        ),
        Json::Object(members) => JsonView::Object(
            Seq::new(
                members@.len(),
                |i: int|
                    if 0 <= i < members@.len() {
                        (members@[i].0@, json_view(members@[i].1))
                    } else {
                        (Seq::empty(), JsonView::Null)
                    },
            ),
        ),
    }
}

impl View for Json {
    type V = JsonView;

    open spec fn view(&self) -> JsonView {
        json_view(*self)
    }
}

/// The mathematical value of a list of object members.
pub open spec fn members_view(members: Seq<(String, Json)>) -> Seq<(Seq<char>, JsonView)> {
    Seq::new(members.len(), |i: int| (members[i].0@, members[i].1@))
}

/// The mathematical value of a list of JSON values.
pub open spec fn items_view(items: Seq<Json>) -> Seq<JsonView> {
    Seq::new(items.len(), |i: int| items[i]@)
}

/// The keys of a list of object members, in order.
pub open spec fn member_keys(members: Seq<(Seq<char>, JsonView)>) -> Seq<Seq<char>> {
    Seq::new(members.len(), |i: int| members[i].0)
}

/// An object is the value of its member list.
pub proof fn lemma_object_view(members: Vec<(String, Json)>)
    ensures
        Json::Object(members)@ == JsonView::Object(members_view(members@)),
{
    let direct = Json::Object(members)@;
    assert(direct->Object_0 =~= members_view(members@));
}

/// An array is the value of its item list.
pub proof fn lemma_array_view(items: Vec<Json>)
    ensures
        Json::Array(items)@ == JsonView::Array(items_view(items@)),
{
    let direct = Json::Array(items)@;
    assert(direct->Array_0 =~= items_view(items@));
}

impl JsonView {
    /// The value bound to `key`, when this is an object that has the key.
    pub open spec fn get(self, key: Seq<char>) -> Option<JsonView> {
        match self {
            JsonView::Object(members) => match find(member_keys(members), key) {
                Some(i) => Some(members[i].1),
                None => None,
            },
            _ => None,
        }
    }

    /// The text of a string value.
    pub open spec fn as_str(self) -> Option<Seq<char>> {
        match self {
            JsonView::String(text) => Some(text),
            _ => None,
        }
    }
}

/// The position of the first member called `key`, if any.
pub fn member_index(members: &Vec<(String, Json)>, key: &str) -> (found: Option<usize>)
    ensures
        match found {
            Some(i) => find(member_keys(members_view(members@)), key@) == Some(i as int),
            None => find(member_keys(members_view(members@)), key@) is None,
        },
{
    let ghost keys = member_keys(members_view(members@));
    let mut i: usize = 0;
    while i < members.len()
        invariant
            i <= members.len(),
            keys == member_keys(members_view(members@)),
            forall|j: int| 0 <= j < i ==> keys[j] != key@,
        decreases members.len() - i,
    {
        if same_text(members[i].0.as_str(), key) {
            proof {
                assert(keys[i as int] == key@);
                lemma_find_is(keys, key@, i as int);
            }
            return Some(i);
        }
        i += 1;
    }
    proof {
        assert forall|k: int| !first_at(keys, key@, k) by {
            if 0 <= k < keys.len() {
                assert(keys[k] != key@);
            }
        }
    }
    None
}

impl Json {
    /// The text of a string value, `None` for every other kind of value.
    pub fn as_str(&self) -> (text: Option<&str>)
        ensures
            match text {
                Some(t) => self@.as_str() == Some(t@),
                None => self@.as_str() is None,
            },
    {
        match self {
            Json::String(s) => Some(s.as_str()),
            _ => None,
        }
    }

    /// The value bound to `key` in an object; `None` when the key is absent
    /// or this value is not an object.
    pub fn get(&self, key: &str) -> (found: Option<&Json>)
        ensures
            match found {
                Some(value) => self@.get(key@) == Some(value@),
                None => self@.get(key@) is None,
            },
    {
        match self {
            Json::Object(members) => {
                proof {
                    lemma_object_view(*members);
                }
                match member_index(members, key) {
                    Some(i) => Some(&members[i].1),
                    None => None,
                }
            },
            _ => None,
        }
    }
}

/// The members once `key` is bound to `value`: an existing binding is
/// replaced where it stands, a new key is added at the end.
pub open spec fn with_member(
    members: Seq<(Seq<char>, JsonView)>,
    key: Seq<char>,
    value: JsonView,
) -> Seq<(Seq<char>, JsonView)> {
    match find(member_keys(members), key) {
        Some(i) => members.update(i, (key, value)),
        None => members.push((key, value)),
    }
}

/// The shallow merge of `update` into `base`: every member of `update`, in
/// order, is bound in `base`; keys that `update` does not name are untouched.
pub open spec fn merged(
    base: Seq<(Seq<char>, JsonView)>,
    update: Seq<(Seq<char>, JsonView)>,
) -> Seq<(Seq<char>, JsonView)>
    decreases update.len(),
{
    if update.len() == 0 {
        base
    } else {
        with_member(merged(base, update.drop_last()), update.last().0, update.last().1)
    }
}

/// The value that the last member of `update` called `key` carries, if
/// `update` has such a member.
pub open spec fn last_bound(update: Seq<(Seq<char>, JsonView)>, key: Seq<char>) -> Option<
    JsonView,
>
    decreases update.len(),
{
    if update.len() == 0 {
        None
    } else if update.last().0 == key {
        Some(update.last().1)
    } else {
        last_bound(update.drop_last(), key)
    }
}

/// After `key` is bound to `value`, the object has `value` under `key` and
/// what it had before under every other key.
pub proof fn lemma_with_member_get(
    members: Seq<(Seq<char>, JsonView)>,
    key: Seq<char>,
    value: JsonView,
    other: Seq<char>,
)
    ensures
        JsonView::Object(with_member(members, key, value)).get(other) == if other == key {
            Some(value)
        } else {
            JsonView::Object(members).get(other)
        },
{
    let keys = member_keys(members);
    let after = with_member(members, key, value);
    let after_keys = member_keys(after);
    lemma_find(keys, key);
    lemma_find(keys, other);
    lemma_find(after_keys, other);
    match find(keys, key) {
        Some(i) => {
            assert(after_keys =~= keys);
            if other != key {
                if find(keys, other) is Some {
                    let j = find(keys, other)->Some_0;
                    assert(keys[j] != keys[i]);
                }
            }
        },
        None => {
            assert(after_keys =~= keys.push(key));
            if other == key {
                assert forall|j: int| 0 <= j < keys.len() implies after_keys[j] != key by {
                    assert(keys.contains(keys[j]));
                }
                lemma_find_is(after_keys, key, keys.len() as int);
            } else {
                match find(keys, other) {
                    Some(j) => {
                        assert(first_at(after_keys, other, j));
                        lemma_find_is(after_keys, other, j);
                    },
                    None => {
                        assert forall|j: int| 0 <= j < after_keys.len() implies after_keys[j]
                            != other by {
                            if j < keys.len() {
                                assert(keys.contains(keys[j]));
                            }
                        }
                        lemma_find_none(after_keys, other);
                    },
                }
            }
        },
    }
}

/// A shallow merge overwrites and adds, and leaves the rest untouched: the
/// merged object has under each key what `update` binds it to last, and
/// under a key that `update` does not name what `base` has there.
pub proof fn lemma_merged_get(
    base: Seq<(Seq<char>, JsonView)>,
    update: Seq<(Seq<char>, JsonView)>,
    key: Seq<char>,
)
    ensures
        JsonView::Object(merged(base, update)).get(key) == match last_bound(update, key) {
            Some(value) => Some(value),
            None => JsonView::Object(base).get(key),
        },
    decreases update.len(),
{
    if update.len() > 0 {
        lemma_merged_get(base, update.drop_last(), key);
        lemma_with_member_get(
            merged(base, update.drop_last()),
            update.last().0,
            update.last().1,
            key,
        );
    }
}

/// Binds `key` to `value` in a member list.
pub fn set_member(members: &mut Vec<(String, Json)>, key: String, value: Json)
    ensures
        members_view(final(members)@) == with_member(members_view(old(members)@), key@, value@),
{
    let ghost before = members_view(members@);
    match member_index(members, key.as_str()) {
        Some(i) => {
            members[i] = (key, value);
            assert(members_view(members@) =~= before.update(i as int, (key@, value@)));
        },
        None => {
            members.push((key, value));
            assert(members_view(members@) =~= before.push((key@, value@)));
        },
    }
}

/// Merges the members of `update` into `base`, shallowly.
pub fn merge_members(base: &mut Vec<(String, Json)>, update: &Vec<(String, Json)>)
    ensures
        members_view(final(base)@) == merged(members_view(old(base)@), members_view(update@)),
{
    let ghost start = members_view(base@);
    let ghost all = members_view(update@);
    let mut i: usize = 0;
    while i < update.len()
        invariant
            i <= update.len(),
            all == members_view(update@),
            members_view(base@) == merged(start, all.subrange(0, i as int)),
        decreases update.len() - i,
    {
        let key = update[i].0.clone();
        let value = update[i].1.clone();
        set_member(base, key, value);
        proof {
            let next = all.subrange(0, i as int + 1);
            assert(next.drop_last() =~= all.subrange(0, i as int));
            assert(next.last() == all[i as int]);
        }
        i += 1;
    }
    assert(all.subrange(0, i as int) =~= all);
}

impl Clone for Json {
    /// A deep copy with the same value.
    fn clone(&self) -> (copy: Json)
        ensures
            copy@ == self@,
        decreases self,
    {
        match self {
            Json::Null => Json::Null,
            Json::Bool(b) => Json::Bool(*b),
            Json::Number(n) => Json::Number(*n),
            Json::String(s) => Json::String(s.clone()),
            Json::Array(items) => {
                let mut copies: Vec<Json> = Vec::new();
                let mut i: usize = 0;
                while i < items.len()
                    invariant
                        i <= items.len(),
                        copies.len() == i,
                        decreases_to!(*self => *items),
                        forall|j: int| 0 <= j < i ==> copies@[j]@ == items@[j]@,
                    decreases items.len() - i,
                {
                    proof {
                        broadcast use vstd::std_specs::vec::axiom_vec_index_decreases;

                        assert(decreases_to!(*items => items[i as int]));
                    }
                    let item = items[i].clone();
                    copies.push(item);
                    i += 1;
                }
                proof {
                    lemma_array_view(*items);
                    lemma_array_view(copies);
                    assert(items_view(copies@) =~= items_view(items@));
                }
                Json::Array(copies)
            },
            Json::Object(members) => {
                let mut copies: Vec<(String, Json)> = Vec::new();
                let mut i: usize = 0;
                while i < members.len()
                    invariant
                        i <= members.len(),
                        copies.len() == i,
                        decreases_to!(*self => *members),
                        forall|j: int|
                            0 <= j < i ==> copies@[j].0@ == members@[j].0@ && copies@[j].1@
                                == members@[j].1@,
                    decreases members.len() - i,
                {
                    let key = members[i].0.clone();
                    proof {
                        broadcast use vstd::std_specs::vec::axiom_vec_index_decreases;

                        assert(decreases_to!(*members => members[i as int]));
                    }
                    let value = members[i].1.clone();
                    copies.push((key, value));
                    i += 1;
                }
                proof {
                    lemma_object_view(*members);
                    lemma_object_view(copies);
                    assert(members_view(copies@) =~= members_view(members@));
                }
                Json::Object(copies)
            },
        }
    }
}

} // verus!

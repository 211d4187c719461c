//! Sequences as keyed collections: the first occurrence of a value, values
//! that stay distinct, and the comparison of text.

use vstd::prelude::*;

verus! {

/// `i` is the index of the first occurrence of `needle` in `s`.
pub open spec fn first_at<T>(s: Seq<T>, needle: T, i: int) -> bool {
    &&& 0 <= i < s.len()
    &&& s[i] == needle
    &&& forall|j: int| 0 <= j < i ==> s[j] != needle
}

/// The index of the first occurrence of `needle` in `s`, if there is one.
pub open spec fn find<T>(s: Seq<T>, needle: T) -> Option<int> {
    if exists|i: int| first_at(s, needle, i) {
        Some(choose|i: int| first_at(s, needle, i))
    } else {
        None
    }
}

/// An index known to be the first occurrence is the one `find` reports.
pub proof fn lemma_find_is<T>(s: Seq<T>, needle: T, i: int)
    requires
        first_at(s, needle, i),
    ensures
        find(s, needle) == Some(i),
{
    let k = choose|k: int| first_at(s, needle, k);
    assert(first_at(s, needle, k));
    assert(k == i) by {
        if k < i {
            assert(s[k] != needle);
        } else if i < k {
            assert(s[i] != needle);
        }
    }
}

/// A value that occurs nowhere has no first occurrence.
pub proof fn lemma_find_none<T>(s: Seq<T>, needle: T)
    requires
        !s.contains(needle),
    ensures
        find(s, needle) is None,
{
    assert forall|i: int| !first_at(s, needle, i) by {
        if 0 <= i < s.len() && s[i] == needle {
            assert(s.contains(needle));
        }
    }
}

/// A value that occurs at `k` has a first occurrence, at `k` or before it.
pub proof fn lemma_find_some<T>(s: Seq<T>, needle: T, k: int)
    requires
        0 <= k < s.len(),
        s[k] == needle,
    ensures
        find(s, needle) is Some,
        first_at(s, needle, find(s, needle).unwrap()),
        find(s, needle).unwrap() <= k,
    decreases k,
{
    if exists|j: int| 0 <= j < k && s[j] == needle {
        let j = choose|j: int| 0 <= j < k && s[j] == needle;
        lemma_find_some(s, needle, j);
    } else {
        assert(first_at(s, needle, k));
        lemma_find_is(s, needle, k);
    }
}

/// `find` reports `None` exactly when the value occurs nowhere, and otherwise
/// the index of its first occurrence.
pub proof fn lemma_find<T>(s: Seq<T>, needle: T)
    ensures
        match find(s, needle) {
            Some(i) => first_at(s, needle, i),
            None => !s.contains(needle),
        },
{
    if s.contains(needle) {
        let k = choose|k: int| 0 <= k < s.len() && s[k] == needle;
        lemma_find_some(s, needle, k);
    } else {
        lemma_find_none(s, needle);
    }
}

/// Adding a value that does not occur to distinct values leaves distinct
/// values.
pub proof fn lemma_push_distinct<T>(s: Seq<T>, value: T)
    requires
        s.no_duplicates(),
        !s.contains(value),
    ensures
        s.push(value).no_duplicates(),
{
    let grown = s.push(value);
    assert forall|a: int, b: int|
        0 <= a < grown.len() && 0 <= b < grown.len() && a != b implies grown[a] != grown[b] by {
        if a < s.len() {
            assert(s.contains(s[a]));
        }
        if b < s.len() {
            assert(s.contains(s[b]));
        }
    }
}

/// Removing one of several distinct values leaves distinct values, none of
/// them the one removed.
pub proof fn lemma_remove_distinct<T>(s: Seq<T>, at: int)
    requires
        s.no_duplicates(),
        0 <= at < s.len(),
    ensures
        s.remove(at).no_duplicates(),
        !s.remove(at).contains(s[at]),
{
    let rest = s.remove(at);
    assert forall|a: int, b: int|
        0 <= a < rest.len() && 0 <= b < rest.len() && a != b implies rest[a] != rest[b] by {
        let from_a = if a < at { a } else { a + 1 };
        let from_b = if b < at { b } else { b + 1 };
        assert(rest[a] == s[from_a]);
        assert(rest[b] == s[from_b]);
    }
    assert forall|a: int| 0 <= a < rest.len() implies rest[a] != s[at] by {
        let from_a = if a < at { a } else { a + 1 };
        assert(rest[a] == s[from_a]);
    }
}

/// Replacing one of several distinct values by a value that does not occur
/// leaves distinct values, none of them the one replaced.
pub proof fn lemma_update_distinct<T>(s: Seq<T>, at: int, value: T)
    requires
        s.no_duplicates(),
        0 <= at < s.len(),
        !s.contains(value),
    ensures
        s.update(at, value).no_duplicates(),
        !s.update(at, value).contains(s[at]),
{
    let changed = s.update(at, value);
    assert forall|a: int, b: int|
        0 <= a < changed.len() && 0 <= b < changed.len() && a != b implies changed[a]
        != changed[b] by {
        if a != at {
            assert(s.contains(s[a]));
        }
        if b != at {
            assert(s.contains(s[b]));
        }
    }
    assert(s.contains(s[at]));
}

/// Whether two pieces of text hold the same characters.
pub fn same_text(a: &str, b: &str) -> (same: bool)
    ensures
        same == (a@ == b@),
{
    let left: String = a.to_owned();
    let right: String = b.to_owned();
    left == right
}

} // verus!

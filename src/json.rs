//! A decoded JSON document, and the lookups that the collectors make in it.
//!
//! A missing member and a lookup on a value that is no object both give
//! `None`, as indexing a JSON value gives `null`.

use vstd::prelude::*;

verus! {

/// A JSON value. Numbers are kept only as far as the collectors read them:
/// an unsigned integer that fits in `u64`, or some other number.
pub enum Json {
    Null,
    Bool(bool),
    Uint(u64),
    OtherNumber,
    Str(String),
    Array(Vec<Json>),
    Object(Vec<(String, Json)>),
}

/// The value of the first member named `key`.
pub open spec fn lookup(entries: Seq<(String, Json)>, key: Seq<char>) -> Option<Json>
    decreases entries.len(),
{
    if entries.len() == 0 {
        None
    } else if entries[0].0@ == key {
        Some(entries[0].1)
    } else {
        lookup(entries.drop_first(), key)
    }
}

/// Member `key` of `j`.
pub open spec fn at(j: Option<Json>, key: Seq<char>) -> Option<Json> {
    match j {
        Some(Json::Object(entries)) => lookup(entries@, key),
        _ => None,
    }
}

pub open spec fn as_str(j: Option<Json>) -> Option<Seq<char>> {
    match j {
        Some(Json::Str(s)) => Some(s@),
        _ => None,
    }
}

pub open spec fn as_u64(j: Option<Json>) -> Option<u64> {
    match j {
        Some(Json::Uint(n)) => Some(n),
        _ => None,
    }
}

pub open spec fn as_array(j: Option<Json>) -> Option<Seq<Json>> {
    match j {
        Some(Json::Array(items)) => Some(items@),
        _ => None,
    }
}

pub open spec fn deref_opt(j: Option<&Json>) -> Option<Json> {
    match j {
        Some(v) => Some(*v),
        None => None,
    }
}

/// Member `key` of `j`.
pub fn member<'a>(j: Option<&'a Json>, key: &str) -> (r: Option<&'a Json>)
    ensures
        deref_opt(r) == at(deref_opt(j), key@),
{
    let v = match j {
        Some(v) => v,
        None => return None,
    };
    let entries = match v {
        Json::Object(entries) => entries,
        _ => return None,
    };
    assert(at(deref_opt(j), key@) == lookup(entries@, key@));
    let k = key.to_owned();
    let mut i: usize = 0;
    assert(entries@.skip(0) =~= entries@);
    while i < entries.len()
        invariant
            i <= entries@.len(),
            k@ == key@,
            at(deref_opt(j), key@) == lookup(entries@, key@),
            lookup(entries@, key@) == lookup(entries@.skip(i as int), key@),
        decreases entries@.len() - i,
    {
        assert(entries@.skip(i as int).drop_first() =~= entries@.skip(i + 1));
        if entries[i].0 == k {
            assert(entries@.skip(i as int)[0] == entries@[i as int]);
            return Some(&entries[i].1);
        }
        i = i + 1;
    }
    None
}

/// The text of `j`, if it is a string.
pub fn str_of<'a>(j: Option<&'a Json>) -> (r: Option<&'a String>)
    ensures
        match r {
            Some(s) => as_str(deref_opt(j)) == Some(s@),
            None => as_str(deref_opt(j)) is None,
        },
{
    match j {
        Some(Json::Str(s)) => Some(s),
        _ => None,
    }
}

/// The number in `j`, if it is an unsigned integer within `u64`.
pub fn u64_of(j: Option<&Json>) -> (r: Option<u64>)
    ensures
        r == as_u64(deref_opt(j)),
{
    match j {
        Some(Json::Uint(n)) => Some(*n),
        _ => None,
    }
}

/// The items of `j`, if it is an array.
pub fn array_of<'a>(j: Option<&'a Json>) -> (r: Option<&'a Vec<Json>>)
    ensures
        match r {
            Some(v) => as_array(deref_opt(j)) == Some(v@),
            None => as_array(deref_opt(j)) is None,
        },
{
    match j {
        Some(Json::Array(items)) => Some(items),
        _ => None,
    }
}

/// The text of `j` if it is a string, else `d`.
pub open spec fn str_or(j: Option<Json>, d: Seq<char>) -> Seq<char> {
    match as_str(j) {
        Some(s) => s,
        None => d,
    }
}

/// Computes `str_or` on `j` and `d`.
pub fn text_or(j: Option<&Json>, d: &str) -> (r: String)
    ensures
        r@ == str_or(deref_opt(j), d@),
{
    match str_of(j) {
        Some(s) => s.clone(),
        None => d.to_owned(),
    }
}

} // verus!

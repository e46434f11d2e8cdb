//! A JSON document as plain values, and looking things up in it.

use crate::text::{chars_of, is_text};
use vstd::prelude::*;

verus! {

/// A JSON value. A number is held as it is written.
#[derive(Debug, PartialEq, Eq)]
pub enum Json {
    Null,
    Bool(bool),
    Number(String),
    Text(String),
    List(Vec<Json>),
    Object(Vec<Member>),
}

/// One member of a JSON object.
#[derive(Debug, PartialEq, Eq)]
pub struct Member {
    pub key: String,
    pub value: Json,
}

/// The value of the first member with the key `key`.
pub open spec fn member(members: Seq<Member>, key: Seq<char>) -> Option<Json>
    decreases members.len(),
{
    if members.len() == 0 {
        None
    } else if members[0].key@ == key {
        Some(members[0].value)
    } else {
        member(members.drop_first(), key)
    }
}

/// The text of the member with the key `key`, if there is such a member and
/// its value is a text.
pub open spec fn text_member(members: Seq<Member>, key: Seq<char>) -> Option<Seq<char>> {
    match member(members, key) {
        Some(Json::Text(t)) => Some(t@),
        _ => None,
    }
}

/// The text of the first of the keys under which the object holds a text.
pub open spec fn first_text(members: Seq<Member>, keys: Seq<Seq<char>>) -> Option<Seq<char>>
    decreases keys.len(),
{
    if keys.len() == 0 {
        None
    } else {
        match text_member(members, keys[0]) {
            Some(t) => Some(t),
            None => first_text(members, keys.drop_first()),
        }
    }
}

/// Where the first member with the key `key` stands.
pub fn position_of(members: &Vec<Member>, key: &str) -> (at: Option<usize>)
    ensures
        match at {
            Some(i) => i < members.len() && member(members@, key@) == Some(members@[i as int].value),
            None => member(members@, key@) is None,
        },
{
    let k = chars_of(key);
    let mut i: usize = 0;
    assert(members@.skip(0) =~= members@);
    while i < members.len()
        invariant
            i <= members.len(),
            k@ == key@,
            member(members@, key@) == member(members@.skip(i as int), key@),
        decreases members.len() - i,
    {
        if is_text(&k, members[i].key.as_str()) {
            return Some(i);
        }
        assert(members@.skip(i as int).drop_first() =~= members@.skip(i + 1));
        i += 1;
    }
    None
}

/// The value of the first member with the key `key`.
pub fn find_member<'a>(members: &'a Vec<Member>, key: &str) -> (found: Option<&'a Json>)
    ensures
        match found {
            Some(v) => member(members@, key@) == Some(*v),
            None => member(members@, key@) is None,
        },
{
    match position_of(members, key) {
        Some(i) => Some(&members[i].value),
        None => None,
    }
}

/// The text of the member with the key `key`, if the object holds a text there.
pub fn text_of_member<'a>(members: &'a Vec<Member>, key: &str) -> (found: Option<&'a String>)
    ensures
        match found {
            Some(t) => text_member(members@, key@) == Some(t@),
            None => text_member(members@, key@) is None,
        },
{
    match find_member(members, key) {
        Some(Json::Text(t)) => Some(t),
        _ => None,
    }
}

/// What each of the given keys holds.
pub open spec fn key_texts(keys: Seq<&'static str>) -> Seq<Seq<char>> {
    keys.map_values(|k: &'static str| k@)
}

/// The text of the first of the keys under which the object holds a text;
/// the empty text where it holds none under any of them.
pub open spec fn first_text_or_empty(members: Seq<Member>, keys: Seq<Seq<char>>) -> Seq<char> {
    match first_text(members, keys) {
        Some(t) => t,
        None => Seq::empty(),
    }
}

/// The text of the first of the keys under which the object holds a text;
/// the empty text where it holds none under any of them.
pub fn text_under(members: &Vec<Member>, keys: &Vec<&'static str>) -> (text: String)
    ensures
        text@ == first_text_or_empty(members@, key_texts(keys@)),
{
    let ghost all = key_texts(keys@);
    let mut i: usize = 0;
    assert(all.skip(0) =~= all);
    while i < keys.len()
        invariant
            i <= keys.len(),
            all == key_texts(keys@),
            first_text(members@, all) == first_text(members@, all.skip(i as int)),
        decreases keys.len() - i,
    {
        assert(all.skip(i as int)[0] == keys@[i as int]@);
        match text_of_member(members, keys[i]) {
            Some(t) => {
                return t.clone();
            },
            None => {},
        }
        assert(all.skip(i as int).drop_first() =~= all.skip(i + 1));
        i += 1;
    }
    String::new()
}

/// The entries of a reply that may come as a list, as an object with its
/// list under `data`, or as a single value: the items of the list, the one
/// value under `data` where that is no list, or else the value itself.
pub open spec fn entries_of(v: Json) -> Seq<Json> {
    match v {
        Json::List(items) => items@,
        Json::Object(members) => match member(members@, "data"@) {
            Some(Json::List(items)) => items@,
            Some(other) => seq![other],
            None => seq![v],
        },
        other => seq![other],
    }
}

/// The entries of a reply, whichever way it wraps them.
pub fn into_vec(v: Json) -> (entries: Vec<Json>)
    ensures
        entries@ == entries_of(v),
{
    match v {
        Json::List(items) => items,
        Json::Object(members) => {
            let mut members = members;
            match position_of(&members, "data") {
                Some(i) => {
                    let found = members.remove(i);
                    match found.value {
                        Json::List(items) => items,
                        other => {
                            let mut one: Vec<Json> = Vec::new();
                            one.push(other);
                            assert(one@ =~= seq![other]);
                            one
                        },
                    }
                },
                None => {
                    let mut one: Vec<Json> = Vec::new();
                    one.push(Json::Object(members));
                    assert(one@ =~= seq![v]);
                    one
                },
            }
        },
        other => {
            let mut one: Vec<Json> = Vec::new();
            one.push(other);
            assert(one@ =~= seq![other]);
            one
        },
    }
}

} // verus!

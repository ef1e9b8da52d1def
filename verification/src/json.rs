//! JSON values, as far as the library reads them.
//!
//! The library parses no JSON text. A value comes from the host, which has
//! parsed it, and the functions here look things up in it.

use vstd::prelude::*;

verus! {

/// A JSON value. A number is kept as it was written.
#[derive(Debug, PartialEq, Eq)]
pub enum Json {
    Null,
    Bool(bool),
    Number(String),
    String(String),
    Array(Vec<Json>),
    Object(Vec<(String, Json)>),
}

/// Position of the first member at or after `from` whose name is `key`.
pub open spec fn member_position_from(members: Seq<(String, Json)>, key: Seq<char>, from: int) -> Option<
    int,
>
    decreases members.len() - from,
{
    if from < 0 || from >= members.len() {
        None
    } else if members[from].0@ == key {
        Some(from)
    } else {
        member_position_from(members, key, from + 1)
    }
}

/// The member `key` of `value`: of an object, the first member of that name;
/// of anything else, nothing.
pub open spec fn member(value: Json, key: Seq<char>) -> Option<Json> {
    match value {
        Json::Object(members) => match member_position_from(members@, key, 0) {
            Some(i) => Some(members@[i].1),
            None => None,
        },
        _ => None,
    }
}

/// The text of `value`, if it is a string.
pub open spec fn text_of(value: Json) -> Option<Seq<char>> {
    match value {
        Json::String(s) => Some(s@),
        _ => None,
    }
}

/// The items of `value`, if it is an array.
pub open spec fn items_of(value: Json) -> Option<Seq<Json>> {
    match value {
        Json::Array(items) => Some(items@),
        _ => None,
    }
}

impl Json {
    /// Looks up the member `key`: see [`member`].
    pub fn get(&self, key: &str) -> (found: Option<&Json>)
        ensures
            found matches Some(v) ==> member(*self, key@) == Some(*v),
            found is None ==> member(*self, key@) is None,
    {
        match self {
            Json::Object(members) => {
                let wanted = String::from_str(key);
                let mut i: usize = 0;
                while i < members.len()
                    invariant
                        i <= members.len(),
                        wanted@ == key@,
                        *self == Json::Object(*members),
                        member_position_from(members@, key@, 0) == member_position_from(
                            members@,
                            key@,
                            i as int,
                        ),
                    decreases members.len() - i,
                {
                    if members[i].0 == wanted {
                        assert(member_position_from(members@, key@, i as int) == Some(i as int));
                        return Some(&members[i].1);
                    }
                    i = i + 1;
                }
                None
            },
            _ => None,
        }
    }

    /// The text of a string: see [`text_of`].
    pub fn as_str(&self) -> (text: Option<&str>)
        ensures
            text matches Some(s) ==> text_of(*self) == Some(s@),
            text is None ==> text_of(*self) is None,
    {
        match self {
            Json::String(s) => Some(s.as_str()),
            _ => None,
        }
    }

    /// The items of an array: see [`items_of`].
    pub fn as_array(&self) -> (items: Option<&Vec<Json>>)
        ensures
            items matches Some(v) ==> items_of(*self) == Some(v@),
            items is None ==> items_of(*self) is None,
    {
        match self {
            Json::Array(items) => Some(items),
            _ => None,
        }
    }
}

} // verus!

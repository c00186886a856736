//! A JSON document held as plain values, and lookups into it.

use crate::text::same_text;
use vstd::prelude::*;

verus! {

/// A JSON value. Numbers keep their textual form; an object keeps its members
/// in document order.
#[derive(Debug)]
pub enum Json {
    Null,
    Bool(bool),
    Number(String),
    Str(String),
    Array(Vec<Json>),
    Object(Vec<(String, Json)>),
}

/// The value of the first member of `members` whose key is `key`.
pub open spec fn member(members: Seq<(String, Json)>, key: Seq<char>) -> Option<Json>
    decreases members.len(),
{
    if members.len() == 0 {
        None
    } else if members[0].0@ == key {
        Some(members[0].1)
    } else {
        member(members.drop_first(), key)
    }
}

/// The member `key` of `j` when `j` is an object that has one.
pub open spec fn field(j: Json, key: Seq<char>) -> Option<Json> {
    match j {
        Json::Object(members) => member(members@, key),
        _ => None,
    }
}

/// The text of member `key` of `j` when that member is a string.
pub open spec fn str_field(j: Json, key: Seq<char>) -> Option<Seq<char>> {
    match field(j, key) {
        Some(Json::Str(s)) => Some(s@),
        _ => None,
    }
}

/// Looks up member `key` of `j`.
pub fn get_field<'a>(j: &'a Json, key: &str) -> (r: Option<&'a Json>)
    ensures
        match r {
            Some(v) => field(*j, key@) == Some(*v),
            None => field(*j, key@) is None,
        },
{
    match j {
        Json::Object(members) => {
            let n = members.len();
            let mut i: usize = 0;
            assert(members@.subrange(0, n as int) =~= members@);
            while i < n
                invariant
                    0 <= i <= n == members@.len(),
                    field(*j, key@) == member(members@, key@),
                    member(members@, key@) == member(members@.subrange(i as int, n as int), key@),
                decreases n - i,
            {
                let ghost rest = members@.subrange(i as int, n as int);
                assert(rest.drop_first() =~= members@.subrange(i + 1, n as int));
                assert(rest[0] == members@[i as int]);
                if same_text(members[i].0.as_str(), key) {
                    assert(member(rest, key@) == Some(members@[i as int].1));
                    return Some(&members[i].1);
                }
                i = i + 1;
            }
            None
        },
        _ => None,
    }
}

/// Looks up member `key` of `j` and returns its text when it is a string.
pub fn get_str_field<'a>(j: &'a Json, key: &str) -> (r: Option<&'a String>)
    ensures
        match r {
            Some(s) => str_field(*j, key@) == Some(s@),
            None => str_field(*j, key@) is None,
        },
{
    match get_field(j, key) {
        Some(Json::Str(s)) => Some(s),
        _ => None,
    }
}

} // verus!

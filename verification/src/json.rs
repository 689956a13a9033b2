//! JSON values, as language servers are sent and send back.
use vstd::prelude::*;

use crate::text::same_text;

verus! {

/// A JSON value.
#[derive(Debug)]
pub enum Json {
    Null,
    Bool(bool),
    /// A number that is an integer and not negative.
    Unsigned(u64),
    /// A number that is a negative integer.
    Negative(i64),
    Text(String),
    List(Vec<Json>),
    Object(Vec<(String, Json)>),
    /// Any other value, written out as JSON.
    Raw(String),
}

/// The value of the first member from `i` on that is called `key`.
pub open spec fn member_from(members: Seq<(String, Json)>, key: Seq<char>, i: int) -> Option<Json>
    decreases members.len() - i,
{
    if i >= members.len() {
        None
    } else if members[i].0@ == key {
        Some(members[i].1)
    } else {
        member_from(members, key, i + 1)
    }
}

impl Json {
    /// The value of the member called `key`; only an object has members.
    pub open spec fn member(self, key: Seq<char>) -> Option<Json> {
        match self {
            Json::Object(members) => member_from(members@, key, 0),
            _ => None,
        }
    }

    /// Whether the value is the text `s`.
    pub open spec fn is_text(self, s: Seq<char>) -> bool {
        self matches Json::Text(t) && t@ == s
    }

    /// Whether the value is an object with these keys, in this order.
    pub open spec fn has_keys(self, keys: Seq<Seq<char>>) -> bool {
        &&& self matches Json::Object(members)
        &&& members@.len() == keys.len()
        &&& forall|i: int| 0 <= i < keys.len() ==> (#[trigger] members@[i]).0@ == keys[i]
    }

    /// The value of member `i` of an object.
    pub open spec fn at(self, i: int) -> Json {
        self->Object_0@[i].1
    }

    /// The value of the member called `key`.
    pub fn get(&self, key: &str) -> (r: Option<&Json>)
        ensures
            self.member(key@) == match r {
                Some(v) => Some(*v),
                None => None,
            },
    {
        match self {
            Json::Object(members) => {
                let mut i: usize = 0;
                while i < members.len()
                    invariant
                        i <= members@.len(),
                        *self == Json::Object(*members),
                        self.member(key@) == member_from(members@, key@, i as int),
                    decreases members@.len() - i,
                {
                    if same_text(members[i].0.as_str(), key) {
                        return Some(&members[i].1);
                    }
                    i = i + 1;
                }
                None
            },
            _ => None,
        }
    }

    /// The integer that a number is, unless it is negative.
    pub open spec fn unsigned(self) -> Option<u64> {
        match self {
            Json::Unsigned(n) => Some(n),
            _ => None,
        }
    }

    /// The integer that a number is, unless it is negative.
    pub fn as_u64(&self) -> (r: Option<u64>)
        ensures
            r == self.unsigned(),
    {
        match self {
            Json::Unsigned(n) => Some(*n),
            _ => None,
        }
    }

    /// The text that a value is.
    pub open spec fn text(self) -> Option<Seq<char>> {
        match self {
            Json::Text(s) => Some(s@),
            _ => None,
        }
    }

    /// The text that a value is.
    pub fn as_text(&self) -> (r: Option<&str>)
        ensures
            self.text() == match r {
                Some(s) => Some(s@),
                None => None,
            },
    {
        match self {
            Json::Text(s) => Some(s.as_str()),
            _ => None,
        }
    }
}

} // verus!

//! The JSON values that Cast control messages carry, and what the protocol
//! code reads from them: object members, strings and integers.
//!
//! A number keeps three readings of itself: `integer`, its value when it is
//! an integer that fits an `i64`; `unsigned`, its value when it is an
//! integer that fits a `u64`; and `positive_floor`, for a finite positive
//! number, its value capped at 9e18 and truncated towards zero.

use vstd::prelude::*;

use crate::text::{chars_of, str_equal};

verus! {

#[derive(Clone, Copy, PartialEq, Eq, Structural, Debug)]
pub struct JsonNumber {
    pub integer: Option<i64>,
    pub unsigned: Option<u64>,
    pub positive_floor: Option<i64>,
}

#[derive(PartialEq, Debug)]
pub enum JsonValue {
    Null,
    Bool(bool),
    Number(JsonNumber),
    String(String),
    Array(Vec<JsonValue>),
    Object(Vec<(String, JsonValue)>),
}

/// The index of the first member of `members` named `key`, if any.
pub open spec fn member_index(members: Seq<(String, JsonValue)>, key: Seq<char>) -> Option<int> {
    if exists|i: int| 0 <= i < members.len() && #[trigger] members[i].0@ == key {
        let i = choose|i: int|
            0 <= i < members.len() && #[trigger] members[i].0@ == key && forall|j: int|
                0 <= j < i ==> #[trigger] members[j].0@ != key;
        Some(i)
    } else {
        None
    }
}

/// The member `key` of `value`, when `value` is an object that has one (the
/// first, should there be several).
pub open spec fn spec_get(value: JsonValue, key: Seq<char>) -> Option<JsonValue> {
    match value {
        JsonValue::Object(members) => match member_index(members@, key) {
            Some(i) => Some(members@[i].1),
            None => None,
        },
        _ => None,
    }
}

/// The value as an `i64`, when it is an integer that fits one.
pub open spec fn spec_as_i64(value: JsonValue) -> Option<i64> {
    match value {
        JsonValue::Number(n) => n.integer,
        _ => None,
    }
}

/// The characters of the value, when it is a string.
pub open spec fn spec_as_str(value: JsonValue) -> Option<Seq<char>> {
    match value {
        JsonValue::String(s) => Some(s@),
        _ => None,
    }
}

proof fn lemma_first_member(members: Seq<(String, JsonValue)>, key: Seq<char>, i: int)
    requires
        0 <= i < members.len(),
        members[i].0@ == key,
        forall|j: int| 0 <= j < i ==> #[trigger] members[j].0@ != key,
    ensures
        member_index(members, key) == Some(i),
{
    let k = choose|k: int|
        0 <= k < members.len() && #[trigger] members[k].0@ == key && forall|j: int|
            0 <= j < k ==> #[trigger] members[j].0@ != key;
    assert(0 <= k < members.len() && members[k].0@ == key && forall|j: int|
        0 <= j < k ==> #[trigger] members[j].0@ != key);
    if k < i {
        assert(members[k].0@ != key);
    }
    if i < k {
        assert(members[i].0@ != key);
    }
}

impl JsonValue {
    /// The member `key`, when this is an object that has one.
    pub fn get(&self, key: &str) -> (r: Option<&JsonValue>)
        ensures
            match spec_get(*self, key@) {
                Some(member) => r == Some(&member),
                None => r is None,
            },
    {
        match *self {
            JsonValue::Object(ref members) => {
                let mut i: usize = 0;
                while i < members.len()
                    invariant
                        i <= members@.len(),
                        *self === JsonValue::Object(*members),
                        forall|j: int| 0 <= j < i ==> #[trigger] members@[j].0@ != key@,
                    decreases members@.len() - i,
                {
                    if str_equal(members[i].0.as_str(), key) {
                        proof {
                            lemma_first_member(members@, key@, i as int);
                        }
                        return Some(&members[i].1);
                    }
                    i += 1;
                }
                None
            },
            _ => None,
        }
    }

    /// The value as an `i64`, when it is an integer that fits one.
    pub fn as_i64(&self) -> (r: Option<i64>)
        ensures
            r == spec_as_i64(*self),
    {
        match self {
            JsonValue::Number(n) => n.integer,
            _ => None,
        }
    }

    /// The value, when it is a string.
    pub fn as_str(&self) -> (r: Option<&str>)
        ensures
            match spec_as_str(*self) {
                Some(s) => r is Some && r->0@ == s,
                None => r is None,
            },
    {
        match self {
            JsonValue::String(s) => Some(s.as_str()),
            _ => None,
        }
    }
}

} // verus!

//! A JSON document as the catalogue responses are read: each node keeps its
//! value and the text it serialises to.

use vstd::prelude::*;

verus! {

/// The value of a JSON node.
pub enum JsonValue {
    Null,
    Bool(bool),
    /// A number, with its value when it is a non-negative integer that fits
    /// in 64 bits.
    Number(Option<u64>),
    Str(String),
    Array(Vec<Json>),
    /// Members in document order; a lookup reads the first member with the
    /// key.
    Object(Vec<(String, Json)>),
}

/// A JSON node and its compact serialisation (strings quoted and escaped).
pub struct Json {
    pub value: JsonValue,
    pub text: String,
}

/// The first member of `members` with key `key`.
pub open spec fn first_member(members: Seq<(String, Json)>, key: Seq<char>) -> Option<Json>
    decreases members.len(),
{
    if members.len() == 0 {
        None
    } else if members[0].0@ == key {
        Some(members[0].1)
    } else {
        first_member(members.drop_first(), key)
    }
}

/// The member `key` of `j`, when `j` is an object that has one; what
/// indexing an object by a key reads.
pub open spec fn member(j: Json, key: Seq<char>) -> Option<Json> {
    match j.value {
        JsonValue::Object(members) => first_member(members@, key),
        _ => None,
    }
}

/// The node is an object.
pub open spec fn is_object(j: Json) -> bool {
    j.value is Object
}

/// `as_u64`: the value of a non-negative integer node.
pub open spec fn as_u64(j: Json) -> Option<u64> {
    match j.value {
        JsonValue::Number(n) => n,
        _ => None,
    }
}

/// `as_str`: the contents of a string node.
pub open spec fn as_str(j: Json) -> Option<Seq<char>> {
    match j.value {
        JsonValue::Str(s) => Some(s@),
        _ => None,
    }
}

/// `as_array`: the items of an array node.
pub open spec fn as_array(j: Json) -> Option<Seq<Json>> {
    match j.value {
        JsonValue::Array(items) => Some(items@),
        _ => None,
    }
}

/// The serialisation of `null`.
pub open spec fn null_text() -> Seq<char> {
    seq!['n', 'u', 'l', 'l']
}

/// The serialisation of an optional node; a missing one reads as `null`.
pub open spec fn text_or_null(j: Option<Json>) -> Seq<char> {
    match j {
        Some(v) => v.text@,
        None => null_text(),
    }
}

/// `j[key]` as a node of its own: `j[key].as_u64()`.
pub open spec fn member_u64(j: Json, key: Seq<char>) -> Option<u64> {
    match member(j, key) {
        Some(v) => as_u64(v),
        None => None,
    }
}

/// `j[key].as_str()`.
pub open spec fn member_str(j: Json, key: Seq<char>) -> Option<Seq<char>> {
    match member(j, key) {
        Some(v) => as_str(v),
        None => None,
    }
}

/// `j[key].as_array()`.
pub open spec fn member_array(j: Json, key: Seq<char>) -> Option<Seq<Json>> {
    match member(j, key) {
        Some(v) => as_array(v),
        None => None,
    }
}

impl Json {
    /// The member `key` of this node, when it is an object that has one.
    pub fn get(&self, key: &str) -> (r: Option<&Json>)
        ensures
            match r {
                Some(v) => member(*self, key@) == Some(*v),
                None => member(*self, key@) is None,
            },
    {
        match &self.value {
            JsonValue::Object(members) => {
                let k = key.to_owned();
                let n = members.len();
                let mut i: usize = 0;
                assert(members@.skip(0) =~= members@);
                while i < n
                    invariant
                        i <= n == members@.len(),
                        member(*self, key@) == first_member(members@, key@),
                        k@ == key@,
                        first_member(members@, key@) == first_member(members@.skip(i as int), key@),
                    decreases n - i,
                {
                    assert(members@.skip(i as int).drop_first() =~= members@.skip(i + 1));
                    if members[i].0 == k {
                        return Some(&members[i].1);
                    }
                    i = i + 1;
                }
                None
            },
            _ => None,
        }
    }

    /// Whether this node is an object.
    pub fn is_object(&self) -> (b: bool)
        ensures
            b == is_object(*self),
    {
        match &self.value {
            JsonValue::Object(_) => true,
            _ => false,
        }
    }

    /// `as_u64`.
    pub fn as_u64(&self) -> (r: Option<u64>)
        ensures
            r == as_u64(*self),
    {
        match &self.value {
            JsonValue::Number(n) => *n,
            _ => None,
        }
    }

    /// `as_str`.
    pub fn as_str(&self) -> (r: Option<&String>)
        ensures
            match r {
                Some(s) => as_str(*self) == Some(s@),
                None => as_str(*self) is None,
            },
    {
        match &self.value {
            JsonValue::Str(s) => Some(s),
            _ => None,
        }
    }

    /// `as_array`.
    pub fn as_array(&self) -> (r: Option<&Vec<Json>>)
        ensures
            match r {
                Some(items) => as_array(*self) == Some(items@),
                None => as_array(*self) is None,
            },
    {
        match &self.value {
            JsonValue::Array(items) => Some(items),
            _ => None,
        }
    }
}

/// The serialisation of an optional node, `null` when it is missing.
pub fn text_or_null_exec(j: Option<&Json>) -> (r: String)
    ensures
        r@ == text_or_null(
            match j {
                Some(v) => Some(*v),
                None => None,
            },
        ),
{
    match j {
        Some(v) => v.text.clone(),
        None => {
            let n = "null";
            proof {
                reveal_strlit("null");
            }
            assert(n@ =~= null_text());
            n.to_owned()
        },
    }
}

/// `j[key].as_u64()`.
pub fn member_u64_exec(j: &Json, key: &str) -> (r: Option<u64>)
    ensures
        r == member_u64(*j, key@),
{
    match j.get(key) {
        Some(v) => v.as_u64(),
        None => None,
    }
}

} // verus!

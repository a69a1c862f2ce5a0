//! A JSON document as plain values: the shape of daemon reply frames and of
//! `Info.tontoo` bundle files once they are parsed.
use vstd::prelude::*;

use crate::text::str_equal;
use serde_json::Value;
use crate::json::JsonNumber::{Float, NegInt, PosInt};

verus! {

/// A JSON number, kept in the three forms a JSON parser distinguishes.
#[derive(Debug)]
pub enum JsonNumber {
    /// A non-negative integer that fits in `u64`.
    PosInt(u64),
    /// A negative integer that fits in `i64`.
    NegInt(i64),
    /// Any other number, kept as its decimal text.
    Float(String),
}

/// A JSON value. Objects hold their members as a list of name and value;
/// in a parsed document (see [`parse_json`]) each name occurs once.
#[derive(Debug)]
pub enum Json {
    Null,
    Bool(bool),
    Number(JsonNumber),
    Str(String),
    Array(Vec<Json>),
    Object(Vec<(String, Json)>),
}

/// The value of the first member named `key` among `members`.
pub open spec fn member(members: Seq<(String, Json)>, key: Seq<char>) -> Option<Json>
    decreases members.len(),
{
    if members.len() == 0 {
        None
    } else if members[0].0@ == key {
        Some(members[0].1)
    } else {
        member(members.drop_first(), key)
    }
}

/// Index of the first member named `key` among `members`.
pub open spec fn member_index(members: Seq<(String, Json)>, key: Seq<char>) -> int
    decreases members.len(),
{
    if members.len() == 0 {
        -1
    } else if members[0].0@ == key {
        0
    } else {
        let i = member_index(members.drop_first(), key);
        if i < 0 { -1 } else { i + 1 }
    }
}

pub proof fn lemma_member_index(members: Seq<(String, Json)>, key: Seq<char>)
    ensures
        member_index(members, key) < 0 <==> member(members, key) is None,
        member_index(members, key) < 0 ==> forall|j: int| 0 <= j < members.len() ==> members[j].0@ != key,
        member_index(members, key) >= 0 ==> {
            let i = member_index(members, key);
            &&& i < members.len()
            &&& members[i].0@ == key
            &&& member(members, key) == Some(members[i].1)
            &&& forall|j: int| 0 <= j < i ==> members[j].0@ != key
        },
    decreases members.len(),
{
    if members.len() > 0 {
        lemma_member_index(members.drop_first(), key);
        if members[0].0@ != key {
            assert forall|j: int| 0 < j < members.len() implies #[trigger] members[j] == members.drop_first()[j - 1] by {}
        }
    }
}

impl Json {
    /// The value of the member `key` of an object; nothing for other values.
    pub open spec fn field(self, key: Seq<char>) -> Option<Json> {
        match self {
            Json::Object(members) => member(members@, key),
            _ => None,
        }
    }

    /// The text of a string value.
    pub open spec fn text(self) -> Option<Seq<char>> {
        match self {
            Json::Str(s) => Some(s@),
            _ => None,
        }
    }

    /// The text of the member `key` when it is a string.
    pub open spec fn field_text(self, key: Seq<char>) -> Option<Seq<char>> {
        match self.field(key) {
            Some(v) => v.text(),
            None => None,
        }
    }

    /// The value of a boolean.
    pub open spec fn boolean(self) -> Option<bool> {
        match self {
            Json::Bool(b) => Some(b),
            _ => None,
        }
    }

    /// The member `key` of an object (the first one, should a key repeat).
    pub fn get(&self, key: &str) -> (r: Option<&Json>)
        ensures
            match r {
                Some(v) => self.field(key@) == Some(*v),
                None => self.field(key@) is None,
            },
    {
        match self {
            Json::Object(members) => {
                let mut i: usize = 0;
                assert(members@.subrange(0, members@.len() as int) =~= members@);
                while i < members.len()
                    invariant
                        i <= members@.len(),
                        self.field(key@) == member(members@, key@),
                        member(members@, key@) == member(members@.subrange(i as int, members@.len() as int), key@),
                    decreases members@.len() - i,
                {
                    let ghost rest = members@.subrange(i as int, members@.len() as int);
                    if str_equal(members[i].0.as_str(), key) {
                        assert(rest[0] == members@[i as int]);
                        assert(rest.len() > 0 && rest[0].0@ == key@);
                        assert(member(rest, key@) == Some(rest[0].1));
                        assert(members@[i as int].1 == members[i as int].1);
                        return Some(&members[i].1);
                    }
                    assert(rest.drop_first() =~= members@.subrange(i + 1, members@.len() as int));
                    i = i + 1;
                }
                None
            },
            _ => None,
        }
    }

    /// Takes the member `key` out of an object.
    pub fn take_field(self, key: &str) -> (r: Option<Json>)
        ensures
            r == self.field(key@),
    {
        let ghost whole = self;
        match self {
            Json::Object(members) => {
                let mut members = members;
                let ghost orig = members@;
                assert(whole.field(key@) == member(orig, key@));
                let mut i: usize = 0;
                assert(members@.subrange(0, members@.len() as int) =~= members@);
                while i < members.len()
                    invariant
                        members@ == orig,
                        whole == self,
                        whole.field(key@) == member(orig, key@),
                        i <= members@.len(),
                        member(orig, key@) == member(members@.subrange(i as int, members@.len() as int), key@),
                    decreases members@.len() - i,
                {
                    let ghost rest = members@.subrange(i as int, members@.len() as int);
                    if str_equal(members[i].0.as_str(), key) {
                        assert(rest[0] == orig[i as int]);
                        assert(rest.len() > 0 && rest[0].0@ == key@);
                        assert(member(rest, key@) == Some(rest[0].1));
                        let pair = members.swap_remove(i);
                        assert(pair == orig[i as int]);
                        let (_, v) = pair;
                        assert(v == orig[i as int].1);
                        assert(member(orig, key@) == Some(v));
                        assert(whole.field(key@) == Some(v));
                        return Some(v);
                    }
                    assert(rest.drop_first() =~= members@.subrange(i + 1, members@.len() as int));
                    i = i + 1;
                }
                None
            },
            _ => None,
        }
    }

    /// The text of a string value.
    pub fn as_str(&self) -> (r: Option<&str>)
        ensures
            match r {
                Some(s) => self.text() == Some(s@),
                None => self.text() is None,
            },
    {
        match self {
            Json::Str(s) => Some(s.as_str()),
            _ => None,
        }
    }

    /// The value of a boolean.
    pub fn as_bool(&self) -> (r: Option<bool>)
        ensures
            r == self.boolean(),
    {
        match self {
            Json::Bool(b) => Some(*b),
            _ => None,
        }
    }

    /// The text of the member `key` when it is a string.
    pub fn get_str(&self, key: &str) -> (r: Option<&str>)
        ensures
            match r {
                Some(s) => self.field_text(key@) == Some(s@),
                None => self.field_text(key@) is None,
            },
    {
        match self.get(key) {
            Some(v) => v.as_str(),
            None => None,
        }
    }
}

/// The member names of an object are distinct.
pub open spec fn names_distinct(members: Seq<(String, Json)>) -> bool {
    forall|i: int, j: int| 0 <= i < j < members.len() ==> members[i].0@ != members[j].0@
}

impl Json {
    /// Every object in the value, nested ones included, names each member
    /// once: objects are maps from names to values.
    pub open spec fn well_formed(self) -> bool
        decreases self,
    {
        match self {
            Json::Array(items) => forall|i: int|
                0 <= i < items@.len() ==> (#[trigger] items@[i]).well_formed(),
            Json::Object(members) => names_distinct(members@) && forall|i: int|
                0 <= i < members@.len() ==> (#[trigger] members@[i]).1.well_formed(),
            _ => true,
        }
    }
}

#[verifier::external_type_specification]
#[verifier::external_body]
pub struct ExJsonValue(serde_json::Value);

/// What `serde_json::from_str::<serde_json::Value>` makes of a text: the
/// document as a [`Json`] (numbers that fit `u64`, then `i64`, kept as
/// integers, any other kept as its decimal text), or the parser's error
/// message.
pub uninterp spec fn parsed_json(text: Seq<char>) -> core::result::Result<Json, Seq<char>>;

/// A `serde_json::Value` as a [`Json`], variant by variant.
#[verifier::external_body]
fn json_of(v: Value) -> Json {
    match v {
        Value::Null => Json::Null,
        Value::Bool(b) => Json::Bool(b),
        Value::Number(n) => Json::Number(
            n.as_u64().map(PosInt).or(n.as_i64().map(NegInt)).unwrap_or(Float(n.to_string())),
        ),
        Value::String(s) => Json::Str(s),
        Value::Array(a) => Json::Array(a.into_iter().map(json_of).collect()),
        Value::Object(m) => Json::Object(m.into_iter().map(|(k, x)| (k, json_of(x))).collect()),
    }
}

/// `serde_json::from_str::<serde_json::Value>`: the result is named by
/// [`parsed_json`]. A parsed object holds each member name once (serde_json
/// keeps object members in a map), so the document is well formed.
#[verifier::external_body]
pub fn parse_json(text: &str) -> (r: core::result::Result<Json, String>)
    ensures
        match r {
            Ok(j) => parsed_json(text@) == Ok::<Json, Seq<char>>(j) && j.well_formed(),
            Err(e) => parsed_json(text@) == Err::<Json, Seq<char>>(e@),
        },
{
    match serde_json::from_str::<Value>(text) {
        Ok(v) => Ok(json_of(v)),
        Err(e) => Err(e.to_string()),
    }
}

} // verus!

//! Decoding of the window rows the daemon lists.
//!
//! A row is an object `{"id":1,"app_id":"...","title":"...","pid":1234,
//! "minimized":false}` in which every member but `id` may be missing or
//! `null`; unknown members are ignored. A row may also be given as the
//! array of these values in this order, the optional ones at the end left
//! out.
use vstd::prelude::*;

use crate::json::{Json, JsonNumber};
use crate::text::{concat, debug_quoted, debug_str, decimal, decimal_text, owned, signed_decimal, signed_decimal_text, str_equal};
use crate::types::{RawWindow, WindowRow};

verus! {

/// How a JSON value is described in a decoding error.
pub open spec fn unexpected(v: Json) -> Seq<char> {
    match v {
        Json::Null => "null"@,
        Json::Bool(b) => if b {
            "boolean `true`"@
        } else {
            "boolean `false`"@
        },
        Json::Number(n) => match n {
            JsonNumber::PosInt(u) => "integer `"@ + decimal(u as nat) + "`"@,
            JsonNumber::NegInt(i) => "integer `"@ + signed_decimal(i as int) + "`"@,
            JsonNumber::Float(t) => "floating point `"@ + t@ + "`"@,
        },
        Json::Str(s) => "string "@ + debug_quoted(s@),
        Json::Array(_) => "sequence"@,
        Json::Object(_) => "map"@,
    }
}

/// The error for a value of the wrong kind.
pub open spec fn invalid_type(v: Json, expected: Seq<char>) -> Seq<char> {
    "invalid type: "@ + unexpected(v) + ", expected "@ + expected
}

/// The error for an integer out of range.
pub open spec fn invalid_integer(i: int, expected: Seq<char>) -> Seq<char> {
    "invalid value: integer `"@ + signed_decimal(i) + "`, expected "@ + expected
}

/// A `u64` value.
pub open spec fn u64_of(v: Json) -> Result<u64, Seq<char>> {
    match v {
        Json::Number(JsonNumber::PosInt(u)) => Ok(u),
        Json::Number(JsonNumber::NegInt(i)) => Err(invalid_integer(i as int, "u64"@)),
        _ => Err(invalid_type(v, "u64"@)),
    }
}

/// An optional string value (`null` for none).
pub open spec fn opt_text_of(v: Json) -> Result<Option<Seq<char>>, Seq<char>> {
    match v {
        Json::Null => Ok(None),
        Json::Str(s) => Ok(Some(s@)),
        _ => Err(invalid_type(v, "a string"@)),
    }
}

/// An optional `i32` value (`null` for none).
pub open spec fn opt_i32_of(v: Json) -> Result<Option<i32>, Seq<char>> {
    match v {
        Json::Null => Ok(None),
        Json::Number(JsonNumber::PosInt(u)) => if u <= i32::MAX {
            Ok(Some(u as i32))
        } else {
            Err(invalid_integer(u as int, "i32"@))
        },
        Json::Number(JsonNumber::NegInt(i)) => if i >= i32::MIN {
            Ok(Some(i as i32))
        } else {
            Err(invalid_integer(i as int, "i32"@))
        },
        _ => Err(invalid_type(v, "i32"@)),
    }
}

/// A boolean value.
pub open spec fn bool_of(v: Json) -> Result<bool, Seq<char>> {
    match v {
        Json::Bool(b) => Ok(b),
        _ => Err(invalid_type(v, "a boolean"@)),
    }
}

/// The members of a row object seen so far.
pub struct RowFields {
    pub id: Option<u64>,
    pub app_id: Option<Option<Seq<char>>>,
    pub title: Option<Option<Seq<char>>>,
    pub pid: Option<Option<i32>>,
    pub minimized: Option<bool>,
}

/// No member seen yet.
pub open spec fn no_fields() -> RowFields {
    RowFields { id: None, app_id: None, title: None, pid: None, minimized: None }
}

/// Takes in one member of a row object; a member seen twice is an error.
pub open spec fn take_member(acc: RowFields, key: Seq<char>, v: Json) -> Result<RowFields, Seq<char>> {
    if key == "id"@ {
        if acc.id is Some {
            Err("duplicate field `id`"@)
        } else {
            match u64_of(v) {
                Ok(x) => Ok(RowFields { id: Some(x), ..acc }),
                Err(e) => Err(e),
            }
        }
    } else if key == "app_id"@ {
        if acc.app_id is Some {
            Err("duplicate field `app_id`"@)
        } else {
            match opt_text_of(v) {
                Ok(x) => Ok(RowFields { app_id: Some(x), ..acc }),
                Err(e) => Err(e),
            }
        }
    } else if key == "title"@ {
        if acc.title is Some {
            Err("duplicate field `title`"@)
        } else {
            match opt_text_of(v) {
                Ok(x) => Ok(RowFields { title: Some(x), ..acc }),
                Err(e) => Err(e),
            }
        }
    } else if key == "pid"@ {
        if acc.pid is Some {
            Err("duplicate field `pid`"@)
        } else {
            match opt_i32_of(v) {
                Ok(x) => Ok(RowFields { pid: Some(x), ..acc }),
                Err(e) => Err(e),
            }
        }
    } else if key == "minimized"@ {
        if acc.minimized is Some {
            Err("duplicate field `minimized`"@)
        } else {
            match bool_of(v) {
                Ok(x) => Ok(RowFields { minimized: Some(x), ..acc }),
                Err(e) => Err(e),
            }
        }
    } else {
        Ok(acc)
    }
}

/// Takes in the members of a row object in order; the first error wins.
pub open spec fn take_members(ms: Seq<(String, Json)>, acc: RowFields) -> Result<RowFields, Seq<char>>
    decreases ms.len(),
{
    if ms.len() == 0 {
        Ok(acc)
    } else {
        match take_member(acc, ms[0].0@, ms[0].1) {
            Ok(next) => take_members(ms.drop_first(), next),
            Err(e) => Err(e),
        }
    }
}

/// The row the members seen make: `id` is required, the rest default to
/// none (and `minimized` to false).
pub open spec fn finish_row(acc: RowFields) -> Result<WindowRow, Seq<char>> {
    match acc.id {
        None => Err("missing field `id`"@),
        Some(id) => Ok(
            WindowRow {
                id,
                app_id: match acc.app_id {
                    Some(x) => x,
                    None => None,
                },
                title: match acc.title {
                    Some(x) => x,
                    None => None,
                },
                pid: match acc.pid {
                    Some(x) => x,
                    None => None,
                },
                minimized: match acc.minimized {
                    Some(x) => x,
                    None => false,
                },
            },
        ),
    }
}

/// The row an array of values makes: `id`, then the optional `app_id`,
/// `title`, `pid` and `minimized`; more than five values is an error,
/// reported after the values themselves.
pub open spec fn array_row(items: Seq<Json>) -> Result<WindowRow, Seq<char>> {
    if items.len() == 0 {
        Err("invalid length 0, expected struct RawWindow with 5 elements"@)
    } else {
        match u64_of(items[0]) {
            Err(e) => Err(e),
            Ok(id) => {
                let app_id = if items.len() > 1 { opt_text_of(items[1]) } else { Ok(None) };
                match app_id {
                    Err(e) => Err(e),
                    Ok(app_id) => {
                        let title = if items.len() > 2 { opt_text_of(items[2]) } else { Ok(None) };
                        match title {
                            Err(e) => Err(e),
                            Ok(title) => {
                                let pid = if items.len() > 3 { opt_i32_of(items[3]) } else { Ok(None) };
                                match pid {
                                    Err(e) => Err(e),
                                    Ok(pid) => {
                                        let minimized = if items.len() > 4 {
                                            bool_of(items[4])
                                        } else {
                                            Ok(false)
                                        };
                                        match minimized {
                                            Err(e) => Err(e),
                                            Ok(minimized) => if items.len() > 5 {
                                                Err(
                                                    "invalid length "@ + decimal(items.len())
                                                        + ", expected fewer elements in array"@,
                                                )
                                            } else {
                                                Ok(WindowRow { id, app_id, title, pid, minimized })
                                            },
                                        }
                                    },
                                }
                            },
                        }
                    },
                }
            },
        }
    }
}

/// The row a JSON value makes, or the decoding error.
pub open spec fn row_of(v: Json) -> Result<WindowRow, Seq<char>> {
    match v {
        Json::Object(ms) => match take_members(ms@, no_fields()) {
            Ok(acc) => finish_row(acc),
            Err(e) => Err(e),
        },
        Json::Array(items) => array_row(items@),
        _ => Err(invalid_type(v, "struct RawWindow"@)),
    }
}

/// How a JSON value is described in a decoding error (see [`unexpected`]).
fn describe(v: &Json) -> (r: String)
    ensures
        r@ == unexpected(*v),
{
    match v {
        Json::Null => owned("null"),
        Json::Bool(b) => if *b {
            owned("boolean `true`")
        } else {
            owned("boolean `false`")
        },
        Json::Number(n) => match n {
            JsonNumber::PosInt(u) => {
                let d = decimal_text(*u);
                concat(concat("integer `", d.as_str()).as_str(), "`")
            },
            JsonNumber::NegInt(i) => {
                let d = signed_decimal_text(*i);
                concat(concat("integer `", d.as_str()).as_str(), "`")
            },
            JsonNumber::Float(t) => concat(concat("floating point `", t.as_str()).as_str(), "`"),
        },
        Json::Str(s) => {
            let q = debug_str(s.as_str());
            concat("string ", q.as_str())
        },
        Json::Array(_) => owned("sequence"),
        Json::Object(_) => owned("map"),
    }
}

fn type_error(v: &Json, expected: &str) -> (r: String)
    ensures
        r@ == invalid_type(*v, expected@),
{
    let d = describe(v);
    concat(concat(concat("invalid type: ", d.as_str()).as_str(), ", expected ").as_str(), expected)
}

fn integer_error(text: &str, expected: &str) -> (r: String)
    ensures
        r@ == "invalid value: integer `"@ + text@ + "`, expected "@ + expected@,
{
    concat(concat(concat("invalid value: integer `", text).as_str(), "`, expected ").as_str(), expected)
}

fn decode_u64(v: &Json) -> (r: Result<u64, String>)
    ensures
        match r {
            Ok(x) => u64_of(*v) == Ok::<u64, Seq<char>>(x),
            Err(e) => u64_of(*v) == Err::<u64, Seq<char>>(e@),
        },
{
    match v {
        Json::Number(JsonNumber::PosInt(u)) => Ok(*u),
        Json::Number(JsonNumber::NegInt(i)) => {
            let d = signed_decimal_text(*i);
            Err(integer_error(d.as_str(), "u64"))
        },
        _ => Err(type_error(v, "u64")),
    }
}

fn decode_opt_text(v: &Json) -> (r: Result<Option<String>, String>)
    ensures
        match r {
            Ok(x) => opt_text_of(*v) == Ok::<Option<Seq<char>>, Seq<char>>(crate::types::opt_text(x)),
            Err(e) => opt_text_of(*v) == Err::<Option<Seq<char>>, Seq<char>>(e@),
        },
{
    match v {
        Json::Null => Ok(None),
        Json::Str(s) => Ok(Some(s.clone())),
        _ => Err(type_error(v, "a string")),
    }
}

fn decode_opt_i32(v: &Json) -> (r: Result<Option<i32>, String>)
    ensures
        match r {
            Ok(x) => opt_i32_of(*v) == Ok::<Option<i32>, Seq<char>>(x),
            Err(e) => opt_i32_of(*v) == Err::<Option<i32>, Seq<char>>(e@),
        },
{
    match v {
        Json::Null => Ok(None),
        Json::Number(JsonNumber::PosInt(u)) => if *u <= 2147483647u64 {
            Ok(Some(*u as i32))
        } else {
            let d = decimal_text(*u);
            Err(integer_error(d.as_str(), "i32"))
        },
        Json::Number(JsonNumber::NegInt(i)) => if *i >= -2147483648i64 {
            Ok(Some(*i as i32))
        } else {
            let d = signed_decimal_text(*i);
            Err(integer_error(d.as_str(), "i32"))
        },
        _ => Err(type_error(v, "i32")),
    }
}

fn decode_bool(v: &Json) -> (r: Result<bool, String>)
    ensures
        match r {
            Ok(x) => bool_of(*v) == Ok::<bool, Seq<char>>(x),
            Err(e) => bool_of(*v) == Err::<bool, Seq<char>>(e@),
        },
{
    match v {
        Json::Bool(b) => Ok(*b),
        _ => Err(type_error(v, "a boolean")),
    }
}

/// The members of a row object seen so far, as values.
struct Fields {
    id: Option<u64>,
    app_id: Option<Option<String>>,
    title: Option<Option<String>>,
    pid: Option<Option<i32>>,
    minimized: Option<bool>,
}

spec fn opt_opt_text(x: Option<Option<String>>) -> Option<Option<Seq<char>>> {
    match x {
        Some(v) => Some(crate::types::opt_text(v)),
        None => None,
    }
}

spec fn fields_view(f: Fields) -> RowFields {
    RowFields {
        id: f.id,
        app_id: opt_opt_text(f.app_id),
        title: opt_opt_text(f.title),
        pid: f.pid,
        minimized: f.minimized,
    }
}

fn take_member_exec(acc: Fields, key: &str, v: &Json) -> (r: Result<Fields, String>)
    ensures
        match r {
            Ok(f) => take_member(fields_view(acc), key@, *v) == Ok::<RowFields, Seq<char>>(fields_view(f)),
            Err(e) => take_member(fields_view(acc), key@, *v) == Err::<RowFields, Seq<char>>(e@),
        },
{
    proof {
        reveal_strlit("id");
        reveal_strlit("app_id");
        reveal_strlit("title");
        reveal_strlit("pid");
        reveal_strlit("minimized");
    }
    if str_equal(key, "id") {
        if acc.id.is_some() {
            return Err(owned("duplicate field `id`"));
        }
        match decode_u64(v) {
            Ok(x) => Ok(Fields { id: Some(x), ..acc }),
            Err(e) => Err(e),
        }
    } else if str_equal(key, "app_id") {
        if acc.app_id.is_some() {
            return Err(owned("duplicate field `app_id`"));
        }
        match decode_opt_text(v) {
            Ok(x) => Ok(Fields { app_id: Some(x), ..acc }),
            Err(e) => Err(e),
        }
    } else if str_equal(key, "title") {
        if acc.title.is_some() {
            return Err(owned("duplicate field `title`"));
        }
        match decode_opt_text(v) {
            Ok(x) => Ok(Fields { title: Some(x), ..acc }),
            Err(e) => Err(e),
        }
    } else if str_equal(key, "pid") {
        if acc.pid.is_some() {
            return Err(owned("duplicate field `pid`"));
        }
        match decode_opt_i32(v) {
            Ok(x) => Ok(Fields { pid: Some(x), ..acc }),
            Err(e) => Err(e),
        }
    } else if str_equal(key, "minimized") {
        if acc.minimized.is_some() {
            return Err(owned("duplicate field `minimized`"));
        }
        match decode_bool(v) {
            Ok(x) => Ok(Fields { minimized: Some(x), ..acc }),
            Err(e) => Err(e),
        }
    } else {
        Ok(acc)
    }
}

fn object_row(ms: &Vec<(String, Json)>) -> (r: Result<RawWindow, String>)
    ensures
        match r {
            Ok(w) => (match take_members(ms@, no_fields()) {
                Ok(acc) => finish_row(acc),
                Err(e) => Err(e),
            }) == Ok::<WindowRow, Seq<char>>(w@),
            Err(e) => (match take_members(ms@, no_fields()) {
                Ok(acc) => finish_row(acc),
                Err(e) => Err(e),
            }) == Err::<WindowRow, Seq<char>>(e@),
        },
{
    let mut acc = Fields { id: None, app_id: None, title: None, pid: None, minimized: None };
    let mut i: usize = 0;
    assert(ms@.skip(0) =~= ms@);
    assert(fields_view(acc) == no_fields());
    while i < ms.len()
        invariant
            i <= ms@.len(),
            take_members(ms@, no_fields()) == take_members(ms@.skip(i as int), fields_view(acc)),
        decreases ms@.len() - i,
    {
        let ghost rest = ms@.skip(i as int);
        assert(rest[0] == ms@[i as int]);
        assert(rest.drop_first() =~= ms@.skip(i + 1));
        match take_member_exec(acc, ms[i].0.as_str(), &ms[i].1) {
            Ok(next) => {
                acc = next;
            },
            Err(e) => {
                return Err(e);
            },
        }
        i = i + 1;
    }
    assert(ms@.skip(i as int).len() == 0);
    match acc.id {
        None => {
            proof { reveal_strlit("missing field `id`"); }
            Err(owned("missing field `id`"))
        },
        Some(id) => {
            let app_id = match acc.app_id {
                Some(x) => x,
                None => None,
            };
            let title = match acc.title {
                Some(x) => x,
                None => None,
            };
            let pid = match acc.pid {
                Some(x) => x,
                None => None,
            };
            let minimized = match acc.minimized {
                Some(x) => x,
                None => false,
            };
            Ok(RawWindow { id, app_id, title, pid, minimized })
        },
    }
}

fn array_row_exec(items: &Vec<Json>) -> (r: Result<RawWindow, String>)
    ensures
        match r {
            Ok(w) => array_row(items@) == Ok::<WindowRow, Seq<char>>(w@),
            Err(e) => array_row(items@) == Err::<WindowRow, Seq<char>>(e@),
        },
{
    if items.len() == 0 {
        return Err(owned("invalid length 0, expected struct RawWindow with 5 elements"));
    }
    let id = match decode_u64(&items[0]) {
        Ok(x) => x,
        Err(e) => return Err(e),
    };
    let app_id = if items.len() > 1 {
        match decode_opt_text(&items[1]) {
            Ok(x) => x,
            Err(e) => return Err(e),
        }
    } else {
        None
    };
    let title = if items.len() > 2 {
        match decode_opt_text(&items[2]) {
            Ok(x) => x,
            Err(e) => return Err(e),
        }
    } else {
        None
    };
    let pid = if items.len() > 3 {
        match decode_opt_i32(&items[3]) {
            Ok(x) => x,
            Err(e) => return Err(e),
        }
    } else {
        None
    };
    let minimized = if items.len() > 4 {
        match decode_bool(&items[4]) {
            Ok(x) => x,
            Err(e) => return Err(e),
        }
    } else {
        false
    };
    if items.len() > 5 {
        let n = decimal_text(items.len() as u64);
        return Err(
            concat(concat("invalid length ", n.as_str()).as_str(), ", expected fewer elements in array"),
        );
    }
    Ok(RawWindow { id, app_id, title, pid, minimized })
}

/// Decodes one window row (see [`row_of`]); the error is the decoding
/// error's text.
pub fn decode_row(v: &Json) -> (r: Result<RawWindow, String>)
    ensures
        match r {
            Ok(w) => row_of(*v) == Ok::<WindowRow, Seq<char>>(w@),
            Err(e) => row_of(*v) == Err::<WindowRow, Seq<char>>(e@),
        },
{
    match v {
        Json::Object(ms) => object_row(ms),
        Json::Array(items) => array_row_exec(items),
        _ => Err(type_error(v, "struct RawWindow")),
    }
}

} // verus!

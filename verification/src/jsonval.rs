//! A plain model of the nested mapping a backend replies with, and the
//! extraction of the reply text from it.
//!
//! A backend's raw reply is structured data (objects, arrays, strings,
//! numbers); the gateway only ever reads strings found at fixed structural
//! paths.  The surrounding process decodes the wire form into this type and
//! hands it in; every decision made on it here is verified.

use vstd::prelude::*;

verus! {

/// A structured backend reply value.  Non-integer numbers are carried in
/// fixed-point thousandths (`Milli(1500)` stands for `1.5`), so the type
/// holds no floating point.
pub enum JsonValue {
    Null,
    Bool(bool),
    Int(i64),
    Milli(i64),
    Text(String),
    Array(Vec<JsonValue>),
    Object(Vec<(String, JsonValue)>),
}

/// The first field named `key` at or after position `i`, if any.
pub open spec fn spec_field_from(fs: Seq<(String, JsonValue)>, key: Seq<char>, i: int) -> Option<
    JsonValue,
>
    decreases fs.len() - i,
{
    if i < 0 || i >= fs.len() {
        None
    } else if fs[i].0@ == key {
        Some(fs[i].1)
    } else {
        spec_field_from(fs, key, i + 1)
    }
}

/// Object member lookup: the first field named `key`, on objects only.
pub open spec fn spec_get(v: JsonValue, key: Seq<char>) -> Option<JsonValue> {
    match v {
        JsonValue::Object(fs) => spec_field_from(fs@, key, 0),
        _ => None,
    }
}

/// Array element lookup, on arrays only.
pub open spec fn spec_at(v: JsonValue, i: int) -> Option<JsonValue> {
    match v {
        JsonValue::Array(xs) => if 0 <= i < xs@.len() {
            Some(xs@[i])
        } else {
            None
        },
        _ => None,
    }
}

/// The contained text, on strings only.
pub open spec fn spec_as_text(v: JsonValue) -> Option<Seq<char>> {
    match v {
        JsonValue::Text(s) => Some(s@),
        _ => None,
    }
}

pub open spec fn opt_get(v: Option<JsonValue>, key: Seq<char>) -> Option<JsonValue> {
    match v {
        Some(x) => spec_get(x, key),
        None => None,
    }
}

pub open spec fn opt_at(v: Option<JsonValue>, i: int) -> Option<JsonValue> {
    match v {
        Some(x) => spec_at(x, i),
        None => None,
    }
}

/// The reply text of an image-inline (Gemini-style) backend: first
/// candidate, its content, first part, the `text` field.  `None` when any
/// link of the path is missing or of the wrong shape.
pub open spec fn spec_gemini_text(v: JsonValue) -> Option<Seq<char>> {
    match opt_get(
        opt_at(opt_get(opt_get(opt_at(spec_get(v, "candidates"@), 0), "content"@), "parts"@), 0),
        "text"@,
    ) {
        Some(t) => spec_as_text(t),
        None => None,
    }
}

/// The reply text of a local-inference (Qwen-style) backend: the top-level
/// `response` field.  `None` when it is missing or not a string.
pub open spec fn spec_qwen_text(v: JsonValue) -> Option<Seq<char>> {
    match spec_get(v, "response"@) {
        Some(t) => spec_as_text(t),
        None => None,
    }
}

fn char_vec_eq(a: &Vec<char>, b: &Vec<char>) -> (r: bool)
    ensures
        r == (a@ == b@),
{
    if a.len() != b.len() {
        proof {
            if a@ == b@ {
                assert(a@.len() == b@.len());
            }
        }
        return false;
    }
    let mut i: usize = 0;
    while i < a.len()
        invariant
            i <= a.len(),
            a@.len() == b@.len(),
            forall|k: int| 0 <= k < i ==> a@[k] == b@[k],
        decreases a.len() - i,
    {
        if a[i] != b[i] {
            return false;
        }
        i = i + 1;
    }
    proof {
        assert(a@ =~= b@);
    }
    true
}

/// The first field of `fs` named `key`, by reference.
fn field_get<'a>(fs: &'a Vec<(String, JsonValue)>, key: &Vec<char>) -> (r: Option<&'a JsonValue>)
    ensures
        match r {
            Some(x) => spec_field_from(fs@, key@, 0) == Some(*x),
            None => spec_field_from(fs@, key@, 0) is None,
        },
{
    let mut i: usize = 0;
    while i < fs.len()
        invariant
            i <= fs.len(),
            spec_field_from(fs@, key@, 0) == spec_field_from(fs@, key@, i as int),
        decreases fs.len() - i,
    {
        let name = crate::parse::str_chars(fs[i].0.as_str());
        if char_vec_eq(&name, key) {
            return Some(&fs[i].1);
        }
        i = i + 1;
    }
    None
}

/// Object member lookup, exec mirror of [`spec_get`].
fn get<'a>(v: &'a JsonValue, key: &Vec<char>) -> (r: Option<&'a JsonValue>)
    ensures
        match r {
            Some(x) => spec_get(*v, key@) == Some(*x),
            None => spec_get(*v, key@) is None,
        },
{
    match v {
        JsonValue::Object(fs) => field_get(fs, key),
        _ => None,
    }
}

/// Array element lookup, exec mirror of [`spec_at`].
fn at<'a>(v: &'a JsonValue, i: usize) -> (r: Option<&'a JsonValue>)
    ensures
        match r {
            Some(x) => spec_at(*v, i as int) == Some(*x),
            None => spec_at(*v, i as int) is None,
        },
{
    match v {
        JsonValue::Array(xs) => if i < xs.len() {
            Some(&xs[i])
        } else {
            None
        },
        _ => None,
    }
}

/// The reply text of an image-inline backend, exec mirror of
/// [`spec_gemini_text`].
pub fn gemini_text(v: &JsonValue) -> (r: Option<String>)
    ensures
        match r {
            Some(s) => spec_gemini_text(*v) == Some(s@),
            None => spec_gemini_text(*v) is None,
        },
{
    let candidates_key = crate::parse::str_chars("candidates");
    let content_key = crate::parse::str_chars("content");
    let parts_key = crate::parse::str_chars("parts");
    let text_key = crate::parse::str_chars("text");
    let c = match get(v, &candidates_key) {
        None => { return None; },
        Some(x) => x,
    };
    let c0 = match at(c, 0) {
        None => { return None; },
        Some(x) => x,
    };
    let co = match get(c0, &content_key) {
        None => { return None; },
        Some(x) => x,
    };
    let ps = match get(co, &parts_key) {
        None => { return None; },
        Some(x) => x,
    };
    let p0 = match at(ps, 0) {
        None => { return None; },
        Some(x) => x,
    };
    let t = match get(p0, &text_key) {
        None => { return None; },
        Some(x) => x,
    };
    match t {
        JsonValue::Text(s) => Some(s.clone()),
        _ => None,
    }
}

/// The reply text of a local-inference backend, exec mirror of
/// [`spec_qwen_text`].
pub fn qwen_text(v: &JsonValue) -> (r: Option<String>)
    ensures
        match r {
            Some(s) => spec_qwen_text(*v) == Some(s@),
            None => spec_qwen_text(*v) is None,
        },
{
    let response_key = crate::parse::str_chars("response");
    let t = match get(v, &response_key) {
        None => { return None; },
        Some(x) => x,
    };
    match t {
        JsonValue::Text(s) => Some(s.clone()),
        _ => None,
    }
}

} // verus!

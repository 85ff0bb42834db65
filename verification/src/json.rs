//! JSON values as they come back from the page's JavaScript, and how an
//! evaluation's reply is read.

use vstd::prelude::*;
use crate::text::str_eq;

verus! {

/// A JSON value. A number is kept as the JSON text that spells it.
pub enum JsonValue {
    Null,
    Bool(bool),
    Number(String),
    Str(String),
    Array(Vec<JsonValue>),
    Object(Vec<(String, JsonValue)>),
}

/// The value of the first entry named `key`.
pub open spec fn json_field(entries: Seq<(String, JsonValue)>, key: Seq<char>) -> Option<JsonValue>
    decreases entries.len(),
{
    if entries.len() == 0 {
        None
    } else if entries[0].0@ == key {
        Some(entries[0].1)
    } else {
        json_field(entries.drop_first(), key)
    }
}

/// Finds the first entry named `key`.
pub fn find_field(entries: &Vec<(String, JsonValue)>, key: &str) -> (r: Option<usize>)
    ensures
        match r {
            Some(i) => i < entries.len() && json_field(entries@, key@) == Some(entries@[i as int].1),
            None => json_field(entries@, key@) is None,
        },
{
    let mut i: usize = 0;
    assert(entries@.skip(0) =~= entries@);
    while i < entries.len()
        invariant
            i <= entries.len(),
            json_field(entries@, key@) == json_field(entries@.skip(i as int), key@),
        decreases entries.len() - i,
    {
        let ghost rest = entries@.skip(i as int);
        assert(rest[0] == entries@[i as int]);
        assert(rest.drop_first() =~= entries@.skip(i + 1));
        if str_eq(entries[i].0.as_str(), key) {
            return Some(i);
        }
        i += 1;
    }
    None
}

/// The message when an evaluation produced no value at all.
pub const EVAL_FAILED: &'static str = "evaluate() failed — the expression could not be run (check for a syntax error, or that the page has loaded)";

/// What an evaluation's reply means. The wrapped script answers
/// `{ __ok: true, v }` with its value, or `{ __ok: false, e }` with the error
/// it threw; anything else means the script never ran.
pub open spec fn evaluation_outcome(reply: Option<JsonValue>) -> Result<JsonValue, Seq<char>> {
    match reply {
        Some(JsonValue::Object(entries)) => if json_field(entries@, "__ok"@) == Some(
            JsonValue::Bool(true),
        ) {
            match json_field(entries@, "v"@) {
                Some(v) => Ok(v),
                None => Ok(JsonValue::Null),
            }
        } else {
            match json_field(entries@, "e"@) {
                Some(JsonValue::Str(e)) => Err(e@),
                _ => Err("JavaScript error"@),
            }
        },
        _ => Err(EVAL_FAILED@),
    }
}

/// Reads an evaluation's reply: the script's value, or the text of the error
/// it threw, or why it never ran.
pub fn interpret_evaluation(reply: Option<JsonValue>) -> (r: Result<JsonValue, String>)
    ensures
        match r {
            Ok(v) => evaluation_outcome(reply) == Ok::<JsonValue, Seq<char>>(v),
            Err(m) => evaluation_outcome(reply) == Err::<JsonValue, Seq<char>>(m@),
        },
{
    match reply {
        Some(JsonValue::Object(mut entries)) => {
            let ghost orig = entries@;
            let ok = match find_field(&entries, "__ok") {
                Some(i) => match &entries[i].1 {
                    JsonValue::Bool(b) => *b,
                    _ => false,
                },
                None => false,
            };
            if ok {
                match find_field(&entries, "v") {
                    Some(i) => {
                        let (_, v) = entries.remove(i);
                        Ok(v)
                    },
                    None => Ok(JsonValue::Null),
                }
            } else {
                match find_field(&entries, "e") {
                    Some(i) => match &entries[i].1 {
                        JsonValue::Str(e) => Err(e.clone()),
                        _ => Err(String::from_str("JavaScript error")),
                    },
                    None => Err(String::from_str("JavaScript error")),
                }
            }
        },
        _ => Err(String::from_str(EVAL_FAILED)),
    }
}

/// The string a value holds, if it is a string.
pub open spec fn json_str_of(v: JsonValue) -> Option<Seq<char>> {
    match v {
        JsonValue::Str(s) => Some(s@),
        _ => None,
    }
}

} // verus!

//! What is read from JSON texts.
//!
//! The parser is serde_json's. Each function here hands it a text and takes one
//! plain value back; none of them says what a text holds, only that the same
//! text always gives the same value.

use vstd::prelude::*;
#[allow(unused_imports)]
use crate::fleet::opt_text;

verus! {

/// What serde_json finds wrong with a text, if anything.
pub uninterp spec fn json_fault(text: Seq<char>) -> Option<Seq<char>>;

/// Whether serde_json finds a value at a place of a text.
pub uninterp spec fn json_present(text: Seq<char>, pointer: Seq<char>) -> bool;

/// The string serde_json finds at a place of a text.
pub uninterp spec fn json_string(text: Seq<char>, pointer: Seq<char>) -> Option<Seq<char>>;

/// The unsigned number serde_json finds at a place of a text.
pub uninterp spec fn json_count(text: Seq<char>, pointer: Seq<char>) -> Option<u64>;

/// The list serde_json finds at a place of a text: each item as a double
/// precision number, where it is one.
pub uninterp spec fn json_numbers(text: Seq<char>, pointer: Seq<char>) -> Option<Seq<Option<u64>>>;

/// The list serde_json finds at a place of a text: each item as a string,
/// where it is one.
pub uninterp spec fn json_strings(text: Seq<char>, pointer: Seq<char>) -> Option<
    Seq<Option<Seq<char>>>,
>;

/// The object serde_json finds at a place of a text: each member with its
/// list, where it has one, whose items are JSON texts again.
pub uninterp spec fn json_lists(text: Seq<char>, pointer: Seq<char>) -> Option<
    Seq<(Seq<char>, Option<Seq<Seq<char>>>)>,
>;

/// Whether bytes are a JSON text to serde_json.
pub uninterp spec fn json_bytes(bytes: Seq<u8>) -> bool;

// Views of plain values.

pub open spec fn opt_numbers(v: Option<Vec<Option<u64>>>) -> Option<Seq<Option<u64>>> {
    match v {
        Some(s) => Some(s@),
        None => None,
    }
}

pub open spec fn string_items(s: Seq<Option<String>>) -> Seq<Option<Seq<char>>> {
    Seq::new(s.len(), |i: int| opt_text(s[i]))
}

pub open spec fn opt_strings(v: Option<Vec<Option<String>>>) -> Option<Seq<Option<Seq<char>>>> {
    match v {
        Some(s) => Some(string_items(s@)),
        None => None,
    }
}

pub open spec fn opt_texts(v: Option<Vec<String>>) -> Option<Seq<Seq<char>>> {
    match v {
        Some(s) => Some(crate::text::texts(s@)),
        None => None,
    }
}

pub open spec fn list_items(s: Seq<(String, Option<Vec<String>>)>) -> Seq<
    (Seq<char>, Option<Seq<Seq<char>>>),
> {
    Seq::new(s.len(), |i: int| (s[i].0@, opt_texts(s[i].1)))
}

pub open spec fn opt_lists(v: Option<Vec<(String, Option<Vec<String>>)>>) -> Option<
    Seq<(Seq<char>, Option<Seq<Seq<char>>>)>,
> {
    match v {
        Some(s) => Some(list_items(s@)),
        None => None,
    }
}

/// `serde_json::from_str` into a `Value`: whether the text parses, and the
/// error's text where it does not.
#[verifier::external_body]
pub(crate) fn json_error(text: &str) -> (r: Option<String>)
    ensures
        opt_text(r) == json_fault(text@),
{
    serde_json::from_str::<serde_json::Value>(text).err().map(|e| e.to_string())
}

/// `serde_json::from_slice` into a `Value`: whether the bytes parse.
#[verifier::external_body]
pub(crate) fn json_parses(bytes: &[u8]) -> (r: bool)
    ensures
        r == json_bytes(bytes@),
{
    serde_json::from_slice::<serde_json::Value>(bytes).is_ok()
}

/// `serde_json::Value::pointer`: whether the parsed text has a value at a JSON
/// pointer; `false` where the text does not parse.
#[verifier::external_body]
pub(crate) fn json_has(text: &str, pointer: &str) -> (r: bool)
    ensures
        r == json_present(text@, pointer@),
{
    match serde_json::from_str::<serde_json::Value>(text) {
        Ok(v) => v.pointer(pointer).is_some(),
        Err(_) => false,
    }
}

/// `serde_json::Value::as_str` of the value at a JSON pointer.
#[verifier::external_body]
pub(crate) fn json_string_at(text: &str, pointer: &str) -> (r: Option<String>)
    ensures
        opt_text(r) == json_string(text@, pointer@),
{
    let v: serde_json::Value = serde_json::from_str(text).ok()?;
    v.pointer(pointer)?.as_str().map(String::from)
}

/// `serde_json::Value::as_u64` of the value at a JSON pointer.
#[verifier::external_body]
pub(crate) fn json_count_at(text: &str, pointer: &str) -> (r: Option<u64>)
    ensures
        r == json_count(text@, pointer@),
{
    let v: serde_json::Value = serde_json::from_str(text).ok()?;
    v.pointer(pointer)?.as_u64()
}

/// `serde_json::Value::as_array` of the value at a JSON pointer, each item
/// through `as_f64` and given by its bits.
#[verifier::external_body]
pub(crate) fn json_numbers_at(text: &str, pointer: &str) -> (r: Option<Vec<Option<u64>>>)
    ensures
        opt_numbers(r) == json_numbers(text@, pointer@),
{
    let v: serde_json::Value = serde_json::from_str(text).ok()?;
    let items = v.pointer(pointer)?.as_array()?;
    Some(items.iter().map(|x| x.as_f64().map(|n| n.to_bits())).collect())
}

/// `serde_json::Value::as_array` of the value at a JSON pointer, each item
/// through `as_str`.
#[verifier::external_body]
pub(crate) fn json_strings_at(text: &str, pointer: &str) -> (r: Option<Vec<Option<String>>>)
    ensures
        opt_strings(r) == json_strings(text@, pointer@),
{
    let v: serde_json::Value = serde_json::from_str(text).ok()?;
    let items = v.pointer(pointer)?.as_array()?;
    Some(items.iter().map(|x| x.as_str().map(String::from)).collect())
}

/// `serde_json::Value::as_object` of the value at a JSON pointer, each member
/// through `as_array` and its items written as JSON texts.
#[verifier::external_body]
pub(crate) fn json_lists_at(
    text: &str,
    pointer: &str,
) -> (r: Option<Vec<(String, Option<Vec<String>>)>>)
    ensures
        opt_lists(r) == json_lists(text@, pointer@),
{
    let v: serde_json::Value = serde_json::from_str(text).ok()?;
    let members = v.pointer(pointer)?.as_object()?;
    let texts = |x: &serde_json::Value| x.as_array().map(|a| a.iter().map(|y| y.to_string()).collect());
    Some(members.iter().map(|(k, x)| (k.clone(), texts(x))).collect())
}

} // verus!

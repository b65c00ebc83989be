//! The tree of named fields of a decoded instruction, as `serde_json` holds it.
//!
//! Nothing in this file is proved: each contract says what the `serde_json` function does, in
//! terms of three names for what a tree holds.

use serde_json::Value;
use vstd::prelude::*;

verus! {

/// `serde_json::Value`: a tree of JSON values. Nothing inside it is visible to the verifier.
#[verifier::external_type_specification]
#[verifier::external_body]
pub struct ExValue(Value);

/// The value that a JSON pointer (RFC 6901) selects in `tree`, as `Value::pointer` finds it.
pub uninterp spec fn json_pointer(tree: Value, pointer: Seq<char>) -> Option<Value>;

/// The member of the object `tree` under `key`, as `Value::get` finds it for a string key.
pub uninterp spec fn json_member(tree: Value, key: Seq<char>) -> Option<Value>;

/// The text of `value` where it is a JSON string, as `Value::as_str` gives it.
pub uninterp spec fn json_text(value: Value) -> Option<Seq<char>>;

/// `Value::clone`: a copy of the tree, equal to it.
pub assume_specification[ <Value as Clone>::clone ](value: &Value) -> (copy: Value)
    ensures
        copy == *value,
;

/// `Value::pointer`: looks up a value by a JSON pointer. The result is the named one,
/// `json_pointer(tree, pointer)`: a function of the tree and the pointer alone.
#[verifier::external_body]
pub(crate) fn value_pointer<'a>(tree: &'a Value, pointer: &str) -> (found: Option<&'a Value>)
    ensures
        match found {
            Some(value) => json_pointer(*tree, pointer@) == Some(*value),
            None => json_pointer(*tree, pointer@) is None,
        },
{
    tree.pointer(pointer)
}

/// `Value::get` with a string key: the member of an object under that key. The result is the
/// named one, `json_member(tree, key)`.
#[verifier::external_body]
pub(crate) fn value_member<'a>(tree: &'a Value, key: &str) -> (found: Option<&'a Value>)
    ensures
        match found {
            Some(value) => json_member(*tree, key@) == Some(*value),
            None => json_member(*tree, key@) is None,
        },
{
    tree.get(key)
}

/// `Value::as_str`: the text of a value that is a string, `None` for every other value. The
/// result is the named one, `json_text(value)`.
#[verifier::external_body]
pub(crate) fn value_text<'a>(value: &'a Value) -> (text: Option<&'a str>)
    ensures
        match text {
            Some(s) => json_text(*value) == Some(s@),
            None => json_text(*value) is None,
        },
{
    value.as_str()
}

} // verus!

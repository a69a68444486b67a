//! The payloads of scripted replies: JSON documents of `serde_json`.

use serde_json::Value;
use vstd::prelude::*;

verus! {

/// `serde_json::Value`, a JSON document. Nothing inside it is visible to proofs.
#[verifier::external_type_specification]
#[verifier::external_body]
pub struct ExValue(serde_json::Value);

/// The text that `serde_json` writes for a document in its compact form:
/// what `Value`'s `Display` produces without the alternate flag.
pub uninterp spec fn json_text(value: Value) -> Seq<char>;

/// `<Value as Clone>::clone`, which `serde_json` derives: the copy is the
/// same document.
pub assume_specification[ <Value as Clone>::clone ](value: &Value) -> (copy: Value)
    ensures
        copy == *value,
;

/// Serialises a document through `Value`'s `Display`, by `to_string`. The
/// contract claims that the text depends on the document alone. Writing a
/// `Value` into a `String` cannot fail, so the call does not panic.
#[verifier::external_body]
pub(crate) fn to_text(value: &Value) -> (text: String)
    ensures
        text@ == json_text(*value),
{
    value.to_string()
}

} // verus!

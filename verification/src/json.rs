//! JSON text, read and printed by `serde_json`.
use vstd::prelude::*;

use crate::document::{Document, DocumentView};

verus! {

/// What comes of reading JSON text: the document, or the text of the error that refuses it.
pub enum Parsed {
    Document(DocumentView),
    Refused(Seq<char>),
}

/// `serde_json`'s own document type.
#[verifier::external_type_specification]
#[verifier::external_body]
pub struct ExValue(serde_json::Value);

/// What a `serde_json::Value` holds.
pub uninterp spec fn held(value: serde_json::Value) -> DocumentView;

/// What `serde_json::from_slice` makes of `bytes`.
pub uninterp spec fn parsed_json(bytes: Seq<u8>) -> Parsed;

/// What `serde_json::Value` prints for a document.
pub uninterp spec fn printed_json(document: DocumentView) -> Seq<char>;

/// Calls `serde_json::from_slice` for one document. What comes back depends on the bytes alone; a
/// refusal is handed on as the error's text.
#[verifier::external_body]
fn value_from_slice(bytes: &[u8]) -> (r: Result<serde_json::Value, String>)
    ensures
        r matches Ok(value) ==> parsed_json(bytes@) == Parsed::Document(held(value)),
        r matches Err(message) ==> parsed_json(bytes@) == Parsed::Refused(message@),
{
    serde_json::from_slice(bytes).map_err(|error| error.to_string())
}

/// Takes a `serde_json::Value` apart into a [`Document`], variant by variant; `Number::as_u64` and
/// `Number::as_i64` tell the integers from the other numbers. The document stays the same.
#[verifier::external_body]
fn from_value(value: serde_json::Value) -> (r: Document)
    ensures
        r@ == held(value),
{
    match value {
        serde_json::Value::Null => Document::Null,
        serde_json::Value::Bool(value) => Document::Bool(value),
        serde_json::Value::Number(number) => match (number.as_u64(), number.as_i64()) {
            (Some(value), _) => Document::Unsigned(value),
            (None, Some(value)) => Document::Signed(value),
            (None, None) => Document::Other(number.to_string()),
        },
        serde_json::Value::String(text) => Document::Text(text),
        serde_json::Value::Array(items) => Document::Array(items.into_iter().map(from_value).collect()),
        serde_json::Value::Object(fields) => {
            Document::Object(fields.into_iter().map(|(name, value)| (name, from_value(value))).collect())
        },
    }
}

/// Puts a [`Document`] without [`Document::Other`] together as a `serde_json::Value`, variant by variant;
/// collecting an object keeps the later of two fields of one name. The document stays the same.
#[verifier::external_body]
fn into_value(document: Document) -> (r: serde_json::Value)
    requires
        document.plain(127),
    ensures
        held(r) == document@,
{
    match document {
        Document::Null | Document::Other(_) => serde_json::Value::Null,
        Document::Bool(value) => serde_json::Value::Bool(value),
        Document::Unsigned(value) => serde_json::Value::from(value),
        Document::Signed(value) => serde_json::Value::from(value),
        Document::Text(text) => serde_json::Value::String(text),
        Document::Array(items) => items.into_iter().map(into_value).collect(),
        Document::Object(fields) => {
            fields.into_iter().map(|(name, value)| (name, into_value(value))).collect()
        },
    }
}

/// Calls `serde_json::Value`'s `to_string` on a document whose numbers are integers. The text
/// depends on what the value holds alone, and `serde_json::from_slice`, which follows up to 127
/// nested arrays and objects, reads the same document back from it.
#[verifier::external_body]
fn value_to_string(value: &serde_json::Value) -> (r: String)
    requires
        held(*value).integral(127),
    ensures
        r@ == printed_json(held(*value)),
        parsed_json(vstd::utf8::encode_utf8(r@)) == Parsed::Document(held(*value)),
{
    value.to_string()
}

/// Reads one JSON document.
pub fn parse_json(bytes: &[u8]) -> (r: Result<Document, String>)
    ensures
        parsed_json(bytes@) == (match r {
            Ok(document) => Parsed::Document(document@),
            Err(message) => Parsed::Refused(message@),
        }),
{
    match value_from_slice(bytes) {
        Ok(value) => Ok(from_value(value)),
        Err(message) => Err(message),
    }
}

/// Prints a document in one line. Reading the text gives the document back.
pub fn print_json(document: Document) -> (r: String)
    requires
        document.plain(127),
    ensures
        r@ == printed_json(document@),
        parsed_json(vstd::utf8::encode_utf8(r@)) == Parsed::Document(document@),
{
    proof {
        crate::document::lemma_plain_integral(document, 127);
    }
    value_to_string(&into_value(document))
}

} // verus!

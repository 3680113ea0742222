//! JSON text: reading and printing documents.

use serde_json::Value;
use vstd::prelude::*;

use crate::json::{Json, JsonView, Member, Number, NumberView};

verus! {

/// The document type of `serde_json`.
#[verifier::external_type_specification]
#[verifier::external_body]
pub struct ExValue(Value);

/// The document that a `serde_json::Value` holds.
pub uninterp spec fn value_holds(value: serde_json::Value) -> JsonView;

/// The document that is left of a document in a `serde_json::Value`, as [`to_value`]
/// makes it: fractions are read from their text again.
pub uninterp spec fn as_kept(doc: JsonView) -> JsonView;

/// What reading bytes as JSON gives, as [`parse_value`] returns it: the document, or
/// the message of the error.
pub uninterp spec fn json_parsed(bytes: Seq<u8>) -> Result<JsonView, Seq<char>>;

/// The text of a document, as [`print_value`] prints it.
pub uninterp spec fn json_printed(doc: JsonView) -> Seq<char>;

/// How `serde_json` writes a floating-point number that is the whole number `n`, or `-n`.
pub open spec fn whole_text(negative: bool, n: nat) -> Seq<char> {
    if negative {
        "-"@ + crate::text::decimal(n) + ".0"@
    } else {
        crate::text::decimal(n) + ".0"@
    }
}

/// Whether a text is a whole number with one decimal, as `5.0`, small enough that a
/// floating-point number holds it and ten times it exactly.
pub open spec fn whole_number(text: Seq<char>) -> bool {
    exists|negative: bool, n: nat|
        {
            &&& text == #[trigger] whole_text(negative, n)
            &&& n < 900_000_000_000_000
            &&& negative ==> n > 0
        }
}

/// Whether every number in a document is whole: an integer, or a whole number with one
/// decimal.
pub open spec fn whole(doc: JsonView) -> bool
    decreases doc,
{
    match doc {
        JsonView::Number(NumberView::Signed(n)) => n < 0,
        JsonView::Number(NumberView::Fraction(text)) => whole_number(text),
        JsonView::Array(items) => forall|i: int|
            0 <= i < items.len() ==> whole(#[trigger] items[i]),
        JsonView::Object(members) => forall|name: Seq<char>| #[trigger]
            members.contains_key(name) ==> whole(members[name]),
        _ => true,
    }
}

/// Whether arrays and objects are nested in a document at most `depth` deep.
pub open spec fn nested_within(doc: JsonView, depth: nat) -> bool
    decreases depth,
{
    match doc {
        JsonView::Array(items) => depth > 0 && forall|i: int|
            0 <= i < items.len() ==> nested_within(#[trigger] items[i], (depth - 1) as nat),
        JsonView::Object(members) => depth > 0 && forall|name: Seq<char>| #[trigger]
            members.contains_key(name) ==> nested_within(members[name], (depth - 1) as nat),
        _ => true,
    }
}

/// The name of the member by which `serde_json` tells raw text in its own data model.
pub const RAW_VALUE: &'static str = "$serde_json::private::RawValue";

/// Whether no object in a document has a member of the name [`RAW_VALUE`]: `serde_json`
/// reads an object that begins with such a member as what the text in it stands for.
pub open spec fn unmarked(doc: JsonView) -> bool
    decreases doc,
{
    match doc {
        JsonView::Array(items) => forall|i: int|
            0 <= i < items.len() ==> unmarked(#[trigger] items[i]),
        JsonView::Object(members) => {
            &&& !members.contains_key(RAW_VALUE@)
            &&& forall|name: Seq<char>| #[trigger]
                members.contains_key(name) ==> unmarked(members[name])
        },
        _ => true,
    }
}

/// Whether a document is read back as it was from its text: its numbers are whole, it is
/// nested no deeper than `serde_json` reads, and it has no member that `serde_json` reads
/// otherwise.
pub open spec fn readable(doc: JsonView) -> bool {
    whole(doc) && nested_within(doc, 127) && unmarked(doc)
}

/// A document with one more member is unmarked where it, the member and its name are.
pub(crate) proof fn lemma_unmarked_with(doc: JsonView, name: Seq<char>, value: JsonView)
    requires
        unmarked(doc),
        unmarked(value),
        name.len() != 30,
    ensures
        unmarked(doc.with(name, value)),
{
    reveal_strlit("$serde_json::private::RawValue");
    assert(RAW_VALUE@.len() == 30);
    let members = match doc {
        JsonView::Object(members) => members,
        _ => Map::empty(),
    };
    assert(doc.with(name, value) == JsonView::Object(members.insert(name, value)));
    assert forall|other: Seq<char>| #[trigger]
        members.insert(name, value).contains_key(other) implies unmarked(
        members.insert(name, value)[other],
    ) by {
        if other != name {
            assert(members.contains_key(other));
        }
    }
}

/// Whether bytes read as the document `doc`.
pub open spec fn reads_as(bytes: Seq<u8>, doc: JsonView) -> bool {
    json_parsed(bytes) == Ok::<JsonView, Seq<char>>(doc)
}

/// Whether reading bytes fails with `message`.
pub open spec fn reading_fails(bytes: Seq<u8>, message: Seq<char>) -> bool {
    json_parsed(bytes) == Err::<JsonView, Seq<char>>(message)
}

/// The model of what reading gave.
pub open spec fn what_was_read(r: Result<serde_json::Value, String>) -> Result<
    JsonView,
    Seq<char>,
> {
    match r {
        Ok(value) => Ok(value_holds(value)),
        Err(message) => Err(message@),
    }
}

/// Reads bytes as JSON: `serde_json::from_slice` into a `serde_json::Value`. An error
/// is carried as its message. The result is a function of the bytes; the grammar is
/// not stated here.
#[verifier::external_body]
fn parse_value(bytes: &[u8]) -> (r: Result<serde_json::Value, String>)
    ensures
        json_parsed(bytes@) == what_was_read(r),
{
    serde_json::from_slice::<serde_json::Value>(bytes).map_err(|e| e.to_string())
}

/// Prints a document: `Display` of `serde_json::Value`, the compact form. The text is
/// a function of the document, and reading its bytes gives the document back where every
/// number is whole, the nesting is within the limit of `serde_json`'s reader and no member
/// has the name that this reader keeps for raw text. How else it reads is not stated here.
#[verifier::external_body]
fn print_value(value: &serde_json::Value) -> (r: String)
    ensures
        r@ == json_printed(value_holds(*value)),
        readable(value_holds(*value)) ==> reads_as(
            vstd::utf8::encode_utf8(r@),
            value_holds(*value),
        ),
{
    value.to_string()
}

/// The document in a `serde_json::Value`, variant by variant, item by item. A number
/// that `as_u64` and `as_i64` do not give is carried as its text.
#[verifier::external_body]
fn from_value(value: serde_json::Value) -> (r: Json)
    ensures
        r@ == value_holds(value),
{
    match value {
        Value::Null => Json::Null,
        Value::Bool(b) => Json::Bool(b),
        Value::Number(n) => Json::Number(match (n.as_u64(), n.as_i64()) {
            (Some(u), _) => Number::Unsigned(u),
            (None, Some(i)) => Number::Signed(i),
            (None, None) => Number::Fraction(n.to_string()),
        }),
        Value::String(s) => Json::String(s),
        Value::Array(v) => Json::Array(v.into_iter().map(from_value).collect()),
        Value::Object(m) => Json::Object(
            m.into_iter().map(|(name, v)| Member { name, value: from_value(v) }).collect()),
    }
}

/// A document as a `serde_json::Value`, variant by variant, item by item. A fraction
/// is read from its text by `serde_json::Number`; a text that is no number becomes
/// `null`. The result is a function of the document, and holds the document as it is
/// where every number is whole. What becomes of another fraction is not stated here.
#[verifier::external_body]
fn to_value(doc: &Json) -> (r: serde_json::Value)
    ensures
        value_holds(r) == as_kept(doc@),
        whole(doc@) ==> value_holds(r) == doc@,
{
    match doc {
        Json::Null => Value::Null,
        Json::Bool(b) => Value::Bool(*b),
        Json::Number(Number::Unsigned(n)) => Value::from(*n),
        Json::Number(Number::Signed(n)) => Value::from(*n),
        Json::Number(Number::Fraction(text)) => text.parse::<serde_json::Number>()
            .map(Value::Number).unwrap_or_default(),
        Json::String(s) => Value::String(s.clone()),
        Json::Array(items) => Value::Array(items.iter().map(to_value).collect()),
        Json::Object(members) => Value::Object(
            members.iter().map(|m| (m.name.clone(), to_value(&m.value))).collect()),
    }
}

impl Json {
    /// The document in a `serde_json::Value`.
    pub fn from_serde(value: serde_json::Value) -> (r: Json)
        ensures
            r@ == value_holds(value),
    {
        from_value(value)
    }

    /// This document as a `serde_json::Value`.
    pub fn to_serde(&self) -> (r: serde_json::Value)
        ensures
            value_holds(r) == as_kept(self@),
            whole(self@) ==> value_holds(r) == self@,
    {
        to_value(self)
    }

    /// Reads bytes as JSON; `Err` with a message where they are none.
    pub fn parse(bytes: &[u8]) -> (r: Result<Json, String>)
        ensures
            match r {
                Ok(doc) => reads_as(bytes@, doc@),
                Err(message) => reading_fails(bytes@, message@),
            },
    {
        match parse_value(bytes) {
            Ok(value) => Ok(from_value(value)),
            Err(message) => Err(message),
        }
    }

    /// The compact text of this document. A readable document is read back from it.
    pub fn print(&self) -> (r: String)
        ensures
            r@ == json_printed(as_kept(self@)),
            readable(self@) ==> reads_as(vstd::utf8::encode_utf8(r@), self@),
    {
        print_value(&to_value(self))
    }
}

} // verus!

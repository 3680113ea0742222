//! Identifiers of runs, resources and artifacts: time-ordered UUIDs.

use vstd::prelude::*;

verus! {

/// Identifies a run.
#[derive(Clone, Copy, Debug, PartialEq, Eq, Structural)]
pub struct RunId {
    /// The UUID as a number.
    pub value: u128,
}

/// Identifies a leased resource.
#[derive(Clone, Copy, Debug, PartialEq, Eq, Structural)]
pub struct ResourceId {
    /// The UUID as a number.
    pub value: u128,
}

/// Identifies an artifact.
#[derive(Clone, Copy, Debug, PartialEq, Eq, Structural)]
pub struct ArtifactId {
    /// The UUID as a number.
    pub value: u128,
}

/// What parsing a text as a UUID gives, as [`parse_uuid`] returns it: the UUID
/// as a number, or the message of the error.
pub uninterp spec fn uuid_parsed(s: Seq<char>) -> Result<u128, Seq<char>>;

/// Whether a text spells the UUID `value`.
pub open spec fn spells(s: Seq<char>, value: u128) -> bool {
    uuid_parsed(s) == Ok::<u128, Seq<char>>(value)
}

/// The hyphenated text of a UUID, as [`uuid_text`] returns it.
pub uninterp spec fn uuid_hyphenated(value: u128) -> Seq<char>;

/// Whether a number is a time-ordered UUID: the digit of its version is 7, and the bits
/// of its variant are those of RFC 9562.
pub open spec fn time_ordered(value: u128) -> bool {
    &&& value as int / 0x1000_0000_0000_0000_0000 % 16 == 7
    &&& value as int / 0x4000_0000_0000_0000 % 4 == 2
}

/// A fresh time-ordered UUID: `uuid::Uuid::now_v7`, as the number that
/// `Uuid::as_u128` gives. Its version and its variant are claimed. The rest of the number
/// is made of the time, a counter and chance; that it is new is not stated.
#[verifier::external_body]
pub(crate) fn fresh_uuid() -> (r: u128)
    ensures
        time_ordered(r),
{
    uuid::Uuid::now_v7().as_u128()
}

/// The UUID that a text spells: `uuid::Uuid::parse_str`. An error is carried as
/// its message. The result is a function of the text; which texts spell a UUID
/// is not stated here.
#[verifier::external_body]
pub(crate) fn parse_uuid(s: &str) -> (r: Result<u128, String>)
    ensures
        match r {
            Ok(value) => spells(s@, value),
            Err(message) => uuid_parsed(s@) matches Err(m) && m == message@,
        },
{
    match uuid::Uuid::parse_str(s) {
        Ok(id) => Ok(id.as_u128()),
        Err(e) => Err(e.to_string()),
    }
}

/// The hyphenated lower-case text of a UUID: `Display` of `uuid::Uuid`. Parsing
/// that text gives the UUID back.
#[verifier::external_body]
pub(crate) fn uuid_text(value: u128) -> (r: String)
    ensures
        r@ == uuid_hyphenated(value),
        spells(r@, value),
{
    uuid::Uuid::from_u128(value).to_string()
}

impl RunId {
    /// A fresh run id: a time-ordered UUID.
    pub fn new() -> (r: RunId)
        ensures
            time_ordered(r.value),
    {
        RunId { value: fresh_uuid() }
    }

    /// The run id that `s` spells, or the message of the error.
    pub fn parse(s: &str) -> (r: Result<RunId, String>)
        ensures
            match r {
                Ok(id) => spells(s@, id.value),
                Err(message) => uuid_parsed(s@) matches Err(m) && m == message@,
            },
    {
        match parse_uuid(s) {
            Ok(value) => Ok(RunId { value }),
            Err(message) => Err(message),
        }
    }

    /// The hyphenated text of this id; it parses back to this id.
    pub fn text(&self) -> (r: String)
        ensures
            r@ == uuid_hyphenated(self.value),
            spells(r@, self.value),
    {
        uuid_text(self.value)
    }
}

impl ResourceId {
    /// A fresh resource id: a time-ordered UUID.
    pub fn new() -> (r: ResourceId)
        ensures
            time_ordered(r.value),
    {
        ResourceId { value: fresh_uuid() }
    }

    /// The hyphenated text of this id.
    pub fn text(&self) -> (r: String)
        ensures
            r@ == uuid_hyphenated(self.value),
    {
        uuid_text(self.value)
    }
}

impl ArtifactId {
    /// A fresh artifact id: a time-ordered UUID.
    pub fn new() -> (r: ArtifactId)
        ensures
            time_ordered(r.value),
    {
        ArtifactId { value: fresh_uuid() }
    }

    /// The hyphenated text of this id.
    pub fn text(&self) -> (r: String)
        ensures
            r@ == uuid_hyphenated(self.value),
    {
        uuid_text(self.value)
    }
}

} // verus!

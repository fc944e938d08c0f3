//! Why an extraction stops.

use vstd::prelude::*;

verus! {

/// The reasons for which a file yields no features.
#[derive(Clone, Copy, Debug, PartialEq, Eq, Structural)]
pub enum ExtractError {
    /// The markup is ill-formed: a tag, an attribute that stands before a needed
    /// `name` attribute, or text that a value is read from.
    MalformedXml,
    /// A start tag that must carry a `name` attribute carries none.
    MissingNameAttribute,
    /// A word of a position list is no floating-point number.
    MalformedNumber,
    /// A position list ends one number after its last complete triple.
    IncompleteCoordinate,
    /// The text of an unsigned attribute is no unsigned integer.
    MalformedUnsigned,
}

impl ExtractError {
    /// A sentence that says what went wrong.
    pub fn message(&self) -> (m: String)
        ensures
            m@ == match self {
                ExtractError::MalformedXml => "the markup is ill-formed"@,
                ExtractError::MissingNameAttribute => "a name attribute is missing"@,
                ExtractError::MalformedNumber => "a coordinate is not a number"@,
                ExtractError::IncompleteCoordinate => "a coordinate list is incomplete"@,
                ExtractError::MalformedUnsigned => "a value is not an unsigned integer"@,
            },
    {
        match self {
            ExtractError::MalformedXml => "the markup is ill-formed".to_owned(),
            ExtractError::MissingNameAttribute => "a name attribute is missing".to_owned(),
            ExtractError::MalformedNumber => "a coordinate is not a number".to_owned(),
            ExtractError::IncompleteCoordinate => "a coordinate list is incomplete".to_owned(),
            ExtractError::MalformedUnsigned => "a value is not an unsigned integer".to_owned(),
        }
    }
}

} // verus!

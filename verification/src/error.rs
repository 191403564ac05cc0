//! The error taxonomy of the library.

use vstd::prelude::*;

verus! {

/// Everything that can go wrong while discovering and locating content items.
///
/// `FetchError` and `DirectoryCreationError` are produced by callers that
/// perform the network and filesystem work; the remaining variants are
/// produced by the verified parsing and locating functions.
#[derive(Clone, Copy, Debug, PartialEq, Eq, Structural)]
pub enum SporeError {
    /// The feed could not be fetched (transport failure or non-success status).
    FetchError,
    /// The feed text is not well-formed XML.
    ParseError,
    /// A feed entry has no `id` child, or its `id` element holds no text.
    MalformedEntry,
    /// An entry's `id` text has no second `/`-delimited segment.
    UnexpectedIdFormat,
    /// The second segment of an entry's `id` text is not a 64-bit integer.
    InvalidIdentifier,
    /// An identifier's decimal form is shorter than the nine characters
    /// needed to build the sharded artifact path.
    IdentifierTooShort,
    /// A destination directory could not be created.
    DirectoryCreationError,
}

impl SporeError {
    /// A short description of the error, for reporting by callers.
    pub fn message(&self) -> (r: &'static str)
        ensures
            r@ == spec_message(*self),
    {
        match self {
            SporeError::FetchError => "failed to fetch the feed",
            SporeError::ParseError => "failed to parse the Atom XML",
            SporeError::MalformedEntry => "an entry is missing its <id> element or the element is empty",
            SporeError::UnexpectedIdFormat => "an entry has an unexpected <id> format",
            SporeError::InvalidIdentifier => "failed to parse an asset identifier",
            SporeError::IdentifierTooShort => "an asset identifier is too short",
            SporeError::DirectoryCreationError => "failed to create a directory",
        }
    }
}

/// What `SporeError::message` returns for each variant.
pub open spec fn spec_message(e: SporeError) -> Seq<char> {
    match e {
        SporeError::FetchError => "failed to fetch the feed"@,
        SporeError::ParseError => "failed to parse the Atom XML"@,
        SporeError::MalformedEntry => "an entry is missing its <id> element or the element is empty"@,
        SporeError::UnexpectedIdFormat => "an entry has an unexpected <id> format"@,
        SporeError::InvalidIdentifier => "failed to parse an asset identifier"@,
        SporeError::IdentifierTooShort => "an asset identifier is too short"@,
        SporeError::DirectoryCreationError => "failed to create a directory"@,
    }
}

} // verus!

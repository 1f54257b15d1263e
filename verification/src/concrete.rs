//! Concrete schema types: scalars, strings, blobs, byte arrays and links,
//! each a fixed set of declarative constraints.

use vstd::prelude::*;

use crate::meta::Metadata;

verus! {

/// A null type.
#[derive(PartialEq, Eq, Default, Clone, Debug)]
pub struct Null {
    pub metadata: Metadata,
}

/// A boolean type, with optional default and constant values.
#[derive(PartialEq, Eq, Default, Clone, Debug)]
pub struct Boolean {
    pub metadata: Metadata,
    pub default: Option<bool>,
    pub value: Option<bool>,
}

/// An integer type, with optional default, constant, bounds and enumeration.
#[derive(PartialEq, Eq, Default, Clone, Debug)]
pub struct Integer {
    pub metadata: Metadata,
    pub default: Option<i64>,
    pub value: Option<i64>,
    pub minimum: Option<i64>,
    pub maximum: Option<i64>,
    pub values: Option<Vec<i64>>,
}

/// A string type, with optional format, defaults, length bounds and
/// enumerations.
#[derive(PartialEq, Eq, Default, Clone, Debug)]
pub struct Text {
    pub metadata: Metadata,
    pub format: Option<StringFormat>,
    pub default: Option<String>,
    pub value: Option<String>,
    pub min_length: Option<usize>,
    pub max_length: Option<usize>,
    pub min_graphemes: Option<usize>,
    pub max_graphemes: Option<usize>,
    pub known_values: Option<Vec<String>>,
    pub values: Option<Vec<String>>,
}

/// The format a string field is declared to carry.
#[derive(PartialEq, Eq, Structural, Clone, Copy, Debug)]
pub enum StringFormat {
    /// A decentralized identifier or a handle.
    AtIdentifier,
    /// An `at://` URI.
    AtUri,
    /// A date-time string.
    Datetime,
    /// A decentralized identifier.
    Did,
    /// A handle.
    Handle,
    /// A namespace id.
    Nsid,
    /// An IETF language tag.
    Language,
    /// A generic URI.
    Uri,
}

/// A blob type, with optional accepted media types and size bound.
#[derive(PartialEq, Eq, Default, Clone, Debug)]
pub struct Blob {
    pub metadata: Metadata,
    pub accept: Option<Vec<String>>,
    pub max_size: Option<usize>,
}

/// A byte-array type, with optional length bounds.
#[derive(PartialEq, Eq, Default, Clone, Debug)]
pub struct Bytes {
    pub metadata: Metadata,
    pub min_length: Option<usize>,
    pub max_length: Option<usize>,
}

/// A content-link type.
#[derive(PartialEq, Eq, Default, Clone, Debug)]
pub struct Link {
    pub metadata: Metadata,
}

} // verus!

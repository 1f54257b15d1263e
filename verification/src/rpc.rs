//! Query and procedure schema types: parameters, bodies and declared
//! errors.

use vstd::prelude::*;

use crate::concrete::{Boolean, Integer, Text};
use crate::container::Object;
use crate::meta::{Metadata, Ref, Union, Unknown};

verus! {

/// A query: read-only RPC with parameters, an output and declared errors.
#[derive(PartialEq, Eq, Clone, Debug)]
pub struct Query {
    pub metadata: Metadata,
    pub parameters: Option<QuerySchema>,
    pub output: Option<Body>,
    pub errors: Option<Vec<Notice>>,
}

/// A procedure: mutating RPC with parameters, an input, an output and
/// declared errors.
#[derive(PartialEq, Eq, Clone, Debug)]
pub struct Procedure {
    pub metadata: Metadata,
    pub parameters: Option<QuerySchema>,
    pub input: Option<Body>,
    pub output: Option<Body>,
    pub errors: Option<Vec<Notice>>,
}

/// An RPC body: its encoding and, when structured, its schema.
#[derive(PartialEq, Eq, Clone, Debug)]
pub struct Body {
    pub metadata: Metadata,
    pub encoding: String,
    pub schema: Option<BodySchema>,
}

/// What a body's schema may be.
#[derive(PartialEq, Eq, Clone, Debug)]
pub enum BodySchema {
    Ref(Ref),
    Union(Union),
    Object(Object),
}

/// What an RPC's parameter block may be.
#[derive(PartialEq, Eq, Clone, Debug)]
pub enum QuerySchema {
    Parameters(Parameters),
}

/// An RPC's parameters: named values in declaration order (names unique),
/// with the required subset.
#[derive(PartialEq, Eq, Clone, Debug)]
pub struct Parameters {
    pub metadata: Metadata,
    pub properties: Vec<(String, ParameterValue)>,
    pub required: Vec<String>,
}

/// Uniqueness of the parameter names of a parameter block.
pub open spec fn parameter_keys_unique(p: Parameters) -> bool {
    forall|i: int, j: int|
        0 <= i < j < p.properties@.len() ==> p.properties@[i].0@ != p.properties@[j].0@
}

/// The type of one parameter.
#[derive(PartialEq, Eq, Clone, Debug)]
pub enum ParameterValue {
    Boolean(Boolean),
    Integer(Integer),
    String(Text),
    Unknown(Unknown),
    Array(ParameterArray),
}

/// An array-valued parameter and its item constraints.
#[derive(PartialEq, Eq, Clone, Debug)]
pub struct ParameterArray {
    pub metadata: Metadata,
    pub items: ParameterArrayItem,
    pub min_length: Option<usize>,
    pub max_length: Option<usize>,
}

/// The type of an array-valued parameter's items.
#[derive(PartialEq, Eq, Clone, Debug)]
pub enum ParameterArrayItem {
    Boolean(Boolean),
    Integer(Integer),
    String(Text),
    Unknown(Unknown),
}

/// A declared RPC error: its name and metadata.
#[derive(PartialEq, Eq, Clone, Debug)]
pub struct Notice {
    pub name: String,
    pub metadata: Metadata,
}

} // verus!

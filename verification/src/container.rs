//! Container schema types: records, arrays and objects, each with its own
//! closed set of member variants.

use vstd::prelude::*;
use vstd::string::StrSliceExecFns;
use vstd::string::StringExecFns;

use crate::concrete::{Blob, Boolean, Bytes, Integer, Link, Text};
use crate::meta::{Metadata, Ref, Union, Unknown};
use crate::strutil::{push_char, str_eq, substr};

verus! {

/// A record type: its key format and its definition.
#[derive(PartialEq, Eq, Clone, Debug)]
pub struct Record {
    pub metadata: Metadata,
    pub key: RecordKey,
    pub def: RecordDefinition,
}

impl Record {
    /// A record type over an object definition, with empty metadata.
    pub fn new(key: RecordKey, def: Object) -> (r: Self)
        ensures
            r.key == key,
            r.def == RecordDefinition::Object(def),
            r.metadata == (Metadata { description: None }),
    {
        Record { metadata: Metadata { description: None }, key, def: RecordDefinition::Object(def) }
    }
}

/// The key format a record type declares.
#[derive(PartialEq, Eq, Default, Clone, Debug)]
pub enum RecordKey {
    /// A timestamp identifier.
    #[default]
    Tid,
    /// A single well-known fixed key per collection.
    Literal(String),
    /// Any string meeting the schema requirements.
    Any,
}

/// The ghost shape of a record key format.
pub enum RecordKeyView {
    Tid,
    Literal(Seq<char>),
    Any,
}

/// The ghost shape of a record key format value.
pub open spec fn record_key_view(k: RecordKey) -> RecordKeyView {
    match k {
        RecordKey::Tid => RecordKeyView::Tid,
        RecordKey::Literal(s) => RecordKeyView::Literal(s@),
        RecordKey::Any => RecordKeyView::Any,
    }
}

/// What parsing a record key format yields: text after the prefix
/// `literal:`, or one of the words `any` and `tid`; anything else is
/// rejected.
pub open spec fn spec_parse_record_key(s: Seq<char>) -> Option<RecordKeyView> {
    if s.len() >= 8 && s.subrange(0, 8) == "literal:"@ {
        Some(RecordKeyView::Literal(s.subrange(8, s.len() as int)))
    } else if s == "any"@ {
        Some(RecordKeyView::Any)
    } else if s == "tid"@ {
        Some(RecordKeyView::Tid)
    } else {
        None
    }
}

/// The text form of a record key format.
pub open spec fn spec_record_key_text(k: RecordKey) -> Seq<char> {
    match k {
        RecordKey::Any => "any"@,
        RecordKey::Literal(s) => "literal:"@ + s@,
        RecordKey::Tid => "tid"@,
    }
}

impl RecordKey {
    /// Parses a record key format declaration.
    pub fn parse(s: &str) -> (r: Result<Self, ()>)
        ensures
            match r {
                Ok(k) => spec_parse_record_key(s@) == Some(record_key_view(k)),
                Err(_) => spec_parse_record_key(s@) is None,
            },
    {
        let n = s.unicode_len();
        if n >= 8 {
            let prefix = substr(s, 0, 8);
            if str_eq(prefix.as_str(), "literal:") {
                return Ok(RecordKey::Literal(substr(s, 8, n)));
            }
            proof {
                assert(s@.subrange(0, 8) != "literal:"@);
            }
        }
        if str_eq(s, "any") {
            return Ok(RecordKey::Any);
        }
        if str_eq(s, "tid") {
            return Ok(RecordKey::Tid);
        }
        Err(())
    }

    /// The text form: `any`, `tid` or `literal:` and the key.
    pub fn to_string(&self) -> (r: String)
        ensures
            r@ == spec_record_key_text(*self),
    {
        match self {
            RecordKey::Any => String::from_str("any"),
            RecordKey::Tid => String::from_str("tid"),
            RecordKey::Literal(s) => {
                let mut out = String::from_str("literal:");
                out.append(s.as_str());
                out
            },
        }
    }
}

impl core::str::FromStr for RecordKey {
    type Err = ();

    fn from_str(s: &str) -> Result<Self, Self::Err> {
        RecordKey::parse(s)
    }
}

/// What a record's body may be.
#[derive(PartialEq, Eq, Clone, Debug)]
pub enum RecordDefinition {
    Object(Object),
}

/// An array type and its item constraints.
#[derive(PartialEq, Eq, Clone, Debug)]
pub struct Array {
    pub metadata: Metadata,
    pub items: ArrayItem,
    pub min_length: Option<usize>,
    pub max_length: Option<usize>,
}

/// The type of an array's items.
#[derive(PartialEq, Eq, Clone, Debug)]
pub enum ArrayItem {
    Blob(Blob),
    Boolean(Boolean),
    Bytes(Bytes),
    Integer(Integer),
    Link(Link),
    String(Text),
    Unknown(Unknown),
    Ref(Ref),
    Union(Union),
}

/// An object type: named properties in declaration order (names unique),
/// with the required and nullable subsets.
#[derive(PartialEq, Eq, Default, Clone, Debug)]
pub struct Object {
    pub metadata: Metadata,
    pub properties: Vec<(String, Property)>,
    pub required: Vec<String>,
    pub nullable: Vec<String>,
}

/// Uniqueness of the property names of an object.
pub open spec fn object_keys_unique(o: Object) -> bool {
    forall|i: int, j: int|
        0 <= i < j < o.properties@.len() ==> o.properties@[i].0@ != o.properties@[j].0@
}

/// A property of an object.
#[derive(PartialEq, Eq, Clone, Debug)]
pub enum Property {
    Blob(Blob),
    Boolean(Boolean),
    Bytes(Bytes),
    Integer(Integer),
    Link(Link),
    String(Text),
    Unknown(Unknown),
    Array(Array),
    Ref(Ref),
    Union(Union),
}

} // verus!

//! Schema documents: a versioned namespace with named definitions, and the
//! projection of those definitions to fully qualified type identifiers.

use vstd::prelude::*;
use vstd::string::StrSliceExecFns;

use crate::concrete::{Blob, Boolean, Bytes, Integer, Link, Text};
use crate::container::{Array, Object, Record};
use crate::meta::{Metadata, Ref, Union, Unknown};
use crate::ns::{name_view, spec_local_name, Nsid, TypeId};
use crate::rpc::{Procedure, Query};

verus! {

/// The schema language version a document declares.
#[derive(PartialEq, Eq, Structural, PartialOrd, Ord, Clone, Copy, Debug)]
pub struct Version(pub u32);

impl Default for Version {
    /// The fixed current language version, one.
    fn default() -> (r: Self)
        ensures
            r == Version(1u32),
    {
        Version(1)
    }
}

/// A schema document: its namespace, and its definitions by local name, in
/// declaration order with unique names.
#[derive(PartialEq, Eq, Clone, Debug)]
pub struct Document {
    /// Schema language version; fixed at one in this version.
    pub version: Version,
    pub id: Nsid,
    pub revision: Option<u32>,
    pub metadata: Metadata,
    pub defs: Vec<(String, Definition)>,
}

/// Uniqueness of the definition names of a document.
pub open spec fn document_keys_unique(d: Document) -> bool {
    forall|i: int, j: int| 0 <= i < j < d.defs@.len() ==> d.defs@[i].0@ != d.defs@[j].0@
}

impl Document {
    /// An empty document for a namespace, at the current language version.
    pub fn new(id: Nsid) -> (r: Self)
        ensures
            r.id == id,
            r.version == Version(1u32),
            r.revision is None,
            r.metadata == (Metadata { description: None }),
            r.defs@.len() == 0,
    {
        Document {
            version: Version(1),
            id,
            revision: None,
            metadata: Metadata { description: None },
            defs: Vec::new(),
        }
    }

    /// The document's definitions as fully qualified type identifiers, in
    /// declaration order; the name `main` becomes the nameless main
    /// definition.
    pub fn into_types(self) -> (r: Vec<(TypeId, Definition)>)
        ensures
            r@.len() == self.defs@.len(),
            forall|i: int|
                0 <= i < r@.len() ==> r@[i].1 == self.defs@[i].1 && r@[i].0.ns == self.id
                    && name_view(r@[i].0.name) == spec_local_name(self.defs@[i].0@),
    {
        let Document { id, mut defs, .. } = self;
        let ghost orig = defs@;
        let mut out: Vec<(TypeId, Definition)> = Vec::new();
        while defs.len() > 0
            invariant
                out@.len() + defs@.len() == orig.len(),
                defs@ =~= orig.subrange(out@.len() as int, orig.len() as int),
                forall|i: int|
                    0 <= i < out@.len() ==> out@[i].1 == orig[i].1 && out@[i].0.ns == id
                        && name_view(out@[i].0.name) == spec_local_name(orig[i].0@),
            decreases defs@.len(),
        {
            let (name, def) = defs.remove(0);
            let tid = TypeId::of(&id, name.as_str());
            out.push((tid, def));
            proof {
                assert(defs@ =~= orig.subrange(out@.len() as int, orig.len() as int));
            }
        }
        out
    }
}

/// A top-level definition in a schema document.
#[derive(PartialEq, Eq, Clone, Debug)]
pub enum Definition {
    Record(Record),
    Query(Query),
    Procedure(Procedure),
    Array(Array),
    Object(Object),
    Blob(Blob),
    Boolean(Boolean),
    Bytes(Bytes),
    Integer(Integer),
    Link(Link),
    String(Text),
    Unknown(Unknown),
    Ref(Ref),
    Union(Union),
}

} // verus!

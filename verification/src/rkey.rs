//! Record keys: the literal `self`, a timestamp identifier, or any other
//! text kept verbatim.  Classification never fails.

use vstd::prelude::*;
use vstd::string::StringExecFns;

use crate::codec::{self, spec_decode_u64, spec_encode_u64, DecodeError};
use crate::strutil::str_eq;
use crate::tid::Tid;

verus! {

/// A record key: the unique identifier of a record within its repository
/// and collection.
#[derive(PartialEq, Eq, PartialOrd, Ord, Hash, Debug)]
pub enum Rkey {
    /// The literal key `self`: the collection holds a single record.
    Unique,
    /// A timestamp identifier.
    Tid(Tid),
    /// Any other key text, kept verbatim.
    Custom(String),
}

/// The ghost shape of a record key.
pub enum RkeyView {
    Unique,
    Tid(u64),
    Custom(Seq<char>),
}

/// The ghost shape of a record key value.
pub open spec fn rkey_view(k: Rkey) -> RkeyView {
    match k {
        Rkey::Unique => RkeyView::Unique,
        Rkey::Tid(t) => RkeyView::Tid(t.0),
        Rkey::Custom(s) => RkeyView::Custom(s@),
    }
}

/// What classifying key text yields: the literal `self`, else a timestamp
/// identifier if the text decodes as one, else the text verbatim.
pub open spec fn spec_parse_rkey(s: Seq<char>) -> RkeyView {
    if s == "self"@ {
        RkeyView::Unique
    } else if spec_decode_u64(s) is Ok {
        RkeyView::Tid(spec_decode_u64(s)->Ok_0)
    } else {
        RkeyView::Custom(s)
    }
}

/// The text form of a record key.
pub open spec fn spec_rkey_text(k: Rkey) -> Seq<char> {
    match k {
        Rkey::Unique => "self"@,
        Rkey::Tid(t) => spec_encode_u64(t.0),
        Rkey::Custom(s) => s@,
    }
}

impl Rkey {
    /// Classifies key text; every text is some key, so this never fails.
    pub fn new(value: &str) -> (r: Self)
        ensures
            rkey_view(r) == spec_parse_rkey(value@),
    {
        if str_eq(value, "self") {
            return Rkey::Unique;
        }
        match codec::decode_u64(value) {
            Ok(v) => Rkey::Tid(Tid(v)),
            Err(_) => Rkey::Custom(value.to_owned()),
        }
    }

    /// The text form: `self`, the timestamp identifier's text, or the
    /// stored text.
    pub fn to_string(&self) -> (r: String)
        ensures
            r@ == spec_rkey_text(*self),
    {
        match self {
            Rkey::Unique => {
                let s = String::from_str("self");
                s
            },
            Rkey::Tid(t) => t.encode(),
            Rkey::Custom(s) => s.clone(),
        }
    }
}

impl Clone for Rkey {
    /// An equal record key.
    fn clone(&self) -> (r: Self)
        ensures
            r == *self,
    {
        match self {
            Rkey::Unique => Rkey::Unique,
            Rkey::Tid(t) => Rkey::Tid(*t),
            Rkey::Custom(s) => Rkey::Custom(s.clone()),
        }
    }
}

/// Whether a record key's text form classifies back to the same key: custom
/// text must not be the literal `self` nor decode as a timestamp identifier.
pub open spec fn rkey_text_safe(k: Rkey) -> bool {
    match k {
        Rkey::Unique => true,
        Rkey::Tid(_) => true,
        Rkey::Custom(s) => s@ != "self"@ && !(spec_decode_u64(s@) is Ok),
    }
}

/// Law: a record key whose text is classification-safe survives the round
/// trip through its text form.
pub proof fn lemma_rkey_round_trip(k: Rkey)
    requires
        rkey_text_safe(k),
    ensures
        spec_parse_rkey(spec_rkey_text(k)) == rkey_view(k),
{
    match k {
        Rkey::Unique => {
        },
        Rkey::Tid(t) => {
            reveal_strlit("self");
            assert(spec_encode_u64(t.0).len() == 13);
            assert(spec_encode_u64(t.0) != "self"@);
            codec::lemma_decode_encode_u64(t.0);
        },
        Rkey::Custom(_) => {
        },
    }
}

} // verus!

//! Repository identifiers: a decentralized identifier or a handle,
//! classified by the literal prefix `did:`.

use vstd::prelude::*;

use crate::did::{did_view, did_wf, has_did_prefix, spec_did_text, spec_parse_did, Did, DidView,
    InvalidDid};
use crate::handle::{handle_wf, is_ascii_alpha, is_ascii_digit, spec_validate_handle, Handle,
    InvalidHandle};

verus! {

/// A repository identifier: a decentralized identifier or a handle.
#[derive(PartialEq, Eq, PartialOrd, Ord, Hash, Debug)]
pub enum Identifier {
    Did(Did),
    Handle(Handle),
}

/// Failure of a repository-identifier parse.
#[derive(PartialEq, Eq, Structural, Clone, Copy, Debug)]
pub enum InvalidIdentifier {
    /// Text with the `did:` prefix that is no valid decentralized identifier.
    Did(InvalidDid),
    /// Text without the prefix that is no valid handle.
    Handle(InvalidHandle),
}

impl InvalidIdentifier {
    /// The failure that an empty authority produces: an empty handle.
    pub fn empty() -> (r: Self)
        ensures
            r == InvalidIdentifier::Handle(InvalidHandle::Empty),
    {
        InvalidIdentifier::Handle(InvalidHandle::Empty)
    }
}

/// The ghost shape of a parsed repository identifier.
pub enum IdentifierView {
    Did(DidView),
    Handle(Seq<char>),
}

/// The ghost shape of a repository identifier.
pub open spec fn identifier_view(i: Identifier) -> IdentifierView {
    match i {
        Identifier::Did(d) => IdentifierView::Did(did_view(d)),
        Identifier::Handle(h) => IdentifierView::Handle(h@),
    }
}

/// Well-formedness of a repository identifier: its payload is.
pub open spec fn identifier_wf(i: Identifier) -> bool {
    match i {
        Identifier::Did(d) => did_wf(d),
        Identifier::Handle(h) => handle_wf(h),
    }
}

/// What parsing a repository identifier yields: text with the `did:` prefix
/// is a decentralized identifier, anything else a handle.
pub open spec fn spec_parse_identifier(s: Seq<char>) -> Result<
    IdentifierView,
    InvalidIdentifier,
> {
    if has_did_prefix(s) {
        match spec_parse_did(s) {
            Ok(v) => Ok(IdentifierView::Did(v)),
            Err(e) => Err(InvalidIdentifier::Did(e)),
        }
    } else {
        match spec_validate_handle(s) {
            Ok(_) => Ok(IdentifierView::Handle(s)),
            Err(e) => Err(InvalidIdentifier::Handle(e)),
        }
    }
}

/// The text form of a repository identifier.
pub open spec fn spec_identifier_text(i: Identifier) -> Seq<char> {
    match i {
        Identifier::Did(d) => spec_did_text(d),
        Identifier::Handle(h) => h@,
    }
}

impl Identifier {
    /// Parses text with the `did:` prefix as a decentralized identifier and
    /// anything else as a handle.
    pub fn parse(s: &str) -> (r: Result<Self, InvalidIdentifier>)
        ensures
            match r {
                Ok(i) => spec_parse_identifier(s@) == Ok::<IdentifierView, InvalidIdentifier>(
                    identifier_view(i),
                ) && identifier_wf(i),
                Err(e) => spec_parse_identifier(s@) == Err::<IdentifierView, InvalidIdentifier>(e),
            },
    {
        let n = s.unicode_len();
        proof {
            reveal_strlit("did:");
        }
        let prefixed = n >= 4 && s.get_char(0) == 'd' && s.get_char(1) == 'i' && s.get_char(2)
            == 'd' && s.get_char(3) == ':';
        proof {
            if prefixed {
                assert(s@.subrange(0, 4) =~= "did:"@);
            } else if s@.len() >= 4 && s@.subrange(0, 4) == "did:"@ {
                assert(s@.subrange(0, 4)[0] == 'd' && s@.subrange(0, 4)[1] == 'i' && s@.subrange(
                    0,
                    4,
                )[2] == 'd' && s@.subrange(0, 4)[3] == ':');
            }
        }
        if prefixed {
            match Did::parse(s) {
                Ok(d) => Ok(Identifier::Did(d)),
                Err(e) => Err(InvalidIdentifier::Did(e)),
            }
        } else {
            match Handle::parse(s) {
                Ok(h) => Ok(Identifier::Handle(h)),
                Err(e) => Err(InvalidIdentifier::Handle(e)),
            }
        }
    }

    /// The text form: the decentralized identifier's, or the handle's.
    pub fn to_string(&self) -> (r: String)
        ensures
            r@ == spec_identifier_text(*self),
    {
        match self {
            Identifier::Did(d) => d.to_string(),
            Identifier::Handle(h) => h.to_string(),
        }
    }
}

impl Clone for Identifier {
    /// An equal identifier.
    fn clone(&self) -> (r: Self)
        ensures
            r == *self,
    {
        match self {
            Identifier::Did(d) => Identifier::Did(d.clone()),
            Identifier::Handle(h) => Identifier::Handle(h.clone()),
        }
    }
}

impl core::str::FromStr for Identifier {
    type Err = InvalidIdentifier;

    fn from_str(s: &str) -> Result<Self, Self::Err> {
        Identifier::parse(s)
    }
}

/// Law: a well-formed repository identifier survives the round trip through
/// its text form.
pub proof fn lemma_identifier_round_trip(i: Identifier)
    requires
        identifier_wf(i),
    ensures
        spec_parse_identifier(spec_identifier_text(i)) == Ok::<
            IdentifierView,
            InvalidIdentifier,
        >(identifier_view(i)),
{
    reveal_strlit("did:");
    match i {
        Identifier::Did(d) => {
            reveal_strlit("did:plc:");
            reveal_strlit("did:web:");
            let t = spec_did_text(d);
            assert(t.subrange(0, 4) =~= "did:"@);
            crate::did::lemma_did_round_trip(d);
        },
        Identifier::Handle(h) => {
            crate::handle::lemma_handle_chars(h@);
            if has_did_prefix(h@) {
                assert(h@[3] == h@.subrange(0, 4)[3]);
                assert(h@[3] == ':');
                assert(is_ascii_alpha(h@[3]) || is_ascii_digit(h@[3]) || h@[3] == '-' || h@[3]
                    == '.');
            }
        },
    }
}

} // verus!

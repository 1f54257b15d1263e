//! Decentralized identifiers, restricted to the two sub-schemes of the
//! protocol: `did:plc` with a fixed-width identifier, and `did:web` with a
//! handle.

use vstd::prelude::*;
use vstd::string::StrSliceExecFns;
use vstd::string::StringExecFns;

use crate::codec::{self, first_invalid_general, general_val, spec_decode_bytes,
    spec_encode_bytes, DecodeError};
use crate::handle::{handle_wf, is_ascii_alpha, is_ascii_digit, spec_validate_handle, Handle,
    InvalidHandle};
use crate::strutil::{first_index_of, lemma_first_index_of, substr};

verus! {

/// The identifier payload of a `did:plc`: fifteen raw bytes, carried in
/// their fixed 24-symbol general-alphabet text form.
#[derive(PartialEq, Eq, PartialOrd, Ord, Hash, Debug)]
pub struct PlcId(String);

impl View for PlcId {
    type V = Seq<char>;

    closed spec fn view(&self) -> Seq<char> {
        self.0@
    }
}

/// Well-formedness of a `did:plc` identifier: exactly 24 symbols, all in the
/// general alphabet.
pub open spec fn plc_wf(p: PlcId) -> bool {
    p@.len() == 24 && forall|j: int| 0 <= j < p@.len() ==> general_val(p@[j]) != -1
}

/// What decoding `did:plc` identifier text checks: exactly 24 symbols, all
/// in the general alphabet.
pub open spec fn spec_check_plc(s: Seq<char>) -> Result<(), DecodeError> {
    if s.len() != 24 {
        Err(DecodeError::InvalidLength { length: s.len() as usize })
    } else if first_invalid_general(s, 0) >= 0 {
        let i = first_invalid_general(s, 0);
        Err(DecodeError::InvalidChar { character: s[i], index: i as usize })
    } else {
        Ok(())
    }
}

impl PlcId {
    #[verifier::type_invariant]
    spec fn type_wf(self) -> bool {
        plc_wf(self)
    }

    /// An identifier from its fifteen raw bytes.
    pub fn new(id: [u8; 15]) -> (r: Self)
        ensures
            r@ == spec_encode_bytes(id@),
            plc_wf(r),
    {
        let text = codec::encode(id.as_slice());
        proof {
            codec::lemma_encode_bytes_valid(id@);
        }
        PlcId(text)
    }

    /// Parses the 24-symbol text form, rejecting any other length and any
    /// symbol outside the general alphabet.
    pub fn decode(input: &str) -> (r: Result<Self, DecodeError>)
        ensures
            match r {
                Ok(p) => spec_check_plc(input@) is Ok && p@ == input@ && plc_wf(p),
                Err(e) => spec_check_plc(input@) == Err::<(), DecodeError>(e),
            },
    {
        let n = input.unicode_len();
        if n != 24 {
            return Err(DecodeError::InvalidLength { length: n });
        }
        let mut i: usize = 0;
        while i < n
            invariant
                i <= n,
                n == 24,
                n == input@.len(),
                forall|j: int| 0 <= j < i ==> general_val(input@[j]) != -1,
            decreases n - i,
        {
            let c = input.get_char(i);
            let u = c as u32;
            if !((97 <= u && u <= 122) || (50 <= u && u <= 55)) {
                proof {
                    codec::lemma_first_invalid_general(input@, 0, i as int);
                }
                return Err(DecodeError::InvalidChar { character: c, index: i });
            }
            i = i + 1;
        }
        proof {
            codec::lemma_first_invalid_general(input@, 0, n as int);
        }
        Ok(PlcId(input.to_owned()))
    }

    /// The 24-symbol text form.
    pub fn encode(&self) -> (r: String)
        ensures
            r@ == self@,
    {
        self.0.clone()
    }

    /// The text form; what `encode` yields.
    pub fn to_string(&self) -> (r: String)
        ensures
            r@ == self@,
    {
        self.0.clone()
    }

    /// The fifteen raw bytes the text form carries.
    pub fn to_bytes(&self) -> (r: Vec<u8>)
        ensures
            spec_decode_bytes(self@) == Ok::<Seq<u8>, DecodeError>(r@),
            r@.len() == 15,
    {
        proof {
            use_type_invariant(self);
            codec::lemma_first_invalid_general(self@, 0, 24);
        }
        match codec::decode(self.0.as_str()) {
            Ok(v) => v,
            Err(_) => {
                proof {
                    assert(false);
                }
                Vec::new()
            },
        }
    }
}

impl Clone for PlcId {
    /// An equal identifier.
    fn clone(&self) -> (r: Self)
        ensures
            r == *self,
    {
        proof {
            use_type_invariant(self);
        }
        PlcId(self.0.clone())
    }
}

impl core::str::FromStr for PlcId {
    type Err = DecodeError;

    fn from_str(s: &str) -> Result<Self, Self::Err> {
        PlcId::decode(s)
    }
}

/// A decentralized identifier: a `did:plc` payload or a `did:web` handle.
/// No third scheme is representable.
#[derive(PartialEq, Eq, PartialOrd, Ord, Hash, Debug)]
pub enum Did {
    /// A `did:plc` identifier with its globally unique payload.
    Plc(PlcId),
    /// A `did:web` identifier, restricted to valid handles.
    Web(Handle),
}

/// Failure of a decentralized-identifier parse.
#[derive(PartialEq, Eq, Structural, Clone, Copy, Debug)]
pub enum InvalidDid {
    /// The text does not start with `did:`.
    Prefix,
    /// No colon after the prefix, or a scheme other than `plc` and `web`.
    Scheme,
    /// The `plc` payload did not decode.
    Plc(DecodeError),
    /// The `web` payload is no valid handle.
    Web(InvalidHandle),
}

/// The ghost shape of a parsed decentralized identifier: which scheme, and
/// the payload text.
pub enum DidView {
    Plc(Seq<char>),
    Web(Seq<char>),
}

/// The ghost shape of a decentralized identifier.
pub open spec fn did_view(d: Did) -> DidView {
    match d {
        Did::Plc(p) => DidView::Plc(p@),
        Did::Web(h) => DidView::Web(h@),
    }
}

/// Well-formedness of a decentralized identifier: its payload is.
pub open spec fn did_wf(d: Did) -> bool {
    match d {
        Did::Plc(p) => plc_wf(p),
        Did::Web(h) => handle_wf(h),
    }
}

/// Whether the text starts with the literal prefix `did:`.
pub open spec fn has_did_prefix(s: Seq<char>) -> bool {
    s.len() >= 4 && s.subrange(0, 4) == "did:"@
}

/// What parsing a decentralized identifier yields: the text after `did:` is
/// split at its first colon into scheme and payload, and the payload is
/// checked by the scheme's rules.
pub open spec fn spec_parse_did(s: Seq<char>) -> Result<DidView, InvalidDid> {
    if !has_did_prefix(s) {
        Err(InvalidDid::Prefix)
    } else {
        let rest = s.subrange(4, s.len() as int);
        let c = first_index_of(rest, 0, ':');
        if c < 0 {
            Err(InvalidDid::Scheme)
        } else {
            let scheme = rest.take(c);
            let id = rest.subrange(c + 1, rest.len() as int);
            if scheme == "plc"@ {
                match spec_check_plc(id) {
                    Ok(_) => Ok(DidView::Plc(id)),
                    Err(e) => Err(InvalidDid::Plc(e)),
                }
            } else if scheme == "web"@ {
                match spec_validate_handle(id) {
                    Ok(_) => Ok(DidView::Web(id)),
                    Err(e) => Err(InvalidDid::Web(e)),
                }
            } else {
                Err(InvalidDid::Scheme)
            }
        }
    }
}

/// The text form of a decentralized identifier.
pub open spec fn spec_did_text(d: Did) -> Seq<char> {
    match d {
        Did::Plc(p) => "did:plc:"@ + p@,
        Did::Web(h) => "did:web:"@ + h@,
    }
}

impl Did {
    /// Parses `did:plc:` or `did:web:` text; other prefixes, schemes and
    /// malformed payloads are rejected.
    pub fn parse(s: &str) -> (r: Result<Self, InvalidDid>)
        ensures
            match r {
                Ok(d) => spec_parse_did(s@) == Ok::<DidView, InvalidDid>(did_view(d)) && did_wf(d),
                Err(e) => spec_parse_did(s@) == Err::<DidView, InvalidDid>(e),
            },
    {
        let n = s.unicode_len();
        proof {
            reveal_strlit("did:");
        }
        if n < 4 || s.get_char(0) != 'd' || s.get_char(1) != 'i' || s.get_char(2) != 'd'
            || s.get_char(3) != ':' {
            proof {
                if s@.len() >= 4 && s@.subrange(0, 4) == "did:"@ {
                    assert(s@.subrange(0, 4)[0] == 'd' && s@.subrange(0, 4)[1] == 'i'
                        && s@.subrange(0, 4)[2] == 'd' && s@.subrange(0, 4)[3] == ':');
                }
            }
            return Err(InvalidDid::Prefix);
        }
        proof {
            assert(s@.subrange(0, 4) =~= "did:"@);
        }
        let ghost rest = s@.subrange(4, n as int);
        let mut i: usize = 4;
        while i < n
            invariant
                4 <= i <= n,
                n == s@.len(),
                has_did_prefix(s@),
                rest == s@.subrange(4, n as int),
                forall|j: int| 4 <= j < i ==> s@[j] != ':',
            decreases n - i,
        {
            if s.get_char(i) == ':' {
                proof {
                    assert forall|j: int| 0 <= j < i - 4 implies rest[j] != ':' by {
                        assert(rest[j] == s@[4 + j]);
                    }
                    assert(rest[i - 4] == s@[i as int]);
                    lemma_first_index_of(rest, 0, i - 4, ':');
                }
                let scheme = substr(s, 4, i);
                let id = substr(s, i + 1, n);
                proof {
                    assert(scheme@ =~= rest.take(i - 4));
                    assert(id@ =~= rest.subrange(i - 4 + 1, rest.len() as int));
                }
                if crate::strutil::str_eq(scheme.as_str(), "plc") {
                    return match PlcId::decode(id.as_str()) {
                        Ok(p) => Ok(Did::Plc(p)),
                        Err(e) => Err(InvalidDid::Plc(e)),
                    };
                }
                if crate::strutil::str_eq(scheme.as_str(), "web") {
                    return match Handle::parse(id.as_str()) {
                        Ok(h) => Ok(Did::Web(h)),
                        Err(e) => Err(InvalidDid::Web(e)),
                    };
                }
                return Err(InvalidDid::Scheme);
            }
            i = i + 1;
        }
        proof {
            assert forall|j: int| 0 <= j < rest.len() implies rest[j] != ':' by {
                assert(rest[j] == s@[4 + j]);
            }
            lemma_first_index_of(rest, 0, rest.len() as int, ':');
        }
        Err(InvalidDid::Scheme)
    }

    /// The text form: `did:plc:` or `did:web:` and the payload.
    pub fn to_string(&self) -> (r: String)
        ensures
            r@ == spec_did_text(*self),
    {
        match self {
            Did::Plc(p) => {
                let mut out = String::from_str("did:plc:");
                out.append(p.encode().as_str());
                out
            },
            Did::Web(h) => {
                let mut out = String::from_str("did:web:");
                out.append(h.as_str());
                out
            },
        }
    }
}

impl Clone for Did {
    /// An equal identifier.
    fn clone(&self) -> (r: Self)
        ensures
            r == *self,
    {
        match self {
            Did::Plc(p) => Did::Plc(p.clone()),
            Did::Web(h) => Did::Web(h.clone()),
        }
    }
}

impl core::str::FromStr for Did {
    type Err = InvalidDid;

    fn from_str(s: &str) -> Result<Self, Self::Err> {
        Did::parse(s)
    }
}

/// Law: a well-formed decentralized identifier survives the round trip
/// through its text form — parsing what `to_string` yields gives it back.
pub proof fn lemma_did_round_trip(d: Did)
    requires
        did_wf(d),
    ensures
        spec_parse_did(spec_did_text(d)) == Ok::<DidView, InvalidDid>(did_view(d)),
{
    reveal_strlit("did:");
    reveal_strlit("did:plc:");
    reveal_strlit("did:web:");
    reveal_strlit("plc");
    reveal_strlit("web");
    let t = spec_did_text(d);
    let body: Seq<char> = match d {
        Did::Plc(p) => p@,
        Did::Web(h) => h@,
    };
    assert(t.subrange(0, 4) =~= "did:"@);
    let rest = t.subrange(4, t.len() as int);
    assert forall|j: int| 0 <= j < 3 implies rest[j] != ':' by {
        assert(rest[j] == t[4 + j]);
    }
    match d {
        Did::Plc(p) => {
            assert(rest[3] == t[7]);
            assert forall|j: int| 4 <= j < rest.len() implies rest[j] != ':' by {
                assert(rest[j] == p@[j - 4]);
                assert(general_val(p@[j - 4]) != -1);
                assert(p@[j - 4] as u32 != 58);
            }
            lemma_first_index_of(rest, 0, 3, ':');
            assert(rest.take(3) =~= "plc"@);
            assert(rest.subrange(4, rest.len() as int) =~= p@);
            codec::lemma_first_invalid_general(p@, 0, 24);
        },
        Did::Web(h) => {
            assert(rest[3] == t[7]);
            crate::handle::lemma_handle_chars(h@);
            assert forall|j: int| 4 <= j < rest.len() implies rest[j] != ':' by {
                assert(rest[j] == h@[j - 4]);
                let c = h@[j - 4];
                assert(is_ascii_alpha(c) || is_ascii_digit(c) || c == '-' || c == '.');
                assert(c as u32 != 58);
            }
            lemma_first_index_of(rest, 0, 3, ':');
            assert(rest.take(3) =~= "web"@);
            assert(rest.take(3) != "plc"@) by {
                assert(rest.take(3)[0] == 'w' && "plc"@[0] == 'p');
            }
            assert(rest.subrange(4, rest.len() as int) =~= h@);
        },
    }
}

} // verus!

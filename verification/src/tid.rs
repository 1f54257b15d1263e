//! Timestamp identifiers: a 53-bit microsecond Unix timestamp and a 10-bit
//! sequence value packed into 64 bits, rendered through the sortable base-32
//! alphabet so that text order follows numeric order.

use vstd::prelude::*;

use crate::codec::{self, lex_lt, spec_decode_u64, spec_encode_u64, DecodeError};

verus! {

/// A timestamp identifier.  The high bit of the packed value is reserved and
/// zero for every identifier built by [`Tid::new`]; decoding accepts any
/// 64-bit pattern, as the wire format does.
#[derive(PartialEq, Eq, Structural, PartialOrd, Ord, Hash, Copy, Clone, Debug)]
pub struct Tid(pub u64);

/// The packed 64-bit value for a timestamp and a sequence number: the
/// timestamp truncated to 53 bits, shifted over the sequence value truncated
/// to 10 bits.
pub open spec fn spec_tid_pack(ts: u64, seq: u16) -> u64 {
    ((ts & 0x1F_FFFF_FFFF_FFFF) << 10u64) | ((seq & 0x3FF) as u64)
}

/// The microsecond timestamp packed into a 64-bit value.
pub open spec fn spec_tid_timestamp(v: u64) -> u64 {
    (v >> 10u64) & 0x1FFF_FFFF_FFFF_FFFF
}

/// The sequence value packed into a 64-bit value.
pub open spec fn spec_tid_seq(v: u64) -> u16 {
    (v & 0x3FF) as u16
}

impl Tid {
    /// Packs a timestamp and a sequence value.  Out-of-range inputs are
    /// silently truncated to their fields' widths; construction never fails.
    #[inline]
    pub fn new(ts: u64, seq: u16) -> (r: Self)
        ensures
            r.0 == spec_tid_pack(ts, seq),
    {
        let ts = (ts & 0x1F_FFFF_FFFF_FFFF) << 10u64;
        let seq = (seq & 0x3FF) as u64;
        Tid(ts | seq)
    }

    /// The microsecond Unix timestamp held in the high bits.
    pub fn timestamp(&self) -> (r: u64)
        ensures
            r == spec_tid_timestamp(self.0),
    {
        (self.0 >> 10u64) & 0x1FFF_FFFF_FFFF_FFFF
    }

    /// The sequence value held in the low 10 bits.
    pub fn seq(&self) -> (r: u16)
        ensures
            r == spec_tid_seq(self.0),
    {
        (self.0 & 0x3FF) as u16
    }

    /// Parses the fixed 13-symbol sortable-alphabet text form.
    pub fn decode(input: &str) -> (r: Result<Self, DecodeError>)
        ensures
            match r {
                Ok(t) => spec_decode_u64(input@) == Ok::<u64, DecodeError>(t.0),
                Err(e) => spec_decode_u64(input@) == Err::<u64, DecodeError>(e),
            },
    {
        match codec::decode_u64(input) {
            Ok(v) => Ok(Tid(v)),
            Err(e) => Err(e),
        }
    }

    /// The fixed 13-symbol sortable-alphabet text form.
    pub fn encode(&self) -> (r: String)
        ensures
            r@ == spec_encode_u64(self.0),
    {
        codec::encode_u64(self.0)
    }

    /// The text form; what `encode` yields.
    pub fn to_string(&self) -> (r: String)
        ensures
            r@ == spec_encode_u64(self.0),
    {
        self.encode()
    }
}

impl core::str::FromStr for Tid {
    type Err = DecodeError;

    fn from_str(s: &str) -> Result<Self, Self::Err> {
        Tid::decode(s)
    }
}

/// Law: unpacking inverts packing — a timestamp identifier built from an
/// in-range timestamp and sequence value yields them back exactly, and
/// out-of-range inputs are truncated to their fields' widths.
pub proof fn lemma_tid_pack_unpack(ts: u64, seq: u16)
    ensures
        spec_tid_timestamp(spec_tid_pack(ts, seq)) == ts & 0x1F_FFFF_FFFF_FFFF,
        spec_tid_seq(spec_tid_pack(ts, seq)) == seq & 0x3FF,
        ts < 0x20_0000_0000_0000 ==> spec_tid_timestamp(spec_tid_pack(ts, seq)) == ts,
        seq < 0x400 ==> spec_tid_seq(spec_tid_pack(ts, seq)) == seq,
{
    let v = spec_tid_pack(ts, seq);
    assert(spec_tid_timestamp(v) == ts & 0x1F_FFFF_FFFF_FFFF && spec_tid_seq(v) == seq & 0x3FF
        && (ts < 0x20_0000_0000_0000 ==> (ts & 0x1F_FFFF_FFFF_FFFF) == ts) && (seq < 0x400 ==> (
    seq & 0x3FF) == seq)) by (bit_vector)
        requires
            v == spec_tid_pack(ts, seq),
    ;
}

/// Law: a timestamp identifier survives the round trip through its text
/// form — decoding what `encode` yields gives the identifier back.
pub proof fn lemma_tid_round_trip(t: Tid)
    ensures
        spec_decode_u64(spec_encode_u64(t.0)) == Ok::<u64, DecodeError>(t.0),
{
    codec::lemma_decode_encode_u64(t.0);
}

/// Law: the text form sorts as the packed value does — of two identifiers,
/// the one with the smaller 64-bit value encodes to the lexicographically
/// smaller text.
pub proof fn lemma_tid_encoding_preserves_order(t1: Tid, t2: Tid)
    requires
        t1.0 < t2.0,
    ensures
        lex_lt(spec_encode_u64(t1.0), spec_encode_u64(t2.0)),
{
    codec::lemma_encode_u64_preserves_order(t1.0, t2.0);
}

} // verus!

//! Base-32 codec over two fixed alphabets: a general one for byte
//! identifiers, and a sortable one whose symbol order follows the numeric
//! order of the encoded value.

use vstd::prelude::*;

use crate::strutil::push_char;

verus! {

/// Failure of a base-32 decode.
#[derive(PartialEq, Eq, Structural, Clone, Copy, Debug, Hash)]
pub enum DecodeError {
    /// A symbol outside the active alphabet, with its position.
    InvalidChar { character: char, index: usize },
    /// An input length that no encoding produces.
    InvalidLength { length: usize },
}

/// Value of a symbol in the sortable alphabet (`2`..`7` then `a`..`z`),
/// or -1 for a symbol outside it.
pub open spec fn sortable_val(c: char) -> int {
    let u = c as u32;
    if 50 <= u && u <= 55 {
        u - 50
    } else if 97 <= u && u <= 122 {
        u - 97 + 6
    } else {
        -1
    }
}

/// Symbol of the sortable alphabet for a five-bit value.
pub open spec fn sortable_char(d: int) -> char {
    if d == 0 { '2' } else if d == 1 { '3' } else if d == 2 { '4' }
    else if d == 3 { '5' } else if d == 4 { '6' } else if d == 5 { '7' }
    else if d == 6 { 'a' } else if d == 7 { 'b' } else if d == 8 { 'c' }
    else if d == 9 { 'd' } else if d == 10 { 'e' } else if d == 11 { 'f' }
    else if d == 12 { 'g' } else if d == 13 { 'h' } else if d == 14 { 'i' }
    else if d == 15 { 'j' } else if d == 16 { 'k' } else if d == 17 { 'l' }
    else if d == 18 { 'm' } else if d == 19 { 'n' } else if d == 20 { 'o' }
    else if d == 21 { 'p' } else if d == 22 { 'q' } else if d == 23 { 'r' }
    else if d == 24 { 's' } else if d == 25 { 't' } else if d == 26 { 'u' }
    else if d == 27 { 'v' } else if d == 28 { 'w' } else if d == 29 { 'x' }
    else if d == 30 { 'y' } else { 'z' }
}

/// Five-bit group `i` (from the most significant end) of a 64-bit value,
/// the topmost group holding only the high four bits below a zero bit.
pub open spec fn u64_digit(v: u64, i: int) -> u64 {
    (v >> ((60 - 5 * i) as u64)) & 31
}

/// The fixed 13-symbol sortable-alphabet encoding of a 64-bit value.
pub open spec fn spec_encode_u64(v: u64) -> Seq<char> {
    Seq::new(13, |i: int| sortable_char(u64_digit(v, i) as int))
}

pub proof fn lemma_sortable_char_val(d: int)
    requires
        0 <= d < 32,
    ensures
        sortable_val(sortable_char(d)) == d,
        sortable_char(d) as u32 == if d < 6 { 50 + d } else { 91 + d },
{
}

/// Encodes a 64-bit value as exactly 13 symbols of the sortable alphabet.
pub fn encode_u64(value: u64) -> (r: String)
    ensures
        r@ == spec_encode_u64(value),
{
    let mut s = String::new();
    let mut i: usize = 0;
    while i < 13
        invariant
            i <= 13,
            s@ == spec_encode_u64(value).take(i as int),
        decreases 13 - i,
    {
        let sh: u64 = 60 - 5 * (i as u64);
        let d: u64 = (value >> sh) & 31;
        assert(d < 32) by (bit_vector)
            requires
                d == (value >> sh) & 31,
        ;
        let c = sortable_char_of(d as u8);
        push_char(&mut s, c);
        proof {
            assert(spec_encode_u64(value).take(i + 1) =~= spec_encode_u64(value).take(
                i as int,
            ).push(spec_encode_u64(value)[i as int]));
        }
        i = i + 1;
    }
    proof {
        assert(s@ =~= spec_encode_u64(value));
    }
    s
}

/// The symbol of the sortable alphabet for a five-bit value.
fn sortable_char_of(d: u8) -> (c: char)
    requires
        d < 32,
    ensures
        c == sortable_char(d as int),
{
    match d {
        0 => '2', 1 => '3', 2 => '4', 3 => '5', 4 => '6', 5 => '7',
        6 => 'a', 7 => 'b', 8 => 'c', 9 => 'd', 10 => 'e', 11 => 'f',
        12 => 'g', 13 => 'h', 14 => 'i', 15 => 'j', 16 => 'k', 17 => 'l',
        18 => 'm', 19 => 'n', 20 => 'o', 21 => 'p', 22 => 'q', 23 => 'r',
        24 => 's', 25 => 't', 26 => 'u', 27 => 'v', 28 => 'w', 29 => 'x',
        30 => 'y', _ => 'z',
    }
}

/// The five-bit value of a sortable-alphabet symbol.
fn sortable_digit(c: char) -> (r: Option<u8>)
    ensures
        match r {
            Some(d) => d < 32 && sortable_val(c) == d as int,
            None => sortable_val(c) == -1,
        },
{
    let u = c as u32;
    if 50 <= u && u <= 55 {
        Some((u - 50) as u8)
    } else if 97 <= u && u <= 122 {
        Some((u - 97 + 6) as u8)
    } else {
        None
    }
}

/// Value of a symbol in the general alphabet (`a`..`z` then `2`..`7`),
/// or -1 for a symbol outside it.
pub open spec fn general_val(c: char) -> int {
    let u = c as u32;
    if 97 <= u && u <= 122 {
        u - 97
    } else if 50 <= u && u <= 55 {
        u - 50 + 26
    } else {
        -1
    }
}

/// Symbol of the general alphabet for a five-bit value.
pub open spec fn general_char(d: int) -> char {
    if d == 0 { 'a' } else if d == 1 { 'b' } else if d == 2 { 'c' }
    else if d == 3 { 'd' } else if d == 4 { 'e' } else if d == 5 { 'f' }
    else if d == 6 { 'g' } else if d == 7 { 'h' } else if d == 8 { 'i' }
    else if d == 9 { 'j' } else if d == 10 { 'k' } else if d == 11 { 'l' }
    else if d == 12 { 'm' } else if d == 13 { 'n' } else if d == 14 { 'o' }
    else if d == 15 { 'p' } else if d == 16 { 'q' } else if d == 17 { 'r' }
    else if d == 18 { 's' } else if d == 19 { 't' } else if d == 20 { 'u' }
    else if d == 21 { 'v' } else if d == 22 { 'w' } else if d == 23 { 'x' }
    else if d == 24 { 'y' } else if d == 25 { 'z' } else if d == 26 { '2' }
    else if d == 27 { '3' } else if d == 28 { '4' } else if d == 29 { '5' }
    else if d == 30 { '6' } else { '7' }
}

pub proof fn lemma_general_char_val(d: int)
    requires
        0 <= d < 32,
    ensures
        general_val(general_char(d)) == d,
{
}

/// Five-bit group `j` of a byte sequence read as a bit stream, high bits
/// first, padded with zero bits past the end.
pub open spec fn byte_digit(bytes: Seq<u8>, j: int) -> u8 {
    let bit = 5 * j;
    let k = bit / 8;
    let o = bit % 8;
    let hi = bytes[k] as u16;
    let lo = if k + 1 < bytes.len() {
        bytes[k + 1] as u16
    } else {
        0u16
    };
    let w = (hi << 8u16) | lo;
    (((w >> ((11 - o) as u16)) & 31) as u8)
}

/// Number of symbols that encode `n` bytes: one per five bits, rounded up.
pub open spec fn encode_len(n: int) -> int {
    (8 * n + 4) / 5
}

/// The general-alphabet encoding of a byte sequence.
pub open spec fn spec_encode_bytes(b: Seq<u8>) -> Seq<char> {
    Seq::new(encode_len(b.len() as int) as nat, |j: int| general_char(byte_digit(b, j) as int))
}

/// Encodes bytes as symbols of the general alphabet, five bits per symbol.
pub fn encode(data: &[u8]) -> (r: String)
    requires
        8 * data@.len() + 4 <= usize::MAX,
    ensures
        r@ == spec_encode_bytes(data@),
{
    let n = data.len();
    let nchars = (8 * n + 4) / 5;
    proof {
        vstd::arithmetic::div_mod::lemma_fundamental_div_mod(8 * n as int + 4, 5);
    }
    let mut s = String::new();
    let mut j: usize = 0;
    while j < nchars
        invariant
            j <= nchars,
            nchars == encode_len(data@.len() as int),
            8 * data@.len() + 4 <= usize::MAX,
            5 * nchars <= 8 * data@.len() + 4,
            n == data@.len(),
            s@ == spec_encode_bytes(data@).take(j as int),
        decreases nchars - j,
    {
        let bit = 5 * j;
        let k = bit / 8;
        let o = bit % 8;
        proof {
            vstd::arithmetic::div_mod::lemma_fundamental_div_mod(bit as int, 8);
            assert(5 * j <= 5 * nchars - 5);
            assert(8 * k <= bit);
            assert(k < n);
        }
        let hi = data[k] as u16;
        let lo: u16 = if k + 1 < n {
            data[k + 1] as u16
        } else {
            0u16
        };
        let w: u16 = (hi << 8u16) | lo;
        let sh: u16 = (11 - o) as u16;
        let d: u8 = ((w >> sh) & 31) as u8;
        assert(((w >> sh) & 31) < 32) by (bit_vector);
        assert(d == byte_digit(data@, j as int));
        let c = general_char_of(d);
        push_char(&mut s, c);
        proof {
            assert(spec_encode_bytes(data@).take(j + 1) =~= spec_encode_bytes(data@).take(
                j as int,
            ).push(spec_encode_bytes(data@)[j as int]));
        }
        j = j + 1;
    }
    proof {
        assert(s@ =~= spec_encode_bytes(data@));
    }
    s
}

/// The symbol of the general alphabet for a five-bit value.
fn general_char_of(d: u8) -> (c: char)
    requires
        d < 32,
    ensures
        c == general_char(d as int),
{
    match d {
        0 => 'a', 1 => 'b', 2 => 'c', 3 => 'd', 4 => 'e', 5 => 'f',
        6 => 'g', 7 => 'h', 8 => 'i', 9 => 'j', 10 => 'k', 11 => 'l',
        12 => 'm', 13 => 'n', 14 => 'o', 15 => 'p', 16 => 'q', 17 => 'r',
        18 => 's', 19 => 't', 20 => 'u', 21 => 'v', 22 => 'w', 23 => 'x',
        24 => 'y', 25 => 'z', 26 => '2', 27 => '3', 28 => '4', 29 => '5',
        30 => '6', _ => '7',
    }
}

/// The five-bit value of a general-alphabet symbol.
fn general_digit(c: char) -> (r: Option<u8>)
    ensures
        match r {
            Some(d) => d < 32 && general_val(c) == d as int,
            None => general_val(c) == -1,
        },
{
    let u = c as u32;
    if 97 <= u && u <= 122 {
        Some((u - 97) as u8)
    } else if 50 <= u && u <= 55 {
        Some((u - 50 + 26) as u8)
    } else {
        None
    }
}

/// Position of the first symbol at or after `i` that is outside the general
/// alphabet, or -1 if there is none.
pub open spec fn first_invalid_general(s: Seq<char>, i: int) -> int
    decreases s.len() - i,
{
    if i < 0 || i >= s.len() {
        -1
    } else if general_val(s[i]) == -1 {
        i
    } else {
        first_invalid_general(s, i + 1)
    }
}

pub proof fn lemma_first_invalid_general(s: Seq<char>, k: int, i: int)
    requires
        0 <= k <= i <= s.len(),
        forall|j: int| k <= j < i ==> general_val(s[j]) != -1,
        i == s.len() || general_val(s[i]) == -1,
    ensures
        first_invalid_general(s, k) == if i == s.len() { -1 as int } else { i },
    decreases i - k,
{
    if k < i {
        lemma_first_invalid_general(s, k + 1, i);
    }
}

/// A symbol count that some byte sequence encodes to: five bits per symbol
/// leaves no count of one, three or six symbols past a whole block of eight.
pub open spec fn valid_decode_len(n: int) -> bool {
    n % 8 == 0 || n % 8 == 2 || n % 8 == 4 || n % 8 == 5 || n % 8 == 7
}

/// Number of whole bytes carried by `n` symbols.
pub open spec fn decoded_len(n: int) -> int {
    let r = n % 8;
    5 * (n / 8) + if r == 2 { 1int } else if r == 4 { 2int } else if r == 5 { 3int }
        else if r == 7 { 4int } else { 0int }
}

proof fn lemma_decoded_len(n: int)
    requires
        n >= 0,
        valid_decode_len(n),
    ensures
        0 <= decoded_len(n),
        8 * decoded_len(n) <= 5 * n,
        5 * n <= 8 * decoded_len(n) + 7,
{
    vstd::arithmetic::div_mod::lemma_fundamental_div_mod(n, 8);
}

/// Byte `i` of a symbol sequence read as a bit stream, five bits per symbol,
/// high bits first.
pub open spec fn digit_byte(s: Seq<char>, i: int) -> u8 {
    let bit = 8 * i;
    let k = bit / 5;
    let o = bit % 5;
    let d0 = general_val(s[k]) as u16;
    let d1 = if k + 1 < s.len() {
        general_val(s[k + 1]) as u16
    } else {
        0u16
    };
    let d2 = if k + 2 < s.len() {
        general_val(s[k + 2]) as u16
    } else {
        0u16
    };
    let w = ((d0 << 10u16) | (d1 << 5u16)) | d2;
    (((w >> ((7 - o) as u16)) & 255) as u8)
}

/// What decoding a general-alphabet text yields: a valid symbol count,
/// every symbol in the alphabet, and the bytes of the bit stream.
pub open spec fn spec_decode_bytes(s: Seq<char>) -> Result<Seq<u8>, DecodeError> {
    if !valid_decode_len(s.len() as int) {
        Err(DecodeError::InvalidLength { length: s.len() as usize })
    } else if first_invalid_general(s, 0) >= 0 {
        let i = first_invalid_general(s, 0);
        Err(DecodeError::InvalidChar { character: s[i], index: i as usize })
    } else {
        Ok(Seq::new(decoded_len(s.len() as int) as nat, |i: int| digit_byte(s, i)))
    }
}

/// Law: every symbol of an encoding belongs to the general alphabet.
pub proof fn lemma_encode_bytes_valid(b: Seq<u8>)
    ensures
        forall|j: int|
            0 <= j < spec_encode_bytes(b).len() ==> general_val(spec_encode_bytes(b)[j]) != -1,
{
    assert forall|j: int|
        0 <= j < spec_encode_bytes(b).len() implies general_val(spec_encode_bytes(b)[j]) != -1 by {
        let d = byte_digit(b, j);
        let bit = 5 * j;
        let o = bit % 8;
        let hi = b[bit / 8] as u16;
        let lo = if bit / 8 + 1 < b.len() {
            b[bit / 8 + 1] as u16
        } else {
            0u16
        };
        let w = (hi << 8u16) | lo;
        let sh = (11 - o) as u16;
        assert(((w >> sh) & 31) < 32) by (bit_vector);
        lemma_general_char_val(d as int);
    }
}

/// Decodes a general-alphabet text into the bytes it carries.
pub fn decode(data: &str) -> (r: Result<Vec<u8>, DecodeError>)
    ensures
        match r {
            Ok(v) => spec_decode_bytes(data@) == Ok::<Seq<u8>, DecodeError>(v@),
            Err(e) => spec_decode_bytes(data@) == Err::<Seq<u8>, DecodeError>(e),
        },
{
    let len = data.unicode_len();
    let rem = len % 8;
    if rem == 1 || rem == 3 || rem == 6 {
        return Err(DecodeError::InvalidLength { length: len });
    }
    let mut digits: Vec<u8> = Vec::new();
    let mut i: usize = 0;
    while i < len
        invariant
            i <= len,
            len == data@.len(),
            valid_decode_len(data@.len() as int),
            digits@.len() == i,
            forall|j: int| 0 <= j < i ==> general_val(data@[j]) == digits@[j] as int,
            forall|j: int| 0 <= j < i ==> general_val(data@[j]) != -1,
        decreases len - i,
    {
        let c = data.get_char(i);
        match general_digit(c) {
            Some(d) => {
                digits.push(d);
            },
            None => {
                proof {
                    lemma_first_invalid_general(data@, 0, i as int);
                }
                return Err(DecodeError::InvalidChar { character: c, index: i });
            },
        }
        i = i + 1;
    }
    proof {
        lemma_first_invalid_general(data@, 0, len as int);
        lemma_decoded_len(len as int);
    }
    let tail: usize = if rem == 2 { 1 } else if rem == 4 { 2 } else if rem == 5 { 3 }
        else if rem == 7 { 4 } else { 0 };
    let nbytes = len / 8 * 5 + tail;
    proof {
        vstd::arithmetic::div_mod::lemma_fundamental_div_mod(len as int, 8);
        assert(nbytes == decoded_len(len as int));
    }
    let mut out: Vec<u8> = Vec::new();
    let mut i: usize = 0;
    let mut k: usize = 0;
    let mut o: usize = 0;
    while i < nbytes
        invariant
            i <= nbytes,
            len == data@.len(),
            nbytes == decoded_len(len as int),
            8 * nbytes <= 5 * len,
            digits@.len() == len,
            forall|j: int| 0 <= j < len ==> general_val(data@[j]) == digits@[j] as int,
            forall|j: int| 0 <= j < len ==> general_val(data@[j]) != -1,
            5 * k + o == 8 * i,
            o < 5,
            out@.len() == i,
            forall|j: int| 0 <= j < i ==> out@[j] == digit_byte(data@, j),
        decreases nbytes - i,
    {
        proof {
            assert(8 * i <= 8 * nbytes - 8);
            assert(5 * k <= 5 * len - 8);
            vstd::arithmetic::div_mod::lemma_fundamental_div_mod_converse(
                8 * i as int,
                5,
                k as int,
                o as int,
            );
        }
        let d0 = digits[k] as u16;
        let d1: u16 = if k + 1 < len {
            digits[k + 1] as u16
        } else {
            0u16
        };
        let d2: u16 = if k + 2 < len {
            digits[k + 2] as u16
        } else {
            0u16
        };
        let w: u16 = ((d0 << 10u16) | (d1 << 5u16)) | d2;
        let sh: u16 = (7 - o) as u16;
        let b: u8 = ((w >> sh) & 255) as u8;
        assert(((w >> sh) & 255) < 256) by (bit_vector);
        assert(b == digit_byte(data@, i as int));
        out.push(b);
        i = i + 1;
        o = o + 8;
        k = k + o / 5;
        o = o % 5;
    }
    proof {
        assert(out@ =~= Seq::new(decoded_len(len as int) as nat, |j: int| digit_byte(data@, j)));
    }
    Ok(out)
}

/// Position of the first symbol at or after `i` that is outside the sortable
/// alphabet, or -1 if there is none.
pub open spec fn first_invalid_sortable(s: Seq<char>, i: int) -> int
    decreases s.len() - i,
{
    if i < 0 || i >= s.len() {
        -1
    } else if sortable_val(s[i]) == -1 {
        i
    } else {
        first_invalid_sortable(s, i + 1)
    }
}

/// The value read from the first `n` symbols, five bits at a time,
/// high bits first (bits shifted out at the top are discarded).
pub open spec fn fold_sortable(s: Seq<char>, n: int) -> u64
    decreases n,
{
    if n <= 0 {
        0u64
    } else {
        (fold_sortable(s, n - 1) << 5u64) | (sortable_val(s[n - 1]) as u64)
    }
}

/// What decoding a sortable-alphabet text yields: the input must be exactly
/// 13 symbols long, every symbol must belong to the alphabet, and the value
/// is the 65-bit digit string truncated to 64 bits.
pub open spec fn spec_decode_u64(s: Seq<char>) -> Result<u64, DecodeError> {
    if s.len() != 13 {
        Err(DecodeError::InvalidLength { length: s.len() as usize })
    } else if first_invalid_sortable(s, 0) >= 0 {
        let i = first_invalid_sortable(s, 0);
        Err(DecodeError::InvalidChar { character: s[i], index: i as usize })
    } else {
        Ok(fold_sortable(s, 13))
    }
}

proof fn lemma_first_invalid_sortable(s: Seq<char>, k: int, i: int)
    requires
        0 <= k <= i <= s.len(),
        forall|j: int| k <= j < i ==> sortable_val(s[j]) != -1,
        i == s.len() || sortable_val(s[i]) == -1,
    ensures
        first_invalid_sortable(s, k) == if i == s.len() { -1 as int } else { i },
    decreases i - k,
{
    if k < i {
        lemma_first_invalid_sortable(s, k + 1, i);
    }
}

/// Decodes exactly 13 symbols of the sortable alphabet into a 64-bit value.
pub fn decode_u64(data: &str) -> (r: Result<u64, DecodeError>)
    ensures
        r == spec_decode_u64(data@),
{
    let len = data.unicode_len();
    if len != 13 {
        return Err(DecodeError::InvalidLength { length: len });
    }
    let mut acc: u64 = 0;
    let mut i: usize = 0;
    while i < 13
        invariant
            i <= 13,
            data@.len() == 13,
            forall|j: int| 0 <= j < i ==> sortable_val(data@[j]) != -1,
            acc == fold_sortable(data@, i as int),
        decreases 13 - i,
    {
        let c = data.get_char(i);
        match sortable_digit(c) {
            Some(d) => {
                acc = (acc << 5u64) | (d as u64);
            },
            None => {
                proof {
                    lemma_first_invalid_sortable(data@, 0, i as int);
                }
                return Err(DecodeError::InvalidChar { character: c, index: i });
            },
        }
        i = i + 1;
    }
    proof {
        lemma_first_invalid_sortable(data@, 0, 13);
    }
    Ok(acc)
}

proof fn lemma_fold_of_encode(v: u64, k: int)
    requires
        1 <= k <= 13,
    ensures
        fold_sortable(spec_encode_u64(v), k) == v >> ((65 - 5 * k) as u64),
    decreases k,
{
    let s = spec_encode_u64(v);
    let d = u64_digit(v, k - 1);
    let sh: u64 = (65 - 5 * k) as u64;
    assert(d == (v >> sh) & 31);
    assert(d < 32) by (bit_vector)
        requires
            d == (v >> sh) & 31,
    ;
    lemma_sortable_char_val(d as int);
    assert(sortable_val(s[k - 1]) == d);
    assert(fold_sortable(s, k) == (fold_sortable(s, k - 1) << 5u64) | (sortable_val(s[k - 1])
        as u64));
    if k == 1 {
        assert(fold_sortable(s, 0) == 0);
        assert((0u64 << 5u64) | ((v >> sh) & 31) == v >> sh) by (bit_vector)
            requires
                sh == 60u64,
        ;
    } else {
        lemma_fold_of_encode(v, k - 1);
        let sh1: u64 = (65 - 5 * (k - 1)) as u64;
        assert(((v >> sh1) << 5u64) | ((v >> sh) & 31) == v >> sh) by (bit_vector)
            requires
                sh <= 55 && sh1 == sh + 5,
        ;
    }
}

/// Law: decoding inverts encoding, for every 64-bit value.
pub proof fn lemma_decode_encode_u64(v: u64)
    ensures
        spec_decode_u64(spec_encode_u64(v)) == Ok::<u64, DecodeError>(v),
{
    let s = spec_encode_u64(v);
    assert forall|j: int| 0 <= j < 13 implies sortable_val(s[j]) != -1 by {
        let sh: u64 = (60 - 5 * j) as u64;
        let d = u64_digit(v, j);
        assert(d == (v >> sh) & 31);
        assert(d < 32) by (bit_vector)
            requires
                d == (v >> sh) & 31,
        ;
        lemma_sortable_char_val(d as int);
    }
    lemma_first_invalid_sortable(s, 0, 13);
    lemma_fold_of_encode(v, 13);
    assert(v >> 0u64 == v) by (bit_vector);
}

/// Strict lexicographic order on character sequences, by scalar value.
pub open spec fn lex_lt(a: Seq<char>, b: Seq<char>) -> bool
    decreases a.len(),
{
    if b.len() == 0 {
        false
    } else if a.len() == 0 {
        true
    } else if (a[0] as u32) < (b[0] as u32) {
        true
    } else if a[0] == b[0] {
        lex_lt(a.drop_first(), b.drop_first())
    } else {
        false
    }
}

proof fn lemma_lex_lt_at(a: Seq<char>, b: Seq<char>, k: int)
    requires
        a.len() == b.len(),
        0 <= k < a.len(),
        forall|j: int| 0 <= j < k ==> a[j] == b[j],
        (a[k] as u32) < (b[k] as u32),
    ensures
        lex_lt(a, b),
    decreases k,
{
    if k == 0 {
        assert((a[0] as u32) < (b[0] as u32));
    } else {
        assert(a[0] == b[0]);
        lemma_lex_lt_at(a.drop_first(), b.drop_first(), k - 1);
    }
}

proof fn lemma_sortable_char_lt(d1: int, d2: int)
    requires
        0 <= d1 < d2 < 32,
    ensures
        (sortable_char(d1) as u32) < (sortable_char(d2) as u32),
{
    lemma_sortable_char_val(d1);
    lemma_sortable_char_val(d2);
}

/// Law: the sortable encoding preserves numeric order — of two 64-bit
/// values, the smaller one encodes to the lexicographically smaller text.
pub proof fn lemma_encode_u64_preserves_order(v1: u64, v2: u64)
    requires
        v1 < v2,
    ensures
        lex_lt(spec_encode_u64(v1), spec_encode_u64(v2)),
{
    let s1 = spec_encode_u64(v1);
    let s2 = spec_encode_u64(v2);
    assert(((v1 >> 60u64) & 31 < (v2 >> 60u64) & 31)
        || ((v1 >> 60u64) & 31 == (v2 >> 60u64) & 31 && (v1 >> 55u64) & 31 < (v2 >> 55u64) & 31)
        || ((v1 >> 60u64) & 31 == (v2 >> 60u64) & 31 && (v1 >> 55u64) & 31 == (v2 >> 55u64) & 31
            && (v1 >> 50u64) & 31 < (v2 >> 50u64) & 31)
        || ((v1 >> 55u64) & 31 == (v2 >> 55u64) & 31 && (v1 >> 50u64) & 31 == (v2 >> 50u64) & 31
            && (v1 >> 60u64) & 31 == (v2 >> 60u64) & 31 && (v1 >> 45u64) & 31 < (v2 >> 45u64) & 31)
        || ((v1 >> 50u64) & 31 == (v2 >> 50u64) & 31 && (v1 >> 45u64) & 31 == (v2 >> 45u64) & 31
            && (v1 >> 60u64) & 31 == (v2 >> 60u64) & 31 && (v1 >> 55u64) & 31 == (v2 >> 55u64) & 31
            && (v1 >> 40u64) & 31 < (v2 >> 40u64) & 31)
        || ((v1 >> 45u64) & 31 == (v2 >> 45u64) & 31 && (v1 >> 40u64) & 31 == (v2 >> 40u64) & 31
            && (v1 >> 60u64) & 31 == (v2 >> 60u64) & 31 && (v1 >> 55u64) & 31 == (v2 >> 55u64) & 31
            && (v1 >> 50u64) & 31 == (v2 >> 50u64) & 31 && (v1 >> 35u64) & 31 < (v2 >> 35u64) & 31)
        || ((v1 >> 40u64) & 31 == (v2 >> 40u64) & 31 && (v1 >> 35u64) & 31 == (v2 >> 35u64) & 31
            && (v1 >> 60u64) & 31 == (v2 >> 60u64) & 31 && (v1 >> 55u64) & 31 == (v2 >> 55u64) & 31
            && (v1 >> 50u64) & 31 == (v2 >> 50u64) & 31 && (v1 >> 45u64) & 31 == (v2 >> 45u64) & 31
            && (v1 >> 30u64) & 31 < (v2 >> 30u64) & 31)
        || ((v1 >> 35u64) & 31 == (v2 >> 35u64) & 31 && (v1 >> 30u64) & 31 == (v2 >> 30u64) & 31
            && (v1 >> 60u64) & 31 == (v2 >> 60u64) & 31 && (v1 >> 55u64) & 31 == (v2 >> 55u64) & 31
            && (v1 >> 50u64) & 31 == (v2 >> 50u64) & 31 && (v1 >> 45u64) & 31 == (v2 >> 45u64) & 31
            && (v1 >> 40u64) & 31 == (v2 >> 40u64) & 31 && (v1 >> 25u64) & 31 < (v2 >> 25u64) & 31)
        || ((v1 >> 30u64) & 31 == (v2 >> 30u64) & 31 && (v1 >> 25u64) & 31 == (v2 >> 25u64) & 31
            && (v1 >> 60u64) & 31 == (v2 >> 60u64) & 31 && (v1 >> 55u64) & 31 == (v2 >> 55u64) & 31
            && (v1 >> 50u64) & 31 == (v2 >> 50u64) & 31 && (v1 >> 45u64) & 31 == (v2 >> 45u64) & 31
            && (v1 >> 40u64) & 31 == (v2 >> 40u64) & 31 && (v1 >> 35u64) & 31 == (v2 >> 35u64) & 31
            && (v1 >> 20u64) & 31 < (v2 >> 20u64) & 31)
        || ((v1 >> 25u64) & 31 == (v2 >> 25u64) & 31 && (v1 >> 20u64) & 31 == (v2 >> 20u64) & 31
            && (v1 >> 60u64) & 31 == (v2 >> 60u64) & 31 && (v1 >> 55u64) & 31 == (v2 >> 55u64) & 31
            && (v1 >> 50u64) & 31 == (v2 >> 50u64) & 31 && (v1 >> 45u64) & 31 == (v2 >> 45u64) & 31
            && (v1 >> 40u64) & 31 == (v2 >> 40u64) & 31 && (v1 >> 35u64) & 31 == (v2 >> 35u64) & 31
            && (v1 >> 30u64) & 31 == (v2 >> 30u64) & 31 && (v1 >> 15u64) & 31 < (v2 >> 15u64) & 31)
        || ((v1 >> 20u64) & 31 == (v2 >> 20u64) & 31 && (v1 >> 15u64) & 31 == (v2 >> 15u64) & 31
            && (v1 >> 60u64) & 31 == (v2 >> 60u64) & 31 && (v1 >> 55u64) & 31 == (v2 >> 55u64) & 31
            && (v1 >> 50u64) & 31 == (v2 >> 50u64) & 31 && (v1 >> 45u64) & 31 == (v2 >> 45u64) & 31
            && (v1 >> 40u64) & 31 == (v2 >> 40u64) & 31 && (v1 >> 35u64) & 31 == (v2 >> 35u64) & 31
            && (v1 >> 30u64) & 31 == (v2 >> 30u64) & 31 && (v1 >> 25u64) & 31 == (v2 >> 25u64) & 31
            && (v1 >> 10u64) & 31 < (v2 >> 10u64) & 31)
        || ((v1 >> 15u64) & 31 == (v2 >> 15u64) & 31 && (v1 >> 10u64) & 31 == (v2 >> 10u64) & 31
            && (v1 >> 60u64) & 31 == (v2 >> 60u64) & 31 && (v1 >> 55u64) & 31 == (v2 >> 55u64) & 31
            && (v1 >> 50u64) & 31 == (v2 >> 50u64) & 31 && (v1 >> 45u64) & 31 == (v2 >> 45u64) & 31
            && (v1 >> 40u64) & 31 == (v2 >> 40u64) & 31 && (v1 >> 35u64) & 31 == (v2 >> 35u64) & 31
            && (v1 >> 30u64) & 31 == (v2 >> 30u64) & 31 && (v1 >> 25u64) & 31 == (v2 >> 25u64) & 31
            && (v1 >> 20u64) & 31 == (v2 >> 20u64) & 31 && (v1 >> 5u64) & 31 < (v2 >> 5u64) & 31)
        || ((v1 >> 10u64) & 31 == (v2 >> 10u64) & 31 && (v1 >> 5u64) & 31 == (v2 >> 5u64) & 31
            && (v1 >> 60u64) & 31 == (v2 >> 60u64) & 31 && (v1 >> 55u64) & 31 == (v2 >> 55u64) & 31
            && (v1 >> 50u64) & 31 == (v2 >> 50u64) & 31 && (v1 >> 45u64) & 31 == (v2 >> 45u64) & 31
            && (v1 >> 40u64) & 31 == (v2 >> 40u64) & 31 && (v1 >> 35u64) & 31 == (v2 >> 35u64) & 31
            && (v1 >> 30u64) & 31 == (v2 >> 30u64) & 31 && (v1 >> 25u64) & 31 == (v2 >> 25u64) & 31
            && (v1 >> 20u64) & 31 == (v2 >> 20u64) & 31 && (v1 >> 15u64) & 31 == (v2 >> 15u64) & 31
            && (v1 >> 0u64) & 31 < (v2 >> 0u64) & 31)) by (bit_vector)
        requires
            v1 < v2,
    ;
    assert forall|j: int| 0 <= j < 13 implies u64_digit(v1, j) == (v1 >> ((60 - 5 * j) as u64))
        & 31 && u64_digit(v2, j) == (v2 >> ((60 - 5 * j) as u64)) & 31 by {}
    let k: int = if u64_digit(v1, 0) != u64_digit(v2, 0) {
        0
    } else if u64_digit(v1, 1) != u64_digit(v2, 1) {
        1
    } else if u64_digit(v1, 2) != u64_digit(v2, 2) {
        2
    } else if u64_digit(v1, 3) != u64_digit(v2, 3) {
        3
    } else if u64_digit(v1, 4) != u64_digit(v2, 4) {
        4
    } else if u64_digit(v1, 5) != u64_digit(v2, 5) {
        5
    } else if u64_digit(v1, 6) != u64_digit(v2, 6) {
        6
    } else if u64_digit(v1, 7) != u64_digit(v2, 7) {
        7
    } else if u64_digit(v1, 8) != u64_digit(v2, 8) {
        8
    } else if u64_digit(v1, 9) != u64_digit(v2, 9) {
        9
    } else if u64_digit(v1, 10) != u64_digit(v2, 10) {
        10
    } else if u64_digit(v1, 11) != u64_digit(v2, 11) {
        11
    } else {
        12
    };
    assert(0 <= k < 13);
    assert forall|j: int| 0 <= j < k implies u64_digit(v1, j) == u64_digit(v2, j) by {
        if j == 0 {
        } else if j == 1 {
        } else if j == 2 {
        } else if j == 3 {
        } else if j == 4 {
        } else if j == 5 {
        } else if j == 6 {
        } else if j == 7 {
        } else if j == 8 {
        } else if j == 9 {
        } else if j == 10 {
        } else {
        }
    }
    assert(u64_digit(v1, k) < u64_digit(v2, k));
    assert forall|j: int| 0 <= j < k implies s1[j] == s2[j] by {
        assert(u64_digit(v1, j) == u64_digit(v2, j));
    }
    let dk1 = u64_digit(v1, k);
    let dk2 = u64_digit(v2, k);
    let shk: u64 = (60 - 5 * k) as u64;
    assert(dk1 < 32 && dk2 < 32) by (bit_vector)
        requires
            dk1 == (v1 >> shk) & 31 && dk2 == (v2 >> shk) & 31,
    ;
    lemma_sortable_char_lt(dk1 as int, dk2 as int);
    lemma_lex_lt_at(s1, s2, k);
}

} // verus!

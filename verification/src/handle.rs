//! Handles: human-readable, domain-shaped actor identifiers with a strict,
//! position-sensitive grammar.

use vstd::prelude::*;
use vstd::string::StrSliceExecFns;

use crate::strutil::{first_index_of, last_index_of, lemma_first_index_of, lemma_last_index_of};

verus! {

/// Failure of handle validation.
#[derive(PartialEq, Eq, Structural, Clone, Copy, Debug, Hash)]
pub enum InvalidHandle {
    /// The text is empty.
    Empty,
    /// The text is longer than 253 characters.
    Length,
    /// A single segment, or a disallowed top-level domain.
    Domain,
    /// An empty segment.
    SegmentEmpty,
    /// A segment longer than 63 characters.
    SegmentLength,
    /// A character the grammar does not allow at its position.
    Character(char),
}

/// An ASCII letter.
pub open spec fn is_ascii_alpha(c: char) -> bool {
    let u = c as u32;
    (65 <= u && u <= 90) || (97 <= u && u <= 122)
}

/// An ASCII digit.
pub open spec fn is_ascii_digit(c: char) -> bool {
    let u = c as u32;
    48 <= u && u <= 57
}

/// Whether a character may stand at position `j` of a segment of length
/// `len`: letters anywhere; digits anywhere but first in the last segment;
/// hyphens only strictly inside the segment.
pub open spec fn handle_char_ok(c: char, j: int, len: int, is_last: bool) -> bool {
    ||| is_ascii_alpha(c)
    ||| (is_ascii_digit(c) && !(is_last && j == 0))
    ||| (c == '-' && 0 < j && j < len - 1)
}

/// The scalar value of a character with ASCII upper case folded to lower.
pub open spec fn lower_code(c: char) -> u32 {
    let u = c as u32;
    if 65 <= u && u <= 90 {
        (u + 32) as u32
    } else {
        u
    }
}

/// Case-insensitive equality of two character sequences.
pub open spec fn eq_ci(a: Seq<char>, b: Seq<char>) -> bool {
    a.len() == b.len() && forall|i: int| 0 <= i < a.len() ==> lower_code(a[i]) == lower_code(b[i])
}

/// Whether a top-level domain is disallowed for handles.
pub open spec fn disallowed_tld(s: Seq<char>) -> bool {
    ||| eq_ci(s, "alt"@)
    ||| eq_ci(s, "arpa"@)
    ||| eq_ci(s, "example"@)
    ||| eq_ci(s, "internal"@)
    ||| eq_ci(s, "invalid"@)
    ||| eq_ci(s, "local"@)
    ||| eq_ci(s, "localhost"@)
    ||| eq_ci(s, "onion"@)
}

/// The first rule a segment's characters break, scanning from `j`, if any.
pub open spec fn check_chars(seg: Seq<char>, j: int, is_last: bool) -> Result<(), InvalidHandle>
    decreases seg.len() - j,
{
    if j < 0 || j >= seg.len() {
        Ok(())
    } else if handle_char_ok(seg[j], j, seg.len() as int, is_last) {
        check_chars(seg, j + 1, is_last)
    } else {
        Err(InvalidHandle::Character(seg[j]))
    }
}

/// The first rule a segment breaks, if any: non-empty, at most 63
/// characters, all characters allowed at their positions.
pub open spec fn check_segment(seg: Seq<char>, is_last: bool) -> Result<(), InvalidHandle> {
    if seg.len() == 0 {
        Err(InvalidHandle::SegmentEmpty)
    } else if seg.len() > 63 {
        Err(InvalidHandle::SegmentLength)
    } else {
        check_chars(seg, 0, is_last)
    }
}

/// The first rule the dot-separated segments of `s` break, scanning left to
/// right, if any.
pub open spec fn check_segments(s: Seq<char>) -> Result<(), InvalidHandle>
    decreases s.len(),
    via check_segments_decreases
{
    let d = first_index_of(s, 0, '.');
    if d < 0 {
        check_segment(s, true)
    } else {
        let r = check_segment(s.take(d), false);
        if r is Err {
            r
        } else {
            check_segments(s.subrange(d + 1, s.len() as int))
        }
    }
}

#[via_fn]
proof fn check_segments_decreases(s: Seq<char>) {
    crate::strutil::lemma_first_index_of_bounds(s, 0, '#');
    crate::strutil::lemma_first_index_of_bounds(s, 0, '.');
}

/// What validating a handle yields: the first rule the text breaks, if any.
/// Rules are applied in this order: non-empty, at most 253 characters, at
/// least two segments, no disallowed top-level domain, then every segment in
/// order.
pub open spec fn spec_validate_handle(s: Seq<char>) -> Result<(), InvalidHandle> {
    if s.len() == 0 {
        Err(InvalidHandle::Empty)
    } else if s.len() > 253 {
        Err(InvalidHandle::Length)
    } else if last_index_of(s, '.') < 0 {
        Err(InvalidHandle::Domain)
    } else if disallowed_tld(s.subrange(last_index_of(s, '.') + 1, s.len() as int)) {
        Err(InvalidHandle::Domain)
    } else {
        check_segments(s)
    }
}

proof fn lemma_check_chars(seg: Seq<char>, is_last: bool, k: int, j: int)
    requires
        0 <= k <= j <= seg.len(),
        forall|jj: int| k <= jj < j ==> handle_char_ok(seg[jj], jj, seg.len() as int, is_last),
        j == seg.len() || !handle_char_ok(seg[j], j, seg.len() as int, is_last),
    ensures
        check_chars(seg, k, is_last) == if j == seg.len() {
            Ok::<(), InvalidHandle>(())
        } else {
            Err::<(), InvalidHandle>(InvalidHandle::Character(seg[j]))
        },
    decreases j - k,
{
    if k < j {
        lemma_check_chars(seg, is_last, k + 1, j);
    }
}

/// Whether `[a, b)` spans exactly one dot-separated segment of `s`: it abuts
/// a dot or an end of the text on both sides and holds no dot itself.
pub open spec fn segment_bounds(s: Seq<char>, a: int, b: int) -> bool {
    &&& 0 <= a <= b <= s.len()
    &&& (a == 0 || s[a - 1] == '.')
    &&& (b == s.len() || s[b] == '.')
    &&& forall|j: int| a <= j < b ==> s[j] != '.'
}

/// What a segment spanning `[a, b)` of `s` must satisfy: one to 63
/// characters, each allowed at its position, the last segment under the
/// stricter leading-digit rule.
pub open spec fn segment_ok(s: Seq<char>, a: int, b: int) -> bool {
    &&& 0 < b - a <= 63
    &&& forall|j: int| a <= j < b ==> handle_char_ok(s[j], j - a, b - a, b == s.len())
}

/// The handle grammar, stated declaratively: one to 253 characters, at
/// least two segments, no disallowed top-level domain, and every segment
/// well-formed.
pub open spec fn valid_handle(s: Seq<char>) -> bool {
    &&& 0 < s.len() <= 253
    &&& last_index_of(s, '.') >= 0
    &&& !disallowed_tld(s.subrange(last_index_of(s, '.') + 1, s.len() as int))
    &&& forall|a: int, b: int| segment_bounds(s, a, b) ==> segment_ok(s, a, b)
}

proof fn lemma_check_segments_iff(s: Seq<char>)
    ensures
        check_segments(s) is Ok <==> (forall|a: int, b: int|
            segment_bounds(s, a, b) ==> segment_ok(s, a, b)),
    decreases s.len(),
{
    crate::strutil::lemma_first_index_of_bounds(s, 0, '.');
    crate::strutil::lemma_first_index_of_prefix(s, 0, '.');
    let d = first_index_of(s, 0, '.');
    if d < 0 {
        assert(segment_bounds(s, 0, s.len() as int));
        if check_segments(s) is Ok {
            lemma_check_chars_all_ok(s, true, 0);
            assert forall|a: int, b: int| segment_bounds(s, a, b) implies segment_ok(s, a, b) by {
                if a > 0 {
                    assert(s[a - 1] != '.');
                }
                if b < s.len() {
                    assert(s[b as int] != '.');
                }
                assert(a == 0 && b == s.len());
            }
        }
        if forall|a: int, b: int| segment_bounds(s, a, b) ==> segment_ok(s, a, b) {
            assert(segment_ok(s, 0, s.len() as int));
            lemma_check_chars(s, true, 0, s.len() as int);
        }
    } else {
        let seg = s.take(d);
        let rest = s.subrange(d + 1, s.len() as int);
        lemma_check_segments_iff(rest);
        if check_segments(s) is Ok {
            lemma_check_chars_all_ok(seg, false, 0);
            assert forall|a: int, b: int| segment_bounds(s, a, b) implies segment_ok(s, a, b) by {
                if b <= d {
                    assert(a == 0 && b == d) by {
                        if b < d {
                            assert(s[b as int] != '.');
                        }
                        if a > 0 {
                            assert(s[a - 1] != '.');
                        }
                    }
                    assert forall|j: int| a <= j < b implies handle_char_ok(
                        s[j],
                        j - a,
                        b - a,
                        b == s.len(),
                    ) by {
                        assert(s[j] == seg[j]);
                        assert(handle_char_ok(seg[j], j, seg.len() as int, false));
                    }
                } else if a > d {
                    assert(segment_bounds(rest, a - d - 1, b - d - 1)) by {
                        assert forall|j: int| a - d - 1 <= j < b - d - 1 implies rest[j]
                            != '.' by {
                            assert(rest[j] == s[j + d + 1]);
                        }
                        if a > d + 1 {
                            assert(rest[a - d - 2] == s[a - 1]);
                        }
                        if b < s.len() {
                            assert(rest[b - d - 1] == s[b as int]);
                        }
                    }
                    assert(segment_ok(rest, a - d - 1, b - d - 1));
                    assert forall|j: int| a <= j < b implies handle_char_ok(
                        s[j],
                        j - a,
                        b - a,
                        b == s.len(),
                    ) by {
                        assert(s[j] == rest[j - d - 1]);
                        assert(handle_char_ok(
                            rest[j - d - 1],
                            j - d - 1 - (a - d - 1),
                            (b - d - 1) - (a - d - 1),
                            b - d - 1 == rest.len(),
                        ));
                    }
                } else {
                    assert(a <= d < b);
                    assert(s[d] == '.');
                    assert(false);
                }
            }
        }
        if forall|a: int, b: int| segment_bounds(s, a, b) ==> segment_ok(s, a, b) {
            assert(segment_bounds(s, 0, d)) by {
                assert forall|j: int| 0 <= j < d implies s[j] != '.' by {}
            }
            assert(segment_ok(s, 0, d));
            assert forall|j: int| 0 <= j < seg.len() implies handle_char_ok(
                seg[j],
                j,
                seg.len() as int,
                false,
            ) by {
                assert(seg[j] == s[j]);
                assert(handle_char_ok(s[j], j - 0, d - 0, d == s.len()));
            }
            lemma_check_chars(seg, false, 0, d);
            assert(check_segment(seg, false) is Ok);
            assert forall|a: int, b: int| segment_bounds(rest, a, b) implies segment_ok(
                rest,
                a,
                b,
            ) by {
                let sa = a + d + 1;
                let sb = b + d + 1;
                assert(segment_bounds(s, sa, sb)) by {
                    assert forall|j: int| sa <= j < sb implies s[j] != '.' by {
                        assert(s[j] == rest[j - d - 1]);
                    }
                    if a > 0 {
                        assert(s[sa - 1] == rest[a - 1]);
                    }
                    if sb < s.len() {
                        assert(s[sb as int] == rest[b as int]);
                    }
                }
                assert(segment_ok(s, sa, sb));
                assert forall|j: int| a <= j < b implies handle_char_ok(
                    rest[j],
                    j - a,
                    b - a,
                    b == rest.len(),
                ) by {
                    assert(rest[j] == s[j + d + 1]);
                    assert(handle_char_ok(s[j + d + 1], j + d + 1 - sa, sb - sa, sb == s.len()));
                }
            }
            assert(check_segments(rest) is Ok);
        }
    }
}

/// Law: the scan-order validation accepts exactly the handles the
/// declarative grammar admits.
pub proof fn lemma_valid_handle_iff(s: Seq<char>)
    ensures
        spec_validate_handle(s) is Ok <==> valid_handle(s),
{
    lemma_last_index_of(s, '.');
    if 0 < s.len() <= 253 && last_index_of(s, '.') >= 0 && !disallowed_tld(
        s.subrange(last_index_of(s, '.') + 1, s.len() as int),
    ) {
        lemma_check_segments_iff(s);
    }
}

proof fn lemma_check_chars_all_ok(seg: Seq<char>, is_last: bool, j: int)
    requires
        0 <= j,
        check_chars(seg, j, is_last) is Ok,
    ensures
        forall|jj: int| j <= jj < seg.len() ==> handle_char_ok(seg[jj], jj, seg.len() as int, is_last),
    decreases seg.len() - j,
{
    if j < seg.len() {
        lemma_check_chars_all_ok(seg, is_last, j + 1);
    }
}

/// Law: the characters of a valid handle are ASCII letters, ASCII digits,
/// hyphens and dots, and nothing else.
pub proof fn lemma_handle_chars(s: Seq<char>)
    requires
        spec_validate_handle(s) is Ok,
    ensures
        forall|j: int|
            0 <= j < s.len() ==> (is_ascii_alpha(s[j]) || is_ascii_digit(s[j]) || s[j] == '-'
                || s[j] == '.'),
{
    lemma_segments_chars(s);
}

proof fn lemma_segments_chars(s: Seq<char>)
    requires
        check_segments(s) is Ok,
    ensures
        forall|j: int|
            0 <= j < s.len() ==> (is_ascii_alpha(s[j]) || is_ascii_digit(s[j]) || s[j] == '-'
                || s[j] == '.'),
    decreases s.len(),
{
    crate::strutil::lemma_first_index_of_bounds(s, 0, '.');
    let d = first_index_of(s, 0, '.');
    if d < 0 {
        lemma_check_chars_all_ok(s, true, 0);
    } else {
        let seg = s.take(d);
        let rest = s.subrange(d + 1, s.len() as int);
        lemma_check_chars_all_ok(seg, false, 0);
        lemma_segments_chars(rest);
        assert forall|j: int|
            0 <= j < s.len() implies (is_ascii_alpha(s[j]) || is_ascii_digit(s[j]) || s[j] == '-'
            || s[j] == '.') by {
            if j < d {
                assert(s[j] == seg[j]);
            } else if j > d {
                assert(s[j] == rest[j - d - 1]);
            }
        }
    }
}

/// Case-insensitive comparison of `s[from..to]` with `lit`.
fn ci_eq_range(s: &str, from: usize, to: usize, lit: &str) -> (r: bool)
    requires
        from <= to <= s@.len(),
    ensures
        r == eq_ci(s@.subrange(from as int, to as int), lit@),
{
    let m = lit.unicode_len();
    if to - from != m {
        return false;
    }
    let mut i: usize = 0;
    while i < m
        invariant
            i <= m,
            from <= to <= s@.len(),
            to - from == m,
            m == lit@.len(),
            forall|j: int|
                0 <= j < i ==> lower_code(s@.subrange(from as int, to as int)[j]) == lower_code(
                    lit@[j],
                ),
        decreases m - i,
    {
        let a = s.get_char(from + i) as u32;
        let b = lit.get_char(i) as u32;
        let la = if 65 <= a && a <= 90 {
            a + 32
        } else {
            a
        };
        let lb = if 65 <= b && b <= 90 {
            b + 32
        } else {
            b
        };
        if la != lb {
            return false;
        }
        i = i + 1;
    }
    true
}

/// Checks handle text against the grammar: at most 253 characters in at
/// least two non-empty dot-separated segments of at most 63 characters, each
/// of ASCII letters, digits and inner hyphens, where no digit may start the
/// last segment and the last segment is no disallowed top-level domain.
/// Yields the first rule broken, if any.
pub fn validate_handle(value: &str) -> (r: Result<(), InvalidHandle>)
    ensures
        r == spec_validate_handle(value@),
{
    let n = value.unicode_len();
    if n == 0 {
        return Err(InvalidHandle::Empty);
    }
    if n > 253 {
        return Err(InvalidHandle::Length);
    }
    let mut i: usize = n;
    let mut ld: usize = n;
    while i > 0
        invariant_except_break
            ld == n,
        invariant
            i <= n,
            n == value@.len(),
            forall|j: int| i <= j < n ==> value@[j] != '.',
        ensures
            ld <= n,
            n == value@.len(),
            ld == n ==> forall|j: int| 0 <= j < n ==> value@[j] != '.',
            ld < n ==> value@[ld as int] == '.' && (forall|j: int|
                ld < j < n ==> value@[j] != '.'),
        decreases i,
    {
        let c = value.get_char(i - 1);
        if c == '.' {
            ld = i - 1;
            break;
        }
        i = i - 1;
    }
    proof {
        lemma_last_index_of(value@, '.');
        let l = last_index_of(value@, '.');
        if ld == n {
            if l >= 0 {
                assert(value@[l] != '.');
            }
        } else {
            if l < ld {
                assert(value@[ld as int] != '.');
            }
            if l > ld {
                assert(value@[l] != '.');
            }
            assert(l == ld);
        }
    }
    if ld == n {
        return Err(InvalidHandle::Domain);
    }
    if ci_eq_range(value, ld + 1, n, "alt") || ci_eq_range(value, ld + 1, n, "arpa")
        || ci_eq_range(value, ld + 1, n, "example") || ci_eq_range(value, ld + 1, n, "internal")
        || ci_eq_range(value, ld + 1, n, "invalid") || ci_eq_range(value, ld + 1, n, "local")
        || ci_eq_range(value, ld + 1, n, "localhost") || ci_eq_range(value, ld + 1, n, "onion") {
        return Err(InvalidHandle::Domain);
    }
    proof {
        assert(value@.subrange(0, n as int) =~= value@);
    }
    let mut p: usize = 0;
    loop
        invariant
            p <= n,
            n == value@.len(),
            0 < n <= 253,
            last_index_of(value@, '.') >= 0,
            !disallowed_tld(value@.subrange(last_index_of(value@, '.') + 1, n as int)),
            check_segments(value@) == check_segments(value@.subrange(p as int, n as int)),
        decreases n - p,
    {
        let ghost suffix = value@.subrange(p as int, n as int);
        let mut d: usize = p;
        while d < n
            invariant
                p <= d <= n,
                n == value@.len(),
                forall|j: int| p <= j < d ==> value@[j] != '.',
            ensures
                p <= d <= n,
                forall|j: int| p <= j < d ==> value@[j] != '.',
                d == n || value@[d as int] == '.',
            decreases n - d,
        {
            if value.get_char(d) == '.' {
                break;
            }
            d = d + 1;
        }
        let ghost seg = value@.subrange(p as int, d as int);
        let is_last = d == n;
        proof {
            assert forall|j: int| 0 <= j < d - p implies suffix[j] != '.' by {
                assert(suffix[j] == value@[p + j]);
            }
            if d < n {
                assert(suffix[d - p] == value@[d as int]);
            }
            lemma_first_index_of(suffix, 0, d - p, '.');
            assert(seg =~= if d == n {
                suffix
            } else {
                suffix.take(d - p)
            });
        }
        let seglen = d - p;
        if seglen == 0 {
            return Err(InvalidHandle::SegmentEmpty);
        }
        if seglen > 63 {
            return Err(InvalidHandle::SegmentLength);
        }
        let mut j: usize = 0;
        let mut bad: Option<char> = None;
        while j < seglen
            invariant_except_break
                bad is None,
            invariant
                j <= seglen,
                p <= d <= n,
                seglen == d - p,
                n == value@.len(),
                seg == value@.subrange(p as int, d as int),
                forall|jj: int|
                    0 <= jj < j ==> handle_char_ok(seg[jj], jj, seglen as int, is_last),
            ensures
                j <= seglen,
                forall|jj: int|
                    0 <= jj < j ==> handle_char_ok(seg[jj], jj, seglen as int, is_last),
                bad is None ==> j == seglen,
                bad is Some ==> j < seglen && bad->Some_0 == seg[j as int] && !handle_char_ok(
                    seg[j as int],
                    j as int,
                    seglen as int,
                    is_last,
                ),
            decreases seglen - j,
        {
            let c = value.get_char(p + j);
            proof {
                assert(seg[j as int] == value@[p + j]);
            }
            let u = c as u32;
            let alpha = (65 <= u && u <= 90) || (97 <= u && u <= 122);
            let digit = 48 <= u && u <= 57;
            let ok = alpha || (digit && !(is_last && j == 0)) || (c == '-' && 0 < j && j + 1
                < seglen);
            if !ok {
                bad = Some(c);
                break;
            }
            j = j + 1;
        }
        match bad {
            Some(c) => {
                proof {
                    lemma_check_chars(seg, is_last, 0, j as int);
                }
                return Err(InvalidHandle::Character(c));
            },
            None => {},
        }
        proof {
            lemma_check_chars(seg, is_last, 0, seglen as int);
        }
        if d == n {
            return Ok(());
        }
        proof {
            assert(suffix.subrange(d - p + 1, suffix.len() as int) =~= value@.subrange(
                d + 1,
                n as int,
            ));
        }
        p = d + 1;
    }
}

/// A validated handle: its text satisfies the handle grammar.
#[derive(PartialEq, Eq, PartialOrd, Ord, Hash, Debug)]
pub struct Handle {
    text: String,
}

impl View for Handle {
    type V = Seq<char>;

    closed spec fn view(&self) -> Seq<char> {
        self.text@
    }
}

/// Well-formedness of a handle: its text passes validation.
pub open spec fn handle_wf(h: Handle) -> bool {
    spec_validate_handle(h@) is Ok
}

impl Handle {
    /// A handle from text already known to satisfy the grammar.
    pub fn new(value: &str) -> (r: Self)
        requires
            spec_validate_handle(value@) is Ok,
        ensures
            r@ == value@,
            handle_wf(r),
    {
        Handle { text: value.to_owned() }
    }

    /// A handle from owned text already known to satisfy the grammar.
    pub fn new_unchecked(value: String) -> (r: Self)
        requires
            spec_validate_handle(value@) is Ok,
        ensures
            r@ == value@,
            handle_wf(r),
    {
        Handle { text: value }
    }

    /// Validates text and wraps it; yields the first rule broken otherwise.
    pub fn parse(value: &str) -> (r: Result<Self, InvalidHandle>)
        ensures
            match r {
                Ok(h) => spec_validate_handle(value@) is Ok && h@ == value@ && handle_wf(h),
                Err(e) => spec_validate_handle(value@) == Err::<(), InvalidHandle>(e),
            },
    {
        match validate_handle(value) {
            Ok(_) => Ok(Handle { text: value.to_owned() }),
            Err(e) => Err(e),
        }
    }

    /// The handle's text.
    pub fn as_str(&self) -> (r: &str)
        ensures
            r@ == self@,
    {
        self.text.as_str()
    }

    /// The handle's text, owned.
    pub fn to_string(&self) -> (r: String)
        ensures
            r@ == self@,
    {
        self.text.clone()
    }
}

impl Clone for Handle {
    /// An equal handle.
    fn clone(&self) -> (r: Self)
        ensures
            r == *self,
    {
        Handle { text: self.text.clone() }
    }
}

impl core::str::FromStr for Handle {
    type Err = InvalidHandle;

    fn from_str(s: &str) -> Result<Self, Self::Err> {
        Handle::parse(s)
    }
}

} // verus!

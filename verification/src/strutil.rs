//! Executable helpers over strings: character appends, equality,
//! substrings, and positions of separator characters.

use vstd::prelude::*;
use vstd::string::StrSliceExecFns;

verus! {

/// Appends one character.  Relies on std's `String::push`.
#[verifier::external_body]
pub(crate) fn push_char(s: &mut String, c: char)
    ensures
        final(s)@ == old(s)@.push(c),
{
    s.push(c);
}

/// Whether two borrowed strings hold the same characters.
pub(crate) fn str_eq(a: &str, b: &str) -> (r: bool)
    ensures
        r == (a@ == b@),
{
    let n = a.unicode_len();
    if n != b.unicode_len() {
        return false;
    }
    let mut i: usize = 0;
    while i < n
        invariant
            i <= n,
            n == a@.len(),
            n == b@.len(),
            forall|j: int| 0 <= j < i ==> a@[j] == b@[j],
        decreases n - i,
    {
        if a.get_char(i) != b.get_char(i) {
            return false;
        }
        i = i + 1;
    }
    proof {
        assert(a@ =~= b@);
    }
    true
}

/// The characters of `s` from `from` to `to`, as an owned string.
pub(crate) fn substr(s: &str, from: usize, to: usize) -> (r: String)
    requires
        from <= to <= s@.len(),
    ensures
        r@ == s@.subrange(from as int, to as int),
{
    let sub = s.substring_char(from, to);
    sub.to_owned()
}

/// Index of the last occurrence of `c` in `s`, or -1 if there is none.
pub open spec fn last_index_of(s: Seq<char>, c: char) -> int
    decreases s.len(),
{
    if s.len() == 0 {
        -1
    } else if s[s.len() - 1] == c {
        s.len() - 1
    } else {
        last_index_of(s.drop_last(), c)
    }
}

/// Index of the first occurrence of `c` in `s` at or after `i`,
/// or -1 if there is none.
pub open spec fn first_index_of(s: Seq<char>, i: int, c: char) -> int
    decreases s.len() - i,
{
    if i < 0 || i >= s.len() {
        -1
    } else if s[i] == c {
        i
    } else {
        first_index_of(s, i + 1, c)
    }
}

pub proof fn lemma_last_index_of(s: Seq<char>, c: char)
    ensures
        ({
            let i = last_index_of(s, c);
            &&& -1 <= i < s.len()
            &&& i >= 0 ==> s[i] == c
            &&& forall|j: int| i < j < s.len() ==> s[j] != c
        }),
    decreases s.len(),
{
    if s.len() > 0 && s[s.len() - 1] != c {
        lemma_last_index_of(s.drop_last(), c);
        assert forall|j: int| last_index_of(s, c) < j < s.len() implies s[j] != c by {
            if j < s.len() - 1 {
                assert(s.drop_last()[j] != c);
            }
        }
    }
}

pub proof fn lemma_first_index_of_bounds(s: Seq<char>, i: int, c: char)
    ensures
        first_index_of(s, i, c) == -1 || (i <= first_index_of(s, i, c) < s.len() && s[first_index_of(
            s,
            i,
            c,
        )] == c),
    decreases s.len() - i,
{
    if 0 <= i < s.len() && s[i] != c {
        lemma_first_index_of_bounds(s, i + 1, c);
    }
}

pub proof fn lemma_first_index_of_prefix(s: Seq<char>, i: int, c: char)
    requires
        0 <= i <= s.len(),
    ensures
        first_index_of(s, i, c) == -1 ==> forall|j: int| i <= j < s.len() ==> s[j] != c,
        first_index_of(s, i, c) >= 0 ==> forall|j: int|
            i <= j < first_index_of(s, i, c) ==> s[j] != c,
    decreases s.len() - i,
{
    if i < s.len() && s[i] != c {
        lemma_first_index_of_prefix(s, i + 1, c);
    }
}

pub proof fn lemma_first_index_of(s: Seq<char>, k: int, i: int, c: char)
    requires
        0 <= k <= i <= s.len(),
        forall|j: int| k <= j < i ==> s[j] != c,
        i == s.len() || s[i] == c,
    ensures
        first_index_of(s, k, c) == if i == s.len() { -1 as int } else { i },
    decreases i - k,
{
    if k < i {
        lemma_first_index_of(s, k + 1, i, c);
    }
}

} // verus!

//! Shared text handling: trimming whitespace from both ends of a string,
//! with the trimmed form characterized uniquely by `is_trim_of`.

use vstd::prelude::*;
use vstd::string::StrSliceExecFns;

verus! {

/// Whitespace that trimming strips from both ends: space, tab, newline,
/// carriage return.
pub open spec fn is_space_char(c: char) -> bool {
    c == ' ' || c == '\t' || c == '\n' || c == '\r'
}

/// Whether `t` is `s` with the spaces at both ends removed.
pub open spec fn is_trim_of(t: Seq<char>, s: Seq<char>) -> bool {
    exists|lo: int, hi: int|
        {
            &&& 0 <= lo <= hi <= s.len()
            &&& #[trigger] s.subrange(lo, hi) == t
            &&& (forall|i: int| 0 <= i < lo ==> is_space_char(s[i]))
            &&& (forall|i: int| hi <= i < s.len() ==> is_space_char(s[i]))
            &&& (lo < hi ==> !is_space_char(s[lo]) && !is_space_char(s[hi - 1]))
        }
}

/// Two trims of the same string are the same sequence.
pub proof fn lemma_trim_unique(s: Seq<char>, t1: Seq<char>, t2: Seq<char>)
    requires
        is_trim_of(t1, s),
        is_trim_of(t2, s),
    ensures
        t1 == t2,
{
    let (lo1, hi1) = choose|lo: int, hi: int|
        {
            &&& 0 <= lo <= hi <= s.len()
            &&& #[trigger] s.subrange(lo, hi) == t1
            &&& (forall|i: int| 0 <= i < lo ==> is_space_char(s[i]))
            &&& (forall|i: int| hi <= i < s.len() ==> is_space_char(s[i]))
            &&& (lo < hi ==> !is_space_char(s[lo]) && !is_space_char(s[hi - 1]))
        };
    let (lo2, hi2) = choose|lo: int, hi: int|
        {
            &&& 0 <= lo <= hi <= s.len()
            &&& #[trigger] s.subrange(lo, hi) == t2
            &&& (forall|i: int| 0 <= i < lo ==> is_space_char(s[i]))
            &&& (forall|i: int| hi <= i < s.len() ==> is_space_char(s[i]))
            &&& (lo < hi ==> !is_space_char(s[lo]) && !is_space_char(s[hi - 1]))
        };
    if lo1 < hi1 && lo2 < hi2 {
        assert(lo1 == lo2) by {
            if lo1 < lo2 {
                assert(is_space_char(s[lo1]));
            }
            if lo2 < lo1 {
                assert(is_space_char(s[lo2]));
            }
        }
        assert(hi1 == hi2) by {
            if hi1 < hi2 {
                assert(is_space_char(s[hi2 - 1]));
            }
            if hi2 < hi1 {
                assert(is_space_char(s[hi1 - 1]));
            }
        }
    } else if lo1 == hi1 {
        assert(forall|i: int| 0 <= i < s.len() ==> is_space_char(s[i]));
        assert(lo2 == hi2) by {
            if lo2 < hi2 {
                assert(is_space_char(s[lo2]));
            }
        }
        assert(t1 =~= t2);
    } else {
        assert(forall|i: int| 0 <= i < s.len() ==> is_space_char(s[i]));
        assert(lo1 == hi1) by {
            if lo1 < hi1 {
                assert(is_space_char(s[lo1]));
            }
        }
    }
}

/// Whitespace test for one character.
pub fn is_space(c: char) -> (r: bool)
    ensures
        r == is_space_char(c),
{
    c == ' ' || c == '\t' || c == '\n' || c == '\r'
}

/// The given string with the spaces at both ends removed.
pub fn trim(s: &str) -> (t: &str)
    ensures
        is_trim_of(t@, s@),
{
    let n: usize = s.unicode_len();
    let mut lo: usize = 0;
    while lo < n && is_space(s.get_char(lo))
        invariant
            0 <= lo <= n,
            n == s@.len(),
            forall|i: int| 0 <= i < lo ==> is_space_char(s@[i]),
        decreases n - lo,
    {
        lo = lo + 1;
    }
    let mut hi: usize = n;
    while hi > lo && is_space(s.get_char(hi - 1))
        invariant
            lo <= hi <= n,
            n == s@.len(),
            forall|i: int| 0 <= i < lo ==> is_space_char(s@[i]),
            forall|i: int| hi <= i < n ==> is_space_char(s@[i]),
        decreases hi,
    {
        hi = hi - 1;
    }
    let t: &str = s.substring_char(lo, hi);
    proof {
        assert(s@.subrange(lo as int, hi as int) == t@);
        assert(is_trim_of(t@, s@));
    }
    t
}

} // verus!

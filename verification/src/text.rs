//! Character-level helpers for symbol handling: ASCII-case-insensitive
//! comparison and delimiter search.

use vstd::prelude::*;

verus! {

/// The code point of `c` with an ASCII upper-case letter folded to its
/// lower-case counterpart; every other character is left as it is.
pub open spec fn spec_lower_code(c: char) -> u32 {
    if 65 <= c as u32 && c as u32 <= 90 {
        (c as u32 + 32) as u32
    } else {
        c as u32
    }
}

/// The sequence of case-folded code points of `s`.
pub open spec fn spec_lower_codes(s: Seq<char>) -> Seq<u32> {
    Seq::new(s.len(), |i: int| spec_lower_code(s[i]))
}

/// Whether two character sequences are equal up to ASCII case.
pub open spec fn spec_eq_ignore_ascii_case(a: Seq<char>, b: Seq<char>) -> bool {
    spec_lower_codes(a) == spec_lower_codes(b)
}

fn lower_code(c: char) -> (r: u32)
    ensures
        r == spec_lower_code(c),
{
    let u = c as u32;
    if 65 <= u && u <= 90 {
        u + 32
    } else {
        u
    }
}

/// Compares two strings for equality ignoring ASCII case.
pub fn eq_ignore_ascii_case(a: &str, b: &str) -> (r: bool)
    ensures
        r == spec_eq_ignore_ascii_case(a@, b@),
{
    let la = a.unicode_len();
    let lb = b.unicode_len();
    if la != lb {
        assert(spec_lower_codes(a@).len() != spec_lower_codes(b@).len());
        return false;
    }
    let mut i: usize = 0;
    while i < la
        invariant
            la == a@.len(),
            la == b@.len(),
            i <= la,
            forall|j: int| 0 <= j < i ==> spec_lower_code(a@[j]) == spec_lower_code(b@[j]),
        decreases la - i,
    {
        let ca = lower_code(a.get_char(i));
        let cb = lower_code(b.get_char(i));
        if ca != cb {
            assert(spec_lower_codes(a@)[i as int] != spec_lower_codes(b@)[i as int]);
            return false;
        }
        i += 1;
    }
    assert(spec_lower_codes(a@) =~= spec_lower_codes(b@));
    true
}

/// The index of the first occurrence of `target` in `s`, or `s.len()` when
/// `target` does not occur.
pub open spec fn spec_first_index(s: Seq<char>, target: char) -> int
    decreases s.len(),
{
    if s.len() == 0 {
        0
    } else if s[0] == target {
        0
    } else {
        1 + spec_first_index(s.drop_first(), target)
    }
}

proof fn lemma_first_index_characterization(s: Seq<char>, target: char, i: int)
    requires
        0 <= i <= s.len(),
        forall|j: int| 0 <= j < i ==> s[j] != target,
        i == s.len() || s[i] == target,
    ensures
        spec_first_index(s, target) == i,
    decreases i,
{
    if s.len() > 0 && i > 0 {
        lemma_first_index_characterization(s.drop_first(), target, i - 1);
    }
}

/// Finds the first occurrence of `target` in `s`; returns `s`'s character
/// length when `target` does not occur.
pub fn first_index_of(s: &str, target: char) -> (r: usize)
    ensures
        r == spec_first_index(s@, target),
        r <= s@.len(),
        r < s@.len() ==> s@[r as int] == target,
{
    let n = s.unicode_len();
    let mut i: usize = 0;
    while i < n
        invariant
            n == s@.len(),
            i <= n,
            forall|j: int| 0 <= j < i ==> s@[j] != target,
        decreases n - i,
    {
        if s.get_char(i) == target {
            proof {
                lemma_first_index_characterization(s@, target, i as int);
            }
            return i;
        }
        i += 1;
    }
    proof {
        lemma_first_index_characterization(s@, target, n as int);
    }
    n
}

} // verus!

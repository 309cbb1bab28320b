//! Scanning helpers shared by the textual parsers: first occurrence of a
//! byte in a byte string.

use vstd::prelude::*;

verus! {

/// Index of the first occurrence of `b` in `s`, or `s.len()` if none.
pub open spec fn find_byte(s: Seq<u8>, b: u8) -> int
    decreases s.len(),
{
    if s.len() == 0 {
        0
    } else if s[0] == b {
        0
    } else {
        1 + find_byte(s.drop_first(), b)
    }
}

/// What `find_byte` finds: the first occurrence, or the length.
pub proof fn lemma_find_byte(s: Seq<u8>, b: u8)
    ensures
        0 <= find_byte(s, b) <= s.len(),
        find_byte(s, b) < s.len() ==> s[find_byte(s, b)] == b,
        forall|j: int| 0 <= j < find_byte(s, b) ==> s[j] != b,
    decreases s.len(),
{
    if s.len() > 0 && s[0] != b {
        lemma_find_byte(s.drop_first(), b);
        let k = find_byte(s, b);
        assert forall|j: int| 0 <= j < k implies s[j] != b by {
            if j > 0 {
                assert(s.drop_first()[j - 1] == s[j]);
            }
        }
        if k < s.len() {
            assert(s.drop_first()[k - 1] == s[k]);
        }
    }
}

/// Executable search for the first occurrence of a byte.
pub fn find_byte_at(s: &[u8], b: u8) -> (r: usize)
    ensures
        r as int == find_byte(s@, b),
{
    proof {
        lemma_find_byte(s@, b);
    }
    let n = s.len();
    let mut i: usize = 0;
    while i < n
        invariant
            n == s@.len(),
            0 <= i <= n,
            forall|j: int| 0 <= j < i ==> s@[j] != b,
            0 <= find_byte(s@, b) <= s@.len(),
            find_byte(s@, b) < s@.len() ==> s@[find_byte(s@, b)] == b,
            forall|j: int| 0 <= j < find_byte(s@, b) ==> s@[j] != b,
        decreases n - i,
    {
        if s[i] == b {
            return i;
        }
        i = i + 1;
    }
    i
}

} // verus!

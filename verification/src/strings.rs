//! Substring search over character sequences, together with the lemmas the
//! substitution engine needs about where a pattern can occur.

use vstd::prelude::*;

verus! {

/// `pat` occurs somewhere in `s` as a contiguous run of characters.
pub open spec fn contains_seq(s: Seq<char>, pat: Seq<char>) -> bool {
    exists|i: int|
        0 <= i && i + pat.len() <= s.len() && #[trigger] s.subrange(i, i + pat.len()) =~= pat
}

/// A pattern occurs in any sequence that ends with it.
pub proof fn lemma_concat_contains_suffix(s: Seq<char>, pat: Seq<char>)
    ensures
        contains_seq(s + pat, pat),
{
    let w = s.len() as int;
    assert((s + pat).subrange(w, w + pat.len()) =~= pat);
}

/// If the only underscore in `s` sits at position `p`, and `pat` starts with
/// an underscore but continues differently than `s` does after `p`, then
/// `pat` occurs nowhere in `s`.
pub proof fn lemma_underscore_blocks(s: Seq<char>, pat: Seq<char>, p: int)
    requires
        0 <= p,
        p + 1 < s.len(),
        s[p] == '_',
        forall|j: int| 0 <= j < s.len() && j != p ==> s[j] != '_',
        pat.len() >= 2,
        pat[0] == '_',
        s[p + 1] != pat[1],
    ensures
        !contains_seq(s, pat),
{
    assert forall|i: int| 0 <= i && i + pat.len() <= s.len() implies !(#[trigger] s.subrange(
        i,
        i + pat.len(),
    ) =~= pat) by {
        if s.subrange(i, i + pat.len()) =~= pat {
            assert(s.subrange(i, i + pat.len())[0] == pat[0]);
            assert(s[i] == '_');
            assert(i == p);
            assert(s.subrange(i, i + pat.len())[1] == pat[1]);
            assert(s[i + 1] == pat[1]);
            assert(false);
        }
    }
}

/// Whether `pat` occurs in `s`, by direct character comparison.
pub fn contains_str(s: &str, pat: &str) -> (r: bool)
    ensures
        r == contains_seq(s@, pat@),
{
    let n = s.unicode_len();
    let m = pat.unicode_len();
    if m == 0 {
        proof {
            assert(s@.subrange(0, 0 + pat@.len() as int) =~= pat@);
        }
        return true;
    }
    if m > n {
        return false;
    }
    let mut i: usize = 0;
    while i <= n - m
        invariant
            1 <= m <= n,
            n == s@.len(),
            m == pat@.len(),
            i <= n - m + 1,
            forall|k: int|
                0 <= k < i ==> !(#[trigger] s@.subrange(k, k + pat@.len()) =~= pat@),
        decreases n - i,
    {
        let mut j: usize = 0;
        let mut same: bool = true;
        while j < m
            invariant
                1 <= m <= n,
                n == s@.len(),
                m == pat@.len(),
                i <= n - m,
                j <= m,
                same ==> forall|l: int| 0 <= l < j ==> s@[i + l] == pat@[l],
                !same ==> !(s@.subrange(i as int, i + pat@.len()) =~= pat@),
            ensures
                same ==> forall|l: int| 0 <= l < m ==> s@[i + l] == pat@[l],
                !same ==> !(s@.subrange(i as int, i + pat@.len()) =~= pat@),
            decreases m - j,
        {
            let a = s.get_char(i + j);
            let b = pat.get_char(j);
            if a != b {
                proof {
                    assert(s@.subrange(i as int, i + pat@.len())[j as int] == s@[i + j]);
                }
                same = false;
                break ;
            }
            j += 1;
        }
        if same {
            proof {
                assert(s@.subrange(i as int, i + pat@.len()) =~= pat@);
            }
            return true;
        }
        i += 1;
    }
    proof {
        assert forall|k: int| 0 <= k && k + pat@.len() <= s@.len() implies !(#[trigger] s@.subrange(
            k,
            k + pat@.len(),
        ) =~= pat@) by {
            assert(k < i);
        }
    }
    false
}

} // verus!

//! Width measurement: the longest line of a rendering, compared against
//! the configured column budget.

use vstd::prelude::*;

verus! {

/// Running measure over a rendering: the pair of the longest line seen so
/// far (the current, possibly unterminated line included) and the length
/// of the current line.
pub open spec fn line_state(s: Seq<char>) -> (nat, nat)
    decreases s.len(),
{
    if s.len() == 0 {
        (0nat, 0nat)
    } else {
        let prev = line_state(s.drop_last());
        if s.last() == '\n' {
            (prev.0, 0nat)
        } else {
            (
                if prev.1 + 1 > prev.0 {
                    prev.1 + 1
                } else {
                    prev.0
                },
                prev.1 + 1,
            )
        }
    }
}

/// The length of the longest line of `s` (the segments between newline
/// boundaries).
pub open spec fn max_line_len(s: Seq<char>) -> nat {
    line_state(s).0
}

/// Computes the longest line of a rendering, in characters.
pub fn max_line_length(s: &Vec<char>) -> (r: usize)
    ensures
        r as nat == max_line_len(s@),
{
    let mut m: usize = 0;
    let mut cur: usize = 0;
    let mut i: usize = 0;
    while i < s.len()
        invariant
            i <= s@.len(),
            cur <= i,
            m <= i,
            (m as nat, cur as nat) == line_state(s@.take(i as int)),
        decreases s@.len() - i,
    {
        if s[i] == '\n' {
            cur = 0;
        } else {
            cur += 1;
            if cur > m {
                m = cur;
            }
        }
        proof {
            assert(s@.take(i + 1).drop_last() =~= s@.take(i as int));
            assert(s@.take(i + 1).last() == s@[i as int]);
        }
        i += 1;
    }
    proof {
        assert(s@.take(s@.len() as int) =~= s@);
    }
    m
}

} // verus!

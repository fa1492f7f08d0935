//! Post-processing for the inference entry point: turning an output vector
//! into a predicted class index.
//!
//! The label is the index of the largest output, found by a single scan with
//! the strict IEEE `>` of [`crate::bits::gt_bits`]; ties keep the earlier
//! index, and a NaN is never greater than anything.

use vstd::prelude::*;
use crate::bits::{f_gt, gt_bits};

verus! {

/// The index the strict-greater scan holds after looking at the first `n`
/// elements of `s`: starts at 0, moves to `n - 1` exactly when that element
/// beats the best so far.
pub open spec fn argmax_upto(s: Seq<u32>, n: int) -> int
    decreases n,
{
    if n <= 1 {
        0
    } else {
        let p = argmax_upto(s, n - 1);
        if gt_bits(s[n - 1], s[p]) {
            n - 1
        } else {
            p
        }
    }
}

/// The index of the largest element of `s`, first occurrence on ties.
pub open spec fn argmax_bits(s: Seq<u32>) -> int {
    argmax_upto(s, s.len() as int)
}

/// The scan's answer is always an index among the elements it has seen, and
/// none of those elements is strictly greater than the one it points at.
proof fn lemma_argmax_upto_maximal(s: Seq<u32>, n: int)
    requires
        1 <= n <= s.len(),
    ensures
        0 <= argmax_upto(s, n) < n,
        forall|j: int| 0 <= j < n ==> !gt_bits(s[j], s[argmax_upto(s, n)]),
    decreases n,
{
    if n > 1 {
        lemma_argmax_upto_maximal(s, n - 1);
        let p = argmax_upto(s, n - 1);
        let m = argmax_upto(s, n);
        assert forall|j: int| 0 <= j < n implies !gt_bits(s[j], s[m]) by {
            if j < n - 1 {
                assert(!gt_bits(s[j], s[p]));
            }
        }
    }
}

/// The arg-max law: for a non-empty vector, the chosen index is in range and
/// no element is strictly greater (by IEEE `>`) than the chosen one.
pub proof fn lemma_argmax_maximal(s: Seq<u32>)
    requires
        s.len() > 0,
    ensures
        0 <= argmax_bits(s) < s.len(),
        forall|j: int| 0 <= j < s.len() ==> !gt_bits(s[j], s[argmax_bits(s)]),
{
    lemma_argmax_upto_maximal(s, s.len() as int);
}

/// The index of the maximum output: a scan with strict `>`, so ties keep the
/// first occurrence. `None` exactly on an empty vector.
#[verifier::loop_isolation(false)]
pub fn argmax(scores: &Vec<u32>) -> (r: Option<usize>)
    ensures
        r is None <==> scores@.len() == 0,
        r matches Some(i) ==> i < scores@.len() && i == argmax_bits(scores@),
{
    if scores.len() == 0 {
        return None;
    }
    let mut best: usize = 0;
    let mut i: usize = 1;
    while i < scores.len()
        invariant
            1 <= i <= scores@.len(),
            best < i,
            best == argmax_upto(scores@, i as int),
        decreases scores@.len() - i,
    {
        if f_gt(scores[i], scores[best]) {
            best = i;
        }
        i = i + 1;
    }
    Some(best)
}

} // verus!

//! Sparse input feature sets. Each feature set turns a position into a list
//! of (side-to-move index, other-side index) pairs.

pub mod halfka;
pub mod halfka_hm1;
pub mod halfka_hm2;
pub mod halfka_hm_hand_count;
pub mod halfka_hm_threat;
pub mod halfkp;
pub mod halfkpe9;
pub mod halfkpvm;
pub mod hand_threat;
pub mod hand_threat_defensive;
pub mod ka2;
pub mod kk;
pub mod kkp;
pub mod kp;
pub mod kpp;
pub mod mirror;
pub mod piece_features;
pub mod shardkp;
pub mod threat;
pub mod threat_exclusion;

use vstd::prelude::*;

verus! {

/// Largest of the first `n` entries of `s`, 0 when `n` is 0.
pub open spec fn spec_max_upto(s: Seq<usize>, n: int) -> int
    decreases n,
{
    if n <= 0 {
        0
    } else {
        let m = spec_max_upto(s, n - 1);
        if s[n - 1] > m {
            s[n - 1] as int
        } else {
            m
        }
    }
}

/// Number of buckets of a bucket layout: its largest bucket plus one.
pub fn get_num_buckets<const N: usize>(arr: &[usize; N]) -> (r: usize)
    requires
        spec_max_upto(arr@, N as int) < usize::MAX,
    ensures
        r == spec_max_upto(arr@, N as int) + 1,
{
    let mut max: usize = 0;
    let mut i: usize = 0;
    while i < N
        invariant
            i <= N,
            N == arr@.len(),
            max == spec_max_upto(arr@, i as int),
        decreases N - i,
    {
        if arr[i] > max {
            max = arr[i];
        }
        i = i + 1;
    }
    max + 1
}

} // verus!

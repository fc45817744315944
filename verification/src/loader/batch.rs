//! Laying out the sparse features of one record in a batch: each side's
//! feature indices fill a row of `max_active` slots, the unused slots
//! holding -1. The two sides are counted apart, so a record may have more
//! features on one side than on the other.

use vstd::prelude::*;

verus! {

/// The present first halves of `feats`, in order, as `i32`.
pub open spec fn spec_present_stm(feats: Seq<(Option<usize>, Option<usize>)>) -> Seq<i32>
    decreases feats.len(),
{
    if feats.len() == 0 {
        Seq::empty()
    } else {
        let rest = spec_present_stm(feats.drop_last());
        match feats.last().0 {
            Some(i) => rest.push(i as i32),
            None => rest,
        }
    }
}

/// The present second halves of `feats`, in order, as `i32`.
pub open spec fn spec_present_nstm(feats: Seq<(Option<usize>, Option<usize>)>) -> Seq<i32>
    decreases feats.len(),
{
    if feats.len() == 0 {
        Seq::empty()
    } else {
        let rest = spec_present_nstm(feats.drop_last());
        match feats.last().1 {
            Some(i) => rest.push(i as i32),
            None => rest,
        }
    }
}

/// A row of `width` slots: `idx`, then -1.
pub open spec fn spec_slots(idx: Seq<i32>, width: int) -> Seq<i32> {
    Seq::new(width as nat, |j: int| if j < idx.len() { idx[j] } else { -1i32 })
}

/// Every present index of `feats` is below `input_size`, and neither side
/// has more than `max_active` of them.
pub open spec fn spec_row_fits(feats: Seq<(Option<usize>, Option<usize>)>, input_size: int, max_active: int) -> bool {
    &&& forall|k: int| 0 <= k < feats.len() ==> ((#[trigger] feats[k]).0 matches Some(i) ==> i < input_size)
    &&& forall|k: int| 0 <= k < feats.len() ==> ((#[trigger] feats[k]).1 matches Some(i) ==> i < input_size)
    &&& spec_present_stm(feats).len() <= max_active
    &&& spec_present_nstm(feats).len() <= max_active
}

/// Whether the features `feats` of a record fit a batch row (see
/// [`spec_row_fits`]).
pub fn sparse_row_fits(feats: &Vec<(Option<usize>, Option<usize>)>, input_size: usize, max_active: usize) -> (r: bool)
    ensures
        r == spec_row_fits(feats@, input_size as int, max_active as int),
{
    let mut n_stm: usize = 0;
    let mut n_nstm: usize = 0;
    let mut k: usize = 0;
    while k < feats.len()
        invariant
            k <= feats@.len(),
            n_stm == spec_present_stm(feats@.subrange(0, k as int)).len(),
            n_nstm == spec_present_nstm(feats@.subrange(0, k as int)).len(),
            n_stm <= k,
            n_nstm <= k,
            forall|t: int| 0 <= t < k ==> ((#[trigger] feats@[t]).0 matches Some(i) ==> i < input_size),
            forall|t: int| 0 <= t < k ==> ((#[trigger] feats@[t]).1 matches Some(i) ==> i < input_size),
        decreases feats@.len() - k,
    {
        let (a, b) = feats[k];
        assert(feats@.subrange(0, k as int + 1).drop_last() =~= feats@.subrange(0, k as int));
        match a {
            Some(i) => {
                if i >= input_size {
                    return false;
                }
                n_stm = n_stm + 1;
            },
            None => {},
        }
        match b {
            Some(i) => {
                if i >= input_size {
                    return false;
                }
                n_nstm = n_nstm + 1;
            },
            None => {},
        }
        k = k + 1;
    }
    assert(feats@.subrange(0, feats@.len() as int) =~= feats@);
    n_stm <= max_active && n_nstm <= max_active
}

/// The batch rows of a record with features `feats`: each side's present
/// indices in order, padded with -1 to `max_active` slots. Indices must be
/// below `input_size`, which fits `i32`, and no side may have more than
/// `max_active` of them.
pub fn sparse_rows(feats: &Vec<(Option<usize>, Option<usize>)>, input_size: usize, max_active: usize) -> (r: (
    Vec<i32>,
    Vec<i32>,
))
    requires
        input_size <= i32::MAX as int + 1,
        spec_row_fits(feats@, input_size as int, max_active as int),
    ensures
        r.0@ == spec_slots(spec_present_stm(feats@), max_active as int),
        r.1@ == spec_slots(spec_present_nstm(feats@), max_active as int),
{
    let mut stm: Vec<i32> = Vec::new();
    let mut nstm: Vec<i32> = Vec::new();
    let mut k: usize = 0;
    while k < feats.len()
        invariant
            k <= feats@.len(),
            input_size <= i32::MAX as int + 1,
            spec_row_fits(feats@, input_size as int, max_active as int),
            stm@ == spec_present_stm(feats@.subrange(0, k as int)),
            nstm@ == spec_present_nstm(feats@.subrange(0, k as int)),
        decreases feats@.len() - k,
    {
        let (a, b) = feats[k];
        assert(feats@.subrange(0, k as int + 1).drop_last() =~= feats@.subrange(0, k as int));
        assert(feats@.subrange(0, k as int + 1).last() == feats@[k as int]);
        match a {
            Some(i) => {
                assert(i < input_size);
                stm.push(i as i32);
            },
            None => {},
        }
        match b {
            Some(i) => {
                assert(i < input_size);
                nstm.push(i as i32);
            },
            None => {},
        }
        k = k + 1;
    }
    assert(feats@.subrange(0, feats@.len() as int) =~= feats@);
    let ghost s = stm@;
    let ghost n = nstm@;
    while stm.len() < max_active
        invariant
            s.len() <= stm@.len() <= max_active,
            forall|j: int| 0 <= j < stm@.len() ==> stm@[j] == if j < s.len() { s[j] } else { -1i32 },
        decreases max_active - stm@.len(),
    {
        stm.push(-1);
    }
    while nstm.len() < max_active
        invariant
            n.len() <= nstm@.len() <= max_active,
            forall|j: int| 0 <= j < nstm@.len() ==> nstm@[j] == if j < n.len() { n[j] } else { -1i32 },
        decreases max_active - nstm@.len(),
    {
        nstm.push(-1);
    }
    assert(stm@ =~= spec_slots(s, max_active as int));
    assert(nstm@ =~= spec_slots(n, max_active as int));
    (stm, nstm)
}

} // verus!

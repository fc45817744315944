//! Fixed-size records read straight from files, file after file, with an
//! optional per-epoch shuffle of the file order.

use vstd::prelude::*;
use crate::loader::{DataLoader, owned_paths};
use crate::shogi::packed_sfen::PackedSfenValue;

verus! {

/// Seed of epoch `epoch_idx` for base seed `base_seed` (a 64-bit mixing
/// hash).
pub open spec fn spec_epoch_seed(base_seed: u64, epoch_idx: usize) -> u64 {
    let x0 = base_seed ^ vstd::wrapping::u64_specs::wrapping_mul(epoch_idx as u64, 0x9E37_79B9_7F4A_7C15u64);
    let x1 = x0 ^ (x0 >> 30u64);
    let x2 = vstd::wrapping::u64_specs::wrapping_mul(x1, 0xBF58_476D_1CE4_E5B9u64);
    let x3 = x2 ^ (x2 >> 27u64);
    let x4 = vstd::wrapping::u64_specs::wrapping_mul(x3, 0x94D0_49BB_1331_11EBu64);
    x4 ^ (x4 >> 31u64)
}

pub fn epoch_seed(base_seed: u64, epoch_idx: usize) -> (r: u64)
    ensures
        r == spec_epoch_seed(base_seed, epoch_idx),
{
    let mut x: u64 = base_seed ^ (epoch_idx as u64).wrapping_mul(0x9E37_79B9_7F4A_7C15u64);
    x = x ^ (x >> 30u64);
    x = x.wrapping_mul(0xBF58_476D_1CE4_E5B9u64);
    x = x ^ (x >> 27u64);
    x = x.wrapping_mul(0x94D0_49BB_1331_11EBu64);
    x ^ (x >> 31u64)
}

/// Next state of the xorshift64 generator (a zero state is first replaced
/// by a fixed nonzero one); the state is also the output.
pub open spec fn spec_xorshift64(state: u64) -> u64 {
    let s0 = if state == 0 {
        0xA076_1D64_78BD_642Fu64
    } else {
        state
    };
    let s1 = s0 ^ (s0 << 13u64);
    let s2 = s1 ^ (s1 >> 7u64);
    s2 ^ (s2 << 17u64)
}

pub fn xorshift64(state: &mut u64) -> (r: u64)
    ensures
        r == spec_xorshift64(*old(state)),
        *final(state) == r,
{
    if *state == 0 {
        *state = 0xA076_1D64_78BD_642Fu64;
    }
    *state = *state ^ (*state << 13u64);
    *state = *state ^ (*state >> 7u64);
    *state = *state ^ (*state << 17u64);
    *state
}

/// Fisher-Yates shuffle of `s` from index `i` down to 1 with generator state
/// `state`: index `i` swaps with `next % (i + 1)`.
pub open spec fn spec_shuffle_from(s: Seq<usize>, state: u64, i: int) -> Seq<usize>
    decreases i,
{
    if i < 1 || i >= s.len() {
        s
    } else {
        let st = spec_xorshift64(state);
        let j = (st as usize as int) % (i + 1);
        spec_shuffle_from(s.update(i, s[j]).update(j, s[i]), st, i - 1)
    }
}

/// Fisher-Yates shuffle of `s` seeded with `seed`.
pub open spec fn spec_shuffle(s: Seq<usize>, seed: u64) -> Seq<usize> {
    spec_shuffle_from(s, seed, s.len() - 1)
}

/// `s` holds each of `0..n` exactly once.
pub open spec fn spec_is_permutation(s: Seq<usize>, n: int) -> bool {
    &&& s.len() == n
    &&& forall|i: int| 0 <= i < n ==> s[i] < n
    &&& forall|i: int, j: int| 0 <= i < j < n ==> s[i] != s[j]
}

proof fn lemma_shuffle_permutes(s: Seq<usize>, state: u64, i: int, n: int)
    requires
        spec_is_permutation(s, n),
    ensures
        spec_is_permutation(spec_shuffle_from(s, state, i), n),
    decreases i,
{
    if i >= 1 && i < s.len() {
        let st = spec_xorshift64(state);
        let j = (st as usize as int) % (i + 1);
        let t = s.update(i, s[j]).update(j, s[i]);
        assert forall|a: int, b: int| 0 <= a < b < n implies t[a] != t[b] by {
            let pa = if a == j {
                i
            } else if a == i {
                j
            } else {
                a
            };
            let pb = if b == j {
                i
            } else if b == i {
                j
            } else {
                b
            };
            assert(t[a] == s[pa]);
            assert(t[b] == s[pb]);
            assert(pa != pb);
            if pa < pb {
            } else {
            }
        }
        lemma_shuffle_permutes(t, st, i - 1, n);
    }
}

/// Shuffles `data` with the xorshift64 generator seeded with `seed` (see
/// [`spec_shuffle`]).
pub fn fisher_yates_shuffle(data: &mut Vec<usize>, seed: u64)
    ensures
        final(data)@ == spec_shuffle(old(data)@, seed),
{
    let mut state = seed;
    if data.len() < 2 {
        return;
    }
    let mut i: usize = data.len() - 1;
    while i >= 1
        invariant
            i < data@.len(),
            data@.len() == data.len(),
            spec_shuffle(old(data)@, seed) == spec_shuffle_from(data@, state, i as int),
        decreases i,
    {
        let r = xorshift64(&mut state);
        let j = (r as usize) % (i + 1);
        let a = data[i];
        let b = data[j];
        data.set(i, b);
        data.set(j, a);
        i = i - 1;
    }
}

/// The file order of an epoch: `0..num_files`, shuffled with the epoch's
/// seed when shuffling is on and there are several files.
pub open spec fn spec_epoch_file_order(num_files: int, shuffle_each_epoch: bool, seed: u64, epoch_idx: usize) -> Seq<usize> {
    let order = Seq::new(num_files as nat, |i: int| i as usize);
    if shuffle_each_epoch && num_files > 1 {
        spec_shuffle(order, spec_epoch_seed(seed, epoch_idx))
    } else {
        order
    }
}

/// The file order of an epoch (see [`spec_epoch_file_order`]); every file
/// comes exactly once.
pub fn build_epoch_file_order(num_files: usize, shuffle_each_epoch: bool, seed: u64, epoch_idx: usize) -> (r: Vec<usize>)
    ensures
        r@ == spec_epoch_file_order(num_files as int, shuffle_each_epoch, seed, epoch_idx),
        spec_is_permutation(r@, num_files as int),
{
    let mut order: Vec<usize> = Vec::new();
    let mut i: usize = 0;
    while i < num_files
        invariant
            i <= num_files,
            order@ == Seq::new(i as nat, |k: int| k as usize),
        decreases num_files - i,
    {
        order.push(i);
        assert(order@ =~= Seq::new((i + 1) as nat, |k: int| k as usize));
        i = i + 1;
    }
    proof {
        assert(spec_is_permutation(order@, num_files as int));
    }
    if shuffle_each_epoch && num_files > 1 {
        let ghost before = order@;
        let s = epoch_seed(seed, epoch_idx);
        fisher_yates_shuffle(&mut order, s);
        proof {
            lemma_shuffle_permutes(before, s, before.len() - 1, num_files as int);
        }
    }
    order
}

/// Law: the file order of every epoch holds each file exactly once.
pub proof fn lemma_epoch_file_order_is_permutation(
    num_files: usize,
    shuffle_each_epoch: bool,
    seed: u64,
    epoch_idx: usize,
)
    ensures
        spec_is_permutation(
            spec_epoch_file_order(num_files as int, shuffle_each_epoch, seed, epoch_idx),
            num_files as int,
        ),
{
    let order = Seq::new(num_files as nat, |i: int| i as usize);
    assert(spec_is_permutation(order, num_files as int));
    if shuffle_each_epoch && num_files > 1 {
        lemma_shuffle_permutes(order, spec_epoch_seed(seed, epoch_idx), order.len() - 1, num_files as int);
    }
}

/// Loader of fixed-size records read straight from files.
/// Records stored in files as their fixed-size bytes, read straight into
/// memory by the sequential loader.
pub trait CanBeDirectlySequentiallyLoaded: Sized {
    /// Bytes of one record.
    fn record_size() -> usize;
}

impl CanBeDirectlySequentiallyLoaded for PackedSfenValue {
    fn record_size() -> (r: usize)
        ensures
            r == 40,
    {
        40
    }
}

#[derive(Clone)]
pub struct DirectSequentialDataLoader {
    pub file_paths: Vec<String>,
    pub shuffle_each_epoch: bool,
    pub shuffle_seed: u64,
}

impl DirectSequentialDataLoader {
    /// Loader of the given files, in order, without shuffling.
    pub fn new(file_paths: &[&str]) -> (r: Self)
        ensures
            r.file_paths@.len() == file_paths@.len(),
            forall|i: int| 0 <= i < file_paths@.len() ==> #[trigger] r.file_paths@[i]@ == file_paths@[i]@,
            !r.shuffle_each_epoch,
            r.shuffle_seed == 0,
    {
        DirectSequentialDataLoader { file_paths: owned_paths(file_paths), shuffle_each_epoch: false, shuffle_seed: 0 }
    }

    /// The same loader, shuffling the file order of each epoch from `seed`
    /// when `enabled`.
    pub fn with_epoch_file_shuffle(self, enabled: bool, seed: u64) -> (r: Self)
        ensures
            r.file_paths == self.file_paths,
            r.shuffle_each_epoch == enabled,
            r.shuffle_seed == seed,
    {
        DirectSequentialDataLoader { file_paths: self.file_paths, shuffle_each_epoch: enabled, shuffle_seed: seed }
    }

    /// The file order of epoch `epoch_idx`.
    pub fn epoch_file_order(&self, epoch_idx: usize) -> (r: Vec<usize>)
        ensures
            r@ == spec_epoch_file_order(
                self.file_paths@.len() as int,
                self.shuffle_each_epoch,
                self.shuffle_seed,
                epoch_idx,
            ),
            spec_is_permutation(r@, self.file_paths@.len() as int),
    {
        build_epoch_file_order(self.file_paths.len(), self.shuffle_each_epoch, self.shuffle_seed, epoch_idx)
    }
}

impl DataLoader<PackedSfenValue> for DirectSequentialDataLoader {
    fn data_file_paths(&self) -> (r: &[String])
        ensures
            r@ == self.file_paths@,
    {
        self.file_paths.as_slice()
    }
}

/// Where reading resumes after `start_position` records of an epoch of
/// `positions_per_epoch` records: (epoch, records into the epoch).
pub fn resume_point(start_position: usize, positions_per_epoch: usize) -> (r: (usize, usize))
    requires
        positions_per_epoch > 0,
    ensures
        r.0 == start_position / positions_per_epoch,
        r.1 == start_position % positions_per_epoch,
        r.0 * positions_per_epoch + r.1 == start_position,
{
    let e = start_position / positions_per_epoch;
    let o = start_position % positions_per_epoch;
    assert(e * positions_per_epoch + o == start_position) by (nonlinear_arith)
        requires
            positions_per_epoch > 0,
            e == start_position / positions_per_epoch,
            o == start_position % positions_per_epoch,
    ;
    (e, o)
}

/// With `to_skip` records still to skip before a file of `file_positions`
/// records: `None` when the whole file is skipped (and how many records then
/// remain to skip), else the record of the file to start at.
pub fn skip_in_file(to_skip: usize, file_positions: usize) -> (r: Result<usize, usize>)
    ensures
        to_skip >= file_positions ==> r == Err::<usize, usize>((to_skip - file_positions) as usize),
        to_skip < file_positions ==> r == Ok::<usize, usize>(to_skip),
{
    if to_skip >= file_positions {
        Err(to_skip - file_positions)
    } else {
        Ok(to_skip)
    }
}

/// Number of records of sizes `sizes` bytes of `data_size`-byte records, or
/// the first file whose size is not a whole number of records.
pub fn count_records(sizes: &[u64], data_size: u64) -> (r: Result<u64, usize>)
    requires
        data_size > 0,
        spec_whole_records(sizes@, data_size as int, sizes@.len() as int) <= u64::MAX,
    ensures
        match r {
            Ok(n) => (forall|i: int| 0 <= i < sizes@.len() ==> sizes@[i] % data_size == 0) && n == spec_whole_records(
                sizes@,
                data_size as int,
                sizes@.len() as int,
            ),
            Err(k) => k < sizes@.len() && sizes@[k as int] % data_size != 0 && forall|i: int|
                0 <= i < k ==> sizes@[i] % data_size == 0,
        },
{
    let mut total: u64 = 0;
    let mut i: usize = 0;
    while i < sizes.len()
        invariant
            i <= sizes@.len(),
            data_size > 0,
            spec_whole_records(sizes@, data_size as int, sizes@.len() as int) <= u64::MAX,
            total == spec_whole_records(sizes@, data_size as int, i as int),
            forall|k: int| 0 <= k < i ==> sizes@[k] % data_size == 0,
        decreases sizes@.len() - i,
    {
        if sizes[i] % data_size != 0 {
            return Err(i);
        }
        proof {
            lemma_whole_records_monotone(sizes@, data_size as int, i as int + 1, sizes@.len() as int);
        }
        total = total + sizes[i] / data_size;
        i = i + 1;
    }
    Ok(total)
}

/// Whole records of `d` bytes in the first `n` files of sizes `sizes`.
pub open spec fn spec_whole_records(sizes: Seq<u64>, d: int, n: int) -> int
    decreases n,
{
    if n <= 0 {
        0
    } else {
        spec_whole_records(sizes, d, n - 1) + sizes[n - 1] as int / d
    }
}

proof fn lemma_whole_records_monotone(sizes: Seq<u64>, d: int, a: int, b: int)
    requires
        a <= b,
        d > 0,
    ensures
        spec_whole_records(sizes, d, a) <= spec_whole_records(sizes, d, b),
    decreases b - a,
{
    if a < b {
        lemma_whole_records_monotone(sizes, d, a, b - 1);
    }
}

} // verus!

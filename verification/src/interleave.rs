//! Interleaving fixed-size record files into one: the mode, the options,
//! the block size, and the schedule that picks, step by step, a random
//! stream weighted by the records it has left and copies a block of them.

use vstd::prelude::*;
use crate::teacher_path::{spec_str_ieq, str_ieq};
use crate::text::concat_strs;

verus! {

/// How input files are merged.
#[derive(Clone, Copy, Debug, PartialEq, Eq, Structural)]
pub enum InterleaveMode {
    /// One record at a time from a random stream.
    Record,
    /// A block of records at a time from a random stream.
    Block,
    /// The files one after the other.
    Concat,
}

/// Mode named `s` ignoring ASCII case: `record`, `block` or `concat`.
pub open spec fn spec_parse_interleave_mode(s: Seq<char>) -> Result<InterleaveMode, Seq<char>> {
    if spec_str_ieq(s, "record"@) {
        Ok(InterleaveMode::Record)
    } else if spec_str_ieq(s, "block"@) {
        Ok(InterleaveMode::Block)
    } else if spec_str_ieq(s, "concat"@) {
        Ok(InterleaveMode::Concat)
    } else {
        Err("invalid interleave mode '"@ + s + "' (expected one of: record, block, concat)"@)
    }
}

/// The mode named `s` (see [`spec_parse_interleave_mode`]).
pub fn parse_interleave_mode(s: &str) -> (r: Result<InterleaveMode, String>)
    ensures
        match spec_parse_interleave_mode(s@) {
            Ok(m) => r == Ok::<InterleaveMode, String>(m),
            Err(e) => r matches Err(x) && x@ == e,
        },
{
    if str_ieq(s, "record") {
        Ok(InterleaveMode::Record)
    } else if str_ieq(s, "block") {
        Ok(InterleaveMode::Block)
    } else if str_ieq(s, "concat") {
        Ok(InterleaveMode::Concat)
    } else {
        let a = concat_strs("invalid interleave mode '", s);
        Err(concat_strs(a.as_str(), "' (expected one of: record, block, concat)"))
    }
}

impl core::str::FromStr for InterleaveMode {
    type Err = String;

    fn from_str(s: &str) -> (r: Result<InterleaveMode, String>)
        ensures
            match spec_parse_interleave_mode(s@) {
                Ok(m) => r == Ok::<InterleaveMode, String>(m),
                Err(e) => r matches Err(x) && x@ == e,
            },
    {
        parse_interleave_mode(s)
    }
}

/// Options of an interleave run.
#[derive(Clone, Debug)]
pub struct InterleaveOptions {
    pub inputs: Vec<String>,
    pub output: String,
    pub mode: InterleaveMode,
    pub block_mb: usize,
    pub seed: Option<u64>,
    pub record_size: usize,
}

impl InterleaveOptions {
    pub fn new(
        inputs: Vec<String>,
        output: String,
        mode: InterleaveMode,
        block_mb: usize,
        seed: Option<u64>,
        record_size: usize,
    ) -> (r: Self)
        ensures
            r.inputs == inputs,
            r.output == output,
            r.mode == mode,
            r.block_mb == block_mb,
            r.seed == seed,
            r.record_size == record_size,
    {
        InterleaveOptions { inputs, output, mode, block_mb, seed, record_size }
    }

    /// Records per block for block mode: `block_mb` MiB of records, at least
    /// one; an error for a zero block size or an overflow.
    pub fn block_records(&self) -> (r: Result<usize, String>)
        requires
            self.record_size > 0,
        ensures
            self.block_mb == 0 ==> (r matches Err(e) && e@ == "block size must be at least 1 MB"@),
            self.block_mb > 0 && self.block_mb * 1048576 > usize::MAX ==> (r matches Err(e) && e@
                == "block size overflow"@),
            self.block_mb > 0 && self.block_mb * 1048576 <= usize::MAX ==> r == Ok::<usize, String>(
                if self.block_mb * 1048576 / self.record_size as int >= 1 {
                    (self.block_mb * 1048576 / self.record_size as int) as usize
                } else {
                    1usize
                },
            ),
    {
        if self.block_mb == 0 {
            return Err("block size must be at least 1 MB".to_owned());
        }
        if self.block_mb > usize::MAX / 1048576 {
            return Err("block size overflow".to_owned());
        }
        let block_bytes = self.block_mb * 1048576;
        let n = block_bytes / self.record_size;
        if n >= 1 {
            Ok(n)
        } else {
            Ok(1)
        }
    }
}

/// Sum of the first `n` weights.
pub open spec fn spec_weight_prefix(weights: Seq<usize>, n: int) -> int
    decreases n,
{
    if n <= 0 {
        0
    } else {
        spec_weight_prefix(weights, n - 1) + weights[n - 1]
    }
}

/// Index of the item whose weight interval holds `spot`: the `r` with
/// `w[0] + ... + w[r-1] <= spot < w[0] + ... + w[r]`; `spot` must lie below
/// the total weight.
pub fn pick_weighted_index(weights: &[usize], spot: usize) -> (r: usize)
    requires
        spot < spec_weight_prefix(weights@, weights@.len() as int),
    ensures
        r < weights@.len(),
        spec_weight_prefix(weights@, r as int) <= spot < spec_weight_prefix(weights@, r as int + 1),
{
    let mut rest = spot;
    let mut idx: usize = 0;
    while idx < weights.len()
        invariant
            idx <= weights@.len(),
            spot < spec_weight_prefix(weights@, weights@.len() as int),
            rest + spec_weight_prefix(weights@, idx as int) == spot,
        decreases weights@.len() - idx,
    {
        let w = weights[idx];
        if rest < w {
            return idx;
        }
        rest = rest - w;
        idx = idx + 1;
    }
    idx
}

/// Next state (and output) of the xorshift generator of the tools.
pub open spec fn spec_rand_next(state: u64) -> u64 {
    let s1 = state ^ (state << 13u64);
    let s2 = s1 ^ (s1 >> 7u64);
    s2 ^ (s2 << 17u64)
}

/// The xorshift generator of the tools; a zero seed is replaced by a
/// fixed one.
#[derive(Clone, Copy, Debug)]
pub struct Rand {
    pub state: u64,
}

/// Seed for stream `stream` derived from `seed`: a splitmix-style mix,
/// zero replaced by [`FALLBACK_SEED`].
pub open spec fn spec_derive_seed(seed: u64, stream: u64) -> u64 {
    let x0 = seed ^ vstd::wrapping::u64_specs::wrapping_mul(stream, 0x9E37_79B9_7F4A_7C15u64);
    let x1 = x0 ^ (x0 >> 30u64);
    let x2 = vstd::wrapping::u64_specs::wrapping_mul(x1, 0xBF58_476D_1CE4_E5B9u64);
    let x3 = x2 ^ (x2 >> 27u64);
    let x4 = vstd::wrapping::u64_specs::wrapping_mul(x3, 0x94D0_49BB_1331_11EBu64);
    let x5 = x4 ^ (x4 >> 31u64);
    if x5 == 0 {
        FALLBACK_SEED
    } else {
        x5
    }
}

/// Seed used in place of zero.
pub const FALLBACK_SEED: u64 = 0xA076_1D64_78BD_642F;

impl Rand {
    pub fn with_seed(seed: u64) -> (r: Rand)
        ensures
            r.state == if seed == 0 {
                FALLBACK_SEED
            } else {
                seed
            },
    {
        Rand { state: if seed == 0 { FALLBACK_SEED } else { seed } }
    }

    /// A seed for stream `stream` derived from `seed` by a splitmix-style
    /// mix; a zero result is replaced by [`FALLBACK_SEED`].
    pub fn derive_seed(seed: u64, stream: u64) -> (r: u64)
        ensures
            r == spec_derive_seed(seed, stream),
            r != 0,
    {
        let mut x = seed ^ stream.wrapping_mul(0x9E37_79B9_7F4A_7C15u64);
        x = x ^ (x >> 30u64);
        x = x.wrapping_mul(0xBF58_476D_1CE4_E5B9u64);
        x = x ^ (x >> 27u64);
        x = x.wrapping_mul(0x94D0_49BB_1331_11EBu64);
        x = x ^ (x >> 31u64);
        if x == 0 {
            FALLBACK_SEED
        } else {
            x
        }
    }

    pub fn rand(&mut self) -> (r: u64)
        ensures
            r == spec_rand_next(old(self).state),
            final(self).state == r,
    {
        self.state = self.state ^ (self.state << 13u64);
        self.state = self.state ^ (self.state >> 7u64);
        self.state = self.state ^ (self.state << 17u64);
        self.state
    }
}

/// Records left in all streams.
pub open spec fn spec_left_sum(s: Seq<(usize, usize)>) -> int
    decreases s.len(),
{
    if s.len() == 0 {
        0
    } else {
        spec_left_sum(s.drop_last()) + s.last().1
    }
}

/// Records left of input `i` in the streams.
pub open spec fn spec_left_of(s: Seq<(usize, usize)>, i: usize) -> int
    decreases s.len(),
{
    if s.len() == 0 {
        0
    } else {
        spec_left_of(s.drop_last(), i) + if s.last().0 == i {
            s.last().1 as int
        } else {
            0
        }
    }
}

/// Stream weights: the records each has left.
pub open spec fn spec_weights(s: Seq<(usize, usize)>) -> Seq<usize> {
    s.map_values(|p: (usize, usize)| p.1)
}

/// `s` with its element `j` replaced by its last one and the last one
/// dropped.
pub open spec fn spec_swap_remove<A>(s: Seq<A>, j: int) -> Seq<A> {
    s.update(j, s.last()).drop_last()
}

proof fn lemma_weight_prefix_monotone(w: Seq<usize>, a: int, b: int)
    requires
        0 <= a <= b,
    ensures
        spec_weight_prefix(w, a) <= spec_weight_prefix(w, b),
    decreases b - a,
{
    if a < b {
        lemma_weight_prefix_monotone(w, a, b - 1);
    }
}

proof fn lemma_left_sum_is_weight_prefix(s: Seq<(usize, usize)>, n: int)
    requires
        0 <= n <= s.len(),
    ensures
        spec_left_sum(s.take(n)) == spec_weight_prefix(spec_weights(s), n),
    decreases n,
{
    if n > 0 {
        lemma_left_sum_is_weight_prefix(s, n - 1);
        assert(s.take(n).drop_last() =~= s.take(n - 1));
    }
}

proof fn lemma_left_update(s: Seq<(usize, usize)>, j: int, v: (usize, usize), i: usize)
    requires
        0 <= j < s.len(),
    ensures
        spec_left_of(s.update(j, v), i) == spec_left_of(s, i) - (if s[j].0 == i {
            s[j].1 as int
        } else {
            0
        }) + (if v.0 == i {
            v.1 as int
        } else {
            0
        }),
        spec_left_sum(s.update(j, v)) == spec_left_sum(s) - s[j].1 + v.1,
    decreases s.len(),
{
    if j < s.len() - 1 {
        lemma_left_update(s.drop_last(), j, v, i);
        assert(s.update(j, v).drop_last() =~= s.drop_last().update(j, v));
    } else {
        assert(s.update(j, v).drop_last() =~= s.drop_last());
    }
}

proof fn lemma_elem_le_left_sum(s: Seq<(usize, usize)>, j: int)
    requires
        0 <= j < s.len(),
    ensures
        s[j].1 <= spec_left_sum(s),
    decreases s.len(),
{
    if j < s.len() - 1 {
        lemma_elem_le_left_sum(s.drop_last(), j);
    }
    lemma_left_of_bounds(s.drop_last(), 0);
}

/// Index of the stream whose weight interval holds `spot`.
fn pick_stream(streams: &Vec<(usize, usize)>, spot: usize) -> (j: usize)
    requires
        spot < spec_weight_prefix(spec_weights(streams@), streams@.len() as int),
    ensures
        j < streams@.len(),
        spec_weight_prefix(spec_weights(streams@), j as int) <= spot < spec_weight_prefix(
            spec_weights(streams@),
            j as int + 1,
        ),
{
    let ghost w = spec_weights(streams@);
    let mut rest = spot;
    let mut j: usize = 0;
    while j < streams.len()
        invariant
            w == spec_weights(streams@),
            j <= streams@.len(),
            spot < spec_weight_prefix(w, streams@.len() as int),
            rest + spec_weight_prefix(w, j as int) == spot,
        decreases streams@.len() - j,
    {
        let x = streams[j].1;
        assert(w[j as int] == x);
        if rest < x {
            return j;
        }
        rest = rest - x;
        j = j + 1;
    }
    j
}

proof fn lemma_left_of_bounds(s: Seq<(usize, usize)>, i: usize)
    ensures
        0 <= spec_left_of(s, i) <= spec_left_sum(s),
    decreases s.len(),
{
    if s.len() > 0 {
        lemma_left_of_bounds(s.drop_last(), i);
    }
}

/// The streams of inputs holding `counts[0..n]` records: one per input
/// with records, in input order.
pub open spec fn spec_initial_streams(counts: Seq<usize>, n: int) -> Seq<(usize, usize)>
    decreases n,
{
    if n <= 0 {
        Seq::empty()
    } else if counts[n - 1] > 0 {
        spec_initial_streams(counts, n - 1).push(((n - 1) as usize, counts[n - 1]))
    } else {
        spec_initial_streams(counts, n - 1)
    }
}

/// A random interleaving in progress: the streams still holding records
/// (their input and the records they have left), the records left in
/// all, the block size in records and the generator.
#[derive(Clone, Debug)]
pub struct InterleaveSchedule {
    pub streams: Vec<(usize, usize)>,
    pub remaining: usize,
    pub block_records: usize,
    pub rng: Rand,
}

impl InterleaveSchedule {
    /// Every stream holds records, they add up to `remaining`, and a block
    /// holds at least one record.
    pub open spec fn wf(self) -> bool {
        &&& spec_left_sum(self.streams@) == self.remaining
        &&& forall|k: int| 0 <= k < self.streams@.len() ==> (#[trigger] self.streams@[k]).1 > 0
        &&& self.block_records > 0
    }

    /// The schedule of inputs holding `counts` records, blocks of
    /// `block_records` records and generator seed `seed` (zero replaced as
    /// [`Rand::with_seed`] does): a stream per input with records, in
    /// order. The counts must add up to at most `usize::MAX`.
    pub fn new(counts: &[usize], block_records: usize, seed: u64) -> (r: Self)
        requires
            block_records > 0,
            spec_weight_prefix(counts@, counts@.len() as int) <= usize::MAX,
        ensures
            r.wf(),
            r.remaining == spec_weight_prefix(counts@, counts@.len() as int),
            forall|i: usize| #[trigger] spec_left_of(r.streams@, i) == if i < counts@.len() {
                counts@[i as int] as int
            } else {
                0
            },
            forall|k: int| 0 <= k < r.streams@.len() ==> (#[trigger] r.streams@[k]).0 < counts@.len(),
            r.block_records == block_records,
            r.rng.state == if seed == 0 {
                FALLBACK_SEED
            } else {
                seed
            },
            r@ == spec_initial_schedule(counts@, block_records, seed),
    {
        let mut streams: Vec<(usize, usize)> = Vec::new();
        let mut total: usize = 0;
        let mut i: usize = 0;
        while i < counts.len()
            invariant
                i <= counts@.len(),
                spec_weight_prefix(counts@, counts@.len() as int) <= usize::MAX,
                total == spec_weight_prefix(counts@, i as int),
                streams@ == spec_initial_streams(counts@, i as int),
                spec_left_sum(streams@) == total,
                forall|k: int| 0 <= k < streams@.len() ==> (#[trigger] streams@[k]).1 > 0,
                forall|k: int| 0 <= k < streams@.len() ==> (#[trigger] streams@[k]).0 < i,
                forall|x: usize| #[trigger] spec_left_of(streams@, x) == if x < i {
                    counts@[x as int] as int
                } else {
                    0
                },
            decreases counts@.len() - i,
        {
            proof {
                lemma_weight_prefix_monotone(counts@, i as int + 1, counts@.len() as int);
            }
            let c = counts[i];
            if c > 0 {
                let ghost before = streams@;
                streams.push((i, c));
                assert(streams@.drop_last() =~= before);
                assert forall|x: usize| #[trigger] spec_left_of(streams@, x) == if x < i + 1 {
                    counts@[x as int] as int
                } else {
                    0
                } by {
                    assert(spec_left_of(streams@, x) == spec_left_of(before, x) + if x == i {
                        c as int
                    } else {
                        0
                    });
                }
            } else {
                assert forall|x: usize| #[trigger] spec_left_of(streams@, x) == if x < i + 1 {
                    counts@[x as int] as int
                } else {
                    0
                } by {}
            }
            total = total + c;
            i = i + 1;
        }
        InterleaveSchedule { streams, remaining: total, block_records, rng: Rand::with_seed(seed) }
    }

    /// The next copy: `None` when no record is left; else the generator
    /// draws `spot = next % remaining`, the stream whose weight interval
    /// holds `spot` gives `n = min(its records left, block_records)`
    /// records, and a drained stream is swap-removed. Returns the stream's
    /// input and `n`.
    #[verifier::rlimit(100)]
    #[verifier::spinoff_prover]
    pub fn next_copy(&mut self) -> (r: Option<(usize, usize)>)
        requires
            old(self).wf(),
        ensures
            (r, final(self)@) == spec_next_copy(old(self)@),
            final(self).wf(),
            final(self).block_records == old(self).block_records,
            old(self).remaining == 0 ==> r is None && *final(self) == *old(self),
            old(self).remaining > 0 ==> (r matches Some((input, n)) && {
                let s = old(self).streams@;
                let spot = (spec_rand_next(old(self).rng.state) as usize) as int % old(self).remaining as int;
                exists|j: int|
                    #![trigger s[j]]
                    0 <= j < s.len() && spec_weight_prefix(spec_weights(s), j) <= spot < spec_weight_prefix(
                        spec_weights(s),
                        j + 1,
                    ) && input == s[j].0 && n == (if s[j].1 < old(self).block_records {
                        s[j].1
                    } else {
                        old(self).block_records
                    }) && final(self).streams@ == (if s[j].1 == n {
                        spec_swap_remove(s, j)
                    } else {
                        s.update(j, (input, (s[j].1 - n) as usize))
                    })
            }),
            old(self).remaining > 0 ==> (r matches Some((input, n)) && {
                &&& 1 <= n <= old(self).block_records
                &&& final(self).remaining == old(self).remaining - n
                &&& final(self).rng.state == spec_rand_next(old(self).rng.state)
                &&& forall|i: usize|
                    #[trigger] spec_left_of(final(self).streams@, i) == spec_left_of(old(self).streams@, i) - if i
                        == input {
                        n as int
                    } else {
                        0
                    }
            }),
    {
        if self.remaining == 0 {
            return None;
        }
        let ghost s = self.streams@;
        let x = self.rng.rand();
        let spot = (x as usize) % self.remaining;
        proof {
            lemma_left_sum_is_weight_prefix(s, s.len() as int);
            assert(s.take(s.len() as int) =~= s);
        }
        let j = pick_stream(&self.streams, spot);
        proof {
            lemma_find_stream_unique(spec_weights(s), spot as int, j as int, 0);
        }
        let (input, left) = self.streams[j];
        let n = if left < self.block_records { left } else { self.block_records };
        proof {
            lemma_left_update(s, j as int, (input, (left - n) as usize), 0);
            lemma_elem_le_left_sum(s, j as int);
        }
        let last = self.streams.len() - 1;
        if left == n {
            let tail = self.streams[last];
            self.streams.set(j, tail);
            self.streams.pop();
            proof {
                let u = s.update(j as int, s.last());
                assert(self.streams@ =~= u.drop_last());
                assert forall|i: usize| #[trigger] spec_left_of(self.streams@, i) == spec_left_of(s, i) - if i
                    == input {
                    n as int
                } else {
                    0
                } by {
                    lemma_left_update(s, j as int, s.last(), i);
                }
                lemma_left_update(s, j as int, s.last(), 0);
                assert(spec_left_sum(self.streams@) == spec_left_sum(s) - n);
                assert forall|k: int| 0 <= k < self.streams@.len() implies (#[trigger] self.streams@[k]).1 > 0 by {
                    if k == j {
                        assert(self.streams@[k] == s[s.len() - 1]);
                    } else {
                        assert(self.streams@[k] == s[k]);
                    }
                }
            }
        } else {
            self.streams.set(j, (input, left - n));
            proof {
                assert forall|i: usize| #[trigger] spec_left_of(self.streams@, i) == spec_left_of(s, i) - if i
                    == input {
                    n as int
                } else {
                    0
                } by {
                    lemma_left_update(s, j as int, (input, (left - n) as usize), i);
                }
            }
        }
        self.remaining = self.remaining - n;
        Some((input, n))
    }
}

/// A drained schedule has nothing left of any input: when the records
/// left add up to zero, so do those of each input.
pub proof fn lemma_drained_schedule_is_empty(s: InterleaveSchedule, i: usize)
    requires
        s.wf(),
        s.remaining == 0,
    ensures
        spec_left_of(s.streams@, i) == 0,
{
    lemma_left_of_bounds(s.streams@, i);
}

/// While records are left, the next copy takes from an input that has
/// records left, never more than it has, and nothing from the others.
pub proof fn lemma_copy_takes_only_what_is_left(s: InterleaveSchedule, input: usize, n: usize, t: InterleaveSchedule)
    requires
        s.wf(),
        t.wf(),
        1 <= n,
        forall|i: usize| #[trigger] spec_left_of(t.streams@, i) == spec_left_of(s.streams@, i) - if i == input {
            n as int
        } else {
            0
        },
    ensures
        n <= spec_left_of(s.streams@, input),
        forall|i: usize| i != input ==> #[trigger] spec_left_of(t.streams@, i) == spec_left_of(s.streams@, i),
{
    lemma_left_of_bounds(t.streams@, input);
}

/// What a schedule holds: its streams, the records left, the block size
/// and the generator state.
pub struct ScheduleView {
    pub streams: Seq<(usize, usize)>,
    pub remaining: usize,
    pub block_records: usize,
    pub rng: u64,
}

impl View for InterleaveSchedule {
    type V = ScheduleView;

    open spec fn view(&self) -> ScheduleView {
        ScheduleView {
            streams: self.streams@,
            remaining: self.remaining,
            block_records: self.block_records,
            rng: self.rng.state,
        }
    }
}

/// Every stream holds records, they add up to the records left, and a
/// block holds at least one record.
pub open spec fn spec_schedule_wf(v: ScheduleView) -> bool {
    &&& spec_left_sum(v.streams) == v.remaining
    &&& forall|k: int| 0 <= k < v.streams.len() ==> (#[trigger] v.streams[k]).1 > 0
    &&& v.block_records > 0
}

/// First index from `k` on whose weight interval ends above `spot`.
pub open spec fn spec_find_stream(w: Seq<usize>, spot: int, k: int) -> int
    decreases w.len() - k,
{
    if k >= w.len() || spot < spec_weight_prefix(w, k + 1) {
        k
    } else {
        spec_find_stream(w, spot, k + 1)
    }
}

proof fn lemma_find_stream_unique(w: Seq<usize>, spot: int, j: int, k: int)
    requires
        0 <= k <= j < w.len(),
        spec_weight_prefix(w, j) <= spot < spec_weight_prefix(w, j + 1),
    ensures
        spec_find_stream(w, spot, k) == j,
    decreases j - k,
{
    if k < j {
        lemma_weight_prefix_monotone(w, k + 1, j);
        lemma_find_stream_unique(w, spot, j, k + 1);
    }
}

proof fn lemma_find_stream_holds(w: Seq<usize>, spot: int, k: int)
    requires
        0 <= k <= w.len(),
        spec_weight_prefix(w, k) <= spot < spec_weight_prefix(w, w.len() as int),
    ensures
        k <= spec_find_stream(w, spot, k) < w.len(),
        spec_weight_prefix(w, spec_find_stream(w, spot, k)) <= spot < spec_weight_prefix(
            w,
            spec_find_stream(w, spot, k) + 1,
        ),
    decreases w.len() - k,
{
    if k < w.len() && spot >= spec_weight_prefix(w, k + 1) {
        lemma_find_stream_holds(w, spot, k + 1);
    }
}

/// The next copy of a schedule and the schedule after it (see
/// [`InterleaveSchedule::next_copy`]).
pub open spec fn spec_next_copy(v: ScheduleView) -> (Option<(usize, usize)>, ScheduleView) {
    if v.remaining == 0 {
        (None, v)
    } else {
        let x = spec_rand_next(v.rng);
        let spot = (x as usize) as int % v.remaining as int;
        let s = v.streams;
        let j = spec_find_stream(spec_weights(s), spot, 0);
        let input = s[j].0;
        let n = if s[j].1 < v.block_records {
            s[j].1
        } else {
            v.block_records
        };
        let streams = if s[j].1 == n {
            spec_swap_remove(s, j)
        } else {
            s.update(j, (input, (s[j].1 - n) as usize))
        };
        (
            Some((input, n)),
            ScheduleView { streams, remaining: (v.remaining - n) as usize, block_records: v.block_records, rng: x },
        )
    }
}

/// A step of a well-formed schedule with records left copies between 1
/// and a block of records from one input, and keeps it well-formed.
proof fn lemma_next_copy_step(v: ScheduleView)
    requires
        spec_schedule_wf(v),
        v.remaining > 0,
    ensures
        spec_next_copy(v).0 matches Some((input, n)) && {
            let t = spec_next_copy(v).1;
            &&& 1 <= n <= v.block_records
            &&& t.remaining == v.remaining - n
            &&& t.block_records == v.block_records
            &&& spec_schedule_wf(t)
            &&& forall|i: usize|
                #[trigger] spec_left_of(t.streams, i) == spec_left_of(v.streams, i) - if i == input {
                    n as int
                } else {
                    0
                }
        },
{
    let s = v.streams;
    let w = spec_weights(s);
    let x = spec_rand_next(v.rng);
    let spot = (x as usize) as int % v.remaining as int;
    lemma_left_sum_is_weight_prefix(s, s.len() as int);
    assert(s.take(s.len() as int) =~= s);
    lemma_find_stream_holds(w, spot, 0);
    let j = spec_find_stream(w, spot, 0);
    let input = s[j].0;
    let left = s[j].1;
    let n = if left < v.block_records {
        left
    } else {
        v.block_records
    };
    assert(w[j] == left);
    lemma_elem_le_left_sum(s, j);
    let t = spec_next_copy(v).1;
    if left == n {
        let u = s.update(j, s.last());
        assert(t.streams =~= u.drop_last());
        assert forall|i: usize| #[trigger] spec_left_of(t.streams, i) == spec_left_of(s, i) - if i == input {
            n as int
        } else {
            0
        } by {
            lemma_left_update(s, j, s.last(), i);
            lemma_left_update(u, u.len() - 1, s.last(), i);
            assert(u.update(u.len() - 1, s.last()) =~= u);
            assert(u.drop_last() =~= t.streams);
        }
        lemma_left_update(s, j, s.last(), 0);
        assert forall|k: int| 0 <= k < t.streams.len() implies (#[trigger] t.streams[k]).1 > 0 by {
            if k == j {
                assert(t.streams[k] == s[s.len() - 1]);
            } else {
                assert(t.streams[k] == s[k]);
            }
        }
    } else {
        assert forall|i: usize| #[trigger] spec_left_of(t.streams, i) == spec_left_of(s, i) - if i == input {
            n as int
        } else {
            0
        } by {
            lemma_left_update(s, j, (input, (left - n) as usize), i);
        }
        lemma_left_update(s, j, (input, (left - n) as usize), 0);
    }
}

/// The copies a schedule makes until it is drained, in order.
pub open spec fn spec_plan(v: ScheduleView) -> Seq<(usize, usize)>
    decreases v.remaining,
{
    if v.remaining == 0 {
        Seq::empty()
    } else {
        let (r, t) = spec_next_copy(v);
        match r {
            Some(c) => if t.remaining < v.remaining {
                seq![c] + spec_plan(t)
            } else {
                Seq::empty()
            },
            None => Seq::empty(),
        }
    }
}

/// Records that `copies` take from input `i`.
pub open spec fn spec_copied_of(copies: Seq<(usize, usize)>, i: usize) -> int
    decreases copies.len(),
{
    if copies.len() == 0 {
        0
    } else {
        (if copies[0].0 == i {
            copies[0].1 as int
        } else {
            0
        }) + spec_copied_of(copies.drop_first(), i)
    }
}

/// Running a well-formed schedule to the end copies from every input all
/// the records it has left, no more, in copies of 1 to a block of records.
pub proof fn lemma_plan_copies_every_record(v: ScheduleView, i: usize)
    requires
        spec_schedule_wf(v),
    ensures
        spec_copied_of(spec_plan(v), i) == spec_left_of(v.streams, i),
        forall|k: int|
            0 <= k < spec_plan(v).len() ==> 1 <= (#[trigger] spec_plan(v)[k]).1 <= v.block_records,
    decreases v.remaining,
{
    if v.remaining == 0 {
        lemma_left_of_bounds(v.streams, i);
    } else {
        lemma_next_copy_step(v);
        let (r, t) = spec_next_copy(v);
        let c = r->0;
        lemma_plan_copies_every_record(t, i);
        let p = seq![c] + spec_plan(t);
        assert(p.drop_first() =~= spec_plan(t));
        assert forall|k: int| 0 <= k < p.len() implies 1 <= (#[trigger] p[k]).1 <= v.block_records by {
            if k > 0 {
                assert(p[k] == spec_plan(t)[k - 1]);
            }
        }
    }
}

/// The schedule that [`InterleaveSchedule::new`] makes of inputs holding
/// `counts` records.
pub open spec fn spec_initial_schedule(counts: Seq<usize>, block_records: usize, seed: u64) -> ScheduleView {
    ScheduleView {
        streams: spec_initial_streams(counts, counts.len() as int),
        remaining: spec_weight_prefix(counts, counts.len() as int) as usize,
        block_records,
        rng: if seed == 0 {
            FALLBACK_SEED
        } else {
            seed
        },
    }
}

proof fn lemma_initial_streams(counts: Seq<usize>, n: int)
    requires
        0 <= n <= counts.len(),
        counts.len() <= usize::MAX,
    ensures
        spec_left_sum(spec_initial_streams(counts, n)) == spec_weight_prefix(counts, n),
        forall|k: int|
            0 <= k < spec_initial_streams(counts, n).len() ==> (#[trigger] spec_initial_streams(counts, n)[k]).1 > 0,
        forall|x: usize| #[trigger] spec_left_of(spec_initial_streams(counts, n), x) == if x < n {
            counts[x as int] as int
        } else {
            0
        },
    decreases n,
{
    if n > 0 {
        lemma_initial_streams(counts, n - 1);
        let prev = spec_initial_streams(counts, n - 1);
        if counts[n - 1] > 0 {
            let cur = spec_initial_streams(counts, n);
            assert(cur.drop_last() =~= prev);
            assert forall|x: usize| #[trigger] spec_left_of(cur, x) == if x < n {
                counts[x as int] as int
            } else {
                0
            } by {
                assert(cur.drop_last() =~= prev);
                assert(cur.last() == ((n - 1) as usize, counts[n - 1]));
                assert(spec_left_of(cur, x) == spec_left_of(prev, x) + if x == n - 1 {
                    counts[n - 1] as int
                } else {
                    0
                });
            }
            assert forall|k: int| 0 <= k < cur.len() implies (#[trigger] cur[k]).1 > 0 by {
                if k < prev.len() {
                    assert(cur[k] == prev[k]);
                }
            }
        }
    }
}

/// Interleaving inputs holding `counts` records in blocks of
/// `block_records` with generator seed `seed` copies, when run to the end,
/// every record of every input exactly once (each input's copies add up to
/// its count), in copies of 1 to a block of records; the copies depend on
/// the counts, the block size and the seed alone.
pub proof fn lemma_interleave_copies_every_record(counts: Seq<usize>, block_records: usize, seed: u64, i: usize)
    requires
        block_records > 0,
        counts.len() <= usize::MAX,
        spec_weight_prefix(counts, counts.len() as int) <= usize::MAX,
    ensures
        spec_copied_of(spec_plan(spec_initial_schedule(counts, block_records, seed)), i) == if i < counts.len() {
            counts[i as int] as int
        } else {
            0
        },
        forall|k: int|
            0 <= k < spec_plan(spec_initial_schedule(counts, block_records, seed)).len() ==> 1 <= (#[trigger] spec_plan(
                spec_initial_schedule(counts, block_records, seed),
            )[k]).1 <= block_records,
{
    lemma_initial_streams(counts, counts.len() as int);
    lemma_weight_prefix_monotone(counts, 0, counts.len() as int);
    lemma_plan_copies_every_record(spec_initial_schedule(counts, block_records, seed), i);
}

/// Records that `copies` write, as (input, record index) pairs, when each
/// input `i` is read on from its record `start(i)`: a copy `(i, n)` writes
/// the next `n` records of input `i`.
pub open spec fn spec_written(copies: Seq<(usize, usize)>, start: spec_fn(usize) -> int) -> Seq<(usize, int)>
    decreases copies.len(),
{
    if copies.len() == 0 {
        Seq::empty()
    } else {
        let i = copies[0].0;
        let n = copies[0].1;
        Seq::new(n as nat, |k: int| (i, start(i) + k)) + spec_written(
            copies.drop_first(),
            |y: usize|
                if y == i {
                    start(y) + n
                } else {
                    start(y)
                },
        )
    }
}

/// The records of input `x` among `recs`, in order.
pub open spec fn spec_records_of(recs: Seq<(usize, int)>, x: usize) -> Seq<(usize, int)>
    decreases recs.len(),
{
    if recs.len() == 0 {
        Seq::empty()
    } else {
        (if recs[0].0 == x {
            seq![recs[0]]
        } else {
            Seq::empty()
        }) + spec_records_of(recs.drop_first(), x)
    }
}

proof fn lemma_records_of_append(a: Seq<(usize, int)>, b: Seq<(usize, int)>, x: usize)
    ensures
        spec_records_of(a + b, x) == spec_records_of(a, x) + spec_records_of(b, x),
    decreases a.len(),
{
    if a.len() == 0 {
        assert(a + b =~= b);
        assert(spec_records_of(a, x) + spec_records_of(b, x) =~= spec_records_of(b, x));
    } else {
        lemma_records_of_append(a.drop_first(), b, x);
        assert((a + b).drop_first() =~= a.drop_first() + b);
        assert((a + b)[0] == a[0]);
        let h = if a[0].0 == x {
            seq![a[0]]
        } else {
            Seq::<(usize, int)>::empty()
        };
        assert(h + (spec_records_of(a.drop_first(), x) + spec_records_of(b, x)) =~= (h + spec_records_of(
            a.drop_first(),
            x,
        )) + spec_records_of(b, x));
    }
}

proof fn lemma_records_of_run(i: usize, s: int, n: nat, x: usize)
    ensures
        spec_records_of(Seq::new(n, |k: int| (i, s + k)), x) == if i == x {
            Seq::new(n, |k: int| (i, s + k))
        } else {
            Seq::empty()
        },
    decreases n,
{
    let r = Seq::new(n, |k: int| (i, s + k));
    if n > 0 {
        lemma_records_of_run(i, s + 1, (n - 1) as nat, x);
        assert(r.drop_first() =~= Seq::new((n - 1) as nat, |k: int| (i, (s + 1) + k)));
        if i == x {
            assert(seq![r[0]] + r.drop_first() =~= r);
        } else {
            assert(Seq::<(usize, int)>::empty() + Seq::<(usize, int)>::empty() =~= Seq::<(usize, int)>::empty());
        }
    } else {
        assert(r =~= Seq::<(usize, int)>::empty());
    }
}

/// The records `copies` write of input `x` are its records from `start(x)`
/// on, each once and in order, as many as the copies take from it.
pub proof fn lemma_written_records_of(copies: Seq<(usize, usize)>, start: spec_fn(usize) -> int, x: usize)
    ensures
        spec_copied_of(copies, x) >= 0,
        spec_records_of(spec_written(copies, start), x) == Seq::new(
            spec_copied_of(copies, x) as nat,
            |k: int| (x, start(x) + k),
        ),
    decreases copies.len(),
{
    if copies.len() == 0 {
        assert(Seq::new(0nat, |k: int| (x, start(x) + k)) =~= Seq::<(usize, int)>::empty());
    } else {
        let i = copies[0].0;
        let n = copies[0].1;
        let start2 = |y: usize|
            if y == i {
                start(y) + n
            } else {
                start(y)
            };
        let head = Seq::new(n as nat, |k: int| (i, start(i) + k));
        lemma_written_records_of(copies.drop_first(), start2, x);
        lemma_records_of_append(head, spec_written(copies.drop_first(), start2), x);
        lemma_records_of_run(i, start(i), n as nat, x);
        let c2 = spec_copied_of(copies.drop_first(), x);
        if i == x {
            assert(head + Seq::new(c2 as nat, |k: int| (x, start2(x) + k)) =~= Seq::new(
                (n + c2) as nat,
                |k: int| (x, start(x) + k),
            ));
        } else {
            assert(Seq::<(usize, int)>::empty() + Seq::new(c2 as nat, |k: int| (x, start2(x) + k)) =~= Seq::new(
                c2 as nat,
                |k: int| (x, start(x) + k),
            ));
        }
    }
}

/// Interleaving inputs holding `counts` records in blocks of
/// `block_records` with seed `seed`, each input read from its start, writes
/// every record of every input exactly once and in its input's order:
/// the records written of input `x` are its records `0, 1, ...` up to its
/// count (none for an input past the list).
pub proof fn lemma_interleave_keeps_input_order(counts: Seq<usize>, block_records: usize, seed: u64, x: usize)
    requires
        block_records > 0,
        counts.len() <= usize::MAX,
        spec_weight_prefix(counts, counts.len() as int) <= usize::MAX,
    ensures
        spec_records_of(
            spec_written(spec_plan(spec_initial_schedule(counts, block_records, seed)), |y: usize| 0int),
            x,
        ) == Seq::new(
            (if x < counts.len() {
                counts[x as int] as int
            } else {
                0
            }) as nat,
            |k: int| (x, k),
        ),
{
    let plan = spec_plan(spec_initial_schedule(counts, block_records, seed));
    lemma_interleave_copies_every_record(counts, block_records, seed, x);
    lemma_written_records_of(plan, |y: usize| 0int, x);
    assert(Seq::new(spec_copied_of(plan, x) as nat, |k: int| (x, 0int + k)) =~= Seq::new(
        spec_copied_of(plan, x) as nat,
        |k: int| (x, k),
    ));
}

/// Records that `copies` take in all.
pub open spec fn spec_copied_total(copies: Seq<(usize, usize)>) -> int
    decreases copies.len(),
{
    if copies.len() == 0 {
        0
    } else {
        copies[0].1 + spec_copied_total(copies.drop_first())
    }
}

proof fn lemma_plan_total(v: ScheduleView)
    requires
        spec_schedule_wf(v),
    ensures
        spec_copied_total(spec_plan(v)) == v.remaining,
    decreases v.remaining,
{
    if v.remaining > 0 {
        lemma_next_copy_step(v);
        let t = spec_next_copy(v).1;
        lemma_plan_total(t);
        let p = seq![spec_next_copy(v).0->0] + spec_plan(t);
        assert(p.drop_first() =~= spec_plan(t));
    }
}

proof fn lemma_written_len(copies: Seq<(usize, usize)>, start: spec_fn(usize) -> int)
    ensures
        spec_written(copies, start).len() == spec_copied_total(copies),
    decreases copies.len(),
{
    if copies.len() > 0 {
        let i = copies[0].0;
        let n = copies[0].1;
        lemma_written_len(
            copies.drop_first(),
            |y: usize|
                if y == i {
                    start(y) + n
                } else {
                    start(y)
                },
        );
    }
}

/// An interleaving run writes as many records as the inputs hold in all.
pub proof fn lemma_interleave_writes_every_record(counts: Seq<usize>, block_records: usize, seed: u64)
    requires
        block_records > 0,
        counts.len() <= usize::MAX,
        spec_weight_prefix(counts, counts.len() as int) <= usize::MAX,
    ensures
        spec_written(spec_plan(spec_initial_schedule(counts, block_records, seed)), |y: usize| 0int).len()
            == spec_weight_prefix(counts, counts.len() as int),
{
    lemma_initial_streams(counts, counts.len() as int);
    lemma_weight_prefix_monotone(counts, 0, counts.len() as int);
    lemma_plan_total(spec_initial_schedule(counts, block_records, seed));
    lemma_written_len(spec_plan(spec_initial_schedule(counts, block_records, seed)), |y: usize| 0int);
}

} // verus!

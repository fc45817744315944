//! Fisher-Yates shuffling of record buffers before they are handed out.

use vstd::prelude::*;
use crate::interleave::{Rand, spec_rand_next};
use crate::shogi::packed_sfen::PackedSfenValue;

verus! {

broadcast use vstd::seq_lib::group_to_multiset_ensures;

/// `s` with positions `i` and `j` exchanged.
pub open spec fn spec_swap<T>(s: Seq<T>, i: int, j: int) -> Seq<T> {
    s.update(i, s[j]).update(j, s[i])
}

/// Records and generator state after the Fisher-Yates steps for positions
/// `i`, `i - 1`, ..., `lo` of `s`: the step for position `k` draws the next
/// value `r` of the generator and exchanges positions `k` and
/// `r % (k + 1)`.
pub open spec fn spec_shuffle_steps<T>(s: Seq<T>, state: u64, i: int, lo: int) -> (Seq<T>, u64)
    decreases i + 1,
{
    if i < lo || i < 0 || i >= s.len() {
        (s, state)
    } else {
        let r = spec_rand_next(state);
        let j = ((r as usize) % ((i + 1) as usize)) as int;
        spec_shuffle_steps(spec_swap(s, i, j), r, i - 1, lo)
    }
}

proof fn lemma_swap_keeps_multiset<T>(s: Seq<T>, i: int, j: int)
    requires
        0 <= i < s.len(),
        0 <= j < s.len(),
    ensures
        spec_swap(s, i, j).len() == s.len(),
        spec_swap(s, i, j).to_multiset() =~= s.to_multiset(),
{
    broadcast use vstd::multiset::group_multiset_axioms;

    let s1 = s.update(i, s[j]);
    if i == j {
        assert(spec_swap(s, i, j) =~= s);
    } else {
        assert(s1[j] == s[j]);
    }
}

/// The Fisher-Yates steps only rearrange the records.
pub proof fn lemma_shuffle_steps_permute<T>(s: Seq<T>, state: u64, i: int, lo: int)
    requires
        s.len() <= usize::MAX,
    ensures
        spec_shuffle_steps(s, state, i, lo).0.len() == s.len(),
        spec_shuffle_steps(s, state, i, lo).0.to_multiset() == s.to_multiset(),
    decreases i + 1,
{
    if !(i < lo || i < 0 || i >= s.len()) {
        let r = spec_rand_next(state);
        let j = ((r as usize) % ((i + 1) as usize)) as int;
        assert(0 <= j < i + 1) by (nonlinear_arith)
            requires
                j == ((r as usize) % ((i + 1) as usize)) as int,
                0 <= i,
                i + 1 <= usize::MAX,
        ;
        lemma_swap_keeps_multiset(s, i, j);
        lemma_shuffle_steps_permute(spec_swap(s, i, j), r, i - 1, lo);
    }
}

fn shuffle_down_to(data: &mut Vec<PackedSfenValue>, rng: &mut Rand, lo: usize)
    ensures
        (final(data)@, final(rng).state) == spec_shuffle_steps(
            old(data)@,
            old(rng).state,
            old(data)@.len() - 1,
            lo as int,
        ),
        final(data)@.to_multiset() == old(data)@.to_multiset(),
{
    let n = data.len();
    proof {
        lemma_shuffle_steps_permute(old(data)@, old(rng).state, old(data)@.len() - 1, lo as int);
    }
    let mut k = n;
    while k > lo
        invariant
            k <= n,
            data@.len() == n,
            spec_shuffle_steps(old(data)@, old(rng).state, n - 1, lo as int) == spec_shuffle_steps(
                data@,
                rng.state,
                k - 1,
                lo as int,
            ),
        decreases k,
    {
        let i = k - 1;
        let ghost before = data@;
        let r = rng.rand();
        let j = (r as usize) % (i + 1);
        let a = data[i];
        let b = data[j];
        data.set(i, b);
        data.set(j, a);
        assert(data@ =~= spec_swap(before, i as int, j as int));
        k = i;
    }
}

/// Shuffles a whole buffer of records with `rng`: Fisher-Yates steps for
/// every position from the last down to the first.
pub fn shuffle(data: &mut Vec<PackedSfenValue>, rng: &mut Rand)
    ensures
        (final(data)@, final(rng).state) == spec_shuffle_steps(old(data)@, old(rng).state, old(data)@.len() - 1, 0),
        final(data)@.to_multiset() == old(data)@.to_multiset(),
{
    shuffle_down_to(data, rng, 0);
}

/// Shuffles a buffer of records with `rng`: Fisher-Yates steps from the
/// last position down to the second (the first position draws nothing).
pub fn shuffle_from_one(data: &mut Vec<PackedSfenValue>, rng: &mut Rand)
    ensures
        (final(data)@, final(rng).state) == spec_shuffle_steps(old(data)@, old(rng).state, old(data)@.len() - 1, 1),
        final(data)@.to_multiset() == old(data)@.to_multiset(),
{
    shuffle_down_to(data, rng, 1);
}

/// The buffering of the loaders: records that pass the filter are skipped
/// until `to_skip` of them have gone by (resuming), then gathered in a
/// buffer that is shuffled and handed out whenever it holds `buffer_size`
/// records. The shuffle takes Fisher-Yates steps from the last position
/// down to position `shuffle_to` (0 as [`shuffle`] does, 1 as
/// [`shuffle_from_one`] does).
pub struct RecordChunker {
    pub to_skip: usize,
    pub skipped: usize,
    pub buffer_size: usize,
    pub shuffle_to: usize,
    pub buffer: Vec<PackedSfenValue>,
    pub rng: Rand,
}

impl RecordChunker {
    /// A chunker that skips the first `to_skip` passing records and hands
    /// out `buffer_size` records at a time, shuffled with `rng` down to
    /// position `shuffle_to`.
    pub fn new(to_skip: usize, buffer_size: usize, shuffle_to: usize, rng: Rand) -> (r: RecordChunker)
        ensures
            r.to_skip == to_skip,
            r.skipped == 0,
            r.buffer_size == buffer_size,
            r.shuffle_to == shuffle_to,
            r.buffer@ == Seq::<PackedSfenValue>::empty(),
            r.rng == rng,
    {
        RecordChunker { to_skip, skipped: 0, buffer_size, shuffle_to, buffer: Vec::new(), rng }
    }

    /// Takes a record that passed the filter (`passed`) or not. A record
    /// that failed is dropped; a passing one is skipped while fewer than
    /// `to_skip` have been skipped, else appended to the buffer. When the
    /// buffer then holds `buffer_size` records or more it is shuffled (see
    /// [`spec_shuffle_steps`]) and `true` is returned: the buffer is a chunk
    /// to hand out, and [`RecordChunker::clear`] starts the next.
    pub fn accept(&mut self, psv: PackedSfenValue, passed: bool) -> (flush: bool)
        requires
            old(self).skipped <= old(self).to_skip,
        ensures
            final(self).to_skip == old(self).to_skip,
            final(self).buffer_size == old(self).buffer_size,
            final(self).shuffle_to == old(self).shuffle_to,
            final(self).skipped <= final(self).to_skip,
            !passed ==> !flush && *final(self) == *old(self),
            passed && old(self).skipped < old(self).to_skip ==> !flush && final(self).skipped == old(self).skipped
                + 1 && final(self).buffer@ == old(self).buffer@ && final(self).rng == old(self).rng,
            passed && old(self).skipped == old(self).to_skip ==> {
                let pushed = old(self).buffer@.push(psv);
                &&& final(self).skipped == old(self).skipped
                &&& flush == (pushed.len() >= old(self).buffer_size)
                &&& flush ==> (final(self).buffer@, final(self).rng.state) == spec_shuffle_steps(
                    pushed,
                    old(self).rng.state,
                    pushed.len() - 1,
                    old(self).shuffle_to as int,
                )
                &&& !flush ==> final(self).buffer@ == pushed && final(self).rng == old(self).rng
            },
    {
        if !passed {
            return false;
        }
        if self.skipped < self.to_skip {
            self.skipped = self.skipped + 1;
            return false;
        }
        self.buffer.push(psv);
        if self.buffer.len() >= self.buffer_size {
            shuffle_down_to(&mut self.buffer, &mut self.rng, self.shuffle_to);
            true
        } else {
            false
        }
    }

    /// Empties the buffer after a chunk was handed out.
    pub fn clear(&mut self)
        ensures
            final(self).buffer@ == Seq::<PackedSfenValue>::empty(),
            final(self).to_skip == old(self).to_skip,
            final(self).skipped == old(self).skipped,
            final(self).buffer_size == old(self).buffer_size,
            final(self).shuffle_to == old(self).shuffle_to,
            final(self).rng == old(self).rng,
    {
        self.buffer.clear();
    }

    /// At the end of the data: `true` when records are left in the buffer,
    /// which is then shuffled and is the last chunk to hand out.
    pub fn finish(&mut self) -> (flush: bool)
        ensures
            final(self).to_skip == old(self).to_skip,
            final(self).skipped == old(self).skipped,
            final(self).buffer_size == old(self).buffer_size,
            final(self).shuffle_to == old(self).shuffle_to,
            flush == (old(self).buffer@.len() > 0),
            flush ==> (final(self).buffer@, final(self).rng.state) == spec_shuffle_steps(
                old(self).buffer@,
                old(self).rng.state,
                old(self).buffer@.len() - 1,
                old(self).shuffle_to as int,
            ),
            !flush ==> *final(self) == *old(self),
    {
        if self.buffer.len() > 0 {
            shuffle_down_to(&mut self.buffer, &mut self.rng, self.shuffle_to);
            true
        } else {
            false
        }
    }
}

} // verus!

//! Held-out validation: which teacher records enter the sign accuracy and
//! the loss, and reproducible sampling of record indices.

use vstd::prelude::*;
use crate::loader::hcpe::HCPE_RECORD_SIZE;
use crate::loader::pack::PACKED_SFEN_VALUE_SIZE;
use crate::teacher_path::{
    DataFormat, infer_data_format_from_extensions, path_extension, spec_portable_path, spec_ext_views,
    spec_path_extension, spec_format_name, spec_infer_data_format, spec_opt_view, spec_str_ieq, spec_str_views,
    str_ieq,
};
use crate::text::{concat_strs, decimal_string, spec_decimal};

verus! {

/// The records of a validation set that enter its statistics.
#[derive(Clone, Debug, PartialEq, Eq)]
pub struct ValidationSampleMask {
    /// Records used for the value-sign accuracy: not score-capped, not drawn.
    pub accuracy_indices: Vec<usize>,
    /// Records used for the value loss: not score-capped.
    pub loss_indices: Vec<usize>,
    /// Records left out of the accuracy as draws.
    pub drawn_games: usize,
    /// Records left out by the score cap.
    pub filtered_by_score_cap: usize,
}

impl ValidationSampleMask {
    /// Number of records compared for the accuracy.
    pub fn compared(&self) -> (r: usize)
        ensures
            r == self.accuracy_indices@.len(),
    {
        self.accuracy_indices.len()
    }

    /// Number of records sampled for the loss.
    pub fn loss_sampled(&self) -> (r: usize)
        ensures
            r == self.loss_indices@.len(),
    {
        self.loss_indices.len()
    }
}

/// Record `i` is cut by the score cap: its score's magnitude reaches `cap`.
pub open spec fn spec_capped(score: i16, cap: Option<u16>) -> bool {
    match cap {
        Some(c) => (if score < 0 {
            -score
        } else {
            score as int
        }) >= c,
        None => false,
    }
}

/// Record `i` is a draw: its result is 0 when there are results, else its
/// score is 0.
pub open spec fn spec_is_draw(scores: Seq<i16>, results: Seq<i8>, i: int) -> bool {
    if results.len() > 0 {
        results[i] == 0
    } else {
        scores[i] == 0
    }
}

/// Mask of the first `n` records: (accuracy indices, loss indices, draws,
/// capped).
pub open spec fn spec_mask_upto(scores: Seq<i16>, results: Seq<i8>, cap: Option<u16>, n: int) -> (
    Seq<usize>,
    Seq<usize>,
    int,
    int,
)
    decreases n,
{
    if n <= 0 {
        (Seq::empty(), Seq::empty(), 0, 0)
    } else {
        let (acc, loss, drawn, capped) = spec_mask_upto(scores, results, cap, n - 1);
        let i = n - 1;
        if spec_capped(scores[i], cap) {
            (acc, loss, drawn, capped + 1)
        } else if spec_is_draw(scores, results, i) {
            (acc, loss.push(i as usize), drawn + 1, capped)
        } else {
            (acc.push(i as usize), loss.push(i as usize), drawn, capped)
        }
    }
}

proof fn lemma_mask_counts(scores: Seq<i16>, results: Seq<i8>, cap: Option<u16>, n: int)
    requires
        0 <= n,
    ensures
        spec_mask_upto(scores, results, cap, n).2 + spec_mask_upto(scores, results, cap, n).3 + spec_mask_upto(
            scores,
            results,
            cap,
            n,
        ).0.len() <= n,
        spec_mask_upto(scores, results, cap, n).1.len() <= n,
    decreases n,
{
    if n > 0 {
        lemma_mask_counts(scores, results, cap, n - 1);
    }
}

/// Record `i` is cut by the score cap `cap`: there is a cap and the
/// magnitude of its score reaches it.
pub open spec fn spec_cut_by(scores: Seq<i16>, cap: Option<u16>, i: int) -> bool {
    cap is Some && (scores[i] >= cap->0 || -scores[i] >= cap->0)
}

/// Record `i` counts as drawn: its result is 0, or its score is 0 when
/// there are no results.
pub open spec fn spec_drawn(scores: Seq<i16>, results: Seq<i8>, i: int) -> bool {
    (results.len() > 0 && results[i] == 0) || (results.len() == 0 && scores[i] == 0)
}

/// The mask of the first `n` records splits them: every record not cut by
/// the score cap enters the loss, draws included, in record order, and the
/// cut ones are counted apart; of the loss records, those not drawn enter
/// the accuracy, in order, and the drawn ones are counted apart.
pub proof fn lemma_mask_splits_records(scores: Seq<i16>, results: Seq<i8>, cap: Option<u16>, n: int)
    requires
        0 <= n <= scores.len(),
        n <= usize::MAX,
        results.len() == 0 || results.len() == scores.len(),
    ensures
        ({
            let m = spec_mask_upto(scores, results, cap, n);
            &&& m.1.len() + m.3 == n
            &&& m.0.len() + m.2 == m.1.len()
            &&& forall|i: int| 0 <= i < n ==> (m.1.contains(i as usize) <==> !spec_cut_by(scores, cap, i))
            &&& forall|i: int|
                0 <= i < n ==> (m.0.contains(i as usize) <==> !spec_cut_by(scores, cap, i) && !spec_drawn(
                    scores,
                    results,
                    i,
                ))
            &&& forall|k: int| 0 <= k < m.1.len() ==> (#[trigger] m.1[k]) < n
            &&& forall|k: int| 0 <= k < m.0.len() ==> (#[trigger] m.0[k]) < n
            &&& forall|a: int, b: int| 0 <= a < b < m.1.len() ==> m.1[a] < m.1[b]
            &&& forall|a: int, b: int| 0 <= a < b < m.0.len() ==> m.0[a] < m.0[b]
        }),
    decreases n,
{
    if n > 0 {
        lemma_mask_splits_records(scores, results, cap, n - 1);
        let p = spec_mask_upto(scores, results, cap, n - 1);
        let m = spec_mask_upto(scores, results, cap, n);
        let j = n - 1;
        assert(spec_capped(scores[j], cap) == spec_cut_by(scores, cap, j));
        assert(spec_is_draw(scores, results, j) == spec_drawn(scores, results, j));
        assert forall|i: int| 0 <= i < n implies (m.1.contains(i as usize) <==> !spec_cut_by(scores, cap, i)) by {
            if i < j {
                if m.1.contains(i as usize) {
                    let k = choose|k: int| 0 <= k < m.1.len() && m.1[k] == i as usize;
                    if k < p.1.len() {
                        assert(p.1[k] == m.1[k]);
                    }
                }
                if p.1.contains(i as usize) {
                    let k = choose|k: int| 0 <= k < p.1.len() && p.1[k] == i as usize;
                    assert(m.1[k] == p.1[k]);
                }
            } else {
                if !spec_cut_by(scores, cap, j) {
                    assert(m.1[m.1.len() - 1] == j as usize);
                } else if m.1.contains(i as usize) {
                    let k = choose|k: int| 0 <= k < m.1.len() && m.1[k] == i as usize;
                    assert(p.1[k] < j);
                }
            }
        }
        assert forall|i: int|
            0 <= i < n implies (m.0.contains(i as usize) <==> !spec_cut_by(scores, cap, i) && !spec_drawn(
                scores,
                results,
                i,
            )) by {
            if i < j {
                if m.0.contains(i as usize) {
                    let k = choose|k: int| 0 <= k < m.0.len() && m.0[k] == i as usize;
                    if k < p.0.len() {
                        assert(p.0[k] == m.0[k]);
                    }
                }
                if p.0.contains(i as usize) {
                    let k = choose|k: int| 0 <= k < p.0.len() && p.0[k] == i as usize;
                    assert(m.0[k] == p.0[k]);
                }
            } else {
                if !spec_cut_by(scores, cap, j) && !spec_drawn(scores, results, j) {
                    assert(m.0[m.0.len() - 1] == j as usize);
                } else if m.0.contains(i as usize) {
                    let k = choose|k: int| 0 <= k < m.0.len() && m.0[k] == i as usize;
                    assert(p.0[k] < j);
                }
            }
        }
    }
}

/// The validation mask of a set of teacher scores and results (results may
/// be empty): records whose score magnitude reaches the cap are left out;
/// the rest enter the loss, and those that are not draws the accuracy.
pub fn build_validation_sample_mask(
    teacher_scores: &[i16],
    teacher_results: &[i8],
    score_drop_abs: Option<u16>,
) -> (r: ValidationSampleMask)
    requires
        teacher_results@.len() == 0 || teacher_results@.len() == teacher_scores@.len(),
    ensures
        r.accuracy_indices@ == spec_mask_upto(teacher_scores@, teacher_results@, score_drop_abs, teacher_scores@.len() as int).0,
        r.loss_indices@ == spec_mask_upto(teacher_scores@, teacher_results@, score_drop_abs, teacher_scores@.len() as int).1,
        r.drawn_games == spec_mask_upto(teacher_scores@, teacher_results@, score_drop_abs, teacher_scores@.len() as int).2,
        r.filtered_by_score_cap == spec_mask_upto(
            teacher_scores@,
            teacher_results@,
            score_drop_abs,
            teacher_scores@.len() as int,
        ).3,
        r.loss_indices@.len() + r.filtered_by_score_cap == teacher_scores@.len(),
        r.accuracy_indices@.len() + r.drawn_games == r.loss_indices@.len(),
        forall|i: int|
            0 <= i < teacher_scores@.len() ==> (r.loss_indices@.contains(i as usize) <==> !spec_cut_by(
                teacher_scores@,
                score_drop_abs,
                i,
            )),
        forall|i: int|
            0 <= i < teacher_scores@.len() ==> (r.accuracy_indices@.contains(i as usize) <==> !spec_cut_by(
                teacher_scores@,
                score_drop_abs,
                i,
            ) && !spec_drawn(teacher_scores@, teacher_results@, i)),
{
    let count = teacher_scores.len();
    proof {
        lemma_mask_splits_records(teacher_scores@, teacher_results@, score_drop_abs, count as int);
    }
    let have_results = teacher_results.len() > 0;
    let mut acc: Vec<usize> = Vec::new();
    let mut loss: Vec<usize> = Vec::new();
    let mut drawn: usize = 0;
    let mut capped: usize = 0;
    let mut i: usize = 0;
    while i < teacher_scores.len()
        invariant
            i <= teacher_scores@.len(),
            have_results == (teacher_results@.len() > 0),
            teacher_results@.len() == 0 || teacher_results@.len() == teacher_scores@.len(),
            (acc@, loss@, drawn as int, capped as int) == spec_mask_upto(
                teacher_scores@,
                teacher_results@,
                score_drop_abs,
                i as int,
            ),
        decreases teacher_scores@.len() - i,
    {
        proof {
            lemma_mask_counts(teacher_scores@, teacher_results@, score_drop_abs, i as int);
        }
        let s = teacher_scores[i];
        let mag: u16 = if s < 0 {
            (0i32 - s as i32) as u16
        } else {
            s as u16
        };
        let is_capped = match score_drop_abs {
            Some(c) => mag >= c,
            None => false,
        };
        if is_capped {
            capped = capped + 1;
        } else {
            loss.push(i);
            let is_draw = if have_results {
                teacher_results[i] == 0
            } else {
                s == 0
            };
            if is_draw {
                drawn = drawn + 1;
            } else {
                acc.push(i);
            }
        }
        i = i + 1;
    }
    ValidationSampleMask { accuracy_indices: acc, loss_indices: loss, drawn_games: drawn, filtered_by_score_cap: capped }
}

/// Next state (and output) of the xorshift64 generator of the sampler.
pub open spec fn spec_sampler_next(state: u64) -> u64 {
    let s1 = state ^ (state << 13u64);
    let s2 = s1 ^ (s1 >> 7u64);
    s2 ^ (s2 << 17u64)
}

/// The xorshift64 generator that draws validation samples; its state is
/// never zero.
#[derive(Clone, Copy, Debug)]
pub struct SeededXorShift(pub u64);

/// Nanoseconds since the Unix epoch by `std::time::SystemTime::now`, cut to
/// 64 bits; `None` when the clock stands before the epoch. The value
/// depends on the clock, so nothing is claimed of it.
#[verifier::external_body]
fn clock_nanos() -> (r: Option<u64>) {
    match std::time::SystemTime::now().duration_since(std::time::UNIX_EPOCH) {
        Ok(d) => Some(d.as_nanos() as u64),
        Err(_) => None,
    }
}

/// Seed made from a clock reading: the nanoseconds with the low bit set,
/// or a fixed value with the low bit set when there is no reading.
pub open spec fn spec_seed_from_reading(reading: Option<u64>) -> u64 {
    match reading {
        Some(n) => n | 1u64,
        None => 0xDEADBEEFCAFEBABEu64 | 1u64,
    }
}

/// Seed made from a clock reading (see [`spec_seed_from_reading`]); odd, so
/// never zero.
pub fn seed_from_clock_reading(reading: Option<u64>) -> (r: u64)
    ensures
        r == spec_seed_from_reading(reading),
        r % 2 == 1,
{
    let s = match reading {
        Some(n) => n,
        None => 0xDEADBEEFCAFEBABEu64,
    };
    let t = s | 1u64;
    assert(t % 2 == 1) by (bit_vector)
        requires
            t == s | 1u64,
    ;
    t
}

impl SeededXorShift {
    /// A generator seeded with `seed`; seed 0 asks for a clock-based seed,
    /// so that each run draws another sample.
    pub fn from_seed(seed: u64) -> (r: SeededXorShift)
        ensures
            seed != 0 ==> r.0 == seed,
            seed == 0 ==> exists|reading: Option<u64>| r.0 == spec_seed_from_reading(reading),
            seed == 0 ==> r.0 % 2 == 1,
            r.0 != 0,
    {
        if seed == 0 {
            let reading = clock_nanos();
            let t = seed_from_clock_reading(reading);
            SeededXorShift(t)
        } else {
            SeededXorShift(seed)
        }
    }

    /// Advances the generator and returns its new state.
    pub fn next_u64(&mut self) -> (r: u64)
        ensures
            r == spec_sampler_next(old(self).0),
            final(self).0 == r,
    {
        self.0 = self.0 ^ (self.0 << 13u64);
        self.0 = self.0 ^ (self.0 >> 7u64);
        self.0 = self.0 ^ (self.0 << 17u64);
        self.0
    }
}

/// `s` is strictly increasing.
pub open spec fn spec_strictly_increasing(s: Seq<usize>) -> bool {
    forall|i: int, j: int| 0 <= i < j < s.len() ==> s[i] < s[j]
}

/// Inserts `x` into the strictly increasing `s` when absent; whether it
/// was absent.
fn insert_sorted(s: &mut Vec<usize>, x: usize) -> (r: bool)
    requires
        spec_strictly_increasing(old(s)@),
    ensures
        spec_strictly_increasing(final(s)@),
        r == !old(s)@.contains(x),
        final(s)@.to_set() == old(s)@.to_set().insert(x),
        final(s)@.len() == old(s)@.len() + if r {
            1int
        } else {
            0
        },
{
    let mut k: usize = 0;
    while k < s.len() && s[k] < x
        invariant
            k <= s@.len(),
            s@ == old(s)@,
            forall|t: int| 0 <= t < k ==> s@[t] < x,
        decreases s@.len() - k,
    {
        k = k + 1;
    }
    if k < s.len() && s[k] == x {
        assert(s@.to_set().insert(x) =~= s@.to_set());
        return false;
    }
    let ghost before = s@;
    s.insert(k, x);
    assert(!before.contains(x)) by {
        if before.contains(x) {
            let t = choose|t: int| 0 <= t < before.len() && before[t] == x;
            if t < k {
            } else {
                assert(before[k as int] <= before[t]);
            }
        }
    }
    assert(s@ =~= before.subrange(0, k as int).push(x) + before.subrange(k as int, before.len() as int));
    assert(s@.to_set() =~= before.to_set().insert(x)) by {
        assert forall|y: usize| s@.to_set().contains(y) <==> before.to_set().insert(x).contains(y) by {
            assert(s@[k as int] == x);
            assert(s@.to_set().contains(y) <==> s@.contains(y));
            assert(before.to_set().contains(y) <==> before.contains(y));
            if y == x {
                assert(s@.contains(y));
            }
            if s@.contains(y) {
                let t = choose|t: int| 0 <= t < s@.len() && s@[t] == y;
                if t < k {
                    assert(before[t] == y);
                } else if t > k {
                    assert(before[t - 1] == y);
                }
            }
            if before.contains(y) {
                let t = choose|t: int| 0 <= t < before.len() && before[t] == y;
                if t < k {
                    assert(s@[t] == y);
                } else {
                    assert(s@[t + 1] == y);
                }
            }
        }
    }
    true
}

/// Floyd's sampling of `n` of `total` records from generator state `s0`,
/// after its first `k` steps: the chosen set and the generator state. Step
/// `t` draws `pick = next % (j + 1)` with `j = total - n + t`, and adds
/// `pick`, or `j` when `pick` was already chosen.
pub open spec fn spec_floyd(total: int, n: int, s0: u64, k: nat) -> (Set<usize>, u64)
    decreases k,
{
    if k == 0 {
        (Set::empty(), s0)
    } else {
        let prev = spec_floyd(total, n, s0, (k - 1) as nat);
        let j = total - n + k - 1;
        let x = spec_sampler_next(prev.1);
        let pick = ((x as usize) as int % (j + 1)) as usize;
        if prev.0.contains(pick) {
            (prev.0.insert(j as usize), x)
        } else {
            (prev.0.insert(pick), x)
        }
    }
}

/// Indices of `n` of `total_records` records drawn without replacement by
/// Floyd's algorithm from the generator seeded with `seed` (see
/// [`SeededXorShift::from_seed`]), ascending; all records when there are at
/// most `n`.
pub fn sample_record_indices(total_records: usize, n: usize, seed: u64) -> (r: Vec<usize>)
    ensures
        r@.len() == if total_records <= n {
            total_records as int
        } else {
            n as int
        },
        spec_strictly_increasing(r@),
        forall|i: int| 0 <= i < r@.len() ==> r@[i] < total_records,
        total_records <= n ==> forall|i: int| 0 <= i < r@.len() ==> r@[i] == i,
        total_records > n && seed != 0 ==> r@.to_set() == spec_floyd(
            total_records as int,
            n as int,
            seed,
            n as nat,
        ).0,
        total_records > n ==> exists|s: u64|
            #![trigger spec_floyd(total_records as int, n as int, s, n as nat)]
            s != 0 && r@.to_set() == spec_floyd(total_records as int, n as int, s, n as nat).0,
{
    let mut out: Vec<usize> = Vec::new();
    if total_records <= n {
        let mut i: usize = 0;
        while i < total_records
            invariant
                i <= total_records,
                out@.len() == i,
                forall|k: int| 0 <= k < i ==> out@[k] == k,
            decreases total_records - i,
        {
            out.push(i);
            i = i + 1;
        }
        return out;
    }
    let mut rng = SeededXorShift::from_seed(seed);
    let ghost s0 = rng.0;
    let mut j: usize = total_records - n;
    assert(out@.to_set() =~= Set::<usize>::empty());
    while j < total_records
        invariant
            seed != 0 ==> s0 == seed,
            s0 != 0,
            out@.to_set() == spec_floyd(total_records as int, n as int, s0, (j - (total_records - n)) as nat).0,
            rng.0 == spec_floyd(total_records as int, n as int, s0, (j - (total_records - n)) as nat).1,
            total_records - n <= j <= total_records,
            n < total_records,
            out@.len() == j - (total_records - n),
            spec_strictly_increasing(out@),
            forall|i: int| 0 <= i < out@.len() ==> out@[i] < j,
        decreases total_records - j,
    {
        let x = rng.next_u64();
        let pick = (x as usize) % (j + 1);
        let ghost before = out@;
        let fresh = insert_sorted(&mut out, pick);
        if !fresh {
            let ghost mid = out@;
            let added = insert_sorted(&mut out, j);
            assert(!mid.contains(j)) by {
                if mid.contains(j) {
                    let t = choose|t: int| 0 <= t < mid.len() && mid[t] == j;
                    assert(mid.to_set().contains(j));
                    assert(before.to_set().contains(j));
                    let u = choose|u: int| 0 <= u < before.len() && before[u] == j;
                }
            }
        }
        assert forall|i: int| 0 <= i < out@.len() implies out@[i] < j + 1 by {
            assert(out@.to_set().contains(out@[i]));
            if before.contains(out@[i]) {
                let u = choose|u: int| 0 <= u < before.len() && before[u] == out@[i];
            }
        }
        proof {
            let k = (j - (total_records - n)) as nat;
            let prev = spec_floyd(total_records as int, n as int, s0, k);
            assert(spec_floyd(total_records as int, n as int, s0, (k + 1) as nat) == {
                let x2 = spec_sampler_next(prev.1);
                let pick2 = ((x2 as usize) as int % (j + 1)) as usize;
                if prev.0.contains(pick2) {
                    (prev.0.insert(j as usize), x2)
                } else {
                    (prev.0.insert(pick2), x2)
                }
            });
            assert(before.to_set().contains(pick) <==> before.contains(pick));
        }
        j = j + 1;
    }
    assert((j - (total_records - n)) as nat == n as nat);
    assert(out@.to_set() == spec_floyd(total_records as int, n as int, s0, n as nat).0);
    out
}

/// Bytes of a record of a fixed-record format; none for the game formats.
pub open spec fn spec_fixed_record_size(format: DataFormat) -> Option<usize> {
    match format {
        DataFormat::Hcpe => Some(38usize),
        DataFormat::Psv => Some(40usize),
        _ => None,
    }
}

pub fn fixed_record_size(format: DataFormat) -> (r: Option<usize>)
    ensures
        r == spec_fixed_record_size(format),
{
    match format {
        DataFormat::Hcpe => Some(HCPE_RECORD_SIZE),
        DataFormat::Psv => Some(PACKED_SFEN_VALUE_SIZE),
        DataFormat::Hcpe3 | DataFormat::Pack => None,
    }
}

/// Name of the record size of a format, as error messages write it.
pub open spec fn spec_fixed_record_size_name(format: DataFormat) -> Seq<char> {
    match format {
        DataFormat::Hcpe => "HCPE_RECORD_SIZE"@,
        DataFormat::Psv => "PSV_RECORD_SIZE"@,
        _ => "record size"@,
    }
}

pub fn fixed_record_size_name(format: DataFormat) -> (r: &'static str)
    ensures
        r@ == spec_fixed_record_size_name(format),
{
    match format {
        DataFormat::Hcpe => "HCPE_RECORD_SIZE",
        DataFormat::Psv => "PSV_RECORD_SIZE",
        DataFormat::Hcpe3 | DataFormat::Pack => "record size",
    }
}

/// A fixed-record teacher file: its path, the index of its first record
/// among all files, and its number of records.
#[derive(Clone, Debug)]
pub struct FixedTeacherFile {
    pub path: String,
    pub start_record: usize,
    pub records: usize,
}

/// Why laying out files failed: a file too large to index, a size that is
/// not a whole number of records, or a record count that overflows.
#[derive(Clone, Copy, Debug, PartialEq, Eq, Structural)]
pub enum LayoutError {
    TooLarge,
    NotMultiple,
    Overflow,
}

/// Layout of the first `n` files of byte sizes `sizes` with records of
/// `rs` bytes: each file's (first record, records) and the total, or the
/// first failing file and why.
pub open spec fn spec_layout(sizes: Seq<u64>, rs: int, n: int) -> Result<(Seq<(int, int)>, int), (int, LayoutError)>
    decreases n,
{
    if n <= 0 {
        Ok((Seq::empty(), 0))
    } else {
        match spec_layout(sizes, rs, n - 1) {
            Err(e) => Err(e),
            Ok((files, total)) => {
                let size = sizes[n - 1] as int;
                if size > usize::MAX {
                    Err((n - 1, LayoutError::TooLarge))
                } else if size % rs != 0 {
                    Err((n - 1, LayoutError::NotMultiple))
                } else if total + size / rs > usize::MAX {
                    Err((n - 1, LayoutError::Overflow))
                } else {
                    Ok((files.push((total, size / rs)), total + size / rs))
                }
            },
        }
    }
}

/// Message of a layout failure of file `path` of byte size `size`.
pub open spec fn spec_layout_message(e: LayoutError, path: Seq<char>, size: u64, format: DataFormat, rs: int) -> Seq<
    char,
> {
    match e {
        LayoutError::TooLarge => path + ": file is too large to index on this platform"@,
        LayoutError::NotMultiple => path + ": size "@ + spec_decimal(size as nat) + " is not a multiple of "@
            + spec_fixed_record_size_name(format) + " ("@ + spec_decimal(rs as nat) + ") \u{2014} not a valid "@
            + spec_format_name(format) + " file?"@,
        LayoutError::Overflow => "teacher record count overflow"@,
    }
}

/// Layout of fixed-record teacher files `paths` of byte sizes `sizes` in
/// `format` (see [`spec_layout`]): the files, the total number of records
/// and the record size; the message of the first failure otherwise.
pub fn fixed_teacher_files(paths: &[String], sizes: &[u64], format: DataFormat) -> (r: Result<
    (Vec<FixedTeacherFile>, usize, usize),
    String,
>)
    requires
        paths@.len() == sizes@.len(),
        spec_fixed_record_size(format) is Some,
    ensures
        ({
            let rs = spec_fixed_record_size(format)->0 as int;
            match spec_layout(sizes@, rs, sizes@.len() as int) {
                Ok((files, total)) => r matches Ok((fs, t, size)) && {
                    &&& t == total
                    &&& size == rs
                    &&& fs@.len() == files.len()
                    &&& forall|k: int|
                        0 <= k < files.len() ==> {
                            &&& (#[trigger] fs@[k]).path@ == paths@[k]@
                            &&& fs@[k].start_record == files[k].0
                            &&& fs@[k].records == files[k].1
                        }
                },
                Err((k, e)) => r matches Err(m) && m@ == spec_layout_message(e, paths@[k]@, sizes@[k], format, rs),
            }
        }),
{
    let record_size = match fixed_record_size(format) {
        Some(s) => s,
        None => {
            return Err("unreachable".to_owned());
        },
    };
    let ghost rs = record_size as int;
    let mut files: Vec<FixedTeacherFile> = Vec::new();
    let mut total: usize = 0;
    let mut i: usize = 0;
    while i < paths.len()
        invariant
            i <= paths@.len(),
            paths@.len() == sizes@.len(),
            rs == record_size,
            files@.len() == i,
            record_size == 38 || record_size == 40,
            spec_fixed_record_size(format) == Some(record_size),
            spec_layout(sizes@, rs, i as int) matches Ok((fl, t)) && {
                &&& t == total
                &&& files@.len() == fl.len()
                &&& forall|k: int|
                    0 <= k < fl.len() ==> {
                        &&& (#[trigger] files@[k]).path@ == paths@[k]@
                        &&& files@[k].start_record == fl[k].0
                        &&& files@[k].records == fl[k].1
                    }
            },
        decreases paths@.len() - i,
    {
        proof {
            lemma_layout_err_stays(sizes@, rs, i as int + 1, sizes@.len() as int);
        }
        let size = sizes[i];
        if size > usize::MAX as u64 {
            return Err(concat_strs(paths[i].as_str(), ": file is too large to index on this platform"));
        }
        let file_size = size as usize;
        if file_size % record_size != 0 {
            let a = concat_strs(paths[i].as_str(), ": size ");
            let b = concat_strs(a.as_str(), decimal_string(file_size).as_str());
            let c = concat_strs(b.as_str(), " is not a multiple of ");
            let d = concat_strs(c.as_str(), fixed_record_size_name(format));
            let e = concat_strs(d.as_str(), " (");
            let f = concat_strs(e.as_str(), decimal_string(record_size).as_str());
            let g = concat_strs(f.as_str(), ") \u{2014} not a valid ");
            let h = concat_strs(g.as_str(), format.name());
            return Err(concat_strs(h.as_str(), " file?"));
        }
        let records = file_size / record_size;
        if records > usize::MAX - total {
            return Err("teacher record count overflow".to_owned());
        }
        let ghost fl = match spec_layout(sizes@, rs, i as int) {
            Ok((a, _)) => a,
            Err(_) => Seq::empty(),
        };
        assert(spec_layout(sizes@, rs, i as int + 1) == Ok::<(Seq<(int, int)>, int), (int, LayoutError)>(
            (fl.push((total as int, records as int)), total + records),
        ));
        let path = paths[i].clone();
        assert(path == paths@[i as int]);
        let ghost before = files@;
        files.push(FixedTeacherFile { path, start_record: total, records });
        assert forall|k: int| 0 <= k < fl.len() + 1 implies {
            &&& (#[trigger] files@[k]).path@ == paths@[k]@
            &&& files@[k].start_record == fl.push((total as int, records as int))[k].0
            &&& files@[k].records == fl.push((total as int, records as int))[k].1
        } by {
            if k < fl.len() {
                assert(files@[k] == before[k]);
            }
        }
        total = total + records;
        i = i + 1;
    }
    Ok((files, total, record_size))
}

/// A failure among the first `a` files is the failure among the first `b`.
proof fn lemma_layout_err_stays(sizes: Seq<u64>, rs: int, a: int, b: int)
    requires
        0 <= a <= b,
    ensures
        spec_layout(sizes, rs, a) is Err ==> spec_layout(sizes, rs, b) == spec_layout(sizes, rs, a),
    decreases b - a,
{
    if a < b {
        lemma_layout_err_stays(sizes, rs, a, b - 1);
    }
}

/// Record `idx` ends the walk through the files from file `f`: the walk
/// moves on while another file follows and `idx` lies at or past the end
/// of the current one.
pub open spec fn spec_advance(files: Seq<FixedTeacherFile>, f: int, idx: int) -> int
    decreases files.len() - f,
{
    if 0 <= f && f + 1 < files.len() && idx >= spec_sat_end(files[f]) {
        spec_advance(files, f + 1, idx)
    } else {
        f
    }
}

/// End of a file's records, saturating at `usize::MAX`.
pub open spec fn spec_sat_end(file: FixedTeacherFile) -> int {
    if file.start_record + file.records > usize::MAX {
        usize::MAX as int
    } else {
        file.start_record + file.records
    }
}

/// Why locating a record failed: an index before its file's first record,
/// or a byte offset past `u64`.
#[derive(Clone, Copy, Debug, PartialEq, Eq, Structural)]
pub enum LocateError {
    Underflow,
    OffsetOverflow,
}

/// Locations (file, byte offset) of `idxs[k..]` with the walk at file `f`,
/// records of `rs` bytes; or the failing file and why.
pub open spec fn spec_locate(files: Seq<FixedTeacherFile>, rs: int, idxs: Seq<usize>, k: int, f: int) -> Result<
    Seq<(usize, u64)>,
    (int, LocateError),
>
    decreases idxs.len() - k,
{
    if k < 0 || k >= idxs.len() {
        Ok(Seq::empty())
    } else {
        let g = spec_advance(files, f, idxs[k] as int);
        let local = idxs[k] - files[g].start_record;
        if local < 0 {
            Err((g, LocateError::Underflow))
        } else if local * rs > u64::MAX {
            Err((g, LocateError::OffsetOverflow))
        } else {
            match spec_locate(files, rs, idxs, k + 1, g) {
                Err(e) => Err(e),
                Ok(rest) => Ok(seq![(g as usize, (local * rs) as u64)] + rest),
            }
        }
    }
}

/// Message of a locating failure in file `path`.
pub open spec fn spec_locate_message(e: LocateError, path: Seq<char>) -> Seq<char> {
    match e {
        LocateError::Underflow => "internal validation sampler index underflow for "@ + path,
        LocateError::OffsetOverflow => "record offset overflow"@,
    }
}

/// Where the records `indices` lie in `files` (records of `record_size`
/// bytes): for each, the file and the byte offset in it, found by a walk
/// that only moves forward (see [`spec_locate`]).
pub fn locate_records(files: &Vec<FixedTeacherFile>, record_size: usize, indices: &[usize]) -> (r: Result<
    Vec<(usize, u64)>,
    String,
>)
    requires
        files@.len() > 0,
    ensures
        match spec_locate(files@, record_size as int, indices@, 0, 0) {
            Ok(locs) => r matches Ok(v) && v@ == locs,
            Err((g, e)) => r matches Err(m) && m@ == spec_locate_message(e, files@[g].path@),
        },
{
    let mut out: Vec<(usize, u64)> = Vec::new();
    let mut f: usize = 0;
    let mut k: usize = 0;
    while k < indices.len()
        invariant
            files@.len() > 0,
            k <= indices@.len(),
            f < files@.len(),
            spec_locate(files@, record_size as int, indices@, 0, 0) == match spec_locate(
                files@,
                record_size as int,
                indices@,
                k as int,
                f as int,
            ) {
                Err(e) => Err(e),
                Ok(rest) => Ok::<Seq<(usize, u64)>, (int, LocateError)>(out@ + rest),
            },
        decreases indices@.len() - k,
    {
        let idx = indices[k];
        let ghost f0 = f as int;
        while f < files.len() - 1 && idx >= files[f].start_record.saturating_add(files[f].records)
            invariant
                files@.len() > 0,
                f < files@.len(),
                f0 <= f,
                spec_advance(files@, f0, idx as int) == spec_advance(files@, f as int, idx as int),
            decreases files@.len() - f,
        {
            f = f + 1;
        }
        assert(spec_advance(files@, f as int, idx as int) == f);
        let start = files[f].start_record;
        if idx < start {
            return Err(concat_strs("internal validation sampler index underflow for ", files[f].path.as_str()));
        }
        let local = idx - start;
        if record_size > 0 && local as u64 > u64::MAX / (record_size as u64) {
            proof {
                assert(local * record_size > u64::MAX) by (nonlinear_arith)
                    requires
                        record_size > 0,
                        local > u64::MAX / (record_size as u64),
                ;
            }
            return Err("record offset overflow".to_owned());
        }
        proof {
            if record_size > 0 {
                assert((local as u64) * (record_size as u64) <= u64::MAX) by (nonlinear_arith)
                    requires
                        local as u64 <= u64::MAX / (record_size as u64),
                        record_size > 0,
                ;
            }
        }
        let offset = (local as u64) * (record_size as u64);
        let ghost before = out@;
        out.push((f, offset));
        proof {
            match spec_locate(files@, record_size as int, indices@, k + 1, f as int) {
                Err(e) => {},
                Ok(rest) => {
                    assert(before + (seq![(f, offset)] + rest) =~= out@ + rest);
                },
            }
        }
        k = k + 1;
    }
    assert(out@ + Seq::<(usize, u64)>::empty() =~= out@);
    Ok(out)
}

/// Extension as validation reads it: `bin` (ignoring ASCII case) stands for
/// `psv`, the same 40-byte records.
pub open spec fn spec_validation_ext(e: Option<Seq<char>>) -> Option<Seq<char>> {
    match e {
        Some(x) => if spec_str_ieq(x, "bin"@) {
            Some("psv"@)
        } else {
            Some(x)
        },
        None => None,
    }
}

/// Message for a held-out teacher of a variable-length format.
pub open spec fn spec_variable_length_message(f: DataFormat) -> Seq<char> {
    "--test-teacher format "@ + spec_format_name(f) + " is variable-length; export it to .psv with export_teacher_psv first"@
}

/// Format of a held-out validation teacher with file extensions `exts`: the
/// common format (`.bin` read as `.psv`), which must be a fixed-record one.
pub open spec fn spec_validation_format(paths: Seq<Seq<char>>, exts: Seq<Option<Seq<char>>>) -> Result<
    DataFormat,
    Seq<char>,
> {
    match spec_infer_data_format(paths, exts.map_values(|e: Option<Seq<char>>| spec_validation_ext(e))) {
        Ok(f) => if f == DataFormat::Hcpe || f == DataFormat::Psv {
            Ok(f)
        } else {
            Err(spec_variable_length_message(f))
        },
        Err(m) => Err(m),
    }
}

/// The format of a held-out validation teacher made of `paths` (see
/// [`spec_validation_format`]); for paths without `\\`, `:` or a leading
/// `//` the extensions are those of [`spec_path_extension`].
pub fn validation_teacher_format(paths: &[&str]) -> (r: Result<DataFormat, String>)
    ensures
        (forall|i: int| 0 <= i < paths@.len() ==> spec_portable_path(#[trigger] paths@[i]@)) ==> match spec_validation_format(
            spec_str_views(paths@),
            paths@.map_values(|p: &str| spec_path_extension(p@)),
        ) {
            Ok(f) => r == Ok::<DataFormat, String>(f),
            Err(m) => r matches Err(e) && e@ == m,
        },
        exists|exts: Seq<Option<Seq<char>>>|
            #![trigger spec_validation_format(spec_str_views(paths@), exts)]
            exts.len() == paths@.len() && match spec_validation_format(spec_str_views(paths@), exts) {
                Ok(f) => r == Ok::<DataFormat, String>(f),
                Err(m) => r matches Err(e) && e@ == m,
            },
{
    let mut raw: Vec<Option<String>> = Vec::new();
    let mut exts: Vec<Option<String>> = Vec::new();
    let mut i: usize = 0;
    while i < paths.len()
        invariant
            i <= paths@.len(),
            raw@.len() == i,
            exts@.len() == i,
            forall|k: int|
                0 <= k < i ==> spec_opt_view(#[trigger] exts@[k]) == spec_validation_ext(spec_opt_view(raw@[k])),
            forall|k: int|
                0 <= k < i && spec_portable_path(paths@[k]@) ==> spec_opt_view(#[trigger] raw@[k])
                    == spec_path_extension(paths@[k]@),
        decreases paths@.len() - i,
    {
        let e = path_extension(paths[i]);
        let v = match &e {
            Some(x) => if str_ieq(x.as_str(), "bin") {
                Some("psv".to_owned())
            } else {
                Some(x.clone())
            },
            None => None,
        };
        raw.push(e);
        exts.push(v);
        i = i + 1;
    }
    let ghost w = spec_ext_views(exts@);
    let ghost rv = raw@.map_values(|e: Option<String>| spec_opt_view(e));
    assert(w =~= rv.map_values(|e: Option<Seq<char>>| spec_validation_ext(e))) by {
        assert forall|k: int| 0 <= k < w.len() implies #[trigger] w[k] == rv.map_values(
            |e: Option<Seq<char>>| spec_validation_ext(e),
        )[k] by {
            assert(spec_opt_view(exts@[k]) == spec_validation_ext(spec_opt_view(raw@[k])));
        }
    }
    proof {
        if forall|k: int| 0 <= k < paths@.len() ==> spec_portable_path(#[trigger] paths@[k]@) {
            assert forall|k: int| 0 <= k < rv.len() implies #[trigger] rv[k] == paths@.map_values(
                |p: &str| spec_path_extension(p@),
            )[k] by {
                assert(spec_portable_path(paths@[k]@));
                assert(spec_opt_view(raw@[k]) == spec_path_extension(paths@[k]@));
            }
            assert(rv =~= paths@.map_values(|p: &str| spec_path_extension(p@)));
        }
    }
    let inferred = infer_data_format_from_extensions(paths, exts.as_slice());
    let r = match inferred {
        Ok(f) => match f {
            DataFormat::Hcpe | DataFormat::Psv => Ok(f),
            _ => {
                let a = concat_strs("--test-teacher format ", f.name());
                Err(concat_strs(
                    a.as_str(),
                    " is variable-length; export it to .psv with export_teacher_psv first",
                ))
            },
        },
        Err(m) => Err(m),
    };
    assert(rv.len() == paths@.len());
    assert(match spec_validation_format(spec_str_views(paths@), rv) {
        Ok(f) => r == Ok::<DataFormat, String>(f),
        Err(m) => r matches Err(e) && e@ == m,
    });
    r
}

} // verus!

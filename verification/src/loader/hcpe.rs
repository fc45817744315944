//! HCPE records: 38 bytes each, a 32-byte Huffman-coded position, an
//! evaluation (`i16`), a best move (`u16`), a game result byte and a padding
//! byte. Each record becomes a training record with game ply 0.

use vstd::prelude::*;
use crate::loader::pack::{MiniPosition, spec_from_hcp, spec_is_record_of};
use crate::loader::{DataLoader, owned_paths};
use crate::shogi::packed_sfen::{
    PackedSfenValue, le_u16, spec_le_u16, spec_u16_as_i16, spec_u8_as_i8, u16_as_i16, u8_as_i8,
};

verus! {

/// Bytes of one HCPE record.
pub const HCPE_RECORD_SIZE: usize = 38;

/// The training record of an HCPE record: its position with game ply 0,
/// its evaluation as score, its best move and its result byte; `None` when
/// the position does not decode.
pub fn decode_hcpe_record(rec: &[u8; 38]) -> (r: Option<PackedSfenValue>)
    ensures
        match spec_from_hcp(rec@.subrange(0, 32), 0) {
            Some(v) => r matches Some(psv) && spec_is_record_of(
                psv.data@,
                v,
                spec_u16_as_i16(spec_le_u16(rec@[32], rec@[33])),
                spec_le_u16(rec@[34], rec@[35]),
                spec_u8_as_i8(rec@[36]),
            ),
            None => r is None,
        },
{
    let mut hcp = [0u8; 32];
    let mut i: usize = 0;
    while i < 32
        invariant
            i <= 32,
            forall|k: int| 0 <= k < i ==> hcp@[k] == rec@[k],
        decreases 32 - i,
    {
        hcp[i] = rec[i];
        i = i + 1;
    }
    assert(hcp@ =~= rec@.subrange(0, 32));
    let eval = u16_as_i16(le_u16(rec[32], rec[33]));
    let best_move16 = le_u16(rec[34], rec[35]);
    let game_result = u8_as_i8(rec[36]);
    match MiniPosition::from_hcp(&hcp, 0) {
        Some(pos) => Some(pos.to_packed_sfen_value(eval, best_move16, game_result)),
        None => None,
    }
}

/// Loader of HCPE files: the files, the shuffle-buffer size in records and
/// the record filter.
#[derive(Clone)]
pub struct HcpeDataLoader<T> {
    pub file_paths: Vec<String>,
    pub buffer_size: usize,
    pub filter: T,
}

/// Shuffle-buffer records of `mb` MiB: `mb` MiB (saturating) over 40 bytes.
pub open spec fn spec_hcpe_buffer_size(mb: int) -> int {
    (if mb * 1048576 > usize::MAX {
        usize::MAX as int
    } else {
        mb * 1048576
    }) / 40
}

impl<T> HcpeDataLoader<T> {
    /// Loader of one file.
    pub fn new(path: &str, buffer_size_mb: usize, filter: T) -> (r: Self)
        ensures
            r.file_paths@.len() == 1,
            r.file_paths@[0]@ == path@,
            r.buffer_size == spec_hcpe_buffer_size(buffer_size_mb as int),
            r.filter == filter,
    {
        let paths = [path];
        Self::new_concat_multiple(paths.as_slice(), buffer_size_mb, filter)
    }

    /// Loader of several files read one after the other.
    pub fn new_concat_multiple(paths: &[&str], buffer_size_mb: usize, filter: T) -> (r: Self)
        ensures
            r.file_paths@.len() == paths@.len(),
            forall|i: int| 0 <= i < paths@.len() ==> #[trigger] r.file_paths@[i]@ == paths@[i]@,
            r.buffer_size == spec_hcpe_buffer_size(buffer_size_mb as int),
            r.filter == filter,
    {
        HcpeDataLoader {
            file_paths: owned_paths(paths),
            buffer_size: if buffer_size_mb > usize::MAX / 1048576 {
                usize::MAX / 40
            } else {
                buffer_size_mb * 1048576 / 40
            },
            filter,
        }
    }

    /// Number of whole records in files of the given byte sizes.
    pub fn count_positions_from_sizes(sizes: &[u64]) -> (r: u64)
        requires
            spec_records_in(sizes@, sizes@.len() as int) <= u64::MAX,
        ensures
            r == spec_records_in(sizes@, sizes@.len() as int),
    {
        let mut total: u64 = 0;
        let mut i: usize = 0;
        while i < sizes.len()
            invariant
                i <= sizes@.len(),
                spec_records_in(sizes@, sizes@.len() as int) <= u64::MAX,
                total == spec_records_in(sizes@, i as int),
            decreases sizes@.len() - i,
        {
            proof {
                lemma_records_in_monotone(sizes@, i as int + 1, sizes@.len() as int);
            }
            total = total + sizes[i] / 38;
            i = i + 1;
        }
        total
    }
}

/// Whole HCPE records in the first `n` files of sizes `sizes`.
pub open spec fn spec_records_in(sizes: Seq<u64>, n: int) -> int
    decreases n,
{
    if n <= 0 {
        0
    } else {
        spec_records_in(sizes, n - 1) + sizes[n - 1] / 38
    }
}

proof fn lemma_records_in_monotone(sizes: Seq<u64>, a: int, b: int)
    requires
        a <= b,
    ensures
        spec_records_in(sizes, a) <= spec_records_in(sizes, b),
    decreases b - a,
{
    if a < b {
        lemma_records_in_monotone(sizes, a, b - 1);
    }
}

impl<T> DataLoader<PackedSfenValue> for HcpeDataLoader<T> {
    fn data_file_paths(&self) -> (r: &[String])
        ensures
            r@ == self.file_paths@,
    {
        self.file_paths.as_slice()
    }
}

} // verus!

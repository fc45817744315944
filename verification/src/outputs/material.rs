//! Material-count buckets for chess records.

use vstd::prelude::*;
use bulletformat::ChessBoard;
use bulletformat::chess::MarlinFormat;

verus! {

#[verifier::external_type_specification]
#[verifier::external_body]
pub struct ExChessBoard(ChessBoard);

#[verifier::external_type_specification]
#[verifier::external_body]
pub struct ExMarlinFormat(MarlinFormat);

/// Number of set bits among the low `n` bits of `x`.
pub open spec fn spec_popcount_upto(x: u64, n: int) -> int
    decreases n,
{
    if n <= 0 {
        0
    } else {
        spec_popcount_upto(x, n - 1) + if (x >> ((n - 1) as u64)) & 1 == 1 {
            1int
        } else {
            0
        }
    }
}

/// Number of set bits of `x`.
pub open spec fn spec_popcount(x: u64) -> int {
    spec_popcount_upto(x, 64)
}

/// Number of set bits of `x` (see [`spec_popcount`]).
pub fn popcount(x: u64) -> (r: u32)
    ensures
        r == spec_popcount(x),
        r <= 64,
{
    let mut c: u32 = 0;
    let mut i: u64 = 0;
    while i < 64
        invariant
            i <= 64,
            c == spec_popcount_upto(x, i as int),
            c <= i,
        decreases 64 - i,
    {
        if (x >> i) & 1 == 1 {
            c = c + 1;
        }
        i = i + 1;
    }
    c
}

/// Material-count buckets: `N` buckets by the number of pieces on the board,
/// kings excluded, `ceil(32 / N)` piece counts per bucket.
#[derive(Clone, Copy, Debug, Default)]
pub struct MaterialCount<const N: usize>;

/// Bucket of a board occupied by `pieces` pieces (kings included) for `n`
/// buckets: `(pieces - 2) / ceil(32 / n)`.
pub open spec fn spec_material_bucket(n: int, pieces: int) -> int {
    (pieces - 2) / ((32 + n - 1) / n)
}

impl<const N: usize> MaterialCount<N> {
    /// Bucket of a board whose occupancy bitboard is `occ`; the board holds
    /// at least the two kings.
    pub fn bucket_from_occupancy(occ: u64) -> (r: usize)
        requires
            N >= 1,
            spec_popcount(occ) >= 2,
        ensures
            r == spec_material_bucket(N as int, spec_popcount(occ)),
    {
        let pieces = popcount(occ) as usize;
        let divisor: usize = if N >= 32 {
            assert((32 + N - 1) / (N as int) == 1) by (nonlinear_arith)
                requires
                    N >= 32,
            ;
            1
        } else {
            assert((32 + N - 1) / (N as int) >= 1) by (nonlinear_arith)
                requires
                    1 <= N < 32,
            ;
            (32 + N - 1) / N
        };
        (pieces - 2) / divisor
    }
}

/// The occupancy bitboard that a chess record holds.
pub uninterp spec fn spec_chess_occ(pos: ChessBoard) -> u64;

/// The occupancy bitboard that a Marlin-format record holds.
pub uninterp spec fn spec_marlin_occ(pos: MarlinFormat) -> u64;

/// The occupancy bitboard of a chess record: `ChessBoard::occ`, which
/// returns the record's stored `occ` field, the same for the same record.
#[verifier::external_body]
fn chess_board_occ(pos: &ChessBoard) -> (r: u64)
    ensures
        r == spec_chess_occ(*pos),
{
    pos.occ()
}

/// The occupancy bitboard of a Marlin-format record: `MarlinFormat::occ`,
/// which returns the record's stored `occ` field, the same for the same
/// record.
#[verifier::external_body]
fn marlin_format_occ(pos: &MarlinFormat) -> (r: u64)
    ensures
        r == spec_marlin_occ(*pos),
{
    pos.occ()
}

/// Bucket of occupancy `occ` for `n` buckets: none for fewer than one
/// bucket or fewer than two pieces on the board.
pub open spec fn spec_occupancy_bucket(n: int, occ: u64) -> Option<usize> {
    if n >= 1 && spec_popcount(occ) >= 2 {
        Some(spec_material_bucket(n, spec_popcount(occ)) as usize)
    } else {
        None
    }
}

impl<const N: usize> MaterialCount<N> {
    /// Bucket of a board whose occupancy bitboard is `occ` (see
    /// [`spec_occupancy_bucket`]).
    pub fn bucket_of_occupancy(occ: u64) -> (r: Option<usize>)
        ensures
            r == spec_occupancy_bucket(N as int, occ),
    {
        if N >= 1 && popcount(occ) >= 2 {
            Some(Self::bucket_from_occupancy(occ))
        } else {
            None
        }
    }

    /// Bucket of a chess record, from its occupancy; `None` for fewer than
    /// one bucket or fewer than two pieces on the board.
    pub fn bucket_of_chess_board(&self, pos: &ChessBoard) -> (r: Option<usize>)
        ensures
            r == spec_occupancy_bucket(N as int, spec_chess_occ(*pos)),
    {
        let occ = chess_board_occ(pos);
        Self::bucket_of_occupancy(occ)
    }

    /// Bucket of a Marlin-format record, from its occupancy; `None` for
    /// fewer than one bucket or fewer than two pieces on the board.
    pub fn bucket_of_marlin_format(&self, pos: &MarlinFormat) -> (r: Option<usize>)
        ensures
            r == spec_occupancy_bucket(N as int, spec_marlin_occ(*pos)),
    {
        let occ = marlin_format_occ(pos);
        Self::bucket_of_occupancy(occ)
    }
}

} // verus!

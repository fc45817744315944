//! Output buckets: which of several output heads (layer stacks) a position
//! is trained on, from its hands, king squares, progress or game ply.

pub mod material;
pub mod progress;
pub mod progress_features;
pub mod sfnn;

use vstd::prelude::*;
use crate::shogi::board::{BoardView, ShogiBoard};
use crate::shogi::packed_sfen::{PackedSfenValue, lemma_decoded_hands_small, spec_decode, spec_le_u16};
use crate::shogi::types::{Color, Hand, Square};

verus! {

/// Chooses which of `BUCKETS` output heads a position is trained on.
pub trait OutputBuckets<T> {
    /// Number of buckets.
    const BUCKETS: usize;

    /// Bucket of `pos`.
    fn bucket(&self, pos: &T) -> usize;
}

/// A single bucket: every position goes to bucket 0.
#[derive(Clone, Copy, Debug, Default)]
pub struct Single;

impl<T> OutputBuckets<T> for Single {
    const BUCKETS: usize = 1;

    fn bucket(&self, pos: &T) -> (r: usize)
        ensures
            r == 0,
    {
        0
    }
}

/// `v` when `b` holds, else 0.
pub open spec fn spec_flag(b: bool, v: int) -> int {
    if b {
        v
    } else {
        0
    }
}

/// `hand4`: 1 when a bishop is held.
pub open spec fn spec_hand4(h: Seq<u8>) -> int {
    spec_flag(h[5] > 0, 1)
}

/// `hand16`: bit 0 pawn held, bit 1 bishop held.
pub open spec fn spec_hand16(h: Seq<u8>) -> int {
    spec_flag(h[0] > 0, 1) + spec_flag(h[5] > 0, 2)
}

/// `hand64`: bit 0 pawn/lance/knight held, bit 1 gold/silver/rook held,
/// bit 2 bishop held.
pub open spec fn spec_hand64(h: Seq<u8>) -> int {
    spec_flag(h[0] + h[1] + h[2] > 0, 1) + spec_flag(h[4] + h[3] + h[6] > 0, 2) + spec_flag(h[5] > 0, 4)
}

/// Material score of a hand: pawn 1, lance and knight 2, silver and gold 3,
/// bishop and rook 5.
pub open spec fn spec_hand_score(h: Seq<u8>) -> int {
    h[0] + (h[1] + h[2]) * 2 + (h[3] + h[4]) * 3 + (h[5] + h[6]) * 5
}

/// `hand64z`: the hand score in steps of four, rounded up, at most 7.
pub open spec fn spec_hand64z(h: Seq<u8>) -> int {
    let z = (spec_hand_score(h) + 3) / 4;
    if z < 7 {
        z
    } else {
        7
    }
}

/// `hand256`: bit 0 pawn/lance/knight held, bit 1 silver/gold held, bit 2
/// bishop held, bit 3 rook held.
pub open spec fn spec_hand256(h: Seq<u8>) -> int {
    spec_flag(h[0] + h[1] + h[2] > 0, 1) + spec_flag(h[3] + h[4] > 0, 2) + spec_flag(h[5] > 0, 4) + spec_flag(
        h[6] > 0,
        8,
    )
}

/// `hand1024`: bit 0 pawn held, bit 1 lance/knight held, bit 2 silver/gold
/// held, bit 3 bishop held, bit 4 rook held.
pub open spec fn spec_hand1024(h: Seq<u8>) -> int {
    spec_flag(h[0] > 0, 1) + spec_flag(h[1] + h[2] > 0, 2) + spec_flag(h[3] + h[4] > 0, 4) + spec_flag(h[5] > 0, 8)
        + spec_flag(h[6] > 0, 16)
}

/// The byte sums of `hand64` fit in a byte.
pub open spec fn spec_fits64(h: Seq<u8>) -> bool {
    h[0] + h[1] + h[2] <= 255 && h[4] + h[3] + h[6] <= 255
}

/// The byte sums of `hand64z` fit in a byte.
pub open spec fn spec_fits64z(h: Seq<u8>) -> bool {
    h[1] + h[2] <= 255 && h[3] + h[4] <= 255 && h[5] + h[6] <= 255
}

/// The byte sums of `hand256` fit in a byte.
pub open spec fn spec_fits256(h: Seq<u8>) -> bool {
    h[0] + h[1] + h[2] <= 255 && h[3] + h[4] <= 255
}

/// The byte sums of `hand1024` fit in a byte.
pub open spec fn spec_fits1024(h: Seq<u8>) -> bool {
    h[1] + h[2] <= 255 && h[3] + h[4] <= 255
}

/// The hands of every decoded record keep all the byte sums of the hand
/// buckets within a byte: both hands together hold at most 121 pieces.
pub proof fn lemma_decoded_hands_fit(d: Seq<u8>)
    ensures
        spec_fits64(spec_stm_ntm_hands(spec_decode(d)).0),
        spec_fits64(spec_stm_ntm_hands(spec_decode(d)).1),
        spec_fits64z(spec_stm_ntm_hands(spec_decode(d)).0),
        spec_fits64z(spec_stm_ntm_hands(spec_decode(d)).1),
        spec_fits256(spec_stm_ntm_hands(spec_decode(d)).0),
        spec_fits256(spec_stm_ntm_hands(spec_decode(d)).1),
        spec_fits1024(spec_stm_ntm_hands(spec_decode(d)).0),
        spec_fits1024(spec_stm_ntm_hands(spec_decode(d)).1),
{
    lemma_decoded_hands_small(d);
}

/// `hand4` bucket of one side's hand.
pub fn shogi_hand4_single_bucket(hand: Hand) -> (r: usize)
    ensures
        r == spec_hand4(hand.counts@),
{
    if hand.bishop() > 0 {
        1
    } else {
        0
    }
}

/// `hand16` bucket of one side's hand.
pub fn shogi_hand16_single_bucket(hand: Hand) -> (r: usize)
    ensures
        r == spec_hand16(hand.counts@),
{
    let mut bucket: usize = 0;
    if hand.pawn() > 0 {
        bucket = bucket + 1;
    }
    if hand.bishop() > 0 {
        bucket = bucket + 2;
    }
    bucket
}

/// `hand64` bucket of one side's hand.
pub fn shogi_hand64_single_bucket(hand: Hand) -> (r: usize)
    requires
        spec_fits64(hand.counts@),
    ensures
        r == spec_hand64(hand.counts@),
{
    let mut bucket: usize = 0;
    if hand.pawn() + hand.lance() + hand.knight() > 0 {
        bucket = bucket + 1;
    }
    if hand.gold() + hand.silver() + hand.rook() > 0 {
        bucket = bucket + 2;
    }
    if hand.bishop() > 0 {
        bucket = bucket + 4;
    }
    bucket
}

/// `hand64z` bucket of one side's hand.
pub fn shogi_hand64z_single_bucket(hand: Hand) -> (r: usize)
    requires
        spec_fits64z(hand.counts@),
    ensures
        r == spec_hand64z(hand.counts@),
{
    let score: usize = hand.pawn() as usize + ((hand.lance() + hand.knight()) as usize) * 2 + ((hand.silver()
        + hand.gold()) as usize) * 3 + ((hand.bishop() + hand.rook()) as usize) * 5;
    let z = (score + 3) / 4;
    if z < 7 {
        z
    } else {
        7
    }
}

/// `hand256` bucket of one side's hand.
pub fn shogi_hand256_single_bucket(hand: Hand) -> (r: usize)
    requires
        spec_fits256(hand.counts@),
    ensures
        r == spec_hand256(hand.counts@),
{
    let mut bucket: usize = 0;
    if hand.pawn() + hand.lance() + hand.knight() > 0 {
        bucket = bucket + 1;
    }
    if hand.silver() + hand.gold() > 0 {
        bucket = bucket + 2;
    }
    if hand.bishop() > 0 {
        bucket = bucket + 4;
    }
    if hand.rook() > 0 {
        bucket = bucket + 8;
    }
    bucket
}

/// `hand1024` bucket of one side's hand.
pub fn shogi_hand1024_single_bucket(hand: Hand) -> (r: usize)
    requires
        spec_fits1024(hand.counts@),
    ensures
        r == spec_hand1024(hand.counts@),
{
    let mut bucket: usize = 0;
    if hand.pawn() > 0 {
        bucket = bucket + 1;
    }
    if hand.lance() + hand.knight() > 0 {
        bucket = bucket + 2;
    }
    if hand.silver() + hand.gold() > 0 {
        bucket = bucket + 4;
    }
    if hand.bishop() > 0 {
        bucket = bucket + 8;
    }
    if hand.rook() > 0 {
        bucket = bucket + 16;
    }
    bucket
}

/// `min(x, 8)`.
pub open spec fn spec_min8(x: int) -> int {
    if x < 8 {
        x
    } else {
        8
    }
}

/// File third of a file: files 1-3 give 0, 4-6 give 1, 7-9 give 2.
pub open spec fn spec_file3(file: int) -> int {
    spec_min8(file) / 3
}

/// `k9k9z` bucket of a (perspective-normalized) king square: ranks 1-3 give
/// 0, ranks 4-6 give 1, rank 7 gives 2, ranks 8 and 9 keep the file third
/// (3..6 and 6..9).
pub open spec fn spec_king9_zone(sq: Square) -> int {
    let rank = spec_min8(sq.spec_rank() as int);
    if rank < 3 {
        0
    } else if rank < 6 {
        1
    } else if rank == 6 {
        2
    } else {
        3 + (rank - 7) * 3 + spec_file3(sq.spec_file() as int)
    }
}

/// `k13k13z` bucket of a king square: ranks 1-7 give 0..7, ranks 8 and 9
/// keep the file third (7..10 and 10..13).
pub open spec fn spec_king13_zone(sq: Square) -> int {
    let rank = spec_min8(sq.spec_rank() as int);
    if rank < 7 {
        rank
    } else {
        7 + (rank - 7) * 3 + spec_file3(sq.spec_file() as int)
    }
}

/// `k21k21` bucket of a king square: ranks 1-3 give 0, ranks 4-6 give 1,
/// rank 7 gives 2, ranks 8 and 9 keep the file (3..21).
pub open spec fn spec_king21(sq: Square) -> int {
    let rank = spec_min8(sq.spec_rank() as int);
    let file = spec_min8(sq.spec_file() as int);
    if rank < 3 {
        0
    } else if rank < 6 {
        1
    } else if rank < 7 {
        2
    } else {
        3 + (rank - 7) * 9 + file
    }
}

/// `k29k29` bucket of a king square: ranks 1-3 give 0, ranks 4-6 give 1,
/// ranks 7-9 keep the file (2..29).
pub open spec fn spec_king29(sq: Square) -> int {
    let rank = spec_min8(sq.spec_rank() as int);
    let file = spec_min8(sq.spec_file() as int);
    if rank < 3 {
        0
    } else if rank < 6 {
        1
    } else {
        2 + (rank - 6) * 9 + file
    }
}

fn min8(x: u8) -> (r: usize)
    ensures
        r == spec_min8(x as int),
{
    if x < 8 {
        x as usize
    } else {
        8
    }
}

pub fn shogi_king9_zone_single_bucket(sq: Square) -> (r: usize)
    ensures
        r == spec_king9_zone(sq),
        r < 9,
{
    let rank = min8(sq.rank());
    if rank < 3 {
        0
    } else if rank < 6 {
        1
    } else if rank == 6 {
        2
    } else {
        3 + (rank - 7) * 3 + min8(sq.file()) / 3
    }
}

pub fn shogi_king13_zone_single_bucket(sq: Square) -> (r: usize)
    ensures
        r == spec_king13_zone(sq),
        r < 13,
{
    let rank = min8(sq.rank());
    if rank < 7 {
        rank
    } else {
        7 + (rank - 7) * 3 + min8(sq.file()) / 3
    }
}

pub fn shogi_king21_single_bucket(sq: Square) -> (r: usize)
    ensures
        r == spec_king21(sq),
        r < 21,
{
    let rank = min8(sq.rank());
    let file = min8(sq.file());
    if rank < 3 {
        0
    } else if rank < 6 {
        1
    } else if rank < 7 {
        2
    } else {
        3 + (rank - 7) * 9 + file
    }
}

pub fn shogi_king29_single_bucket(sq: Square) -> (r: usize)
    ensures
        r == spec_king29(sq),
        r < 29,
{
    let rank = min8(sq.rank());
    let file = min8(sq.file());
    if rank < 3 {
        0
    } else if rank < 6 {
        1
    } else {
        2 + (rank - 6) * 9 + file
    }
}

/// Hands of the side to move and of the other side.
pub open spec fn spec_stm_ntm_hands(b: BoardView) -> (Seq<u8>, Seq<u8>) {
    (b.spec_hand(b.side_to_move), b.spec_hand(b.side_to_move.spec_opponent()))
}

/// The side to move's king and the other king of a position, each seen from
/// its owner's side (turned round when the owner is White).
pub open spec fn spec_persp_kings(b: BoardView) -> (Square, Square) {
    let stm = b.side_to_move;
    let fk = b.spec_king_square(stm);
    let ek = b.spec_king_square(stm.spec_opponent());
    if stm == Color::Black {
        (fk, ek.spec_inverse())
    } else {
        (fk.spec_inverse(), ek)
    }
}

pub fn shogi_stm_ntm_hands_from_board(board: &ShogiBoard) -> (r: (Hand, Hand))
    ensures
        r.0.counts@ == spec_stm_ntm_hands(board@).0,
        r.1.counts@ == spec_stm_ntm_hands(board@).1,
{
    let stm = board.side_to_move;
    (board.hand(stm), board.hand(stm.opponent()))
}

pub fn shogi_perspective_king_squares_from_board(board: &ShogiBoard) -> (r: (Square, Square))
    requires
        board@.white_king_sq.spec_valid(),
    ensures
        r == spec_persp_kings(board@),
{
    let stm = board.side_to_move;
    let fk = board.king_square(stm);
    let ek = board.king_square(stm.opponent());
    if stm == Color::Black {
        (fk, ek.inverse())
    } else {
        (fk.inverse(), ek)
    }
}


/// Row of a relative rank: ranks 1-3, 4-6, 7-9 give 0, 1, 2.
pub open spec fn spec_rank3(r: int) -> int {
    spec_min8(r) / 3
}

/// King-rank bucket for `n` buckets from the own king's relative rank `f`
/// and the other king's relative rank `e`: `f * 9 + e` for 81 buckets,
/// `3 * (f / 3) + e / 3` for 9, and the latter capped at `n - 1` otherwise.
pub open spec fn spec_king_rank_formula(n: int, f: int, e: int) -> int {
    if n == 81 {
        spec_min8(f) * 9 + spec_min8(e)
    } else {
        let v = spec_rank3(f) * 3 + spec_rank3(e);
        if n == 9 {
            v
        } else {
            let cap = if n >= 1 {
                n - 1
            } else {
                0
            };
            if v < cap {
                v
            } else {
                cap
            }
        }
    }
}

/// Relative ranks of the two kings: the own king's rank from the side to
/// move, the other king's rank from its owner.
pub open spec fn spec_king_ranks(b: BoardView) -> (int, int) {
    let stm = b.side_to_move;
    let fk = b.spec_king_square(stm);
    let ek = b.spec_king_square(stm.spec_opponent());
    if stm == Color::Black {
        (fk.spec_rank() as int, 8 - ek.spec_rank())
    } else {
        (8 - fk.spec_rank(), ek.spec_rank() as int)
    }
}

fn king_rank_formula(n: usize, f: usize, e: usize) -> (r: usize)
    requires
        f <= 8,
        e <= 8,
    ensures
        r == spec_king_rank_formula(n as int, f as int, e as int),
{
    if n == 81 {
        f * 9 + e
    } else {
        let v = (f / 3) * 3 + e / 3;
        if n == 9 {
            v
        } else {
            let cap = if n >= 1 {
                n - 1
            } else {
                0
            };
            if v < cap {
                v
            } else {
                cap
            }
        }
    }
}

/// King-rank buckets: `N` buckets from the relative ranks of both kings
/// (3 x 3 rank rows for `N = 9`, 9 x 9 ranks for `N = 81`).
#[derive(Clone, Copy, Debug, Default)]
pub struct ShogiKingRankBucket<const N: usize>;

impl<const N: usize> ShogiKingRankBucket<N> {
    /// Bucket of a training record.
    pub fn bucket(&self, pos: &PackedSfenValue) -> (r: usize)
        ensures
            r == spec_king_rank_formula(
                N as int,
                spec_king_ranks(spec_decode(pos.data@)).0,
                spec_king_ranks(spec_decode(pos.data@)).1,
            ),
    {
        let board = pos.decode();
        let stm = board.side_to_move;
        let fk = board.king_square(stm);
        let ek = board.king_square(stm.opponent());
        let f_rank: usize = match stm {
            Color::Black => fk.rank() as usize,
            Color::White => 8 - fk.rank() as usize,
        };
        let e_rank: usize = match stm {
            Color::Black => 8 - ek.rank() as usize,
            Color::White => ek.rank() as usize,
        };
        king_rank_formula(N, f_rank, e_rank)
    }
}

/// King-rank bucket for `n` buckets of a decoded position, from the kings'
/// squares in their owners' frames.
pub open spec fn spec_king_rank_from_board(n: int, b: BoardView) -> int {
    spec_king_rank_formula(n, spec_persp_kings(b).0.spec_rank() as int, spec_persp_kings(b).1.spec_rank() as int)
}

pub fn shogi_king_rank_bucket_from_board(n: usize, board: &ShogiBoard) -> (r: usize)
    requires
        board@.white_king_sq.spec_valid(),
    ensures
        r == spec_king_rank_from_board(n as int, board@),
{
    let (f_sq, e_sq) = shogi_perspective_king_squares_from_board(board);
    king_rank_formula(n, f_sq.rank() as usize, e_sq.rank() as usize)
}

/// `k9k9z` bucket of a decoded position: own king bucket times 9 plus the
/// other king's bucket.
pub open spec fn spec_king9_zone_pair(b: BoardView) -> int {
    spec_king9_zone(spec_persp_kings(b).0) * 9 + spec_king9_zone(spec_persp_kings(b).1)
}

/// `k9k9z` layer-stack buckets (9 x 9).
#[derive(Clone, Copy, Debug, Default)]
pub struct ShogiKing9ZoneByKing9ZoneBucket;

impl ShogiKing9ZoneByKing9ZoneBucket {
    /// Bucket of a training record whose White king is on the board.
    pub fn bucket_index(pos: &PackedSfenValue) -> (r: usize)
        requires
            spec_decode(pos.data@).white_king_sq.spec_valid(),
        ensures
            r == spec_king9_zone_pair(spec_decode(pos.data@)),
            r < 81,
    {
        let board = pos.decode();
        let (f_sq, e_sq) = shogi_perspective_king_squares_from_board(&board);
        shogi_king9_zone_single_bucket(f_sq) * 9 + shogi_king9_zone_single_bucket(e_sq)
    }
}

/// `k13k13z` bucket of a decoded position: own king bucket times 13 plus the
/// other king's bucket.
pub open spec fn spec_king13_zone_pair(b: BoardView) -> int {
    spec_king13_zone(spec_persp_kings(b).0) * 13 + spec_king13_zone(spec_persp_kings(b).1)
}

/// `k13k13z` layer-stack buckets (13 x 13).
#[derive(Clone, Copy, Debug, Default)]
pub struct ShogiKing13ZoneByKing13ZoneBucket;

impl ShogiKing13ZoneByKing13ZoneBucket {
    /// Bucket of a training record whose White king is on the board.
    pub fn bucket_index(pos: &PackedSfenValue) -> (r: usize)
        requires
            spec_decode(pos.data@).white_king_sq.spec_valid(),
        ensures
            r == spec_king13_zone_pair(spec_decode(pos.data@)),
            r < 169,
    {
        let board = pos.decode();
        let (f_sq, e_sq) = shogi_perspective_king_squares_from_board(&board);
        shogi_king13_zone_single_bucket(f_sq) * 13 + shogi_king13_zone_single_bucket(e_sq)
    }
}

/// `k21k21` bucket of a decoded position: own king bucket times 21 plus the
/// other king's bucket.
pub open spec fn spec_king21_pair(b: BoardView) -> int {
    spec_king21(spec_persp_kings(b).0) * 21 + spec_king21(spec_persp_kings(b).1)
}

/// `k21k21` layer-stack buckets (21 x 21).
#[derive(Clone, Copy, Debug, Default)]
pub struct ShogiKing21ByKing21Bucket;

impl ShogiKing21ByKing21Bucket {
    /// Bucket of a training record whose White king is on the board.
    pub fn bucket_index(pos: &PackedSfenValue) -> (r: usize)
        requires
            spec_decode(pos.data@).white_king_sq.spec_valid(),
        ensures
            r == spec_king21_pair(spec_decode(pos.data@)),
            r < 441,
    {
        let board = pos.decode();
        let (f_sq, e_sq) = shogi_perspective_king_squares_from_board(&board);
        shogi_king21_single_bucket(f_sq) * 21 + shogi_king21_single_bucket(e_sq)
    }
}

/// `k29k29` bucket of a decoded position: own king bucket times 29 plus the
/// other king's bucket.
pub open spec fn spec_king29_pair(b: BoardView) -> int {
    spec_king29(spec_persp_kings(b).0) * 29 + spec_king29(spec_persp_kings(b).1)
}

/// `k29k29` layer-stack buckets (29 x 29).
#[derive(Clone, Copy, Debug, Default)]
pub struct ShogiKing29ByKing29Bucket;

impl ShogiKing29ByKing29Bucket {
    /// Bucket of a training record whose White king is on the board.
    pub fn bucket_index(pos: &PackedSfenValue) -> (r: usize)
        requires
            spec_decode(pos.data@).white_king_sq.spec_valid(),
        ensures
            r == spec_king29_pair(spec_decode(pos.data@)),
            r < 841,
    {
        let board = pos.decode();
        let (f_sq, e_sq) = shogi_perspective_king_squares_from_board(&board);
        shogi_king29_single_bucket(f_sq) * 29 + shogi_king29_single_bucket(e_sq)
    }
}

/// `hand4` bucket of a decoded position: the side to move's hand bucket times
/// 2 plus the other hand's.
pub open spec fn spec_hand4_pair(b: BoardView) -> int {
    spec_hand4(spec_stm_ntm_hands(b).0) * 2 + spec_hand4(spec_stm_ntm_hands(b).1)
}

/// `hand4` layer-stack buckets (4).
#[derive(Clone, Copy, Debug, Default)]
pub struct ShogiHand4Bucket;

impl ShogiHand4Bucket {
    /// Bucket of a training record.
    pub fn bucket_index(pos: &PackedSfenValue) -> (r: usize)
        ensures
            r == spec_hand4_pair(spec_decode(pos.data@)),
    {
        let board = pos.decode();
        let (stm_hand, ntm_hand) = shogi_stm_ntm_hands_from_board(&board);
        shogi_hand4_single_bucket(stm_hand) * 2 + shogi_hand4_single_bucket(ntm_hand)
    }
}

/// `hand16` bucket of a decoded position: the side to move's hand bucket times
/// 4 plus the other hand's.
pub open spec fn spec_hand16_pair(b: BoardView) -> int {
    spec_hand16(spec_stm_ntm_hands(b).0) * 4 + spec_hand16(spec_stm_ntm_hands(b).1)
}

/// `hand16` layer-stack buckets (16).
#[derive(Clone, Copy, Debug, Default)]
pub struct ShogiHand16Bucket;

impl ShogiHand16Bucket {
    /// Bucket of a training record.
    pub fn bucket_index(pos: &PackedSfenValue) -> (r: usize)
        ensures
            r == spec_hand16_pair(spec_decode(pos.data@)),
    {
        let board = pos.decode();
        let (stm_hand, ntm_hand) = shogi_stm_ntm_hands_from_board(&board);
        shogi_hand16_single_bucket(stm_hand) * 4 + shogi_hand16_single_bucket(ntm_hand)
    }
}

/// `hand64` bucket of a decoded position: the side to move's hand bucket times
/// 8 plus the other hand's.
pub open spec fn spec_hand64_pair(b: BoardView) -> int {
    spec_hand64(spec_stm_ntm_hands(b).0) * 8 + spec_hand64(spec_stm_ntm_hands(b).1)
}

/// `hand64` layer-stack buckets (64).
#[derive(Clone, Copy, Debug, Default)]
pub struct ShogiHand64Bucket;

impl ShogiHand64Bucket {
    /// Bucket of a training record.
    pub fn bucket_index(pos: &PackedSfenValue) -> (r: usize)
        ensures
            r == spec_hand64_pair(spec_decode(pos.data@)),
    {
        proof {
            lemma_decoded_hands_fit(pos.data@);
        }
        let board = pos.decode();
        let (stm_hand, ntm_hand) = shogi_stm_ntm_hands_from_board(&board);
        shogi_hand64_single_bucket(stm_hand) * 8 + shogi_hand64_single_bucket(ntm_hand)
    }
}

/// `hand64z` bucket of a decoded position: the side to move's hand bucket times
/// 8 plus the other hand's.
pub open spec fn spec_hand64z_pair(b: BoardView) -> int {
    spec_hand64z(spec_stm_ntm_hands(b).0) * 8 + spec_hand64z(spec_stm_ntm_hands(b).1)
}

/// `hand64z` layer-stack buckets (64).
#[derive(Clone, Copy, Debug, Default)]
pub struct ShogiHand64zBucket;

impl ShogiHand64zBucket {
    /// Bucket of a training record.
    pub fn bucket_index(pos: &PackedSfenValue) -> (r: usize)
        ensures
            r == spec_hand64z_pair(spec_decode(pos.data@)),
    {
        proof {
            lemma_decoded_hands_fit(pos.data@);
        }
        let board = pos.decode();
        let (stm_hand, ntm_hand) = shogi_stm_ntm_hands_from_board(&board);
        shogi_hand64z_single_bucket(stm_hand) * 8 + shogi_hand64z_single_bucket(ntm_hand)
    }
}

/// `hand256` bucket of a decoded position: the side to move's hand bucket times
/// 16 plus the other hand's.
pub open spec fn spec_hand256_pair(b: BoardView) -> int {
    spec_hand256(spec_stm_ntm_hands(b).0) * 16 + spec_hand256(spec_stm_ntm_hands(b).1)
}

/// `hand256` layer-stack buckets (256).
#[derive(Clone, Copy, Debug, Default)]
pub struct ShogiHand256Bucket;

impl ShogiHand256Bucket {
    /// Bucket of a training record.
    pub fn bucket_index(pos: &PackedSfenValue) -> (r: usize)
        ensures
            r == spec_hand256_pair(spec_decode(pos.data@)),
    {
        proof {
            lemma_decoded_hands_fit(pos.data@);
        }
        let board = pos.decode();
        let (stm_hand, ntm_hand) = shogi_stm_ntm_hands_from_board(&board);
        shogi_hand256_single_bucket(stm_hand) * 16 + shogi_hand256_single_bucket(ntm_hand)
    }
}

/// `hand1024` bucket of a decoded position: the side to move's hand bucket times
/// 32 plus the other hand's.
pub open spec fn spec_hand1024_pair(b: BoardView) -> int {
    spec_hand1024(spec_stm_ntm_hands(b).0) * 32 + spec_hand1024(spec_stm_ntm_hands(b).1)
}

/// `hand1024` layer-stack buckets (1024).
#[derive(Clone, Copy, Debug, Default)]
pub struct ShogiHand1024Bucket;

impl ShogiHand1024Bucket {
    /// Bucket of a training record.
    pub fn bucket_index(pos: &PackedSfenValue) -> (r: usize)
        ensures
            r == spec_hand1024_pair(spec_decode(pos.data@)),
    {
        proof {
            lemma_decoded_hands_fit(pos.data@);
        }
        let board = pos.decode();
        let (stm_hand, ntm_hand) = shogi_stm_ntm_hands_from_board(&board);
        shogi_hand1024_single_bucket(stm_hand) * 32 + shogi_hand1024_single_bucket(ntm_hand)
    }
}


pub proof fn lemma_hand_pair_bounds(b: BoardView)
    ensures
        0 <= spec_hand4_pair(b) < 4,
        0 <= spec_hand16_pair(b) < 16,
        0 <= spec_hand64_pair(b) < 64,
        0 <= spec_hand64z_pair(b) < 64,
        0 <= spec_hand256_pair(b) < 256,
        0 <= spec_hand1024_pair(b) < 1024,
{
}

pub proof fn lemma_king_rank_bound(n: int, f: int, e: int)
    requires
        0 <= f <= 8,
        0 <= e <= 8,
    ensures
        0 <= spec_king_rank_formula(n, f, e) <= 80,
        n == 9 ==> spec_king_rank_formula(n, f, e) < 9,
        n >= 1 ==> spec_king_rank_formula(n, f, e) < n,
{
}

/// `hand64` x `k3k3` layer-stack buckets: hand bucket times 9 plus king
/// bucket.
#[derive(Clone, Copy, Debug, Default)]
pub struct ShogiHand64KingRankBucket;

impl ShogiHand64KingRankBucket {
    /// Bucket of a training record.
    pub fn bucket_index(pos: &PackedSfenValue) -> (r: usize)
        ensures
            r == spec_hand64_pair(spec_decode(pos.data@)) * 9 + spec_king_rank_formula(9, spec_king_ranks(spec_decode(pos.data@)).0, spec_king_ranks(spec_decode(pos.data@)).1),
    {
        proof {
            lemma_decoded_hands_fit(pos.data@);
            lemma_hand_pair_bounds(spec_decode(pos.data@));
        }
        ShogiHand64Bucket::bucket_index(pos) * 9 + ShogiKingRankBucket::<9>.bucket(pos)
    }
}

/// `hand64` x `k9k9` layer-stack buckets: hand bucket times 81 plus king
/// bucket.
#[derive(Clone, Copy, Debug, Default)]
pub struct ShogiHand64KingRank81Bucket;

impl ShogiHand64KingRank81Bucket {
    /// Bucket of a training record.
    pub fn bucket_index(pos: &PackedSfenValue) -> (r: usize)
        ensures
            r == spec_hand64_pair(spec_decode(pos.data@)) * 81 + spec_king_rank_formula(81, spec_king_ranks(spec_decode(pos.data@)).0, spec_king_ranks(spec_decode(pos.data@)).1),
    {
        proof {
            lemma_decoded_hands_fit(pos.data@);
            lemma_hand_pair_bounds(spec_decode(pos.data@));
        }
        ShogiHand64Bucket::bucket_index(pos) * 81 + ShogiKingRankBucket::<81>.bucket(pos)
    }
}

/// `hand64` x `k21k21` layer-stack buckets: hand bucket times 441 plus king
/// bucket.
#[derive(Clone, Copy, Debug, Default)]
pub struct ShogiHand64King21ByKing21Bucket;

impl ShogiHand64King21ByKing21Bucket {
    /// Bucket of a training record.
    pub fn bucket_index(pos: &PackedSfenValue) -> (r: usize)
        requires
            spec_decode(pos.data@).white_king_sq.spec_valid(),
        ensures
            r == spec_hand64_pair(spec_decode(pos.data@)) * 441 + spec_king21_pair(spec_decode(pos.data@)),
    {
        proof {
            lemma_decoded_hands_fit(pos.data@);
            lemma_hand_pair_bounds(spec_decode(pos.data@));
        }
        ShogiHand64Bucket::bucket_index(pos) * 441 + ShogiKing21ByKing21Bucket::bucket_index(pos)
    }
}

/// `hand64` x `k29k29` layer-stack buckets: hand bucket times 841 plus king
/// bucket.
#[derive(Clone, Copy, Debug, Default)]
pub struct ShogiHand64King29ByKing29Bucket;

impl ShogiHand64King29ByKing29Bucket {
    /// Bucket of a training record.
    pub fn bucket_index(pos: &PackedSfenValue) -> (r: usize)
        requires
            spec_decode(pos.data@).white_king_sq.spec_valid(),
        ensures
            r == spec_hand64_pair(spec_decode(pos.data@)) * 841 + spec_king29_pair(spec_decode(pos.data@)),
    {
        proof {
            lemma_decoded_hands_fit(pos.data@);
            lemma_hand_pair_bounds(spec_decode(pos.data@));
        }
        ShogiHand64Bucket::bucket_index(pos) * 841 + ShogiKing29ByKing29Bucket::bucket_index(pos)
    }
}

/// `hand256` x `k3k3` layer-stack buckets: hand bucket times 9 plus king
/// bucket.
#[derive(Clone, Copy, Debug, Default)]
pub struct ShogiHand256KingRankBucket;

impl ShogiHand256KingRankBucket {
    /// Bucket of a training record.
    pub fn bucket_index(pos: &PackedSfenValue) -> (r: usize)
        ensures
            r == spec_hand256_pair(spec_decode(pos.data@)) * 9 + spec_king_rank_formula(9, spec_king_ranks(spec_decode(pos.data@)).0, spec_king_ranks(spec_decode(pos.data@)).1),
    {
        proof {
            lemma_decoded_hands_fit(pos.data@);
            lemma_hand_pair_bounds(spec_decode(pos.data@));
        }
        ShogiHand256Bucket::bucket_index(pos) * 9 + ShogiKingRankBucket::<9>.bucket(pos)
    }
}

/// `hand256` x `k9k9` layer-stack buckets: hand bucket times 81 plus king
/// bucket.
#[derive(Clone, Copy, Debug, Default)]
pub struct ShogiHand256KingRank81Bucket;

impl ShogiHand256KingRank81Bucket {
    /// Bucket of a training record.
    pub fn bucket_index(pos: &PackedSfenValue) -> (r: usize)
        ensures
            r == spec_hand256_pair(spec_decode(pos.data@)) * 81 + spec_king_rank_formula(81, spec_king_ranks(spec_decode(pos.data@)).0, spec_king_ranks(spec_decode(pos.data@)).1),
    {
        proof {
            lemma_decoded_hands_fit(pos.data@);
            lemma_hand_pair_bounds(spec_decode(pos.data@));
        }
        ShogiHand256Bucket::bucket_index(pos) * 81 + ShogiKingRankBucket::<81>.bucket(pos)
    }
}

/// `hand256` x `k21k21` layer-stack buckets: hand bucket times 441 plus king
/// bucket.
#[derive(Clone, Copy, Debug, Default)]
pub struct ShogiHand256King21ByKing21Bucket;

impl ShogiHand256King21ByKing21Bucket {
    /// Bucket of a training record.
    pub fn bucket_index(pos: &PackedSfenValue) -> (r: usize)
        requires
            spec_decode(pos.data@).white_king_sq.spec_valid(),
        ensures
            r == spec_hand256_pair(spec_decode(pos.data@)) * 441 + spec_king21_pair(spec_decode(pos.data@)),
    {
        proof {
            lemma_decoded_hands_fit(pos.data@);
            lemma_hand_pair_bounds(spec_decode(pos.data@));
        }
        ShogiHand256Bucket::bucket_index(pos) * 441 + ShogiKing21ByKing21Bucket::bucket_index(pos)
    }
}

/// `hand256` x `k29k29` layer-stack buckets: hand bucket times 841 plus king
/// bucket.
#[derive(Clone, Copy, Debug, Default)]
pub struct ShogiHand256King29ByKing29Bucket;

impl ShogiHand256King29ByKing29Bucket {
    /// Bucket of a training record.
    pub fn bucket_index(pos: &PackedSfenValue) -> (r: usize)
        requires
            spec_decode(pos.data@).white_king_sq.spec_valid(),
        ensures
            r == spec_hand256_pair(spec_decode(pos.data@)) * 841 + spec_king29_pair(spec_decode(pos.data@)),
    {
        proof {
            lemma_decoded_hands_fit(pos.data@);
            lemma_hand_pair_bounds(spec_decode(pos.data@));
        }
        ShogiHand256Bucket::bucket_index(pos) * 841 + ShogiKing29ByKing29Bucket::bucket_index(pos)
    }
}

/// `hand1024` x `k3k3` layer-stack buckets: hand bucket times 9 plus king
/// bucket.
#[derive(Clone, Copy, Debug, Default)]
pub struct ShogiHand1024KingRankBucket;

impl ShogiHand1024KingRankBucket {
    /// Bucket of a training record.
    pub fn bucket_index(pos: &PackedSfenValue) -> (r: usize)
        ensures
            r == spec_hand1024_pair(spec_decode(pos.data@)) * 9 + spec_king_rank_formula(9, spec_king_ranks(spec_decode(pos.data@)).0, spec_king_ranks(spec_decode(pos.data@)).1),
    {
        proof {
            lemma_decoded_hands_fit(pos.data@);
            lemma_hand_pair_bounds(spec_decode(pos.data@));
        }
        ShogiHand1024Bucket::bucket_index(pos) * 9 + ShogiKingRankBucket::<9>.bucket(pos)
    }
}

/// `hand1024` x `k9k9` layer-stack buckets: hand bucket times 81 plus king
/// bucket.
#[derive(Clone, Copy, Debug, Default)]
pub struct ShogiHand1024KingRank81Bucket;

impl ShogiHand1024KingRank81Bucket {
    /// Bucket of a training record.
    pub fn bucket_index(pos: &PackedSfenValue) -> (r: usize)
        ensures
            r == spec_hand1024_pair(spec_decode(pos.data@)) * 81 + spec_king_rank_formula(81, spec_king_ranks(spec_decode(pos.data@)).0, spec_king_ranks(spec_decode(pos.data@)).1),
    {
        proof {
            lemma_decoded_hands_fit(pos.data@);
            lemma_hand_pair_bounds(spec_decode(pos.data@));
        }
        ShogiHand1024Bucket::bucket_index(pos) * 81 + ShogiKingRankBucket::<81>.bucket(pos)
    }
}

/// `hand1024` x `k21k21` layer-stack buckets: hand bucket times 441 plus king
/// bucket.
#[derive(Clone, Copy, Debug, Default)]
pub struct ShogiHand1024King21ByKing21Bucket;

impl ShogiHand1024King21ByKing21Bucket {
    /// Bucket of a training record.
    pub fn bucket_index(pos: &PackedSfenValue) -> (r: usize)
        requires
            spec_decode(pos.data@).white_king_sq.spec_valid(),
        ensures
            r == spec_hand1024_pair(spec_decode(pos.data@)) * 441 + spec_king21_pair(spec_decode(pos.data@)),
    {
        proof {
            lemma_decoded_hands_fit(pos.data@);
            lemma_hand_pair_bounds(spec_decode(pos.data@));
        }
        ShogiHand1024Bucket::bucket_index(pos) * 441 + ShogiKing21ByKing21Bucket::bucket_index(pos)
    }
}

/// `hand1024` x `k29k29` layer-stack buckets: hand bucket times 841 plus king
/// bucket.
#[derive(Clone, Copy, Debug, Default)]
pub struct ShogiHand1024King29ByKing29Bucket;

impl ShogiHand1024King29ByKing29Bucket {
    /// Bucket of a training record.
    pub fn bucket_index(pos: &PackedSfenValue) -> (r: usize)
        requires
            spec_decode(pos.data@).white_king_sq.spec_valid(),
        ensures
            r == spec_hand1024_pair(spec_decode(pos.data@)) * 841 + spec_king29_pair(spec_decode(pos.data@)),
    {
        proof {
            lemma_decoded_hands_fit(pos.data@);
            lemma_hand_pair_bounds(spec_decode(pos.data@));
        }
        ShogiHand1024Bucket::bucket_index(pos) * 841 + ShogiKing29ByKing29Bucket::bucket_index(pos)
    }
}


/// Default ply bounds of the 9 ply buckets: bucket `i < 8` takes plies up to
/// `bounds[i]`, bucket 8 the rest.
pub const SHOGI_PLY_BUCKET9_DEFAULT_BOUNDS: [u16; 8] = [30, 44, 58, 72, 86, 100, 116, 138];

/// Ply bucket of `ply` from bound `i` on: the first `j >= i` below 8 with
/// `ply <= bounds[j]`, else 8.
pub open spec fn spec_ply_bucket_from(bounds: Seq<u16>, ply: u16, i: int) -> int
    decreases 8 - i,
{
    if i >= 8 {
        8
    } else if ply <= bounds[i] {
        i
    } else {
        spec_ply_bucket_from(bounds, ply, i + 1)
    }
}

/// Nine buckets by game ply, split at eight bounds.
#[derive(Clone, Copy, Debug)]
pub struct ShogiPlyBucket9 {
    pub bounds: [u16; 8],
}

impl Default for ShogiPlyBucket9 {
    /// The default bounds.
    fn default() -> (r: Self)
        ensures
            r.bounds@ == seq![30u16, 44, 58, 72, 86, 100, 116, 138],
    {
        let r = ShogiPlyBucket9 { bounds: SHOGI_PLY_BUCKET9_DEFAULT_BOUNDS };
        assert(r.bounds@ =~= seq![30u16, 44, 58, 72, 86, 100, 116, 138]);
        r
    }
}

impl ShogiPlyBucket9 {
    /// Bucket of game ply `ply`: the first bound it does not exceed, 8 past
    /// the last.
    pub fn bucket_of_ply(&self, ply: u16) -> (r: usize)
        ensures
            r == spec_ply_bucket_from(self.bounds@, ply, 0),
            r <= 8,
    {
        let mut i: usize = 0;
        while i < 8
            invariant
                i <= 8,
                spec_ply_bucket_from(self.bounds@, ply, i as int) == spec_ply_bucket_from(self.bounds@, ply, 0),
            decreases 8 - i,
        {
            if ply <= self.bounds[i] {
                return i;
            }
            i = i + 1;
        }
        8
    }

    /// Bucket of a training record by its game ply.
    pub fn bucket(&self, pos: &PackedSfenValue) -> (r: usize)
        ensures
            r == spec_ply_bucket_from(self.bounds@, spec_le_u16(pos.data@[36], pos.data@[37]), 0),
            r <= 8,
    {
        self.bucket_of_ply(pos.game_ply())
    }
}

impl OutputBuckets<PackedSfenValue> for ShogiPlyBucket9 {
    const BUCKETS: usize = 9;

    fn bucket(&self, pos: &PackedSfenValue) -> (r: usize)
        ensures
            r == spec_ply_bucket_from(self.bounds@, spec_le_u16(pos.data@[36], pos.data@[37]), 0),
    {
        self.bucket_of_ply(pos.game_ply())
    }
}

impl<const N: usize> OutputBuckets<PackedSfenValue> for ShogiKingRankBucket<N> {
    const BUCKETS: usize = N;

    fn bucket(&self, pos: &PackedSfenValue) -> (r: usize)
        ensures
            r == spec_king_rank_formula(
                N as int,
                spec_king_ranks(spec_decode(pos.data@)).0,
                spec_king_ranks(spec_decode(pos.data@)).1,
            ),
    {
        ShogiKingRankBucket::<N>::bucket(self, pos)
    }
}

} // verus!

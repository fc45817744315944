//! Layer-stack buckets of SFNN networks: a hand axis, a king axis and a
//! progress axis, combined into one stack index.

use vstd::prelude::*;
use crate::outputs::progress::{
    ShogiSfnnProgressState, shogi_sfnn_progress_0_to_255_from_board, shogi_sfnn_progress_bucket,
    shogi_sfnn_progress_bucket_from_value, spec_count_le, spec_progress_bucket_from_value, spec_state_sum_q16,
    spec_thresholds,
};
use crate::outputs::{
    ShogiHand1024Bucket, ShogiHand16Bucket, ShogiHand256Bucket, ShogiHand4Bucket, ShogiHand64Bucket,
    ShogiHand64zBucket, ShogiKing13ZoneByKing13ZoneBucket, ShogiKing21ByKing21Bucket, ShogiKing29ByKing29Bucket,
    ShogiKing9ZoneByKing9ZoneBucket, ShogiKingRankBucket, lemma_decoded_hands_fit, lemma_hand_pair_bounds, lemma_king_rank_bound,
    shogi_hand1024_single_bucket, shogi_hand16_single_bucket, shogi_hand256_single_bucket,
    shogi_hand4_single_bucket, shogi_hand64_single_bucket, shogi_hand64z_single_bucket,
    shogi_king13_zone_single_bucket, shogi_king21_single_bucket, shogi_king29_single_bucket,
    shogi_king9_zone_single_bucket, shogi_king_rank_bucket_from_board, shogi_perspective_king_squares_from_board,
    shogi_stm_ntm_hands_from_board, spec_fits1024, spec_fits256, spec_fits64, spec_fits64z, spec_hand1024_pair,
    spec_hand16_pair, spec_hand256_pair, spec_hand4_pair, spec_hand64_pair, spec_hand64z_pair, spec_king13_zone,
    spec_king13_zone_pair, spec_king21, spec_king21_pair, spec_king29, spec_king29_pair, spec_king9_zone,
    spec_king9_zone_pair, spec_king_rank_formula, spec_king_rank_from_board, spec_king_ranks, spec_persp_kings,
    spec_stm_ntm_hands,
};
use crate::shogi::board::{BoardView, ShogiBoard};
use crate::shogi::packed_sfen::{PackedSfenValue, spec_decode};
use crate::shogi::types::Square;

verus! {

/// Hand axis of a layer-stack bucket.
#[derive(Clone, Copy, Debug, PartialEq, Eq, Structural)]
pub enum ShogiSfnnHandBucketKind {
    NoAxis,
    Hand4,
    Hand16,
    Hand64,
    Hand64z,
    Hand256,
    Hand1024,
}

impl Default for ShogiSfnnHandBucketKind {
    /// No hand axis.
    fn default() -> (r: Self)
        ensures
            r == ShogiSfnnHandBucketKind::NoAxis,
    {
        ShogiSfnnHandBucketKind::NoAxis
    }
}

/// Number of hand buckets of a hand axis.
pub open spec fn spec_hand_kind_count(k: ShogiSfnnHandBucketKind) -> int {
    match k {
        ShogiSfnnHandBucketKind::NoAxis => 1,
        ShogiSfnnHandBucketKind::Hand4 => 4,
        ShogiSfnnHandBucketKind::Hand16 => 16,
        ShogiSfnnHandBucketKind::Hand64 => 64,
        ShogiSfnnHandBucketKind::Hand64z => 64,
        ShogiSfnnHandBucketKind::Hand256 => 256,
        ShogiSfnnHandBucketKind::Hand1024 => 1024,
    }
}

/// The hands of `b` keep the byte sums of hand axis `k` within a byte.
pub open spec fn spec_hand_kind_fits(k: ShogiSfnnHandBucketKind, b: BoardView) -> bool {
    let (s, n) = spec_stm_ntm_hands(b);
    match k {
        ShogiSfnnHandBucketKind::Hand64 => spec_fits64(s) && spec_fits64(n),
        ShogiSfnnHandBucketKind::Hand64z => spec_fits64z(s) && spec_fits64z(n),
        ShogiSfnnHandBucketKind::Hand256 => spec_fits256(s) && spec_fits256(n),
        ShogiSfnnHandBucketKind::Hand1024 => spec_fits1024(s) && spec_fits1024(n),
        _ => true,
    }
}

/// Hand bucket of `b` on hand axis `k`: the side to move's hand bucket times
/// the number of single-hand buckets plus the other hand's.
pub open spec fn spec_hand_kind_bucket(k: ShogiSfnnHandBucketKind, b: BoardView) -> int {
    match k {
        ShogiSfnnHandBucketKind::NoAxis => 0,
        ShogiSfnnHandBucketKind::Hand4 => spec_hand4_pair(b),
        ShogiSfnnHandBucketKind::Hand16 => spec_hand16_pair(b),
        ShogiSfnnHandBucketKind::Hand64 => spec_hand64_pair(b),
        ShogiSfnnHandBucketKind::Hand64z => spec_hand64z_pair(b),
        ShogiSfnnHandBucketKind::Hand256 => spec_hand256_pair(b),
        ShogiSfnnHandBucketKind::Hand1024 => spec_hand1024_pair(b),
    }
}

impl ShogiSfnnHandBucketKind {
    /// Number of hand buckets.
    pub fn bucket_count(self) -> (r: usize)
        ensures
            r == spec_hand_kind_count(self),
    {
        match self {
            ShogiSfnnHandBucketKind::NoAxis => 1,
            ShogiSfnnHandBucketKind::Hand4 => 4,
            ShogiSfnnHandBucketKind::Hand16 => 16,
            ShogiSfnnHandBucketKind::Hand64 => 64,
            ShogiSfnnHandBucketKind::Hand64z => 64,
            ShogiSfnnHandBucketKind::Hand256 => 256,
            ShogiSfnnHandBucketKind::Hand1024 => 1024,
        }
    }

    /// Hand bucket of a training record.
    pub fn bucket(self, pos: &PackedSfenValue) -> (r: usize)
        ensures
            r == spec_hand_kind_bucket(self, spec_decode(pos.data@)),
    {
        proof {
            lemma_decoded_hands_fit(pos.data@);
        }
        match self {
            ShogiSfnnHandBucketKind::NoAxis => 0,
            ShogiSfnnHandBucketKind::Hand4 => ShogiHand4Bucket::bucket_index(pos),
            ShogiSfnnHandBucketKind::Hand16 => ShogiHand16Bucket::bucket_index(pos),
            ShogiSfnnHandBucketKind::Hand64 => ShogiHand64Bucket::bucket_index(pos),
            ShogiSfnnHandBucketKind::Hand64z => ShogiHand64zBucket::bucket_index(pos),
            ShogiSfnnHandBucketKind::Hand256 => ShogiHand256Bucket::bucket_index(pos),
            ShogiSfnnHandBucketKind::Hand1024 => ShogiHand1024Bucket::bucket_index(pos),
        }
    }

    /// Hand bucket of a decoded position.
    pub fn bucket_from_board(self, board: &ShogiBoard) -> (r: usize)
        requires
            spec_hand_kind_fits(self, board@),
        ensures
            r == spec_hand_kind_bucket(self, board@),
            r < spec_hand_kind_count(self),
    {
        proof {
            lemma_hand_pair_bounds(board@);
        }
        let (stm_hand, ntm_hand) = shogi_stm_ntm_hands_from_board(board);
        match self {
            ShogiSfnnHandBucketKind::NoAxis => 0,
            ShogiSfnnHandBucketKind::Hand4 => shogi_hand4_single_bucket(stm_hand) * 2 + shogi_hand4_single_bucket(
                ntm_hand,
            ),
            ShogiSfnnHandBucketKind::Hand16 => shogi_hand16_single_bucket(stm_hand) * 4 + shogi_hand16_single_bucket(
                ntm_hand,
            ),
            ShogiSfnnHandBucketKind::Hand64 => shogi_hand64_single_bucket(stm_hand) * 8 + shogi_hand64_single_bucket(
                ntm_hand,
            ),
            ShogiSfnnHandBucketKind::Hand64z => shogi_hand64z_single_bucket(stm_hand) * 8
                + shogi_hand64z_single_bucket(ntm_hand),
            ShogiSfnnHandBucketKind::Hand256 => shogi_hand256_single_bucket(stm_hand) * 16
                + shogi_hand256_single_bucket(ntm_hand),
            ShogiSfnnHandBucketKind::Hand1024 => shogi_hand1024_single_bucket(stm_hand) * 32
                + shogi_hand1024_single_bucket(ntm_hand),
        }
    }
}

/// King axis of a layer-stack bucket.
#[derive(Clone, Copy, Debug, PartialEq, Eq, Structural)]
pub enum ShogiSfnnKingBucketKind {
    NoAxis,
    KingRank9,
    KingRank81,
    King9ZoneByKing9Zone,
    King13ZoneByKing13Zone,
    King21ByKing21,
    King29ByKing29,
}

impl Default for ShogiSfnnKingBucketKind {
    /// The 3 x 3 king-rank axis.
    fn default() -> (r: Self)
        ensures
            r == ShogiSfnnKingBucketKind::KingRank9,
    {
        ShogiSfnnKingBucketKind::KingRank9
    }
}

/// Number of king buckets of a king axis.
pub open spec fn spec_king_kind_count(k: ShogiSfnnKingBucketKind) -> int {
    match k {
        ShogiSfnnKingBucketKind::NoAxis => 1,
        ShogiSfnnKingBucketKind::KingRank9 => 9,
        ShogiSfnnKingBucketKind::KingRank81 => 81,
        ShogiSfnnKingBucketKind::King9ZoneByKing9Zone => 81,
        ShogiSfnnKingBucketKind::King13ZoneByKing13Zone => 169,
        ShogiSfnnKingBucketKind::King21ByKing21 => 441,
        ShogiSfnnKingBucketKind::King29ByKing29 => 841,
    }
}

/// King bucket of a decoded position on king axis `k`, from both kings
/// seen from their owners' sides.
pub open spec fn spec_king_kind_bucket(k: ShogiSfnnKingBucketKind, b: BoardView) -> int {
    match k {
        ShogiSfnnKingBucketKind::NoAxis => 0,
        ShogiSfnnKingBucketKind::KingRank9 => spec_king_rank_from_board(9, b),
        ShogiSfnnKingBucketKind::KingRank81 => spec_king_rank_from_board(81, b),
        ShogiSfnnKingBucketKind::King9ZoneByKing9Zone => spec_king9_zone_pair(b),
        ShogiSfnnKingBucketKind::King13ZoneByKing13Zone => spec_king13_zone_pair(b),
        ShogiSfnnKingBucketKind::King21ByKing21 => spec_king21_pair(b),
        ShogiSfnnKingBucketKind::King29ByKing29 => spec_king29_pair(b),
    }
}

/// King bucket of a training record on king axis `k`; the rank axes read
/// the kings' ranks straight from the record.
pub open spec fn spec_king_kind_bucket_of_record(k: ShogiSfnnKingBucketKind, b: BoardView) -> int {
    match k {
        ShogiSfnnKingBucketKind::KingRank9 => spec_king_rank_formula(9, spec_king_ranks(b).0, spec_king_ranks(b).1),
        ShogiSfnnKingBucketKind::KingRank81 => spec_king_rank_formula(
            81,
            spec_king_ranks(b).0,
            spec_king_ranks(b).1,
        ),
        _ => spec_king_kind_bucket(k, b),
    }
}

/// King axis `k` reads the kings' squares from their owners' sides.
pub open spec fn spec_king_kind_turns_board(k: ShogiSfnnKingBucketKind) -> bool {
    k != ShogiSfnnKingBucketKind::NoAxis
}

/// King axis `k` reads the kings' squares from their owners' sides when it
/// buckets a training record.
pub open spec fn spec_king_kind_turns_record(k: ShogiSfnnKingBucketKind) -> bool {
    k != ShogiSfnnKingBucketKind::NoAxis && k != ShogiSfnnKingBucketKind::KingRank9 && k
        != ShogiSfnnKingBucketKind::KingRank81
}

pub proof fn lemma_king_single_bounds(sq: Square)
    ensures
        0 <= spec_king9_zone(sq) < 9,
        0 <= spec_king13_zone(sq) < 13,
        0 <= spec_king21(sq) < 21,
        0 <= spec_king29(sq) < 29,
{
}

impl ShogiSfnnKingBucketKind {
    /// Number of king buckets.
    pub fn bucket_count(self) -> (r: usize)
        ensures
            r == spec_king_kind_count(self),
    {
        match self {
            ShogiSfnnKingBucketKind::NoAxis => 1,
            ShogiSfnnKingBucketKind::KingRank9 => 9,
            ShogiSfnnKingBucketKind::KingRank81 => 81,
            ShogiSfnnKingBucketKind::King9ZoneByKing9Zone => 81,
            ShogiSfnnKingBucketKind::King13ZoneByKing13Zone => 169,
            ShogiSfnnKingBucketKind::King21ByKing21 => 441,
            ShogiSfnnKingBucketKind::King29ByKing29 => 841,
        }
    }

    /// Number of buckets per king (0 without a king axis).
    pub fn axis_dim(self) -> (r: usize)
        ensures
            r == match self {
                ShogiSfnnKingBucketKind::NoAxis => 0int,
                ShogiSfnnKingBucketKind::KingRank9 => 3,
                ShogiSfnnKingBucketKind::KingRank81 => 9,
                ShogiSfnnKingBucketKind::King9ZoneByKing9Zone => 9,
                ShogiSfnnKingBucketKind::King13ZoneByKing13Zone => 13,
                ShogiSfnnKingBucketKind::King21ByKing21 => 21,
                ShogiSfnnKingBucketKind::King29ByKing29 => 29,
            },
    {
        match self {
            ShogiSfnnKingBucketKind::NoAxis => 0,
            ShogiSfnnKingBucketKind::KingRank9 => 3,
            ShogiSfnnKingBucketKind::KingRank81 => 9,
            ShogiSfnnKingBucketKind::King9ZoneByKing9Zone => 9,
            ShogiSfnnKingBucketKind::King13ZoneByKing13Zone => 13,
            ShogiSfnnKingBucketKind::King21ByKing21 => 21,
            ShogiSfnnKingBucketKind::King29ByKing29 => 29,
        }
    }

    /// King bucket of a training record.
    pub fn bucket(self, pos: &PackedSfenValue) -> (r: usize)
        requires
            spec_king_kind_turns_record(self) ==> spec_decode(pos.data@).white_king_sq.spec_valid(),
        ensures
            r == spec_king_kind_bucket_of_record(self, spec_decode(pos.data@)),
    {
        match self {
            ShogiSfnnKingBucketKind::NoAxis => 0,
            ShogiSfnnKingBucketKind::KingRank9 => ShogiKingRankBucket::<9>.bucket(pos),
            ShogiSfnnKingBucketKind::KingRank81 => ShogiKingRankBucket::<81>.bucket(pos),
            ShogiSfnnKingBucketKind::King9ZoneByKing9Zone => ShogiKing9ZoneByKing9ZoneBucket::bucket_index(pos),
            ShogiSfnnKingBucketKind::King13ZoneByKing13Zone => ShogiKing13ZoneByKing13ZoneBucket::bucket_index(pos),
            ShogiSfnnKingBucketKind::King21ByKing21 => ShogiKing21ByKing21Bucket::bucket_index(pos),
            ShogiSfnnKingBucketKind::King29ByKing29 => ShogiKing29ByKing29Bucket::bucket_index(pos),
        }
    }

    /// King bucket of a decoded position.
    pub fn bucket_from_board(self, board: &ShogiBoard) -> (r: usize)
        requires
            spec_king_kind_turns_board(self) ==> board@.white_king_sq.spec_valid(),
        ensures
            r == spec_king_kind_bucket(self, board@),
            r < spec_king_kind_count(self),
    {
        match self {
            ShogiSfnnKingBucketKind::NoAxis => 0,
            ShogiSfnnKingBucketKind::KingRank9 => {
                let r = shogi_king_rank_bucket_from_board(9, board);
                proof {
                    lemma_king_rank_bound(
                        9,
                        spec_persp_kings(board@).0.spec_rank() as int,
                        spec_persp_kings(board@).1.spec_rank() as int,
                    );
                }
                r
            },
            ShogiSfnnKingBucketKind::KingRank81 => {
                let r = shogi_king_rank_bucket_from_board(81, board);
                proof {
                    lemma_king_rank_bound(
                        81,
                        spec_persp_kings(board@).0.spec_rank() as int,
                        spec_persp_kings(board@).1.spec_rank() as int,
                    );
                }
                r
            },
            ShogiSfnnKingBucketKind::King9ZoneByKing9Zone => {
                let (f_sq, e_sq) = shogi_perspective_king_squares_from_board(board);
                shogi_king9_zone_single_bucket(f_sq) * 9 + shogi_king9_zone_single_bucket(e_sq)
            },
            ShogiSfnnKingBucketKind::King13ZoneByKing13Zone => {
                let (f_sq, e_sq) = shogi_perspective_king_squares_from_board(board);
                shogi_king13_zone_single_bucket(f_sq) * 13 + shogi_king13_zone_single_bucket(e_sq)
            },
            ShogiSfnnKingBucketKind::King21ByKing21 => {
                let (f_sq, e_sq) = shogi_perspective_king_squares_from_board(board);
                shogi_king21_single_bucket(f_sq) * 21 + shogi_king21_single_bucket(e_sq)
            },
            ShogiSfnnKingBucketKind::King29ByKing29 => {
                let (f_sq, e_sq) = shogi_perspective_king_squares_from_board(board);
                shogi_king29_single_bucket(f_sq) * 29 + shogi_king29_single_bucket(e_sq)
            },
        }
    }
}

/// Progress axis of a layer-stack bucket.
#[derive(Clone, Copy, Debug, PartialEq, Eq, Structural)]
pub enum ShogiSfnnProgressBucketKind {
    NoAxis,
    Progress2,
    Progress3,
    Progress4,
    Progress8,
    Progress16,
    Progress32,
}

impl Default for ShogiSfnnProgressBucketKind {
    /// No progress axis.
    fn default() -> (r: Self)
        ensures
            r == ShogiSfnnProgressBucketKind::NoAxis,
    {
        ShogiSfnnProgressBucketKind::NoAxis
    }
}

/// Number of progress buckets of a progress axis.
pub open spec fn spec_progress_kind_count(k: ShogiSfnnProgressBucketKind) -> int {
    match k {
        ShogiSfnnProgressBucketKind::NoAxis => 1,
        ShogiSfnnProgressBucketKind::Progress2 => 2,
        ShogiSfnnProgressBucketKind::Progress3 => 3,
        ShogiSfnnProgressBucketKind::Progress4 => 4,
        ShogiSfnnProgressBucketKind::Progress8 => 8,
        ShogiSfnnProgressBucketKind::Progress16 => 16,
        ShogiSfnnProgressBucketKind::Progress32 => 32,
    }
}

/// Progress bucket of a decoded position under the loaded progress
/// parameters on progress axis `k`.
pub open spec fn spec_progress_kind_bucket(
    k: ShogiSfnnProgressBucketKind,
    state: ShogiSfnnProgressState,
    b: BoardView,
) -> int {
    if spec_progress_kind_count(k) == 1 {
        0
    } else {
        spec_progress_bucket_from_value(
            spec_count_le(spec_thresholds(), spec_state_sum_q16(state, b), 255),
            spec_progress_kind_count(k),
        )
    }
}

impl ShogiSfnnProgressBucketKind {
    /// Number of progress buckets.
    pub fn bucket_count(self) -> (r: usize)
        ensures
            r == spec_progress_kind_count(self),
    {
        match self {
            ShogiSfnnProgressBucketKind::NoAxis => 1,
            ShogiSfnnProgressBucketKind::Progress2 => 2,
            ShogiSfnnProgressBucketKind::Progress3 => 3,
            ShogiSfnnProgressBucketKind::Progress4 => 4,
            ShogiSfnnProgressBucketKind::Progress8 => 8,
            ShogiSfnnProgressBucketKind::Progress16 => 16,
            ShogiSfnnProgressBucketKind::Progress32 => 32,
        }
    }

    /// Progress bucket of a training record.
    pub fn bucket(self, pos: &PackedSfenValue, state: &ShogiSfnnProgressState) -> (r: usize)
        requires
            self != ShogiSfnnProgressBucketKind::NoAxis ==> state.spec_usable(),
        ensures
            r == spec_progress_kind_bucket(self, *state, spec_decode(pos.data@)),
            r < spec_progress_kind_count(self),
    {
        let count = self.bucket_count();
        if count == 1 {
            0
        } else {
            shogi_sfnn_progress_bucket(pos, count, state)
        }
    }

    /// Progress bucket of a decoded position.
    pub fn bucket_from_board(self, board: &ShogiBoard, state: &ShogiSfnnProgressState) -> (r: usize)
        requires
            self != ShogiSfnnProgressBucketKind::NoAxis ==> state.spec_usable(),
        ensures
            r == spec_progress_kind_bucket(self, *state, board@),
            r < spec_progress_kind_count(self),
    {
        let count = self.bucket_count();
        if count == 1 {
            0
        } else {
            let p = shogi_sfnn_progress_0_to_255_from_board(board, state);
            assert(p as int * count as int <= 255 * 32) by (nonlinear_arith)
                requires
                    p <= 255,
                    count <= 32,
            ;
            shogi_sfnn_progress_bucket_from_value(p, count)
        }
    }
}

/// A layer-stack bucket layout: a hand axis, a king axis and a progress
/// axis. The stack index is
/// `(hand * king_count + king) * progress_count + progress`.
#[derive(Clone, Copy, Debug, PartialEq, Eq, Structural)]
pub struct ShogiSfnnLayerStackBucketKind {
    pub hand: ShogiSfnnHandBucketKind,
    pub king: ShogiSfnnKingBucketKind,
    pub progress: ShogiSfnnProgressBucketKind,
}

impl Default for ShogiSfnnLayerStackBucketKind {
    /// The 3 x 3 king-rank layout.
    fn default() -> (r: Self)
        ensures
            r == (ShogiSfnnLayerStackBucketKind {
                hand: ShogiSfnnHandBucketKind::NoAxis,
                king: ShogiSfnnKingBucketKind::KingRank9,
                progress: ShogiSfnnProgressBucketKind::NoAxis,
            }),
    {
        Self::KingRank9()
    }
}

/// Number of stacks of a layout.
pub open spec fn spec_num_stacks(k: ShogiSfnnLayerStackBucketKind) -> int {
    spec_hand_kind_count(k.hand) * spec_king_kind_count(k.king) * spec_progress_kind_count(k.progress)
}

/// What the layout `k` needs of a decoded position: hand sums that fit a
/// byte, the White king on the board for a king axis, and usable progress
/// parameters for a progress axis.
pub open spec fn spec_layer_stack_ready(
    k: ShogiSfnnLayerStackBucketKind,
    state: ShogiSfnnProgressState,
    b: BoardView,
) -> bool {
    &&& spec_hand_kind_fits(k.hand, b)
    &&& spec_king_kind_turns_board(k.king) ==> b.white_king_sq.spec_valid()
    &&& k.progress != ShogiSfnnProgressBucketKind::NoAxis ==> state.spec_usable()
}

/// What a training record needs for layout `k`: the White king on the
/// board for a king axis that turns the board round, usable progress
/// parameters for a progress axis (its hands always fit, see
/// [`lemma_decoded_hands_fit`]).
pub open spec fn spec_layer_stack_record_ready(
    k: ShogiSfnnLayerStackBucketKind,
    state: ShogiSfnnProgressState,
    b: BoardView,
) -> bool {
    &&& spec_king_kind_turns_board(k.king) ==> b.white_king_sq.spec_valid()
    &&& k.progress != ShogiSfnnProgressBucketKind::NoAxis ==> state.spec_usable()
}

/// Stack index of a decoded position under layout `k`.
pub open spec fn spec_layer_stack_bucket(
    k: ShogiSfnnLayerStackBucketKind,
    state: ShogiSfnnProgressState,
    b: BoardView,
) -> int {
    (spec_hand_kind_bucket(k.hand, b) * spec_king_kind_count(k.king) + spec_king_kind_bucket(k.king, b))
        * spec_progress_kind_count(k.progress) + spec_progress_kind_bucket(k.progress, state, b)
}

impl ShogiSfnnLayerStackBucketKind {
    pub fn new(
        hand: ShogiSfnnHandBucketKind,
        king: ShogiSfnnKingBucketKind,
        progress: ShogiSfnnProgressBucketKind,
    ) -> (r: Self)
        ensures
            r == (ShogiSfnnLayerStackBucketKind { hand, king, progress }),
    {
        ShogiSfnnLayerStackBucketKind { hand, king, progress }
    }

    /// Number of hand buckets.
    pub fn hand_bucket_count(self) -> (r: usize)
        ensures
            r == spec_hand_kind_count(self.hand),
    {
        self.hand.bucket_count()
    }

    /// Number of king buckets.
    pub fn king_bucket_count(self) -> (r: usize)
        ensures
            r == spec_king_kind_count(self.king),
    {
        self.king.bucket_count()
    }

    /// Number of progress buckets.
    pub fn progress_bucket_count(self) -> (r: usize)
        ensures
            r == spec_progress_kind_count(self.progress),
    {
        self.progress.bucket_count()
    }

    /// Number of stacks: the product of the three axes' bucket counts.
    pub fn num_stacks(self) -> (r: usize)
        ensures
            r == spec_num_stacks(self),
    {
        let h = self.hand_bucket_count();
        let k = self.king_bucket_count();
        let p = self.progress_bucket_count();
        assert(h * k * p <= 1024 * 841 * 32) by (nonlinear_arith)
            requires
                1 <= h <= 1024,
                1 <= k <= 841,
                1 <= p <= 32,
        ;
        h * k * p
    }

    /// Stack index of a training record.
    pub fn bucket(self, pos: &PackedSfenValue, state: &ShogiSfnnProgressState) -> (r: usize)
        requires
            spec_layer_stack_record_ready(self, *state, spec_decode(pos.data@)),
        ensures
            r == spec_layer_stack_bucket(self, *state, spec_decode(pos.data@)),
            r < spec_num_stacks(self),
    {
        proof {
            lemma_decoded_hands_fit(pos.data@);
        }
        let board = pos.decode();
        self.bucket_from_board(&board, state)
    }

    /// Stack index of a decoded position; always below the number of
    /// stacks.
    pub fn bucket_from_board(self, board: &ShogiBoard, state: &ShogiSfnnProgressState) -> (r: usize)
        requires
            spec_layer_stack_ready(self, *state, board@),
        ensures
            r == spec_layer_stack_bucket(self, *state, board@),
            r < spec_num_stacks(self),
    {
        let hand_bucket = self.hand.bucket_from_board(board);
        let king_bucket = self.king.bucket_from_board(board);
        let progress_bucket = self.progress.bucket_from_board(board, state);
        let kc = self.king_bucket_count();
        let pc = self.progress_bucket_count();
        let hc = self.hand_bucket_count();
        assert((hand_bucket * kc + king_bucket) * pc + progress_bucket < hc * kc * pc) by (nonlinear_arith)
            requires
                hand_bucket < hc,
                king_bucket < kc,
                progress_bucket < pc,
                hc <= 1024,
                kc <= 841,
                pc <= 32,
        ;
        assert(hc * kc * pc <= 1024 * 841 * 32) by (nonlinear_arith)
            requires
                1 <= hc <= 1024,
                1 <= kc <= 841,
                1 <= pc <= 32,
        ;
        (hand_bucket * kc + king_bucket) * pc + progress_bucket
    }
}

impl ShogiSfnnLayerStackBucketKind {
    /// Hand axis `NoAxis`, king axis `NoAxis`, no progress axis.
    #[allow(non_snake_case)]
    pub fn Single() -> (r: Self)
        ensures
            r == (ShogiSfnnLayerStackBucketKind {
                hand: ShogiSfnnHandBucketKind::NoAxis,
                king: ShogiSfnnKingBucketKind::NoAxis,
                progress: ShogiSfnnProgressBucketKind::NoAxis,
            }),
    {
        Self::new(ShogiSfnnHandBucketKind::NoAxis, ShogiSfnnKingBucketKind::NoAxis, ShogiSfnnProgressBucketKind::NoAxis)
    }

    /// Hand axis `NoAxis`, king axis `KingRank9`, no progress axis.
    #[allow(non_snake_case)]
    pub fn KingRank9() -> (r: Self)
        ensures
            r == (ShogiSfnnLayerStackBucketKind {
                hand: ShogiSfnnHandBucketKind::NoAxis,
                king: ShogiSfnnKingBucketKind::KingRank9,
                progress: ShogiSfnnProgressBucketKind::NoAxis,
            }),
    {
        Self::new(ShogiSfnnHandBucketKind::NoAxis, ShogiSfnnKingBucketKind::KingRank9, ShogiSfnnProgressBucketKind::NoAxis)
    }

    /// Hand axis `NoAxis`, king axis `KingRank81`, no progress axis.
    #[allow(non_snake_case)]
    pub fn KingRank81() -> (r: Self)
        ensures
            r == (ShogiSfnnLayerStackBucketKind {
                hand: ShogiSfnnHandBucketKind::NoAxis,
                king: ShogiSfnnKingBucketKind::KingRank81,
                progress: ShogiSfnnProgressBucketKind::NoAxis,
            }),
    {
        Self::new(ShogiSfnnHandBucketKind::NoAxis, ShogiSfnnKingBucketKind::KingRank81, ShogiSfnnProgressBucketKind::NoAxis)
    }

    /// Hand axis `NoAxis`, king axis `King9ZoneByKing9Zone`, no progress axis.
    #[allow(non_snake_case)]
    pub fn King9ZoneByKing9Zone() -> (r: Self)
        ensures
            r == (ShogiSfnnLayerStackBucketKind {
                hand: ShogiSfnnHandBucketKind::NoAxis,
                king: ShogiSfnnKingBucketKind::King9ZoneByKing9Zone,
                progress: ShogiSfnnProgressBucketKind::NoAxis,
            }),
    {
        Self::new(ShogiSfnnHandBucketKind::NoAxis, ShogiSfnnKingBucketKind::King9ZoneByKing9Zone, ShogiSfnnProgressBucketKind::NoAxis)
    }

    /// Hand axis `NoAxis`, king axis `King13ZoneByKing13Zone`, no progress axis.
    #[allow(non_snake_case)]
    pub fn King13ZoneByKing13Zone() -> (r: Self)
        ensures
            r == (ShogiSfnnLayerStackBucketKind {
                hand: ShogiSfnnHandBucketKind::NoAxis,
                king: ShogiSfnnKingBucketKind::King13ZoneByKing13Zone,
                progress: ShogiSfnnProgressBucketKind::NoAxis,
            }),
    {
        Self::new(ShogiSfnnHandBucketKind::NoAxis, ShogiSfnnKingBucketKind::King13ZoneByKing13Zone, ShogiSfnnProgressBucketKind::NoAxis)
    }

    /// Hand axis `NoAxis`, king axis `King21ByKing21`, no progress axis.
    #[allow(non_snake_case)]
    pub fn King21ByKing21() -> (r: Self)
        ensures
            r == (ShogiSfnnLayerStackBucketKind {
                hand: ShogiSfnnHandBucketKind::NoAxis,
                king: ShogiSfnnKingBucketKind::King21ByKing21,
                progress: ShogiSfnnProgressBucketKind::NoAxis,
            }),
    {
        Self::new(ShogiSfnnHandBucketKind::NoAxis, ShogiSfnnKingBucketKind::King21ByKing21, ShogiSfnnProgressBucketKind::NoAxis)
    }

    /// Hand axis `NoAxis`, king axis `King29ByKing29`, no progress axis.
    #[allow(non_snake_case)]
    pub fn King29ByKing29() -> (r: Self)
        ensures
            r == (ShogiSfnnLayerStackBucketKind {
                hand: ShogiSfnnHandBucketKind::NoAxis,
                king: ShogiSfnnKingBucketKind::King29ByKing29,
                progress: ShogiSfnnProgressBucketKind::NoAxis,
            }),
    {
        Self::new(ShogiSfnnHandBucketKind::NoAxis, ShogiSfnnKingBucketKind::King29ByKing29, ShogiSfnnProgressBucketKind::NoAxis)
    }

    /// Hand axis `Hand4`, king axis `NoAxis`, no progress axis.
    #[allow(non_snake_case)]
    pub fn Hand4() -> (r: Self)
        ensures
            r == (ShogiSfnnLayerStackBucketKind {
                hand: ShogiSfnnHandBucketKind::Hand4,
                king: ShogiSfnnKingBucketKind::NoAxis,
                progress: ShogiSfnnProgressBucketKind::NoAxis,
            }),
    {
        Self::new(ShogiSfnnHandBucketKind::Hand4, ShogiSfnnKingBucketKind::NoAxis, ShogiSfnnProgressBucketKind::NoAxis)
    }

    /// Hand axis `Hand16`, king axis `NoAxis`, no progress axis.
    #[allow(non_snake_case)]
    pub fn Hand16() -> (r: Self)
        ensures
            r == (ShogiSfnnLayerStackBucketKind {
                hand: ShogiSfnnHandBucketKind::Hand16,
                king: ShogiSfnnKingBucketKind::NoAxis,
                progress: ShogiSfnnProgressBucketKind::NoAxis,
            }),
    {
        Self::new(ShogiSfnnHandBucketKind::Hand16, ShogiSfnnKingBucketKind::NoAxis, ShogiSfnnProgressBucketKind::NoAxis)
    }

    /// Hand axis `Hand64`, king axis `NoAxis`, no progress axis.
    #[allow(non_snake_case)]
    pub fn Hand64() -> (r: Self)
        ensures
            r == (ShogiSfnnLayerStackBucketKind {
                hand: ShogiSfnnHandBucketKind::Hand64,
                king: ShogiSfnnKingBucketKind::NoAxis,
                progress: ShogiSfnnProgressBucketKind::NoAxis,
            }),
    {
        Self::new(ShogiSfnnHandBucketKind::Hand64, ShogiSfnnKingBucketKind::NoAxis, ShogiSfnnProgressBucketKind::NoAxis)
    }

    /// Hand axis `Hand64z`, king axis `NoAxis`, no progress axis.
    #[allow(non_snake_case)]
    pub fn Hand64z() -> (r: Self)
        ensures
            r == (ShogiSfnnLayerStackBucketKind {
                hand: ShogiSfnnHandBucketKind::Hand64z,
                king: ShogiSfnnKingBucketKind::NoAxis,
                progress: ShogiSfnnProgressBucketKind::NoAxis,
            }),
    {
        Self::new(ShogiSfnnHandBucketKind::Hand64z, ShogiSfnnKingBucketKind::NoAxis, ShogiSfnnProgressBucketKind::NoAxis)
    }

    /// Hand axis `Hand64`, king axis `KingRank9`, no progress axis.
    #[allow(non_snake_case)]
    pub fn Hand64KingRank9() -> (r: Self)
        ensures
            r == (ShogiSfnnLayerStackBucketKind {
                hand: ShogiSfnnHandBucketKind::Hand64,
                king: ShogiSfnnKingBucketKind::KingRank9,
                progress: ShogiSfnnProgressBucketKind::NoAxis,
            }),
    {
        Self::new(ShogiSfnnHandBucketKind::Hand64, ShogiSfnnKingBucketKind::KingRank9, ShogiSfnnProgressBucketKind::NoAxis)
    }

    /// Hand axis `Hand64`, king axis `KingRank81`, no progress axis.
    #[allow(non_snake_case)]
    pub fn Hand64KingRank81() -> (r: Self)
        ensures
            r == (ShogiSfnnLayerStackBucketKind {
                hand: ShogiSfnnHandBucketKind::Hand64,
                king: ShogiSfnnKingBucketKind::KingRank81,
                progress: ShogiSfnnProgressBucketKind::NoAxis,
            }),
    {
        Self::new(ShogiSfnnHandBucketKind::Hand64, ShogiSfnnKingBucketKind::KingRank81, ShogiSfnnProgressBucketKind::NoAxis)
    }

    /// Hand axis `Hand64`, king axis `King21ByKing21`, no progress axis.
    #[allow(non_snake_case)]
    pub fn Hand64King21ByKing21() -> (r: Self)
        ensures
            r == (ShogiSfnnLayerStackBucketKind {
                hand: ShogiSfnnHandBucketKind::Hand64,
                king: ShogiSfnnKingBucketKind::King21ByKing21,
                progress: ShogiSfnnProgressBucketKind::NoAxis,
            }),
    {
        Self::new(ShogiSfnnHandBucketKind::Hand64, ShogiSfnnKingBucketKind::King21ByKing21, ShogiSfnnProgressBucketKind::NoAxis)
    }

    /// Hand axis `Hand64`, king axis `King29ByKing29`, no progress axis.
    #[allow(non_snake_case)]
    pub fn Hand64King29ByKing29() -> (r: Self)
        ensures
            r == (ShogiSfnnLayerStackBucketKind {
                hand: ShogiSfnnHandBucketKind::Hand64,
                king: ShogiSfnnKingBucketKind::King29ByKing29,
                progress: ShogiSfnnProgressBucketKind::NoAxis,
            }),
    {
        Self::new(ShogiSfnnHandBucketKind::Hand64, ShogiSfnnKingBucketKind::King29ByKing29, ShogiSfnnProgressBucketKind::NoAxis)
    }

    /// Hand axis `Hand256`, king axis `NoAxis`, no progress axis.
    #[allow(non_snake_case)]
    pub fn Hand256() -> (r: Self)
        ensures
            r == (ShogiSfnnLayerStackBucketKind {
                hand: ShogiSfnnHandBucketKind::Hand256,
                king: ShogiSfnnKingBucketKind::NoAxis,
                progress: ShogiSfnnProgressBucketKind::NoAxis,
            }),
    {
        Self::new(ShogiSfnnHandBucketKind::Hand256, ShogiSfnnKingBucketKind::NoAxis, ShogiSfnnProgressBucketKind::NoAxis)
    }

    /// Hand axis `Hand256`, king axis `KingRank9`, no progress axis.
    #[allow(non_snake_case)]
    pub fn Hand256KingRank9() -> (r: Self)
        ensures
            r == (ShogiSfnnLayerStackBucketKind {
                hand: ShogiSfnnHandBucketKind::Hand256,
                king: ShogiSfnnKingBucketKind::KingRank9,
                progress: ShogiSfnnProgressBucketKind::NoAxis,
            }),
    {
        Self::new(ShogiSfnnHandBucketKind::Hand256, ShogiSfnnKingBucketKind::KingRank9, ShogiSfnnProgressBucketKind::NoAxis)
    }

    /// Hand axis `Hand256`, king axis `KingRank81`, no progress axis.
    #[allow(non_snake_case)]
    pub fn Hand256KingRank81() -> (r: Self)
        ensures
            r == (ShogiSfnnLayerStackBucketKind {
                hand: ShogiSfnnHandBucketKind::Hand256,
                king: ShogiSfnnKingBucketKind::KingRank81,
                progress: ShogiSfnnProgressBucketKind::NoAxis,
            }),
    {
        Self::new(ShogiSfnnHandBucketKind::Hand256, ShogiSfnnKingBucketKind::KingRank81, ShogiSfnnProgressBucketKind::NoAxis)
    }

    /// Hand axis `Hand256`, king axis `King21ByKing21`, no progress axis.
    #[allow(non_snake_case)]
    pub fn Hand256King21ByKing21() -> (r: Self)
        ensures
            r == (ShogiSfnnLayerStackBucketKind {
                hand: ShogiSfnnHandBucketKind::Hand256,
                king: ShogiSfnnKingBucketKind::King21ByKing21,
                progress: ShogiSfnnProgressBucketKind::NoAxis,
            }),
    {
        Self::new(ShogiSfnnHandBucketKind::Hand256, ShogiSfnnKingBucketKind::King21ByKing21, ShogiSfnnProgressBucketKind::NoAxis)
    }

    /// Hand axis `Hand256`, king axis `King29ByKing29`, no progress axis.
    #[allow(non_snake_case)]
    pub fn Hand256King29ByKing29() -> (r: Self)
        ensures
            r == (ShogiSfnnLayerStackBucketKind {
                hand: ShogiSfnnHandBucketKind::Hand256,
                king: ShogiSfnnKingBucketKind::King29ByKing29,
                progress: ShogiSfnnProgressBucketKind::NoAxis,
            }),
    {
        Self::new(ShogiSfnnHandBucketKind::Hand256, ShogiSfnnKingBucketKind::King29ByKing29, ShogiSfnnProgressBucketKind::NoAxis)
    }

    /// Hand axis `Hand1024`, king axis `NoAxis`, no progress axis.
    #[allow(non_snake_case)]
    pub fn Hand1024() -> (r: Self)
        ensures
            r == (ShogiSfnnLayerStackBucketKind {
                hand: ShogiSfnnHandBucketKind::Hand1024,
                king: ShogiSfnnKingBucketKind::NoAxis,
                progress: ShogiSfnnProgressBucketKind::NoAxis,
            }),
    {
        Self::new(ShogiSfnnHandBucketKind::Hand1024, ShogiSfnnKingBucketKind::NoAxis, ShogiSfnnProgressBucketKind::NoAxis)
    }

    /// Hand axis `Hand1024`, king axis `KingRank9`, no progress axis.
    #[allow(non_snake_case)]
    pub fn Hand1024KingRank9() -> (r: Self)
        ensures
            r == (ShogiSfnnLayerStackBucketKind {
                hand: ShogiSfnnHandBucketKind::Hand1024,
                king: ShogiSfnnKingBucketKind::KingRank9,
                progress: ShogiSfnnProgressBucketKind::NoAxis,
            }),
    {
        Self::new(ShogiSfnnHandBucketKind::Hand1024, ShogiSfnnKingBucketKind::KingRank9, ShogiSfnnProgressBucketKind::NoAxis)
    }

    /// Hand axis `Hand1024`, king axis `KingRank81`, no progress axis.
    #[allow(non_snake_case)]
    pub fn Hand1024KingRank81() -> (r: Self)
        ensures
            r == (ShogiSfnnLayerStackBucketKind {
                hand: ShogiSfnnHandBucketKind::Hand1024,
                king: ShogiSfnnKingBucketKind::KingRank81,
                progress: ShogiSfnnProgressBucketKind::NoAxis,
            }),
    {
        Self::new(ShogiSfnnHandBucketKind::Hand1024, ShogiSfnnKingBucketKind::KingRank81, ShogiSfnnProgressBucketKind::NoAxis)
    }

    /// Hand axis `Hand1024`, king axis `King21ByKing21`, no progress axis.
    #[allow(non_snake_case)]
    pub fn Hand1024King21ByKing21() -> (r: Self)
        ensures
            r == (ShogiSfnnLayerStackBucketKind {
                hand: ShogiSfnnHandBucketKind::Hand1024,
                king: ShogiSfnnKingBucketKind::King21ByKing21,
                progress: ShogiSfnnProgressBucketKind::NoAxis,
            }),
    {
        Self::new(ShogiSfnnHandBucketKind::Hand1024, ShogiSfnnKingBucketKind::King21ByKing21, ShogiSfnnProgressBucketKind::NoAxis)
    }

    /// Hand axis `Hand1024`, king axis `King29ByKing29`, no progress axis.
    #[allow(non_snake_case)]
    pub fn Hand1024King29ByKing29() -> (r: Self)
        ensures
            r == (ShogiSfnnLayerStackBucketKind {
                hand: ShogiSfnnHandBucketKind::Hand1024,
                king: ShogiSfnnKingBucketKind::King29ByKing29,
                progress: ShogiSfnnProgressBucketKind::NoAxis,
            }),
    {
        Self::new(ShogiSfnnHandBucketKind::Hand1024, ShogiSfnnKingBucketKind::King29ByKing29, ShogiSfnnProgressBucketKind::NoAxis)
    }
}

/// A layer-stack bucket with a chosen layout.
#[derive(Clone, Copy, Debug)]
pub struct ShogiSfnnLayerStackBucket {
    pub kind: ShogiSfnnLayerStackBucketKind,
}

/// Most stacks any layout has: 1024 hand x 841 king x 32 progress buckets.
pub const SHOGI_SFNN_LAYER_STACK_MAX_BUCKETS: usize = 27557888;

impl Default for ShogiSfnnLayerStackBucket {
    /// The 3 x 3 king-rank layout.
    fn default() -> (r: Self)
        ensures
            r.kind == (ShogiSfnnLayerStackBucketKind {
                hand: ShogiSfnnHandBucketKind::NoAxis,
                king: ShogiSfnnKingBucketKind::KingRank9,
                progress: ShogiSfnnProgressBucketKind::NoAxis,
            }),
    {
        ShogiSfnnLayerStackBucket { kind: ShogiSfnnLayerStackBucketKind::KingRank9() }
    }
}

impl ShogiSfnnLayerStackBucket {
    pub fn new(kind: ShogiSfnnLayerStackBucketKind) -> (r: Self)
        ensures
            r.kind == kind,
    {
        ShogiSfnnLayerStackBucket { kind }
    }

    /// Stack index of a training record under this layout.
    pub fn bucket(&self, pos: &PackedSfenValue, state: &ShogiSfnnProgressState) -> (r: usize)
        requires
            spec_layer_stack_record_ready(self.kind, *state, spec_decode(pos.data@)),
        ensures
            r == spec_layer_stack_bucket(self.kind, *state, spec_decode(pos.data@)),
            r < spec_num_stacks(self.kind),
            r < SHOGI_SFNN_LAYER_STACK_MAX_BUCKETS,
    {
        let r = self.kind.bucket(pos, state);
        assert(spec_num_stacks(self.kind) <= 1024 * 841 * 32) by (nonlinear_arith)
            requires
                1 <= spec_hand_kind_count(self.kind.hand) <= 1024,
                1 <= spec_king_kind_count(self.kind.king) <= 841,
                1 <= spec_progress_kind_count(self.kind.progress) <= 32,
        ;
        r
    }
}

} // verus!

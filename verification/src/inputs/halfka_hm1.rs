//! HalfKA_hm1: 45 king buckets (king squares of files 6-9 mirrored onto files
//! 1-5) times 1710 piece inputs.

use vstd::prelude::*;
use crate::inputs::halfka::{
    mirror_bp, mirror_file_idx, spec_bucket_of, spec_hm_mirrored, spec_kings_valid, spec_mirror_bp, spec_pack_bp,
};
use crate::inputs::piece_features::{
    Scheme, push_board_pairs, push_hand_pairs, push_king_pairs, spec_pairs_below, spec_scheme_board_pairs,
    spec_scheme_hand_pairs, spec_scheme_king_pairs,
};
use crate::shogi::bona_piece::E_KING;
use crate::shogi::board::{BoardView, ShogiBoard, board_items, lemma_board_items_valid, spec_board_items};
use crate::shogi::packed_sfen::{PackedSfenValue, spec_decode};
use crate::shogi::types::Color;

verus! {

/// Feature hash (friend side).
pub const FEATURE_HASH_HALFKA_HM1: u32 = 0x7f134cb8;

/// King buckets: 5 files times 9 ranks.
pub const NUM_KING_BUCKETS: usize = 45;

/// Piece inputs per king bucket.
pub const PIECE_INPUTS: usize = 1710;

/// Input dimension: 45 x 1710.
pub const HALFKA_HM1_DIMENSIONS: usize = 76950;

/// Most features active at once: all 40 pieces.
pub const MAX_ACTIVE_FEATURES: usize = 40;

/// HalfKA_hm1 feature set.
#[derive(Clone, Copy, Debug, Default)]
pub struct ShogiHalfKaHm1;

/// Index of BonaPiece value `bp` for a king on (perspective-relative)
/// square index `king_sq_idx`: mirrored when the king is on files 6-9, both
/// king planes kept.
pub open spec fn spec_halfka_hm1_index(king_sq_idx: int, bp: int) -> int {
    spec_bucket_of(king_sq_idx) * 1710 + if spec_hm_mirrored(king_sq_idx) {
            spec_mirror_bp(bp)
        } else {
            bp
        }
}

pub fn halfka_hm1_index(king_sq_idx: usize, bp: usize) -> (r: usize)
    requires
        king_sq_idx < 81,
        bp < 1710,
    ensures
        r == spec_halfka_hm1_index(king_sq_idx as int, bp as int),
        r < HALFKA_HM1_DIMENSIONS,
{
    let (eff_king, eff_bp) = if king_sq_idx / 9 >= 5 {
        (mirror_file_idx(king_sq_idx), mirror_bp(bp))
    } else {
        (king_sq_idx, bp)
    };
    eff_king * PIECE_INPUTS + eff_bp
}

/// HalfKA_hm1 features: board pieces, the two kings, hand pieces; nothing when
/// a king is missing.
pub open spec fn spec_halfka_hm1_features(b: BoardView) -> Seq<(usize, usize)> {
    if !spec_kings_valid(b) {
        Seq::empty()
    } else {
        spec_scheme_board_pairs(Scheme::Hm1, b, spec_board_items(b)) + spec_scheme_king_pairs(Scheme::Hm1, b)
            + spec_scheme_hand_pairs(Scheme::Hm1, b)
    }
}

/// HalfKA_hm1 features of `b` (see [`spec_halfka_hm1_features`]); every index is
/// below [`HALFKA_HM1_DIMENSIONS`].
pub fn map_halfka_hm1_features(b: &ShogiBoard) -> (r: Vec<(usize, usize)>)
    ensures
        r@ == spec_halfka_hm1_features(b@),
        spec_pairs_below(r@, HALFKA_HM1_DIMENSIONS as int),
{
    let stm = b.side_to_move;
    let nstm = stm.opponent();
    let sk = b.king_square(stm);
    let nk = b.king_square(nstm);
    let mut out: Vec<(usize, usize)> = Vec::new();
    if !sk.is_valid() || !nk.is_valid() {
        assert(!spec_kings_valid(b@)) by {
            match stm {
                Color::Black => {},
                Color::White => {},
            }
        }
        return out;
    }
    assert(spec_kings_valid(b@)) by {
        match stm {
            Color::Black => {},
            Color::White => {},
        }
    }
    let items = board_items(b);
    proof {
        lemma_board_items_valid(b@);
    }
    push_board_pairs(Scheme::Hm1, b, &items, HALFKA_HM1_DIMENSIONS, &mut out);
    push_king_pairs(Scheme::Hm1, b, HALFKA_HM1_DIMENSIONS, &mut out);
    push_hand_pairs(Scheme::Hm1, b, HALFKA_HM1_DIMENSIONS, &mut out);
    assert(out@ =~= spec_halfka_hm1_features(b@));
    out
}

impl ShogiHalfKaHm1 {
    pub fn num_inputs(&self) -> (r: usize)
        ensures
            r == HALFKA_HM1_DIMENSIONS,
    {
        HALFKA_HM1_DIMENSIONS
    }

    pub fn max_active(&self) -> (r: usize)
        ensures
            r == MAX_ACTIVE_FEATURES,
    {
        MAX_ACTIVE_FEATURES
    }

    /// Features of a training record.
    pub fn map_features(&self, pos: &PackedSfenValue) -> (r: Vec<(usize, usize)>)
        ensures
            r@ == spec_halfka_hm1_features(spec_decode(pos.data@)),
            spec_pairs_below(r@, HALFKA_HM1_DIMENSIONS as int),
    {
        let board = ShogiBoard::from_packed_sfen(pos);
        map_halfka_hm1_features(&board)
    }

    pub fn shorthand(&self) -> (r: String)
        ensures
            r@ == "shogi-76950x45-hm1"@,
    {
        "shogi-76950x45-hm1".to_owned()
    }

    pub fn description(&self) -> (r: String)
        ensures
            r@ == "Shogi HalfKA_hm1: 45 king buckets (file-mirror), 1710 piece inputs (both king planes kept)"@,
    {
        "Shogi HalfKA_hm1: 45 king buckets (file-mirror), 1710 piece inputs (both king planes kept)".to_owned()
    }
}

} // verus!

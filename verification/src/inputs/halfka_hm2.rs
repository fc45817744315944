//! HalfKA_hm2: 45 king buckets (king squares of files 6-9 mirrored onto files
//! 1-5) times 1629 piece inputs.

use vstd::prelude::*;
use crate::inputs::halfka::{
    mirror_bp, mirror_file_idx, spec_bucket_of, spec_hm_mirrored, spec_kings_valid, spec_mirror_bp, spec_pack_bp,
};
use crate::inputs::piece_features::{
    Scheme, push_board_pairs, push_hand_pairs, push_king_pairs, spec_pairs_below, spec_scheme_board_pairs,
    spec_scheme_hand_pairs, spec_scheme_king_pairs,
};
use crate::shogi::bona_piece::E_KING;
use crate::shogi::board::{BoardView, ShogiBoard, board_items, lemma_board_items_valid, spec_board_items};
use crate::shogi::packed_sfen::{PackedSfenValue, spec_decode};
use crate::shogi::types::Color;

verus! {

/// Feature hash (friend side).
pub const FEATURE_HASH_HALFKA_HM2: u32 = 0x7f234cb8;

/// King buckets: 5 files times 9 ranks.
pub const NUM_KING_BUCKETS: usize = 45;

/// Piece inputs per king bucket.
pub const PIECE_INPUTS: usize = 1629;

/// Input dimension: 45 x 1629.
pub const HALFKA_HM2_DIMENSIONS: usize = 73305;

/// Most features active at once: all 40 pieces.
pub const MAX_ACTIVE_FEATURES: usize = 40;

/// HalfKA_hm2 feature set.
#[derive(Clone, Copy, Debug, Default)]
pub struct ShogiHalfKaHm2;

/// Index of BonaPiece value `bp` for a king on (perspective-relative)
/// square index `king_sq_idx`: mirrored when the king is on files 6-9, the
/// enemy king plane folded onto the friend one.
pub open spec fn spec_halfka_hm2_index(king_sq_idx: int, bp: int) -> int {
    spec_bucket_of(king_sq_idx) * 1629 + spec_pack_bp(bp, spec_hm_mirrored(king_sq_idx))
}

pub fn halfka_hm2_index(king_sq_idx: usize, bp: usize) -> (r: usize)
    requires
        king_sq_idx < 81,
        bp < 1710,
    ensures
        r == spec_halfka_hm2_index(king_sq_idx as int, bp as int),
        r < HALFKA_HM2_DIMENSIONS,
{
    let (eff_king, mut eff_bp) = if king_sq_idx / 9 >= 5 {
        (mirror_file_idx(king_sq_idx), mirror_bp(bp))
    } else {
        (king_sq_idx, bp)
    };
    if eff_bp >= E_KING as usize {
        eff_bp = eff_bp - 81;
    }
    eff_king * PIECE_INPUTS + eff_bp
}

/// HalfKA_hm2 features: board pieces, the two kings, hand pieces; nothing when
/// a king is missing.
pub open spec fn spec_halfka_hm2_features(b: BoardView) -> Seq<(usize, usize)> {
    if !spec_kings_valid(b) {
        Seq::empty()
    } else {
        spec_scheme_board_pairs(Scheme::Hm2, b, spec_board_items(b)) + spec_scheme_king_pairs(Scheme::Hm2, b)
            + spec_scheme_hand_pairs(Scheme::Hm2, b)
    }
}

/// HalfKA_hm2 features of `b` (see [`spec_halfka_hm2_features`]); every index is
/// below [`HALFKA_HM2_DIMENSIONS`].
pub fn map_halfka_hm2_features(b: &ShogiBoard) -> (r: Vec<(usize, usize)>)
    ensures
        r@ == spec_halfka_hm2_features(b@),
        spec_pairs_below(r@, HALFKA_HM2_DIMENSIONS as int),
{
    let stm = b.side_to_move;
    let nstm = stm.opponent();
    let sk = b.king_square(stm);
    let nk = b.king_square(nstm);
    let mut out: Vec<(usize, usize)> = Vec::new();
    if !sk.is_valid() || !nk.is_valid() {
        assert(!spec_kings_valid(b@)) by {
            match stm {
                Color::Black => {},
                Color::White => {},
            }
        }
        return out;
    }
    assert(spec_kings_valid(b@)) by {
        match stm {
            Color::Black => {},
            Color::White => {},
        }
    }
    let items = board_items(b);
    proof {
        lemma_board_items_valid(b@);
    }
    push_board_pairs(Scheme::Hm2, b, &items, HALFKA_HM2_DIMENSIONS, &mut out);
    push_king_pairs(Scheme::Hm2, b, HALFKA_HM2_DIMENSIONS, &mut out);
    push_hand_pairs(Scheme::Hm2, b, HALFKA_HM2_DIMENSIONS, &mut out);
    assert(out@ =~= spec_halfka_hm2_features(b@));
    out
}

impl ShogiHalfKaHm2 {
    pub fn num_inputs(&self) -> (r: usize)
        ensures
            r == HALFKA_HM2_DIMENSIONS,
    {
        HALFKA_HM2_DIMENSIONS
    }

    pub fn max_active(&self) -> (r: usize)
        ensures
            r == MAX_ACTIVE_FEATURES,
    {
        MAX_ACTIVE_FEATURES
    }

    /// Features of a training record.
    pub fn map_features(&self, pos: &PackedSfenValue) -> (r: Vec<(usize, usize)>)
        ensures
            r@ == spec_halfka_hm2_features(spec_decode(pos.data@)),
            spec_pairs_below(r@, HALFKA_HM2_DIMENSIONS as int),
    {
        let board = ShogiBoard::from_packed_sfen(pos);
        map_halfka_hm2_features(&board)
    }

    pub fn shorthand(&self) -> (r: String)
        ensures
            r@ == "shogi-73305x45-hm2"@,
    {
        "shogi-73305x45-hm2".to_owned()
    }

    pub fn description(&self) -> (r: String)
        ensures
            r@ == "Shogi HalfKA_hm2: 45 king buckets (file-mirror), 1629 piece inputs (enemy king collapsed onto friend plane)"@,
    {
        "Shogi HalfKA_hm2: 45 king buckets (file-mirror), 1629 piece inputs (enemy king collapsed onto friend plane)".to_owned()
    }
}

} // verus!

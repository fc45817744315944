//! HalfKP_vm: 45 king buckets (king squares of files 6-9 mirrored onto
//! files 1-5) times 1548 piece inputs (kings are not pieces here).

use vstd::prelude::*;
use crate::inputs::halfka::{mirror_bp, mirror_file_idx, spec_bucket_of, spec_hm_mirrored, spec_kings_valid, spec_mirror_bp};
use crate::inputs::piece_features::{
    Scheme, push_board_pairs, push_hand_pairs, spec_pairs_below, spec_scheme_board_pairs, spec_scheme_hand_pairs,
};
use crate::shogi::board::{BoardView, ShogiBoard, board_items, lemma_board_items_valid, spec_board_items};
use crate::shogi::packed_sfen::{PackedSfenValue, spec_decode};
use crate::shogi::types::Color;

verus! {

/// Feature hash of HalfKP_vm.
pub const FEATURE_HASH_HALFKPVM: u32 = 0x0B6B1D9A;

/// King buckets: 5 files times 9 ranks.
pub const NUM_KING_BUCKETS: usize = 45;

/// Piece inputs (`fe_end`).
pub const FE_END: usize = 1548;

/// Input dimension: 45 x 1548.
pub const HALFKPVM_DIMENSIONS: usize = 69660;

/// Most features active at once: 38 non-king pieces.
pub const MAX_ACTIVE_FEATURES: usize = 38;

/// HalfKP_vm feature set.
#[derive(Clone, Copy, Debug, Default)]
pub struct ShogiHalfKPvm;

/// Index of BonaPiece value `bp` for a king on (perspective-relative) square
/// index `king_sq_idx`, mirrored when the king is on files 6-9.
pub open spec fn spec_halfkpvm_index(king_sq_idx: int, bp: int) -> int {
    spec_bucket_of(king_sq_idx) * 1548 + if spec_hm_mirrored(king_sq_idx) {
        spec_mirror_bp(bp)
    } else {
        bp
    }
}

pub fn halfkpvm_index(king_sq_idx: usize, bp: usize) -> (r: usize)
    requires
        king_sq_idx < 81,
        bp < 1548,
    ensures
        r == spec_halfkpvm_index(king_sq_idx as int, bp as int),
        r < HALFKPVM_DIMENSIONS,
{
    let (eff_king, eff_bp) = if king_sq_idx / 9 >= 5 {
        (mirror_file_idx(king_sq_idx), mirror_bp(bp))
    } else {
        (king_sq_idx, bp)
    };
    eff_king * FE_END + eff_bp
}

/// HalfKP_vm features: board pieces, then hand pieces; nothing when a king
/// is missing.
pub open spec fn spec_halfkpvm_features(b: BoardView) -> Seq<(usize, usize)> {
    if !spec_kings_valid(b) {
        Seq::empty()
    } else {
        spec_scheme_board_pairs(Scheme::HalfKpVm, b, spec_board_items(b)) + spec_scheme_hand_pairs(
            Scheme::HalfKpVm,
            b,
        )
    }
}

/// HalfKP_vm features of `b` (see [`spec_halfkpvm_features`]); every index
/// is below [`HALFKPVM_DIMENSIONS`].
pub fn map_halfkpvm_features(b: &ShogiBoard) -> (r: Vec<(usize, usize)>)
    ensures
        r@ == spec_halfkpvm_features(b@),
        spec_pairs_below(r@, HALFKPVM_DIMENSIONS as int),
{
    let stm = b.side_to_move;
    let nstm = stm.opponent();
    let sk = b.king_square(stm);
    let nk = b.king_square(nstm);
    let mut out: Vec<(usize, usize)> = Vec::new();
    if !sk.is_valid() || !nk.is_valid() {
        assert(!spec_kings_valid(b@)) by {
            match stm {
                Color::Black => {},
                Color::White => {},
            }
        }
        return out;
    }
    assert(spec_kings_valid(b@)) by {
        match stm {
            Color::Black => {},
            Color::White => {},
        }
    }
    let items = board_items(b);
    proof {
        lemma_board_items_valid(b@);
    }
    push_board_pairs(Scheme::HalfKpVm, b, &items, HALFKPVM_DIMENSIONS, &mut out);
    push_hand_pairs(Scheme::HalfKpVm, b, HALFKPVM_DIMENSIONS, &mut out);
    assert(out@ =~= spec_halfkpvm_features(b@));
    out
}

impl ShogiHalfKPvm {
    pub fn num_inputs(&self) -> (r: usize)
        ensures
            r == HALFKPVM_DIMENSIONS,
    {
        HALFKPVM_DIMENSIONS
    }

    pub fn max_active(&self) -> (r: usize)
        ensures
            r == MAX_ACTIVE_FEATURES,
    {
        MAX_ACTIVE_FEATURES
    }

    /// Features of a training record.
    pub fn map_features(&self, pos: &PackedSfenValue) -> (r: Vec<(usize, usize)>)
        ensures
            r@ == spec_halfkpvm_features(spec_decode(pos.data@)),
            spec_pairs_below(r@, HALFKPVM_DIMENSIONS as int),
    {
        let board = ShogiBoard::from_packed_sfen(pos);
        map_halfkpvm_features(&board)
    }

    pub fn shorthand(&self) -> (r: String)
        ensures
            r@ == "shogi-69660x45"@,
    {
        "shogi-69660x45".to_owned()
    }

    pub fn description(&self) -> (r: String)
        ensures
            r@ == "Shogi HalfKP_vm: 45 king buckets (file-mirror folded), 1548 piece inputs (no kings)"@,
    {
        "Shogi HalfKP_vm: 45 king buckets (file-mirror folded), 1548 piece inputs (no kings)".to_owned()
    }
}

} // verus!

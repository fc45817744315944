//! KKP: one input per (own king, other king, piece) triple, 81 x 81 x 1548
//! inputs.

use vstd::prelude::*;
use crate::inputs::halfka::spec_kings_valid;
use crate::inputs::piece_features::{
    Scheme, push_board_pairs, push_hand_pairs, spec_pairs_below, spec_scheme_board_pairs, spec_scheme_hand_pairs,
    spec_scheme_board_pair, spec_scheme_index,
};
use crate::shogi::bona_piece::{BonaPiece, spec_board_bases};
use crate::shogi::types::{Color, Piece, Square};
use crate::yaneuraou_kppt::spec_kkp_source;
use crate::shogi::board::{BoardView, ShogiBoard, board_items, lemma_board_items_valid, spec_board_items};
use crate::shogi::packed_sfen::{PackedSfenValue, spec_decode};

verus! {

/// Piece inputs (`fe_end`).
pub const KKP_FE_END: usize = 1548;

/// Inputs: 81 x 81 x 1548.
pub const KKP_INPUTS: usize = 10156428;

/// Most features active at once: 38 non-king pieces.
pub const KKP_MAX_ACTIVE: usize = 38;

/// KKP feature set.
#[derive(Clone, Copy, Debug, Default)]
pub struct ShogiKkp;

/// KKP features: board pieces, then hand pieces, each numbered by the
/// perspective's king pair and its BonaPiece; nothing when a king is
/// missing.
pub open spec fn spec_kkp_features(b: BoardView) -> Seq<(usize, usize)> {
    if !spec_kings_valid(b) {
        Seq::empty()
    } else {
        spec_scheme_board_pairs(Scheme::Kkp, b, spec_board_items(b)) + spec_scheme_hand_pairs(Scheme::Kkp, b)
    }
}

/// KKP features of `b` (see [`spec_kkp_features`]); every index is below
/// [`KKP_INPUTS`].
pub fn map_kkp_features(b: &ShogiBoard) -> (r: Vec<(usize, usize)>)
    ensures
        r@ == spec_kkp_features(b@),
        spec_pairs_below(r@, KKP_INPUTS as int),
{
    let mut out: Vec<(usize, usize)> = Vec::new();
    if b.black_king_sq.0 >= 81 || b.white_king_sq.0 >= 81 {
        return out;
    }
    let items = board_items(b);
    proof {
        lemma_board_items_valid(b@);
    }
    push_board_pairs(Scheme::Kkp, b, &items, KKP_INPUTS, &mut out);
    push_hand_pairs(Scheme::Kkp, b, KKP_INPUTS, &mut out);
    assert(out@ =~= spec_kkp_features(b@));
    out
}

impl ShogiKkp {
    pub fn num_inputs(&self) -> (r: usize)
        ensures
            r == KKP_INPUTS,
    {
        KKP_INPUTS
    }

    pub fn max_active(&self) -> (r: usize)
        ensures
            r == KKP_MAX_ACTIVE,
    {
        KKP_MAX_ACTIVE
    }

    /// Features of a training record.
    pub fn map_features(&self, pos: &PackedSfenValue) -> (r: Vec<(usize, usize)>)
        ensures
            r@ == spec_kkp_features(spec_decode(pos.data@)),
            spec_pairs_below(r@, KKP_INPUTS as int),
    {
        let board = ShogiBoard::from_packed_sfen(pos);
        map_kkp_features(&board)
    }

    pub fn shorthand(&self) -> (r: String)
        ensures
            r@ == "ShogiKkp"@,
    {
        "ShogiKkp".to_owned()
    }

    pub fn description(&self) -> (r: String)
        ensures
            r@ == "Shogi KKP input (10156428 dims = 81*81*1548, max_active=38; for KPPT-style training)"@,
    {
        "Shogi KKP input (10156428 dims = 81*81*1548, max_active=38; for KPPT-style training)".to_owned()
    }
}

/// The KKP index of BonaPiece `bp` is the trained weight of YaneuraOu's
/// `kkp[bk][wk][bp]`: from Black's side with the kings as they stand, from
/// White's side with the board turned round (White's king on `80 - wk` as
/// its own, Black's on `80 - bk`).
pub proof fn lemma_kkp_index_is_yaneuraou_layout(b: BoardView, bp: int)
    requires
        spec_kings_valid(b),
    ensures
        spec_scheme_index(Scheme::Kkp, b, Color::Black, bp) == spec_kkp_source(
            b.black_king_sq.0 as int,
            b.white_king_sq.0 as int,
            bp,
        ),
        spec_scheme_index(Scheme::Kkp, b, Color::White, bp) == spec_kkp_source(
            80 - b.white_king_sq.0,
            80 - b.black_king_sq.0,
            bp,
        ),
{
}

/// With Black to move, the KKP feature pair of a board piece is the pair of
/// YaneuraOu `kkp` weights of its BonaPieces: `kkp[bk][wk][bp]` from Black's
/// side and, with the board turned round, `kkp[80 - wk][80 - bk][bp']`
/// from White's.
pub proof fn lemma_kkp_board_pair_is_yaneuraou_layout(b: BoardView, it: (Piece, Square))
    requires
        spec_kings_valid(b),
        b.side_to_move == Color::Black,
        spec_board_bases(it.0.piece_type) is Some,
        it.1.spec_valid(),
    ensures
        spec_scheme_board_pair(Scheme::Kkp, b, it) == Some(
            (
                spec_kkp_source(
                    b.black_king_sq.0 as int,
                    b.white_king_sq.0 as int,
                    BonaPiece::spec_from_piece_square(it.0, it.1, Color::Black).0 as int,
                ) as usize,
                spec_kkp_source(
                    80 - b.white_king_sq.0,
                    80 - b.black_king_sq.0,
                    BonaPiece::spec_from_piece_square(it.0, it.1, Color::White).0 as int,
                ) as usize,
            ),
        ),
{
    lemma_kkp_index_is_yaneuraou_layout(b, BonaPiece::spec_from_piece_square(it.0, it.1, Color::Black).0 as int);
    lemma_kkp_index_is_yaneuraou_layout(b, BonaPiece::spec_from_piece_square(it.0, it.1, Color::White).0 as int);
}

} // verus!

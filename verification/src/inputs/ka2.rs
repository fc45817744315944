//! K+A2: the two kings as 162 king inputs (after the piece inputs) and every
//! piece, kings included, by its BonaPiece with the enemy king plane folded
//! onto the friend one (1629 inputs).

use vstd::prelude::*;
use crate::inputs::halfka::{sq_index_from, spec_kings_valid, spec_sq_index_from};
use crate::inputs::piece_features::{
    Scheme, a2_index, push_board_pairs, push_hand_pairs, spec_a2_index, spec_pairs_below, spec_scheme_board_pairs,
    spec_scheme_hand_pairs,
};
use crate::shogi::bona_piece::{E_KING, F_KING};
use crate::shogi::board::{BoardView, ShogiBoard, board_items, lemma_board_items_valid, spec_board_items};
use crate::shogi::packed_sfen::{PackedSfenValue, spec_decode};
use crate::shogi::types::Color;

verus! {

/// Feature hash of `FeatureSet<K, A2>`.
pub const FEATURE_HASH_KA2: u32 = 0x97D5765E;

/// Piece inputs (`e_king`).
pub const KA2_A2_DIMENSIONS: usize = 1629;

/// King inputs: own king then other king, 81 squares each.
pub const KA2_K_DIMENSIONS: usize = 162;

/// All inputs: 1629 + 162.
pub const KA2_DIMENSIONS: usize = 1791;

/// Most features active at once: 40 pieces and 2 king inputs.
pub const KA2_MAX_ACTIVE: usize = 42;

/// K+A2 feature set.
#[derive(Clone, Copy, Debug, Default)]
pub struct ShogiKa2;

pub open spec fn spec_k_index_own(sq: int) -> int {
    KA2_A2_DIMENSIONS + sq
}

pub open spec fn spec_k_index_opp(sq: int) -> int {
    KA2_A2_DIMENSIONS + 81 + sq
}

/// King input of the perspective's own king on `sq` (seen from it).
pub fn k_index_own(sq: usize) -> (r: usize)
    requires
        sq < 81,
    ensures
        r == spec_k_index_own(sq as int),
{
    KA2_A2_DIMENSIONS + sq
}

/// King input of the other king on `sq` (seen from the perspective).
pub fn k_index_opp(sq: usize) -> (r: usize)
    requires
        sq < 81,
    ensures
        r == spec_k_index_opp(sq as int),
{
    KA2_A2_DIMENSIONS + 81 + sq
}

/// The K pairs, then the two A2 king pairs (each king's friend plane value
/// for its owner's perspective paired with its enemy plane value for the
/// other perspective).
pub open spec fn spec_ka2_king_parts(b: BoardView) -> (Seq<(usize, usize)>, Seq<(usize, usize)>) {
    let stm = b.side_to_move;
    let nstm = stm.spec_opponent();
    let sk = b.spec_king_square(stm);
    let nk = b.spec_king_square(nstm);
    (
        seq![
            (spec_k_index_own(spec_sq_index_from(sk, stm)) as usize, spec_k_index_opp(spec_sq_index_from(sk, nstm)) as usize),
            (spec_k_index_opp(spec_sq_index_from(nk, stm)) as usize, spec_k_index_own(spec_sq_index_from(nk, nstm)) as usize),
        ],
        seq![
            (
                spec_a2_index(F_KING + spec_sq_index_from(sk, stm)) as usize,
                spec_a2_index(E_KING + spec_sq_index_from(sk, nstm)) as usize,
            ),
            (
                spec_a2_index(E_KING + spec_sq_index_from(nk, stm)) as usize,
                spec_a2_index(F_KING + spec_sq_index_from(nk, nstm)) as usize,
            ),
        ],
    )
}

/// K+A2 features: K pairs, board pieces, the A2 king pairs, hand pieces;
/// nothing when a king is missing.
pub open spec fn spec_ka2_features(b: BoardView) -> Seq<(usize, usize)> {
    if !spec_kings_valid(b) {
        Seq::empty()
    } else {
        spec_ka2_king_parts(b).0 + spec_scheme_board_pairs(Scheme::Ka2, b, spec_board_items(b))
            + spec_ka2_king_parts(b).1 + spec_scheme_hand_pairs(Scheme::Ka2, b)
    }
}

/// K+A2 features of `b` (see [`spec_ka2_features`]); every index is below
/// [`KA2_DIMENSIONS`].
pub fn map_ka2_features(b: &ShogiBoard) -> (r: Vec<(usize, usize)>)
    ensures
        r@ == spec_ka2_features(b@),
        spec_pairs_below(r@, KA2_DIMENSIONS as int),
{
    let stm = b.side_to_move;
    let nstm = stm.opponent();
    let sk = b.king_square(stm);
    let nk = b.king_square(nstm);
    let mut out: Vec<(usize, usize)> = Vec::new();
    if !sk.is_valid() || !nk.is_valid() {
        assert(!spec_kings_valid(b@)) by {
            match stm {
                Color::Black => {},
                Color::White => {},
            }
        }
        return out;
    }
    assert(spec_kings_valid(b@)) by {
        match stm {
            Color::Black => {},
            Color::White => {},
        }
    }
    let s_own = sq_index_from(sk, stm);
    let s_opp = sq_index_from(nk, stm);
    let n_own = sq_index_from(nk, nstm);
    let n_opp = sq_index_from(sk, nstm);
    out.push((k_index_own(s_own), k_index_opp(n_opp)));
    out.push((k_index_opp(s_opp), k_index_own(n_own)));
    let items = board_items(b);
    proof {
        lemma_board_items_valid(b@);
    }
    let ghost k_part = out@;
    push_board_pairs(Scheme::Ka2, b, &items, KA2_DIMENSIONS, &mut out);
    let ghost with_board = out@;
    out.push((a2_index(F_KING + s_own as u16), a2_index(E_KING + n_opp as u16)));
    out.push((a2_index(E_KING + s_opp as u16), a2_index(F_KING + n_own as u16)));
    assert(out@ =~= with_board + spec_ka2_king_parts(b@).1);
    assert(spec_pairs_below(out@, KA2_DIMENSIONS as int)) by {
        assert forall|t: int| 0 <= t < out@.len() implies (#[trigger] out@[t]).0 < KA2_DIMENSIONS && out@[t].1
            < KA2_DIMENSIONS by {
            if t < with_board.len() {
                assert(out@[t] == with_board[t]);
            }
        }
    }
    push_hand_pairs(Scheme::Ka2, b, KA2_DIMENSIONS, &mut out);
    assert(k_part =~= spec_ka2_king_parts(b@).0);
    assert(out@ =~= spec_ka2_features(b@));
    out
}

impl ShogiKa2 {
    pub fn num_inputs(&self) -> (r: usize)
        ensures
            r == KA2_DIMENSIONS,
    {
        KA2_DIMENSIONS
    }

    pub fn max_active(&self) -> (r: usize)
        ensures
            r == KA2_MAX_ACTIVE,
    {
        KA2_MAX_ACTIVE
    }

    /// Features of a training record.
    pub fn map_features(&self, pos: &PackedSfenValue) -> (r: Vec<(usize, usize)>)
        ensures
            r@ == spec_ka2_features(spec_decode(pos.data@)),
            spec_pairs_below(r@, KA2_DIMENSIONS as int),
    {
        let board = ShogiBoard::from_packed_sfen(pos);
        map_ka2_features(&board)
    }

    pub fn shorthand(&self) -> (r: String)
        ensures
            r@ == "shogi-ka2-1791"@,
    {
        "shogi-ka2-1791".to_owned()
    }

    pub fn description(&self) -> (r: String)
        ensures
            r@ == "Shogi K+A2: 162 king features + 1629 piece features (kings collapsed onto friend plane) per perspective"@,
    {
        "Shogi K+A2: 162 king features + 1629 piece features (kings collapsed onto friend plane) per perspective".to_owned()
    }
}

} // verus!

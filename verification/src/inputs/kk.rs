//! KK: one input per (own king, other king) pair, 81 x 81 inputs.

use vstd::prelude::*;
use crate::shogi::board::BoardView;
use crate::shogi::board::ShogiBoard;
use crate::shogi::packed_sfen::{PackedSfenValue, spec_decode};
use crate::shogi::types::Color;

verus! {

/// Inputs: 81 x 81 king pairs.
pub const KK_INPUTS: usize = 6561;

/// One feature per position.
pub const KK_MAX_ACTIVE: usize = 1;

/// KK feature set.
#[derive(Clone, Copy, Debug, Default)]
pub struct ShogiKk;

/// The single KK feature pair of `b`: with `bk` the Black king square and
/// `wk` the White king square turned round, Black sees `bk * 81 + wk` and
/// White `wk * 81 + bk`.
pub open spec fn spec_kk_pair(b: BoardView) -> (usize, usize) {
    let bk = b.black_king_sq.0 as int;
    let wk = 80 - b.white_king_sq.0;
    let black = (bk * 81 + wk) as usize;
    let white = (wk * 81 + bk) as usize;
    if b.side_to_move == Color::Black {
        (black, white)
    } else {
        (white, black)
    }
}

impl ShogiKk {
    pub fn num_inputs(&self) -> (r: usize)
        ensures
            r == KK_INPUTS,
    {
        KK_INPUTS
    }

    pub fn max_active(&self) -> (r: usize)
        ensures
            r == KK_MAX_ACTIVE,
    {
        KK_MAX_ACTIVE
    }

    /// The feature of a training record whose White king is on the board.
    pub fn map_features(&self, pos: &PackedSfenValue) -> (r: Vec<(usize, usize)>)
        requires
            spec_decode(pos.data@).white_king_sq.spec_valid(),
        ensures
            r@ == seq![spec_kk_pair(spec_decode(pos.data@))],
    {
        let board = ShogiBoard::from_packed_sfen(pos);
        let bk = board.black_king_sq.index();
        let wk_inv = board.white_king_sq.inverse().index();
        let pair = match board.side_to_move {
            Color::Black => (bk * 81 + wk_inv, wk_inv * 81 + bk),
            Color::White => (wk_inv * 81 + bk, bk * 81 + wk_inv),
        };
        let mut out: Vec<(usize, usize)> = Vec::new();
        out.push(pair);
        assert(out@ =~= seq![spec_kk_pair(spec_decode(pos.data@))]);
        out
    }

    pub fn shorthand(&self) -> (r: String)
        ensures
            r@ == "ShogiKk"@,
    {
        "ShogiKk".to_owned()
    }

    pub fn description(&self) -> (r: String)
        ensures
            r@ == "Shogi KK input (6561 dims, 1-hot per position; for KPPT-style training)"@,
    {
        "Shogi KK input (6561 dims, 1-hot per position; for KPPT-style training)".to_owned()
    }
}

} // verus!

//! HalfKA_hm with a dense side input of 14 hand counts: the side to move's
//! seven hand kinds, then the other side's.

use vstd::prelude::*;
use crate::inputs::halfka::{HALFKA_HM_DIMENSIONS, MAX_ACTIVE_FEATURES, halfka_hm_features, spec_halfka_hm_features};
use crate::shogi::board::{ShogiBoard, spec_hand_count};
use crate::shogi::packed_sfen::{PackedSfenValue, spec_decode};
use crate::shogi::types::{hand_piece_type, spec_hand_piece_type};

verus! {

/// Dense hand-count inputs: 7 kinds x 2 sides.
pub const HAND_COUNT_DIMS: usize = 14;

/// HalfKA_hm with hand counts.
#[derive(Clone, Copy, Debug, Default)]
pub struct ShogiHalfKaHmHandCount;

impl ShogiHalfKaHmHandCount {
    pub fn num_inputs(&self) -> (r: usize)
        ensures
            r == HALFKA_HM_DIMENSIONS,
    {
        HALFKA_HM_DIMENSIONS
    }

    pub fn max_active(&self) -> (r: usize)
        ensures
            r == MAX_ACTIVE_FEATURES,
    {
        MAX_ACTIVE_FEATURES
    }

    /// HalfKA_hm features of a training record.
    pub fn map_features(&self, pos: &PackedSfenValue) -> (r: Vec<(usize, usize)>)
        ensures
            r@ == spec_halfka_hm_features(spec_decode(pos.data@)),
    {
        let board = ShogiBoard::from_packed_sfen(pos);
        halfka_hm_features(&board)
    }

    /// Number of dense hand-count inputs.
    pub fn hand_count_dims(&self) -> (r: Option<usize>)
        ensures
            r == Some(HAND_COUNT_DIMS),
    {
        Some(HAND_COUNT_DIMS)
    }

    /// Hand counts of a training record: slot `i < 7` holds the side to
    /// move's count of hand kind `i`, slot `7 + i` the other side's.
    pub fn hand_counts(&self, pos: &PackedSfenValue) -> (r: [u8; 14])
        ensures
            forall|i: int|
                0 <= i < 14 ==> #[trigger] r@[i] == {
                    let b = spec_decode(pos.data@);
                    let side = if i < 7 {
                        b.side_to_move
                    } else {
                        b.side_to_move.spec_opponent()
                    };
                    spec_hand_count(b.spec_hand(side), spec_hand_piece_type(i % 7))
                },
    {
        let board = ShogiBoard::from_packed_sfen(pos);
        let stm = board.side_to_move;
        let nstm = stm.opponent();
        let sh = board.hand(stm);
        let nh = board.hand(nstm);
        let mut out = [0u8; 14];
        let mut i: usize = 0;
        while i < 7
            invariant
                i <= 7,
                sh.counts@ == board@.spec_hand(stm),
                nh.counts@ == board@.spec_hand(nstm),
                stm == board.side_to_move,
                nstm == stm.spec_opponent(),
                board@ == spec_decode(pos.data@),
                forall|j: int|
                    0 <= j < i ==> out@[j] == spec_hand_count(board@.spec_hand(stm), spec_hand_piece_type(j)) && out@[j
                        + 7] == spec_hand_count(board@.spec_hand(nstm), spec_hand_piece_type(j)),
            decreases 7 - i,
        {
            let pt = hand_piece_type(i);
            out[i] = sh.count(pt);
            out[i + 7] = nh.count(pt);
            i = i + 1;
        }
        assert forall|i: int| 0 <= i < 14 implies #[trigger] out@[i] == {
            let b = spec_decode(pos.data@);
            let side = if i < 7 {
                b.side_to_move
            } else {
                b.side_to_move.spec_opponent()
            };
            spec_hand_count(b.spec_hand(side), spec_hand_piece_type(i % 7))
        } by {
            if i >= 7 {
                assert(out@[(i - 7) + 7] == out@[i]);
            }
        }
        out
    }

    pub fn shorthand(&self) -> (r: String)
        ensures
            r@ == "shogi-73305x45hm+handcount14"@,
    {
        "shogi-73305x45hm+handcount14".to_owned()
    }

    pub fn description(&self) -> (r: String)
        ensures
            r@ == "Shogi HalfKA_hm + HandCount Dense (14 dims, stm/nstm hand piece counts)"@,
    {
        "Shogi HalfKA_hm + HandCount Dense (14 dims, stm/nstm hand piece counts)".to_owned()
    }
}

} // verus!

//! K+P: the two kings as 162 king inputs (own king 0..81, other king
//! 81..162, after the piece inputs) and every other piece by its BonaPiece
//! (1548 inputs).

use vstd::prelude::*;
use crate::inputs::halfka::{sq_index_from, spec_kings_valid, spec_sq_index_from};
use crate::inputs::piece_features::{
    Scheme, push_board_pairs, push_hand_pairs, spec_pairs_below, spec_scheme_board_pairs, spec_scheme_hand_pairs,
};
use crate::shogi::board::{BoardView, ShogiBoard, board_items, lemma_board_items_valid, spec_board_items};
use crate::shogi::packed_sfen::{PackedSfenValue, spec_decode};
use crate::shogi::types::Color;

verus! {

/// Feature hash of `FeatureSet<K, P>`.
pub const FEATURE_HASH_KP: u32 = 0x3F5717FF;

/// Piece inputs (`fe_end`).
pub const KP_P_DIMENSIONS: usize = 1548;

/// King inputs: own king then other king, 81 squares each.
pub const KP_K_DIMENSIONS: usize = 162;

/// All inputs: 1548 + 162.
pub const KP_DIMENSIONS: usize = 1710;

/// Most features active at once: 38 pieces and 2 kings.
pub const KP_MAX_ACTIVE: usize = 40;

/// K+P feature set.
#[derive(Clone, Copy, Debug, Default)]
pub struct ShogiKp;

/// Input of the perspective's own king on square `sq` (seen from it).
pub open spec fn spec_k_index_own(sq: int) -> int {
    KP_P_DIMENSIONS + sq
}

/// Input of the other king on square `sq` (seen from the perspective).
pub open spec fn spec_k_index_opp(sq: int) -> int {
    KP_P_DIMENSIONS + 81 + sq
}

pub fn k_index_own(sq: usize) -> (r: usize)
    requires
        sq < 81,
    ensures
        r == spec_k_index_own(sq as int),
{
    KP_P_DIMENSIONS + sq
}

pub fn k_index_opp(sq: usize) -> (r: usize)
    requires
        sq < 81,
    ensures
        r == spec_k_index_opp(sq as int),
{
    KP_P_DIMENSIONS + 81 + sq
}

/// The two king pairs: the side to move's king, then the other king.
pub open spec fn spec_kp_king_pairs(b: BoardView) -> Seq<(usize, usize)> {
    let stm = b.side_to_move;
    let nstm = stm.spec_opponent();
    let sk = b.spec_king_square(stm);
    let nk = b.spec_king_square(nstm);
    seq![
        (spec_k_index_own(spec_sq_index_from(sk, stm)) as usize, spec_k_index_opp(spec_sq_index_from(sk, nstm)) as usize),
        (spec_k_index_opp(spec_sq_index_from(nk, stm)) as usize, spec_k_index_own(spec_sq_index_from(nk, nstm)) as usize),
    ]
}

/// K+P features: the kings, then board pieces, then hand pieces; nothing
/// when a king is missing.
pub open spec fn spec_kp_features(b: BoardView) -> Seq<(usize, usize)> {
    if !spec_kings_valid(b) {
        Seq::empty()
    } else {
        spec_kp_king_pairs(b) + spec_scheme_board_pairs(Scheme::Kp, b, spec_board_items(b)) + spec_scheme_hand_pairs(
            Scheme::Kp,
            b,
        )
    }
}

/// K+P features of `b` (see [`spec_kp_features`]); every index is below
/// [`KP_DIMENSIONS`].
pub fn map_kp_features(b: &ShogiBoard) -> (r: Vec<(usize, usize)>)
    ensures
        r@ == spec_kp_features(b@),
        spec_pairs_below(r@, KP_DIMENSIONS as int),
{
    let stm = b.side_to_move;
    let nstm = stm.opponent();
    let sk = b.king_square(stm);
    let nk = b.king_square(nstm);
    let mut out: Vec<(usize, usize)> = Vec::new();
    if !sk.is_valid() || !nk.is_valid() {
        assert(!spec_kings_valid(b@)) by {
            match stm {
                Color::Black => {},
                Color::White => {},
            }
        }
        return out;
    }
    assert(spec_kings_valid(b@)) by {
        match stm {
            Color::Black => {},
            Color::White => {},
        }
    }
    out.push((k_index_own(sq_index_from(sk, stm)), k_index_opp(sq_index_from(sk, nstm))));
    out.push((k_index_opp(sq_index_from(nk, stm)), k_index_own(sq_index_from(nk, nstm))));
    let ghost kings = out@;
    assert(kings =~= spec_kp_king_pairs(b@));
    let items = board_items(b);
    proof {
        lemma_board_items_valid(b@);
    }
    push_board_pairs(Scheme::Kp, b, &items, KP_DIMENSIONS, &mut out);
    push_hand_pairs(Scheme::Kp, b, KP_DIMENSIONS, &mut out);
    assert(out@ =~= spec_kp_features(b@));
    out
}

/// Writes the features of `pos` to the front of `stm` and `nstm` and
/// returns how many were written to each; the rest is left untouched.
pub fn fill_kp_feature_indices(pos: &PackedSfenValue, stm: &mut [i32], nstm: &mut [i32]) -> (r: (usize, usize))
    requires
        old(stm)@.len() >= spec_kp_features(spec_decode(pos.data@)).len(),
        old(nstm)@.len() >= spec_kp_features(spec_decode(pos.data@)).len(),
    ensures
        r.0 == spec_kp_features(spec_decode(pos.data@)).len(),
        r.1 == r.0,
        final(stm)@.len() == old(stm)@.len(),
        final(nstm)@.len() == old(nstm)@.len(),
        forall|i: int|
            0 <= i < r.0 ==> final(stm)@[i] == spec_kp_features(spec_decode(pos.data@))[i].0 as i32 && final(nstm)@[i] == spec_kp_features(spec_decode(pos.data@))[i].1 as i32,
        forall|i: int| r.0 <= i < old(stm)@.len() ==> final(stm)@[i] == old(stm)@[i],
        forall|i: int| r.1 <= i < old(nstm)@.len() ==> final(nstm)@[i] == old(nstm)@[i],
{
    let feats = ShogiKp.map_features(pos);
    let mut k: usize = 0;
    while k < feats.len()
        invariant
            k <= feats@.len(),
            feats@ == spec_kp_features(spec_decode(pos.data@)),
            spec_pairs_below(feats@, KP_DIMENSIONS as int),
            stm@.len() == old(stm)@.len(),
            nstm@.len() == old(nstm)@.len(),
            old(stm)@.len() >= feats@.len(),
            old(nstm)@.len() >= feats@.len(),
            forall|i: int| 0 <= i < k ==> stm@[i] == feats@[i].0 as i32 && nstm@[i] == feats@[i].1 as i32,
            forall|i: int| k <= i < old(stm)@.len() ==> stm@[i] == old(stm)@[i],
            forall|i: int| k <= i < old(nstm)@.len() ==> nstm@[i] == old(nstm)@[i],
        decreases feats.len() - k,
    {
        let (s, n) = feats[k];
        stm[k] = s as i32;
        nstm[k] = n as i32;
        k = k + 1;
    }
    (k, k)
}

impl ShogiKp {
    pub fn num_inputs(&self) -> (r: usize)
        ensures
            r == KP_DIMENSIONS,
    {
        KP_DIMENSIONS
    }

    pub fn max_active(&self) -> (r: usize)
        ensures
            r == KP_MAX_ACTIVE,
    {
        KP_MAX_ACTIVE
    }

    /// Features of a training record.
    pub fn map_features(&self, pos: &PackedSfenValue) -> (r: Vec<(usize, usize)>)
        ensures
            r@ == spec_kp_features(spec_decode(pos.data@)),
            spec_pairs_below(r@, KP_DIMENSIONS as int),
    {
        let board = ShogiBoard::from_packed_sfen(pos);
        map_kp_features(&board)
    }

    /// Features with both halves present.
    pub fn map_features_split(&self, pos: &PackedSfenValue) -> (r: Vec<(Option<usize>, Option<usize>)>)
        ensures
            r@ == spec_kp_features(spec_decode(pos.data@)).map_values(|p: (usize, usize)| (Some(p.0), Some(p.1))),
    {
        let feats = self.map_features(pos);
        let mut out: Vec<(Option<usize>, Option<usize>)> = Vec::new();
        let mut k: usize = 0;
        while k < feats.len()
            invariant
                k <= feats@.len(),
                out@ == feats@.take(k as int).map_values(|p: (usize, usize)| (Some(p.0), Some(p.1))),
            decreases feats.len() - k,
        {
            let (s, n) = feats[k];
            out.push((Some(s), Some(n)));
            assert(feats@.take(k as int + 1).map_values(|p: (usize, usize)| (Some(p.0), Some(p.1))) =~= feats@.take(
                k as int,
            ).map_values(|p: (usize, usize)| (Some(p.0), Some(p.1))).push((Some(s), Some(n))));
            k = k + 1;
        }
        assert(feats@.take(feats@.len() as int) =~= feats@);
        out
    }

    pub fn shorthand(&self) -> (r: String)
        ensures
            r@ == "shogi-kp-1710"@,
    {
        "shogi-kp-1710".to_owned()
    }

    pub fn description(&self) -> (r: String)
        ensures
            r@ == "Shogi K+P: 162 king features + 1548 piece (non-king) features per perspective"@,
    {
        "Shogi K+P: 162 king features + 1548 piece (non-king) features per perspective".to_owned()
    }
}

} // verus!

//! HalfKP: 81 king squares times 1548 piece inputs (kings are not pieces
//! here), and its piece-input factorizer.

use vstd::prelude::*;
use crate::inputs::halfka::spec_kings_valid;
use crate::inputs::piece_features::{
    Scheme, push_board_pairs, push_hand_pairs, spec_pairs_below, spec_scheme_board_pair, spec_scheme_board_pairs,
    spec_scheme_hand_pair, spec_scheme_hand_pairs,
};
use crate::seqs::lemma_collect_len;
use crate::shogi::board::{
    BoardView, ShogiBoard, spec_hand_count, spec_hand_items, spec_hand_items_upto, spec_square_items, square_items,
};
use crate::shogi::packed_sfen::{PackedSfenValue, lemma_decoded_hands_small, spec_decode, spec_hand_total};
use crate::shogi::types::{Color, Piece, PieceType, Square, spec_hand_piece_type};

verus! {

/// Feature hash of HalfKP.
pub const FEATURE_HASH: u32 = 0x5D69D5B8;

/// King squares.
pub const NUM_KING_SQ: usize = 81;

/// Piece inputs (`fe_end`).
pub const FE_END: usize = 1548;

/// Piece inputs of the factorizer.
pub const HALFKP_PIECE_INPUTS: usize = 1548;

/// HalfKP input dimension: 81 x 1548.
pub const HALFKP_DIMENSIONS: usize = 125388;

/// Most features active at once: 38 non-king pieces.
pub const MAX_ACTIVE_FEATURES: usize = 38;

/// HalfKP feature set.
#[derive(Clone, Copy, Debug, Default)]
pub struct ShogiHalfKP;

/// HalfKP piece-input factorizer: a HalfKP input with its king dropped.
#[derive(Clone, Copy, Debug, Default)]
pub struct ShogiHalfKPPieceFactorizer;

/// HalfKP index of BonaPiece value `bonapiece` for king square `king_sq`.
pub open spec fn spec_halfkp_index(king_sq: int, bonapiece: int) -> int {
    king_sq * FE_END + bonapiece
}

pub fn halfkp_index(king_sq: usize, bonapiece: usize) -> (r: usize)
    requires
        king_sq < 81,
        bonapiece < 1548,
    ensures
        r == spec_halfkp_index(king_sq as int, bonapiece as int),
        r < HALFKP_DIMENSIONS,
{
    king_sq * FE_END + bonapiece
}

/// HalfKP features: board pieces in square order, then hand pieces; nothing
/// when a king is missing.
pub open spec fn spec_halfkp_features(b: BoardView) -> Seq<(usize, usize)> {
    if !spec_kings_valid(b) {
        Seq::empty()
    } else {
        spec_scheme_board_pairs(Scheme::HalfKp, b, spec_square_items(b)) + spec_scheme_hand_pairs(Scheme::HalfKp, b)
    }
}

/// HalfKP features of `b` (see [`spec_halfkp_features`]); every index is
/// below [`HALFKP_DIMENSIONS`].
pub fn map_halfkp_features(b: &ShogiBoard) -> (r: Vec<(usize, usize)>)
    ensures
        r@ == spec_halfkp_features(b@),
        spec_pairs_below(r@, HALFKP_DIMENSIONS as int),
{
    let stm = b.side_to_move;
    let nstm = stm.opponent();
    let sk = b.king_square(stm);
    let nk = b.king_square(nstm);
    let mut out: Vec<(usize, usize)> = Vec::new();
    if !sk.is_valid() || !nk.is_valid() {
        assert(!spec_kings_valid(b@)) by {
            match stm {
                Color::Black => {},
                Color::White => {},
            }
        }
        return out;
    }
    assert(spec_kings_valid(b@)) by {
        match stm {
            Color::Black => {},
            Color::White => {},
        }
    }
    let items = square_items(b);
    push_board_pairs(Scheme::HalfKp, b, &items, HALFKP_DIMENSIONS, &mut out);
    push_hand_pairs(Scheme::HalfKp, b, HALFKP_DIMENSIONS, &mut out);
    assert(out@ =~= spec_halfkp_features(b@));
    out
}

/// HalfKP features of a training record, read in one pass: the same as
/// decoding the position and taking [`map_halfkp_features`].
pub fn map_halfkp_features_from_packed(pos: &PackedSfenValue) -> (r: Vec<(usize, usize)>)
    ensures
        r@ == spec_halfkp_features(spec_decode(pos.data@)),
        spec_pairs_below(r@, HALFKP_DIMENSIONS as int),
{
    let board = ShogiBoard::from_packed_sfen(pos);
    map_halfkp_features(&board)
}

/// Writes the HalfKP features of `pos` to the front of `stm` and `nstm` and
/// returns how many were written to each, at most one per piece other than
/// the kings; the rest is left untouched.
pub fn fill_halfkp_feature_indices(pos: &PackedSfenValue, stm: &mut [i32], nstm: &mut [i32]) -> (r: (usize, usize))
    requires
        old(stm)@.len() >= spec_halfkp_features(spec_decode(pos.data@)).len(),
        old(nstm)@.len() >= spec_halfkp_features(spec_decode(pos.data@)).len(),
    ensures
        r.0 == spec_halfkp_features(spec_decode(pos.data@)).len(),
        r.0 <= spec_piece_count(spec_decode(pos.data@)),
        r.1 == r.0,
        final(stm)@.len() == old(stm)@.len(),
        final(nstm)@.len() == old(nstm)@.len(),
        forall|i: int|
            0 <= i < r.0 ==> final(stm)@[i] == spec_halfkp_features(spec_decode(pos.data@))[i].0 as i32
                && final(nstm)@[i] == spec_halfkp_features(spec_decode(pos.data@))[i].1 as i32,
        forall|i: int| r.0 <= i < old(stm)@.len() ==> final(stm)@[i] == old(stm)@[i],
        forall|i: int| r.1 <= i < old(nstm)@.len() ==> final(nstm)@[i] == old(nstm)@[i],
{
    let feats = map_halfkp_features_from_packed(pos);
    proof {
        lemma_decoded_hands_small(pos.data@);
        lemma_halfkp_features_at_most_pieces(spec_decode(pos.data@));
    }
    let mut k: usize = 0;
    while k < feats.len()
        invariant
            k <= feats@.len(),
            feats@ == spec_halfkp_features(spec_decode(pos.data@)),
            spec_pairs_below(feats@, HALFKP_DIMENSIONS as int),
            stm@.len() == old(stm)@.len(),
            nstm@.len() == old(nstm)@.len(),
            old(stm)@.len() >= feats@.len(),
            old(nstm)@.len() >= feats@.len(),
            forall|i: int| 0 <= i < k ==> stm@[i] == feats@[i].0 as i32 && nstm@[i] == feats@[i].1 as i32,
            forall|i: int| k <= i < old(stm)@.len() ==> stm@[i] == old(stm)@[i],
            forall|i: int| k <= i < old(nstm)@.len() ==> nstm@[i] == old(nstm)@[i],
        decreases feats.len() - k,
    {
        let (s, n) = feats[k];
        stm[k] = s as i32;
        nstm[k] = n as i32;
        k = k + 1;
    }
    (k, k)
}

impl ShogiHalfKP {
    pub fn num_inputs(&self) -> (r: usize)
        ensures
            r == HALFKP_DIMENSIONS,
    {
        HALFKP_DIMENSIONS
    }

    pub fn max_active(&self) -> (r: usize)
        ensures
            r == MAX_ACTIVE_FEATURES,
    {
        MAX_ACTIVE_FEATURES
    }

    /// Features of a training record.
    pub fn map_features(&self, pos: &PackedSfenValue) -> (r: Vec<(usize, usize)>)
        ensures
            r@ == spec_halfkp_features(spec_decode(pos.data@)),
            spec_pairs_below(r@, HALFKP_DIMENSIONS as int),
    {
        map_halfkp_features_from_packed(pos)
    }

    pub fn shorthand(&self) -> (r: String)
        ensures
            r@ == "shogi-125388x81"@,
    {
        "shogi-125388x81".to_owned()
    }

    pub fn description(&self) -> (r: String)
        ensures
            r@ == "Shogi HalfKP: 81 king squares, 1548 piece inputs (no kings in features)"@,
    {
        "Shogi HalfKP: 81 king squares, 1548 piece inputs (no kings in features)".to_owned()
    }
}

/// Piece input of a HalfKP index: the index with its king square dropped.
pub open spec fn spec_piece_input(feat: int) -> int {
    feat % (HALFKP_PIECE_INPUTS as int)
}

impl ShogiHalfKPPieceFactorizer {
    pub fn num_inputs(&self) -> (r: usize)
        ensures
            r == HALFKP_PIECE_INPUTS,
    {
        HALFKP_PIECE_INPUTS
    }

    pub fn max_active(&self) -> (r: usize)
        ensures
            r == MAX_ACTIVE_FEATURES,
    {
        MAX_ACTIVE_FEATURES
    }

    /// HalfKP features of a training record folded onto the piece inputs.
    pub fn map_features(&self, pos: &PackedSfenValue) -> (r: Vec<(usize, usize)>)
        ensures
            r@ == spec_halfkp_features(spec_decode(pos.data@)).map_values(
                |p: (usize, usize)| (spec_piece_input(p.0 as int) as usize, spec_piece_input(p.1 as int) as usize),
            ),
    {
        let feats = map_halfkp_features_from_packed(pos);
        let mut out: Vec<(usize, usize)> = Vec::new();
        let mut k: usize = 0;
        while k < feats.len()
            invariant
                k <= feats@.len(),
                out@ == feats@.take(k as int).map_values(
                    |p: (usize, usize)| (spec_piece_input(p.0 as int) as usize, spec_piece_input(p.1 as int) as usize),
                ),
            decreases feats.len() - k,
        {
            let (s, n) = feats[k];
            out.push((s % HALFKP_PIECE_INPUTS, n % HALFKP_PIECE_INPUTS));
            assert(feats@.take(k as int + 1).map_values(
                |p: (usize, usize)| (spec_piece_input(p.0 as int) as usize, spec_piece_input(p.1 as int) as usize),
            ) =~= feats@.take(k as int).map_values(
                |p: (usize, usize)| (spec_piece_input(p.0 as int) as usize, spec_piece_input(p.1 as int) as usize),
            ).push((s % HALFKP_PIECE_INPUTS, n % HALFKP_PIECE_INPUTS)));
            k = k + 1;
        }
        assert(feats@.take(feats@.len() as int) =~= feats@);
        out
    }

    /// Factorizer input of HalfKP input `feat`; none beyond the HalfKP
    /// inputs.
    pub fn derive_feature(&self, _input: &ShogiHalfKP, feat: usize) -> (r: Option<usize>)
        ensures
            feat < HALFKP_DIMENSIONS ==> r == Some(spec_piece_input(feat as int) as usize),
            feat >= HALFKP_DIMENSIONS ==> r is None,
    {
        if feat < HALFKP_DIMENSIONS {
            Some(feat % HALFKP_PIECE_INPUTS)
        } else {
            None
        }
    }

    pub fn shorthand(&self) -> (r: String)
        ensures
            r@ == "shogi-halfkp-piece-factorizer"@,
    {
        "shogi-halfkp-piece-factorizer".to_owned()
    }

    pub fn description(&self) -> (r: String)
        ensures
            r@ == "Shogi HalfKP piece-input factorizer"@,
    {
        "Shogi HalfKP piece-input factorizer".to_owned()
    }
}

/// Pieces of `b` other than the kings: on the board and in both hands.
pub open spec fn spec_piece_count(b: BoardView) -> int {
    spec_square_items(b).len() + spec_hand_total(b.black_hand) + spec_hand_total(b.white_hand)
}

spec fn spec_hand_items_len(b: BoardView, g: int) -> int
    decreases g,
{
    if g <= 0 {
        0
    } else {
        let owner = if (g - 1) / 7 == 0 {
            Color::Black
        } else {
            Color::White
        };
        spec_hand_items_len(b, g - 1) + spec_hand_count(b.spec_hand(owner), spec_hand_piece_type((g - 1) % 7))
    }
}

proof fn lemma_hand_items_len(b: BoardView, g: int)
    requires
        0 <= g,
    ensures
        spec_hand_items_upto(b, g).len() == spec_hand_items_len(b, g),
    decreases g,
{
    if g > 0 {
        lemma_hand_items_len(b, g - 1);
    }
}

/// A position has at most one HalfKP feature pair per piece other than
/// the kings.
#[verifier::spinoff_prover]
pub proof fn lemma_halfkp_features_at_most_pieces(b: BoardView)
    requires
        b.black_hand.len() == 7,
        b.white_hand.len() == 7,
    ensures
        spec_halfkp_features(b).len() <= spec_piece_count(b),
{
    if spec_kings_valid(b) {
        let fb = |it: (Piece, Square)| spec_scheme_board_pair(Scheme::HalfKp, b, it);
        let fh = |it: (Color, PieceType, u8)| spec_scheme_hand_pair(Scheme::HalfKp, b, it);
        lemma_collect_len(spec_square_items(b), fb);
        lemma_collect_len(spec_hand_items(b), fh);
        lemma_hand_items_len(b, 14);
        let bh = b.black_hand;
        let wh = b.white_hand;
        assert(spec_hand_items_len(b, 0) == 0);
        assert(spec_hand_items_len(b, 1) == bh[0]);
        assert(spec_hand_items_len(b, 2) == bh[0] + bh[1]);
        assert(spec_hand_items_len(b, 3) == bh[0] + bh[1] + bh[2]);
        assert(spec_hand_items_len(b, 4) == bh[0] + bh[1] + bh[2] + bh[3]);
        assert(spec_hand_items_len(b, 5) == bh[0] + bh[1] + bh[2] + bh[3] + bh[4]);
        assert(spec_hand_items_len(b, 6) == bh[0] + bh[1] + bh[2] + bh[3] + bh[4] + bh[5]);
        assert(spec_hand_items_len(b, 7) == bh[0] + bh[1] + bh[2] + bh[3] + bh[4] + bh[5] + bh[6]);
        assert(spec_hand_items_len(b, 8) == bh[0] + bh[1] + bh[2] + bh[3] + bh[4] + bh[5] + bh[6] + wh[0]);
        assert(spec_hand_items_len(b, 9) == bh[0] + bh[1] + bh[2] + bh[3] + bh[4] + bh[5] + bh[6] + wh[0] + wh[1]);
        assert(spec_hand_items_len(b, 10) == bh[0] + bh[1] + bh[2] + bh[3] + bh[4] + bh[5] + bh[6] + wh[0] + wh[1] + wh[2]);
        assert(spec_hand_items_len(b, 11) == bh[0] + bh[1] + bh[2] + bh[3] + bh[4] + bh[5] + bh[6] + wh[0] + wh[1] + wh[2] + wh[3]);
        assert(spec_hand_items_len(b, 12) == bh[0] + bh[1] + bh[2] + bh[3] + bh[4] + bh[5] + bh[6] + wh[0] + wh[1] + wh[2] + wh[3] + wh[4]);
        assert(spec_hand_items_len(b, 13) == bh[0] + bh[1] + bh[2] + bh[3] + bh[4] + bh[5] + bh[6] + wh[0] + wh[1] + wh[2] + wh[3] + wh[4] + wh[5]);
        assert(spec_hand_items_len(b, 14) == bh[0] + bh[1] + bh[2] + bh[3] + bh[4] + bh[5] + bh[6] + wh[0] + wh[1] + wh[2] + wh[3] + wh[4] + wh[5] + wh[6]);
    }
}

/// A decoded record of a legal position (at most 38 pieces other than the
/// kings) has at most 38 HalfKP feature pairs, so buffers of 38 entries
/// suffice for [`fill_halfkp_feature_indices`].
pub proof fn lemma_legal_record_fits_38(d: Seq<u8>)
    requires
        spec_piece_count(spec_decode(d)) <= 38,
    ensures
        spec_halfkp_features(spec_decode(d)).len() <= 38,
{
    lemma_decoded_hands_small(d);
    lemma_halfkp_features_at_most_pieces(spec_decode(d));
}

} // verus!

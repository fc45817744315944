//! SFNN progress: a position's progress as a value `0..=255` from a q16
//! logit sum over KP-absolute weights, and the progress buckets made from it.

use vstd::prelude::*;
use crate::seqs::{
    lemma_flat_map_step, lemma_flat_map_take_all, lemma_sum_bound, lemma_sum_concat, lemma_sum_congruent,
    lemma_sum_const, lemma_sum_flat_map, lemma_sum_step, lemma_sum_take_all, spec_flat_map, spec_sum,
};
use crate::shogi::bona_piece::{BonaPiece, spec_hand_bases};
use crate::shogi::board::{
    BoardView, ShogiBoard, board_items, hand_items, lemma_board_items_len, lemma_board_items_valid,
    lemma_group_piece_in_range, lemma_hand_items_len, lemma_pieces_upto_valid, spec_board_items,
    spec_board_items_upto, spec_group_piece, spec_hand_count, spec_hand_items, spec_hand_items_upto,
};
use crate::shogi::packed_sfen::{PackedSfenValue, spec_decode};
use crate::shogi::types::{Color, Hand, Piece, PieceType, Square, spec_hand_piece_type};
use crate::text::{concat_strs, decimal_string, spec_decimal};

verus! {

/// KP-absolute weights: 81 king squares x 1548 BonaPieces.
pub const SHOGI_PROGRESS_KP_ABS_NUM_WEIGHTS: usize = 125388;

/// Weights of the SFNN progress parameters.
pub const SHOGI_SFNN_PROGRESS_WEIGHT_COUNT: usize = 125388;

/// Progress values: `0..=255`.
pub const SHOGI_SFNN_PROGRESS_VALUE_COUNT: usize = 256;

/// Hash block of the progress parameters (`"oPRO"`).
pub const SHOGI_SFNN_PROGRESS_HASH: u32 = 0x6F50524F;

/// Bias of the built-in material heuristic: -3.0 in q16.
pub const MATERIAL_BIAS_Q16: i32 = -196608;

/// q16 hand weights of the material heuristic (0.07 per material point):
/// pawn, lance and knight, silver and gold, bishop and rook.
pub const MATERIAL_PAWN_Q16: i32 = 4588;
pub const MATERIAL_LANCE_KNIGHT_Q16: i32 = 9175;
pub const MATERIAL_SILVER_GOLD_Q16: i32 = 13763;
pub const MATERIAL_BISHOP_ROOK_Q16: i32 = 22938;

/// q16 weights of a horse (0.18) and a dragon (0.22) on the board.
pub const MATERIAL_HORSE_Q16: i32 = 11796;
pub const MATERIAL_DRAGON_Q16: i32 = 14418;

/// Progress parameters: a q16 bias and 81 x 1548 q16 weights, the weight of
/// BonaPiece `bp` for a king on square `k` at `k * 1548 + bp`.
#[derive(Clone, Debug, PartialEq, Eq)]
pub struct ShogiSfnnProgressQ16Params {
    pub bias_q16: i32,
    pub weights_q16: Vec<i32>,
}

/// Whether BonaPiece `i` lies in one of the two planes (friend at `f`,
/// enemy at `e`) of a hand kind, on one of its first `len` counts.
pub open spec fn spec_in_hand_planes(i: int, f: int, e: int, len: int) -> bool {
    (f <= i < f + len) || (e <= i < e + len)
}

/// Material-heuristic weight of BonaPiece `i`: the hand planes get their
/// piece's weight on the counts a game can reach, the horse and dragon
/// planes theirs, every other BonaPiece zero.
pub open spec fn spec_material_bp_weight(i: int) -> i32 {
    if spec_in_hand_planes(i, 1, 20, 18) {
        MATERIAL_PAWN_Q16
    } else if spec_in_hand_planes(i, 39, 44, 4) || spec_in_hand_planes(i, 49, 54, 4) {
        MATERIAL_LANCE_KNIGHT_Q16
    } else if spec_in_hand_planes(i, 59, 64, 4) || spec_in_hand_planes(i, 69, 74, 4) {
        MATERIAL_SILVER_GOLD_Q16
    } else if spec_in_hand_planes(i, 79, 82, 2) || spec_in_hand_planes(i, 85, 88, 2) {
        MATERIAL_BISHOP_ROOK_Q16
    } else if 1062 <= i < 1224 {
        MATERIAL_HORSE_Q16
    } else if 1386 <= i < 1548 {
        MATERIAL_DRAGON_Q16
    } else {
        0
    }
}

fn in_hand_planes(i: usize, f: usize, e: usize, len: usize) -> (r: bool)
    requires
        f + len <= 100,
        e + len <= 100,
    ensures
        r == spec_in_hand_planes(i as int, f as int, e as int, len as int),
{
    (f <= i && i < f + len) || (e <= i && i < e + len)
}

pub fn material_bp_weight(i: usize) -> (r: i32)
    ensures
        r == spec_material_bp_weight(i as int),
{
    if in_hand_planes(i, 1, 20, 18) {
        MATERIAL_PAWN_Q16
    } else if in_hand_planes(i, 39, 44, 4) || in_hand_planes(i, 49, 54, 4) {
        MATERIAL_LANCE_KNIGHT_Q16
    } else if in_hand_planes(i, 59, 64, 4) || in_hand_planes(i, 69, 74, 4) {
        MATERIAL_SILVER_GOLD_Q16
    } else if in_hand_planes(i, 79, 82, 2) || in_hand_planes(i, 85, 88, 2) {
        MATERIAL_BISHOP_ROOK_Q16
    } else if 1062 <= i && i < 1224 {
        MATERIAL_HORSE_Q16
    } else if 1386 <= i && i < 1548 {
        MATERIAL_DRAGON_Q16
    } else {
        0
    }
}

impl ShogiSfnnProgressQ16Params {
    /// Zero bias and zero weights.
    pub fn zero() -> (r: ShogiSfnnProgressQ16Params)
        ensures
            r.bias_q16 == 0,
            r.weights_q16@.len() == SHOGI_SFNN_PROGRESS_WEIGHT_COUNT,
            forall|k: int| 0 <= k < r.weights_q16@.len() ==> r.weights_q16@[k] == 0,
    {
        let mut w: Vec<i32> = Vec::new();
        let mut k: usize = 0;
        while k < SHOGI_SFNN_PROGRESS_WEIGHT_COUNT
            invariant
                k <= SHOGI_SFNN_PROGRESS_WEIGHT_COUNT,
                w@.len() == k,
                forall|j: int| 0 <= j < k ==> w@[j] == 0,
            decreases SHOGI_SFNN_PROGRESS_WEIGHT_COUNT - k,
        {
            w.push(0);
            k = k + 1;
        }
        ShogiSfnnProgressQ16Params { bias_q16: 0, weights_q16: w }
    }

    /// The built-in material heuristic: hand material adds progress, and so
    /// do horses and dragons on the board; the same weights for every king
    /// square.
    pub fn material_heuristic() -> (r: ShogiSfnnProgressQ16Params)
        ensures
            r.bias_q16 == MATERIAL_BIAS_Q16,
            r.weights_q16@.len() == SHOGI_SFNN_PROGRESS_WEIGHT_COUNT,
            forall|k: int|
                0 <= k < r.weights_q16@.len() ==> #[trigger] r.weights_q16@[k] == spec_material_bp_weight(k % 1548),
    {
        let mut w: Vec<i32> = Vec::new();
        let mut sq: usize = 0;
        while sq < 81
            invariant
                sq <= 81,
                w@.len() == sq * 1548,
                forall|k: int| 0 <= k < w@.len() ==> #[trigger] w@[k] == spec_material_bp_weight(k % 1548),
            decreases 81 - sq,
        {
            let mut i: usize = 0;
            while i < 1548
                invariant
                    sq < 81,
                    i <= 1548,
                    w@.len() == sq * 1548 + i,
                    forall|k: int| 0 <= k < w@.len() ==> #[trigger] w@[k] == spec_material_bp_weight(k % 1548),
                decreases 1548 - i,
            {
                assert((sq * 1548 + i) as int % 1548 == i) by (nonlinear_arith)
                    requires
                        i < 1548,
                ;
                w.push(material_bp_weight(i));
                i = i + 1;
            }
            sq = sq + 1;
        }
        ShogiSfnnProgressQ16Params { bias_q16: MATERIAL_BIAS_Q16, weights_q16: w }
    }

    /// Parameters from a bias and 81 x 1548 weights; an error naming both
    /// counts when the number of weights is wrong.
    pub fn new(bias_q16: i32, weights_q16: Vec<i32>) -> (r: Result<ShogiSfnnProgressQ16Params, String>)
        ensures
            weights_q16@.len() == SHOGI_SFNN_PROGRESS_WEIGHT_COUNT ==> (r matches Ok(p) && p.bias_q16 == bias_q16
                && p.weights_q16@ == weights_q16@),
            weights_q16@.len() != SHOGI_SFNN_PROGRESS_WEIGHT_COUNT ==> (r matches Err(e) && e@
                == "SFNN progress q16 weight count mismatch: got "@ + spec_decimal(weights_q16@.len()) + ", expected "@
                + spec_decimal(SHOGI_SFNN_PROGRESS_WEIGHT_COUNT as nat)),
    {
        if weights_q16.len() != SHOGI_SFNN_PROGRESS_WEIGHT_COUNT {
            let a = concat_strs("SFNN progress q16 weight count mismatch: got ", decimal_string(weights_q16.len()).as_str());
            let b = concat_strs(a.as_str(), ", expected ");
            let c = concat_strs(b.as_str(), decimal_string(SHOGI_SFNN_PROGRESS_WEIGHT_COUNT).as_str());
            return Err(c);
        }
        Ok(ShogiSfnnProgressQ16Params { bias_q16, weights_q16 })
    }

    /// Whether both parameter sets hold the same bias and weights.
    pub fn same_as(&self, other: &ShogiSfnnProgressQ16Params) -> (r: bool)
        ensures
            r == (self.bias_q16 == other.bias_q16 && self.weights_q16@ == other.weights_q16@),
    {
        if self.bias_q16 != other.bias_q16 || self.weights_q16.len() != other.weights_q16.len() {
            return false;
        }
        let mut k: usize = 0;
        while k < self.weights_q16.len()
            invariant
                k <= self.weights_q16@.len(),
                self.weights_q16@.len() == other.weights_q16@.len(),
                forall|j: int| 0 <= j < k ==> self.weights_q16@[j] == other.weights_q16@[j],
            decreases self.weights_q16.len() - k,
        {
            if self.weights_q16[k] != other.weights_q16[k] {
                return false;
            }
            k = k + 1;
        }
        assert(self.weights_q16@ =~= other.weights_q16@);
        true
    }
}

/// The progress parameters loaded in a process, if any, and whether they are
/// the built-in material heuristic.
pub struct ShogiSfnnProgressState {
    params: Option<ShogiSfnnProgressQ16Params>,
    material: bool,
}

impl ShogiSfnnProgressState {
    pub closed spec fn spec_params(&self) -> Option<ShogiSfnnProgressQ16Params> {
        self.params
    }

    pub closed spec fn spec_material(&self) -> bool {
        self.material
    }

    /// The material flag is set only for the material-heuristic parameters.
    pub open spec fn spec_wf(&self) -> bool {
        self.spec_material() ==> (self.spec_params() matches Some(p) && p.bias_q16 == MATERIAL_BIAS_Q16
            && spec_is_material_weights(p.weights_q16@))
    }

    /// Nothing loaded.
    pub fn new() -> (r: ShogiSfnnProgressState)
        ensures
            r.spec_params() is None,
            !r.spec_material(),
            r.spec_wf(),
    {
        ShogiSfnnProgressState { params: None, material: false }
    }

    /// Whether the loaded parameters are the material heuristic.
    pub fn is_material_heuristic(&self) -> (r: bool)
        ensures
            r == self.spec_material(),
    {
        self.material
    }
}

/// Loads `params` into `state`: accepted when nothing is loaded (noting
/// whether they are the material heuristic) or when the same parameters are
/// loaded already; refused when different ones are.
pub fn set_shogi_sfnn_progress_q16_params(
    state: &mut ShogiSfnnProgressState,
    params: ShogiSfnnProgressQ16Params,
) -> (r: Result<(), String>)
    ensures
        old(state).spec_wf() ==> final(state).spec_wf(),
        match old(state).spec_params() {
            Some(existing) => {
                &&& final(state).spec_params() == old(state).spec_params()
                &&& final(state).spec_material() == old(state).spec_material()
                &&& (existing.bias_q16 == params.bias_q16 && existing.weights_q16@ == params.weights_q16@) ==> r is Ok
                &&& !(existing.bias_q16 == params.bias_q16 && existing.weights_q16@ == params.weights_q16@) ==> (r
                    matches Err(e) && e@ == "different SFNN progress q16 parameters are already loaded in this process"@)
            },
            None => {
                &&& r is Ok
                &&& final(state).spec_params() == Some(params)
                &&& final(state).spec_material() == (params.bias_q16 == MATERIAL_BIAS_Q16
                    && params.weights_q16@.len() == SHOGI_SFNN_PROGRESS_WEIGHT_COUNT && forall|k: int|
                    0 <= k < SHOGI_SFNN_PROGRESS_WEIGHT_COUNT ==> #[trigger] params.weights_q16@[k]
                        == spec_material_bp_weight(k % 1548))
            },
        },
{
    match &state.params {
        Some(existing) => {
            if existing.same_as(&params) {
                Ok(())
            } else {
                Err("different SFNN progress q16 parameters are already loaded in this process".to_owned())
            }
        },
        None => {
            let heuristic = ShogiSfnnProgressQ16Params::material_heuristic();
            let material = params.same_as(&heuristic);
            proof {
                if params.bias_q16 == MATERIAL_BIAS_Q16 && params.weights_q16@.len() == SHOGI_SFNN_PROGRESS_WEIGHT_COUNT
                    && forall|k: int|
                    0 <= k < SHOGI_SFNN_PROGRESS_WEIGHT_COUNT ==> #[trigger] params.weights_q16@[k]
                        == spec_material_bp_weight(k % 1548) {
                    assert(params.weights_q16@ =~= heuristic.weights_q16@);
                }
            }
            state.params = Some(params);
            state.material = material;
            Ok(())
        },
    }
}

/// The loaded progress parameters, if any.
pub fn shogi_sfnn_progress_q16_params(state: &ShogiSfnnProgressState) -> (r: Option<&ShogiSfnnProgressQ16Params>)
    ensures
        match state.spec_params() {
            Some(p) => r == Some(&p),
            None => r is None,
        },
{
    match &state.params {
        Some(p) => Some(p),
        None => None,
    }
}

/// `w[base + bp]` for a nonzero BonaPiece `bp`; 0 for BonaPiece zero.
pub open spec fn spec_kp_weight(w: Seq<i32>, base: int, bp: BonaPiece) -> int {
    if bp.0 == 0 {
        0
    } else {
        w[base + bp.0 as int] as int
    }
}

/// Offset of Black's king square in the KP-absolute weights.
pub open spec fn spec_black_base(b: BoardView) -> int {
    b.black_king_sq.0 * 1548
}

/// Offset of White's king square, seen from White, in the weights.
pub open spec fn spec_white_base(b: BoardView) -> int {
    b.white_king_sq.spec_inverse().0 * 1548
}

/// Weights a board piece adds: its BonaPiece from Black's side under Black's
/// king, and from White's side under White's king.
pub open spec fn spec_progress_board_term(w: Seq<i32>, b: BoardView, it: (Piece, Square)) -> int {
    spec_kp_weight(w, spec_black_base(b), BonaPiece::spec_from_piece_square(it.0, it.1, Color::Black))
        + spec_kp_weight(w, spec_white_base(b), BonaPiece::spec_from_piece_square(it.0, it.1, Color::White))
}

/// Weights the `it.2`-th hand piece of kind `it.1` held by `it.0` adds.
pub open spec fn spec_progress_hand_term(w: Seq<i32>, b: BoardView, it: (Color, PieceType, u8)) -> int {
    spec_kp_weight(w, spec_black_base(b), BonaPiece::spec_from_hand_piece(Color::Black, it.0, it.1, it.2))
        + spec_kp_weight(w, spec_white_base(b), BonaPiece::spec_from_hand_piece(Color::White, it.0, it.1, it.2))
}

/// q16 logit sum of a position under bias `bias` and weights `w`: the bias
/// alone when a king is missing, else the bias plus the weights of every
/// non-king board piece and every hand piece from both kings' sides.
pub open spec fn spec_progress_sum_q16(b: BoardView, bias: i32, w: Seq<i32>) -> int {
    if !b.black_king_sq.spec_valid() || !b.white_king_sq.spec_valid() {
        bias as int
    } else {
        bias as int + spec_sum(spec_board_items(b), |it: (Piece, Square)| spec_progress_board_term(w, b, it))
            + spec_sum(spec_hand_items(b), |it: (Color, PieceType, u8)| spec_progress_hand_term(w, b, it))
    }
}

/// q16 logit sum of `board` under `params` (see [`spec_progress_sum_q16`]).
pub fn shogi_sfnn_progress_sum_q16_from_board(board: &ShogiBoard, params: &ShogiSfnnProgressQ16Params) -> (r: i64)
    requires
        params.weights_q16@.len() == SHOGI_SFNN_PROGRESS_WEIGHT_COUNT,
    ensures
        r == spec_progress_sum_q16(board@, params.bias_q16, params.weights_q16@),
{
    if !board.black_king_sq.is_valid() || !board.white_king_sq.is_valid() {
        return params.bias_q16 as i64;
    }
    let w = &params.weights_q16;
    let bk_base = board.black_king_sq.index() * 1548;
    let wk_base = board.white_king_sq.inverse().index() * 1548;
    let ghost bias = params.bias_q16 as int;
    let ghost f = |it: (Piece, Square)| spec_progress_board_term(w@, board@, it);
    let ghost g = |it: (Color, PieceType, u8)| spec_progress_hand_term(w@, board@, it);
    let items = board_items(board);
    proof {
        lemma_board_items_valid(board@);
        lemma_board_items_len(board@, 26);
    }
    let mut sum: i64 = params.bias_q16 as i64;
    let mut i: usize = 0;
    while i < items.len()
        invariant
            items@ == spec_board_items(board@),
            items@.len() <= 81 * 26,
            forall|j: int|
                0 <= j < spec_board_items(board@).len() ==> {
                    let it = #[trigger] spec_board_items(board@)[j];
                    &&& it.1.0 < 81
                    &&& it.0.piece_type != PieceType::King
                    &&& it.0.piece_type != PieceType::NoPiece
                    &&& board@.board[it.1.0 as int] == it.0
                },
            w@.len() == SHOGI_SFNN_PROGRESS_WEIGHT_COUNT,
            bk_base == spec_black_base(board@),
            wk_base == spec_white_base(board@),
            bk_base < 81 * 1548,
            wk_base < 81 * 1548,
            bias == params.bias_q16,
            f == (|it: (Piece, Square)| spec_progress_board_term(w@, board@, it)),
            i <= items@.len(),
            sum == bias + spec_sum(items@.take(i as int), f),
            -4294967296 * i <= sum - bias <= 4294967296 * i,
        decreases items@.len() - i,
    {
        let (piece, sq) = items[i];
        proof {
            lemma_sum_step(items@, f, i as int);
        }
        let bp_b = BonaPiece::from_piece_square(piece, sq, Color::Black);
        if bp_b.value() != 0 {
            sum = sum + w[bk_base + bp_b.value() as usize] as i64;
        }
        let bp_w = BonaPiece::from_piece_square(piece, sq, Color::White);
        if bp_w.value() != 0 {
            sum = sum + w[wk_base + bp_w.value() as usize] as i64;
        }
        i = i + 1;
    }
    proof {
        lemma_sum_take_all(items@, f);
    }
    let ghost board_sum = spec_sum(items@, f);
    let hitems = hand_items(board);
    proof {
        lemma_hand_items_len(board@, 14);
    }
    let mut j: usize = 0;
    while j < hitems.len()
        invariant
            hitems@ == spec_hand_items(board@),
            hitems@.len() <= 255 * 14,
            w@.len() == SHOGI_SFNN_PROGRESS_WEIGHT_COUNT,
            bk_base == spec_black_base(board@),
            wk_base == spec_white_base(board@),
            bk_base < 81 * 1548,
            wk_base < 81 * 1548,
            g == (|it: (Color, PieceType, u8)| spec_progress_hand_term(w@, board@, it)),
            bias == params.bias_q16,
            j <= hitems@.len(),
            -4294967296 * (81 * 26) <= board_sum <= 4294967296 * (81 * 26),
            sum == bias + board_sum + spec_sum(hitems@.take(j as int), g),
            -4294967296 * j <= sum - bias - board_sum <= 4294967296 * j,
        decreases hitems@.len() - j,
    {
        let (owner, pt, c) = hitems[j];
        proof {
            lemma_sum_step(hitems@, g, j as int);
        }
        let bp_b = BonaPiece::from_hand_piece(Color::Black, owner, pt, c);
        if bp_b.value() != 0 {
            sum = sum + w[bk_base + bp_b.value() as usize] as i64;
        }
        let bp_w = BonaPiece::from_hand_piece(Color::White, owner, pt, c);
        if bp_w.value() != 0 {
            sum = sum + w[wk_base + bp_w.value() as usize] as i64;
        }
        j = j + 1;
    }
    proof {
        lemma_sum_take_all(hitems@, g);
    }
    sum
}

/// Number of squares `0..n` holding a piece of kind `pt`, either colour.
pub open spec fn spec_count_kind_upto(board: Seq<Piece>, pt: PieceType, n: int) -> int
    decreases n,
{
    if n <= 0 {
        0
    } else {
        spec_count_kind_upto(board, pt, n - 1) + if board[n - 1].piece_type == pt {
            1int
        } else {
            0
        }
    }
}

/// Material-heuristic sum of one hand (7 slot counts), counted from both
/// kings' sides.
pub open spec fn spec_material_hand_q16(h: Seq<u8>) -> int {
    2 * h[0] * MATERIAL_PAWN_Q16 + 2 * (h[1] + h[2]) * MATERIAL_LANCE_KNIGHT_Q16 + 2 * (h[3] + h[4])
        * MATERIAL_SILVER_GOLD_Q16 + 2 * (h[5] + h[6]) * MATERIAL_BISHOP_ROOK_Q16
}

/// Material-heuristic q16 sum of a position: the bias, twice the horse and
/// dragon weights per horse and dragon on the board, and twice the hand
/// weights per piece in either hand.
pub open spec fn spec_material_sum_q16(b: BoardView) -> int {
    MATERIAL_BIAS_Q16 + 2 * MATERIAL_HORSE_Q16 * spec_count_kind_upto(b.board, PieceType::Horse, 81) + 2
        * MATERIAL_DRAGON_Q16 * spec_count_kind_upto(b.board, PieceType::Dragon, 81) + spec_material_hand_q16(
        b.black_hand,
    ) + spec_material_hand_q16(b.white_hand)
}

fn material_hand_q16(h: &Hand) -> (r: i64)
    ensures
        r == spec_material_hand_q16(h.counts@),
{
    2 * (h.pawn() as i64) * (MATERIAL_PAWN_Q16 as i64) + 2 * (h.lance() as i64 + h.knight() as i64) * (
    MATERIAL_LANCE_KNIGHT_Q16 as i64) + 2 * (h.silver() as i64 + h.gold() as i64) * (MATERIAL_SILVER_GOLD_Q16 as i64)
        + 2 * (h.bishop() as i64 + h.rook() as i64) * (MATERIAL_BISHOP_ROOK_Q16 as i64)
}

/// Material-heuristic q16 sum of `board` (see [`spec_material_sum_q16`]).
pub fn shogi_sfnn_material_heuristic_sum_q16_from_board(board: &ShogiBoard) -> (r: i64)
    ensures
        r == spec_material_sum_q16(board@),
{
    let mut horses: i64 = 0;
    let mut dragons: i64 = 0;
    let mut s: usize = 0;
    while s < 81
        invariant
            s <= 81,
            horses == spec_count_kind_upto(board@.board, PieceType::Horse, s as int),
            dragons == spec_count_kind_upto(board@.board, PieceType::Dragon, s as int),
            0 <= horses <= s,
            0 <= dragons <= s,
        decreases 81 - s,
    {
        match board.board[s].piece_type {
            PieceType::Horse => {
                horses = horses + 1;
            },
            PieceType::Dragon => {
                dragons = dragons + 1;
            },
            _ => {},
        }
        s = s + 1;
    }
    assert(0 <= 2 * (MATERIAL_HORSE_Q16 as i64) * horses <= 2 * 11796 * 81) by (nonlinear_arith)
        requires
            0 <= horses <= 81,
            MATERIAL_HORSE_Q16 == 11796,
    ;
    assert(0 <= 2 * (MATERIAL_DRAGON_Q16 as i64) * dragons <= 2 * 14418 * 81) by (nonlinear_arith)
        requires
            0 <= dragons <= 81,
            MATERIAL_DRAGON_Q16 == 14418,
    ;
    let mut sum: i64 = MATERIAL_BIAS_Q16 as i64;
    sum = sum + 2 * (MATERIAL_HORSE_Q16 as i64) * horses;
    sum = sum + 2 * (MATERIAL_DRAGON_Q16 as i64) * dragons;
    sum = sum + material_hand_q16(&board.black_hand);
    sum = sum + material_hand_q16(&board.white_hand);
    sum
}

impl ShogiSfnnProgressState {
    /// Whether every weight lookup of the loaded parameters stays in range:
    /// nothing is loaded, or the parameters hold 81 x 1548 weights.
    pub open spec fn spec_usable(&self) -> bool {
        match self.spec_params() {
            Some(p) => p.weights_q16@.len() == SHOGI_SFNN_PROGRESS_WEIGHT_COUNT,
            None => true,
        }
    }
}

/// q16 logit sum of a position under the loaded parameters: 0 when none are
/// loaded, the material-heuristic sum when they are the material heuristic,
/// else the weighted sum.
pub open spec fn spec_state_sum_q16(state: ShogiSfnnProgressState, b: BoardView) -> int {
    match state.spec_params() {
        Some(p) => if state.spec_material() {
            spec_material_sum_q16(b)
        } else {
            spec_progress_sum_q16(b, p.bias_q16, p.weights_q16@)
        },
        None => 0,
    }
}

/// Material weight of a board piece of kind `pt`, from both kings' sides.
pub open spec fn spec_material_board_value(pt: PieceType) -> int {
    if pt == PieceType::Horse {
        2 * MATERIAL_HORSE_Q16
    } else if pt == PieceType::Dragon {
        2 * MATERIAL_DRAGON_Q16
    } else {
        0
    }
}

/// Material weight of a hand piece of kind `pt`, from both kings' sides.
pub open spec fn spec_material_hand_value(pt: PieceType) -> int {
    match pt {
        PieceType::Pawn => 2 * MATERIAL_PAWN_Q16,
        PieceType::Lance | PieceType::Knight => 2 * MATERIAL_LANCE_KNIGHT_Q16,
        PieceType::Silver | PieceType::Gold => 2 * MATERIAL_SILVER_GOLD_Q16,
        PieceType::Bishop | PieceType::Rook => 2 * MATERIAL_BISHOP_ROOK_Q16,
        _ => 0,
    }
}

/// `w` holds the material-heuristic weights for every king square.
pub open spec fn spec_is_material_weights(w: Seq<i32>) -> bool {
    &&& w.len() == SHOGI_SFNN_PROGRESS_WEIGHT_COUNT
    &&& forall|k: int| 0 <= k < w.len() ==> #[trigger] w[k] == spec_material_bp_weight(k % 1548)
}

/// A hand holds no more of a kind than a game has: 18 pawns, 4 lances,
/// knights, silvers and golds, 2 bishops and 2 rooks.
pub open spec fn spec_hand_within_limits(h: Seq<u8>) -> bool {
    &&& h.len() == 7
    &&& h[0] <= 18
    &&& h[1] <= 4
    &&& h[2] <= 4
    &&& h[3] <= 4
    &&& h[4] <= 4
    &&& h[5] <= 2
    &&& h[6] <= 2
}

proof fn lemma_material_weight_at(w: Seq<i32>, sq: int, bp: int)
    requires
        spec_is_material_weights(w),
        0 <= sq < 81,
        0 <= bp < 1548,
    ensures
        w[sq * 1548 + bp] == spec_material_bp_weight(bp),
{
    assert((sq * 1548 + bp) % 1548 == bp) by (nonlinear_arith)
        requires
            0 <= bp < 1548,
            0 <= sq,
    ;
    assert(0 <= sq * 1548 + bp < 125388) by (nonlinear_arith)
        requires
            0 <= sq < 81,
            0 <= bp < 1548,
    ;
}

proof fn lemma_board_term_material(w: Seq<i32>, b: BoardView, it: (Piece, Square))
    requires
        spec_is_material_weights(w),
        b.black_king_sq.spec_valid(),
        b.white_king_sq.spec_valid(),
        it.1.0 < 81,
        it.0.piece_type != PieceType::King,
        it.0.piece_type != PieceType::NoPiece,
    ensures
        spec_progress_board_term(w, b, it) == spec_material_board_value(it.0.piece_type),
{
    let bb = BonaPiece::spec_from_piece_square(it.0, it.1, Color::Black);
    let bw = BonaPiece::spec_from_piece_square(it.0, it.1, Color::White);
    assert(0 < bb.0 < 1548);
    assert(0 < bw.0 < 1548);
    lemma_material_weight_at(w, b.black_king_sq.0 as int, bb.0 as int);
    lemma_material_weight_at(w, b.white_king_sq.spec_inverse().0 as int, bw.0 as int);
}

proof fn lemma_hand_term_material(w: Seq<i32>, b: BoardView, it: (Color, PieceType, u8))
    requires
        spec_is_material_weights(w),
        b.black_king_sq.spec_valid(),
        b.white_king_sq.spec_valid(),
        spec_hand_bases(it.1) matches Some(hb) && 1 <= it.2 <= hb.2,
    ensures
        spec_progress_hand_term(w, b, it) == spec_material_hand_value(it.1),
{
    let bb = BonaPiece::spec_from_hand_piece(Color::Black, it.0, it.1, it.2);
    let bw = BonaPiece::spec_from_hand_piece(Color::White, it.0, it.1, it.2);
    assert(0 < bb.0 < 90);
    assert(0 < bw.0 < 90);
    lemma_material_weight_at(w, b.black_king_sq.0 as int, bb.0 as int);
    lemma_material_weight_at(w, b.white_king_sq.spec_inverse().0 as int, bw.0 as int);
}

/// Material of the first `k` groups of the board enumeration.
pub open spec fn spec_board_material_upto(b: BoardView, k: int) -> int
    decreases k,
{
    if k <= 0 {
        0
    } else {
        let p = spec_group_piece(k - 1);
        spec_board_material_upto(b, k - 1) + spec_material_board_value(p.piece_type) * b.spec_pieces(
            p.color,
            p.piece_type,
        ).len()
    }
}

proof fn lemma_board_sum_material(w: Seq<i32>, b: BoardView, k: int)
    requires
        spec_is_material_weights(w),
        b.black_king_sq.spec_valid(),
        b.white_king_sq.spec_valid(),
        0 <= k <= 26,
    ensures
        spec_sum(spec_board_items_upto(b, k), |it: (Piece, Square)| spec_progress_board_term(w, b, it))
            == spec_board_material_upto(b, k),
    decreases k,
{
    if k > 0 {
        lemma_board_sum_material(w, b, k - 1);
        let p = spec_group_piece(k - 1);
        let add = b.spec_pieces(p.color, p.piece_type).map_values(|sq: Square| (p, sq));
        let f = |it: (Piece, Square)| spec_progress_board_term(w, b, it);
        lemma_sum_concat(spec_board_items_upto(b, k - 1), add, f);
        lemma_pieces_upto_valid(b, p.color, p.piece_type, 81);
        lemma_group_piece_in_range(k - 1);
        assert forall|i: int| 0 <= i < add.len() implies #[trigger] f(add[i]) == spec_material_board_value(
            p.piece_type,
        ) by {
            assert(add[i] == (p, b.spec_pieces(p.color, p.piece_type)[i]));
            lemma_board_term_material(w, b, add[i]);
        }
        lemma_sum_const(add, f, spec_material_board_value(p.piece_type));
    }
}

proof fn lemma_board_material_low(b: BoardView, k: int)
    requires
        0 <= k <= 22,
    ensures
        spec_board_material_upto(b, k) == 0,
    decreases k,
{
    if k > 0 {
        lemma_board_material_low(b, k - 1);
    }
}

proof fn lemma_count_kind(b: BoardView, pt: PieceType, n: int)
    ensures
        spec_count_kind_upto(b.board, pt, n) == b.spec_pieces_upto(Color::Black, pt, n).len()
            + b.spec_pieces_upto(Color::White, pt, n).len(),
    decreases n,
{
    if n > 0 {
        lemma_count_kind(b, pt, n - 1);
    }
}

/// Material of the first `g` (owner, kind) groups of the hand enumeration.
pub open spec fn spec_hand_material_upto(b: BoardView, g: int) -> int
    decreases g,
{
    if g <= 0 {
        0
    } else {
        let owner = if (g - 1) / 7 == 0 {
            Color::Black
        } else {
            Color::White
        };
        let pt = spec_hand_piece_type((g - 1) % 7);
        spec_hand_material_upto(b, g - 1) + spec_material_hand_value(pt) * spec_hand_count(b.spec_hand(owner), pt)
    }
}

proof fn lemma_hand_sum_material(w: Seq<i32>, b: BoardView, g: int)
    requires
        spec_is_material_weights(w),
        b.black_king_sq.spec_valid(),
        b.white_king_sq.spec_valid(),
        spec_hand_within_limits(b.black_hand),
        spec_hand_within_limits(b.white_hand),
        0 <= g <= 14,
    ensures
        spec_sum(spec_hand_items_upto(b, g), |it: (Color, PieceType, u8)| spec_progress_hand_term(w, b, it))
            == spec_hand_material_upto(b, g),
    decreases g,
{
    if g > 0 {
        lemma_hand_sum_material(w, b, g - 1);
        let owner = if (g - 1) / 7 == 0 {
            Color::Black
        } else {
            Color::White
        };
        let j = (g - 1) % 7;
        let pt = spec_hand_piece_type(j);
        let n = spec_hand_count(b.spec_hand(owner), pt);
        let add = Seq::new(n as nat, |i: int| (owner, pt, (i + 1) as u8));
        let f = |it: (Color, PieceType, u8)| spec_progress_hand_term(w, b, it);
        assert(0 <= j < 7);
        assert(spec_hand_bases(pt) matches Some(hb) && n <= hb.2);
        lemma_sum_concat(spec_hand_items_upto(b, g - 1), add, f);
        assert forall|i: int| 0 <= i < add.len() implies #[trigger] f(add[i]) == spec_material_hand_value(pt) by {
            lemma_hand_term_material(w, b, add[i]);
        }
        lemma_sum_const(add, f, spec_material_hand_value(pt));
    }
}

/// Law: under the material-heuristic weights, the weighted sum of a
/// position with both kings on the board and no more pieces of a kind in
/// hand than a game has equals the material-heuristic sum.
#[verifier::spinoff_prover]
pub proof fn lemma_material_sum_matches_weighted(b: BoardView, w: Seq<i32>)
    requires
        spec_is_material_weights(w),
        b.black_king_sq.spec_valid(),
        b.white_king_sq.spec_valid(),
        spec_hand_within_limits(b.black_hand),
        spec_hand_within_limits(b.white_hand),
    ensures
        spec_progress_sum_q16(b, MATERIAL_BIAS_Q16, w) == spec_material_sum_q16(b),
{
    lemma_board_sum_material(w, b, 26);
    lemma_board_material_low(b, 22);
    lemma_count_kind(b, PieceType::Horse, 81);
    lemma_count_kind(b, PieceType::Dragon, 81);
    assert(spec_group_piece(22) == Piece { piece_type: PieceType::Horse, color: Color::Black });
    assert(spec_group_piece(23) == Piece { piece_type: PieceType::Horse, color: Color::White });
    assert(spec_group_piece(24) == Piece { piece_type: PieceType::Dragon, color: Color::Black });
    assert(spec_group_piece(25) == Piece { piece_type: PieceType::Dragon, color: Color::White });
    let hb = b.spec_pieces(Color::Black, PieceType::Horse).len() as int;
    let hw = b.spec_pieces(Color::White, PieceType::Horse).len() as int;
    let db = b.spec_pieces(Color::Black, PieceType::Dragon).len() as int;
    let dw = b.spec_pieces(Color::White, PieceType::Dragon).len() as int;
    assert(spec_board_material_upto(b, 23) == 23592 * hb);
    assert(spec_board_material_upto(b, 24) == 23592 * hb + 23592 * hw);
    assert(spec_board_material_upto(b, 25) == 23592 * hb + 23592 * hw + 28836 * db);
    assert(spec_board_material_upto(b, 26) == 23592 * hb + 23592 * hw + 28836 * db + 28836 * dw);
    lemma_hand_sum_material(w, b, 14);
    let bh = b.black_hand;
    let wh = b.white_hand;
    assert(spec_hand_material_upto(b, 0) == 0);
    assert(spec_hand_material_upto(b, 1) == 9176 * bh[0]);
    assert(spec_hand_material_upto(b, 2) == 9176 * bh[0] + 18350 * bh[1]);
    assert(spec_hand_material_upto(b, 3) == 9176 * bh[0] + 18350 * bh[1] + 18350 * bh[2]);
    assert(spec_hand_material_upto(b, 4) == 9176 * bh[0] + 18350 * bh[1] + 18350 * bh[2] + 27526 * bh[3]);
    assert(spec_hand_material_upto(b, 5) == 9176 * bh[0] + 18350 * bh[1] + 18350 * bh[2] + 27526 * bh[3] + 27526 * bh[4]);
    assert(spec_hand_material_upto(b, 6) == 9176 * bh[0] + 18350 * bh[1] + 18350 * bh[2] + 27526 * bh[3] + 27526 * bh[4] + 45876 * bh[5]);
    assert(spec_hand_material_upto(b, 7) == 9176 * bh[0] + 18350 * bh[1] + 18350 * bh[2] + 27526 * bh[3] + 27526 * bh[4] + 45876 * bh[5] + 45876 * bh[6]);
    assert(spec_hand_material_upto(b, 8) == 9176 * bh[0] + 18350 * bh[1] + 18350 * bh[2] + 27526 * bh[3] + 27526 * bh[4] + 45876 * bh[5] + 45876 * bh[6] + 9176 * wh[0]);
    assert(spec_hand_material_upto(b, 9) == 9176 * bh[0] + 18350 * bh[1] + 18350 * bh[2] + 27526 * bh[3] + 27526 * bh[4] + 45876 * bh[5] + 45876 * bh[6] + 9176 * wh[0] + 18350 * wh[1]);
    assert(spec_hand_material_upto(b, 10) == 9176 * bh[0] + 18350 * bh[1] + 18350 * bh[2] + 27526 * bh[3] + 27526 * bh[4] + 45876 * bh[5] + 45876 * bh[6] + 9176 * wh[0] + 18350 * wh[1] + 18350 * wh[2]);
    assert(spec_hand_material_upto(b, 11) == 9176 * bh[0] + 18350 * bh[1] + 18350 * bh[2] + 27526 * bh[3] + 27526 * bh[4] + 45876 * bh[5] + 45876 * bh[6] + 9176 * wh[0] + 18350 * wh[1] + 18350 * wh[2] + 27526 * wh[3]);
    assert(spec_hand_material_upto(b, 12) == 9176 * bh[0] + 18350 * bh[1] + 18350 * bh[2] + 27526 * bh[3] + 27526 * bh[4] + 45876 * bh[5] + 45876 * bh[6] + 9176 * wh[0] + 18350 * wh[1] + 18350 * wh[2] + 27526 * wh[3] + 27526 * wh[4]);
    assert(spec_hand_material_upto(b, 13) == 9176 * bh[0] + 18350 * bh[1] + 18350 * bh[2] + 27526 * bh[3] + 27526 * bh[4] + 45876 * bh[5] + 45876 * bh[6] + 9176 * wh[0] + 18350 * wh[1] + 18350 * wh[2] + 27526 * wh[3] + 27526 * wh[4] + 45876 * wh[5]);
    assert(spec_hand_material_upto(b, 14) == 9176 * bh[0] + 18350 * bh[1] + 18350 * bh[2] + 27526 * bh[3] + 27526 * bh[4] + 45876 * bh[5] + 45876 * bh[6] + 9176 * wh[0] + 18350 * wh[1] + 18350 * wh[2] + 27526 * wh[3] + 27526 * wh[4] + 45876 * wh[5] + 45876 * wh[6]);
    assert(spec_material_hand_q16(bh) == 9176 * bh[0] + 18350 * bh[1] + 18350 * bh[2] + 27526 * bh[3] + 27526
        * bh[4] + 45876 * bh[5] + 45876 * bh[6]);
    assert(spec_material_hand_q16(wh) == 9176 * wh[0] + 18350 * wh[1] + 18350 * wh[2] + 27526 * wh[3] + 27526
        * wh[4] + 45876 * wh[5] + 45876 * wh[6]);
    assert(spec_count_kind_upto(b.board, PieceType::Horse, 81) == hb + hw);
    assert(spec_count_kind_upto(b.board, PieceType::Dragon, 81) == db + dw);
    assert(spec_material_sum_q16(b) == MATERIAL_BIAS_Q16 + 23592 * (hb + hw) + 28836 * (db + dw)
        + spec_material_hand_q16(bh) + spec_material_hand_q16(wh));
}

/// Law: whatever parameters are loaded, a position with both kings on the
/// board and no more pieces of a kind in hand than a game has gets the
/// weighted sum of those parameters, also when the material shortcut is
/// taken.
pub proof fn lemma_state_sum_is_weighted(state: ShogiSfnnProgressState, b: BoardView)
    requires
        state.spec_wf(),
        state.spec_params() is Some,
        b.black_king_sq.spec_valid(),
        b.white_king_sq.spec_valid(),
        spec_hand_within_limits(b.black_hand),
        spec_hand_within_limits(b.white_hand),
    ensures
        spec_state_sum_q16(state, b) == spec_progress_sum_q16(
            b,
            state.spec_params().unwrap().bias_q16,
            state.spec_params().unwrap().weights_q16@,
        ),
{
    if state.spec_material() {
        lemma_material_sum_matches_weighted(b, state.spec_params().unwrap().weights_q16@);
    }
}


/// KP-absolute indices of one piece: its Black-side BonaPiece under Black's
/// king and its White-side BonaPiece under White's king, each when nonzero.
pub open spec fn spec_kp_pair_indices(b: BoardView, bb: BonaPiece, bw: BonaPiece) -> Seq<usize> {
    (if bb.0 != 0 {
        seq![(spec_black_base(b) + bb.0) as usize]
    } else {
        Seq::empty()
    }) + (if bw.0 != 0 {
        seq![(spec_white_base(b) + bw.0) as usize]
    } else {
        Seq::empty()
    })
}

/// KP-absolute indices of a board piece.
pub open spec fn spec_kp_board_indices(b: BoardView, it: (Piece, Square)) -> Seq<usize> {
    spec_kp_pair_indices(
        b,
        BonaPiece::spec_from_piece_square(it.0, it.1, Color::Black),
        BonaPiece::spec_from_piece_square(it.0, it.1, Color::White),
    )
}

/// KP-absolute indices of a hand piece.
pub open spec fn spec_kp_hand_indices(b: BoardView, it: (Color, PieceType, u8)) -> Seq<usize> {
    spec_kp_pair_indices(
        b,
        BonaPiece::spec_from_hand_piece(Color::Black, it.0, it.1, it.2),
        BonaPiece::spec_from_hand_piece(Color::White, it.0, it.1, it.2),
    )
}

/// Active KP-absolute indices of a position: none when a king is missing,
/// else those of the board pieces in enumeration order, then those of the
/// hand pieces.
pub open spec fn spec_kp_abs_indices(b: BoardView) -> Seq<usize> {
    if !b.black_king_sq.spec_valid() || !b.white_king_sq.spec_valid() {
        Seq::empty()
    } else {
        spec_flat_map(spec_board_items(b), |it: (Piece, Square)| spec_kp_board_indices(b, it)) + spec_flat_map(
            spec_hand_items(b),
            |it: (Color, PieceType, u8)| spec_kp_hand_indices(b, it),
        )
    }
}

/// KP-absolute progress features: 81 king squares x 1548 BonaPieces, from
/// both kings' sides.
#[derive(Clone, Copy, Debug, Default)]
pub struct ShogiProgressKPAbs;

fn push_kp_pair(out: &mut Vec<usize>, bk_base: usize, wk_base: usize, bb: BonaPiece, bw: BonaPiece, Ghost(b): Ghost<BoardView>)
    requires
        bk_base == spec_black_base(b),
        wk_base == spec_white_base(b),
        bk_base < 81 * 1548,
        wk_base < 81 * 1548,
        bb.0 < 1548,
        bw.0 < 1548,
    ensures
        final(out)@ == old(out)@ + spec_kp_pair_indices(b, bb, bw),
        forall|k: int| 0 <= k < spec_kp_pair_indices(b, bb, bw).len() ==> spec_kp_pair_indices(b, bb, bw)[k] < SHOGI_PROGRESS_KP_ABS_NUM_WEIGHTS,
{
    let ghost before = out@;
    if bb.value() != 0 {
        out.push(bk_base + bb.value() as usize);
    }
    if bw.value() != 0 {
        out.push(wk_base + bw.value() as usize);
    }
    assert(out@ =~= before + spec_kp_pair_indices(b, bb, bw));
}

impl ShogiProgressKPAbs {
    /// Active KP-absolute indices of a decoded position (see
    /// [`spec_kp_abs_indices`]); each below 81 x 1548.
    pub fn active_indices_from_board(board: &ShogiBoard) -> (r: Vec<usize>)
        ensures
            r@ == spec_kp_abs_indices(board@),
            forall|k: int| 0 <= k < r@.len() ==> r@[k] < SHOGI_PROGRESS_KP_ABS_NUM_WEIGHTS,
    {
        let mut out: Vec<usize> = Vec::new();
        if !board.black_king_sq.is_valid() || !board.white_king_sq.is_valid() {
            return out;
        }
        let bk_base = board.black_king_sq.index() * 1548;
        let wk_base = board.white_king_sq.inverse().index() * 1548;
        let ghost f = |it: (Piece, Square)| spec_kp_board_indices(board@, it);
        let ghost g = |it: (Color, PieceType, u8)| spec_kp_hand_indices(board@, it);
        let items = board_items(board);
        proof {
            lemma_board_items_valid(board@);
        }
        let mut i: usize = 0;
        while i < items.len()
            invariant
                items@ == spec_board_items(board@),
                forall|j: int|
                    0 <= j < spec_board_items(board@).len() ==> {
                        let it = #[trigger] spec_board_items(board@)[j];
                        &&& it.1.0 < 81
                    },
                bk_base == spec_black_base(board@),
                wk_base == spec_white_base(board@),
                bk_base < 81 * 1548,
                wk_base < 81 * 1548,
                f == (|it: (Piece, Square)| spec_kp_board_indices(board@, it)),
                i <= items@.len(),
                out@ == spec_flat_map(items@.take(i as int), f),
                forall|k: int| 0 <= k < out@.len() ==> out@[k] < SHOGI_PROGRESS_KP_ABS_NUM_WEIGHTS,
            decreases items@.len() - i,
        {
            let (piece, sq) = items[i];
            proof {
                lemma_flat_map_step(items@, f, i as int);
            }
            let bb = BonaPiece::from_piece_square(piece, sq, Color::Black);
            let bw = BonaPiece::from_piece_square(piece, sq, Color::White);
            push_kp_pair(&mut out, bk_base, wk_base, bb, bw, Ghost(board@));
            i = i + 1;
        }
        proof {
            lemma_flat_map_take_all(items@, f);
        }
        let ghost board_part = out@;
        let hitems = hand_items(board);
        let mut j: usize = 0;
        while j < hitems.len()
            invariant
                hitems@ == spec_hand_items(board@),
                bk_base == spec_black_base(board@),
                wk_base == spec_white_base(board@),
                bk_base < 81 * 1548,
                wk_base < 81 * 1548,
                g == (|it: (Color, PieceType, u8)| spec_kp_hand_indices(board@, it)),
                j <= hitems@.len(),
                out@ == board_part + spec_flat_map(hitems@.take(j as int), g),
                forall|k: int| 0 <= k < out@.len() ==> out@[k] < SHOGI_PROGRESS_KP_ABS_NUM_WEIGHTS,
            decreases hitems@.len() - j,
        {
            let (owner, pt, c) = hitems[j];
            proof {
                lemma_flat_map_step(hitems@, g, j as int);
            }
            let bb = BonaPiece::from_hand_piece(Color::Black, owner, pt, c);
            let bw = BonaPiece::from_hand_piece(Color::White, owner, pt, c);
            push_kp_pair(&mut out, bk_base, wk_base, bb, bw, Ghost(board@));
            j = j + 1;
        }
        proof {
            lemma_flat_map_take_all(hitems@, g);
        }
        out
    }

    /// Active KP-absolute indices of a training record.
    pub fn for_each_active_index(pos: &PackedSfenValue) -> (r: Vec<usize>)
        ensures
            r@ == spec_kp_abs_indices(spec_decode(pos.data@)),
            forall|k: int| 0 <= k < r@.len() ==> r@[k] < SHOGI_PROGRESS_KP_ABS_NUM_WEIGHTS,
    {
        let board = pos.decode();
        Self::active_indices_from_board(&board)
    }

    /// Replaces the contents of `out` with the active KP-absolute indices of
    /// a training record.
    pub fn collect_active_indices(pos: &PackedSfenValue, out: &mut Vec<usize>)
        ensures
            final(out)@ == spec_kp_abs_indices(spec_decode(pos.data@)),
    {
        out.clear();
        let v = Self::for_each_active_index(pos);
        let mut i: usize = 0;
        while i < v.len()
            invariant
                i <= v@.len(),
                out@ == v@.take(i as int),
            decreases v@.len() - i,
        {
            out.push(v[i]);
            assert(v@.take(i as int + 1) =~= v@.take(i as int).push(v@[i as int]));
            i = i + 1;
        }
        assert(v@.take(v@.len() as int) =~= v@);
    }
}

proof fn lemma_pair_indices_sum(w: Seq<i32>, b: BoardView, bb: BonaPiece, bw: BonaPiece)
    requires
        b.black_king_sq.spec_valid(),
        b.white_king_sq.spec_valid(),
        bb.0 < 1548,
        bw.0 < 1548,
    ensures
        spec_sum(spec_kp_pair_indices(b, bb, bw), |k: usize| w[k as int] as int) == spec_kp_weight(
            w,
            spec_black_base(b),
            bb,
        ) + spec_kp_weight(w, spec_white_base(b), bw),
{
    let g = |k: usize| w[k as int] as int;
    let s1: Seq<usize> = if bb.0 != 0 {
        seq![(spec_black_base(b) + bb.0) as usize]
    } else {
        Seq::empty()
    };
    let s2: Seq<usize> = if bw.0 != 0 {
        seq![(spec_white_base(b) + bw.0) as usize]
    } else {
        Seq::empty()
    };
    lemma_sum_concat(s1, s2, g);
    assert(spec_sum(Seq::<usize>::empty(), g) == 0);
    if bb.0 != 0 {
        assert(s1.drop_last() =~= Seq::<usize>::empty());
        assert(0 <= spec_black_base(b) + bb.0 < 125388);
        assert(spec_sum(s1, g) == w[spec_black_base(b) + bb.0] as int);
    }
    if bw.0 != 0 {
        assert(s2.drop_last() =~= Seq::<usize>::empty());
        assert(0 <= spec_white_base(b) + bw.0 < 125388);
        assert(spec_sum(s2, g) == w[spec_white_base(b) + bw.0] as int);
    }
}

/// Law: the weighted progress sum of a position is the bias plus the
/// weights at its active KP-absolute indices.
pub proof fn lemma_progress_sum_over_kp_abs_indices(b: BoardView, bias: i32, w: Seq<i32>)
    requires
        w.len() == SHOGI_SFNN_PROGRESS_WEIGHT_COUNT,
    ensures
        spec_progress_sum_q16(b, bias, w) == bias + spec_sum(spec_kp_abs_indices(b), |k: usize| w[k as int] as int),
{
    let g = |k: usize| w[k as int] as int;
    if b.black_king_sq.spec_valid() && b.white_king_sq.spec_valid() {
        let f = |it: (Piece, Square)| spec_kp_board_indices(b, it);
        let h = |it: (Color, PieceType, u8)| spec_kp_hand_indices(b, it);
        let items = spec_board_items(b);
        let hitems = spec_hand_items(b);
        lemma_board_items_valid(b);
        lemma_sum_concat(spec_flat_map(items, f), spec_flat_map(hitems, h), g);
        lemma_sum_flat_map(items, f, g);
        lemma_sum_flat_map(hitems, h, g);
        let fa = |a: (Piece, Square)| spec_sum(f(a), g);
        let fb = |it: (Piece, Square)| spec_progress_board_term(w, b, it);
        assert forall|i: int| 0 <= i < items.len() implies fa(#[trigger] items[i]) == fb(items[i]) by {
            let it = items[i];
            lemma_pair_indices_sum(
                w,
                b,
                BonaPiece::spec_from_piece_square(it.0, it.1, Color::Black),
                BonaPiece::spec_from_piece_square(it.0, it.1, Color::White),
            );
        }
        lemma_sum_congruent(items, fa, fb);
        let ha = |a: (Color, PieceType, u8)| spec_sum(h(a), g);
        let hb = |it: (Color, PieceType, u8)| spec_progress_hand_term(w, b, it);
        assert forall|i: int| 0 <= i < hitems.len() implies ha(#[trigger] hitems[i]) == hb(hitems[i]) by {
            let it = hitems[i];
            lemma_pair_indices_sum(
                w,
                b,
                BonaPiece::spec_from_hand_piece(Color::Black, it.0, it.1, it.2),
                BonaPiece::spec_from_hand_piece(Color::White, it.0, it.1, it.2),
            );
        }
        lemma_sum_congruent(hitems, ha, hb);
    }
}

/// q16 logit thresholds of the progress values: entry `i` is
/// `round(65536 * ln(p / (1 - p)))` for `p = (i + 1) / 256`.
pub open spec fn spec_thresholds() -> Seq<i64> {
    seq![
        -363152i64, -317469i64, -290638i64, -271524i64, -256640i64, -244430i64, -234065i64, -225050i64,
        -217066i64, -209895i64, -203382i64, -197412i64, -191897i64, -186770i64, -181977i64, -177475i64,
        -173228i64, -169207i64, -165388i64, -161749i64, -158274i64, -154945i64, -151752i64, -148680i64,
        -145722i64, -142867i64, -140108i64, -137438i64, -134850i64, -132339i64, -129900i64, -127527i64,
        -125217i64, -122966i64, -120771i64, -118627i64, -116533i64, -114485i64, -112482i64, -110520i64,
        -108597i64, -106713i64, -104864i64, -103049i64, -101266i64, -99514i64, -97792i64, -96098i64,
        -94431i64, -92789i64, -91173i64, -89580i64, -88009i64, -86461i64, -84933i64, -83425i64,
        -81937i64, -80467i64, -79015i64, -77580i64, -76161i64, -74758i64, -73371i64, -71999i64,
        -70640i64, -69296i64, -67964i64, -66646i64, -65340i64, -64045i64, -62762i64, -61490i64,
        -60229i64, -58979i64, -57738i64, -56507i64, -55285i64, -54072i64, -52868i64, -51672i64,
        -50485i64, -49305i64, -48133i64, -46968i64, -45810i64, -44660i64, -43515i64, -42377i64,
        -41246i64, -40120i64, -39000i64, -37885i64, -36776i64, -35671i64, -34572i64, -33477i64,
        -32387i64, -31302i64, -30220i64, -29143i64, -28069i64, -27000i64, -25933i64, -24870i64,
        -23811i64, -22754i64, -21700i64, -20649i64, -19601i64, -18555i64, -17511i64, -16470i64,
        -15431i64, -14394i64, -13358i64, -12324i64, -11292i64, -10261i64, -9231i64, -8203i64,
        -7175i64, -6149i64, -5123i64, -4097i64, -3073i64, -2048i64, -1024i64, 0i64,
        1024i64, 2048i64, 3073i64, 4097i64, 5123i64, 6149i64, 7175i64, 8203i64,
        9231i64, 10261i64, 11292i64, 12324i64, 13358i64, 14394i64, 15431i64, 16470i64,
        17511i64, 18555i64, 19601i64, 20649i64, 21700i64, 22754i64, 23811i64, 24870i64,
        25933i64, 27000i64, 28069i64, 29143i64, 30220i64, 31302i64, 32387i64, 33477i64,
        34572i64, 35671i64, 36776i64, 37885i64, 39000i64, 40120i64, 41246i64, 42377i64,
        43515i64, 44660i64, 45810i64, 46968i64, 48133i64, 49305i64, 50485i64, 51672i64,
        52868i64, 54072i64, 55285i64, 56507i64, 57738i64, 58979i64, 60229i64, 61490i64,
        62762i64, 64045i64, 65340i64, 66646i64, 67964i64, 69296i64, 70640i64, 71999i64,
        73371i64, 74758i64, 76161i64, 77580i64, 79015i64, 80467i64, 81937i64, 83425i64,
        84933i64, 86461i64, 88009i64, 89580i64, 91173i64, 92789i64, 94431i64, 96098i64,
        97792i64, 99514i64, 101266i64, 103049i64, 104864i64, 106713i64, 108597i64, 110520i64,
        112482i64, 114485i64, 116533i64, 118627i64, 120771i64, 122966i64, 125217i64, 127527i64,
        129900i64, 132339i64, 134850i64, 137438i64, 140108i64, 142867i64, 145722i64, 148680i64,
        151752i64, 154945i64, 158274i64, 161749i64, 165388i64, 169207i64, 173228i64, 177475i64,
        181977i64, 186770i64, 191897i64, 197412i64, 203382i64, 209895i64, 217066i64, 225050i64,
        234065i64, 244430i64, 256640i64, 271524i64, 290638i64, 317469i64, 363152i64,
    ]
}

/// The progress thresholds (see [`spec_thresholds`]).
pub fn progress_q16_thresholds() -> (r: Vec<i64>)
    ensures
        r@ == spec_thresholds(),
        r@.len() == 255,
{
    let v: Vec<i64> = vec![
        -363152i64, -317469i64, -290638i64, -271524i64, -256640i64, -244430i64, -234065i64, -225050i64,
        -217066i64, -209895i64, -203382i64, -197412i64, -191897i64, -186770i64, -181977i64, -177475i64,
        -173228i64, -169207i64, -165388i64, -161749i64, -158274i64, -154945i64, -151752i64, -148680i64,
        -145722i64, -142867i64, -140108i64, -137438i64, -134850i64, -132339i64, -129900i64, -127527i64,
        -125217i64, -122966i64, -120771i64, -118627i64, -116533i64, -114485i64, -112482i64, -110520i64,
        -108597i64, -106713i64, -104864i64, -103049i64, -101266i64, -99514i64, -97792i64, -96098i64,
        -94431i64, -92789i64, -91173i64, -89580i64, -88009i64, -86461i64, -84933i64, -83425i64,
        -81937i64, -80467i64, -79015i64, -77580i64, -76161i64, -74758i64, -73371i64, -71999i64,
        -70640i64, -69296i64, -67964i64, -66646i64, -65340i64, -64045i64, -62762i64, -61490i64,
        -60229i64, -58979i64, -57738i64, -56507i64, -55285i64, -54072i64, -52868i64, -51672i64,
        -50485i64, -49305i64, -48133i64, -46968i64, -45810i64, -44660i64, -43515i64, -42377i64,
        -41246i64, -40120i64, -39000i64, -37885i64, -36776i64, -35671i64, -34572i64, -33477i64,
        -32387i64, -31302i64, -30220i64, -29143i64, -28069i64, -27000i64, -25933i64, -24870i64,
        -23811i64, -22754i64, -21700i64, -20649i64, -19601i64, -18555i64, -17511i64, -16470i64,
        -15431i64, -14394i64, -13358i64, -12324i64, -11292i64, -10261i64, -9231i64, -8203i64,
        -7175i64, -6149i64, -5123i64, -4097i64, -3073i64, -2048i64, -1024i64, 0i64,
        1024i64, 2048i64, 3073i64, 4097i64, 5123i64, 6149i64, 7175i64, 8203i64,
        9231i64, 10261i64, 11292i64, 12324i64, 13358i64, 14394i64, 15431i64, 16470i64,
        17511i64, 18555i64, 19601i64, 20649i64, 21700i64, 22754i64, 23811i64, 24870i64,
        25933i64, 27000i64, 28069i64, 29143i64, 30220i64, 31302i64, 32387i64, 33477i64,
        34572i64, 35671i64, 36776i64, 37885i64, 39000i64, 40120i64, 41246i64, 42377i64,
        43515i64, 44660i64, 45810i64, 46968i64, 48133i64, 49305i64, 50485i64, 51672i64,
        52868i64, 54072i64, 55285i64, 56507i64, 57738i64, 58979i64, 60229i64, 61490i64,
        62762i64, 64045i64, 65340i64, 66646i64, 67964i64, 69296i64, 70640i64, 71999i64,
        73371i64, 74758i64, 76161i64, 77580i64, 79015i64, 80467i64, 81937i64, 83425i64,
        84933i64, 86461i64, 88009i64, 89580i64, 91173i64, 92789i64, 94431i64, 96098i64,
        97792i64, 99514i64, 101266i64, 103049i64, 104864i64, 106713i64, 108597i64, 110520i64,
        112482i64, 114485i64, 116533i64, 118627i64, 120771i64, 122966i64, 125217i64, 127527i64,
        129900i64, 132339i64, 134850i64, 137438i64, 140108i64, 142867i64, 145722i64, 148680i64,
        151752i64, 154945i64, 158274i64, 161749i64, 165388i64, 169207i64, 173228i64, 177475i64,
        181977i64, 186770i64, 191897i64, 197412i64, 203382i64, 209895i64, 217066i64, 225050i64,
        234065i64, 244430i64, 256640i64, 271524i64, 290638i64, 317469i64, 363152i64,
    ];
    assert(v@ =~= spec_thresholds());
    v
}

/// Number of the first `n` entries of `t` that are at most `sum`.
pub open spec fn spec_count_le(t: Seq<i64>, sum: int, n: int) -> int
    decreases n,
{
    if n <= 0 {
        0
    } else {
        spec_count_le(t, sum, n - 1) + if t[n - 1] <= sum {
            1int
        } else {
            0
        }
    }
}

/// Progress value `0..=255` of a q16 logit sum: the number of thresholds at
/// or below it.
pub fn shogi_sfnn_progress_0_to_255_from_sum_q16(sum_q16: i64) -> (r: u8)
    ensures
        r == spec_count_le(spec_thresholds(), sum_q16 as int, 255),
{
    let t = progress_q16_thresholds();
    let mut c: u8 = 0;
    let mut i: usize = 0;
    while i < 255
        invariant
            i <= 255,
            t@ == spec_thresholds(),
            t@.len() == 255,
            c == spec_count_le(t@, sum_q16 as int, i as int),
            c <= i,
        decreases 255 - i,
    {
        if t[i] <= sum_q16 {
            c = c + 1;
        }
        i = i + 1;
    }
    c
}

/// Progress bucket of progress value `progress` for `bucket_count` buckets:
/// `progress * bucket_count / 256`, at most `bucket_count - 1`; 0 for at
/// most one bucket.
pub open spec fn spec_progress_bucket_from_value(progress: int, bucket_count: int) -> int {
    if bucket_count <= 1 {
        0
    } else {
        let raw = progress * bucket_count / 256;
        if raw < bucket_count - 1 {
            raw
        } else {
            bucket_count - 1
        }
    }
}

pub fn shogi_sfnn_progress_bucket_from_value(progress: u8, bucket_count: usize) -> (r: usize)
    requires
        progress as int * bucket_count as int <= usize::MAX,
    ensures
        r == spec_progress_bucket_from_value(progress as int, bucket_count as int),
        bucket_count >= 1 ==> r < bucket_count,
{
    if bucket_count <= 1 {
        return 0;
    }
    let raw = (progress as usize) * bucket_count / SHOGI_SFNN_PROGRESS_VALUE_COUNT;
    if raw < bucket_count - 1 {
        raw
    } else {
        bucket_count - 1
    }
}


/// Progress value `0..=255` of a decoded position under the loaded
/// parameters.
#[verifier::spinoff_prover]
pub fn shogi_sfnn_progress_0_to_255_from_board(board: &ShogiBoard, state: &ShogiSfnnProgressState) -> (r: u8)
    requires
        state.spec_usable(),
    ensures
        r == spec_count_le(spec_thresholds(), spec_state_sum_q16(*state, board@), 255),
{
    match shogi_sfnn_progress_q16_params(state) {
        None => shogi_sfnn_progress_0_to_255_from_sum_q16(0),
        Some(params) => {
            let sum = if state.is_material_heuristic() {
                shogi_sfnn_material_heuristic_sum_q16_from_board(board)
            } else {
                shogi_sfnn_progress_sum_q16_from_board(board, params)
            };
            shogi_sfnn_progress_0_to_255_from_sum_q16(sum)
        },
    }
}

/// Progress value `0..=255` of a training record under the loaded
/// parameters.
pub fn shogi_sfnn_progress_0_to_255(pos: &PackedSfenValue, state: &ShogiSfnnProgressState) -> (r: u8)
    requires
        state.spec_usable(),
    ensures
        r == spec_count_le(spec_thresholds(), spec_state_sum_q16(*state, spec_decode(pos.data@)), 255),
{
    match shogi_sfnn_progress_q16_params(state) {
        None => shogi_sfnn_progress_0_to_255_from_sum_q16(0),
        Some(_) => {
            let board = pos.decode();
            shogi_sfnn_progress_0_to_255_from_board(&board, state)
        },
    }
}

/// Progress bucket of a training record for `bucket_count` buckets under
/// the loaded parameters.
pub fn shogi_sfnn_progress_bucket(pos: &PackedSfenValue, bucket_count: usize, state: &ShogiSfnnProgressState) -> (r: usize)
    requires
        state.spec_usable(),
        255 * bucket_count as int <= usize::MAX,
    ensures
        r == spec_progress_bucket_from_value(
            spec_count_le(spec_thresholds(), spec_state_sum_q16(*state, spec_decode(pos.data@)), 255),
            bucket_count as int,
        ),
        bucket_count >= 1 ==> r < bucket_count,
{
    let p = shogi_sfnn_progress_0_to_255(pos, state);
    assert(p as int * bucket_count as int <= 255 * bucket_count as int) by (nonlinear_arith)
        requires
            p <= 255,
    ;
    shogi_sfnn_progress_bucket_from_value(p, bucket_count)
}

} // verus!

//! HalfKA_hm (73,305 inputs) followed by hand threats: for every piece in
//! hand and every empty square it may legally be dropped on, one input per
//! non-king piece the dropped piece would attack, seen from each side.

use vstd::prelude::*;
use crate::inputs::halfka::{
    HALFKA_HM_DIMENSIONS, MAX_ACTIVE_FEATURES, halfka_hm_features, is_hm_mirror, spec_halfka_hm_features,
    spec_is_hm_mirror, spec_kings_valid,
};
use crate::inputs::halfka_hm_threat::{
    lemma_class_width_bound, normalize_sq, spec_class_width, spec_normalize_sq, spec_order_value, spec_oriented,
    spec_pattern_attacked, spec_side, lemma_normalized_attacked,
};
use crate::inputs::threat::{
    AttackTables, spec_complete_tables, NUM_THREAT_CLASSES, Occupied, ThreatClass, attack_pattern_id, for_each_attack,
    lemma_attack_order_bound, lemma_from_offset_bounds, lemma_pattern_roundtrip, lemma_targets_attacked,
    spec_attack_pattern_id, spec_attack_targets, spec_empty_attacked, spec_from_offset, spec_is_directional,
    spec_occupancy, spec_pattern_class, spec_pattern_color, spec_pattern_total, spec_piece_attack_targets,
};
use crate::seqs::{spec_collect, lemma_collect_step, lemma_collect_take_all};
use crate::shogi::board::{BoardView, ShogiBoard};
use crate::shogi::packed_sfen::{PackedSfenValue, spec_decode};
use crate::shogi::types::{Color, Piece, PieceType, Square};
use crate::text::{concat_strs, decimal_string, spec_decimal};

verus! {

/// Kinds that can be dropped.
pub const HAND_NUM_CLASSES: usize = 7;

/// Hand threat pairs: 2 owners x 7 kinds x 2 sides x 9 classes.
pub const HAND_NUM_PAIRS: usize = 252;

/// Number of hand threat inputs: 36 x (72 + 324 + 112 + 328 + 416 + 816 +
/// 1296).
pub const HAND_THREAT_DIMENSIONS: usize = 121104;

/// Most hand threat features active at once (a safe upper bound).
pub const MAX_ACTIVE_HAND_THREAT_FEATURES: usize = 1024;

/// Empty-board attacks of a dropped piece of each kind, per side, in kind
/// order: pawn 72, lance 324, knight 112, silver 328, gold 416, bishop 816,
/// rook 1296.
pub open spec fn spec_hand_attacks_per_color(hc: int) -> int {
    if hc == 0 {
        72
    } else if hc == 1 {
        324
    } else if hc == 2 {
        112
    } else if hc == 3 {
        328
    } else if hc == 4 {
        416
    } else if hc == 5 {
        816
    } else {
        1296
    }
}

pub fn hand_attacks_per_color(hc: usize) -> (r: usize)
    requires
        hc < HAND_NUM_CLASSES,
    ensures
        r == spec_hand_attacks_per_color(hc as int),
{
    if hc == 0 {
        72
    } else if hc == 1 {
        324
    } else if hc == 2 {
        112
    } else if hc == 3 {
        328
    } else if hc == 4 {
        416
    } else if hc == 5 {
        816
    } else {
        1296
    }
}

/// A kind of piece that can be dropped.
#[derive(Clone, Copy, Debug, PartialEq, Eq, Structural)]
pub enum HandThreatClass {
    Pawn,
    Lance,
    Knight,
    Silver,
    Gold,
    Bishop,
    Rook,
}

impl HandThreatClass {
    pub open spec fn spec_index(self) -> int {
        match self {
            HandThreatClass::Pawn => 0,
            HandThreatClass::Lance => 1,
            HandThreatClass::Knight => 2,
            HandThreatClass::Silver => 3,
            HandThreatClass::Gold => 4,
            HandThreatClass::Bishop => 5,
            HandThreatClass::Rook => 6,
        }
    }

    pub fn index(self) -> (r: usize)
        ensures
            r == self.spec_index(),
            r < HAND_NUM_CLASSES,
    {
        match self {
            HandThreatClass::Pawn => 0,
            HandThreatClass::Lance => 1,
            HandThreatClass::Knight => 2,
            HandThreatClass::Silver => 3,
            HandThreatClass::Gold => 4,
            HandThreatClass::Bishop => 5,
            HandThreatClass::Rook => 6,
        }
    }

    pub open spec fn spec_from_index(i: int) -> HandThreatClass {
        if i == 0 {
            HandThreatClass::Pawn
        } else if i == 1 {
            HandThreatClass::Lance
        } else if i == 2 {
            HandThreatClass::Knight
        } else if i == 3 {
            HandThreatClass::Silver
        } else if i == 4 {
            HandThreatClass::Gold
        } else if i == 5 {
            HandThreatClass::Bishop
        } else {
            HandThreatClass::Rook
        }
    }

    /// Kind at position `i` of the kind order.
    pub fn from_index(i: usize) -> (r: HandThreatClass)
        requires
            i < HAND_NUM_CLASSES,
        ensures
            r == Self::spec_from_index(i as int),
            r.spec_index() == i,
    {
        if i == 0 {
            HandThreatClass::Pawn
        } else if i == 1 {
            HandThreatClass::Lance
        } else if i == 2 {
            HandThreatClass::Knight
        } else if i == 3 {
            HandThreatClass::Silver
        } else if i == 4 {
            HandThreatClass::Gold
        } else if i == 5 {
            HandThreatClass::Bishop
        } else {
            HandThreatClass::Rook
        }
    }

    pub open spec fn spec_board_class(self) -> ThreatClass {
        ThreatClass::spec_from_index(self.spec_index())
    }

    /// Threat class of the dropped piece (gold is gold-like).
    pub fn as_board_class(self) -> (r: ThreatClass)
        ensures
            r == self.spec_board_class(),
            r.spec_index() == self.spec_index(),
    {
        ThreatClass::from_index(self.index())
    }

    pub open spec fn spec_piece_type(self) -> PieceType {
        match self {
            HandThreatClass::Pawn => PieceType::Pawn,
            HandThreatClass::Lance => PieceType::Lance,
            HandThreatClass::Knight => PieceType::Knight,
            HandThreatClass::Silver => PieceType::Silver,
            HandThreatClass::Gold => PieceType::Gold,
            HandThreatClass::Bishop => PieceType::Bishop,
            HandThreatClass::Rook => PieceType::Rook,
        }
    }

    /// Piece kind of the dropped piece.
    pub fn as_piece_type(self) -> (r: PieceType)
        ensures
            r == self.spec_piece_type(),
    {
        match self {
            HandThreatClass::Pawn => PieceType::Pawn,
            HandThreatClass::Lance => PieceType::Lance,
            HandThreatClass::Knight => PieceType::Knight,
            HandThreatClass::Silver => PieceType::Silver,
            HandThreatClass::Gold => PieceType::Gold,
            HandThreatClass::Bishop => PieceType::Bishop,
            HandThreatClass::Rook => PieceType::Rook,
        }
    }
}

pub proof fn lemma_hand_class_piece(hc: HandThreatClass)
    ensures
        ThreatClass::spec_from_piece_type(hc.spec_piece_type()) == Some(hc.spec_board_class()),
        hc.spec_board_class().spec_index() == hc.spec_index(),
{
}

/// Whether a piece of kind `hc` dropped by `color` on `sq` could still move
/// (pawns and lances not on the last rank, knights not on the last two).
pub open spec fn spec_is_legal_drop_rank(hc: HandThreatClass, color: Color, sq: Square) -> bool {
    let rank = sq.spec_rank();
    match hc {
        HandThreatClass::Pawn | HandThreatClass::Lance => if color == Color::Black {
            rank != 0
        } else {
            rank != 8
        },
        HandThreatClass::Knight => if color == Color::Black {
            rank >= 2
        } else {
            rank <= 6
        },
        _ => true,
    }
}

pub fn is_legal_drop_rank(hc: HandThreatClass, color: Color, sq: Square) -> (r: bool)
    ensures
        r == spec_is_legal_drop_rank(hc, color, sq),
{
    let rank = sq.rank();
    match hc {
        HandThreatClass::Pawn | HandThreatClass::Lance => if color == Color::Black {
            rank != 0
        } else {
            rank != 8
        },
        HandThreatClass::Knight => if color == Color::Black {
            rank >= 2
        } else {
            rank <= 6
        },
        _ => true,
    }
}

/// Whether `color` has an unpromoted pawn on the file of `sq`.
pub open spec fn spec_has_pawn_on_file(b: BoardView, color: Color, sq: Square) -> bool {
    exists|r: int|
        0 <= r < 9 && #[trigger] b.board[sq.spec_file() * 9 + r] == (Piece { piece_type: PieceType::Pawn, color })
}

pub fn has_pawn_on_file(board: &ShogiBoard, color: Color, sq: Square) -> (r: bool)
    requires
        sq.spec_valid(),
    ensures
        r == spec_has_pawn_on_file(board@, color, sq),
{
    let file = sq.file();
    let mut rank: u8 = 0;
    while rank < 9
        invariant
            rank <= 9,
            file == sq.spec_file(),
            file < 9,
            forall|r: int|
                0 <= r < rank ==> #[trigger] board@.board[file * 9 + r] != (Piece {
                    piece_type: PieceType::Pawn,
                    color,
                }),
        decreases 9 - rank,
    {
        let s = Square::new(file, rank);
        let pc = board.piece_on(s);
        if !pc.is_none() && pc.color == color && pc.piece_type == PieceType::Pawn {
            return true;
        }
        rank = rank + 1;
    }
    false
}

/// Whether a piece of kind `hc` held by `color` may be dropped on square `d`
/// of `b`: the square is empty, the piece could still move, and a pawn would
/// not be a second pawn on its file.
pub open spec fn spec_droppable(b: BoardView, color: Color, hc: HandThreatClass, d: int) -> bool {
    let sq = Square(d as u8);
    &&& b.board[d].piece_type == PieceType::NoPiece
    &&& spec_is_legal_drop_rank(hc, color, sq)
    &&& !(hc == HandThreatClass::Pawn && spec_has_pawn_on_file(b, color, sq))
}

/// Squares that a piece of kind `hc` dropped by `color` on `d` would attack.
pub open spec fn spec_drop_targets(b: BoardView, color: Color, hc: HandThreatClass, d: int) -> Seq<Square> {
    spec_piece_attack_targets(hc.spec_piece_type(), color, Square(d as u8), spec_occupancy(b))
}

/// Width of the pairs of drop kind `hc`: the empty-board attack count of
/// its class.
pub open spec fn spec_hand_width(hc: int) -> int {
    spec_class_width(hc)
}

/// Total width of the hand pairs below `i` (pair `i = owner * 126 + hc * 18
/// + side * 9 + class`).
pub open spec fn spec_hand_pair_cum(i: int) -> int
    decreases i,
{
    if i <= 0 {
        0
    } else {
        spec_hand_pair_cum(i - 1) + spec_hand_width(((i - 1) % 126) / 18)
    }
}

/// Number of hand threat inputs.
pub open spec fn spec_hand_dims() -> int {
    spec_hand_pair_cum(252)
}

pub proof fn lemma_hand_pair_cum_bounds(a: int, b: int)
    requires
        0 <= a <= b,
    ensures
        0 <= spec_hand_pair_cum(a) <= spec_hand_pair_cum(b),
        spec_hand_pair_cum(b) <= 6561 * b,
        a < b ==> spec_hand_pair_cum(a) + spec_hand_width((a % 126) / 18) <= spec_hand_pair_cum(b),
    decreases b,
{
    if b > 0 {
        lemma_class_width_bound(((b - 1) % 126) / 18);
        if a < b {
            lemma_hand_pair_cum_bounds(a, b - 1);
        } else {
            lemma_hand_pair_cum_bounds(b - 1, b - 1);
        }
    }
}

/// Builds the hand pair base table from the class widths.
pub fn build_hand_pair_base(widths: &Vec<usize>) -> (r: (Vec<usize>, usize))
    requires
        widths@.len() == NUM_THREAT_CLASSES,
        forall|c: int| 0 <= c < 9 ==> #[trigger] widths@[c] == spec_class_width(c),
    ensures
        r.0@.len() == HAND_NUM_PAIRS,
        forall|i: int| 0 <= i < 252 ==> #[trigger] r.0@[i] == spec_hand_pair_cum(i),
        r.1 == spec_hand_dims(),
{
    let mut table: Vec<usize> = Vec::new();
    let mut cumulative: usize = 0;
    let mut i: usize = 0;
    while i < HAND_NUM_PAIRS
        invariant
            i <= 252,
            widths@.len() == 9,
            forall|c: int| 0 <= c < 9 ==> #[trigger] widths@[c] == spec_class_width(c),
            table@.len() == i,
            forall|j: int| 0 <= j < i ==> #[trigger] table@[j] == spec_hand_pair_cum(j),
            cumulative == spec_hand_pair_cum(i as int),
        decreases 252 - i,
    {
        proof {
            lemma_hand_pair_cum_bounds(i as int, i as int + 1);
            lemma_hand_pair_cum_bounds(i as int + 1, i as int + 1);
        }
        table.push(cumulative);
        cumulative = cumulative + widths[(i % 126) / 18];
        i = i + 1;
    }
    (table, cumulative)
}

/// Hand pair index of (drop owner, drop kind, attacked side, attacked class).
pub open spec fn spec_hand_pair_index(owner: int, hc: HandThreatClass, ds: int, dc: ThreatClass) -> int {
    owner * 126 + hc.spec_index() * 18 + ds * 9 + dc.spec_index()
}

/// Hand threat index (without the HalfKA_hm offset).
pub open spec fn spec_hand_threat_index(
    owner: int,
    hc: HandThreatClass,
    oriented: Color,
    ds: int,
    dc: ThreatClass,
    drop_n: int,
    to_n: int,
) -> int {
    let p = spec_attack_pattern_id(hc.spec_board_class(), oriented);
    spec_hand_pair_cum(spec_hand_pair_index(owner, hc, ds, dc)) + spec_from_offset(p, drop_n) + spec_order_value(
        p,
        drop_n,
        to_n,
    )
}

/// Hand threat index of a drop by `dcolor` on `d` attacking `to`, seen from
/// `persp` of `b`.
pub open spec fn spec_persp_hand_index(
    b: BoardView,
    persp: Color,
    dcolor: Color,
    hc: HandThreatClass,
    dc: ThreatClass,
    d: Square,
    to: Square,
) -> int {
    let hm = spec_is_hm_mirror(b.spec_king_square(persp), persp);
    spec_hand_threat_index(
        spec_side(dcolor, persp),
        hc,
        spec_oriented(dcolor, persp),
        spec_side(b.board[to.0 as int].color, persp),
        dc,
        spec_normalize_sq(d, persp, hm).0 as int,
        spec_normalize_sq(to, persp, hm).0 as int,
    )
}

pub proof fn lemma_hand_index_facts(
    owner: int,
    hc: HandThreatClass,
    oriented: Color,
    ds: int,
    dc: ThreatClass,
    color: Color,
    persp: Color,
    hm: bool,
    d: Square,
    to: Square,
)
    requires
        0 <= owner < 2,
        0 <= ds < 2,
        oriented == spec_oriented(color, persp),
        spec_empty_attacked(hc.spec_board_class(), color, d.0 as int, to.0 as int),
    ensures
        ({
            let p = spec_attack_pattern_id(hc.spec_board_class(), oriented);
            let f = spec_normalize_sq(d, persp, hm).0 as int;
            let t = spec_normalize_sq(to, persp, hm).0 as int;
            let pi = spec_hand_pair_index(owner, hc, ds, dc);
            &&& spec_empty_attacked(spec_pattern_class(p), spec_pattern_color(p), f, t)
            &&& 0 <= spec_order_value(p, f, t) < 81
            &&& 0 <= pi < 252
            &&& 0 <= spec_hand_pair_cum(pi)
            &&& 0 <= spec_from_offset(p, f)
            &&& spec_hand_threat_index(owner, hc, oriented, ds, dc, f, t) < spec_hand_dims()
            &&& spec_hand_dims() <= 6561 * 252
        }),
{
    let ac = hc.spec_board_class();
    let p = spec_attack_pattern_id(ac, oriented);
    let f = spec_normalize_sq(d, persp, hm).0 as int;
    let t = spec_normalize_sq(to, persp, hm).0 as int;
    let pi = spec_hand_pair_index(owner, hc, ds, dc);
    lemma_normalized_attacked(ac, color, d, to, persp, hm);
    lemma_pattern_roundtrip(ac, oriented);
    lemma_attack_order_bound(spec_pattern_class(p), spec_pattern_color(p), f, t);
    lemma_from_offset_bounds(p, f, 81);
    assert(0 <= pi < 252 && (pi % 126) / 18 == hc.spec_index()) by (nonlinear_arith)
        requires
            pi == owner * 126 + hc.spec_index() * 18 + ds * 9 + dc.spec_index(),
            0 <= owner < 2,
            0 <= ds < 2,
            0 <= hc.spec_index() < 7,
            0 <= dc.spec_index() < 9,
    ;
    lemma_hand_pair_cum_bounds(pi, 252);
    assert(spec_pattern_total(p) <= spec_class_width(hc.spec_index())) by {
        lemma_class_width_bound(hc.spec_index());
        assert(ThreatClass::spec_from_index(hc.spec_index()) == ac);
    }
}


/// Feature pair of a drop of kind `hc` by `dcolor` on `d` attacking `to`:
/// none when `to` holds no piece or a king.
pub open spec fn spec_hand_pair(b: BoardView, dcolor: Color, hc: HandThreatClass, d: Square, to: Square) -> Option<(usize, usize)> {
    match ThreatClass::spec_from_piece_type(b.board[to.0 as int].piece_type) {
        Some(dc) => {
            let stm = b.side_to_move;
            Some(
                (
                    (HALFKA_HM_DIMENSIONS + spec_persp_hand_index(b, stm, dcolor, hc, dc, d, to)) as usize,
                    (HALFKA_HM_DIMENSIONS + spec_persp_hand_index(b, stm.spec_opponent(), dcolor, hc, dc, d, to)) as usize,
                ),
            )
        },
        None => None,
    }
}

/// Hand threat features of a drop of kind `hc` by `dcolor` on square `d`;
/// none when the drop is not possible there.
pub open spec fn spec_hand_threats_at(b: BoardView, dcolor: Color, hc: HandThreatClass, d: int) -> Seq<(usize, usize)> {
    if spec_droppable(b, dcolor, hc, d) {
        spec_collect(
            spec_drop_targets(b, dcolor, hc, d),
            |to: Square| spec_hand_pair(b, dcolor, hc, Square(d as u8), to),
        )
    } else {
        Seq::empty()
    }
}

/// Hand threat features of the drops of kind `hc` by `dcolor` on squares
/// `0..n`, square by square.
pub open spec fn spec_hand_threats_squares(b: BoardView, dcolor: Color, hc: HandThreatClass, n: int) -> Seq<(usize, usize)>
    decreases n,
{
    if n <= 0 {
        Seq::empty()
    } else {
        spec_hand_threats_squares(b, dcolor, hc, n - 1) + spec_hand_threats_at(b, dcolor, hc, n - 1)
    }
}

/// Hand threat features of the first `k` drop kinds held by `dcolor`.
pub open spec fn spec_hand_threats_kinds(b: BoardView, dcolor: Color, k: int) -> Seq<(usize, usize)>
    decreases k,
{
    if k <= 0 {
        Seq::empty()
    } else {
        let hc = HandThreatClass::spec_from_index(k - 1);
        spec_hand_threats_kinds(b, dcolor, k - 1) + if crate::shogi::board::spec_hand_count(
            b.spec_hand(dcolor),
            hc.spec_piece_type(),
        ) == 0 {
            Seq::empty()
        } else {
            spec_hand_threats_squares(b, dcolor, hc, 81)
        }
    }
}

/// Hand threat features: the side to move's drops, then the other side's.
pub open spec fn spec_hand_threat_part(b: BoardView) -> Seq<(usize, usize)> {
    spec_hand_threats_kinds(b, b.side_to_move, 7) + spec_hand_threats_kinds(b, b.side_to_move.spec_opponent(), 7)
}

/// HalfKA_hm + hand threat features of `b`; nothing when a king is missing.
pub open spec fn spec_hand_threat_features(b: BoardView) -> Seq<(usize, usize)> {
    if !spec_kings_valid(b) {
        Seq::empty()
    } else {
        spec_halfka_hm_features(b) + spec_hand_threat_part(b)
    }
}

/// Class widths of every threat class, from the attack tables.
pub fn class_widths(tables: &AttackTables) -> (r: Vec<usize>)
    ensures
        r@.len() == NUM_THREAT_CLASSES,
        forall|c: int| 0 <= c < 9 ==> #[trigger] r@[c] == spec_class_width(c),
{
    let mut widths: Vec<usize> = Vec::new();
    let mut c: usize = 0;
    while c < NUM_THREAT_CLASSES
        invariant
            c <= 9,
            widths@.len() == c,
            forall|j: int| 0 <= j < c ==> #[trigger] widths@[j] == spec_class_width(j),
        decreases 9 - c,
    {
        let class = ThreatClass::from_index(c);
        let b = tables.total(attack_pattern_id(class, Color::Black));
        let w = tables.total(attack_pattern_id(class, Color::White));
        proof {
            assert(spec_attack_pattern_id(class, Color::Black) == c);
            reveal(spec_class_width);
        }
        widths.push(if b >= w { b } else { w });
        c = c + 1;
    }
    widths
}

/// Hand threats with the HalfKA_hm features in front.
#[derive(Debug)]
pub struct ShogiHalfKaHmHandThreat {
    pair_base: Vec<usize>,
    dims: usize,
    tables: AttackTables,
}

impl Clone for ShogiHalfKaHmHandThreat {
    fn clone(&self) -> (r: ShogiHalfKaHmHandThreat)
        ensures
            r.spec_pair_base() == self.spec_pair_base(),
            r.spec_dims() == self.spec_dims(),
            r.spec_tables().spec_offset_table() == self.spec_tables().spec_offset_table(),
            r.spec_tables().spec_order_table() == self.spec_tables().spec_order_table(),
            r.spec_tables().spec_totals() == self.spec_tables().spec_totals(),
    {
        proof {
            use_type_invariant(self);
        }
        let pair_base = self.pair_base.clone();
        assert(pair_base@ =~= self.pair_base@);
        ShogiHalfKaHmHandThreat { pair_base, dims: self.dims, tables: self.tables.clone() }
    }
}

impl Default for ShogiHalfKaHmHandThreat {
    fn default() -> (r: ShogiHalfKaHmHandThreat)
        ensures
            r.spec_pair_base() == Seq::new(252, |i: int| spec_hand_pair_cum(i) as usize),
            r.spec_dims() == spec_hand_dims(),
            spec_complete_tables(r.spec_tables()),
    {
        ShogiHalfKaHmHandThreat::new()
    }
}

impl ShogiHalfKaHmHandThreat {
    #[verifier::type_invariant]
    closed spec fn inv(self) -> bool {
        &&& self.pair_base@.len() == HAND_NUM_PAIRS
        &&& forall|i: int| 0 <= i < 252 ==> #[trigger] self.pair_base@[i] == spec_hand_pair_cum(i)
        &&& self.dims == spec_hand_dims()
    }

    /// Where each pair starts.
    pub closed spec fn spec_pair_base(self) -> Seq<usize> {
        self.pair_base@
    }

    /// Number of hand threat inputs.
    pub closed spec fn spec_dims(self) -> usize {
        self.dims
    }

    /// The attack tables.
    pub closed spec fn spec_tables(self) -> AttackTables {
        self.tables
    }

    /// Builds the attack tables and the start of each pair.
    pub fn new() -> (r: ShogiHalfKaHmHandThreat)
        ensures
            r.spec_pair_base() == Seq::new(252, |i: int| spec_hand_pair_cum(i) as usize),
            r.spec_dims() == spec_hand_dims(),
            spec_complete_tables(r.spec_tables()),
    {
        let tables = AttackTables::new();
        let widths = class_widths(&tables);
        let (pair_base, dims) = build_hand_pair_base(&widths);
        let r = ShogiHalfKaHmHandThreat { pair_base, dims, tables };
        proof {
            use_type_invariant(&r);
        }
        assert(r.pair_base@ =~= Seq::new(252, |i: int| spec_hand_pair_cum(i) as usize));
        r
    }

    /// Number of hand threat inputs.
    pub fn hand_threat_dimensions(&self) -> (r: usize)
        ensures
            r == spec_hand_dims(),
    {
        proof {
            use_type_invariant(self);
        }
        self.dims
    }

    /// Where each hand pair starts (pair `owner * 126 + kind * 18 + side * 9
    /// + class`).
    pub fn hand_pair_base(&self) -> (r: Vec<usize>)
        ensures
            r@.len() == HAND_NUM_PAIRS,
            forall|i: int| 0 <= i < 252 ==> #[trigger] r@[i] == spec_hand_pair_cum(i),
    {
        proof {
            use_type_invariant(self);
        }
        let r = self.pair_base.clone();
        assert(r@ =~= self.pair_base@);
        r
    }

    /// Number of inputs: HalfKA_hm followed by the hand threats.
    pub fn num_inputs(&self) -> (r: usize)
        ensures
            r == HALFKA_HM_DIMENSIONS + spec_hand_dims(),
    {
        proof {
            use_type_invariant(self);
            lemma_hand_pair_cum_bounds(252, 252);
        }
        HALFKA_HM_DIMENSIONS + self.dims
    }

    /// Most features active at once.
    pub fn max_active(&self) -> (r: usize)
        ensures
            r == MAX_ACTIVE_FEATURES + MAX_ACTIVE_HAND_THREAT_FEATURES,
    {
        MAX_ACTIVE_FEATURES + MAX_ACTIVE_HAND_THREAT_FEATURES
    }

    /// Hand threat index of a drop seen from `persp`.
    #[verifier::rlimit(100)]
    #[verifier::spinoff_prover]
    fn persp_index(
        &self,
        persp: Color,
        hm: bool,
        dcolor: Color,
        hc: HandThreatClass,
        dc: ThreatClass,
        tcolor: Color,
        d: Square,
        to: Square,
    ) -> (r: usize)
        requires
            d.spec_valid(),
            to.spec_valid(),
            spec_empty_attacked(hc.spec_board_class(), dcolor, d.0 as int, to.0 as int),
        ensures
            r == spec_hand_threat_index(
                spec_side(dcolor, persp),
                hc,
                spec_oriented(dcolor, persp),
                spec_side(tcolor, persp),
                dc,
                spec_normalize_sq(d, persp, hm).0 as int,
                spec_normalize_sq(to, persp, hm).0 as int,
            ),
            r < spec_hand_dims(),
    {
        proof {
            use_type_invariant(self);
        }
        let owner: usize = if dcolor == persp {
            0
        } else {
            1
        };
        let ds: usize = if tcolor == persp {
            0
        } else {
            1
        };
        let oriented = if persp == Color::Black {
            dcolor
        } else {
            dcolor.opponent()
        };
        let ac = hc.as_board_class();
        let pattern = attack_pattern_id(ac, oriented);
        let d_n = normalize_sq(d, persp, hm);
        let to_n = normalize_sq(to, persp, hm);
        proof {
            lemma_hand_index_facts(owner as int, hc, oriented, ds as int, dc, dcolor, persp, hm, d, to);
        }
        let idx = owner * 126 + hc.index() * 18 + ds * 9 + dc.index();
        let base = self.pair_base[idx];
        let off = self.tables.from_offset(pattern, d_n);
        let ord = self.tables.attack_order(pattern, d_n, to_n);
        assert(ord == spec_order_value(pattern as int, d_n.0 as int, to_n.0 as int));
        base + off + ord as usize
    }

    /// Appends the hand threat features of a drop of kind `hc` by `dcolor`
    /// on square `d` (see [`spec_hand_threats_at`]).
    fn push_drop_square(
        &self,
        b: &ShogiBoard,
        occ: &Occupied,
        stm_hm: bool,
        nstm_hm: bool,
        dcolor: Color,
        hc: HandThreatClass,
        d: usize,
        out: &mut Vec<(usize, usize)>,
    )
        requires
            d < 81,
            occ@ == spec_occupancy(b@),
            stm_hm == spec_is_hm_mirror(b@.spec_king_square(b.side_to_move), b.side_to_move),
            nstm_hm == spec_is_hm_mirror(
                b@.spec_king_square(b.side_to_move.spec_opponent()),
                b.side_to_move.spec_opponent(),
            ),
            forall|i: int|
                0 <= i < old(out)@.len() ==> old(out)@[i].0 < HALFKA_HM_DIMENSIONS + spec_hand_dims() && old(out)@[i].1 < HALFKA_HM_DIMENSIONS + spec_hand_dims(),
        ensures
            final(out)@ == old(out)@ + spec_hand_threats_at(b@, dcolor, hc, d as int),
            forall|i: int|
                0 <= i < final(out)@.len() ==> final(out)@[i].0 < HALFKA_HM_DIMENSIONS + spec_hand_dims() && final(out)@[i].1 < HALFKA_HM_DIMENSIONS + spec_hand_dims(),
    {
        proof {
            lemma_hand_pair_cum_bounds(252, 252);
        }
        let sq = Square(d as u8);
        if occ.is_occupied(d as u8) || !is_legal_drop_rank(hc, dcolor, sq) || (hc == HandThreatClass::Pawn
            && has_pawn_on_file(b, dcolor, sq)) {
            assert(out@ =~= old(out)@ + spec_hand_threats_at(b@, dcolor, hc, d as int));
            return;
        }
        let stm = b.side_to_move;
        let nstm = stm.opponent();
        let targets = for_each_attack(hc.as_piece_type(), dcolor, sq, occ);
        proof {
            lemma_hand_class_piece(hc);
            lemma_targets_attacked(hc.spec_board_class(), dcolor, sq, occ@);
        }
        let ghost before = out@;
        let ghost ft = |to: Square| spec_hand_pair(b@, dcolor, hc, sq, to);
        let mut k: usize = 0;
        while k < targets.len()
            invariant
                k <= targets@.len(),
                sq.0 == d,
                d < 81,
                targets@ == spec_drop_targets(b@, dcolor, hc, d as int),
                forall|j: int|
                    0 <= j < targets@.len() ==> spec_empty_attacked(
                        hc.spec_board_class(),
                        dcolor,
                        d as int,
                        (#[trigger] targets@[j]).0 as int,
                    ),
                stm == b.side_to_move,
                nstm == stm.spec_opponent(),
                stm_hm == spec_is_hm_mirror(b@.spec_king_square(stm), stm),
                nstm_hm == spec_is_hm_mirror(b@.spec_king_square(nstm), nstm),
                spec_hand_dims() <= 6561 * 252,
                ft == (|to: Square| spec_hand_pair(b@, dcolor, hc, sq, to)),
                out@ == before + spec_collect(targets@.take(k as int), ft),
                forall|i: int|
                    0 <= i < out@.len() ==> out@[i].0 < HALFKA_HM_DIMENSIONS + spec_hand_dims() && out@[i].1
                        < HALFKA_HM_DIMENSIONS + spec_hand_dims(),
            decreases targets.len() - k,
        {
            let to = targets[k];
            proof {
                lemma_collect_step(targets@, ft, k as int);
            }
            let tpc = b.piece_on(to);
            match ThreatClass::from_piece_type(tpc.piece_type) {
                None => {},
                Some(dc) => {
                    let si = self.persp_index(stm, stm_hm, dcolor, hc, dc, tpc.color, sq, to);
                    let ni = self.persp_index(nstm, nstm_hm, dcolor, hc, dc, tpc.color, sq, to);
                    out.push((HALFKA_HM_DIMENSIONS + si, HALFKA_HM_DIMENSIONS + ni));
                },
            }
            k = k + 1;
        }
        proof {
            lemma_collect_take_all(targets@, ft);
        }
    }

    /// Appends the hand threat features of every drop by `dcolor` (see
    /// [`spec_hand_threats_kinds`]).
    fn push_drop_color(
        &self,
        b: &ShogiBoard,
        occ: &Occupied,
        stm_hm: bool,
        nstm_hm: bool,
        dcolor: Color,
        out: &mut Vec<(usize, usize)>,
    )
        requires
            occ@ == spec_occupancy(b@),
            stm_hm == spec_is_hm_mirror(b@.spec_king_square(b.side_to_move), b.side_to_move),
            nstm_hm == spec_is_hm_mirror(
                b@.spec_king_square(b.side_to_move.spec_opponent()),
                b.side_to_move.spec_opponent(),
            ),
            forall|i: int|
                0 <= i < old(out)@.len() ==> old(out)@[i].0 < HALFKA_HM_DIMENSIONS + spec_hand_dims() && old(out)@[i].1 < HALFKA_HM_DIMENSIONS + spec_hand_dims(),
        ensures
            final(out)@ == old(out)@ + spec_hand_threats_kinds(b@, dcolor, 7),
            forall|i: int|
                0 <= i < final(out)@.len() ==> final(out)@[i].0 < HALFKA_HM_DIMENSIONS + spec_hand_dims() && final(out)@[i].1 < HALFKA_HM_DIMENSIONS + spec_hand_dims(),
    {
        let ghost start = out@;
        let hand = b.hand(dcolor);
        let mut k: usize = 0;
        while k < HAND_NUM_CLASSES
            invariant
                k <= 7,
                hand.counts@ == b@.spec_hand(dcolor),
                occ@ == spec_occupancy(b@),
                stm_hm == spec_is_hm_mirror(b@.spec_king_square(b.side_to_move), b.side_to_move),
                nstm_hm == spec_is_hm_mirror(
                    b@.spec_king_square(b.side_to_move.spec_opponent()),
                    b.side_to_move.spec_opponent(),
                ),
                out@ == start + spec_hand_threats_kinds(b@, dcolor, k as int),
                forall|i: int|
                    0 <= i < out@.len() ==> out@[i].0 < HALFKA_HM_DIMENSIONS + spec_hand_dims() && out@[i].1
                        < HALFKA_HM_DIMENSIONS + spec_hand_dims(),
            decreases 7 - k,
        {
            let hc = HandThreatClass::from_index(k);
            if hand.count(hc.as_piece_type()) == 0 {
                assert(out@ =~= start + spec_hand_threats_kinds(b@, dcolor, k as int + 1));
            } else {
                let ghost mid = out@;
                let mut d: usize = 0;
                while d < 81
                    invariant
                        d <= 81,
                        k < 7,
                        hc == HandThreatClass::spec_from_index(k as int),
                        hand.counts@ == b@.spec_hand(dcolor),
                        occ@ == spec_occupancy(b@),
                        stm_hm == spec_is_hm_mirror(b@.spec_king_square(b.side_to_move), b.side_to_move),
                        nstm_hm == spec_is_hm_mirror(
                            b@.spec_king_square(b.side_to_move.spec_opponent()),
                            b.side_to_move.spec_opponent(),
                        ),
                        out@ == mid + spec_hand_threats_squares(b@, dcolor, hc, d as int),
                        forall|i: int|
                            0 <= i < out@.len() ==> out@[i].0 < HALFKA_HM_DIMENSIONS + spec_hand_dims() && out@[i].1
                                < HALFKA_HM_DIMENSIONS + spec_hand_dims(),
                    decreases 81 - d,
                {
                    let ghost pre = out@;
                    self.push_drop_square(b, occ, stm_hm, nstm_hm, dcolor, hc, d, out);
                    assert(out@ =~= mid + spec_hand_threats_squares(b@, dcolor, hc, d as int + 1));
                    d = d + 1;
                }
                assert(out@ =~= start + spec_hand_threats_kinds(b@, dcolor, k as int + 1));
            }
            k = k + 1;
        }
    }

    /// HalfKA_hm + hand threat features of `b` (see
    /// [`spec_hand_threat_features`]); every index is below
    /// [`Self::num_inputs`].
    pub fn map_hand_threat_features(&self, b: &ShogiBoard) -> (r: Vec<(usize, usize)>)
        ensures
            r@ == spec_hand_threat_features(b@),
            forall|i: int|
                0 <= i < r@.len() ==> r@[i].0 < HALFKA_HM_DIMENSIONS + spec_hand_dims() && r@[i].1
                    < HALFKA_HM_DIMENSIONS + spec_hand_dims(),
    {
        proof {
            lemma_hand_pair_cum_bounds(252, 252);
        }
        let stm = b.side_to_move;
        let nstm = stm.opponent();
        let sk = b.king_square(stm);
        let nk = b.king_square(nstm);
        if !sk.is_valid() || !nk.is_valid() {
            proof {
                assert(!spec_kings_valid(b@)) by {
                    match stm {
                        Color::Black => {},
                        Color::White => {},
                    }
                }
            }
            return Vec::new();
        }
        assert(spec_kings_valid(b@)) by {
            match stm {
                Color::Black => {},
                Color::White => {},
            }
        }
        let mut out = halfka_hm_features(b);
        let ghost hk = out@;
        let occ = Occupied::from_board(b);
        let stm_hm = is_hm_mirror(sk, stm);
        let nstm_hm = is_hm_mirror(nk, nstm);
        self.push_drop_color(b, &occ, stm_hm, nstm_hm, stm, &mut out);
        self.push_drop_color(b, &occ, stm_hm, nstm_hm, nstm, &mut out);
        assert(out@ =~= hk + spec_hand_threat_part(b@));
        out
    }

    /// Features of a training record.
    pub fn map_features(&self, pos: &PackedSfenValue) -> (r: Vec<(usize, usize)>)
        ensures
            r@ == spec_hand_threat_features(spec_decode(pos.data@)),
    {
        let board = ShogiBoard::from_packed_sfen(pos);
        self.map_hand_threat_features(&board)
    }

    /// Short name: `shogi-<inputs>x45hm+handthreat`.
    pub fn shorthand(&self) -> (r: String)
        ensures
            r@ == "shogi-"@ + spec_decimal((HALFKA_HM_DIMENSIONS + spec_hand_dims()) as nat) + "x45hm+handthreat"@,
    {
        let n = self.num_inputs();
        let head = concat_strs("shogi-", decimal_string(n).as_str());
        concat_strs(head.as_str(), "x45hm+handthreat")
    }

    /// One-line description naming both parts.
    pub fn description(&self) -> (r: String)
        ensures
            r@ == "Shogi HalfKA_hm ("@ + spec_decimal(HALFKA_HM_DIMENSIONS as nat) + ") + HandThreat ("@
                + spec_decimal(spec_hand_dims() as nat) + ") concatenated"@,
    {
        let a = concat_strs("Shogi HalfKA_hm (", decimal_string(HALFKA_HM_DIMENSIONS).as_str());
        let b = concat_strs(a.as_str(), ") + HandThreat (");
        let c = concat_strs(b.as_str(), decimal_string(self.hand_threat_dimensions()).as_str());
        concat_strs(c.as_str(), ") concatenated")
    }
}

} // verus!

//! Piece attacks for the threat feature sets: the nine threat classes, the
//! squares a piece attacks on an empty board (ascending), the squares it
//! attacks on a real board (direction by direction, stopping at the first
//! occupied square), and the offset tables that number every empty-board
//! attack of each attack pattern.

use vstd::prelude::*;
use crate::shogi::board::ShogiBoard;
use crate::shogi::types::{Color, PieceType, Square};

verus! {

/// Number of threat classes (kings excluded).
pub const NUM_THREAT_CLASSES: usize = 9;

/// Attack patterns: the nine classes for Black, and White's own pattern for
/// the five classes whose moves depend on the side.
pub const NUM_ATTACK_PATTERNS: usize = 14;

/// Attack-order value of a (from, to) pair that the pattern does not attack.
pub const INVALID_ATTACK_ORDER: u8 = 255;

/// Threat class of a piece (gold and the promoted minor pieces share one).
#[derive(Clone, Copy, Debug, PartialEq, Eq, Structural)]
pub enum ThreatClass {
    Pawn,
    Lance,
    Knight,
    Silver,
    GoldLike,
    Bishop,
    Rook,
    Horse,
    Dragon,
}

impl ThreatClass {
    pub open spec fn spec_index(self) -> int {
        match self {
            ThreatClass::Pawn => 0,
            ThreatClass::Lance => 1,
            ThreatClass::Knight => 2,
            ThreatClass::Silver => 3,
            ThreatClass::GoldLike => 4,
            ThreatClass::Bishop => 5,
            ThreatClass::Rook => 6,
            ThreatClass::Horse => 7,
            ThreatClass::Dragon => 8,
        }
    }

    /// Position of the class in the class order (0..9).
    pub fn index(self) -> (r: usize)
        ensures
            r == self.spec_index(),
            r < NUM_THREAT_CLASSES,
    {
        match self {
            ThreatClass::Pawn => 0,
            ThreatClass::Lance => 1,
            ThreatClass::Knight => 2,
            ThreatClass::Silver => 3,
            ThreatClass::GoldLike => 4,
            ThreatClass::Bishop => 5,
            ThreatClass::Rook => 6,
            ThreatClass::Horse => 7,
            ThreatClass::Dragon => 8,
        }
    }

    pub open spec fn spec_from_index(i: int) -> ThreatClass {
        if i == 0 {
            ThreatClass::Pawn
        } else if i == 1 {
            ThreatClass::Lance
        } else if i == 2 {
            ThreatClass::Knight
        } else if i == 3 {
            ThreatClass::Silver
        } else if i == 4 {
            ThreatClass::GoldLike
        } else if i == 5 {
            ThreatClass::Bishop
        } else if i == 6 {
            ThreatClass::Rook
        } else if i == 7 {
            ThreatClass::Horse
        } else {
            ThreatClass::Dragon
        }
    }

    /// Class at position `i` of the class order.
    pub fn from_index(i: usize) -> (r: ThreatClass)
        requires
            i < NUM_THREAT_CLASSES,
        ensures
            r == Self::spec_from_index(i as int),
            r.spec_index() == i,
    {
        if i == 0 {
            ThreatClass::Pawn
        } else if i == 1 {
            ThreatClass::Lance
        } else if i == 2 {
            ThreatClass::Knight
        } else if i == 3 {
            ThreatClass::Silver
        } else if i == 4 {
            ThreatClass::GoldLike
        } else if i == 5 {
            ThreatClass::Bishop
        } else if i == 6 {
            ThreatClass::Rook
        } else if i == 7 {
            ThreatClass::Horse
        } else {
            ThreatClass::Dragon
        }
    }

    pub open spec fn spec_from_piece_type(pt: PieceType) -> Option<ThreatClass> {
        match pt {
            PieceType::Pawn => Some(ThreatClass::Pawn),
            PieceType::Lance => Some(ThreatClass::Lance),
            PieceType::Knight => Some(ThreatClass::Knight),
            PieceType::Silver => Some(ThreatClass::Silver),
            PieceType::Gold | PieceType::ProPawn | PieceType::ProLance | PieceType::ProKnight
            | PieceType::ProSilver => Some(ThreatClass::GoldLike),
            PieceType::Bishop => Some(ThreatClass::Bishop),
            PieceType::Rook => Some(ThreatClass::Rook),
            PieceType::Horse => Some(ThreatClass::Horse),
            PieceType::Dragon => Some(ThreatClass::Dragon),
            PieceType::King | PieceType::NoPiece => None,
        }
    }

    /// Threat class of a piece kind; none for the king and the empty square.
    pub fn from_piece_type(pt: PieceType) -> (r: Option<ThreatClass>)
        ensures
            r == Self::spec_from_piece_type(pt),
    {
        match pt {
            PieceType::Pawn => Some(ThreatClass::Pawn),
            PieceType::Lance => Some(ThreatClass::Lance),
            PieceType::Knight => Some(ThreatClass::Knight),
            PieceType::Silver => Some(ThreatClass::Silver),
            PieceType::Gold | PieceType::ProPawn | PieceType::ProLance | PieceType::ProKnight
            | PieceType::ProSilver => Some(ThreatClass::GoldLike),
            PieceType::Bishop => Some(ThreatClass::Bishop),
            PieceType::Rook => Some(ThreatClass::Rook),
            PieceType::Horse => Some(ThreatClass::Horse),
            PieceType::Dragon => Some(ThreatClass::Dragon),
            PieceType::King | PieceType::NoPiece => None,
        }
    }
}

/// Whether the moves of the class depend on the side (pawn to gold-like).
pub open spec fn spec_is_directional(class: ThreatClass) -> bool {
    class.spec_index() < 5
}

pub fn is_directional(class: ThreatClass) -> (r: bool)
    ensures
        r == spec_is_directional(class),
{
    class.index() < 5
}

/// Attack pattern of a class moving as `oriented_color`: White's own
/// pattern for the directional classes, the class index otherwise.
pub open spec fn spec_attack_pattern_id(class: ThreatClass, oriented_color: Color) -> int {
    if oriented_color == Color::White && spec_is_directional(class) {
        NUM_THREAT_CLASSES + class.spec_index()
    } else {
        class.spec_index()
    }
}

pub fn attack_pattern_id(class: ThreatClass, oriented_color: Color) -> (r: usize)
    ensures
        r == spec_attack_pattern_id(class, oriented_color),
        r < NUM_ATTACK_PATTERNS,
{
    if oriented_color == Color::White && is_directional(class) {
        NUM_THREAT_CLASSES + class.index()
    } else {
        class.index()
    }
}

/// Class of attack pattern `p`.
pub open spec fn spec_pattern_class(p: int) -> ThreatClass {
    if p < 9 {
        ThreatClass::spec_from_index(p)
    } else {
        ThreatClass::spec_from_index(p - 9)
    }
}

/// Side whose moves attack pattern `p` describes.
pub open spec fn spec_pattern_color(p: int) -> Color {
    if p < 9 {
        Color::Black
    } else {
        Color::White
    }
}

pub proof fn lemma_pattern_roundtrip(class: ThreatClass, c: Color)
    ensures
        forall|f: int, t: int|
            spec_empty_attacked(class, c, f, t) ==> #[trigger] spec_empty_attacked(
                spec_pattern_class(spec_attack_pattern_id(class, c)),
                spec_pattern_color(spec_attack_pattern_id(class, c)),
                f,
                t,
            ),
        0 <= spec_attack_pattern_id(class, c) < 14,
        spec_pattern_class(spec_attack_pattern_id(class, c)) == class,
        spec_is_directional(class) ==> spec_pattern_color(spec_attack_pattern_id(class, c)) == c,
        !spec_is_directional(class) ==> spec_pattern_color(spec_attack_pattern_id(class, c)) == Color::Black,
{
    reveal(spec_delta_attacked);
}

// ---------------------------------------------------------------------------
// Empty-board attacks
// ---------------------------------------------------------------------------

/// Absolute value.
pub open spec fn spec_abs(x: int) -> int {
    if x < 0 {
        -x
    } else {
        x
    }
}

/// Whether a piece of `class` moving as `color` attacks the square `df`
/// files and `dr` ranks away on an empty board. `drb` is the rank step as
/// Black sees it (Black moves towards rank 0).
#[verifier::opaque]
pub open spec fn spec_delta_attacked(class: ThreatClass, color: Color, df: int, dr: int) -> bool {
    let drb = if color == Color::Black {
        dr
    } else {
        -dr
    };
    let bishop = spec_abs(df) == spec_abs(dr) && df != 0;
    let rook = (df == 0 && dr != 0) || (dr == 0 && df != 0);
    match class {
        ThreatClass::Pawn => df == 0 && drb == -1,
        ThreatClass::Lance => df == 0 && drb < 0,
        ThreatClass::Knight => spec_abs(df) == 1 && drb == -2,
        ThreatClass::Silver => (spec_abs(df) <= 1 && drb == -1) || (spec_abs(df) == 1 && drb == 1),
        ThreatClass::GoldLike => (spec_abs(df) <= 1 && drb == -1) || (spec_abs(df) == 1 && drb == 0) || (df
            == 0 && drb == 1),
        ThreatClass::Bishop => bishop,
        ThreatClass::Rook => rook,
        ThreatClass::Horse => bishop || spec_abs(df) + spec_abs(dr) == 1,
        ThreatClass::Dragon => rook || (spec_abs(df) == 1 && spec_abs(dr) == 1),
    }
}

/// Whether a piece of `class` moving as `color` on square index `from`
/// attacks square index `to` on an empty board.
pub open spec fn spec_empty_attacked(class: ThreatClass, color: Color, from: int, to: int) -> bool {
    &&& 0 <= from < 81
    &&& 0 <= to < 81
    &&& spec_delta_attacked(class, color, to / 9 - from / 9, to % 9 - from % 9)
}

fn abs_i32(x: i32) -> (r: i32)
    requires
        x > i32::MIN,
    ensures
        r == spec_abs(x as int),
{
    if x < 0 {
        -x
    } else {
        x
    }
}

/// Whether a piece of `class` moving as `color` on `from` attacks `to` on an
/// empty board.
pub fn empty_attacked(class: ThreatClass, color: Color, from: Square, to: Square) -> (r: bool)
    ensures
        r == spec_empty_attacked(class, color, from.0 as int, to.0 as int),
{
    reveal(spec_delta_attacked);
    if from.0 >= 81 || to.0 >= 81 {
        return false;
    }
    let df: i32 = (to.0 / 9) as i32 - (from.0 / 9) as i32;
    let dr: i32 = (to.0 % 9) as i32 - (from.0 % 9) as i32;
    let drb: i32 = if color == Color::Black {
        dr
    } else {
        -dr
    };
    let adf = abs_i32(df);
    let adr = abs_i32(dr);
    let bishop = adf == adr && df != 0;
    let rook = (df == 0 && dr != 0) || (dr == 0 && df != 0);
    match class {
        ThreatClass::Pawn => df == 0 && drb == -1,
        ThreatClass::Lance => df == 0 && drb < 0,
        ThreatClass::Knight => adf == 1 && drb == -2,
        ThreatClass::Silver => (adf <= 1 && drb == -1) || (adf == 1 && drb == 1),
        ThreatClass::GoldLike => (adf <= 1 && drb == -1) || (adf == 1 && drb == 0) || (df == 0 && drb == 1),
        ThreatClass::Bishop => bishop,
        ThreatClass::Rook => rook,
        ThreatClass::Horse => bishop || adf + adr == 1,
        ThreatClass::Dragon => rook || (adf == 1 && adr == 1),
    }
}

/// Squares `0..n` attacked on an empty board, ascending.
pub open spec fn spec_empty_list_upto(class: ThreatClass, color: Color, from: int, n: int) -> Seq<u8>
    decreases n,
{
    if n <= 0 {
        Seq::empty()
    } else {
        let prev = spec_empty_list_upto(class, color, from, n - 1);
        if spec_empty_attacked(class, color, from, n - 1) {
            prev.push((n - 1) as u8)
        } else {
            prev
        }
    }
}

/// Every square attacked from `from` on an empty board, ascending.
pub open spec fn spec_empty_list(class: ThreatClass, color: Color, from: int) -> Seq<u8> {
    spec_empty_list_upto(class, color, from, 81)
}

/// Number of squares below `to` attacked from `from` on an empty board: the
/// rank of `to` among the attacked squares.
pub open spec fn spec_attack_order(class: ThreatClass, color: Color, from: int, to: int) -> int {
    spec_empty_list_upto(class, color, from, to).len() as int
}

/// Number of squares attacked from `from` on an empty board.
pub open spec fn spec_attack_count(class: ThreatClass, color: Color, from: int) -> int {
    spec_empty_list(class, color, from).len() as int
}

pub proof fn lemma_empty_list_len_le(class: ThreatClass, color: Color, from: int, n: int)
    ensures
        n >= 0 ==> spec_empty_list_upto(class, color, from, n).len() <= n,
        n < 0 ==> spec_empty_list_upto(class, color, from, n).len() == 0,
    decreases n,
{
    if n > 0 {
        lemma_empty_list_len_le(class, color, from, n - 1);
    }
}

pub proof fn lemma_empty_list_monotone(class: ThreatClass, color: Color, from: int, a: int, b: int)
    requires
        a <= b,
    ensures
        spec_empty_list_upto(class, color, from, a).len() <= spec_empty_list_upto(class, color, from, b).len(),
        spec_empty_attacked(class, color, from, a) && a < b && a >= 0 ==> spec_empty_list_upto(
            class,
            color,
            from,
            a,
        ).len() < spec_empty_list_upto(class, color, from, b).len(),
    decreases b - a,
{
    if a < b {
        lemma_empty_list_monotone(class, color, from, a, b - 1);
        if spec_empty_attacked(class, color, from, a) && a < b && a >= 0 && a == b - 1 {
        }
    }
}

/// The rank of an attacked square is below the number of attacked squares.
pub proof fn lemma_attack_order_bound(class: ThreatClass, color: Color, from: int, to: int)
    requires
        spec_empty_attacked(class, color, from, to),
    ensures
        0 <= spec_attack_order(class, color, from, to) < spec_attack_count(class, color, from),
        spec_attack_count(class, color, from) <= 81,
{
    lemma_empty_list_monotone(class, color, from, to, 81);
    lemma_empty_list_len_le(class, color, from, 81);
}

/// Squares attacked from `from` on an empty board, ascending, with their
/// number.
pub fn attacks_empty_board(class: ThreatClass, color: Color, from: Square) -> (r: (Vec<u8>, usize))
    ensures
        r.0@ == spec_empty_list(class, color, from.0 as int),
        r.1 == r.0@.len(),
        r.1 <= 81,
{
    let mut out: Vec<u8> = Vec::new();
    let mut s: u8 = 0;
    while s < 81
        invariant
            s <= 81,
            out@ == spec_empty_list_upto(class, color, from.0 as int, s as int),
            out@.len() <= s,
        decreases 81 - s,
    {
        if empty_attacked(class, color, from, Square(s)) {
            out.push(s);
        }
        s = s + 1;
    }
    let n = out.len();
    (out, n)
}

// ---------------------------------------------------------------------------
// Symmetries of the empty-board attacks
// ---------------------------------------------------------------------------

pub proof fn lemma_sq_inverse_coords(s: int)
    requires
        0 <= s < 81,
    ensures
        (80 - s) / 9 == 8 - s / 9,
        (80 - s) % 9 == 8 - s % 9,
{
}

pub proof fn lemma_sq_mirror_coords(s: int)
    requires
        0 <= s < 81,
    ensures
        ((8 - s / 9) * 9 + s % 9) / 9 == 8 - s / 9,
        ((8 - s / 9) * 9 + s % 9) % 9 == s % 9,
        0 <= (8 - s / 9) * 9 + s % 9 < 81,
{
}

/// Turning the board round (and the mover's side with it) keeps attacks.
pub proof fn lemma_empty_attacked_inverse(class: ThreatClass, color: Color, from: int, to: int)
    requires
        spec_empty_attacked(class, color, from, to),
    ensures
        spec_empty_attacked(class, color.spec_opponent(), 80 - from, 80 - to),
{
    reveal(spec_delta_attacked);
    lemma_sq_inverse_coords(from);
    lemma_sq_inverse_coords(to);
}

/// Reflecting the board left to right keeps attacks.
pub proof fn lemma_empty_attacked_mirror(class: ThreatClass, color: Color, from: int, to: int)
    requires
        spec_empty_attacked(class, color, from, to),
    ensures
        spec_empty_attacked(
            class,
            color,
            (8 - from / 9) * 9 + from % 9,
            (8 - to / 9) * 9 + to % 9,
        ),
{
    reveal(spec_delta_attacked);
    lemma_sq_mirror_coords(from);
    lemma_sq_mirror_coords(to);
}


// ---------------------------------------------------------------------------
// Real-board attacks
// ---------------------------------------------------------------------------

/// Move directions of a class moving as `color`, in the order they are
/// walked: (file step, rank step, slides).
pub open spec fn spec_dirs(class: ThreatClass, color: Color) -> Seq<(i8, i8, bool)> {
    let fwd: i8 = if color == Color::Black {
        -1i8
    } else {
        1i8
    };
    match class {
        ThreatClass::Pawn => seq![(0i8, fwd, false)],
        ThreatClass::Lance => seq![(0i8, fwd, true)],
        ThreatClass::Knight => seq![(-1i8, (2 * fwd) as i8, false), (1i8, (2 * fwd) as i8, false)],
        ThreatClass::Silver => seq![
            (-1i8, fwd, false),
            (0i8, fwd, false),
            (1i8, fwd, false),
            (-1i8, (-fwd) as i8, false),
            (1i8, (-fwd) as i8, false),
        ],
        ThreatClass::GoldLike => seq![
            (-1i8, fwd, false),
            (0i8, fwd, false),
            (1i8, fwd, false),
            (-1i8, 0i8, false),
            (1i8, 0i8, false),
            (0i8, (-fwd) as i8, false),
        ],
        ThreatClass::Bishop => seq![(-1i8, -1i8, true), (-1i8, 1i8, true), (1i8, -1i8, true), (1i8, 1i8, true)],
        ThreatClass::Rook => seq![(-1i8, 0i8, true), (1i8, 0i8, true), (0i8, -1i8, true), (0i8, 1i8, true)],
        ThreatClass::Horse => seq![
            (-1i8, -1i8, true),
            (-1i8, 1i8, true),
            (1i8, -1i8, true),
            (1i8, 1i8, true),
            (-1i8, 0i8, false),
            (1i8, 0i8, false),
            (0i8, -1i8, false),
            (0i8, 1i8, false),
        ],
        ThreatClass::Dragon => seq![
            (-1i8, 0i8, true),
            (1i8, 0i8, true),
            (0i8, -1i8, true),
            (0i8, 1i8, true),
            (-1i8, -1i8, false),
            (-1i8, 1i8, false),
            (1i8, -1i8, false),
            (1i8, 1i8, false),
        ],
    }
}

pub fn dirs(class: ThreatClass, color: Color) -> (r: Vec<(i8, i8, bool)>)
    ensures
        r@ == spec_dirs(class, color),
{
    let fwd: i8 = if color == Color::Black {
        -1
    } else {
        1
    };
    let back: i8 = 0 - fwd;
    let two: i8 = 2 * fwd;
    let v = match class {
        ThreatClass::Pawn => vec![(0i8, fwd, false)],
        ThreatClass::Lance => vec![(0i8, fwd, true)],
        ThreatClass::Knight => vec![(-1i8, two, false), (1i8, two, false)],
        ThreatClass::Silver => vec![
            (-1i8, fwd, false),
            (0i8, fwd, false),
            (1i8, fwd, false),
            (-1i8, back, false),
            (1i8, back, false),
        ],
        ThreatClass::GoldLike => vec![
            (-1i8, fwd, false),
            (0i8, fwd, false),
            (1i8, fwd, false),
            (-1i8, 0i8, false),
            (1i8, 0i8, false),
            (0i8, back, false),
        ],
        ThreatClass::Bishop => vec![(-1i8, -1i8, true), (-1i8, 1i8, true), (1i8, -1i8, true), (1i8, 1i8, true)],
        ThreatClass::Rook => vec![(-1i8, 0i8, true), (1i8, 0i8, true), (0i8, -1i8, true), (0i8, 1i8, true)],
        ThreatClass::Horse => vec![
            (-1i8, -1i8, true),
            (-1i8, 1i8, true),
            (1i8, -1i8, true),
            (1i8, 1i8, true),
            (-1i8, 0i8, false),
            (1i8, 0i8, false),
            (0i8, -1i8, false),
            (0i8, 1i8, false),
        ],
        ThreatClass::Dragon => vec![
            (-1i8, 0i8, true),
            (1i8, 0i8, true),
            (0i8, -1i8, true),
            (0i8, 1i8, true),
            (-1i8, -1i8, false),
            (-1i8, 1i8, false),
            (1i8, -1i8, false),
            (1i8, 1i8, false),
        ],
    };
    assert(v@ =~= spec_dirs(class, color));
    v
}

/// Squares reached from (`f`, `r`) stepping (`df`, `dr`): one step for a
/// stepping piece; for a sliding piece every square up to and including the
/// first occupied one, or to the edge. `fuel` bounds the number of steps.
pub open spec fn spec_ray(f: int, r: int, df: int, dr: int, slide: bool, occ: Seq<bool>, fuel: nat) -> Seq<Square>
    decreases fuel,
{
    let nf = f + df;
    let nr = r + dr;
    if fuel == 0 || !(0 <= nf < 9 && 0 <= nr < 9) {
        Seq::empty()
    } else if !slide || occ[nf * 9 + nr] {
        seq![Square((nf * 9 + nr) as u8)]
    } else {
        seq![Square((nf * 9 + nr) as u8)] + spec_ray(nf, nr, df, dr, slide, occ, (fuel - 1) as nat)
    }
}

/// Rays of the first `n` directions of `ds` from (`f`, `r`), concatenated.
pub open spec fn spec_rays_upto(ds: Seq<(i8, i8, bool)>, f: int, r: int, occ: Seq<bool>, n: int) -> Seq<Square>
    decreases n,
{
    if n <= 0 {
        Seq::empty()
    } else {
        spec_rays_upto(ds, f, r, occ, n - 1) + spec_ray(
            f,
            r,
            ds[n - 1].0 as int,
            ds[n - 1].1 as int,
            ds[n - 1].2,
            occ,
            8,
        )
    }
}

/// Squares attacked by a piece of `class` moving as `color` on `from`, with
/// occupancy `occ`: direction by direction in [`spec_dirs`] order.
pub open spec fn spec_attack_targets(class: ThreatClass, color: Color, from: Square, occ: Seq<bool>) -> Seq<Square> {
    let ds = spec_dirs(class, color);
    spec_rays_upto(ds, (from.0 / 9) as int, (from.0 % 9) as int, occ, ds.len() as int)
}

/// Squares attacked by a piece of kind `pt`; none for a king or an empty
/// square.
pub open spec fn spec_piece_attack_targets(pt: PieceType, color: Color, from: Square, occ: Seq<bool>) -> Seq<Square> {
    match ThreatClass::spec_from_piece_type(pt) {
        Some(class) => spec_attack_targets(class, color, from, occ),
        None => Seq::empty(),
    }
}

/// Which squares of a position are occupied.
#[derive(Clone, Copy, Debug)]
pub struct Occupied {
    squares: [bool; 81],
}

impl View for Occupied {
    type V = Seq<bool>;

    closed spec fn view(&self) -> Seq<bool> {
        self.squares@
    }
}

/// Occupancy of a position: square `i` is occupied when a piece stands on it.
pub open spec fn spec_occupancy(b: crate::shogi::board::BoardView) -> Seq<bool> {
    Seq::new(81, |i: int| b.board[i].piece_type != PieceType::NoPiece)
}

impl Occupied {
    pub fn from_board(board: &ShogiBoard) -> (r: Occupied)
        ensures
            r@ == spec_occupancy(board@),
    {
        let mut squares = [false; 81];
        let mut sq: usize = 0;
        while sq < 81
            invariant
                sq <= 81,
                forall|i: int| 0 <= i < sq ==> squares@[i] == (board.board@[i].piece_type != PieceType::NoPiece),
            decreases 81 - sq,
        {
            if board.board[sq].is_some() {
                squares[sq] = true;
            } else {
                squares[sq] = false;
            }
            sq = sq + 1;
        }
        let r = Occupied { squares };
        assert(r@ =~= spec_occupancy(board@));
        r
    }

    pub fn is_occupied(&self, sq: u8) -> (r: bool)
        requires
            sq < 81,
        ensures
            r == self@[sq as int],
    {
        self.squares[sq as usize]
    }
}

/// Appends the ray from (`f`, `r`) in direction (`df`, `dr`).
fn push_ray(out: &mut Vec<Square>, f: i8, r: i8, df: i8, dr: i8, slide: bool, occ: &Occupied, fuel: u8)
    requires
        0 <= f < 9,
        0 <= r < 9,
        -2 <= df <= 2,
        -2 <= dr <= 2,
        occ@.len() == 81,
    ensures
        final(out)@ == old(out)@ + spec_ray(f as int, r as int, df as int, dr as int, slide, occ@, fuel as nat),
    decreases fuel,
{
    let nf = f + df;
    let nr = r + dr;
    if fuel == 0 || !(0 <= nf && nf < 9 && 0 <= nr && nr < 9) {
        assert(old(out)@ + Seq::<Square>::empty() =~= old(out)@);
        return;
    }
    let s: u8 = (nf * 9 + nr) as u8;
    let ghost before = out@;
    out.push(Square(s));
    if !slide || occ.is_occupied(s) {
        return;
    }
    push_ray(out, nf, nr, df, dr, slide, occ, fuel - 1);
    assert(final(out)@ =~= before + (seq![Square(s)] + spec_ray(
        nf as int,
        nr as int,
        df as int,
        dr as int,
        slide,
        occ@,
        (fuel - 1) as nat,
    )));
}

/// Squares attacked by a piece of `class` moving as `color` on `from` (see
/// [`spec_attack_targets`]).
pub fn attack_targets(class: ThreatClass, color: Color, from: Square, occ: &Occupied) -> (r: Vec<Square>)
    requires
        from.spec_valid(),
        occ@.len() == 81,
    ensures
        r@ == spec_attack_targets(class, color, from, occ@),
{
    let ds = dirs(class, color);
    let f: i8 = (from.0 / 9) as i8;
    let rk: i8 = (from.0 % 9) as i8;
    let mut out: Vec<Square> = Vec::new();
    let mut i: usize = 0;
    while i < ds.len()
        invariant
            i <= ds@.len(),
            ds@ == spec_dirs(class, color),
            f == from.0 / 9,
            rk == from.0 % 9,
            0 <= f < 9,
            0 <= rk < 9,
            occ@.len() == 81,
            forall|j: int| 0 <= j < ds@.len() ==> -2 <= (#[trigger] ds@[j]).0 <= 2 && -2 <= ds@[j].1 <= 2,
            out@ == spec_rays_upto(ds@, f as int, rk as int, occ@, i as int),
        decreases ds.len() - i,
    {
        let (df, dr, slide) = ds[i];
        push_ray(&mut out, f, rk, df, dr, slide, occ, 8);
        i = i + 1;
    }
    out
}

/// Squares attacked by a piece of kind `pt` (none for a king or an empty
/// square).
pub fn for_each_attack(pt: PieceType, color: Color, from: Square, occ: &Occupied) -> (r: Vec<Square>)
    requires
        from.spec_valid(),
        occ@.len() == 81,
    ensures
        r@ == spec_piece_attack_targets(pt, color, from, occ@),
{
    match ThreatClass::from_piece_type(pt) {
        Some(class) => attack_targets(class, color, from, occ),
        None => Vec::new(),
    }
}


/// Whether the square `m` steps along (`df`, `dr`) is attacked on an empty
/// board.
pub open spec fn spec_step_ok(class: ThreatClass, color: Color, df: int, dr: int, m: int) -> bool {
    spec_delta_attacked(class, color, m * df, m * dr)
}

/// Direction `j` of a class: every square reachable along it (one step for
/// a stepping direction) is an empty-board attack.
pub proof fn lemma_dir_ok(class: ThreatClass, color: Color, j: int)
    requires
        0 <= j < spec_dirs(class, color).len(),
    ensures
        forall|m: int|
            m >= 1 && (spec_dirs(class, color)[j].2 || m == 1) ==> #[trigger] spec_step_ok(
                class,
                color,
                spec_dirs(class, color)[j].0 as int,
                spec_dirs(class, color)[j].1 as int,
                m,
            ),
        -2 <= spec_dirs(class, color)[j].0 <= 2,
        -2 <= spec_dirs(class, color)[j].1 <= 2,
{
    reveal(spec_delta_attacked);
    let d = spec_dirs(class, color)[j];
    assert forall|m: int| m >= 1 && (d.2 || m == 1) implies #[trigger] spec_step_ok(
        class,
        color,
        d.0 as int,
        d.1 as int,
        m,
    ) by {
        assert((m * d.0) == if d.0 == 0 { 0 } else if d.0 == 1 { m } else if d.0 == -1 { -m } else if d.0 == 2 { 2 * m } else { -2 * m }) by (nonlinear_arith)
            requires -2 <= d.0 <= 2;
        assert((m * d.1) == if d.1 == 0 { 0 } else if d.1 == 1 { m } else if d.1 == -1 { -m } else if d.1 == 2 { 2 * m } else { -2 * m }) by (nonlinear_arith)
            requires -2 <= d.1 <= 2;
    }
}

/// Every square of the ray that starts `k` steps out from (`f0`, `r0`) is
/// an empty-board attack from there.
pub proof fn lemma_ray_attacked(
    class: ThreatClass,
    color: Color,
    f0: int,
    r0: int,
    k: int,
    df: int,
    dr: int,
    slide: bool,
    occ: Seq<bool>,
    fuel: nat,
)
    requires
        0 <= f0 < 9,
        0 <= r0 < 9,
        k >= 0,
        slide || k == 0,
        0 <= f0 + k * df < 9,
        0 <= r0 + k * dr < 9,
        forall|m: int| m >= 1 && (slide || m == 1) ==> #[trigger] spec_step_ok(class, color, df, dr, m),
    ensures
        forall|i: int|
            0 <= i < spec_ray(f0 + k * df, r0 + k * dr, df, dr, slide, occ, fuel).len()
                ==> spec_empty_attacked(
                class,
                color,
                f0 * 9 + r0,
                (#[trigger] spec_ray(f0 + k * df, r0 + k * dr, df, dr, slide, occ, fuel)[i]).0 as int,
            ),
    decreases fuel,
{
    let f = f0 + k * df;
    let r = r0 + k * dr;
    let nf = f + df;
    let nr = r + dr;
    let ray = spec_ray(f, r, df, dr, slide, occ, fuel);
    if fuel > 0 && 0 <= nf < 9 && 0 <= nr < 9 {
        assert(nf == f0 + (k + 1) * df) by (nonlinear_arith)
            requires
                f == f0 + k * df,
                nf == f + df,
        ;
        assert(nr == r0 + (k + 1) * dr) by (nonlinear_arith)
            requires
                r == r0 + k * dr,
                nr == r + dr,
        ;
        assert(spec_step_ok(class, color, df, dr, k + 1));
        let s = nf * 9 + nr;
        assert(s / 9 == nf && s % 9 == nr);
        assert((f0 * 9 + r0) / 9 == f0 && (f0 * 9 + r0) % 9 == r0);
        assert(spec_empty_attacked(class, color, f0 * 9 + r0, s));
        if slide && !occ[s] {
            lemma_ray_attacked(class, color, f0, r0, k + 1, df, dr, slide, occ, (fuel - 1) as nat);
            let rest = spec_ray(nf, nr, df, dr, slide, occ, (fuel - 1) as nat);
            assert forall|i: int| 0 <= i < ray.len() implies spec_empty_attacked(
                class,
                color,
                f0 * 9 + r0,
                (#[trigger] ray[i]).0 as int,
            ) by {
                if i > 0 {
                    assert(ray[i] == rest[i - 1]);
                }
            }
        }
    }
}

/// Every square attacked on a real board is attacked on the empty board.
pub proof fn lemma_rays_attacked(class: ThreatClass, color: Color, from: Square, occ: Seq<bool>, n: int)
    requires
        from.spec_valid(),
        n <= spec_dirs(class, color).len(),
    ensures
        forall|i: int|
            0 <= i < spec_rays_upto(spec_dirs(class, color), (from.0 / 9) as int, (from.0 % 9) as int, occ, n).len()
                ==> spec_empty_attacked(
                class,
                color,
                from.0 as int,
                (#[trigger] spec_rays_upto(
                    spec_dirs(class, color),
                    (from.0 / 9) as int,
                    (from.0 % 9) as int,
                    occ,
                    n,
                )[i]).0 as int,
            ),
    decreases n,
{
    if n > 0 {
        let ds = spec_dirs(class, color);
        let f0 = (from.0 / 9) as int;
        let r0 = (from.0 % 9) as int;
        lemma_rays_attacked(class, color, from, occ, n - 1);
        lemma_dir_ok(class, color, n - 1);
        let d = ds[n - 1];
        assert(f0 + 0 * (d.0 as int) == f0 && r0 + 0 * (d.1 as int) == r0);
        lemma_ray_attacked(class, color, f0, r0, 0, d.0 as int, d.1 as int, d.2, occ, 8);
        assert(f0 * 9 + r0 == from.0);
        let prev = spec_rays_upto(ds, f0, r0, occ, n - 1);
        let ray = spec_ray(f0, r0, d.0 as int, d.1 as int, d.2, occ, 8);
        let all = spec_rays_upto(ds, f0, r0, occ, n);
        assert forall|i: int| 0 <= i < all.len() implies spec_empty_attacked(
            class,
            color,
            from.0 as int,
            (#[trigger] all[i]).0 as int,
        ) by {
            if i < prev.len() {
                assert(all[i] == prev[i]);
            } else {
                assert(all[i] == ray[i - prev.len()]);
            }
        }
    }
}

/// Every square attacked on a real board is attacked on the empty board.
pub proof fn lemma_targets_attacked(class: ThreatClass, color: Color, from: Square, occ: Seq<bool>)
    requires
        from.spec_valid(),
    ensures
        forall|i: int|
            0 <= i < spec_attack_targets(class, color, from, occ).len() ==> spec_empty_attacked(
                class,
                color,
                from.0 as int,
                (#[trigger] spec_attack_targets(class, color, from, occ)[i]).0 as int,
            ),
{
    lemma_rays_attacked(class, color, from, occ, spec_dirs(class, color).len() as int);
}


// ---------------------------------------------------------------------------
// Offset tables
// ---------------------------------------------------------------------------

/// Number of empty-board attacks of pattern `p` from the squares below `sq`:
/// where the attacks from `sq` start in the numbering of the pattern.
pub open spec fn spec_from_offset(p: int, sq: int) -> int
    decreases sq,
{
    if sq <= 0 {
        0
    } else {
        spec_from_offset(p, sq - 1) + spec_attack_count(spec_pattern_class(p), spec_pattern_color(p), sq - 1)
    }
}

/// Number of empty-board attacks of pattern `p` from every square.
pub open spec fn spec_pattern_total(p: int) -> int {
    spec_from_offset(p, 81)
}

pub proof fn lemma_from_offset_bounds(p: int, a: int, b: int)
    requires
        0 <= a <= b <= 81,
    ensures
        0 <= spec_from_offset(p, a) <= spec_from_offset(p, b),
        a < b ==> spec_from_offset(p, a) + spec_attack_count(spec_pattern_class(p), spec_pattern_color(p), a)
            <= spec_from_offset(p, b),
        spec_from_offset(p, b) <= 81 * b,
    decreases b,
{
    if b > 0 {
        lemma_empty_list_len_le(spec_pattern_class(p), spec_pattern_color(p), b - 1, 81);
        if a < b {
            lemma_from_offset_bounds(p, a, b - 1);
        } else {
            lemma_from_offset_bounds(p, b - 1, b - 1);
        }
    }
}

/// Attack-order table entry `idx = (p * 81 + from) * 81 + to`: the rank of
/// `to` among the empty-board attacks of pattern `p` from `from`, or
/// [`INVALID_ATTACK_ORDER`] when `to` is not attacked.
pub open spec fn spec_order_entry(idx: int) -> u8 {
    let p = idx / 6561;
    let f = (idx / 81) % 81;
    let t = idx % 81;
    let class = spec_pattern_class(p);
    let color = spec_pattern_color(p);
    if spec_empty_attacked(class, color, f, t) {
        spec_attack_order(class, color, f, t) as u8
    } else {
        INVALID_ATTACK_ORDER
    }
}

/// Offset table entry `idx = p * 81 + sq`.
pub open spec fn spec_offset_entry(idx: int) -> usize {
    spec_from_offset(idx / 81, idx % 81) as usize
}

pub proof fn lemma_index3(p: int, f: int, t: int)
    requires
        0 <= p,
        0 <= f < 81,
        0 <= t < 81,
    ensures
        ((p * 81 + f) * 81 + t) / 6561 == p,
        (((p * 81 + f) * 81 + t) / 81) % 81 == f,
        ((p * 81 + f) * 81 + t) % 81 == t,
        (p * 81 + f) * 81 + t == p * 6561 + f * 81 + t,
{
    assert((p * 81 + f) * 81 + t == p * 6561 + f * 81 + t) by (nonlinear_arith);
    assert((p * 6561 + f * 81 + t) / 6561 == p) by (nonlinear_arith)
        requires
            0 <= f < 81,
            0 <= t < 81,
            0 <= p,
    ;
    assert((p * 6561 + f * 81 + t) / 81 == p * 81 + f) by (nonlinear_arith)
        requires
            0 <= t < 81,
            0 <= p,
            0 <= f,
    ;
    assert((p * 81 + f) % 81 == f) by (nonlinear_arith)
        requires
            0 <= f < 81,
            0 <= p,
    ;
    assert((p * 6561 + f * 81 + t) % 81 == t) by (nonlinear_arith)
        requires
            0 <= t < 81,
            0 <= p,
            0 <= f,
    ;
}

pub proof fn lemma_index2(p: int, s: int)
    requires
        0 <= p,
        0 <= s < 81,
    ensures
        (p * 81 + s) / 81 == p,
        (p * 81 + s) % 81 == s,
{
    assert((p * 81 + s) / 81 == p) by (nonlinear_arith)
        requires
            0 <= s < 81,
            0 <= p,
    ;
    assert((p * 81 + s) % 81 == s) by (nonlinear_arith)
        requires
            0 <= s < 81,
            0 <= p,
    ;
}

pub fn pattern_class(p: usize) -> (r: ThreatClass)
    requires
        p < NUM_ATTACK_PATTERNS,
    ensures
        r == spec_pattern_class(p as int),
{
    if p < 9 {
        ThreatClass::from_index(p)
    } else {
        ThreatClass::from_index(p - 9)
    }
}

pub fn pattern_color(p: usize) -> (r: Color)
    ensures
        r == spec_pattern_color(p as int),
{
    if p < 9 {
        Color::Black
    } else {
        Color::White
    }
}

/// Whether `t` holds, for each of the fourteen patterns, the offset table
/// ([`spec_offset_entry`]), the attack-order table ([`spec_order_entry`])
/// and the number of attacks ([`spec_pattern_total`]).
pub open spec fn spec_complete_tables(t: AttackTables) -> bool {
    &&& t.spec_offset_table() == Seq::new(14 * 81, |i: int| spec_offset_entry(i))
    &&& t.spec_order_table() == Seq::new(14 * 6561, |i: int| spec_order_entry(i))
    &&& t.spec_totals() == Seq::new(14, |p: int| spec_pattern_total(p) as usize)
}

/// The offset and attack-order tables of every attack pattern, and the
/// number of attacks of each pattern.
#[derive(Debug)]
pub struct AttackTables {
    from_offset: Vec<usize>,
    attack_order: Vec<u8>,
    totals: Vec<usize>,
}

impl Clone for AttackTables {
    fn clone(&self) -> (r: AttackTables)
        ensures
            r.spec_offset_table() == self.spec_offset_table(),
            r.spec_order_table() == self.spec_order_table(),
            r.spec_totals() == self.spec_totals(),
    {
        proof {
            use_type_invariant(self);
        }
        let from_offset = self.from_offset.clone();
        let attack_order = self.attack_order.clone();
        let totals = self.totals.clone();
        assert(from_offset@ =~= self.from_offset@);
        assert(attack_order@ =~= self.attack_order@);
        assert(totals@ =~= self.totals@);
        AttackTables { from_offset, attack_order, totals }
    }
}

impl AttackTables {
    #[verifier::type_invariant]
    closed spec fn inv(self) -> bool {
        &&& self.from_offset@.len() == 14 * 81
        &&& self.attack_order@.len() == 14 * 6561
        &&& self.totals@.len() == 14
        &&& forall|i: int| 0 <= i < 14 * 81 ==> #[trigger] self.from_offset@[i] == spec_offset_entry(i)
        &&& forall|i: int| 0 <= i < 14 * 6561 ==> #[trigger] self.attack_order@[i] == spec_order_entry(i)
        &&& forall|p: int| 0 <= p < 14 ==> #[trigger] self.totals@[p] == spec_pattern_total(p)
    }

    /// The offset table: entry `p * 81 + sq` for pattern `p` and square `sq`.
    pub closed spec fn spec_offset_table(self) -> Seq<usize> {
        self.from_offset@
    }

    /// The attack-order table: entry `(p * 81 + from) * 81 + to`.
    pub closed spec fn spec_order_table(self) -> Seq<u8> {
        self.attack_order@
    }

    /// The number of attacks of each pattern.
    pub closed spec fn spec_totals(self) -> Seq<usize> {
        self.totals@
    }

    /// Builds the tables of all fourteen patterns.
    pub fn new() -> (r: AttackTables)
        ensures
            spec_complete_tables(r),
    {
        let mut from_offset: Vec<usize> = Vec::new();
        let mut attack_order: Vec<u8> = Vec::new();
        let mut totals: Vec<usize> = Vec::new();
        let mut p: usize = 0;
        while p < NUM_ATTACK_PATTERNS
            invariant
                p <= 14,
                from_offset@.len() == p * 81,
                attack_order@.len() == p * 6561,
                totals@.len() == p,
                forall|i: int| 0 <= i < p * 81 ==> #[trigger] from_offset@[i] == spec_offset_entry(i),
                forall|i: int| 0 <= i < p * 6561 ==> #[trigger] attack_order@[i] == spec_order_entry(i),
                forall|q: int| 0 <= q < p ==> #[trigger] totals@[q] == spec_pattern_total(q),
            decreases 14 - p,
        {
            let class = pattern_class(p);
            let color = pattern_color(p);
            let mut cum: usize = 0;
            let mut f: usize = 0;
            while f < 81
                invariant
                    p < 14,
                    f <= 81,
                    class == spec_pattern_class(p as int),
                    color == spec_pattern_color(p as int),
                    cum == spec_from_offset(p as int, f as int),
                    cum <= 81 * f,
                    from_offset@.len() == p * 81 + f,
                    attack_order@.len() == p * 6561 + f * 81,
                    totals@.len() == p,
                    forall|i: int| 0 <= i < p * 81 + f ==> #[trigger] from_offset@[i] == spec_offset_entry(i),
                    forall|i: int| 0 <= i < p * 6561 + f * 81 ==> #[trigger] attack_order@[i] == spec_order_entry(i),
                    forall|q: int| 0 <= q < p ==> #[trigger] totals@[q] == spec_pattern_total(q),
                decreases 81 - f,
            {
                proof {
                    lemma_index2(p as int, f as int);
                }
                from_offset.push(cum);
                let mut c: usize = 0;
                let mut t: usize = 0;
                while t < 81
                    invariant
                        p < 14,
                        f < 81,
                        t <= 81,
                        class == spec_pattern_class(p as int),
                        color == spec_pattern_color(p as int),
                        c == spec_empty_list_upto(class, color, f as int, t as int).len(),
                        c <= t,
                        attack_order@.len() == p * 6561 + f * 81 + t,
                        forall|i: int| 0 <= i < p * 6561 + f * 81 + t ==> #[trigger] attack_order@[i] == spec_order_entry(i),
                    decreases 81 - t,
                {
                    proof {
                        lemma_index3(p as int, f as int, t as int);
                        lemma_empty_list_len_le(class, color, f as int, t as int);
                    }
                    if empty_attacked(class, color, Square(f as u8), Square(t as u8)) {
                        attack_order.push(c as u8);
                    } else {
                        attack_order.push(INVALID_ATTACK_ORDER);
                    }
                    if empty_attacked(class, color, Square(f as u8), Square(t as u8)) {
                        c = c + 1;
                    }
                    t = t + 1;
                }
                cum = cum + c;
                f = f + 1;
            }
            totals.push(cum);
            p = p + 1;
        }
        assert(from_offset@ =~= Seq::new(14 * 81, |i: int| spec_offset_entry(i)));
        assert(attack_order@ =~= Seq::new(14 * 6561, |i: int| spec_order_entry(i)));
        assert(totals@ =~= Seq::new(14, |q: int| spec_pattern_total(q) as usize));
        AttackTables { from_offset, attack_order, totals }
    }

    /// Where the attacks of `pattern` from `sq` start in its numbering.
    pub fn from_offset(&self, pattern: usize, sq: Square) -> (r: usize)
        requires
            pattern < NUM_ATTACK_PATTERNS,
            sq.spec_valid(),
        ensures
            r == spec_from_offset(pattern as int, sq.0 as int),
    {
        proof {
            use_type_invariant(self);
            lemma_index2(pattern as int, sq.0 as int);
            lemma_from_offset_bounds(pattern as int, sq.0 as int, 81);
        }
        self.from_offset[pattern * 81 + sq.0 as usize]
    }

    /// Rank of `to` among the empty-board attacks of `pattern` from `from`;
    /// [`INVALID_ATTACK_ORDER`] when `to` is not attacked.
    pub fn attack_order(&self, pattern: usize, from: Square, to: Square) -> (r: u8)
        requires
            pattern < NUM_ATTACK_PATTERNS,
            from.spec_valid(),
            to.spec_valid(),
        ensures
            r == (if spec_empty_attacked(
                spec_pattern_class(pattern as int),
                spec_pattern_color(pattern as int),
                from.0 as int,
                to.0 as int,
            ) {
                spec_attack_order(
                    spec_pattern_class(pattern as int),
                    spec_pattern_color(pattern as int),
                    from.0 as int,
                    to.0 as int,
                ) as u8
            } else {
                INVALID_ATTACK_ORDER
            }),
    {
        proof {
            use_type_invariant(self);
            lemma_index3(pattern as int, from.0 as int, to.0 as int);
        }
        self.attack_order[(pattern * 81 + from.0 as usize) * 81 + to.0 as usize]
    }

    /// Number of empty-board attacks of `pattern` from every square.
    pub fn total(&self, pattern: usize) -> (r: usize)
        requires
            pattern < NUM_ATTACK_PATTERNS,
        ensures
            r == spec_pattern_total(pattern as int),
    {
        proof {
            use_type_invariant(self);
        }
        self.totals[pattern]
    }
}


/// Rank of `to_sq` among the squares attacked from `from_sq` on an empty
/// board (by rescanning them; the tables answer the same in one lookup).
pub fn compute_attack_order(class: ThreatClass, color: Color, from_sq: Square, to_sq: Square) -> (r: usize)
    requires
        spec_empty_attacked(class, color, from_sq.0 as int, to_sq.0 as int),
    ensures
        r == spec_attack_order(class, color, from_sq.0 as int, to_sq.0 as int),
{
    let mut c: usize = 0;
    let mut s: u8 = 0;
    while s < to_sq.0
        invariant
            s <= to_sq.0,
            to_sq.0 < 81,
            c == spec_empty_list_upto(class, color, from_sq.0 as int, s as int).len(),
            c <= s,
        decreases to_sq.0 - s,
    {
        proof {
            lemma_empty_list_len_le(class, color, from_sq.0 as int, s as int);
        }
        if empty_attacked(class, color, from_sq, Square(s)) {
            c = c + 1;
        }
        s = s + 1;
    }
    c
}

/// Whether `to` is a square a gold of `c` on `from` steps to: one of the
/// eight neighbours, except the two diagonally behind it (behind is towards
/// rank 8 for Black, rank 0 for White).
pub open spec fn spec_gold_step(c: Color, from: int, to: int) -> bool {
    let df = to / 9 - from / 9;
    let dr = to % 9 - from % 9;
    let behind = if c == Color::Black {
        1int
    } else {
        -1int
    };
    &&& -1 <= df <= 1
    &&& -1 <= dr <= 1
    &&& !(df == 0 && dr == 0)
    &&& !(df != 0 && dr == behind)
}

/// A gold and every promoted pawn, lance, knight and silver attack, on an
/// empty board, exactly the squares a gold steps to, and from any position
/// the same squares as a gold of the same colour on the same square.
pub proof fn lemma_promoted_minors_attack_as_gold(
    pt: PieceType,
    c: Color,
    from: int,
    to: int,
    occ: Seq<bool>,
)
    requires
        pt == PieceType::Gold || pt == PieceType::ProPawn || pt == PieceType::ProLance || pt
            == PieceType::ProKnight || pt == PieceType::ProSilver,
    ensures
        ThreatClass::spec_from_piece_type(pt) == ThreatClass::spec_from_piece_type(PieceType::Gold),
        ThreatClass::spec_from_piece_type(pt) matches Some(cl) && (spec_empty_attacked(cl, c, from, to) <==> (0
            <= from < 81 && 0 <= to < 81 && spec_gold_step(c, from, to))),
        0 <= from < 81 ==> spec_piece_attack_targets(pt, c, Square(from as u8), occ) == spec_piece_attack_targets(
            PieceType::Gold,
            c,
            Square(from as u8),
            occ,
        ),
{
    reveal(spec_delta_attacked);
}

} // verus!

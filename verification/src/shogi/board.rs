//! The decoded position and the enumeration of its pieces.

use vstd::prelude::*;
use crate::shogi::types::{
    Color, Hand, Piece, PieceType, Square, board_piece_type, hand_piece_type, spec_board_piece_type,
    spec_hand_piece_type, spec_no_piece, NUM_BOARD_PIECE_TYPES,
};

verus! {

/// A decoded position. `board` is indexed by square; the king squares are
/// kept separately (a missing king has a square of 81 or more).
#[derive(Clone, Copy, Debug)]
pub struct ShogiBoard {
    pub board: [Piece; 81],
    pub side_to_move: Color,
    pub black_king_sq: Square,
    pub white_king_sq: Square,
    pub black_hand: Hand,
    pub white_hand: Hand,
}

/// Mathematical model of a position: the board as a sequence of 81 pieces,
/// the hands as sequences of 7 counts.
pub struct BoardView {
    pub board: Seq<Piece>,
    pub side_to_move: Color,
    pub black_king_sq: Square,
    pub white_king_sq: Square,
    pub black_hand: Seq<u8>,
    pub white_hand: Seq<u8>,
}

/// Count of kind `pt` in a hand given as 7 slot counts.
pub open spec fn spec_hand_count(hand: Seq<u8>, pt: PieceType) -> u8 {
    match pt.spec_hand_index() {
        Some(i) => hand[i as int],
        None => 0,
    }
}

impl View for ShogiBoard {
    type V = BoardView;

    open spec fn view(&self) -> BoardView {
        BoardView {
            board: self.board@,
            side_to_move: self.side_to_move,
            black_king_sq: self.black_king_sq,
            white_king_sq: self.white_king_sq,
            black_hand: self.black_hand.counts@,
            white_hand: self.white_hand.counts@,
        }
    }
}

impl BoardView {
    pub open spec fn spec_king_square(self, c: Color) -> Square {
        match c {
            Color::Black => self.black_king_sq,
            Color::White => self.white_king_sq,
        }
    }

    pub open spec fn spec_hand(self, c: Color) -> Seq<u8> {
        match c {
            Color::Black => self.black_hand,
            Color::White => self.white_hand,
        }
    }

    /// Squares `0..n` holding `Piece { pt, c }`, ascending.
    pub open spec fn spec_pieces_upto(self, c: Color, pt: PieceType, n: int) -> Seq<Square>
        decreases n,
    {
        if n <= 0 {
            Seq::empty()
        } else {
            let prev = self.spec_pieces_upto(c, pt, n - 1);
            if self.board[n - 1] == (Piece { piece_type: pt, color: c }) {
                prev.push(Square((n - 1) as u8))
            } else {
                prev
            }
        }
    }

    /// All squares holding `Piece { pt, c }`, ascending.
    pub open spec fn spec_pieces(self, c: Color, pt: PieceType) -> Seq<Square> {
        self.spec_pieces_upto(c, pt, 81)
    }
}

impl Default for ShogiBoard {
    /// Empty board, Black to move, no kings, empty hands.
    fn default() -> (r: ShogiBoard)
        ensures
            forall|i: int| 0 <= i < 81 ==> r.board@[i] == spec_no_piece(),
            r.side_to_move == Color::Black,
            r.black_king_sq.0 == 81,
            r.white_king_sq.0 == 81,
            forall|i: int| 0 <= i < 7 ==> r.black_hand.counts@[i] == 0,
            forall|i: int| 0 <= i < 7 ==> r.white_hand.counts@[i] == 0,
    {
        let mut board = [Piece::none(); 81];
        let mut s: usize = 0;
        while s < 81
            invariant
                s <= 81,
                forall|i: int| 0 <= i < s ==> board@[i] == spec_no_piece(),
            decreases 81 - s,
        {
            board[s] = Piece::none();
            s = s + 1;
        }
        ShogiBoard {
            board,
            side_to_move: Color::Black,
            black_king_sq: Square::none(),
            white_king_sq: Square::none(),
            black_hand: Hand::empty(),
            white_hand: Hand::empty(),
        }
    }
}

impl ShogiBoard {
    /// King square of side `c`.
    pub fn king_square(&self, c: Color) -> (r: Square)
        ensures
            r == self@.spec_king_square(c),
    {
        match c {
            Color::Black => self.black_king_sq,
            Color::White => self.white_king_sq,
        }
    }

    /// Pieces in hand of side `c`.
    pub fn hand(&self, c: Color) -> (r: Hand)
        ensures
            r.counts@ == self@.spec_hand(c),
    {
        match c {
            Color::Black => self.black_hand,
            Color::White => self.white_hand,
        }
    }

    /// Content of square `sq`.
    pub fn piece_on(&self, sq: Square) -> (r: Piece)
        requires
            sq.spec_valid(),
        ensures
            r == self.board@[sq.0 as int],
    {
        self.board[sq.0 as usize]
    }

    /// Squares holding a piece of kind `pt` owned by `c`, in ascending order.
    pub fn pieces(&self, c: Color, pt: PieceType) -> (r: Vec<Square>)
        ensures
            r@ == self@.spec_pieces(c, pt),
    {
        let target = Piece::new(c, pt);
        let mut out: Vec<Square> = Vec::new();
        let mut s: usize = 0;
        while s < 81
            invariant
                s <= 81,
                target == (Piece { piece_type: pt, color: c }),
                out@ == self@.spec_pieces_upto(c, pt, s as int),
            decreases 81 - s,
        {
            if self.board[s] == target {
                out.push(Square(s as u8));
            }
            s = s + 1;
        }
        out
    }
}

/// Piece described by group `k` of the board enumeration: kind
/// `spec_board_piece_type(k / 2)`, Black for even `k`, White for odd `k`.
pub open spec fn spec_group_piece(k: int) -> Piece {
    Piece {
        piece_type: spec_board_piece_type(k / 2),
        color: if k % 2 == 0 { Color::Black } else { Color::White },
    }
}

/// Number of (kind, colour) groups of the board enumeration.
pub const NUM_BOARD_GROUPS: usize = 26;

/// Pieces of the first `k` groups with their squares: for each non-king kind
/// in [`spec_board_piece_type`] order, Black then White, squares ascending.
pub open spec fn spec_board_items_upto(b: BoardView, k: int) -> Seq<(Piece, Square)>
    decreases k,
{
    if k <= 0 {
        Seq::empty()
    } else {
        let p = spec_group_piece(k - 1);
        spec_board_items_upto(b, k - 1) + b.spec_pieces(p.color, p.piece_type).map_values(
            |sq: Square| (p, sq),
        )
    }
}

/// Every non-king piece on the board with its square, in enumeration order.
pub open spec fn spec_board_items(b: BoardView) -> Seq<(Piece, Square)> {
    spec_board_items_upto(b, 26)
}

/// Hand pieces of the first `g` (owner, kind) groups: owner Black then
/// White, kinds in hand-slot order, counts `1..=n` for `n` pieces held.
pub open spec fn spec_hand_items_upto(b: BoardView, g: int) -> Seq<(Color, PieceType, u8)>
    decreases g,
{
    if g <= 0 {
        Seq::empty()
    } else {
        let owner = if (g - 1) / 7 == 0 { Color::Black } else { Color::White };
        let pt = spec_hand_piece_type((g - 1) % 7);
        let n = spec_hand_count(b.spec_hand(owner), pt);
        spec_hand_items_upto(b, g - 1) + Seq::new(n as nat, |i: int| (owner, pt, (i + 1) as u8))
    }
}

/// Every hand piece as (owner, kind, ordinal) in enumeration order.
pub open spec fn spec_hand_items(b: BoardView) -> Seq<(Color, PieceType, u8)> {
    spec_hand_items_upto(b, 14)
}

pub proof fn lemma_group_piece_in_range(k: int)
    requires
        0 <= k < 26,
    ensures
        spec_group_piece(k).piece_type != PieceType::King,
        spec_group_piece(k).piece_type != PieceType::NoPiece,
{
}

pub proof fn lemma_pieces_upto_valid(b: BoardView, c: Color, pt: PieceType, n: int)
    requires
        n <= 81,
    ensures
        forall|i: int|
            0 <= i < b.spec_pieces_upto(c, pt, n).len() ==> (#[trigger] b.spec_pieces_upto(c, pt, n)[i]).0 < 81,
        forall|i: int|
            0 <= i < b.spec_pieces_upto(c, pt, n).len() ==> b.board[(#[trigger] b.spec_pieces_upto(c, pt, n)[i]).0 as int]
                == (Piece { piece_type: pt, color: c }),
    decreases n,
{
    if n > 0 {
        lemma_pieces_upto_valid(b, c, pt, n - 1);
    }
}

/// Every board item stands on a board square, holds that square's piece,
/// and is neither a king nor an empty square.
pub proof fn lemma_board_items_upto_valid(b: BoardView, k: int)
    requires
        k <= 26,
    ensures
        forall|i: int|
            0 <= i < spec_board_items_upto(b, k).len() ==> {
                let it = #[trigger] spec_board_items_upto(b, k)[i];
                &&& it.1.0 < 81
                &&& it.0.piece_type != PieceType::King
                &&& it.0.piece_type != PieceType::NoPiece
                &&& b.board[it.1.0 as int] == it.0
            },
    decreases k,
{
    if k > 0 {
        lemma_board_items_upto_valid(b, k - 1);
        let p = spec_group_piece(k - 1);
        lemma_group_piece_in_range(k - 1);
        lemma_pieces_upto_valid(b, p.color, p.piece_type, 81);
        let prev = spec_board_items_upto(b, k - 1);
        let add = b.spec_pieces(p.color, p.piece_type).map_values(|sq: Square| (p, sq));
        assert forall|i: int| 0 <= i < spec_board_items_upto(b, k).len() implies {
            let it = #[trigger] spec_board_items_upto(b, k)[i];
            &&& it.1.0 < 81
            &&& it.0.piece_type != PieceType::King
            &&& it.0.piece_type != PieceType::NoPiece
            &&& b.board[it.1.0 as int] == it.0
        } by {
            if i >= prev.len() {
                let j = i - prev.len();
                assert(spec_board_items_upto(b, k)[i] == add[j]);
                assert(add[j] == (p, b.spec_pieces(p.color, p.piece_type)[j]));
            } else {
                assert(spec_board_items_upto(b, k)[i] == prev[i]);
            }
        }
    }
}

pub proof fn lemma_board_items_valid(b: BoardView)
    ensures
        forall|i: int|
            0 <= i < spec_board_items(b).len() ==> {
                let it = #[trigger] spec_board_items(b)[i];
                &&& it.1.0 < 81
                &&& it.0.piece_type != PieceType::King
                &&& it.0.piece_type != PieceType::NoPiece
                &&& b.board[it.1.0 as int] == it.0
            },
{
    lemma_board_items_upto_valid(b, 26);
}

/// Non-king pieces on the board with their squares, grouped by kind (in
/// [`board_piece_type`] order) and colour (Black first), squares ascending.
pub fn board_items(b: &ShogiBoard) -> (r: Vec<(Piece, Square)>)
    ensures
        r@ == spec_board_items(b@),
{
    let mut out: Vec<(Piece, Square)> = Vec::new();
    let mut k: usize = 0;
    while k < NUM_BOARD_GROUPS
        invariant
            k <= 26,
            out@ == spec_board_items_upto(b@, k as int),
        decreases 26 - k,
    {
        let color = if k % 2 == 0 { Color::Black } else { Color::White };
        let piece = Piece::new(color, board_piece_type(k / 2));
        assert(piece == spec_group_piece(k as int));
        let sqs = b.pieces(color, piece.piece_type);
        let ghost before = out@;
        let mut j: usize = 0;
        while j < sqs.len()
            invariant
                j <= sqs@.len(),
                sqs@ == b@.spec_pieces(color, piece.piece_type),
                out@ == before + sqs@.take(j as int).map_values(|sq: Square| (piece, sq)),
            decreases sqs.len() - j,
        {
            out.push((piece, sqs[j]));
            assert(sqs@.take(j as int + 1) =~= sqs@.take(j as int).push(sqs@[j as int]));
            assert(before + sqs@.take(j as int + 1).map_values(|sq: Square| (piece, sq)) =~= (before
                + sqs@.take(j as int).map_values(|sq: Square| (piece, sq))).push((piece, sqs@[j as int])));
            j = j + 1;
        }
        assert(sqs@.take(sqs@.len() as int) =~= sqs@);
        k = k + 1;
    }
    out
}

/// Hand pieces as (owner, kind, ordinal): owner Black then White, kinds in
/// hand-slot order, ordinals `1..=n` for `n` pieces held.
pub fn hand_items(b: &ShogiBoard) -> (r: Vec<(Color, PieceType, u8)>)
    ensures
        r@ == spec_hand_items(b@),
{
    let mut out: Vec<(Color, PieceType, u8)> = Vec::new();
    let mut g: usize = 0;
    while g < 14
        invariant
            g <= 14,
            out@ == spec_hand_items_upto(b@, g as int),
        decreases 14 - g,
    {
        let owner = if g / 7 == 0 { Color::Black } else { Color::White };
        let pt = hand_piece_type(g % 7);
        let n = b.hand(owner).count(pt);
        let ghost before = out@;
        let mut i: u8 = 0;
        while i < n
            invariant
                i <= n,
                out@ == before + Seq::new(i as nat, |t: int| (owner, pt, (t + 1) as u8)),
            decreases n - i,
        {
            out.push((owner, pt, i + 1));
            assert(before + Seq::new((i + 1) as nat, |t: int| (owner, pt, (t + 1) as u8)) =~= (before
                + Seq::new(i as nat, |t: int| (owner, pt, (t + 1) as u8))).push((owner, pt, (i + 1) as u8)));
            i = i + 1;
        }
        g = g + 1;
    }
    out
}


/// Non-king pieces on squares `0..n` with their squares, in square order.
pub open spec fn spec_square_items_upto(b: BoardView, n: int) -> Seq<(Piece, Square)>
    decreases n,
{
    if n <= 0 {
        Seq::empty()
    } else {
        let prev = spec_square_items_upto(b, n - 1);
        let p = b.board[n - 1];
        if p.piece_type == PieceType::NoPiece || p.piece_type == PieceType::King {
            prev
        } else {
            prev.push((p, Square((n - 1) as u8)))
        }
    }
}

/// Every non-king piece on the board with its square, in square order.
pub open spec fn spec_square_items(b: BoardView) -> Seq<(Piece, Square)> {
    spec_square_items_upto(b, 81)
}

pub proof fn lemma_square_items_valid(b: BoardView, n: int)
    requires
        n <= 81,
    ensures
        forall|i: int|
            0 <= i < spec_square_items_upto(b, n).len() ==> (#[trigger] spec_square_items_upto(b, n)[i]).1.0 < 81,
    decreases n,
{
    if n > 0 {
        lemma_square_items_valid(b, n - 1);
        let prev = spec_square_items_upto(b, n - 1);
        assert forall|i: int| 0 <= i < spec_square_items_upto(b, n).len() implies (#[trigger] spec_square_items_upto(
            b,
            n,
        )[i]).1.0 < 81 by {
            if i < prev.len() {
                assert(spec_square_items_upto(b, n)[i] == prev[i]);
            }
        }
    }
}

/// Non-king pieces on the board with their squares, in square order.
pub fn square_items(b: &ShogiBoard) -> (r: Vec<(Piece, Square)>)
    ensures
        r@ == spec_square_items(b@),
        forall|i: int| 0 <= i < r@.len() ==> (#[trigger] r@[i]).1.0 < 81,
{
    let mut out: Vec<(Piece, Square)> = Vec::new();
    let mut s: usize = 0;
    while s < 81
        invariant
            s <= 81,
            out@ == spec_square_items_upto(b@, s as int),
        decreases 81 - s,
    {
        let p = b.board[s];
        if !(p.piece_type == PieceType::NoPiece || p.piece_type == PieceType::King) {
            out.push((p, Square(s as u8)));
        }
        s = s + 1;
    }
    proof {
        lemma_square_items_valid(b@, 81);
    }
    out
}


pub proof fn lemma_pieces_upto_len(b: BoardView, c: Color, pt: PieceType, n: int)
    ensures
        b.spec_pieces_upto(c, pt, n).len() <= if n < 0 {
            0
        } else {
            n
        },
    decreases n,
{
    if n > 0 {
        lemma_pieces_upto_len(b, c, pt, n - 1);
    }
}

/// There are at most 26 x 81 board items.
pub proof fn lemma_board_items_len(b: BoardView, k: int)
    requires
        0 <= k,
    ensures
        spec_board_items_upto(b, k).len() <= 81 * k,
    decreases k,
{
    if k > 0 {
        lemma_board_items_len(b, k - 1);
        let p = spec_group_piece(k - 1);
        lemma_pieces_upto_len(b, p.color, p.piece_type, 81);
    }
}

/// There are at most 14 x 255 hand items.
pub proof fn lemma_hand_items_len(b: BoardView, g: int)
    requires
        0 <= g,
    ensures
        spec_hand_items_upto(b, g).len() <= 255 * g,
    decreases g,
{
    if g > 0 {
        lemma_hand_items_len(b, g - 1);
    }
}

} // verus!

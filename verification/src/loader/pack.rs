//! The `.pack` game-record format and the small position used to replay its
//! games into training records.
//!
//! A game is a start flag (1: the initial position; 0: a 32-byte
//! Huffman-coded position and a `u16` game ply), then `(move16: u16, eval:
//! i16)` pairs, closed by an end marker (a move whose source equals its
//! target; its target field is the result: 0 draw, 1 Black won, 2 White
//! won) and a `u8` reason.

use vstd::prelude::*;
use crate::loader::{DataLoader, owned_paths};
use crate::shogi::bits::{
    BitReader, BitWriter, lemma_bits_bound, lemma_pow2_8, spec_bit, spec_bits, spec_low_bits, spec_pow2,
    spec_writer_holds,
};
use crate::shogi::packed_sfen::{
    PackedSfenValue, piece_type_from_index, spec_empty_hand, spec_hand_add_one, spec_le_u16,
    spec_piece_type_from_index, spec_u16_as_i16, spec_u8_as_i8,
};
use crate::shogi::types::{Color, Hand, Piece, PieceType, hand_piece_type, spec_hand_piece_type, spec_no_piece};

verus! {

/// A position as far as replaying games needs: board, hands (Black's at
/// index 0), side to move and game ply.
#[derive(Clone, Copy, Debug)]
pub struct MiniPosition {
    pub board: [Piece; 81],
    pub hands: [Hand; 2],
    pub side_to_move: Color,
    pub game_ply: u16,
}

/// Mathematical model of a [`MiniPosition`].
pub struct MiniPositionView {
    pub board: Seq<Piece>,
    pub black_hand: Seq<u8>,
    pub white_hand: Seq<u8>,
    pub side_to_move: Color,
    pub game_ply: u16,
}

impl View for MiniPosition {
    type V = MiniPositionView;

    open spec fn view(&self) -> MiniPositionView {
        MiniPositionView {
            board: self.board@,
            black_hand: self.hands@[0].counts@,
            white_hand: self.hands@[1].counts@,
            side_to_move: self.side_to_move,
            game_ply: self.game_ply,
        }
    }
}

impl MiniPositionView {
    pub open spec fn hand(self, c: Color) -> Seq<u8> {
        match c {
            Color::Black => self.black_hand,
            Color::White => self.white_hand,
        }
    }

    pub open spec fn with_hand(self, c: Color, h: Seq<u8>) -> MiniPositionView {
        match c {
            Color::Black => MiniPositionView { black_hand: h, ..self },
            Color::White => MiniPositionView { white_hand: h, ..self },
        }
    }
}

/// Kinds of the back rank from the 9-file to the 1-file.
pub open spec fn spec_back_rank(i: int) -> PieceType {
    if i == 0 || i == 8 {
        PieceType::Lance
    } else if i == 1 || i == 7 {
        PieceType::Knight
    } else if i == 2 || i == 6 {
        PieceType::Silver
    } else if i == 3 || i == 5 {
        PieceType::Gold
    } else {
        PieceType::King
    }
}

/// Piece on square `sq` (`file * 9 + rank`) in the initial position.
pub open spec fn spec_hirate_piece(sq: int) -> Piece {
    let file = sq / 9;
    let rank = sq % 9;
    if rank == 0 {
        Piece { piece_type: spec_back_rank(8 - file), color: Color::White }
    } else if rank == 8 {
        Piece { piece_type: spec_back_rank(8 - file), color: Color::Black }
    } else if rank == 2 {
        Piece { piece_type: PieceType::Pawn, color: Color::White }
    } else if rank == 6 {
        Piece { piece_type: PieceType::Pawn, color: Color::Black }
    } else if sq == 64 {
        Piece { piece_type: PieceType::Bishop, color: Color::White }
    } else if sq == 10 {
        Piece { piece_type: PieceType::Rook, color: Color::White }
    } else if sq == 70 {
        Piece { piece_type: PieceType::Rook, color: Color::Black }
    } else if sq == 16 {
        Piece { piece_type: PieceType::Bishop, color: Color::Black }
    } else {
        spec_no_piece()
    }
}

fn back_rank(i: usize) -> (r: PieceType)
    ensures
        r == spec_back_rank(i as int),
{
    if i == 0 || i == 8 {
        PieceType::Lance
    } else if i == 1 || i == 7 {
        PieceType::Knight
    } else if i == 2 || i == 6 {
        PieceType::Silver
    } else if i == 3 || i == 5 {
        PieceType::Gold
    } else {
        PieceType::King
    }
}

/// Square of the first king of colour `c` on `board`, 81 when there is none.
pub open spec fn spec_find_king(board: Seq<Piece>, c: Color, n: int) -> int
    decreases 81 - n,
{
    if n >= 81 {
        81
    } else if board[n] == (Piece { piece_type: PieceType::King, color: c }) {
        n
    } else {
        spec_find_king(board, c, n + 1)
    }
}

/// `move16` closes a game: its source field equals its target field.
pub open spec fn spec_is_end_marker(move16: u16) -> bool {
    move16 & 0x7F == (move16 >> 7u16) & 0x7F
}

/// Whether `move16` closes a game (see [`spec_is_end_marker`]).
pub fn is_end_marker(move16: u16) -> (r: bool)
    ensures
        r == spec_is_end_marker(move16),
{
    let to = move16 & 0x7F;
    let from = (move16 >> 7) & 0x7F;
    to == from
}

/// Result of a game (0 draw, 1 Black won, 2 White won; anything else a
/// draw) for side `stm`: 1 won, -1 lost, 0 drawn.
pub open spec fn spec_convert_game_result(pack_result: u8, stm: Color) -> i8 {
    if pack_result == 1 {
        if stm == Color::Black {
            1i8
        } else {
            -1i8
        }
    } else if pack_result == 2 {
        if stm == Color::White {
            1i8
        } else {
            -1i8
        }
    } else {
        0i8
    }
}

pub fn convert_game_result(pack_result: u8, stm: Color) -> (r: i8)
    ensures
        r == spec_convert_game_result(pack_result, stm),
{
    if pack_result == 1 {
        if stm == Color::Black {
            1
        } else {
            -1
        }
    } else if pack_result == 2 {
        if stm == Color::White {
            1
        } else {
            -1
        }
    } else {
        0
    }
}

/// Kind dropped by drop code `k` (0 pawn, 1 lance, 2 knight, 3 silver, 4
/// bishop, 5 rook, 6 gold).
pub open spec fn spec_drop_piece_type(k: int) -> PieceType {
    if k == 0 {
        PieceType::Pawn
    } else if k == 1 {
        PieceType::Lance
    } else if k == 2 {
        PieceType::Knight
    } else if k == 3 {
        PieceType::Silver
    } else if k == 4 {
        PieceType::Bishop
    } else if k == 5 {
        PieceType::Rook
    } else {
        PieceType::Gold
    }
}

fn drop_piece_type(k: usize) -> (r: PieceType)
    requires
        k <= 6,
    ensures
        r == spec_drop_piece_type(k as int),
{
    if k == 0 {
        PieceType::Pawn
    } else if k == 1 {
        PieceType::Lance
    } else if k == 2 {
        PieceType::Knight
    } else if k == 3 {
        PieceType::Silver
    } else if k == 4 {
        PieceType::Bishop
    } else if k == 5 {
        PieceType::Rook
    } else {
        PieceType::Gold
    }
}

/// Target square of a move.
pub open spec fn spec_move_to(move16: u16) -> int {
    (move16 & 0x7F) as int
}

/// Source square of a move, or 81 plus the drop code.
pub open spec fn spec_move_from(move16: u16) -> int {
    ((move16 >> 7u16) & 0x7F) as int
}

/// Hand after taking one piece of kind `pt` away, when there is one.
pub open spec fn spec_hand_sub_one(h: Seq<u8>, pt: PieceType) -> Seq<u8> {
    match pt.spec_hand_index() {
        Some(i) => if h[i as int] > 0 {
            h.update(i as int, (h[i as int] - 1) as u8)
        } else {
            h
        },
        None => h,
    }
}

/// `move16` can be replayed: a drop code above 6 changes nothing, anything
/// else writes its target square, which must be on the board.
pub open spec fn spec_move_replayable(move16: u16) -> bool {
    spec_move_from(move16) >= 81 + 7 || spec_move_to(move16) < 81
}

/// The position after `move16`: a drop takes the piece from the mover's
/// hand (if held) and puts it on the target; a board move empties the
/// source, puts the mover's piece (promoted on the promotion flag) on the
/// target and adds a captured non-king piece, unpromoted, to the mover's
/// hand. Then the other side moves and the ply grows by one. A drop code
/// above 6 leaves the position as it is.
#[verifier::opaque]
pub open spec fn spec_do_move(p: MiniPositionView, move16: u16) -> MiniPositionView {
    let to = spec_move_to(move16);
    let from = spec_move_from(move16);
    let promote = move16 & 0x4000 != 0;
    let stm = p.side_to_move;
    if from >= 81 && from - 81 > 6 {
        p
    } else {
        let moved = if from >= 81 {
            let pt = spec_drop_piece_type(from - 81);
            let q = p.with_hand(stm, spec_hand_sub_one(p.hand(stm), pt));
            MiniPositionView { board: q.board.update(to, Piece { piece_type: pt, color: stm }), ..q }
        } else {
            let moving = p.board[from];
            let captured = p.board[to];
            let q = if captured.piece_type != PieceType::NoPiece && captured.piece_type != PieceType::King {
                p.with_hand(stm, spec_hand_add_one(p.hand(stm), captured.piece_type.spec_unpromote()))
            } else {
                p
            };
            let pt = if promote {
                moving.piece_type.spec_promote()
            } else {
                moving.piece_type
            };
            MiniPositionView {
                board: q.board.update(from, spec_no_piece()).update(to, Piece { piece_type: pt, color: stm }),
                ..q
            }
        };
        MiniPositionView {
            side_to_move: stm.spec_opponent(),
            game_ply: (p.game_ply + 1) as u16,
            ..moved
        }
    }
}

/// The initial position as this loader lays it out: Black to move, empty
/// hands, ply 1, with rook and bishop swapped against the standard start
/// (Black's rook on square 70, 8h, and bishop on 16, 2h; White's bishop on
/// 64, 8b, and rook on 10, 2b).
pub open spec fn spec_hirate() -> MiniPositionView {
    MiniPositionView {
        board: Seq::new(81, |sq: int| spec_hirate_piece(sq)),
        black_hand: spec_empty_hand(),
        white_hand: spec_empty_hand(),
        side_to_move: Color::Black,
        game_ply: 1,
    }
}

impl MiniPosition {
    /// The initial position, rook and bishop swapped against the standard
    /// start (see [`spec_hirate`]).
    pub fn hirate() -> (r: MiniPosition)
        ensures
            r@ == spec_hirate(),
    {
        let mut board = [Piece::none(); 81];
        let mut sq: usize = 0;
        while sq < 81
            invariant
                sq <= 81,
                forall|i: int| 0 <= i < sq ==> board@[i] == spec_hirate_piece(i),
            decreases 81 - sq,
        {
            let file = sq / 9;
            let rank = sq % 9;
            let p = if rank == 0 {
                Piece::new(Color::White, back_rank(8 - file))
            } else if rank == 8 {
                Piece::new(Color::Black, back_rank(8 - file))
            } else if rank == 2 {
                Piece::new(Color::White, PieceType::Pawn)
            } else if rank == 6 {
                Piece::new(Color::Black, PieceType::Pawn)
            } else if sq == 64 {
                Piece::new(Color::White, PieceType::Bishop)
            } else if sq == 10 {
                Piece::new(Color::White, PieceType::Rook)
            } else if sq == 70 {
                Piece::new(Color::Black, PieceType::Rook)
            } else if sq == 16 {
                Piece::new(Color::Black, PieceType::Bishop)
            } else {
                Piece::none()
            };
            board[sq] = p;
            sq = sq + 1;
        }
        let hands = [Hand::empty(), Hand::empty()];
        let r = MiniPosition { board, hands, side_to_move: Color::Black, game_ply: 1 };
        assert(r@.board =~= spec_hirate().board);
        assert(r@.black_hand =~= spec_empty_hand());
        assert(r@.white_hand =~= spec_empty_hand());
        r
    }

    /// Square of the first king of colour `c`, 81 when there is none.
    pub fn king_square(&self, c: Color) -> (r: u8)
        ensures
            r == spec_find_king(self.board@, c, 0),
    {
        let mut i: usize = 0;
        while i < 81
            invariant
                i <= 81,
                spec_find_king(self.board@, c, i as int) == spec_find_king(self.board@, c, 0),
            decreases 81 - i,
        {
            let p = self.board[i];
            if p.piece_type == PieceType::King && p.color == c {
                return i as u8;
            }
            i = i + 1;
        }
        81
    }

    fn hand_mut_index(c: Color) -> (r: usize)
        ensures
            r == match c {
                Color::Black => 0usize,
                Color::White => 1usize,
            },
    {
        match c {
            Color::Black => 0,
            Color::White => 1,
        }
    }

    /// Takes one piece of kind `pt` from the hand of `c`, when there is one.
    pub fn subtract_hand(&mut self, c: Color, pt: PieceType)
        ensures
            final(self)@ == old(self)@.with_hand(c, spec_hand_sub_one(old(self)@.hand(c), pt)),
    {
        let i = Self::hand_mut_index(c);
        let mut h = self.hands[i];
        let n = h.count(pt);
        if n > 0 {
            h.set(pt, n - 1);
        }
        self.hands[i] = h;
        assert(self.hands@[i as int].counts@ =~= spec_hand_sub_one(old(self)@.hand(c), pt));
        assert(self@ =~= old(self)@.with_hand(c, spec_hand_sub_one(old(self)@.hand(c), pt)));
    }

    fn add_to_hand(&mut self, c: Color, pt: PieceType)
        ensures
            final(self)@ == old(self)@.with_hand(c, spec_hand_add_one(old(self)@.hand(c), pt)),
    {
        let i = Self::hand_mut_index(c);
        let mut h = self.hands[i];
        h.add(pt, 1);
        self.hands[i] = h;
        assert(self.hands@[i as int].counts@ =~= spec_hand_add_one(old(self)@.hand(c), pt));
        assert(self@ =~= old(self)@.with_hand(c, spec_hand_add_one(old(self)@.hand(c), pt)));
    }

    /// Plays `move16` (see [`spec_do_move`]).
    pub fn do_move(&mut self, move16: u16)
        requires
            spec_move_replayable(move16),
            old(self).game_ply < u16::MAX,
        ensures
            final(self)@ == spec_do_move(old(self)@, move16),
    {
        let to = (move16 & 0x7F) as usize;
        let from_or_pt = ((move16 >> 7) & 0x7F) as usize;
        let promote = (move16 & 0x4000) != 0;
        let stm = self.side_to_move;
        if from_or_pt >= 81 {
            if from_or_pt - 81 > 6 {
                proof {
                    reveal(spec_do_move);
                }
                return;
            }
            let pt = drop_piece_type(from_or_pt - 81);
            self.subtract_hand(stm, pt);
            self.board[to] = Piece::new(stm, pt);
        } else {
            let moving = self.board[from_or_pt];
            let captured = self.board[to];
            if captured.is_some() && captured.piece_type != PieceType::King {
                let cap_pt = captured.piece_type.unpromote();
                self.add_to_hand(stm, cap_pt);
            }
            self.board[from_or_pt] = Piece::none();
            let pt = if promote {
                moving.piece_type.promote()
            } else {
                moving.piece_type
            };
            self.board[to] = Piece::new(stm, pt);
        }
        self.side_to_move = stm.opponent();
        self.game_ply = self.game_ply + 1;
        proof {
            reveal(spec_do_move);
        }
        assert(self@ =~= spec_do_move(old(self)@, move16));
    }
}


/// Board Huffman code of kind index `idx` in the packed-position format:
/// (code, length), read least significant bit first.
pub open spec fn spec_yo_code(idx: int) -> (u32, nat) {
    if idx == 1 {
        (0x01, 2)
    } else if idx == 2 {
        (0x03, 4)
    } else if idx == 3 {
        (0x0b, 4)
    } else if idx == 4 {
        (0x07, 4)
    } else if idx == 5 {
        (0x1f, 6)
    } else if idx == 6 {
        (0x3f, 6)
    } else if idx == 7 {
        (0x0f, 5)
    } else {
        (0x00, 1)
    }
}

fn yo_code(idx: usize) -> (r: (u32, usize))
    ensures
        r.0 == spec_yo_code(idx as int).0,
        r.1 == spec_yo_code(idx as int).1,
        1 <= r.1 <= 6,
{
    if idx == 1 {
        (0x01, 2)
    } else if idx == 2 {
        (0x03, 4)
    } else if idx == 3 {
        (0x0b, 4)
    } else if idx == 4 {
        (0x07, 4)
    } else if idx == 5 {
        (0x1f, 6)
    } else if idx == 6 {
        (0x3f, 6)
    } else if idx == 7 {
        (0x0f, 5)
    } else {
        (0x00, 1)
    }
}

/// Huffman kind index of a kind: its unpromoted kind's number (1 pawn, 2
/// lance, 3 knight, 4 silver, 5 bishop, 6 rook, 7 gold), 0 for the king and
/// the empty square.
pub open spec fn spec_piece_type_to_index(pt: PieceType) -> int {
    match pt {
        PieceType::Pawn | PieceType::ProPawn => 1,
        PieceType::Lance | PieceType::ProLance => 2,
        PieceType::Knight | PieceType::ProKnight => 3,
        PieceType::Silver | PieceType::ProSilver => 4,
        PieceType::Bishop | PieceType::Horse => 5,
        PieceType::Rook | PieceType::Dragon => 6,
        PieceType::Gold => 7,
        _ => 0,
    }
}

pub fn piece_type_to_index(pt: PieceType) -> (r: usize)
    ensures
        r == spec_piece_type_to_index(pt),
        r <= 7,
{
    match pt {
        PieceType::Pawn | PieceType::ProPawn => 1,
        PieceType::Lance | PieceType::ProLance => 2,
        PieceType::Knight | PieceType::ProKnight => 3,
        PieceType::Silver | PieceType::ProSilver => 4,
        PieceType::Bishop | PieceType::Horse => 5,
        PieceType::Rook | PieceType::Dragon => 6,
        PieceType::Gold => 7,
        _ => 0,
    }
}

/// Bits of one square of the board section: `0` when empty, else the kind's
/// Huffman code, a promotion bit (not for gold) and a colour bit (1 White).
pub open spec fn spec_square_bits(pc: Piece) -> Seq<bool> {
    if pc.piece_type == PieceType::NoPiece {
        seq![false]
    } else {
        let (code, n) = spec_yo_code(spec_piece_type_to_index(pc.piece_type));
        spec_low_bits(code, n) + (if pc.piece_type.spec_unpromote() != PieceType::Gold {
            seq![pc.piece_type.spec_is_promoted()]
        } else {
            Seq::empty()
        }) + seq![pc.color == Color::White]
    }
}

/// Bits of squares `0..n`, the king squares `bk` and `wk` left out.
pub open spec fn spec_board_bits_upto(board: Seq<Piece>, bk: int, wk: int, n: int) -> Seq<bool>
    decreases n,
{
    if n <= 0 {
        Seq::empty()
    } else {
        spec_board_bits_upto(board, bk, wk, n - 1) + if n - 1 == bk || n - 1 == wk {
            Seq::empty()
        } else {
            spec_square_bits(board[n - 1])
        }
    }
}

/// Bits of one hand piece of kind `pt` held by `c`: the board code without
/// its first bit, a clear promotion bit (not for gold) and a colour bit.
pub open spec fn spec_hand_piece_bits(pt: PieceType, c: Color) -> Seq<bool> {
    let (code, n) = spec_yo_code(spec_piece_type_to_index(pt));
    spec_low_bits(code >> 1u32, (n - 1) as nat) + (if pt != PieceType::Gold {
        seq![false]
    } else {
        Seq::empty()
    }) + seq![c == Color::White]
}

/// `s` repeated `k` times.
pub open spec fn spec_repeat(s: Seq<bool>, k: int) -> Seq<bool>
    decreases k,
{
    if k <= 0 {
        Seq::empty()
    } else {
        spec_repeat(s, k - 1) + s
    }
}

/// Bits of the first `g` (owner, kind) hand groups: Black's kinds in slot
/// order, then White's, each piece held written once.
pub open spec fn spec_hand_bits_upto(p: MiniPositionView, g: int) -> Seq<bool>
    decreases g,
{
    if g <= 0 {
        Seq::empty()
    } else {
        let c = if (g - 1) / 7 == 0 {
            Color::Black
        } else {
            Color::White
        };
        let j = (g - 1) % 7;
        spec_hand_bits_upto(p, g - 1) + spec_repeat(
            spec_hand_piece_bits(spec_hand_piece_type(j), c),
            p.hand(c)[j] as int,
        )
    }
}

/// Bits of a packed position before padding: side to move (1 White), Black's
/// king square and White's (7 bits each, 81 for none), the board section and
/// the hands.
pub open spec fn spec_pack_content(p: MiniPositionView) -> Seq<bool> {
    let bk = spec_find_king(p.board, Color::Black, 0);
    let wk = spec_find_king(p.board, Color::White, 0);
    seq![p.side_to_move == Color::White] + spec_low_bits(bk as u32, 7) + spec_low_bits(wk as u32, 7)
        + spec_board_bits_upto(p.board, bk, wk, 81) + spec_hand_bits_upto(p, 14)
}

/// Bit `i` of a packed position: the content's bit, and past the content
/// the padding `0 1 0 0 1 0 ...` (piece-box pawns).
pub open spec fn spec_packed_bit(p: MiniPositionView, i: int) -> bool {
    let c = spec_pack_content(p);
    if i < c.len() {
        c[i]
    } else {
        (i - c.len()) % 3 == 1
    }
}

proof fn lemma_find_king_bound(board: Seq<Piece>, c: Color, n: int)
    requires
        0 <= n,
    ensures
        n <= spec_find_king(board, c, n) <= 81 || spec_find_king(board, c, n) == 81,
        spec_find_king(board, c, n) <= 81,
    decreases 81 - n,
{
    if n < 81 {
        lemma_find_king_bound(board, c, n + 1);
    }
}

impl MiniPosition {
    fn write_square(&self, wr: &mut BitWriter, pc: Piece, Ghost(w): Ghost<Seq<bool>>)
        requires
            spec_writer_holds(*old(wr), w),
        ensures
            spec_writer_holds(*final(wr), w + spec_square_bits(pc)),
    {
        if pc.is_none() {
            wr.write_bit(false, Ghost(w));
            assert(w.push(false) =~= w + seq![false]);
        } else {
            let idx = piece_type_to_index(pc.piece_type);
            let (code, n) = yo_code(idx);
            wr.write_bits(code, n, Ghost(w));
            let ghost w1 = w + spec_low_bits(code, n as nat);
            let raw = pc.piece_type.unpromote();
            let ghost w2 = if raw != PieceType::Gold {
                w1.push(pc.piece_type.spec_is_promoted())
            } else {
                w1
            };
            if raw != PieceType::Gold {
                wr.write_bit(pc.piece_type.is_promoted(), Ghost(w1));
            }
            wr.write_bit(pc.color == Color::White, Ghost(w2));
            assert(w2.push(pc.color == Color::White) =~= w + spec_square_bits(pc));
        }
    }

    fn write_hand_piece(wr: &mut BitWriter, pt: PieceType, c: Color, Ghost(w): Ghost<Seq<bool>>)
        requires
            spec_writer_holds(*old(wr), w),
        ensures
            spec_writer_holds(*final(wr), w + spec_hand_piece_bits(pt, c)),
    {
        let idx = piece_type_to_index(pt);
        let (code, n) = yo_code(idx);
        wr.write_bits(code >> 1, n - 1, Ghost(w));
        let ghost w1 = w + spec_low_bits(code >> 1u32, (n - 1) as nat);
        let ghost w2 = if pt != PieceType::Gold {
            w1.push(false)
        } else {
            w1
        };
        if pt != PieceType::Gold {
            wr.write_bit(false, Ghost(w1));
        }
        wr.write_bit(c == Color::White, Ghost(w2));
        assert(w2.push(c == Color::White) =~= w + spec_hand_piece_bits(pt, c));
    }

    /// The position packed into 32 bytes (see [`spec_packed_bit`]): bit `i`
    /// of the result is `spec_packed_bit(self, i)`; content past bit 256 is
    /// cut off.
    pub fn pack_to_psfen(&self) -> (r: [u8; 32])
        ensures
            forall|i: int| 0 <= i < 256 ==> spec_bit(r@, i) == spec_packed_bit(self@, i),
    {
        let mut wr = BitWriter::new();
        let ghost mut w: Seq<bool> = Seq::empty();
        wr.write_bit(self.side_to_move == Color::White, Ghost(w));
        proof {
            w = w.push(self.side_to_move == Color::White);
        }
        let bk = self.king_square(Color::Black);
        let wk = self.king_square(Color::White);
        proof {
            lemma_find_king_bound(self.board@, Color::Black, 0);
            lemma_find_king_bound(self.board@, Color::White, 0);
        }
        wr.write_bits(bk as u32, 7, Ghost(w));
        proof {
            w = w + spec_low_bits(bk as u32, 7);
        }
        wr.write_bits(wk as u32, 7, Ghost(w));
        proof {
            w = w + spec_low_bits(wk as u32, 7);
        }
        let ghost head = w;
        let mut sq: usize = 0;
        while sq < 81
            invariant
                sq <= 81,
                bk as int == spec_find_king(self.board@, Color::Black, 0),
                wk as int == spec_find_king(self.board@, Color::White, 0),
                w == head + spec_board_bits_upto(self.board@, bk as int, wk as int, sq as int),
                spec_writer_holds(wr, w),
            decreases 81 - sq,
        {
            if sq == bk as usize || sq == wk as usize {
                assert(spec_board_bits_upto(self.board@, bk as int, wk as int, sq as int + 1)
                    =~= spec_board_bits_upto(self.board@, bk as int, wk as int, sq as int));
            } else {
                self.write_square(&mut wr, self.board[sq], Ghost(w));
                proof {
                    w = w + spec_square_bits(self.board@[sq as int]);
                }
            }
            sq = sq + 1;
        }
        let ghost head2 = head + spec_board_bits_upto(self.board@, bk as int, wk as int, 81);
        let mut g: usize = 0;
        while g < 14
            invariant
                g <= 14,
                w == head2 + spec_hand_bits_upto(self@, g as int),
                spec_writer_holds(wr, w),
            decreases 14 - g,
        {
            let c = if g / 7 == 0 {
                Color::Black
            } else {
                Color::White
            };
            let j = g % 7;
            let pt = hand_piece_type(j);
            let count = self.hands[if g / 7 == 0 {
                0
            } else {
                1
            }].counts[j];
            assert(count == self@.hand(c)[j as int]);
            let ghost base = w;
            let mut k: u8 = 0;
            while k < count
                invariant
                    k <= count,
                    w == base + spec_repeat(spec_hand_piece_bits(pt, c), k as int),
                    spec_writer_holds(wr, w),
                decreases count - k,
            {
                Self::write_hand_piece(&mut wr, pt, c, Ghost(w));
                proof {
                    w = w + spec_hand_piece_bits(pt, c);
                }
                k = k + 1;
            }
            g = g + 1;
        }
        assert(w =~= spec_pack_content(self@));
        let ghost content = w;
        while wr.bit_position() < 256
            invariant
                content == spec_pack_content(self@),
                w.len() >= content.len(),
                w.subrange(0, content.len() as int) == content,
                forall|i: int| content.len() <= i < w.len() ==> w[i] == ((i - content.len()) % 3 == 1),
                (w.len() - content.len()) % 3 == 0,
                spec_writer_holds(wr, w),
            decreases 256 - wr.cursor,
        {
            let ghost old_w = w;
            wr.write_bit(false, Ghost(w));
            proof {
                w = w.push(false);
            }
            wr.write_bit(true, Ghost(w));
            proof {
                w = w.push(true);
            }
            wr.write_bit(false, Ghost(w));
            proof {
                w = w.push(false);
                let n = old_w.len() - content.len();
                assert((n + 1) % 3 == 1 && (n + 2) % 3 == 2 && (n + 3) % 3 == 0);
                assert(w.subrange(0, content.len() as int) =~= old_w.subrange(0, content.len() as int));
                assert forall|i: int| content.len() <= i < w.len() implies w[i] == ((i - content.len()) % 3
                    == 1) by {
                    if i < old_w.len() {
                        assert(w[i] == old_w[i]);
                    }
                }
            }
        }
        assert(wr.cursor == 256);
        assert forall|i: int| 0 <= i < 256 implies spec_bit(wr.data@, i) == spec_packed_bit(self@, i) by {
            assert(spec_bit(wr.data@, i) == w[i]);
            if i < content.len() {
                assert(w[i] == w.subrange(0, content.len() as int)[i]);
            }
        }
        wr.data
    }
}


/// Little-endian bytes of a `u16`.
pub fn u16_le_bytes(v: u16) -> (r: (u8, u8))
    ensures
        spec_le_u16(r.0, r.1) == v,
{
    ((v % 256) as u8, (v / 256) as u8)
}

/// Little-endian bytes of an `i16`'s bit pattern.
pub fn i16_le_bytes(v: i16) -> (r: (u8, u8))
    ensures
        spec_u16_as_i16(spec_le_u16(r.0, r.1)) == v,
{
    let u: u32 = if v < 0 {
        (v as i32 + 65536) as u32
    } else {
        v as u32
    };
    ((u % 256) as u8, (u / 256) as u8)
}

/// Bit pattern of an `i8` as a byte.
pub fn i8_byte(v: i8) -> (r: u8)
    ensures
        spec_u8_as_i8(r) == v,
{
    if v < 0 {
        (v as i16 + 256) as u8
    } else {
        v as u8
    }
}

/// `d` is the training record of position `p` with `score`, `move16` and
/// `game_result`: the packed position in bits `0..256`, then the score, the
/// move and the game ply (little-endian), the result and a zero byte.
#[verifier::opaque]
pub open spec fn spec_is_record_of(d: Seq<u8>, p: MiniPositionView, score: i16, move16: u16, game_result: i8) -> bool {
    &&& d.len() == 40
    &&& forall|i: int| 0 <= i < 256 ==> spec_bit(d, i) == spec_packed_bit(p, i)
    &&& spec_u16_as_i16(spec_le_u16(d[32], d[33])) == score
    &&& spec_le_u16(d[34], d[35]) == move16
    &&& spec_le_u16(d[36], d[37]) == p.game_ply
    &&& spec_u8_as_i8(d[38]) == game_result
    &&& d[39] == 0
}

impl MiniPosition {
    /// The training record of this position with `score`, `move16` and
    /// `game_result` (see [`spec_is_record_of`]).
    pub fn to_packed_sfen_value(&self, score: i16, move16: u16, game_result: i8) -> (r: PackedSfenValue)
        ensures
            spec_is_record_of(r.data@, self@, score, move16, game_result),
    {
        let psfen = self.pack_to_psfen();
        let mut data = [0u8; 40];
        let mut i: usize = 0;
        while i < 32
            invariant
                i <= 32,
                forall|k: int| 0 <= k < i ==> data@[k] == psfen@[k],
            decreases 32 - i,
        {
            data[i] = psfen[i];
            i = i + 1;
        }
        let (s0, s1) = i16_le_bytes(score);
        let (m0, m1) = u16_le_bytes(move16);
        let (p0, p1) = u16_le_bytes(self.game_ply);
        data[32] = s0;
        data[33] = s1;
        data[34] = m0;
        data[35] = m1;
        data[36] = p0;
        data[37] = p1;
        data[38] = i8_byte(game_result);
        data[39] = 0;
        assert forall|k: int| 0 <= k < 256 implies spec_bit(data@, k) == spec_bit(psfen@, k) by {
            assert(data@[k / 8] == psfen@[k / 8]);
        }
        let r = PackedSfenValue::from_raw(data);
        proof {
            reveal(spec_is_record_of);
        }
        r
    }
}


/// Board Huffman code of the Huffman-coded-position (HCP) format at bit `p`:
/// (kind index, length). It differs from the packed format only in the
/// knight and silver codes.
pub open spec fn spec_hcp_board_code(d: Seq<u8>, p: int) -> (int, int) {
    if !spec_bit(d, p) {
        (0, 1)
    } else if !spec_bit(d, p + 1) {
        (1, 2)
    } else if !spec_bit(d, p + 2) {
        if !spec_bit(d, p + 3) {
            (2, 4)
        } else {
            (4, 4)
        }
    } else if !spec_bit(d, p + 3) {
        (3, 4)
    } else if !spec_bit(d, p + 4) {
        (7, 5)
    } else if !spec_bit(d, p + 5) {
        (5, 6)
    } else {
        (6, 6)
    }
}

/// HCP board piece at bit `p`: the piece (its colour bit comes before its
/// promotion bit, and gold has none) and the position after it.
pub open spec fn spec_hcp_board_piece(d: Seq<u8>, p: int) -> (Piece, int) {
    let (idx, len) = spec_hcp_board_code(d, p);
    if idx == 0 {
        (spec_no_piece(), p + 1)
    } else {
        let base = spec_piece_type_from_index(idx);
        let q = p + len;
        let color = if spec_bit(d, q) {
            Color::White
        } else {
            Color::Black
        };
        if base == PieceType::Gold {
            (Piece { piece_type: base, color }, q + 1)
        } else {
            (Piece { piece_type: if spec_bit(d, q + 1) { base.spec_promote() } else { base }, color }, q + 2)
        }
    }
}

/// Piece on a king square: White's king where White's king stands, else
/// Black's.
pub open spec fn spec_hcp_king_piece(sq: int, wk: int) -> Piece {
    if sq == wk {
        Piece { piece_type: PieceType::King, color: Color::White }
    } else {
        Piece { piece_type: PieceType::King, color: Color::Black }
    }
}

/// Squares `0..n` of an HCP board section (kings at `bk` and `wk`) and the
/// position after them.
pub open spec fn spec_hcp_squares(d: Seq<u8>, bk: int, wk: int, n: int) -> (Seq<Piece>, int)
    decreases n,
{
    if n <= 0 {
        (Seq::empty(), 15)
    } else {
        let (prev, p) = spec_hcp_squares(d, bk, wk, n - 1);
        if n - 1 == bk || n - 1 == wk {
            (prev.push(spec_hcp_king_piece(n - 1, wk)), p)
        } else {
            let (pc, np) = spec_hcp_board_piece(d, p);
            (prev.push(pc), np)
        }
    }
}

/// HCP hand-section entry with code `code` of length `len`: (kind index,
/// owner, piece-box flag); `None` when no entry has that code.
pub open spec fn spec_hcp_hand_lookup(code: int, len: int) -> Option<(int, Option<Color>, bool)> {
    let b = Some(Color::Black);
    let w = Some(Color::White);
    if len == 3 {
        if code == 0x00 {
            Some((1, b, false))
        } else if code == 0x04 {
            Some((1, w, false))
        } else if code == 0x02 {
            Some((1, None, true))
        } else {
            None
        }
    } else if len == 5 {
        if code == 0x01 {
            Some((2, b, false))
        } else if code == 0x03 {
            Some((3, b, false))
        } else if code == 0x05 {
            Some((4, b, false))
        } else if code == 0x07 {
            Some((7, b, false))
        } else if code == 0x11 {
            Some((2, w, false))
        } else if code == 0x13 {
            Some((3, w, false))
        } else if code == 0x15 {
            Some((4, w, false))
        } else if code == 0x17 {
            Some((7, w, false))
        } else if code == 0x09 {
            Some((2, None, true))
        } else if code == 0x0b {
            Some((3, None, true))
        } else if code == 0x0d {
            Some((4, None, true))
        } else if code == 0x1d {
            Some((7, None, true))
        } else {
            None
        }
    } else if len == 7 {
        if code == 0x1f {
            Some((5, b, false))
        } else if code == 0x3f {
            Some((6, b, false))
        } else if code == 0x5f {
            Some((5, w, false))
        } else if code == 0x7f {
            Some((6, w, false))
        } else if code == 0x0f {
            Some((5, None, true))
        } else if code == 0x2f {
            Some((6, None, true))
        } else {
            None
        }
    } else {
        None
    }
}

fn hcp_hand_lookup(code: u32, len: usize) -> (r: Option<(usize, Option<Color>, bool)>)
    ensures
        match spec_hcp_hand_lookup(code as int, len as int) {
            Some(e) => r matches Some(x) && x.0 == e.0 && x.1 == e.1 && x.2 == e.2,
            None => r is None,
        },
{
    let b = Some(Color::Black);
    let w = Some(Color::White);
    if len == 3 {
        if code == 0x00 {
            Some((1, b, false))
        } else if code == 0x04 {
            Some((1, w, false))
        } else if code == 0x02 {
            Some((1, None, true))
        } else {
            None
        }
    } else if len == 5 {
        if code == 0x01 {
            Some((2, b, false))
        } else if code == 0x03 {
            Some((3, b, false))
        } else if code == 0x05 {
            Some((4, b, false))
        } else if code == 0x07 {
            Some((7, b, false))
        } else if code == 0x11 {
            Some((2, w, false))
        } else if code == 0x13 {
            Some((3, w, false))
        } else if code == 0x15 {
            Some((4, w, false))
        } else if code == 0x17 {
            Some((7, w, false))
        } else if code == 0x09 {
            Some((2, None, true))
        } else if code == 0x0b {
            Some((3, None, true))
        } else if code == 0x0d {
            Some((4, None, true))
        } else if code == 0x1d {
            Some((7, None, true))
        } else {
            None
        }
    } else if len == 7 {
        if code == 0x1f {
            Some((5, b, false))
        } else if code == 0x3f {
            Some((6, b, false))
        } else if code == 0x5f {
            Some((5, w, false))
        } else if code == 0x7f {
            Some((6, w, false))
        } else if code == 0x0f {
            Some((5, None, true))
        } else if code == 0x2f {
            Some((6, None, true))
        } else {
            None
        }
    } else {
        None
    }
}

/// HCP hand entry at bit `p`, trying code lengths from `n` to 7: the entry
/// of the shortest matching code and the position after it; `None` when no
/// code of up to 7 bits matches.
pub open spec fn spec_hcp_hand_entry_from(d: Seq<u8>, p: int, n: int) -> Option<(int, Option<Color>, bool, int)>
    decreases 8 - n,
{
    if n > 7 || n < 1 {
        None
    } else {
        match spec_hcp_hand_lookup(spec_bits(d, p, n as nat) as int, n) {
            Some(e) => Some((e.0, e.1, e.2, p + n)),
            None => spec_hcp_hand_entry_from(d, p, n + 1),
        }
    }
}

pub open spec fn spec_hcp_hand_entry(d: Seq<u8>, p: int) -> Option<(int, Option<Color>, bool, int)> {
    spec_hcp_hand_entry_from(d, p, 1)
}

pub proof fn lemma_hcp_hand_entry_advances(d: Seq<u8>, p: int, n: int)
    requires
        1 <= n,
    ensures
        spec_hcp_hand_entry_from(d, p, n) matches Some(e) ==> p + 3 <= e.3 <= p + 7,
    decreases 8 - n,
{
    if n <= 7 {
        lemma_hcp_hand_entry_advances(d, p, n + 1);
    }
}

/// Black's and White's hands after reading the HCP hand section from bit
/// `p` until bit 256 (piece-box entries are skipped); `None` on an unknown
/// code.
pub open spec fn spec_hcp_hands(d: Seq<u8>, p: int, bh: Seq<u8>, wh: Seq<u8>) -> Option<(Seq<u8>, Seq<u8>)>
    decreases 264 - p,
{
    if p >= 256 {
        Some((bh, wh))
    } else {
        proof {
            lemma_hcp_hand_entry_advances(d, p, 1);
        }
        match spec_hcp_hand_entry(d, p) {
            None => None,
            Some(e) => if e.2 {
                spec_hcp_hands(d, e.3, bh, wh)
            } else {
                let pt = spec_piece_type_from_index(e.0);
                match e.1 {
                    Some(Color::Black) => spec_hcp_hands(d, e.3, spec_hand_add_one(bh, pt), wh),
                    Some(Color::White) => spec_hcp_hands(d, e.3, bh, spec_hand_add_one(wh, pt)),
                    None => None,
                }
            },
        }
    }
}

/// The position of a 32-byte HCP record with game ply `ply`: side to move
/// (1 bit), Black's and White's king squares (7 bits each; `None` unless on
/// the board), the board section and the hand section.
pub open spec fn spec_from_hcp(d: Seq<u8>, ply: u16) -> Option<MiniPositionView> {
    let bk = spec_bits(d, 1, 7) as int;
    let wk = spec_bits(d, 8, 7) as int;
    if bk >= 81 || wk >= 81 {
        None
    } else {
        let (squares, p) = spec_hcp_squares(d, bk, wk, 81);
        match spec_hcp_hands(d, p, spec_empty_hand(), spec_empty_hand()) {
            None => None,
            Some(h) => Some(
                MiniPositionView {
                    board: squares,
                    black_hand: h.0,
                    white_hand: h.1,
                    side_to_move: if spec_bit(d, 0) {
                        Color::White
                    } else {
                        Color::Black
                    },
                    game_ply: ply,
                },
            ),
        }
    }
}

proof fn lemma_hcp_squares_progress(d: Seq<u8>, bk: int, wk: int, n: int)
    requires
        0 <= n,
    ensures
        spec_hcp_squares(d, bk, wk, n).0.len() == n,
        15 <= spec_hcp_squares(d, bk, wk, n).1 <= 15 + 8 * n,
    decreases n,
{
    if n > 0 {
        lemma_hcp_squares_progress(d, bk, wk, n - 1);
    }
}

fn read_hcp_board_code(r: &mut BitReader) -> (res: (usize, usize))
    requires
        old(r).cursor + 8 < usize::MAX,
    ensures
        res.0 as int == spec_hcp_board_code(old(r).data@, old(r).cursor as int).0,
        res.1 as int == spec_hcp_board_code(old(r).data@, old(r).cursor as int).1,
        final(r).cursor == old(r).cursor + res.1,
        final(r).data@ == old(r).data@,
{
    if !r.read_bit() {
        (0, 1)
    } else if !r.read_bit() {
        (1, 2)
    } else if !r.read_bit() {
        if !r.read_bit() {
            (2, 4)
        } else {
            (4, 4)
        }
    } else if !r.read_bit() {
        (3, 4)
    } else if !r.read_bit() {
        (7, 5)
    } else if !r.read_bit() {
        (5, 6)
    } else {
        (6, 6)
    }
}

fn read_hcp_board_piece(r: &mut BitReader) -> (res: Piece)
    requires
        old(r).cursor + 16 < usize::MAX,
    ensures
        res == spec_hcp_board_piece(old(r).data@, old(r).cursor as int).0,
        final(r).cursor == spec_hcp_board_piece(old(r).data@, old(r).cursor as int).1,
        final(r).data@ == old(r).data@,
        final(r).cursor <= old(r).cursor + 8,
{
    let (idx, _len) = read_hcp_board_code(r);
    if idx == 0 {
        Piece::none()
    } else {
        let base = piece_type_from_index(idx);
        let white = r.read_bit();
        let color = if white {
            Color::White
        } else {
            Color::Black
        };
        if base == PieceType::Gold {
            Piece::new(color, base)
        } else {
            let promoted = r.read_bit();
            let pt = if promoted {
                base.promote()
            } else {
                base
            };
            Piece::new(color, pt)
        }
    }
}

fn read_hcp_hand_entry(r: &mut BitReader) -> (res: Option<(usize, Option<Color>, bool)>)
    requires
        old(r).cursor + 16 < usize::MAX,
    ensures
        final(r).data@ == old(r).data@,
        match spec_hcp_hand_entry(old(r).data@, old(r).cursor as int) {
            Some(e) => res matches Some(x) && x.0 == e.0 && x.1 == e.1 && x.2 == e.2 && final(r).cursor == e.3,
            None => res is None,
        },
{
    let ghost d = r.data@;
    let ghost p = r.cursor as int;
    let mut code: u32 = 0;
    let mut weight: u32 = 1;
    let mut n: usize = 0;
    while n < 7
        invariant
            n <= 7,
            r.data@ == d,
            d == old(r).data@,
            p == old(r).cursor,
            r.cursor == p + n,
            p + 16 < usize::MAX,
            code == spec_bits(d, p, n as nat),
            weight == spec_pow2(n as nat),
            weight <= 128,
            code < weight,
            spec_hcp_hand_entry_from(d, p, n as int + 1) == spec_hcp_hand_entry(d, p),
        decreases 7 - n,
    {
        let b = r.read_bit();
        if b {
            code = code + weight;
        }
        n = n + 1;
        assert(spec_pow2(n as nat) == 2 * spec_pow2((n - 1) as nat));
        proof {
            crate::shogi::bits::lemma_pow2_le(n as nat, 7);
            reveal_with_fuel(spec_pow2, 8);
            lemma_bits_bound(d, p, n as nat);
        }
        weight = weight * 2;
        match hcp_hand_lookup(code, n) {
            Some(e) => {
                return Some(e);
            },
            None => {},
        }
    }
    None
}

impl MiniPosition {
    /// The position of a 32-byte Huffman-coded-position record with game ply
    /// `game_ply` (see [`spec_from_hcp`]); `None` when a king is off the
    /// board or a hand code is unknown.
    pub fn from_hcp(hcp: &[u8; 32], game_ply: u16) -> (r: Option<MiniPosition>)
        ensures
            match spec_from_hcp(hcp@, game_ply) {
                Some(v) => r matches Some(p) && p@ == v,
                None => r is None,
            },
    {
        let ghost d = hcp@;
        let mut r = BitReader::new(hcp.as_slice());
        assert(r.data@ == d);
        let white_to_move = r.read_bit();
        let bk = r.read_bits(7);
        proof {
            lemma_bits_bound(d, 1, 7);
            crate::shogi::bits::lemma_pow2_le(7, 8);
            lemma_pow2_8();
        }
        if bk >= 81 {
            return None;
        }
        let wk = r.read_bits(7);
        proof {
            lemma_bits_bound(d, 8, 7);
        }
        if wk >= 81 {
            return None;
        }
        let mut board = [Piece::none(); 81];
        let mut sq: usize = 0;
        while sq < 81
            invariant
                sq <= 81,
                r.data@ == d,
                bk == spec_bits(d, 1, 7),
                wk == spec_bits(d, 8, 7),
                bk < 81,
                wk < 81,
                r.cursor == spec_hcp_squares(d, bk as int, wk as int, sq as int).1,
                r.cursor <= 15 + 8 * sq,
                forall|i: int| 0 <= i < sq ==> board@[i] == spec_hcp_squares(d, bk as int, wk as int, sq as int).0[i],
            decreases 81 - sq,
        {
            proof {
                lemma_hcp_squares_progress(d, bk as int, wk as int, sq as int);
            }
            if sq == bk as usize || sq == wk as usize {
                board[sq] = if sq == wk as usize {
                    Piece::new(Color::White, PieceType::King)
                } else {
                    Piece::new(Color::Black, PieceType::King)
                };
            } else {
                let pc = read_hcp_board_piece(&mut r);
                board[sq] = pc;
            }
            sq = sq + 1;
            proof {
                lemma_hcp_squares_progress(d, bk as int, wk as int, sq as int);
            }
        }
        proof {
            lemma_hcp_squares_progress(d, bk as int, wk as int, 81);
        }
        assert(board@ =~= spec_hcp_squares(d, bk as int, wk as int, 81).0);
        let ghost start = r.cursor as int;
        let mut bh = Hand::empty();
        let mut wh = Hand::empty();
        assert(bh.counts@ =~= spec_empty_hand());
        assert(wh.counts@ =~= spec_empty_hand());
        while r.cursor < 256
            invariant
                r.data@ == d,
                d == hcp@,
                bk == spec_bits(d, 1, 7),
                wk == spec_bits(d, 8, 7),
                bk < 81,
                wk < 81,
                start == spec_hcp_squares(d, bk as int, wk as int, 81).1,
                r.cursor <= 15 + 8 * 81,
                spec_hcp_hands(d, r.cursor as int, bh.counts@, wh.counts@) == spec_hcp_hands(
                    d,
                    start,
                    spec_empty_hand(),
                    spec_empty_hand(),
                ),
            decreases 264 - r.cursor,
        {
            proof {
                lemma_hcp_hand_entry_advances(d, r.cursor as int, 1);
            }
            let ghost p = r.cursor as int;
            let entry = read_hcp_hand_entry(&mut r);
            match entry {
                None => {
                    assert(spec_hcp_hands(d, p, bh.counts@, wh.counts@) is None);
                    return None;
                },
                Some((idx, color, piecebox)) => {
                    if !piecebox {
                        let pt = piece_type_from_index(idx);
                        match color {
                            Some(Color::Black) => {
                                let ghost before = bh.counts@;
                                bh.add(pt, 1);
                                assert(bh.counts@ =~= spec_hand_add_one(before, pt));
                            },
                            Some(Color::White) => {
                                let ghost before = wh.counts@;
                                wh.add(pt, 1);
                                assert(wh.counts@ =~= spec_hand_add_one(before, pt));
                            },
                            None => {
                                assert(spec_hcp_hands(d, p, bh.counts@, wh.counts@) is None);
                                return None;
                            },
                        }
                    }
                },
            }
        }
        let pos = MiniPosition {
            board,
            hands: [bh, wh],
            side_to_move: if white_to_move {
                Color::White
            } else {
                Color::Black
            },
            game_ply,
        };
        assert(pos@.black_hand == bh.counts@);
        Some(pos)
    }
}


/// A game of a `.pack` file: its start position, its (move, evaluation)
/// pairs and its result (0 draw, 1 Black won, 2 White won).
pub struct RawGameData {
    pub start_pos: MiniPosition,
    pub moves: Vec<(u16, i16)>,
    pub pack_game_result: u8,
}

/// The moves of a game from byte `p` of `d` up to its end marker: the
/// (move, evaluation) pairs, the result and the position after the reason
/// byte; `None` when the bytes run out first.
pub open spec fn spec_read_moves(d: Seq<u8>, p: int) -> Option<(Seq<(u16, i16)>, u8, int)>
    decreases d.len() - p,
{
    if p < 0 || p + 2 > d.len() {
        None
    } else {
        let m = spec_le_u16(d[p], d[p + 1]);
        if spec_is_end_marker(m) {
            if p + 3 > d.len() {
                None
            } else {
                Some((Seq::empty(), (m & 0x7F) as u8, p + 3))
            }
        } else if p + 4 > d.len() {
            None
        } else {
            let ev = spec_u16_as_i16(spec_le_u16(d[p + 2], d[p + 3]));
            match spec_read_moves(d, p + 4) {
                None => None,
                Some(t) => Some((seq![(m, ev)] + t.0, t.1, t.2)),
            }
        }
    }
}

/// The game starting at byte `at` of `d`: start position (flag 1: the
/// initial position; flag 0: an HCP record and a game ply), moves, result
/// and the position after it; `None` on a bad flag, an undecodable start
/// position or bytes that run out.
pub open spec fn spec_read_game(d: Seq<u8>, at: int) -> Option<(MiniPositionView, Seq<(u16, i16)>, u8, int)> {
    if at < 0 || at >= d.len() {
        None
    } else {
        let start: Option<(MiniPositionView, int)> = if d[at] == 1 {
            Some((spec_hirate(), at + 1))
        } else if d[at] == 0 && at + 35 <= d.len() {
            match spec_from_hcp(d.subrange(at + 1, at + 33), spec_le_u16(d[at + 33], d[at + 34])) {
                Some(v) => Some((v, at + 35)),
                None => None,
            }
        } else {
            None
        };
        match start {
            None => None,
            Some(st) => match spec_read_moves(d, st.1) {
                None => None,
                Some(t) => Some((st.0, t.0, t.1, t.2)),
            },
        }
    }
}

/// `o` with `ms` put before its moves.
pub open spec fn spec_prepend_moves(ms: Seq<(u16, i16)>, o: Option<(Seq<(u16, i16)>, u8, int)>) -> Option<
    (Seq<(u16, i16)>, u8, int),
> {
    match o {
        None => None,
        Some(t) => Some((ms + t.0, t.1, t.2)),
    }
}

/// Reads the game starting at byte `at` of `data` (see [`spec_read_game`]):
/// the game and the offset just after it.
pub fn read_one_game(data: &[u8], at: usize) -> (r: Option<(RawGameData, usize)>)
    ensures
        match spec_read_game(data@, at as int) {
            Some(g) => r matches Some(x) && x.0.start_pos@ == g.0 && x.0.moves@ == g.1 && x.0.pack_game_result
                == g.2 && x.1 == g.3,
            None => r is None,
        },
{
    let ghost d = data@;
    if at >= data.len() {
        return None;
    }
    let flag = data[at];
    let (start_pos, p_start): (MiniPosition, usize) = if flag == 1 {
        (MiniPosition::hirate(), at + 1)
    } else if flag == 0 && data.len() >= 35 && at <= data.len() - 35 {
        let mut hcp = [0u8; 32];
        let mut i: usize = 0;
        while i < 32
            invariant
                i <= 32,
                data.len() == data@.len(),
                at + 35 <= data@.len(),
                forall|k: int| 0 <= k < i ==> hcp@[k] == data@[at + 1 + k],
            decreases 32 - i,
        {
            hcp[i] = data[at + 1 + i];
            i = i + 1;
        }
        assert(hcp@ =~= d.subrange(at + 1, at + 33));
        let ply = crate::shogi::packed_sfen::le_u16(data[at + 33], data[at + 34]);
        match MiniPosition::from_hcp(&hcp, ply) {
            Some(pos) => (pos, at + 35),
            None => {
                return None;
            },
        }
    } else {
        return None;
    };
    let mut p: usize = p_start;
    let ghost p0 = p as int;
    assert(spec_read_game(d, at as int) == match spec_read_moves(d, p0) {
        None => None,
        Some(t) => Some((start_pos@, t.0, t.1, t.2)),
    });
    let mut moves: Vec<(u16, i16)> = Vec::new();
    assert(moves@ + Seq::<(u16, i16)>::empty() =~= Seq::<(u16, i16)>::empty());
    loop
        invariant
            d == data@,
            data.len() == data@.len(),
            spec_read_game(d, at as int) == match spec_read_moves(d, p0) {
                None => None,
                Some(t) => Some((start_pos@, t.0, t.1, t.2)),
            },
            p <= data@.len() + 4,
            spec_read_moves(d, p0) == spec_prepend_moves(moves@, spec_read_moves(d, p as int)),
        decreases data@.len() + 4 - p,
    {
        let len = data.len();
        if p >= len {
            assert(spec_read_moves(d, p as int) is None);
            return None;
        }
        assert(p < len);
        let rest = len - p;
        if rest < 2 {
            assert(spec_read_moves(d, p as int) is None);
            return None;
        }
        let m = crate::shogi::packed_sfen::le_u16(data[p], data[p + 1]);
        if is_end_marker(m) {
            if rest < 3 {
                return None;
            }
            let result = (m & 0x7F) as u8;
            assert(moves@ + Seq::<(u16, i16)>::empty() =~= moves@);
            return Some((RawGameData { start_pos, moves, pack_game_result: result }, p + 3));
        }
        if rest < 4 {
            return None;
        }
        let ev = crate::shogi::packed_sfen::u16_as_i16(crate::shogi::packed_sfen::le_u16(data[p + 2], data[p + 3]));
        let ghost before = moves@;
        moves.push((m, ev));
        proof {
            match spec_read_moves(d, p + 4) {
                None => {},
                Some(t) => {
                    assert(before + (seq![(m, ev)] + t.0) =~= moves@ + t.0);
                },
            }
        }
        p = p + 4;
    }
}

/// Positions of a game after its first `k` moves.
pub open spec fn spec_replay(p: MiniPositionView, moves: Seq<(u16, i16)>, k: int) -> MiniPositionView
    decreases k,
{
    if k <= 0 {
        p
    } else {
        spec_do_move(spec_replay(p, moves, k - 1), moves[k - 1].0)
    }
}

/// Every move of the game can be replayed and no ply passes 65535.
pub open spec fn spec_game_replayable(p: MiniPositionView, moves: Seq<(u16, i16)>) -> bool {
    forall|k: int|
        0 <= k < moves.len() ==> spec_move_replayable(#[trigger] moves[k].0) && spec_replay(p, moves, k).game_ply
            < u16::MAX
}

/// Whether the moves of `game` can be replayed from its start position
/// (see [`spec_game_replayable`]).
pub fn game_replayable(game: &RawGameData) -> (r: bool)
    ensures
        r == spec_game_replayable(game.start_pos@, game.moves@),
{
    let mut pos = game.start_pos;
    let mut k: usize = 0;
    while k < game.moves.len()
        invariant
            k <= game.moves@.len(),
            pos@ == spec_replay(game.start_pos@, game.moves@, k as int),
            forall|j: int| 0 <= j < k ==> #[trigger] spec_move_replayable(game.moves@[j].0),
            forall|j: int| 0 <= j < k ==> #[trigger] spec_replay(game.start_pos@, game.moves@, j).game_ply < u16::MAX,
        decreases game.moves@.len() - k,
    {
        let m = game.moves[k].0;
        let from = (m >> 7u16) & 0x7Fu16;
        let to = m & 0x7Fu16;
        if !(from >= 88 || to < 81) {
            assert(!spec_move_replayable(game.moves@[k as int].0));
            return false;
        }
        if pos.game_ply == u16::MAX {
            assert(spec_move_replayable(game.moves@[k as int].0));
            return false;
        }
        assert(spec_move_replayable(game.moves@[k as int].0));
        assert(spec_replay(game.start_pos@, game.moves@, k as int).game_ply < u16::MAX);
        let ghost kk = k as int;
        pos.do_move(m);
        k = k + 1;
        assert forall|j: int| 0 <= j < k implies #[trigger] spec_move_replayable(game.moves@[j].0) by {
            if j == kk {
                assert(spec_move_replayable(game.moves@[kk].0));
            }
        }
        assert forall|j: int| 0 <= j < k implies #[trigger] spec_replay(game.start_pos@, game.moves@, j).game_ply
            < u16::MAX by {
            if j == kk {
                assert(spec_replay(game.start_pos@, game.moves@, kk).game_ply < u16::MAX);
            }
        }
    }
    true
}

/// The training records of a game: for each move, the position before it
/// with the move's evaluation, the move and the game result for the side to
/// move.
pub fn expand_game(game: RawGameData) -> (r: Vec<PackedSfenValue>)
    requires
        spec_game_replayable(game.start_pos@, game.moves@),
    ensures
        r@.len() == game.moves@.len(),
        forall|k: int|
            0 <= k < r@.len() ==> {
                let pos = spec_replay(game.start_pos@, game.moves@, k);
                spec_is_record_of(
                    #[trigger] r@[k].data@,
                    pos,
                    game.moves@[k].1,
                    game.moves@[k].0,
                    spec_convert_game_result(game.pack_game_result, pos.side_to_move),
                )
            },
{
    let mut pos = game.start_pos;
    let mut result: Vec<PackedSfenValue> = Vec::new();
    let mut i: usize = 0;
    while i < game.moves.len()
        invariant
            i <= game.moves@.len(),
            spec_game_replayable(game.start_pos@, game.moves@),
            pos@ == spec_replay(game.start_pos@, game.moves@, i as int),
            result@.len() == i,
            forall|k: int|
                0 <= k < i ==> {
                    let q = spec_replay(game.start_pos@, game.moves@, k);
                    spec_is_record_of(
                        #[trigger] result@[k].data@,
                        q,
                        game.moves@[k].1,
                        game.moves@[k].0,
                        spec_convert_game_result(game.pack_game_result, q.side_to_move),
                    )
                },
        decreases game.moves@.len() - i,
    {
        let (move16, eval) = game.moves[i];
        let stm = pos.side_to_move;
        let game_result = convert_game_result(game.pack_game_result, stm);
        let psv = pos.to_packed_sfen_value(eval, move16, game_result);
        result.push(psv);
        assert(spec_move_replayable(game.moves@[i as int].0));
        pos.do_move(move16);
        i = i + 1;
    }
    result
}

/// Filtering and resuming of the records a `.pack` pipeline expands: the
/// first `positions_to_skip` records that pass the filter are dropped, and
/// two sweeps in a row in which no record passes the filter are an error.
#[derive(Clone, Copy, Debug)]
pub struct PackExpander {
    pub positions_to_skip: usize,
    pub skipped: usize,
    pub filter_accepted_in_sweep: usize,
    pub consecutive_empty_sweeps: usize,
}

/// Number of sweeps in a row without an accepted record that is an error.
pub const MAX_EMPTY_SWEEPS: usize = 2;

impl PackExpander {
    pub fn new(positions_to_skip: usize) -> (r: PackExpander)
        ensures
            r.positions_to_skip == positions_to_skip,
            r.skipped == 0,
            r.filter_accepted_in_sweep == 0,
            r.consecutive_empty_sweeps == 0,
    {
        PackExpander { positions_to_skip, skipped: 0, filter_accepted_in_sweep: 0, consecutive_empty_sweeps: 0 }
    }

    /// Takes a record and whether it passed the filter: a record that did
    /// not pass is dropped; one that did counts for the sweep, and is
    /// dropped while records are still to be skipped, else kept.
    pub fn accept(&mut self, psv: PackedSfenValue, passed: bool) -> (r: Option<PackedSfenValue>)
        requires
            old(self).filter_accepted_in_sweep < usize::MAX,
        ensures
            !passed ==> r is None && *final(self) == *old(self),
            passed && old(self).skipped < old(self).positions_to_skip ==> r is None && *final(self) == (
            PackExpander {
                skipped: (old(self).skipped + 1) as usize,
                filter_accepted_in_sweep: (old(self).filter_accepted_in_sweep + 1) as usize,
                ..*old(self)
            }),
            passed && old(self).skipped >= old(self).positions_to_skip ==> r == Some(psv) && *final(self) == (
            PackExpander {
                filter_accepted_in_sweep: (old(self).filter_accepted_in_sweep + 1) as usize,
                ..*old(self)
            }),
    {
        if !passed {
            return None;
        }
        self.filter_accepted_in_sweep = self.filter_accepted_in_sweep + 1;
        if self.skipped < self.positions_to_skip {
            self.skipped = self.skipped + 1;
            return None;
        }
        Some(psv)
    }

    /// Closes a sweep over all files: a sweep without accepted records
    /// counts towards the error, one with accepted records resets the
    /// count; the sweep's count starts again at zero.
    pub fn end_sweep(&mut self) -> (r: Result<(), String>)
        requires
            old(self).consecutive_empty_sweeps < usize::MAX,
        ensures
            final(self).filter_accepted_in_sweep == 0,
            final(self).positions_to_skip == old(self).positions_to_skip,
            final(self).skipped == old(self).skipped,
            final(self).consecutive_empty_sweeps == if old(self).filter_accepted_in_sweep == 0 {
                old(self).consecutive_empty_sweeps + 1
            } else {
                0
            },
            r is Err <==> final(self).consecutive_empty_sweeps >= MAX_EMPTY_SWEEPS,
    {
        if self.filter_accepted_in_sweep == 0 {
            self.consecutive_empty_sweeps = self.consecutive_empty_sweeps + 1;
        } else {
            self.consecutive_empty_sweeps = 0;
        }
        self.filter_accepted_in_sweep = 0;
        if self.consecutive_empty_sweeps >= MAX_EMPTY_SWEEPS {
            return Err(
                "ShogiPackLoader: filter accepted 0 positions in 2 consecutive sweeps. Filter is too restrictive or the .pack corpus contains no usable data.".to_owned(),
            );
        }
        Ok(())
    }
}


/// Size of a training record in bytes.
pub const PACKED_SFEN_VALUE_SIZE: usize = 40;

/// Loader of `.pack` files: the files, the shuffle-buffer size in records
/// and the record filter.
#[derive(Clone)]
pub struct ShogiPackLoader<T> {
    pub file_paths: Vec<String>,
    pub buffer_size: usize,
    pub filter: T,
}

impl<T> ShogiPackLoader<T> {
    /// Loader of one file with a shuffle buffer of `buffer_size_mb` MiB
    /// (half of it in records).
    pub fn new(path: &str, buffer_size_mb: usize, filter: T) -> (r: Self)
        requires
            buffer_size_mb * 1048576 <= usize::MAX,
        ensures
            r.file_paths@.len() == 1,
            r.file_paths@[0]@ == path@,
            r.buffer_size == buffer_size_mb * 1048576 / 40 / 2,
            r.filter == filter,
    {
        let paths = [path];
        Self::new_concat_multiple(paths.as_slice(), buffer_size_mb, filter)
    }

    /// Loader of several files read one after the other.
    pub fn new_concat_multiple(paths: &[&str], buffer_size_mb: usize, filter: T) -> (r: Self)
        requires
            buffer_size_mb * 1048576 <= usize::MAX,
        ensures
            r.file_paths@.len() == paths@.len(),
            forall|i: int| 0 <= i < paths@.len() ==> #[trigger] r.file_paths@[i]@ == paths@[i]@,
            r.buffer_size == buffer_size_mb * 1048576 / 40 / 2,
            r.filter == filter,
    {
        ShogiPackLoader {
            file_paths: owned_paths(paths),
            buffer_size: buffer_size_mb * 1024 * 1024 / PACKED_SFEN_VALUE_SIZE / 2,
            filter,
        }
    }
}

impl<T> DataLoader<PackedSfenValue> for ShogiPackLoader<T> {
    fn data_file_paths(&self) -> (r: &[String])
        ensures
            r@ == self.file_paths@,
    {
        self.file_paths.as_slice()
    }
}

impl<T> ShogiPackLoader<T> {
    /// Number of records: unknown, games have different lengths.
    pub fn count_positions(&self) -> (r: Option<u64>)
        ensures
            r is None,
    {
        None
    }
}

/// Kind and hand slot of cshogi drop code `k`: 0 pawn, 1 lance, 2 knight,
/// 3 silver, 4 bishop, 5 rook, 6 gold (hand slots: pawn 0, lance 1, knight
/// 2, silver 3, gold 4, bishop 5, rook 6).
pub open spec fn spec_cshogi_drop(k: int) -> (PieceType, int) {
    if k == 0 {
        (PieceType::Pawn, 0)
    } else if k == 1 {
        (PieceType::Lance, 1)
    } else if k == 2 {
        (PieceType::Knight, 2)
    } else if k == 3 {
        (PieceType::Silver, 3)
    } else if k == 4 {
        (PieceType::Bishop, 5)
    } else if k == 5 {
        (PieceType::Rook, 6)
    } else {
        (PieceType::Gold, 4)
    }
}

/// A drop with cshogi drop code `k` puts a piece of exactly that kind,
/// the mover's, on the target square and takes one from the mover's hand
/// slot of that kind (when it holds one); nothing else on the board or in
/// the hands changes, and the other side is to move. The drop codes follow
/// the packed-record piece numbering: code `k` is piece index `k + 1`.
pub proof fn lemma_drop_places_the_coded_kind(p: MiniPositionView, move16: u16)
    requires
        p.board.len() == 81,
        p.black_hand.len() == 7,
        p.white_hand.len() == 7,
        81 <= spec_move_from(move16) <= 87,
        spec_move_to(move16) < 81,
    ensures
        ({
            let k = spec_move_from(move16) - 81;
            let (kind, slot) = spec_cshogi_drop(k);
            let to = spec_move_to(move16);
            let stm = p.side_to_move;
            let q = spec_do_move(p, move16);
            &&& spec_piece_type_from_index(k + 1) == kind
            &&& kind.spec_hand_index() == Some(slot as usize)
            &&& q.board[to] == (Piece { piece_type: kind, color: stm })
            &&& forall|sq: int| 0 <= sq < 81 && sq != to ==> q.board[sq] == p.board[sq]
            &&& p.hand(stm)[slot] > 0 ==> q.hand(stm)[slot] == p.hand(stm)[slot] - 1
            &&& p.hand(stm)[slot] == 0 ==> q.hand(stm)[slot] == 0
            &&& forall|j: int| 0 <= j < 7 && j != slot ==> q.hand(stm)[j] == p.hand(stm)[j]
            &&& q.hand(stm.spec_opponent()) == p.hand(stm.spec_opponent())
            &&& q.side_to_move == stm.spec_opponent()
        }),
{
    reveal(spec_do_move);
    let k = spec_move_from(move16) - 81;
    assert(0 <= k <= 6);
    match p.side_to_move {
        Color::Black => {},
        Color::White => {},
    }
}

/// The HCP hand code of a piece held in hand is made from its HCP board
/// code: for a pawn, lance, knight or silver the board code without its
/// leading bit, a clear piece-box bit and the colour bit; for a gold the
/// board code without its leading bit and the colour bit; for a bishop or
/// rook the whole board code and the colour bit. So the hand entry that a
/// board code's piece makes names that piece's kind and owner.
pub proof fn lemma_hcp_hand_codes_follow_board_codes(d: Seq<u8>, q: int, white: bool)
    requires
        0 <= q,
    ensures
        ({
            let (idx, len) = spec_hcp_board_code(d, q);
            let c = if white {
                Color::White
            } else {
                Color::Black
            };
            &&& 1 <= idx <= 4 ==> spec_hcp_hand_lookup(
                spec_bits(d, q + 1, (len - 1) as nat) + if white {
                    spec_pow2(len as nat) as int
                } else {
                    0
                },
                len + 1,
            ) == Some((idx, Some(c), false))
            &&& idx == 7 ==> spec_hcp_hand_lookup(
                spec_bits(d, q + 1, (len - 1) as nat) + if white {
                    spec_pow2((len - 1) as nat) as int
                } else {
                    0
                },
                len,
            ) == Some((7int, Some(c), false))
            &&& (idx == 5 || idx == 6) ==> spec_hcp_hand_lookup(
                spec_bits(d, q, len as nat) + if white {
                    spec_pow2(len as nat) as int
                } else {
                    0
                },
                len + 1,
            ) == Some((idx, Some(c), false))
        }),
{
    reveal_with_fuel(spec_bits, 7);
    reveal_with_fuel(spec_pow2, 8);
}

} // verus!

//! The 40-byte `PackedSfenValue` training record and its position decoder.
//!
//! Record layout: bytes `0..32` packed position, `32..34` score (i16 LE),
//! `34..36` move (u16 LE), `36..38` game ply (u16 LE), `38` game result
//! (i8), `39` padding.
//!
//! Packed position (LSB-first bits): side to move (1 bit, 1 = White), Black
//! king square (7 bits), White king square (7 bits), then every other square
//! in index order as a board Huffman code (`0` empty, `10` pawn, `1100`
//! lance, `1101` knight, `1110` silver, `11110` gold, `111110` bishop,
//! `111111` rook) followed, for a piece, by a promotion bit (not for gold)
//! and a colour bit (1 = White); then hand pieces up to bit 256 as hand codes
//! (`0` pawn, `100` lance, `101` knight, `110` silver, `1110` gold, `11110`
//! bishop, `11111` rook) followed by a piece-box bit (not for gold; 1 =
//! piece box, not in any hand) and a colour bit.

use vstd::prelude::*;
use crate::shogi::bits::{spec_bit, spec_bits, BitReader, lemma_bits_bound, lemma_pow2_8};
use crate::shogi::board::{BoardView, ShogiBoard};
use crate::shogi::types::{Color, Hand, Piece, PieceType, Square, spec_no_piece};

verus! {

/// Kind numbered `idx` by the Huffman tables: 1 pawn, 2 lance, 3 knight,
/// 4 silver, 5 bishop, 6 rook, 7 gold, anything else no piece.
pub open spec fn spec_piece_type_from_index(idx: int) -> PieceType {
    if idx == 1 {
        PieceType::Pawn
    } else if idx == 2 {
        PieceType::Lance
    } else if idx == 3 {
        PieceType::Knight
    } else if idx == 4 {
        PieceType::Silver
    } else if idx == 5 {
        PieceType::Bishop
    } else if idx == 6 {
        PieceType::Rook
    } else if idx == 7 {
        PieceType::Gold
    } else {
        PieceType::NoPiece
    }
}

pub fn piece_type_from_index(idx: usize) -> (r: PieceType)
    ensures
        r == spec_piece_type_from_index(idx as int),
{
    if idx == 1 {
        PieceType::Pawn
    } else if idx == 2 {
        PieceType::Lance
    } else if idx == 3 {
        PieceType::Knight
    } else if idx == 4 {
        PieceType::Silver
    } else if idx == 5 {
        PieceType::Bishop
    } else if idx == 6 {
        PieceType::Rook
    } else if idx == 7 {
        PieceType::Gold
    } else {
        PieceType::NoPiece
    }
}

/// Board Huffman code at bit `p`: (kind index, code length).
pub open spec fn spec_board_code(d: Seq<u8>, p: int) -> (int, int) {
    if !spec_bit(d, p) {
        (0, 1)
    } else if !spec_bit(d, p + 1) {
        (1, 2)
    } else if !spec_bit(d, p + 2) {
        if !spec_bit(d, p + 3) {
            (2, 4)
        } else {
            (3, 4)
        }
    } else if !spec_bit(d, p + 3) {
        (4, 4)
    } else if !spec_bit(d, p + 4) {
        (7, 5)
    } else if !spec_bit(d, p + 5) {
        (5, 6)
    } else {
        (6, 6)
    }
}

/// Board piece at bit `p`: the piece and the position after it.
pub open spec fn spec_board_piece(d: Seq<u8>, p: int) -> (Piece, int) {
    let (idx, len) = spec_board_code(d, p);
    if idx == 0 {
        (spec_no_piece(), p + 1)
    } else {
        let base = spec_piece_type_from_index(idx);
        let q = p + len;
        if base == PieceType::Gold {
            (Piece { piece_type: base, color: if spec_bit(d, q) { Color::White } else { Color::Black } }, q + 1)
        } else {
            let pt = if spec_bit(d, q) { base.spec_promote() } else { base };
            (Piece { piece_type: pt, color: if spec_bit(d, q + 1) { Color::White } else { Color::Black } }, q + 2)
        }
    }
}

/// Squares `0..n` of the board section (king squares `bk`, `wk` are skipped
/// and left empty) and the position after them.
pub open spec fn spec_board_squares(d: Seq<u8>, bk: int, wk: int, n: int) -> (Seq<Piece>, int)
    decreases n,
{
    if n <= 0 {
        (Seq::empty(), 15)
    } else {
        let (prev, p) = spec_board_squares(d, bk, wk, n - 1);
        if n - 1 == bk || n - 1 == wk {
            (prev.push(spec_no_piece()), p)
        } else {
            let (pc, np) = spec_board_piece(d, p);
            (prev.push(pc), np)
        }
    }
}

/// Hand Huffman code at bit `p`: (kind index, code length).
pub open spec fn spec_hand_code(d: Seq<u8>, p: int) -> (int, int) {
    if !spec_bit(d, p) {
        (1, 1)
    } else if !spec_bit(d, p + 1) {
        if !spec_bit(d, p + 2) {
            (2, 3)
        } else {
            (3, 3)
        }
    } else if !spec_bit(d, p + 2) {
        (4, 3)
    } else if !spec_bit(d, p + 3) {
        (7, 4)
    } else if !spec_bit(d, p + 4) {
        (5, 5)
    } else {
        (6, 5)
    }
}

/// Hand entry at bit `p`: (kind, owner, piece-box flag, position after it).
pub open spec fn spec_hand_entry(d: Seq<u8>, p: int) -> (PieceType, Color, bool, int) {
    let (idx, len) = spec_hand_code(d, p);
    let pt = spec_piece_type_from_index(idx);
    let q = p + len;
    if pt == PieceType::Gold {
        (pt, if spec_bit(d, q) { Color::White } else { Color::Black }, false, q + 1)
    } else {
        (pt, if spec_bit(d, q + 1) { Color::White } else { Color::Black }, spec_bit(d, q), q + 2)
    }
}

pub proof fn lemma_hand_entry_advances(d: Seq<u8>, p: int)
    ensures
        p < spec_hand_entry(d, p).3 <= p + 8,
{
}

/// Hand counts after adding one piece of kind `pt` (saturating at 255).
pub open spec fn spec_hand_add_one(h: Seq<u8>, pt: PieceType) -> Seq<u8> {
    match pt.spec_hand_index() {
        Some(i) => h.update(i as int, if h[i as int] == 255 { 255u8 } else { (h[i as int] + 1) as u8 }),
        None => h,
    }
}

/// Black and White hands after reading every hand entry from bit `p` until
/// bit 256, starting from hands `bh`, `wh`.
pub open spec fn spec_hands_from(d: Seq<u8>, p: int, bh: Seq<u8>, wh: Seq<u8>) -> (Seq<u8>, Seq<u8>)
    decreases 264 - p,
{
    if p >= 256 {
        (bh, wh)
    } else {
        proof {
            lemma_hand_entry_advances(d, p);
        }
        let (pt, c, piecebox, np) = spec_hand_entry(d, p);
        if piecebox {
            spec_hands_from(d, np, bh, wh)
        } else if c == Color::Black {
            spec_hands_from(d, np, spec_hand_add_one(bh, pt), wh)
        } else {
            spec_hands_from(d, np, bh, spec_hand_add_one(wh, pt))
        }
    }
}

/// Seven zero counts.
pub open spec fn spec_empty_hand() -> Seq<u8> {
    Seq::new(7, |i: int| 0u8)
}

/// Number of pieces in a hand of seven slot counts.
pub open spec fn spec_hand_total(h: Seq<u8>) -> int {
    h[0] + h[1] + h[2] + h[3] + h[4] + h[5] + h[6]
}

proof fn lemma_hand_add_one_total(h: Seq<u8>, pt: PieceType)
    requires
        h.len() == 7,
    ensures
        spec_hand_add_one(h, pt).len() == 7,
        spec_hand_total(spec_hand_add_one(h, pt)) <= spec_hand_total(h) + 1,
{
}

/// Every hand entry read from bit `p` adds at most one piece and takes at
/// least two bits, so the entries read until bit 256 add at most
/// `(257 - p) / 2` pieces.
proof fn lemma_hands_from_total(d: Seq<u8>, p: int, bh: Seq<u8>, wh: Seq<u8>)
    requires
        bh.len() == 7,
        wh.len() == 7,
        0 <= p,
    ensures
        spec_hands_from(d, p, bh, wh).0.len() == 7,
        spec_hands_from(d, p, bh, wh).1.len() == 7,
        spec_hand_total(spec_hands_from(d, p, bh, wh).0) + spec_hand_total(spec_hands_from(d, p, bh, wh).1)
            <= spec_hand_total(bh) + spec_hand_total(wh) + if p < 256 {
            (257 - p) / 2
        } else {
            0
        },
    decreases 264 - p,
{
    if p < 256 {
        lemma_hand_entry_advances(d, p);
        let (pt, c, piecebox, np) = spec_hand_entry(d, p);
        assert(np >= p + 2);
        if piecebox {
            lemma_hands_from_total(d, np, bh, wh);
        } else if c == Color::Black {
            lemma_hand_add_one_total(bh, pt);
            lemma_hands_from_total(d, np, spec_hand_add_one(bh, pt), wh);
        } else {
            lemma_hand_add_one_total(wh, pt);
            lemma_hands_from_total(d, np, bh, spec_hand_add_one(wh, pt));
        }
    }
}

/// A decoded record holds at most 121 pieces in hand, both hands together:
/// every hand entry takes at least two of the bits after the first 15.
pub proof fn lemma_decoded_hands_small(d: Seq<u8>)
    ensures
        spec_decode(d).black_hand.len() == 7,
        spec_decode(d).white_hand.len() == 7,
        spec_hand_total(spec_decode(d).black_hand) + spec_hand_total(spec_decode(d).white_hand) <= 121,
{
    let bk = spec_bits(d, 1, 7);
    let wk = spec_bits(d, 8, 7);
    lemma_board_squares_progress(d, bk as int, wk as int, 81);
    let p = spec_board_squares(d, bk as int, wk as int, 81).1;
    lemma_hands_from_total(d, p, spec_empty_hand(), spec_empty_hand());
}

/// The position packed in the first 32 bytes of `d`.
pub open spec fn spec_decode(d: Seq<u8>) -> BoardView {
    let bk = spec_bits(d, 1, 7);
    let wk = spec_bits(d, 8, 7);
    let (squares, p) = spec_board_squares(d, bk as int, wk as int, 81);
    let with_bk = if bk < 81 {
        squares.update(bk as int, Piece { piece_type: PieceType::King, color: Color::Black })
    } else {
        squares
    };
    let with_kings = if wk < 81 {
        with_bk.update(wk as int, Piece { piece_type: PieceType::King, color: Color::White })
    } else {
        with_bk
    };
    let (bh, wh) = spec_hands_from(d, p, spec_empty_hand(), spec_empty_hand());
    BoardView {
        board: with_kings,
        side_to_move: if spec_bit(d, 0) { Color::White } else { Color::Black },
        black_king_sq: Square(bk as u8),
        white_king_sq: Square(wk as u8),
        black_hand: bh,
        white_hand: wh,
    }
}

pub proof fn lemma_board_squares_progress(d: Seq<u8>, bk: int, wk: int, n: int)
    requires
        0 <= n,
    ensures
        spec_board_squares(d, bk, wk, n).0.len() == n,
        15 <= spec_board_squares(d, bk, wk, n).1 <= 15 + 8 * n,
    decreases n,
{
    if n > 0 {
        lemma_board_squares_progress(d, bk, wk, n - 1);
    }
}

/// Reads a board Huffman code: (kind index, length).
pub fn read_board_code(r: &mut BitReader) -> (res: (usize, usize))
    requires
        old(r).cursor + 8 < usize::MAX,
    ensures
        res.0 as int == spec_board_code(old(r).data@, old(r).cursor as int).0,
        res.1 as int == spec_board_code(old(r).data@, old(r).cursor as int).1,
        final(r).cursor == old(r).cursor + res.1,
        final(r).data@ == old(r).data@,
{
    if !r.read_bit() {
        (0, 1)
    } else if !r.read_bit() {
        (1, 2)
    } else if !r.read_bit() {
        if !r.read_bit() {
            (2, 4)
        } else {
            (3, 4)
        }
    } else if !r.read_bit() {
        (4, 4)
    } else if !r.read_bit() {
        (7, 5)
    } else if !r.read_bit() {
        (5, 6)
    } else {
        (6, 6)
    }
}

/// Reads a hand Huffman code: (kind index, length).
pub fn read_hand_code(r: &mut BitReader) -> (res: (usize, usize))
    requires
        old(r).cursor + 8 < usize::MAX,
    ensures
        res.0 as int == spec_hand_code(old(r).data@, old(r).cursor as int).0,
        res.1 as int == spec_hand_code(old(r).data@, old(r).cursor as int).1,
        final(r).cursor == old(r).cursor + res.1,
        final(r).data@ == old(r).data@,
{
    if !r.read_bit() {
        (1, 1)
    } else if !r.read_bit() {
        if !r.read_bit() {
            (2, 3)
        } else {
            (3, 3)
        }
    } else if !r.read_bit() {
        (4, 3)
    } else if !r.read_bit() {
        (7, 4)
    } else if !r.read_bit() {
        (5, 5)
    } else {
        (6, 5)
    }
}

/// Reads one board piece (Huffman code, promotion bit, colour bit).
pub fn read_board_piece(r: &mut BitReader) -> (res: Piece)
    requires
        old(r).cursor + 16 < usize::MAX,
    ensures
        res == spec_board_piece(old(r).data@, old(r).cursor as int).0,
        final(r).cursor == spec_board_piece(old(r).data@, old(r).cursor as int).1,
        final(r).data@ == old(r).data@,
        final(r).cursor <= old(r).cursor + 8,
{
    let (idx, _len) = read_board_code(r);
    if idx == 0 {
        Piece::none()
    } else {
        let base = piece_type_from_index(idx);
        if base == PieceType::Gold {
            let white = r.read_bit();
            Piece::new(if white { Color::White } else { Color::Black }, base)
        } else {
            let promoted = r.read_bit();
            let white = r.read_bit();
            let pt = if promoted { base.promote() } else { base };
            Piece::new(if white { Color::White } else { Color::Black }, pt)
        }
    }
}

/// Reads one hand entry: (kind, owner, piece-box flag).
pub fn read_hand_entry(r: &mut BitReader) -> (res: (PieceType, Color, bool))
    requires
        old(r).cursor + 16 < usize::MAX,
    ensures
        res.0 == spec_hand_entry(old(r).data@, old(r).cursor as int).0,
        res.1 == spec_hand_entry(old(r).data@, old(r).cursor as int).1,
        res.2 == spec_hand_entry(old(r).data@, old(r).cursor as int).2,
        final(r).cursor == spec_hand_entry(old(r).data@, old(r).cursor as int).3,
        final(r).data@ == old(r).data@,
        old(r).cursor < final(r).cursor <= old(r).cursor + 8,
{
    let (idx, _len) = read_hand_code(r);
    let pt = piece_type_from_index(idx);
    if pt == PieceType::Gold {
        let white = r.read_bit();
        (pt, if white { Color::White } else { Color::Black }, false)
    } else {
        let piecebox = r.read_bit();
        let white = r.read_bit();
        (pt, if white { Color::White } else { Color::Black }, piecebox)
    }
}

/// A 40-byte training record.
#[derive(Clone, Copy, Debug, PartialEq, Eq)]
pub struct PackedSfenValue {
    pub data: [u8; 40],
}

/// Little-endian `u16` of two bytes.
pub open spec fn spec_le_u16(lo: u8, hi: u8) -> u16 {
    (lo + 256 * hi) as u16
}

/// `u16` bit pattern read as `i16`.
pub open spec fn spec_u16_as_i16(v: u16) -> i16 {
    if v >= 32768 {
        (v - 65536) as i16
    } else {
        v as i16
    }
}

/// `u8` bit pattern read as `i8`.
pub open spec fn spec_u8_as_i8(v: u8) -> i8 {
    if v >= 128 {
        (v - 256) as i8
    } else {
        v as i8
    }
}

pub fn le_u16(lo: u8, hi: u8) -> (r: u16)
    ensures
        r == spec_le_u16(lo, hi),
{
    lo as u16 + (hi as u16) * 256
}

pub fn u16_as_i16(v: u16) -> (r: i16)
    ensures
        r == spec_u16_as_i16(v),
{
    if v >= 32768 {
        let w: u16 = v - 32768;
        (w as i16) - 32767 - 1
    } else {
        v as i16
    }
}

pub fn u8_as_i8(v: u8) -> (r: i8)
    ensures
        r == spec_u8_as_i8(v),
{
    if v >= 128 {
        let w: u8 = v - 128;
        (w as i8) - 127 - 1
    } else {
        v as i8
    }
}

impl Default for PackedSfenValue {
    /// The all-zero record.
    fn default() -> (r: PackedSfenValue)
        ensures
            forall|i: int| 0 <= i < 40 ==> r.data@[i] == 0,
    {
        PackedSfenValue { data: [0u8; 40] }
    }
}

impl PackedSfenValue {
    pub fn from_raw(data: [u8; 40]) -> (r: PackedSfenValue)
        ensures
            r.data == data,
    {
        PackedSfenValue { data }
    }

    pub fn as_bytes(&self) -> (r: &[u8; 40])
        ensures
            r@ == self.data@,
    {
        &self.data
    }

    /// Teacher score.
    pub fn score(&self) -> (r: i16)
        ensures
            r == spec_u16_as_i16(spec_le_u16(self.data@[32], self.data@[33])),
    {
        u16_as_i16(le_u16(self.data[32], self.data[33]))
    }

    /// Recorded move.
    pub fn move16(&self) -> (r: u16)
        ensures
            r == spec_le_u16(self.data@[34], self.data@[35]),
    {
        le_u16(self.data[34], self.data[35])
    }

    /// Game ply of the position.
    pub fn game_ply(&self) -> (r: u16)
        ensures
            r == spec_le_u16(self.data@[36], self.data@[37]),
    {
        le_u16(self.data[36], self.data[37])
    }

    /// Game result for the side to move (1 win, 0 draw, -1 loss).
    pub fn game_result(&self) -> (r: i8)
        ensures
            r == spec_u8_as_i8(self.data@[38]),
    {
        u8_as_i8(self.data[38])
    }

    /// Decodes the packed position.
    pub fn decode(&self) -> (r: ShogiBoard)
        ensures
            r@ == spec_decode(self.data@),
    {
        ShogiBoard::from_packed_sfen(self)
    }
}

impl ShogiBoard {
    /// Decodes the packed position of a training record.
    pub fn from_packed_sfen(pos: &PackedSfenValue) -> (res: ShogiBoard)
        ensures
            res@ == spec_decode(pos.data@),
    {
        let ghost d = pos.data@;
        let mut r = BitReader::new(pos.data.as_slice());
        assert(r.data@ == d);
        let white_to_move = r.read_bit();
        let bk = r.read_bits(7);
        let wk = r.read_bits(7);
        proof {
            lemma_bits_bound(d, 1, 7);
            lemma_bits_bound(d, 8, 7);
            crate::shogi::bits::lemma_pow2_le(7, 8);
            lemma_pow2_8();
        }
        let mut b = ShogiBoard::default();
        let mut sq: usize = 0;
        while sq < 81
            invariant
                sq <= 81,
                r.data@ == d,
                bk == spec_bits(d, 1, 7),
                wk == spec_bits(d, 8, 7),
                bk < 256,
                wk < 256,
                r.cursor == spec_board_squares(d, bk as int, wk as int, sq as int).1,
                r.cursor <= 15 + 8 * sq,
                forall|i: int|
                    0 <= i < sq ==> b.board@[i] == spec_board_squares(d, bk as int, wk as int, sq as int).0[i],
                forall|i: int| sq <= i < 81 ==> b.board@[i] == spec_no_piece(),
            decreases 81 - sq,
        {
            proof {
                lemma_board_squares_progress(d, bk as int, wk as int, sq as int);
            }
            if sq == bk as usize || sq == wk as usize {
            } else {
                let pc = read_board_piece(&mut r);
                b.board[sq] = pc;
            }
            sq = sq + 1;
            proof {
                lemma_board_squares_progress(d, bk as int, wk as int, sq as int);
            }
        }
        proof {
            lemma_board_squares_progress(d, bk as int, wk as int, 81);
        }
        assert(b.board@ =~= spec_board_squares(d, bk as int, wk as int, 81).0);
        if bk < 81 {
            b.board[bk as usize] = Piece::new(Color::Black, PieceType::King);
        }
        if wk < 81 {
            b.board[wk as usize] = Piece::new(Color::White, PieceType::King);
        }
        let ghost start = r.cursor as int;
        let mut bh = Hand::empty();
        let mut wh = Hand::empty();
        assert(bh.counts@ =~= spec_empty_hand());
        assert(wh.counts@ =~= spec_empty_hand());
        while r.cursor < 256
            invariant
                r.data@ == d,
                r.cursor <= 15 + 8 * 81,
                spec_hands_from(d, r.cursor as int, bh.counts@, wh.counts@) == spec_hands_from(
                    d,
                    start,
                    spec_empty_hand(),
                    spec_empty_hand(),
                ),
            decreases 264 - r.cursor,
        {
            let ghost p = r.cursor as int;
            let (pt, c, piecebox) = read_hand_entry(&mut r);
            if piecebox {
            } else if c == Color::Black {
                let ghost before = bh.counts@;
                bh.add(pt, 1);
                assert(bh.counts@ =~= spec_hand_add_one(before, pt));
            } else {
                let ghost before = wh.counts@;
                wh.add(pt, 1);
                assert(wh.counts@ =~= spec_hand_add_one(before, pt));
            }
        }
        b.black_hand = bh;
        b.white_hand = wh;
        b.side_to_move = if white_to_move { Color::White } else { Color::Black };
        b.black_king_sq = Square(bk as u8);
        b.white_king_sq = Square(wk as u8);
        b
    }
}

} // verus!

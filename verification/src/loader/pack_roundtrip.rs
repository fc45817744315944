//! Packing a position and decoding the packed record give the position
//! back: the packed-position writer of the `.pack` expander and the
//! training-record decoder agree bit for bit.

use vstd::prelude::*;
use crate::loader::pack::{
    MiniPositionView, spec_board_bits_upto, spec_is_record_of, spec_find_king, spec_hand_bits_upto, spec_hand_piece_bits,
    spec_pack_content, spec_packed_bit, spec_piece_type_to_index, spec_repeat, spec_square_bits, spec_yo_code,
};
use crate::shogi::bits::{spec_bit, spec_bits, spec_low_bits, spec_pow2};
use crate::shogi::packed_sfen::{
    spec_board_code, spec_board_piece, spec_board_squares, spec_decode, spec_empty_hand, spec_hand_add_one,
    spec_hand_code, spec_hand_entry, spec_hands_from, spec_piece_type_from_index,
};
use crate::shogi::types::{Color, Piece, PieceType, spec_hand_piece_type, spec_no_piece};

verus! {

/// The bits of `d` from bit `p` on are `s`.
pub open spec fn spec_matches_at(d: Seq<u8>, p: int, s: Seq<bool>) -> bool {
    forall|i: int| 0 <= i < s.len() ==> spec_bit(d, p + i) == #[trigger] s[i]
}

/// A piece the board section can hold: an empty square (as
/// [`spec_no_piece`]) or a piece other than a king.
pub open spec fn spec_encodable_square(pc: Piece) -> bool {
    if pc.piece_type == PieceType::NoPiece {
        pc == spec_no_piece()
    } else {
        pc.piece_type != PieceType::King
    }
}

proof fn lemma_code_bits()
    ensures
        spec_low_bits(0x00, 1) == seq![false],
        spec_low_bits(0x01, 2) == seq![true, false],
        spec_low_bits(0x03, 4) == seq![true, true, false, false],
        spec_low_bits(0x0b, 4) == seq![true, true, false, true],
        spec_low_bits(0x07, 4) == seq![true, true, true, false],
        spec_low_bits(0x0f, 5) == seq![true, true, true, true, false],
        spec_low_bits(0x1f, 6) == seq![true, true, true, true, true, false],
        spec_low_bits(0x3f, 6) == seq![true, true, true, true, true, true],
{
    assert((0x00u32 >> 0u32) & 1u32 == 0u32 && (0x01u32 >> 0u32) & 1u32 == 1u32 && (0x01u32 >> 1u32) & 1u32 == 0u32 && (0x03u32 >> 0u32) & 1u32 == 1u32 && (0x03u32 >> 1u32) & 1u32 == 1u32 && (0x03u32 >> 2u32) & 1u32 == 0u32 && (0x03u32 >> 3u32) & 1u32 == 0u32 && (0x0bu32 >> 0u32) & 1u32 == 1u32 && (0x0bu32 >> 1u32) & 1u32 == 1u32 && (0x0bu32 >> 2u32) & 1u32 == 0u32 && (0x0bu32 >> 3u32) & 1u32 == 1u32 && (0x07u32 >> 0u32) & 1u32 == 1u32 && (0x07u32 >> 1u32) & 1u32 == 1u32 && (0x07u32 >> 2u32) & 1u32 == 1u32 && (0x07u32 >> 3u32) & 1u32 == 0u32 && (0x0fu32 >> 0u32) & 1u32 == 1u32 && (0x0fu32 >> 1u32) & 1u32 == 1u32 && (0x0fu32 >> 2u32) & 1u32 == 1u32 && (0x0fu32 >> 3u32) & 1u32 == 1u32 && (0x0fu32 >> 4u32) & 1u32 == 0u32 && (0x1fu32 >> 0u32) & 1u32 == 1u32 && (0x1fu32 >> 1u32) & 1u32 == 1u32 && (0x1fu32 >> 2u32) & 1u32 == 1u32 && (0x1fu32 >> 3u32) & 1u32 == 1u32 && (0x1fu32 >> 4u32) & 1u32 == 1u32 && (0x1fu32 >> 5u32) & 1u32 == 0u32 && (0x3fu32 >> 0u32) & 1u32 == 1u32 && (0x3fu32 >> 1u32) & 1u32 == 1u32 && (0x3fu32 >> 2u32) & 1u32 == 1u32 && (0x3fu32 >> 3u32) & 1u32 == 1u32 && (0x3fu32 >> 4u32) & 1u32 == 1u32 && (0x3fu32 >> 5u32) & 1u32 == 1u32) by (bit_vector);
    assert(spec_low_bits(0x00, 1) =~= seq![false]);
    assert(spec_low_bits(0x01, 2) =~= seq![true, false]);
    assert(spec_low_bits(0x03, 4) =~= seq![true, true, false, false]);
    assert(spec_low_bits(0x0b, 4) =~= seq![true, true, false, true]);
    assert(spec_low_bits(0x07, 4) =~= seq![true, true, true, false]);
    assert(spec_low_bits(0x0f, 5) =~= seq![true, true, true, true, false]);
    assert(spec_low_bits(0x1f, 6) =~= seq![true, true, true, true, true, false]);
    assert(spec_low_bits(0x3f, 6) =~= seq![true, true, true, true, true, true]);
}

proof fn lemma_hand_code_bits()
    ensures
        spec_low_bits(0x00u32 >> 1u32, 0) == Seq::<bool>::empty(),
        spec_low_bits(0x01u32 >> 1u32, 1) == seq![false],
        spec_low_bits(0x03u32 >> 1u32, 3) == seq![true, false, false],
        spec_low_bits(0x0bu32 >> 1u32, 3) == seq![true, false, true],
        spec_low_bits(0x07u32 >> 1u32, 3) == seq![true, true, false],
        spec_low_bits(0x0fu32 >> 1u32, 4) == seq![true, true, true, false],
        spec_low_bits(0x1fu32 >> 1u32, 5) == seq![true, true, true, true, false],
        spec_low_bits(0x3fu32 >> 1u32, 5) == seq![true, true, true, true, true],
{
    assert(0x00u32 >> 1u32 == 0x00u32 && 0x01u32 >> 1u32 == 0x00u32 && (0x00u32 >> 0u32) & 1u32 == 0u32 && 0x03u32 >> 1u32 == 0x01u32 && (0x01u32 >> 0u32) & 1u32 == 1u32 && (0x01u32 >> 1u32) & 1u32 == 0u32 && (0x01u32 >> 2u32) & 1u32 == 0u32 && 0x0bu32 >> 1u32 == 0x05u32 && (0x05u32 >> 0u32) & 1u32 == 1u32 && (0x05u32 >> 1u32) & 1u32 == 0u32 && (0x05u32 >> 2u32) & 1u32 == 1u32 && 0x07u32 >> 1u32 == 0x03u32 && (0x03u32 >> 0u32) & 1u32 == 1u32 && (0x03u32 >> 1u32) & 1u32 == 1u32 && (0x03u32 >> 2u32) & 1u32 == 0u32 && 0x0fu32 >> 1u32 == 0x07u32 && (0x07u32 >> 0u32) & 1u32 == 1u32 && (0x07u32 >> 1u32) & 1u32 == 1u32 && (0x07u32 >> 2u32) & 1u32 == 1u32 && (0x07u32 >> 3u32) & 1u32 == 0u32 && 0x1fu32 >> 1u32 == 0x0fu32 && (0x0fu32 >> 0u32) & 1u32 == 1u32 && (0x0fu32 >> 1u32) & 1u32 == 1u32 && (0x0fu32 >> 2u32) & 1u32 == 1u32 && (0x0fu32 >> 3u32) & 1u32 == 1u32 && (0x0fu32 >> 4u32) & 1u32 == 0u32 && 0x3fu32 >> 1u32 == 0x1fu32 && (0x1fu32 >> 0u32) & 1u32 == 1u32 && (0x1fu32 >> 1u32) & 1u32 == 1u32 && (0x1fu32 >> 2u32) & 1u32 == 1u32 && (0x1fu32 >> 3u32) & 1u32 == 1u32 && (0x1fu32 >> 4u32) & 1u32 == 1u32) by (bit_vector);
    assert(spec_low_bits(0x00, 0) =~= Seq::<bool>::empty());
    assert(spec_low_bits(0x00, 1) =~= seq![false]);
    assert(spec_low_bits(0x01, 3) =~= seq![true, false, false]);
    assert(spec_low_bits(0x05, 3) =~= seq![true, false, true]);
    assert(spec_low_bits(0x03, 3) =~= seq![true, true, false]);
    assert(spec_low_bits(0x07, 4) =~= seq![true, true, true, false]);
    assert(spec_low_bits(0x0f, 5) =~= seq![true, true, true, true, false]);
    assert(spec_low_bits(0x1f, 5) =~= seq![true, true, true, true, true]);
}

/// A square's bits decode to the square.
proof fn lemma_square_decodes(d: Seq<u8>, p: int, pc: Piece)
    requires
        spec_encodable_square(pc),
        spec_matches_at(d, p, spec_square_bits(pc)),
    ensures
        spec_board_piece(d, p) == (pc, p + spec_square_bits(pc).len()),
{
    lemma_code_bits();
    let s = spec_square_bits(pc);
    if pc.piece_type == PieceType::NoPiece {
        assert(spec_bit(d, p) == s[0]);
    } else {
        let (code, n) = spec_yo_code(spec_piece_type_to_index(pc.piece_type));
        assert(spec_bit(d, p) == s[0]);
        assert(spec_bit(d, p + 1) == s[1]);
        if n > 2 {
            assert(spec_bit(d, p + 2) == s[2]);
            assert(spec_bit(d, p + 3) == s[3]);
        }
        if n > 4 {
            assert(spec_bit(d, p + 4) == s[4]);
        }
        if n > 5 {
            assert(spec_bit(d, p + 5) == s[5]);
        }
        assert(spec_bit(d, p + n as int) == s[n as int]);
        if pc.piece_type.spec_unpromote() != PieceType::Gold {
            assert(spec_bit(d, p + n as int + 1) == s[n as int + 1]);
        }
        match pc.piece_type {
            PieceType::Pawn => {},
            PieceType::Lance => {},
            PieceType::Knight => {},
            PieceType::Silver => {},
            PieceType::Gold => {},
            PieceType::Bishop => {},
            PieceType::Rook => {},
            PieceType::ProPawn => {},
            PieceType::ProLance => {},
            PieceType::ProKnight => {},
            PieceType::ProSilver => {},
            PieceType::Horse => {},
            PieceType::Dragon => {},
            _ => {},
        }
    }
}

/// A hand piece's bits decode to the piece, held by its owner.
proof fn lemma_hand_piece_decodes(d: Seq<u8>, p: int, j: int, c: Color)
    requires
        0 <= j < 7,
        spec_matches_at(d, p, spec_hand_piece_bits(spec_hand_piece_type(j), c)),
    ensures
        spec_hand_entry(d, p) == (spec_hand_piece_type(j), c, false, p + spec_hand_piece_bits(
            spec_hand_piece_type(j),
            c,
        ).len()),
        spec_hand_piece_bits(spec_hand_piece_type(j), c).len() <= 8,
        spec_hand_piece_type(j).spec_hand_index() == Some(j as usize),
{
    lemma_hand_code_bits();
    let pt = spec_hand_piece_type(j);
    let s = spec_hand_piece_bits(pt, c);
    let (code, n) = spec_yo_code(spec_piece_type_to_index(pt));
    assert(spec_bit(d, p) == s[0]);
    if n > 2 {
        assert(spec_bit(d, p + 1) == s[1]);
        assert(spec_bit(d, p + 2) == s[2]);
    }
    if n > 4 {
        assert(spec_bit(d, p + 3) == s[3]);
    }
    if n > 5 {
        assert(spec_bit(d, p + 4) == s[4]);
    }
    assert(spec_bit(d, p + n - 1) == s[n - 1]);
    if pt != PieceType::Gold {
        assert(spec_bit(d, p + n) == s[n as int]);
    }
    if j == 0 {
    } else if j == 1 {
    } else if j == 2 {
    } else if j == 3 {
    } else if j == 4 {
    } else if j == 5 {
    } else {
    }
}

/// Matching a concatenation is matching both parts in turn.
proof fn lemma_matches_split(d: Seq<u8>, p: int, a: Seq<bool>, b: Seq<bool>)
    requires
        spec_matches_at(d, p, a + b),
    ensures
        spec_matches_at(d, p, a),
        spec_matches_at(d, p + a.len(), b),
{
    assert forall|i: int| 0 <= i < a.len() implies spec_bit(d, p + i) == #[trigger] a[i] by {
        assert((a + b)[i] == a[i]);
    }
    assert forall|i: int| 0 <= i < b.len() implies spec_bit(d, p + a.len() + i) == #[trigger] b[i] by {
        assert((a + b)[a.len() + i] == b[i]);
    }
}

proof fn lemma_board_bits_prefix(d: Seq<u8>, board: Seq<Piece>, bk: int, wk: int, n: int, m: int)
    requires
        0 <= n <= m,
        spec_matches_at(d, 15, spec_board_bits_upto(board, bk, wk, m)),
    ensures
        spec_matches_at(d, 15, spec_board_bits_upto(board, bk, wk, n)),
    decreases m - n,
{
    if n < m {
        let x = if m - 1 == bk || m - 1 == wk {
            Seq::<bool>::empty()
        } else {
            spec_square_bits(board[m - 1])
        };
        assert(spec_board_bits_upto(board, bk, wk, m) == spec_board_bits_upto(board, bk, wk, m - 1) + x);
        lemma_matches_split(d, 15, spec_board_bits_upto(board, bk, wk, m - 1), x);
        lemma_board_bits_prefix(d, board, bk, wk, n, m - 1);
    }
}

/// The board section's bits decode square by square: the king squares are
/// skipped and left empty, every other square is read back.
proof fn lemma_board_squares_decode(d: Seq<u8>, board: Seq<Piece>, bk: int, wk: int, n: int)
    requires
        0 <= n <= 81,
        board.len() == 81,
        forall|i: int| 0 <= i < 81 && i != bk && i != wk ==> spec_encodable_square(#[trigger] board[i]),
        spec_matches_at(d, 15, spec_board_bits_upto(board, bk, wk, 81)),
    ensures
        spec_board_squares(d, bk, wk, n) == (Seq::new(
            n as nat,
            |i: int|
                if i == bk || i == wk {
                    spec_no_piece()
                } else {
                    board[i]
                },
        ), 15 + spec_board_bits_upto(board, bk, wk, n).len() as int),
    decreases n,
{
    let expect = |k: int|
        Seq::new(
            k as nat,
            |i: int|
                if i == bk || i == wk {
                    spec_no_piece()
                } else {
                    board[i]
                },
        );
    if n == 0 {
        assert(expect(0) =~= Seq::<Piece>::empty());
    } else {
        lemma_board_squares_decode(d, board, bk, wk, n - 1);
        assert(expect(n) =~= expect(n - 1).push(
            if n - 1 == bk || n - 1 == wk {
                spec_no_piece()
            } else {
                board[n - 1]
            },
        ));
        if n - 1 != bk && n - 1 != wk {
            lemma_board_bits_prefix(d, board, bk, wk, n, 81);
            lemma_matches_split(
                d,
                15,
                spec_board_bits_upto(board, bk, wk, n - 1),
                spec_square_bits(board[n - 1]),
            );
            lemma_square_decodes(d, 15 + spec_board_bits_upto(board, bk, wk, n - 1).len() as int, board[n - 1]);
        }
    }
}

/// Seven bits written from a value below 128 read back as the value.
proof fn lemma_seven_bits_decode(d: Seq<u8>, p: int, v: u32)
    requires
        v < 128,
        spec_matches_at(d, p, spec_low_bits(v, 7)),
    ensures
        spec_bits(d, p, 7) == v,
{
    let b = spec_low_bits(v, 7);
    assert(v == ((v >> 0u32) & 1u32) + 2 * ((v >> 1u32) & 1u32) + 4 * ((v >> 2u32) & 1u32) + 8 * ((v >> 3u32)
        & 1u32) + 16 * ((v >> 4u32) & 1u32) + 32 * ((v >> 5u32) & 1u32) + 64 * ((v >> 6u32) & 1u32)) by (bit_vector)
        requires
            v < 128,
    ;
    assert(forall|x: u32| #![auto] (x & 1u32 == 1u32) || (x & 1u32 == 0u32)) by (bit_vector);
    assert(spec_bit(d, p + 0) == b[0]);
    assert(spec_bit(d, p + 1) == b[1]);
    assert(spec_bit(d, p + 2) == b[2]);
    assert(spec_bit(d, p + 3) == b[3]);
    assert(spec_bit(d, p + 4) == b[4]);
    assert(spec_bit(d, p + 5) == b[5]);
    assert(spec_bit(d, p + 6) == b[6]);
    reveal_with_fuel(spec_bits, 8);
    reveal_with_fuel(spec_pow2, 7);
}

/// `s` repeated `k` times is `k` times as long.
proof fn lemma_repeat_len(s: Seq<bool>, k: int)
    requires
        0 <= k,
    ensures
        spec_repeat(s, k).len() == k * s.len(),
    decreases k,
{
    if k > 0 {
        lemma_repeat_len(s, k - 1);
        assert(spec_repeat(s, k) == spec_repeat(s, k - 1) + s);
        assert(k * s.len() == (k - 1) * s.len() + s.len()) by (nonlinear_arith);
    } else {
        assert(k * s.len() == 0) by (nonlinear_arith)
            requires
                k == 0,
        ;
    }
}

/// Matching `s` repeated `k` times matches the `j`-th copy at its offset.
proof fn lemma_repeat_matches(d: Seq<u8>, q: int, s: Seq<bool>, k: int, j: int)
    requires
        0 <= j < k,
        spec_matches_at(d, q, spec_repeat(s, k)),
    ensures
        spec_matches_at(d, q + j * s.len(), s),
    decreases k,
{
    assert(spec_repeat(s, k) == spec_repeat(s, k - 1) + s);
    lemma_matches_split(d, q, spec_repeat(s, k - 1), s);
    lemma_repeat_len(s, k - 1);
    if j < k - 1 {
        lemma_repeat_matches(d, q, s, k - 1, j);
    }
}

/// Owner of hand group `g`: Black's seven kinds, then White's.
pub open spec fn spec_group_color(g: int) -> Color {
    if g < 7 {
        Color::Black
    } else {
        Color::White
    }
}

/// Bits of one piece of hand group `g`.
pub open spec fn spec_group_piece_bits(g: int) -> Seq<bool> {
    spec_hand_piece_bits(spec_hand_piece_type(g % 7), spec_group_color(g))
}

/// Hands after the first `g` groups of `pv` and `j` pieces of group `g`.
pub open spec fn spec_hands_after(pv: MiniPositionView, g: int, j: int) -> (Seq<u8>, Seq<u8>) {
    if g < 7 {
        (
            Seq::new(7, |i: int| if i < g { pv.black_hand[i] } else if i == g { j as u8 } else { 0u8 }),
            spec_empty_hand(),
        )
    } else {
        (
            pv.black_hand,
            Seq::new(7, |i: int| if i < g - 7 { pv.white_hand[i] } else if i == g - 7 { j as u8 } else { 0u8 }),
        )
    }
}

proof fn lemma_hand_bits_prefix(d: Seq<u8>, p0: int, pv: MiniPositionView, n: int, m: int)
    requires
        0 <= n <= m,
        spec_matches_at(d, p0, spec_hand_bits_upto(pv, m)),
    ensures
        spec_matches_at(d, p0, spec_hand_bits_upto(pv, n)),
    decreases m - n,
{
    if n < m {
        let c = if (m - 1) / 7 == 0 {
            Color::Black
        } else {
            Color::White
        };
        let x = spec_repeat(spec_hand_piece_bits(spec_hand_piece_type((m - 1) % 7), c), pv.hand(c)[(m - 1) % 7] as int);
        assert(spec_hand_bits_upto(pv, m) == spec_hand_bits_upto(pv, m - 1) + x);
        lemma_matches_split(d, p0, spec_hand_bits_upto(pv, m - 1), x);
        lemma_hand_bits_prefix(d, p0, pv, n, m - 1);
    }
}

/// Reading the pieces of hand group `g` from its `j`-th one adds them to
/// the hands.
#[verifier::spinoff_prover]
#[verifier::rlimit(100)]
#[verifier::spinoff_prover]
proof fn lemma_hand_group_decodes(d: Seq<u8>, p0: int, pv: MiniPositionView, g: int, j: int)
    requires
        0 <= g < 14,
        pv.black_hand.len() == 7,
        pv.white_hand.len() == 7,
        0 <= j <= pv.hand(spec_group_color(g))[g % 7],
        spec_matches_at(d, p0, spec_hand_bits_upto(pv, 14)),
        p0 + spec_hand_bits_upto(pv, 14).len() <= 256,
    ensures
        ({
            let q = p0 + spec_hand_bits_upto(pv, g).len() + j * spec_group_piece_bits(g).len();
            let k = pv.hand(spec_group_color(g))[g % 7] as int;
            let e = p0 + spec_hand_bits_upto(pv, g).len() + k * spec_group_piece_bits(g).len();
            &&& spec_hands_from(d, q, spec_hands_after(pv, g, j).0, spec_hands_after(pv, g, j).1) == spec_hands_from(
                d,
                e,
                spec_hands_after(pv, g, k).0,
                spec_hands_after(pv, g, k).1,
            )
            &&& e == p0 + spec_hand_bits_upto(pv, g + 1).len()
        }),
    decreases pv.hand(spec_group_color(g))[g % 7] - j,
{
    let c = spec_group_color(g);
    let k = pv.hand(c)[g % 7] as int;
    let s = spec_group_piece_bits(g);
    let start = p0 + spec_hand_bits_upto(pv, g).len();
    assert(spec_hand_bits_upto(pv, g + 1) == spec_hand_bits_upto(pv, g) + spec_repeat(s, k));
    lemma_repeat_len(s, k);
    lemma_hand_bits_prefix(d, p0, pv, g + 1, 14);
    lemma_hand_bits_prefix(d, p0, pv, g + 1, 14);
    lemma_matches_split(d, p0, spec_hand_bits_upto(pv, g), spec_repeat(s, k));
    lemma_hand_bits_len_monotone(pv, g + 1, 14);
    if j < k {
        let q = start + j * s.len();
        lemma_repeat_matches(d, start, s, k, j);
        lemma_hand_piece_decodes(d, q, g % 7, c);
        assert(j * s.len() + s.len() <= k * s.len()) by (nonlinear_arith)
            requires
                j < k,
        ;
        assert(q + s.len() <= 256);
        assert((j + 1) * s.len() == j * s.len() + s.len()) by (nonlinear_arith);
        let acc = spec_hands_after(pv, g, j);
        let nxt = spec_hands_after(pv, g, j + 1);
        if c == Color::Black {
            assert(spec_hand_add_one(acc.0, spec_hand_piece_type(g % 7)) =~= nxt.0);
        } else {
            assert(spec_hand_add_one(acc.1, spec_hand_piece_type(g % 7)) =~= nxt.1);
        }
        lemma_hand_group_decodes(d, p0, pv, g, j + 1);
    }
}

proof fn lemma_hand_bits_len_monotone(pv: MiniPositionView, n: int, m: int)
    requires
        0 <= n <= m,
    ensures
        spec_hand_bits_upto(pv, n).len() <= spec_hand_bits_upto(pv, m).len(),
    decreases m - n,
{
    if n < m {
        lemma_hand_bits_len_monotone(pv, n, m - 1);
    }
}

/// Reading the hand section from group `g` on gives the full hands.
proof fn lemma_hand_groups_decode(d: Seq<u8>, p0: int, pv: MiniPositionView, g: int)
    requires
        0 <= g <= 14,
        pv.black_hand.len() == 7,
        pv.white_hand.len() == 7,
        spec_matches_at(d, p0, spec_hand_bits_upto(pv, 14)),
        p0 + spec_hand_bits_upto(pv, 14).len() <= 256,
    ensures
        spec_hands_from(
            d,
            p0 + spec_hand_bits_upto(pv, g).len(),
            spec_hands_after(pv, g, 0).0,
            spec_hands_after(pv, g, 0).1,
        ) == spec_hands_from(d, p0 + spec_hand_bits_upto(pv, 14).len(), pv.black_hand, pv.white_hand),
    decreases 14 - g,
{
    if g == 14 {
        assert(spec_hands_after(pv, 14, 0).1 =~= pv.white_hand);
    } else {
        lemma_hand_group_decodes(d, p0, pv, g, 0);
        let k = pv.hand(spec_group_color(g))[g % 7] as int;
        assert(0 * spec_group_piece_bits(g).len() == 0);
        if g == 6 {
            assert(spec_hands_after(pv, 6, k).0 =~= spec_hands_after(pv, 7, 0).0);
            assert(spec_hands_after(pv, 6, k).1 =~= spec_hands_after(pv, 7, 0).1);
        } else {
            assert(spec_hands_after(pv, g, k).0 =~= spec_hands_after(pv, g + 1, 0).0);
            assert(spec_hands_after(pv, g, k).1 =~= spec_hands_after(pv, g + 1, 0).1);
        }
        lemma_hand_groups_decode(d, p0, pv, g + 1);
    }
}

/// The padding after the content reads as piece-box pawns, which no hand
/// receives; `(256 - l) % 3 != 1` keeps the last one whole inside the
/// 256 bits.
proof fn lemma_padding_decodes(d: Seq<u8>, l: int, q: int, bh: Seq<u8>, wh: Seq<u8>)
    requires
        0 <= l <= q,
        (q - l) % 3 == 0,
        l <= 256,
        (256 - l) % 3 != 1,
        forall|i: int| l <= i < 256 ==> spec_bit(d, i) == ((i - l) % 3 == 1),
    ensures
        spec_hands_from(d, q, bh, wh) == (bh, wh),
    decreases 258 - q,
{
    if q < 256 {
        assert(spec_bit(d, q) == false);
        assert(q + 1 < 256);
        assert(spec_bit(d, q + 1) == true);
        assert(spec_hand_entry(d, q).2);
        assert(spec_hand_entry(d, q).3 == q + 3);
        lemma_padding_decodes(d, l, q + 3, bh, wh);
    }
}

/// The king found by [`spec_find_king`] stands on its square.
proof fn lemma_find_king_found(board: Seq<Piece>, c: Color, n: int)
    requires
        0 <= n,
        spec_find_king(board, c, n) < 81,
    ensures
        n <= spec_find_king(board, c, n),
        board[spec_find_king(board, c, n)] == (Piece { piece_type: PieceType::King, color: c }),
    decreases 81 - n,
{
    if n < 81 && board[n] != (Piece { piece_type: PieceType::King, color: c }) {
        lemma_find_king_found(board, c, n + 1);
    }
}

/// A position whose packed form decodes back to it: both kings on the
/// board, every other square empty (as [`spec_no_piece`]) or holding
/// another piece, and a packed content of at most 256 bits whose padding
/// ends on a whole piece-box pawn (`(256 - length) % 3 != 1`).
pub open spec fn spec_packable(pv: MiniPositionView) -> bool {
    let bk = spec_find_king(pv.board, Color::Black, 0);
    let wk = spec_find_king(pv.board, Color::White, 0);
    &&& pv.board.len() == 81
    &&& pv.black_hand.len() == 7
    &&& pv.white_hand.len() == 7
    &&& bk < 81
    &&& wk < 81
    &&& forall|i: int| 0 <= i < 81 && i != bk && i != wk ==> spec_encodable_square(#[trigger] pv.board[i])
    &&& spec_pack_content(pv).len() <= 256
    &&& (256 - spec_pack_content(pv).len()) % 3 != 1
}

/// The position that decoding the packed form of `pv` gives: `pv` itself,
/// with its kings' squares.
pub open spec fn spec_position_of(pv: MiniPositionView) -> crate::shogi::board::BoardView {
    crate::shogi::board::BoardView {
        board: pv.board,
        side_to_move: pv.side_to_move,
        black_king_sq: crate::shogi::types::Square(spec_find_king(pv.board, Color::Black, 0) as u8),
        white_king_sq: crate::shogi::types::Square(spec_find_king(pv.board, Color::White, 0) as u8),
        black_hand: pv.black_hand,
        white_hand: pv.white_hand,
    }
}

/// Packing then decoding gives the position back: when the first 256 bits
/// of `d` are the packed form of a packable position `pv`, the decoder
/// reads `pv` (its board with both kings, side to move, king squares and
/// hands) from `d`.
pub proof fn lemma_packed_position_decodes(pv: MiniPositionView, d: Seq<u8>)
    requires
        spec_packable(pv),
        forall|i: int| 0 <= i < 256 ==> spec_bit(d, i) == #[trigger] spec_packed_bit(pv, i),
    ensures
        spec_decode(d) == spec_position_of(pv),
{
    let bk = spec_find_king(pv.board, Color::Black, 0);
    let wk = spec_find_king(pv.board, Color::White, 0);
    lemma_find_king_found(pv.board, Color::Black, 0);
    lemma_find_king_found(pv.board, Color::White, 0);
    let c = spec_pack_content(pv);
    let head = seq![pv.side_to_move == Color::White];
    let kb = spec_low_bits(bk as u32, 7);
    let kw = spec_low_bits(wk as u32, 7);
    let bb = spec_board_bits_upto(pv.board, bk, wk, 81);
    let hb = spec_hand_bits_upto(pv, 14);
    assert(c == head + kb + kw + bb + hb);
    assert(spec_matches_at(d, 0, c)) by {
        assert forall|i: int| 0 <= i < c.len() implies spec_bit(d, 0 + i) == #[trigger] c[i] by {
            assert(spec_packed_bit(pv, i) == c[i]);
        }
    }
    lemma_matches_split(d, 0, head + kb + kw + bb, hb);
    lemma_matches_split(d, 0, head + kb + kw, bb);
    lemma_matches_split(d, 0, head + kb, kw);
    lemma_matches_split(d, 0, head, kb);
    assert(spec_bit(d, 0) == head[0]);
    lemma_seven_bits_decode(d, 1, bk as u32);
    lemma_seven_bits_decode(d, 8, wk as u32);
    lemma_board_squares_decode(d, pv.board, bk, wk, 81);
    lemma_find_king_found(pv.board, Color::Black, 0);
    lemma_find_king_found(pv.board, Color::White, 0);
    let sq = Seq::new(
        81,
        |i: int|
            if i == bk || i == wk {
                spec_no_piece()
            } else {
                pv.board[i]
            },
    );
    let with_kings = sq.update(bk, Piece { piece_type: PieceType::King, color: Color::Black }).update(
        wk,
        Piece { piece_type: PieceType::King, color: Color::White },
    );
    assert(with_kings =~= pv.board);
    let p0 = 15 + bb.len() as int;
    lemma_hand_groups_decode(d, p0, pv, 0);
    assert(spec_hands_after(pv, 0, 0).0 =~= spec_empty_hand());
    let l = c.len() as int;
    assert forall|i: int| l <= i < 256 implies spec_bit(d, i) == ((i - l) % 3 == 1) by {
        assert(spec_packed_bit(pv, i) == ((i - l) % 3 == 1));
    }
    lemma_padding_decodes(d, l, l, pv.black_hand, pv.white_hand);
}

/// A training record made from a packable position decodes to that
/// position (see [`lemma_packed_position_decodes`]).
pub proof fn lemma_record_decodes_to_position(d: Seq<u8>, pv: MiniPositionView, score: i16, move16: u16, result: i8)
    requires
        spec_packable(pv),
        spec_is_record_of(d, pv, score, move16, result),
    ensures
        spec_decode(d) == spec_position_of(pv),
{
    reveal(spec_is_record_of);
    lemma_packed_position_decodes(pv, d);
}

/// Bits of one hand piece of slot `j`: 3 for a pawn, 5 for a lance,
/// knight, silver or gold, 7 for a bishop or rook (see
/// [`spec_hand_piece_bits`]); a board piece takes one bit more.
pub open spec fn spec_slot_bits(j: int) -> int {
    if j == 0 {
        3
    } else if j <= 4 {
        5
    } else {
        7
    }
}

/// Pieces of each hand slot in a full set: 18 pawns, 4 lances, knights,
/// silvers and golds, 2 bishops and rooks.
pub open spec fn spec_full_count(j: int) -> int {
    if j == 0 {
        18
    } else if j <= 4 {
        4
    } else {
        2
    }
}

/// Hand slot of the unpromoted kind of `pc`; -1 for an empty square or a
/// king.
pub open spec fn spec_piece_slot(pc: Piece) -> int {
    match pc.piece_type.spec_unpromote().spec_hand_index() {
        Some(i) => i as int,
        None => -1,
    }
}

/// Pieces of slot `j` on squares `0..n`, the kings' squares `bk` and `wk`
/// left out.
pub open spec fn spec_board_slot_count(board: Seq<Piece>, bk: int, wk: int, j: int, n: int) -> int
    decreases n,
{
    if n <= 0 {
        0
    } else {
        spec_board_slot_count(board, bk, wk, j, n - 1) + if n - 1 != bk && n - 1 != wk && spec_piece_slot(
            board[n - 1],
        ) == j {
            1int
        } else {
            0
        }
    }
}

/// Pieces of slot `j` of `pv`, promoted or not, on the board and in both
/// hands.
pub open spec fn spec_slot_total(pv: MiniPositionView, j: int) -> int {
    let bk = spec_find_king(pv.board, Color::Black, 0);
    let wk = spec_find_king(pv.board, Color::White, 0);
    spec_board_slot_count(pv.board, bk, wk, j, 81) + pv.black_hand[j] + pv.white_hand[j]
}

/// Bits of squares `0..n` (kings' squares left out) beyond one per square.
spec fn spec_board_weight(board: Seq<Piece>, bk: int, wk: int, n: int) -> int {
    spec_board_slot_count(board, bk, wk, 0, n) * 3 + spec_board_slot_count(board, bk, wk, 1, n) * 5
        + spec_board_slot_count(board, bk, wk, 2, n) * 5 + spec_board_slot_count(board, bk, wk, 3, n) * 5
        + spec_board_slot_count(board, bk, wk, 4, n) * 5 + spec_board_slot_count(board, bk, wk, 5, n) * 7
        + spec_board_slot_count(board, bk, wk, 6, n) * 7
}

proof fn lemma_square_bits_len(pc: Piece)
    requires
        spec_encodable_square(pc),
    ensures
        spec_square_bits(pc).len() == 1 + if spec_piece_slot(pc) >= 0 {
            spec_slot_bits(spec_piece_slot(pc))
        } else {
            0
        },
        -1 <= spec_piece_slot(pc) < 7,
{
    match pc.piece_type {
        PieceType::NoPiece => {},
        PieceType::Pawn => {},
        PieceType::Lance => {},
        PieceType::Knight => {},
        PieceType::Silver => {},
        PieceType::Gold => {},
        PieceType::Bishop => {},
        PieceType::Rook => {},
        PieceType::King => {},
        PieceType::ProPawn => {},
        PieceType::ProLance => {},
        PieceType::ProKnight => {},
        PieceType::ProSilver => {},
        PieceType::Horse => {},
        PieceType::Dragon => {},
    }
}

/// The board section of `n` squares takes one bit per square other than the
/// kings' and, for each piece, the bits it would take in hand.
proof fn lemma_board_bits_len(board: Seq<Piece>, bk: int, wk: int, n: int)
    requires
        0 <= n <= 81,
        board.len() == 81,
        bk != wk,
        forall|i: int| 0 <= i < 81 && i != bk && i != wk ==> spec_encodable_square(#[trigger] board[i]),
    ensures
        spec_board_bits_upto(board, bk, wk, n).len() == n - (if 0 <= bk < n { 1int } else { 0 }) - (if 0 <= wk
            < n {
            1int
        } else {
            0
        }) + spec_board_weight(board, bk, wk, n),
    decreases n,
{
    if n > 0 {
        lemma_board_bits_len(board, bk, wk, n - 1);
        if n - 1 != bk && n - 1 != wk {
            lemma_square_bits_len(board[n - 1]);
        }
    }
}

/// Bits of the first `g` hand groups.
spec fn spec_hand_weight(pv: MiniPositionView, g: int) -> int
    decreases g,
{
    if g <= 0 {
        0
    } else {
        let c = if (g - 1) / 7 == 0 {
            Color::Black
        } else {
            Color::White
        };
        let j = (g - 1) % 7;
        spec_hand_weight(pv, g - 1) + pv.hand(c)[j] * spec_slot_bits(j)
    }
}

proof fn lemma_hand_bits_len(pv: MiniPositionView, g: int)
    requires
        0 <= g <= 14,
        pv.black_hand.len() == 7,
        pv.white_hand.len() == 7,
    ensures
        spec_hand_bits_upto(pv, g).len() == spec_hand_weight(pv, g),
    decreases g,
{
    if g > 0 {
        lemma_hand_bits_len(pv, g - 1);
        let c = if (g - 1) / 7 == 0 {
            Color::Black
        } else {
            Color::White
        };
        let j = (g - 1) % 7;
        let bits = spec_hand_piece_bits(spec_hand_piece_type(j), c);
        lemma_repeat_len(bits, pv.hand(c)[j] as int);
        assert(bits.len() == spec_slot_bits(j)) by {
            assert(0 <= j < 7);
            if j == 0 {
            } else if j == 1 {
            } else if j == 2 {
            } else if j == 3 {
            } else if j == 4 {
            } else if j == 5 {
            } else {
            }
        }
    }
}

/// Bits that the pieces missing from a full set would take in hand.
pub open spec fn spec_missing_bits(pv: MiniPositionView) -> int {
    (18 - spec_slot_total(pv, 0)) * 3 + (4 - spec_slot_total(pv, 1)) * 5 + (4 - spec_slot_total(pv, 2)) * 5 + (4
        - spec_slot_total(pv, 3)) * 5 + (4 - spec_slot_total(pv, 4)) * 5 + (2 - spec_slot_total(pv, 5)) * 7 + (2
        - spec_slot_total(pv, 6)) * 7
}

/// A position with both kings on the board, every other square empty or
/// holding another piece, and hands of seven slots.
pub open spec fn spec_well_placed(pv: MiniPositionView) -> bool {
    let bk = spec_find_king(pv.board, Color::Black, 0);
    let wk = spec_find_king(pv.board, Color::White, 0);
    &&& pv.board.len() == 81
    &&& pv.black_hand.len() == 7
    &&& pv.white_hand.len() == 7
    &&& bk < 81
    &&& wk < 81
    &&& forall|i: int| 0 <= i < 81 && i != bk && i != wk ==> spec_encodable_square(#[trigger] pv.board[i])
}

/// The packed content of a well-placed position takes 256 bits less the
/// bits of the pieces missing from a full set.
#[verifier::spinoff_prover]
pub proof fn lemma_pack_content_len(pv: MiniPositionView)
    requires
        spec_well_placed(pv),
    ensures
        spec_pack_content(pv).len() == 256 - spec_missing_bits(pv),
{
    let bk = spec_find_king(pv.board, Color::Black, 0);
    let wk = spec_find_king(pv.board, Color::White, 0);
    lemma_find_king_found(pv.board, Color::Black, 0);
    lemma_find_king_found(pv.board, Color::White, 0);
    assert(bk != wk);
    lemma_board_bits_len(pv.board, bk, wk, 81);
    lemma_hand_bits_len(pv, 14);
    let bh = pv.black_hand;
    let wh = pv.white_hand;
    assert(spec_hand_weight(pv, 0) == 0);
    assert(spec_hand_weight(pv, 1) == bh[0] * 3);
    assert(spec_hand_weight(pv, 2) == bh[0] * 3 + bh[1] * 5);
    assert(spec_hand_weight(pv, 3) == bh[0] * 3 + bh[1] * 5 + bh[2] * 5);
    assert(spec_hand_weight(pv, 4) == bh[0] * 3 + bh[1] * 5 + bh[2] * 5 + bh[3] * 5);
    assert(spec_hand_weight(pv, 5) == bh[0] * 3 + bh[1] * 5 + bh[2] * 5 + bh[3] * 5 + bh[4] * 5);
    assert(spec_hand_weight(pv, 6) == bh[0] * 3 + bh[1] * 5 + bh[2] * 5 + bh[3] * 5 + bh[4] * 5 + bh[5] * 7);
    assert(spec_hand_weight(pv, 7) == bh[0] * 3 + bh[1] * 5 + bh[2] * 5 + bh[3] * 5 + bh[4] * 5 + bh[5] * 7 + bh[6] * 7);
    assert(spec_hand_weight(pv, 8) == bh[0] * 3 + bh[1] * 5 + bh[2] * 5 + bh[3] * 5 + bh[4] * 5 + bh[5] * 7 + bh[6] * 7 + wh[0] * 3);
    assert(spec_hand_weight(pv, 9) == bh[0] * 3 + bh[1] * 5 + bh[2] * 5 + bh[3] * 5 + bh[4] * 5 + bh[5] * 7 + bh[6] * 7 + wh[0] * 3 + wh[1] * 5);
    assert(spec_hand_weight(pv, 10) == bh[0] * 3 + bh[1] * 5 + bh[2] * 5 + bh[3] * 5 + bh[4] * 5 + bh[5] * 7 + bh[6] * 7 + wh[0] * 3 + wh[1] * 5 + wh[2] * 5);
    assert(spec_hand_weight(pv, 11) == bh[0] * 3 + bh[1] * 5 + bh[2] * 5 + bh[3] * 5 + bh[4] * 5 + bh[5] * 7 + bh[6] * 7 + wh[0] * 3 + wh[1] * 5 + wh[2] * 5 + wh[3] * 5);
    assert(spec_hand_weight(pv, 12) == bh[0] * 3 + bh[1] * 5 + bh[2] * 5 + bh[3] * 5 + bh[4] * 5 + bh[5] * 7 + bh[6] * 7 + wh[0] * 3 + wh[1] * 5 + wh[2] * 5 + wh[3] * 5 + wh[4] * 5);
    assert(spec_hand_weight(pv, 13) == bh[0] * 3 + bh[1] * 5 + bh[2] * 5 + bh[3] * 5 + bh[4] * 5 + bh[5] * 7 + bh[6] * 7 + wh[0] * 3 + wh[1] * 5 + wh[2] * 5 + wh[3] * 5 + wh[4] * 5 + wh[5] * 7);
    assert(spec_hand_weight(pv, 14) == bh[0] * 3 + bh[1] * 5 + bh[2] * 5 + bh[3] * 5 + bh[4] * 5 + bh[5] * 7 + bh[6] * 7 + wh[0] * 3 + wh[1] * 5 + wh[2] * 5 + wh[3] * 5 + wh[4] * 5 + wh[5] * 7 + wh[6] * 7);
    assert(spec_board_bits_upto(pv.board, bk, wk, 81).len() == 79 + spec_board_weight(pv.board, bk, wk, 81));
    assert(spec_pack_content(pv).len() == 15 + spec_board_bits_upto(pv.board, bk, wk, 81).len()
        + spec_hand_bits_upto(pv, 14).len());
}

/// Packing then decoding gives the position back for every well-placed
/// position that holds, of each kind, at most the pieces of a full set,
/// as long as the bits of the missing pieces are not 1 more than a multiple
/// of 3 (the padding is then whole piece-box pawns). With the full set,
/// nothing is missing.
pub proof fn lemma_piece_counts_round_trip(
    d: Seq<u8>,
    pv: MiniPositionView,
    score: i16,
    move16: u16,
    result: i8,
)
    requires
        spec_well_placed(pv),
        forall|j: int| 0 <= j < 7 ==> 0 <= #[trigger] spec_slot_total(pv, j) <= spec_full_count(j),
        spec_missing_bits(pv) % 3 != 1,
        spec_is_record_of(d, pv, score, move16, result),
    ensures
        spec_packable(pv),
        spec_decode(d) == spec_position_of(pv),
{
    lemma_pack_content_len(pv);
    assert(spec_slot_total(pv, 0) <= 18 && spec_slot_total(pv, 1) <= 4 && spec_slot_total(pv, 2) <= 4
        && spec_slot_total(pv, 3) <= 4 && spec_slot_total(pv, 4) <= 4 && spec_slot_total(pv, 5) <= 2
        && spec_slot_total(pv, 6) <= 2);
    lemma_record_decodes_to_position(d, pv, score, move16, result);
}

/// A well-placed position with exactly the pieces of a full set decodes
/// back to itself from its training record.
pub proof fn lemma_full_set_round_trip(d: Seq<u8>, pv: MiniPositionView, score: i16, move16: u16, result: i8)
    requires
        spec_well_placed(pv),
        forall|j: int| 0 <= j < 7 ==> #[trigger] spec_slot_total(pv, j) == spec_full_count(j),
        spec_is_record_of(d, pv, score, move16, result),
    ensures
        spec_decode(d) == spec_position_of(pv),
{
    assert(spec_slot_total(pv, 0) == 18 && spec_slot_total(pv, 1) == 4 && spec_slot_total(pv, 2) == 4
        && spec_slot_total(pv, 3) == 4 && spec_slot_total(pv, 4) == 4 && spec_slot_total(pv, 5) == 2
        && spec_slot_total(pv, 6) == 2);
    assert(spec_missing_bits(pv) == 0);
    lemma_piece_counts_round_trip(d, pv, score, move16, result);
}

} // verus!

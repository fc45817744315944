//! Raw inputs of the logistic progress models, as counts: pieces on the
//! board and in hand, the kings' ranks seen from each side, and pieces near
//! each king binned by Chebyshev distance (1 or less, 2, 3 or more).

use vstd::prelude::*;
use crate::shogi::board::{BoardView, ShogiBoard};
use crate::shogi::types::{Color, Piece, PieceType, Square};

verus! {

/// Inputs of the six-feature progress model.
pub const SHOGI_PROGRESS8_NUM_FEATURES: usize = 6;

/// Inputs of the Gikou-lite progress model.
pub const SHOGI_PROGRESS_GIKOU_LITE_NUM_FEATURES: usize = 34;

/// Bishops, rooks and their promotions.
pub open spec fn spec_is_major(pt: PieceType) -> bool {
    pt == PieceType::Bishop || pt == PieceType::Rook || pt == PieceType::Horse || pt == PieceType::Dragon
}

pub fn is_major_piece(pt: PieceType) -> (r: bool)
    ensures
        r == spec_is_major(pt),
{
    match pt {
        PieceType::Bishop | PieceType::Rook | PieceType::Horse | PieceType::Dragon => true,
        _ => false,
    }
}

/// Chebyshev distance of two squares by file and rank.
pub open spec fn spec_chebyshev(a: Square, b: Square) -> int {
    let df = if a.spec_file() >= b.spec_file() {
        a.spec_file() - b.spec_file()
    } else {
        b.spec_file() - a.spec_file()
    };
    let dr = if a.spec_rank() >= b.spec_rank() {
        a.spec_rank() - b.spec_rank()
    } else {
        b.spec_rank() - a.spec_rank()
    };
    if df >= dr {
        df
    } else {
        dr
    }
}

pub fn chebyshev_distance(a: Square, b: Square) -> (r: u8)
    ensures
        r == spec_chebyshev(a, b),
{
    let (af, bf) = (a.file(), b.file());
    let (ar, br) = (a.rank(), b.rank());
    let df = if af >= bf { af - bf } else { bf - af };
    let dr = if ar >= br { ar - br } else { br - ar };
    if df >= dr {
        df
    } else {
        dr
    }
}

/// Distance bin: 0 for at most 1, 1 for 2, 2 beyond.
pub open spec fn spec_distance_bin(d: int) -> int {
    if d <= 1 {
        0
    } else if d == 2 {
        1
    } else {
        2
    }
}

pub fn distance_bin(d: u8) -> (r: usize)
    ensures
        r == spec_distance_bin(d as int),
{
    if d <= 1 {
        0
    } else if d == 2 {
        1
    } else {
        2
    }
}

/// Whether square `sq` of `b` counts towards board feature `k`: 0 pieces
/// other than kings, 2 majors, 3 promoted pieces; 6..30 pieces other than
/// kings in four groups of six (the side to move's, the other side's, the
/// side to move's majors, the other side's majors), each group counting
/// the distance bin to the piece's own king (first three) and to the other
/// king (last three).
pub open spec fn spec_square_hit(b: BoardView, k: int, sq: int) -> bool {
    let pc = b.board[sq];
    let piece = pc.piece_type != PieceType::NoPiece && pc.piece_type != PieceType::King;
    let stm = b.side_to_move;
    let stm_k = b.spec_king_square(stm);
    let ntm_k = b.spec_king_square(stm.spec_opponent());
    let mine = pc.color == stm;
    let own_k = if mine {
        stm_k
    } else {
        ntm_k
    };
    let opp_k = if mine {
        ntm_k
    } else {
        stm_k
    };
    let s = Square(sq as u8);
    let own_bin = spec_distance_bin(spec_chebyshev(s, own_k));
    let opp_bin = spec_distance_bin(spec_chebyshev(s, opp_k));
    if k == 0 {
        piece
    } else if k == 2 {
        spec_is_major(pc.piece_type)
    } else if k == 3 {
        pc.piece_type.spec_is_promoted()
    } else if 6 <= k < 30 {
        let group = (k - 6) / 6;
        let within = (k - 6) % 6;
        &&& piece
        &&& mine == (group % 2 == 0)
        &&& (group < 2 || spec_is_major(pc.piece_type))
        &&& if within < 3 {
            own_bin == within
        } else {
            opp_bin == within - 3
        }
    } else {
        false
    }
}

/// Squares `0..n` of `b` that count towards board feature `k`.
pub open spec fn spec_count_hits(b: BoardView, k: int, n: int) -> int
    decreases n,
{
    if n <= 0 {
        0
    } else {
        spec_count_hits(b, k, n - 1) + if spec_square_hit(b, k, n - 1) {
            1int
        } else {
            0
        }
    }
}

/// Sum of the seven counts of a hand.
pub open spec fn spec_hand_total(h: Seq<u8>) -> int {
    h[0] + h[1] + h[2] + h[3] + h[4] + h[5] + h[6]
}

/// Gikou-lite feature `k` of `b` (the first six are the six-feature
/// model's): board counts (see [`spec_square_hit`]); 1 all pieces in hand;
/// 4 the side to move's king rank from its side; 5 the other king's rank
/// from the side to move's opponent's side; 30 / 31 the pieces in hand of
/// the side to move / the other side; 32 / 33 their bishops and rooks in
/// hand.
pub open spec fn spec_progress_feature(b: BoardView, k: int) -> int {
    let stm = b.side_to_move;
    let (sh, nh) = if stm == Color::Black {
        (b.black_hand, b.white_hand)
    } else {
        (b.white_hand, b.black_hand)
    };
    let fr = b.spec_king_square(stm).spec_rank() as int;
    let er = b.spec_king_square(stm.spec_opponent()).spec_rank() as int;
    if k == 1 {
        spec_hand_total(b.black_hand) + spec_hand_total(b.white_hand)
    } else if k == 4 {
        if stm == Color::Black {
            fr
        } else {
            8 - fr
        }
    } else if k == 5 {
        if stm == Color::Black {
            8 - er
        } else {
            er
        }
    } else if k == 30 {
        spec_hand_total(sh)
    } else if k == 31 {
        spec_hand_total(nh)
    } else if k == 32 {
        sh[5] + sh[6]
    } else if k == 33 {
        nh[5] + nh[6]
    } else {
        spec_count_hits(b, k, 81)
    }
}

fn hand_total(h: &[u8; 7]) -> (r: u32)
    ensures
        r == spec_hand_total(h@),
{
    h[0] as u32 + h[1] as u32 + h[2] as u32 + h[3] as u32 + h[4] as u32 + h[5] as u32 + h[6] as u32
}

/// Board counts of all Gikou-lite features (zero where a feature is not
/// a board count).
fn board_counts(board: &ShogiBoard) -> (r: [u32; 34])
    ensures
        forall|k: int| 0 <= k < 34 ==> #[trigger] r@[k] == spec_count_hits(board@, k, 81),
{
    let stm = board.side_to_move;
    let stm_k = board.king_square(stm);
    let ntm_k = board.king_square(stm.opponent());
    let mut out = [0u32; 34];
    let mut sq: usize = 0;
    while sq < 81
        invariant
            sq <= 81,
            stm == board@.side_to_move,
            stm_k == board@.spec_king_square(stm),
            ntm_k == board@.spec_king_square(stm.spec_opponent()),
            forall|k: int| 0 <= k < 34 ==> #[trigger] out@[k] == spec_count_hits(board@, k, sq as int),
            forall|k: int| 0 <= k < 34 ==> #[trigger] out@[k] <= sq,
        decreases 81 - sq,
    {
        let pc = board.board[sq];
        let pt = pc.piece_type;
        let piece = !matches!(pt, PieceType::NoPiece | PieceType::King);
        let major = is_major_piece(pt);
        let mine = pc.color == stm;
        let own_k = if mine { stm_k } else { ntm_k };
        let opp_k = if mine { ntm_k } else { stm_k };
        let s = Square::from_index(sq);
        let own_bin = distance_bin(chebyshev_distance(s, own_k));
        let opp_bin = distance_bin(chebyshev_distance(s, opp_k));
        let ghost before = out@;
        if piece {
            out[0] = out[0] + 1;
            let side = if mine { 6usize } else { 12usize };
            out[side + own_bin] = out[side + own_bin] + 1;
            out[side + 3 + opp_bin] = out[side + 3 + opp_bin] + 1;
            if major {
                let mo = if mine { 18usize } else { 24usize };
                out[mo + own_bin] = out[mo + own_bin] + 1;
                out[mo + 3 + opp_bin] = out[mo + 3 + opp_bin] + 1;
            }
        }
        if major {
            out[2] = out[2] + 1;
        }
        if pt.is_promoted() {
            out[3] = out[3] + 1;
        }
        assert forall|k: int| 0 <= k < 34 implies #[trigger] out@[k] == before[k] + if spec_square_hit(
            board@,
            k,
            sq as int,
        ) {
            1int
        } else {
            0
        } by {
            assert(board@.board[sq as int] == pc);
            if 6 <= k < 30 {
                assert((k - 6) / 6 == 0 || (k - 6) / 6 == 1 || (k - 6) / 6 == 2 || (k - 6) / 6 == 3);
            }
        }
        sq = sq + 1;
    }
    out
}

/// Inputs of the six-feature progress model of `board` (see
/// [`spec_progress_feature`]).
pub fn progress8_feature_counts(board: &ShogiBoard) -> (r: [u32; 6])
    ensures
        forall|k: int| 0 <= k < 6 ==> #[trigger] r@[k] == spec_progress_feature(board@, k),
{
    let all = gikou_lite_feature_counts(board);
    [all[0], all[1], all[2], all[3], all[4], all[5]]
}

/// Inputs of the Gikou-lite progress model of `board` (see
/// [`spec_progress_feature`]).
pub fn gikou_lite_feature_counts(board: &ShogiBoard) -> (r: [u32; 34])
    ensures
        forall|k: int| 0 <= k < 34 ==> #[trigger] r@[k] == spec_progress_feature(board@, k),
{
    let mut out = board_counts(board);
    let ghost bc = out@;
    let stm = board.side_to_move;
    let (sh, nh) = match stm {
        Color::Black => (&board.black_hand.counts, &board.white_hand.counts),
        Color::White => (&board.white_hand.counts, &board.black_hand.counts),
    };
    let fr = board.king_square(stm).rank() as u32;
    let er = board.king_square(stm.opponent()).rank() as u32;
    out[1] = hand_total(&board.black_hand.counts) + hand_total(&board.white_hand.counts);
    out[4] = match stm {
        Color::Black => fr,
        Color::White => 8 - fr,
    };
    out[5] = match stm {
        Color::Black => 8 - er,
        Color::White => er,
    };
    out[30] = hand_total(sh);
    out[31] = hand_total(nh);
    out[32] = sh[5] as u32 + sh[6] as u32;
    out[33] = nh[5] as u32 + nh[6] as u32;
    assert forall|k: int| 0 <= k < 34 implies #[trigger] out@[k] == spec_progress_feature(board@, k) by {
        if k != 1 && k != 4 && k != 5 && k < 30 {
            assert(out@[k] == bc[k]);
        }
    }
    out
}

} // verus!

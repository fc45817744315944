//! HalfKA_hm indexing shared by the HalfKA_hm based feature sets: 45 king
//! buckets (king squares of files 6-9 are mirrored onto files 1-5) times
//! 1629 piece inputs (the enemy king folded onto the friend king plane).

use vstd::prelude::*;
use crate::seqs::{spec_collect, lemma_collect_step, lemma_collect_take_all};
use crate::shogi::bona_piece::{BonaPiece, E_KING, F_KING, FE_HAND_END, spec_board_bases, spec_sq_from};
use crate::shogi::board::{
    BoardView, ShogiBoard, board_items, hand_items, lemma_board_items_valid, spec_board_items,
    spec_hand_items,
};
use crate::shogi::types::{Color, Piece, PieceType, Square};

verus! {

/// King buckets: 5 files times 9 ranks.
pub const NUM_KING_BUCKETS: usize = 45;

/// Piece inputs per king bucket (`e_king`).
pub const PIECE_INPUTS: usize = 1629;

/// HalfKA_hm input dimension: 45 * 1629.
pub const HALFKA_HM_DIMENSIONS: usize = 73305;

/// Most features active at once: the 40 pieces of a game.
pub const MAX_ACTIVE_FEATURES: usize = 40;

/// Index of `sq` seen from `perspective` (rotated for White).
pub open spec fn spec_sq_index_from(sq: Square, perspective: Color) -> int {
    if perspective == Color::Black {
        sq.0 as int
    } else {
        80 - sq.0
    }
}

pub fn sq_index_from(sq: Square, perspective: Color) -> (r: usize)
    requires
        sq.spec_valid(),
    ensures
        r == spec_sq_index_from(sq, perspective),
        r < 81,
{
    if perspective == Color::Black {
        sq.0 as usize
    } else {
        80 - sq.0 as usize
    }
}

/// Square index `file * 9 + rank` reflected left to right.
pub open spec fn spec_mirror_file_idx(i: int) -> int {
    (8 - i / 9) * 9 + i % 9
}

pub fn mirror_file_idx(i: usize) -> (r: usize)
    requires
        i < 81,
    ensures
        r == spec_mirror_file_idx(i as int),
        r < 81,
        r / 9 == 8 - i / 9,
        r % 9 == i % 9,
{
    (8 - i / 9) * 9 + i % 9
}

/// BonaPiece value with the square part of a board (or king) plane
/// mirrored; hand values are unchanged.
pub open spec fn spec_mirror_bp(bp: int) -> int {
    if bp >= FE_HAND_END {
        FE_HAND_END + (bp - FE_HAND_END) / 81 * 81 + spec_mirror_file_idx((bp - FE_HAND_END) % 81)
    } else {
        bp
    }
}

pub fn mirror_bp(bp: usize) -> (r: usize)
    requires
        bp < 1710,
    ensures
        r == spec_mirror_bp(bp as int),
        r < 1710,
        bp < FE_HAND_END ==> r == bp,
        bp >= FE_HAND_END ==> r >= FE_HAND_END && (r - FE_HAND_END) / 81 == (bp - FE_HAND_END) / 81,
{
    if bp >= FE_HAND_END {
        let offset = bp - FE_HAND_END;
        let piece_idx = offset / 81;
        let sq = offset % 81;
        FE_HAND_END + piece_idx * 81 + mirror_file_idx(sq)
    } else {
        bp
    }
}

/// Whether a king on (perspective-relative) square index `ksq` is mirrored.
pub open spec fn spec_hm_mirrored(ksq: int) -> bool {
    ksq / 9 >= 5
}

/// King bucket of a king on (perspective-relative) square index `ksq`.
pub open spec fn spec_bucket_of(ksq: int) -> int {
    if spec_hm_mirrored(ksq) {
        spec_mirror_file_idx(ksq)
    } else {
        ksq
    }
}

/// King bucket (0..45) of the king of `c` on `sq`, seen from `c`.
pub open spec fn spec_king_bucket(sq: Square, c: Color) -> int {
    spec_bucket_of(spec_sq_index_from(sq, c))
}

pub fn king_bucket(sq: Square, c: Color) -> (r: usize)
    requires
        sq.spec_valid(),
    ensures
        r == spec_king_bucket(sq, c),
        r < NUM_KING_BUCKETS,
{
    let ksq = sq_index_from(sq, c);
    if ksq / 9 >= 5 {
        mirror_file_idx(ksq)
    } else {
        ksq
    }
}

/// Whether the king of `c` on `sq` lies on files 6-9 as seen from `c`.
pub open spec fn spec_is_hm_mirror(sq: Square, c: Color) -> bool {
    spec_hm_mirrored(spec_sq_index_from(sq, c))
}

pub fn is_hm_mirror(sq: Square, c: Color) -> (r: bool)
    requires
        sq.spec_valid(),
    ensures
        r == spec_is_hm_mirror(sq, c),
{
    sq_index_from(sq, c) / 9 >= 5
}

/// Piece input (0..1629) of BonaPiece value `bp`: mirrored when `hm`, then
/// the enemy king plane folded onto the friend king plane.
pub open spec fn spec_pack_bp(bp: int, hm: bool) -> int {
    let v = if hm {
        spec_mirror_bp(bp)
    } else {
        bp
    };
    if v >= E_KING {
        v - 81
    } else {
        v
    }
}

pub fn pack_bonapiece(bp: BonaPiece, hm: bool) -> (r: usize)
    requires
        bp.0 < 1710,
    ensures
        r == spec_pack_bp(bp.0 as int, hm),
        r < PIECE_INPUTS,
{
    let v = if hm {
        mirror_bp(bp.0 as usize)
    } else {
        bp.0 as usize
    };
    if v >= E_KING as usize {
        v - 81
    } else {
        v
    }
}

/// HalfKA_hm index of piece input `packed` for king bucket `kb`.
pub open spec fn spec_halfka_index(kb: int, packed: int) -> int {
    kb * PIECE_INPUTS + packed
}

pub fn halfka_index(kb: usize, packed: usize) -> (r: usize)
    requires
        kb < NUM_KING_BUCKETS,
        packed < PIECE_INPUTS,
    ensures
        r == spec_halfka_index(kb as int, packed as int),
        r < HALFKA_HM_DIMENSIONS,
{
    kb * PIECE_INPUTS + packed
}

/// BonaPiece of a king on (perspective-relative) square index `sq`: the
/// friend plane for the perspective's own king, the enemy plane otherwise.
pub open spec fn spec_king_bonapiece(sq: int, friend: bool) -> BonaPiece {
    if friend {
        BonaPiece((F_KING + sq) as u16)
    } else {
        BonaPiece((E_KING + sq) as u16)
    }
}

pub fn king_bonapiece(sq: usize, friend: bool) -> (r: BonaPiece)
    requires
        sq < 81,
    ensures
        r == spec_king_bonapiece(sq as int, friend),
        r.0 < 1710,
{
    if friend {
        BonaPiece(F_KING + sq as u16)
    } else {
        BonaPiece(E_KING + sq as u16)
    }
}


/// Whether both kings stand on the board.
pub open spec fn spec_kings_valid(b: BoardView) -> bool {
    b.black_king_sq.spec_valid() && b.white_king_sq.spec_valid()
}

/// HalfKA_hm index of BonaPiece `bp` for perspective `persp` of `b`.
pub open spec fn spec_hm_index(b: BoardView, persp: Color, bp: BonaPiece) -> usize {
    let ks = b.spec_king_square(persp);
    spec_halfka_index(spec_king_bucket(ks, persp), spec_pack_bp(bp.0 as int, spec_is_hm_mirror(ks, persp))) as usize
}

/// Feature pair of a board piece (both perspectives).
pub open spec fn spec_hm_board_pair(b: BoardView, it: (Piece, Square)) -> Option<(usize, usize)> {
    let stm = b.side_to_move;
    let nstm = stm.spec_opponent();
    Some(
        (
            spec_hm_index(b, stm, BonaPiece::spec_from_piece_square(it.0, it.1, stm)),
            spec_hm_index(b, nstm, BonaPiece::spec_from_piece_square(it.0, it.1, nstm)),
        ),
    )
}

/// Feature pair of a hand piece; none when the piece has no BonaPiece.
pub open spec fn spec_hm_hand_pair(b: BoardView, it: (Color, PieceType, u8)) -> Option<(usize, usize)> {
    let stm = b.side_to_move;
    let nstm = stm.spec_opponent();
    let sbp = BonaPiece::spec_from_hand_piece(stm, it.0, it.1, it.2);
    if sbp.0 == 0 {
        None
    } else {
        Some(
            (
                spec_hm_index(b, stm, sbp),
                spec_hm_index(b, nstm, BonaPiece::spec_from_hand_piece(nstm, it.0, it.1, it.2)),
            ),
        )
    }
}

/// The two king feature pairs: the side to move's king, then the other.
pub open spec fn spec_hm_king_pairs(b: BoardView) -> Seq<(usize, usize)> {
    let stm = b.side_to_move;
    let nstm = stm.spec_opponent();
    let sk = b.spec_king_square(stm);
    let nk = b.spec_king_square(nstm);
    seq![
        (
            spec_hm_index(b, stm, spec_king_bonapiece(spec_sq_index_from(sk, stm), true)),
            spec_hm_index(b, nstm, spec_king_bonapiece(spec_sq_index_from(nk, nstm), true)),
        ),
        (
            spec_hm_index(b, stm, spec_king_bonapiece(spec_sq_index_from(nk, stm), false)),
            spec_hm_index(b, nstm, spec_king_bonapiece(spec_sq_index_from(sk, nstm), false)),
        ),
    ]
}

/// HalfKA_hm features of `b`: board pieces, the two kings, hand pieces;
/// nothing when a king is missing.
pub open spec fn spec_halfka_hm_features(b: BoardView) -> Seq<(usize, usize)> {
    if !spec_kings_valid(b) {
        Seq::empty()
    } else {
        spec_collect(spec_board_items(b), |it: (Piece, Square)| spec_hm_board_pair(b, it))
            + spec_hm_king_pairs(b) + spec_collect(
            spec_hand_items(b),
            |it: (Color, PieceType, u8)| spec_hm_hand_pair(b, it),
        )
    }
}

/// Mirroring a square index keeps it on the board, reflects its file and
/// undoes itself.
pub proof fn lemma_mirror_idx_facts(i: int)
    requires
        0 <= i < 81,
    ensures
        0 <= spec_mirror_file_idx(i) < 81,
        spec_mirror_file_idx(i) / 9 == 8 - i / 9,
        spec_mirror_file_idx(spec_mirror_file_idx(i)) == i,
{
    assert(spec_mirror_file_idx(i) / 9 == 8 - i / 9 && spec_mirror_file_idx(i) % 9 == i % 9) by (nonlinear_arith)
        requires
            0 <= i < 81,
    ;
}

/// A board BonaPiece `base + i` (`base` the start of a board or king plane)
/// mirrors to `base` plus the mirrored square.
pub proof fn lemma_mirror_bp_of_board(base: int, i: int)
    requires
        90 <= base <= 1629,
        (base - 90) % 81 == 0,
        0 <= i < 81,
    ensures
        spec_mirror_bp(base + i) == base + spec_mirror_file_idx(i),
{
    assert((base + i - 90) / 81 * 81 == base - 90 && (base + i - 90) % 81 == i) by (nonlinear_arith)
        requires
            90 <= base,
            (base - 90) % 81 == 0,
            0 <= i < 81,
    ;
}

/// Mirroring left to right the square of a piece and the king of
/// perspective `c` leaves the piece's HalfKA_hm index for `c` unchanged,
/// as long as that king is off the centre file.
pub proof fn lemma_hm_index_mirror_invariant(ks: Square, c: Color, pc: Piece, sq: Square)
    requires
        ks.spec_valid(),
        sq.spec_valid(),
        ks.spec_file() != 4,
        spec_board_bases(pc.piece_type) is Some,
    ensures
        spec_halfka_index(
            spec_king_bucket(ks.spec_mirror_file(), c),
            spec_pack_bp(
                BonaPiece::spec_from_piece_square(pc, sq.spec_mirror_file(), c).0 as int,
                spec_is_hm_mirror(ks.spec_mirror_file(), c),
            ),
        ) == spec_halfka_index(
            spec_king_bucket(ks, c),
            spec_pack_bp(BonaPiece::spec_from_piece_square(pc, sq, c).0 as int, spec_is_hm_mirror(ks, c)),
        ),
{
    let k = spec_sq_index_from(ks, c);
    let y = spec_sq_from(sq, c);
    assert(ks.spec_mirror_file().0 == spec_mirror_file_idx(ks.0 as int));
    assert(sq.spec_mirror_file().0 == spec_mirror_file_idx(sq.0 as int));
    lemma_mirror_idx_facts(ks.0 as int);
    lemma_mirror_idx_facts(sq.0 as int);
    assert(spec_sq_index_from(ks.spec_mirror_file(), c) == spec_mirror_file_idx(k)) by {
        if c == Color::White {
            assert(80 - spec_mirror_file_idx(ks.0 as int) == spec_mirror_file_idx(80 - ks.0)) by (nonlinear_arith)
                requires
                    0 <= ks.0 < 81,
            ;
        }
    }
    assert(spec_sq_from(sq.spec_mirror_file(), c) == spec_mirror_file_idx(y)) by {
        if c == Color::White {
            assert(80 - spec_mirror_file_idx(sq.0 as int) == spec_mirror_file_idx(80 - sq.0)) by (nonlinear_arith)
                requires
                    0 <= sq.0 < 81,
            ;
        }
    }
    lemma_mirror_idx_facts(k);
    lemma_mirror_idx_facts(y);
    assert(k / 9 != 4) by {
        if c == Color::White {
            assert((80 - ks.0) / 9 == 8 - ks.0 / 9) by (nonlinear_arith)
                requires
                    0 <= ks.0 < 81,
            ;
        }
    }
    let (fb, eb) = spec_board_bases(pc.piece_type)->0;
    let base = if pc.color == c {
        fb
    } else {
        eb
    } as int;
    assert(90 <= base <= 1467 && (base - 90) % 81 == 0);
    lemma_mirror_bp_of_board(base, y);
    lemma_mirror_bp_of_board(base, spec_mirror_file_idx(y));
}

/// HalfKA_hm index of `bp` for the king of `persp` on `ks`.
fn hm_index(ks: Square, persp: Color, bp: BonaPiece) -> (r: usize)
    requires
        ks.spec_valid(),
        bp.0 < 1710,
    ensures
        r == spec_halfka_index(spec_king_bucket(ks, persp), spec_pack_bp(bp.0 as int, spec_is_hm_mirror(ks, persp))),
        r < HALFKA_HM_DIMENSIONS,
{
    let kb = king_bucket(ks, persp);
    let hm = is_hm_mirror(ks, persp);
    halfka_index(kb, pack_bonapiece(bp, hm))
}

/// HalfKA_hm features of `b` (see [`spec_halfka_hm_features`]); every index
/// is below [`HALFKA_HM_DIMENSIONS`].
pub fn halfka_hm_features(b: &ShogiBoard) -> (r: Vec<(usize, usize)>)
    ensures
        r@ == spec_halfka_hm_features(b@),
        forall|i: int| 0 <= i < r@.len() ==> r@[i].0 < HALFKA_HM_DIMENSIONS && r@[i].1 < HALFKA_HM_DIMENSIONS,
{
    let mut out: Vec<(usize, usize)> = Vec::new();
    let stm = b.side_to_move;
    let nstm = stm.opponent();
    let sk = b.king_square(stm);
    let nk = b.king_square(nstm);
    if !sk.is_valid() || !nk.is_valid() {
        proof {
            assert(!spec_kings_valid(b@)) by {
                if spec_kings_valid(b@) {
                    match stm {
                        Color::Black => {},
                        Color::White => {},
                    }
                }
            }
        }
        return out;
    }
    assert(spec_kings_valid(b@)) by {
        match stm {
            Color::Black => {},
            Color::White => {},
        }
    }
    let ghost fb = |it: (Piece, Square)| spec_hm_board_pair(b@, it);
    let items = board_items(b);
    proof {
        lemma_board_items_valid(b@);
    }
    let mut i: usize = 0;
    while i < items.len()
        invariant
            i <= items@.len(),
            items@ == spec_board_items(b@),
            forall|j: int|
                0 <= j < items@.len() ==> (#[trigger] items@[j]).1.0 < 81,
            stm == b.side_to_move,
            nstm == stm.spec_opponent(),
            sk == b@.spec_king_square(stm),
            nk == b@.spec_king_square(nstm),
            sk.spec_valid(),
            nk.spec_valid(),
            fb == (|it: (Piece, Square)| spec_hm_board_pair(b@, it)),
            out@ == spec_collect(items@.take(i as int), fb),
            forall|j: int| 0 <= j < out@.len() ==> out@[j].0 < HALFKA_HM_DIMENSIONS && out@[j].1 < HALFKA_HM_DIMENSIONS,
        decreases items.len() - i,
    {
        let (piece, sq) = items[i];
        let sbp = BonaPiece::from_piece_square(piece, sq, stm);
        let nbp = BonaPiece::from_piece_square(piece, sq, nstm);
        let si = hm_index(sk, stm, sbp);
        let ni = hm_index(nk, nstm, nbp);
        proof {
            lemma_collect_step(items@, fb, i as int);
        }
        out.push((si, ni));
        i = i + 1;
    }
    proof {
        lemma_collect_take_all(items@, fb);
    }
    let ghost board_part = out@;
    let sf = hm_index(sk, stm, king_bonapiece(sq_index_from(sk, stm), true));
    let nf = hm_index(nk, nstm, king_bonapiece(sq_index_from(nk, nstm), true));
    let se = hm_index(sk, stm, king_bonapiece(sq_index_from(nk, stm), false));
    let ne = hm_index(nk, nstm, king_bonapiece(sq_index_from(sk, nstm), false));
    out.push((sf, nf));
    out.push((se, ne));
    assert(out@ =~= board_part + spec_hm_king_pairs(b@));
    let ghost with_kings = out@;
    let ghost fh = |it: (Color, PieceType, u8)| spec_hm_hand_pair(b@, it);
    let hitems = hand_items(b);
    let mut k: usize = 0;
    while k < hitems.len()
        invariant
            k <= hitems@.len(),
            hitems@ == spec_hand_items(b@),
            stm == b.side_to_move,
            nstm == stm.spec_opponent(),
            sk == b@.spec_king_square(stm),
            nk == b@.spec_king_square(nstm),
            sk.spec_valid(),
            nk.spec_valid(),
            fh == (|it: (Color, PieceType, u8)| spec_hm_hand_pair(b@, it)),
            out@ == with_kings + spec_collect(hitems@.take(k as int), fh),
            forall|j: int| 0 <= j < out@.len() ==> out@[j].0 < HALFKA_HM_DIMENSIONS && out@[j].1 < HALFKA_HM_DIMENSIONS,
        decreases hitems.len() - k,
    {
        let (owner, pt, n) = hitems[k];
        let sbp = BonaPiece::from_hand_piece(stm, owner, pt, n);
        proof {
            lemma_collect_step(hitems@, fh, k as int);
        }
        if sbp.0 != 0 {
            let nbp = BonaPiece::from_hand_piece(nstm, owner, pt, n);
            let si = hm_index(sk, stm, sbp);
            let ni = hm_index(nk, nstm, nbp);
            out.push((si, ni));
            assert(out@ =~= with_kings + spec_collect(hitems@.take(k as int + 1), fh));
        }
        k = k + 1;
    }
    proof {
        lemma_collect_take_all(hitems@, fh);
    }
    out
}

} // verus!

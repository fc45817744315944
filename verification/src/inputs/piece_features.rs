//! The (king, piece) feature families: a piece is numbered by its
//! BonaPiece, combined with the perspective's king square in a way that
//! depends on the family.

use vstd::prelude::*;
use crate::inputs::halfka::{
    mirror_bp, mirror_file_idx, sq_index_from, spec_bucket_of, spec_hm_mirrored, spec_mirror_bp,
    spec_mirror_file_idx, spec_pack_bp, spec_sq_index_from,
};
use crate::seqs::{spec_collect, lemma_collect_step, lemma_collect_take_all};
use crate::shogi::bona_piece::{BonaPiece, E_KING, F_KING};
use crate::shogi::board::{BoardView, ShogiBoard, hand_items, spec_hand_items};
use crate::shogi::types::{Color, Piece, PieceType, Square};

verus! {

/// How a BonaPiece and the perspective's king make an input index.
#[derive(Clone, Copy, Debug, PartialEq, Eq, Structural)]
pub enum Scheme {
    /// The BonaPiece itself.
    Kp,
    /// The BonaPiece with the enemy king folded onto the friend king plane.
    Ka2,
    /// 45 mirrored king buckets x 1710 (both king planes kept).
    Hm1,
    /// 45 mirrored king buckets x 1629 (enemy king folded).
    Hm2,
    /// 81 king squares x 1548.
    HalfKp,
    /// 45 mirrored king buckets x 1548.
    HalfKpVm,
    /// 81 x 81 king pairs x 1548.
    Kkp,
}

/// Input dimension of a scheme.
pub open spec fn spec_scheme_dims(scheme: Scheme) -> int {
    match scheme {
        Scheme::Kp => 1548,
        Scheme::Ka2 => 1629,
        Scheme::Hm1 => 76950,
        Scheme::Hm2 => 73305,
        Scheme::HalfKp => 125388,
        Scheme::HalfKpVm => 69660,
        Scheme::Kkp => 10156428,
    }
}

/// BonaPiece value with the enemy king plane folded onto the friend one.
pub open spec fn spec_a2_index(bp: int) -> int {
    if bp >= E_KING {
        bp - 81
    } else {
        bp
    }
}

pub fn a2_index(bp: u16) -> (r: usize)
    ensures
        r == spec_a2_index(bp as int),
{
    let v = bp as usize;
    if v >= E_KING as usize {
        v - 81
    } else {
        v
    }
}

/// King square of `persp` seen from `persp`.
pub open spec fn spec_persp_ksq(b: BoardView, persp: Color) -> int {
    spec_sq_index_from(b.spec_king_square(persp), persp)
}

/// King pair of `persp`: its own king seen from it, times 81, plus the
/// other king (turned round for Black, as is for White).
pub open spec fn spec_kkp_offset(b: BoardView, persp: Color) -> int {
    let my = spec_persp_ksq(b, persp);
    let ok = b.spec_king_square(persp.spec_opponent());
    let opp = if persp == Color::Black {
        80 - ok.0
    } else {
        ok.0 as int
    };
    my * 81 + opp
}

/// Index of BonaPiece value `bp` for perspective `persp` of `b`.
pub open spec fn spec_scheme_index(scheme: Scheme, b: BoardView, persp: Color, bp: int) -> int {
    let k = spec_persp_ksq(b, persp);
    let m = spec_hm_mirrored(k);
    match scheme {
        Scheme::Kp => bp,
        Scheme::Ka2 => spec_a2_index(bp),
        Scheme::Hm1 => spec_bucket_of(k) * 1710 + if m {
            spec_mirror_bp(bp)
        } else {
            bp
        },
        Scheme::Hm2 => spec_bucket_of(k) * 1629 + spec_pack_bp(bp, m),
        Scheme::HalfKp => k * 1548 + bp,
        Scheme::HalfKpVm => spec_bucket_of(k) * 1548 + if m {
            spec_mirror_bp(bp)
        } else {
            bp
        },
        Scheme::Kkp => spec_kkp_offset(b, persp) * 1548 + bp,
    }
}

/// Index of `bp` for `persp` of `b` (see [`spec_scheme_index`]).
pub fn scheme_index(scheme: Scheme, b: &ShogiBoard, persp: Color, bp: u16) -> (r: usize)
    requires
        b@.black_king_sq.spec_valid(),
        b@.white_king_sq.spec_valid(),
        bp < 1710,
        scheme == Scheme::Kp || scheme == Scheme::HalfKp || scheme == Scheme::HalfKpVm || scheme == Scheme::Kkp
            ==> bp < 1548,
    ensures
        r == spec_scheme_index(scheme, b@, persp, bp as int),
        r < spec_scheme_dims(scheme),
{
    let ks = b.king_square(persp);
    let k = sq_index_from(ks, persp);
    let v = bp as usize;
    let m = k / 9 >= 5;
    let bucket = if m {
        mirror_file_idx(k)
    } else {
        k
    };
    match scheme {
        Scheme::Kp => v,
        Scheme::Ka2 => a2_index(bp),
        Scheme::Hm1 => bucket * 1710 + if m {
            mirror_bp(v)
        } else {
            v
        },
        Scheme::Hm2 => {
            let w = if m {
                mirror_bp(v)
            } else {
                v
            };
            bucket * 1629 + if w >= E_KING as usize {
                w - 81
            } else {
                w
            }
        },
        Scheme::HalfKp => k * 1548 + v,
        Scheme::HalfKpVm => bucket * 1548 + if m {
            mirror_bp(v)
        } else {
            v
        },
        Scheme::Kkp => {
            let ok = b.king_square(persp.opponent());
            let opp = if persp == Color::Black {
                80 - ok.0 as usize
            } else {
                ok.0 as usize
            };
            (k * 81 + opp) * 1548 + v
        },
    }
}

/// Feature pair of a board piece; none when it has no BonaPiece (for
/// [`Scheme::Kkp`], from either side).
pub open spec fn spec_scheme_board_pair(scheme: Scheme, b: BoardView, it: (Piece, Square)) -> Option<(usize, usize)> {
    let stm = b.side_to_move;
    let nstm = stm.spec_opponent();
    let s = BonaPiece::spec_from_piece_square(it.0, it.1, stm);
    let n = BonaPiece::spec_from_piece_square(it.0, it.1, nstm);
    if s.0 == 0 || (scheme == Scheme::Kkp && n.0 == 0) {
        None
    } else {
        Some(
            (
                spec_scheme_index(scheme, b, stm, s.0 as int) as usize,
                spec_scheme_index(scheme, b, nstm, n.0 as int) as usize,
            ),
        )
    }
}

/// Feature pair of a hand piece; none when it has no BonaPiece (for
/// [`Scheme::Kkp`], from either side).
pub open spec fn spec_scheme_hand_pair(scheme: Scheme, b: BoardView, it: (Color, PieceType, u8)) -> Option<
    (usize, usize),
> {
    let stm = b.side_to_move;
    let nstm = stm.spec_opponent();
    let s = BonaPiece::spec_from_hand_piece(stm, it.0, it.1, it.2);
    let n = BonaPiece::spec_from_hand_piece(nstm, it.0, it.1, it.2);
    if s.0 == 0 || (scheme == Scheme::Kkp && n.0 == 0) {
        None
    } else {
        Some(
            (
                spec_scheme_index(scheme, b, stm, s.0 as int) as usize,
                spec_scheme_index(scheme, b, nstm, n.0 as int) as usize,
            ),
        )
    }
}

/// Board feature pairs of `items` under `scheme`.
pub open spec fn spec_scheme_board_pairs(scheme: Scheme, b: BoardView, items: Seq<(Piece, Square)>) -> Seq<
    (usize, usize),
> {
    spec_collect(items, |it: (Piece, Square)| spec_scheme_board_pair(scheme, b, it))
}

/// Hand feature pairs of `b` under `scheme`.
pub open spec fn spec_scheme_hand_pairs(scheme: Scheme, b: BoardView) -> Seq<(usize, usize)> {
    spec_collect(spec_hand_items(b), |it: (Color, PieceType, u8)| spec_scheme_hand_pair(scheme, b, it))
}

/// Whether every index of `s` is below `n`.
pub open spec fn spec_pairs_below(s: Seq<(usize, usize)>, n: int) -> bool {
    forall|i: int| 0 <= i < s.len() ==> (#[trigger] s[i]).0 < n && s[i].1 < n
}

/// Appends the board feature pairs of `items` (all indices below `bound`).
pub fn push_board_pairs(
    scheme: Scheme,
    b: &ShogiBoard,
    items: &Vec<(Piece, Square)>,
    bound: usize,
    out: &mut Vec<(usize, usize)>,
)
    requires
        b@.black_king_sq.spec_valid(),
        b@.white_king_sq.spec_valid(),
        forall|j: int| 0 <= j < items@.len() ==> (#[trigger] items@[j]).1.spec_valid(),
        spec_scheme_dims(scheme) <= bound,
        spec_pairs_below(old(out)@, bound as int),
    ensures
        final(out)@ == old(out)@ + spec_scheme_board_pairs(scheme, b@, items@),
        spec_pairs_below(final(out)@, bound as int),
{
    let stm = b.side_to_move;
    let nstm = stm.opponent();
    let ghost start = out@;
    let ghost f = |it: (Piece, Square)| spec_scheme_board_pair(scheme, b@, it);
    let mut i: usize = 0;
    while i < items.len()
        invariant
            i <= items@.len(),
            b@.black_king_sq.spec_valid(),
            b@.white_king_sq.spec_valid(),
            forall|j: int| 0 <= j < items@.len() ==> (#[trigger] items@[j]).1.spec_valid(),
            stm == b.side_to_move,
            nstm == stm.spec_opponent(),
            f == (|it: (Piece, Square)| spec_scheme_board_pair(scheme, b@, it)),
            out@ == start + spec_collect(items@.take(i as int), f),
            spec_scheme_dims(scheme) <= bound,
            spec_pairs_below(out@, bound as int),
        decreases items.len() - i,
    {
        let (piece, sq) = items[i];
        proof {
            lemma_collect_step(items@, f, i as int);
        }
        let s = BonaPiece::from_piece_square(piece, sq, stm);
        let n = BonaPiece::from_piece_square(piece, sq, nstm);
        if s.0 == 0 || (scheme == Scheme::Kkp && n.0 == 0) {
        } else {
            let si = scheme_index(scheme, b, stm, s.0);
            let ni = scheme_index(scheme, b, nstm, n.0);
            let ghost pre = out@;
            out.push((si, ni));
            assert(out@ =~= start + spec_collect(items@.take(i as int + 1), f));
            assert forall|t: int| 0 <= t < out@.len() implies (#[trigger] out@[t]).0 < bound && out@[t].1
                < bound by {
                if t < pre.len() {
                    assert(out@[t] == pre[t]);
                }
            }
        }
        i = i + 1;
    }
    proof {
        lemma_collect_take_all(items@, f);
    }
}

/// Appends the hand feature pairs of `b` (all indices below `bound`).
pub fn push_hand_pairs(scheme: Scheme, b: &ShogiBoard, bound: usize, out: &mut Vec<(usize, usize)>)
    requires
        b@.black_king_sq.spec_valid(),
        b@.white_king_sq.spec_valid(),
        spec_scheme_dims(scheme) <= bound,
        spec_pairs_below(old(out)@, bound as int),
    ensures
        final(out)@ == old(out)@ + spec_scheme_hand_pairs(scheme, b@),
        spec_pairs_below(final(out)@, bound as int),
{
    let stm = b.side_to_move;
    let nstm = stm.opponent();
    let items = hand_items(b);
    let ghost start = out@;
    let ghost f = |it: (Color, PieceType, u8)| spec_scheme_hand_pair(scheme, b@, it);
    let mut i: usize = 0;
    while i < items.len()
        invariant
            i <= items@.len(),
            items@ == spec_hand_items(b@),
            b@.black_king_sq.spec_valid(),
            b@.white_king_sq.spec_valid(),
            stm == b.side_to_move,
            nstm == stm.spec_opponent(),
            f == (|it: (Color, PieceType, u8)| spec_scheme_hand_pair(scheme, b@, it)),
            out@ == start + spec_collect(items@.take(i as int), f),
            spec_scheme_dims(scheme) <= bound,
            spec_pairs_below(out@, bound as int),
        decreases items.len() - i,
    {
        let (owner, pt, c) = items[i];
        proof {
            lemma_collect_step(items@, f, i as int);
        }
        let s = BonaPiece::from_hand_piece(stm, owner, pt, c);
        let n = BonaPiece::from_hand_piece(nstm, owner, pt, c);
        if s.0 == 0 || (scheme == Scheme::Kkp && n.0 == 0) {
        } else {
            let si = scheme_index(scheme, b, stm, s.0);
            let ni = scheme_index(scheme, b, nstm, n.0);
            let ghost pre = out@;
            out.push((si, ni));
            assert(out@ =~= start + spec_collect(items@.take(i as int + 1), f));
            assert forall|t: int| 0 <= t < out@.len() implies (#[trigger] out@[t]).0 < bound && out@[t].1
                < bound by {
                if t < pre.len() {
                    assert(out@[t] == pre[t]);
                }
            }
        }
        i = i + 1;
    }
    proof {
        lemma_collect_take_all(items@, f);
    }
}


/// The two king pairs of the HalfKA-style families: (own king, own king),
/// then (other king, other king), each seen from both perspectives.
pub open spec fn spec_scheme_king_pairs(scheme: Scheme, b: BoardView) -> Seq<(usize, usize)> {
    let stm = b.side_to_move;
    let nstm = stm.spec_opponent();
    let sk = b.spec_king_square(stm);
    let nk = b.spec_king_square(nstm);
    seq![
        (
            spec_scheme_index(scheme, b, stm, F_KING + spec_sq_index_from(sk, stm)) as usize,
            spec_scheme_index(scheme, b, nstm, F_KING + spec_sq_index_from(nk, nstm)) as usize,
        ),
        (
            spec_scheme_index(scheme, b, stm, E_KING + spec_sq_index_from(nk, stm)) as usize,
            spec_scheme_index(scheme, b, nstm, E_KING + spec_sq_index_from(sk, nstm)) as usize,
        ),
    ]
}

/// Appends the two king pairs (see [`spec_scheme_king_pairs`]).
pub fn push_king_pairs(scheme: Scheme, b: &ShogiBoard, bound: usize, out: &mut Vec<(usize, usize)>)
    requires
        b@.black_king_sq.spec_valid(),
        b@.white_king_sq.spec_valid(),
        scheme == Scheme::Ka2 || scheme == Scheme::Hm1 || scheme == Scheme::Hm2,
        spec_scheme_dims(scheme) <= bound,
        spec_pairs_below(old(out)@, bound as int),
    ensures
        final(out)@ == old(out)@ + spec_scheme_king_pairs(scheme, b@),
        spec_pairs_below(final(out)@, bound as int),
{
    let stm = b.side_to_move;
    let nstm = stm.opponent();
    let sk = b.king_square(stm);
    let nk = b.king_square(nstm);
    assert(sk.spec_valid() && nk.spec_valid()) by {
        match stm {
            Color::Black => {},
            Color::White => {},
        }
    }
    let a = scheme_index(scheme, b, stm, F_KING + sq_index_from(sk, stm) as u16);
    let c = scheme_index(scheme, b, nstm, F_KING + sq_index_from(nk, nstm) as u16);
    let d = scheme_index(scheme, b, stm, E_KING + sq_index_from(nk, stm) as u16);
    let e = scheme_index(scheme, b, nstm, E_KING + sq_index_from(sk, nstm) as u16);
    let ghost pre = out@;
    out.push((a, c));
    out.push((d, e));
    assert(out@ =~= pre + spec_scheme_king_pairs(scheme, b@));
    assert forall|t: int| 0 <= t < out@.len() implies (#[trigger] out@[t]).0 < bound && out@[t].1 < bound by {
        if t < pre.len() {
            assert(out@[t] == pre[t]);
        }
    }
}

} // verus!

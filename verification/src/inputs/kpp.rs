//! KPP: one input per (own king, unordered pair of non-king pieces), the
//! pair's BonaPieces in ascending order:
//! `index = king * 1548 * 1548 + lo * 1548 + hi`.

use vstd::prelude::*;
use crate::inputs::piece_features::spec_pairs_below;
use crate::seqs::{lemma_collect_step, lemma_collect_take_all, lemma_flat_map_step, lemma_flat_map_take_all, spec_collect, spec_flat_map};
use crate::shogi::board::{
    BoardView, ShogiBoard, board_items, hand_items, lemma_board_items_valid, spec_board_items, spec_hand_items,
};
use crate::shogi::bona_piece::BonaPiece;
use crate::shogi::packed_sfen::{PackedSfenValue, spec_decode};
use crate::shogi::types::{Color, Piece, PieceType, Square};

verus! {

/// BonaPieces (`fe_end`).
pub const KPP_FE_END: usize = 1548;

/// KPP input dimension: 81 x 1548 x 1548.
pub const KPP_INPUTS: usize = 194100624;

/// Most features active at once: pairs of 38 pieces.
pub const KPP_MAX_ACTIVE: usize = 703;

/// KPP feature set.
#[derive(Clone, Copy, Debug, Default)]
pub struct ShogiKpp;

/// King square of perspective `p` seen from `p`'s side; `None` when the
/// king is off the board.
pub open spec fn spec_my_king_index(b: BoardView, p: Color) -> Option<int> {
    let k = b.spec_king_square(p);
    if !k.spec_valid() {
        None
    } else if p == Color::Black {
        Some(k.0 as int)
    } else {
        Some(k.spec_inverse().0 as int)
    }
}

pub fn my_king_index(board: &ShogiBoard, p: Color) -> (r: Option<usize>)
    ensures
        match spec_my_king_index(board@, p) {
            Some(k) => r == Some(k as usize) && k < 81,
            None => r is None,
        },
{
    let k = board.king_square(p);
    if !k.is_valid() {
        return None;
    }
    match p {
        Color::Black => Some(k.index()),
        Color::White => Some(k.inverse().index()),
    }
}

/// Non-king BonaPieces of a position from perspective `p`: board pieces in
/// enumeration order, then hand pieces, zero BonaPieces left out.
pub open spec fn spec_bonapieces(b: BoardView, p: Color) -> Seq<u32> {
    spec_collect(
        spec_board_items(b),
        |it: (Piece, Square)|
            {
                let bp = BonaPiece::spec_from_piece_square(it.0, it.1, p);
                if bp.0 == 0 {
                    None
                } else {
                    Some(bp.0 as u32)
                }
            },
    ) + spec_collect(
        spec_hand_items(b),
        |it: (Color, PieceType, u8)|
            {
                let bp = BonaPiece::spec_from_hand_piece(p, it.0, it.1, it.2);
                if bp.0 == 0 {
                    None
                } else {
                    Some(bp.0 as u32)
                }
            },
    )
}

/// The non-king BonaPieces of `board` from perspective `p` (see
/// [`spec_bonapieces`]); each below 1548.
pub fn list_bonapieces(board: &ShogiBoard, p: Color) -> (r: Vec<u32>)
    ensures
        r@ == spec_bonapieces(board@, p),
        forall|i: int| 0 <= i < r@.len() ==> r@[i] < 1548,
{
    let ghost f = |it: (Piece, Square)|
        {
            let bp = BonaPiece::spec_from_piece_square(it.0, it.1, p);
            if bp.0 == 0 {
                None
            } else {
                Some(bp.0 as u32)
            }
        };
    let ghost g = |it: (Color, PieceType, u8)|
        {
            let bp = BonaPiece::spec_from_hand_piece(p, it.0, it.1, it.2);
            if bp.0 == 0 {
                None
            } else {
                Some(bp.0 as u32)
            }
        };
    let items = board_items(board);
    proof {
        lemma_board_items_valid(board@);
    }
    let mut out: Vec<u32> = Vec::new();
    let mut i: usize = 0;
    while i < items.len()
        invariant
            i <= items@.len(),
            items@ == spec_board_items(board@),
            forall|j: int|
                0 <= j < spec_board_items(board@).len() ==> {
                    let it = #[trigger] spec_board_items(board@)[j];
                    &&& it.1.0 < 81
                },
            f == (|it: (Piece, Square)|
                {
                    let bp = BonaPiece::spec_from_piece_square(it.0, it.1, p);
                    if bp.0 == 0 {
                        None
                    } else {
                        Some(bp.0 as u32)
                    }
                }),
            out@ == spec_collect(items@.take(i as int), f),
            forall|k: int| 0 <= k < out@.len() ==> out@[k] < 1548,
        decreases items@.len() - i,
    {
        let (piece, sq) = items[i];
        proof {
            lemma_collect_step(items@, f, i as int);
        }
        let bp = BonaPiece::from_piece_square(piece, sq, p);
        if bp.value() != 0 {
            out.push(bp.value() as u32);
        }
        i = i + 1;
    }
    proof {
        lemma_collect_take_all(items@, f);
    }
    let ghost first = out@;
    let hitems = hand_items(board);
    let mut j: usize = 0;
    while j < hitems.len()
        invariant
            j <= hitems@.len(),
            hitems@ == spec_hand_items(board@),
            g == (|it: (Color, PieceType, u8)|
                {
                    let bp = BonaPiece::spec_from_hand_piece(p, it.0, it.1, it.2);
                    if bp.0 == 0 {
                        None
                    } else {
                        Some(bp.0 as u32)
                    }
                }),
            out@ == first + spec_collect(hitems@.take(j as int), g),
            forall|k: int| 0 <= k < out@.len() ==> out@[k] < 1548,
        decreases hitems@.len() - j,
    {
        let (owner, pt, c) = hitems[j];
        proof {
            lemma_collect_step(hitems@, g, j as int);
        }
        let bp = BonaPiece::from_hand_piece(p, owner, pt, c);
        if bp.value() != 0 {
            out.push(bp.value() as u32);
        }
        j = j + 1;
    }
    proof {
        lemma_collect_take_all(hitems@, g);
    }
    out
}

/// `s` is in ascending order.
pub open spec fn spec_ascending(s: Seq<u32>) -> bool {
    forall|i: int, j: int| 0 <= i <= j < s.len() ==> s[i] <= s[j]
}

/// Sorts `v` in ascending order: `slice::sort_unstable` of std, which
/// leaves the same elements in ascending order.
#[verifier::external_body]
fn sort_ascending(v: &mut Vec<u32>)
    ensures
        final(v)@.to_multiset() == old(v)@.to_multiset(),
        spec_ascending(final(v)@),
{
    v.sort_unstable();
}

/// KPP index of king square `k` and BonaPieces `a`, `b` (ordered first).
pub open spec fn spec_kpp_index(k: int, a: int, b: int) -> int {
    let lo = if a <= b {
        a
    } else {
        b
    };
    let hi = if a <= b {
        b
    } else {
        a
    };
    k * 1548 * 1548 + lo * 1548 + hi
}

/// Pairs of row `i`: element `i` with each later element `j < n`, in both
/// perspectives.
pub open spec fn spec_kpp_row(s: Seq<u32>, t: Seq<u32>, sk: int, nk: int, n: int, i: int) -> Seq<(usize, usize)> {
    Seq::new(
        (n - i - 1) as nat,
        |d: int|
            (
                spec_kpp_index(sk, s[i] as int, s[i + 1 + d] as int) as usize,
                spec_kpp_index(nk, t[i] as int, t[i + 1 + d] as int) as usize,
            ),
    )
}

/// KPP features from the sorted BonaPiece lists `s` and `t` of the two
/// perspectives: every pair `i < j` below the shorter length, in
/// lexicographic order.
pub open spec fn spec_kpp_pairs(s: Seq<u32>, t: Seq<u32>, sk: int, nk: int) -> Seq<(usize, usize)> {
    let n = if s.len() <= t.len() {
        s.len() as int
    } else {
        t.len() as int
    };
    spec_flat_map(Seq::new(n as nat, |i: int| i), |i: int| spec_kpp_row(s, t, sk, nk, n, i))
}

/// KPP features of a position: none when a king is missing, else the pairs
/// of its sorted BonaPiece lists (each the sorted permutation of
/// [`spec_bonapieces`] of its perspective).
pub open spec fn spec_kpp_features_of(b: BoardView, s: Seq<u32>, t: Seq<u32>) -> Seq<(usize, usize)> {
    let stm = b.side_to_move;
    match (spec_my_king_index(b, stm), spec_my_king_index(b, stm.spec_opponent())) {
        (Some(sk), Some(nk)) => spec_kpp_pairs(s, t, sk, nk),
        _ => Seq::empty(),
    }
}

/// A KPP index is canonical: it splits back into its king square and its
/// pair with the lower BonaPiece first, whichever order the pair came in.
pub proof fn lemma_kpp_index_canonical(k: int, a: int, b: int)
    requires
        0 <= k < 81,
        0 <= a < 1548,
        0 <= b < 1548,
    ensures
        spec_kpp_index(k, a, b) == spec_kpp_index(k, b, a),
        spec_kpp_index(k, a, b) / 2396304int == k,
        (spec_kpp_index(k, a, b) % 2396304int) / 1548 <= spec_kpp_index(k, a, b) % 1548,
        (spec_kpp_index(k, a, b) % 2396304int) / 1548 == if a <= b {
            a
        } else {
            b
        },
{
    let lo = if a <= b {
        a
    } else {
        b
    };
    let hi = if a <= b {
        b
    } else {
        a
    };
    let x = k * 1548 * 1548 + lo * 1548 + hi;
    assert(x / 2396304int == k && x % 2396304int == lo * 1548 + hi) by (nonlinear_arith)
        requires
            x == k * 1548 * 1548 + lo * 1548 + hi,
            0 <= lo < 1548,
            0 <= hi < 1548,
            0 <= k,
    ;
    assert((lo * 1548 + hi) / 1548 == lo && (lo * 1548 + hi) % 1548 == hi) by (nonlinear_arith)
        requires
            0 <= lo < 1548,
            0 <= hi < 1548,
    ;
    assert(x % 1548 == hi) by (nonlinear_arith)
        requires
            x == k * 1548 * 1548 + lo * 1548 + hi,
            0 <= lo < 1548,
            0 <= hi < 1548,
            0 <= k,
    ;
}

fn kpp_index(k: usize, a: u32, b: u32) -> (r: usize)
    requires
        k < 81,
        a < 1548,
        b < 1548,
    ensures
        r == spec_kpp_index(k as int, a as int, b as int),
        r < KPP_INPUTS,
{
    let (lo, hi) = if a <= b {
        (a as usize, b as usize)
    } else {
        (b as usize, a as usize)
    };
    assert(k * 1548 * 1548 + lo * 1548 + hi < 194100624) by (nonlinear_arith)
        requires
            k < 81,
            lo < 1548,
            hi < 1548,
    ;
    k * 1548 * 1548 + lo * 1548 + hi
}

/// `s` in ascending order.
pub open spec fn spec_sorted(s: Seq<u32>) -> Seq<u32> {
    s.sort_by(|a: u32, b: u32| a <= b)
}

/// An ascending sequence with the elements of `s` is `s` sorted.
pub proof fn lemma_ascending_is_sorted(t: Seq<u32>, s: Seq<u32>)
    requires
        spec_ascending(t),
        t.to_multiset() == s.to_multiset(),
    ensures
        t == spec_sorted(s),
{
    let leq = |a: u32, b: u32| a <= b;
    assert(vstd::relations::total_ordering(leq));
    s.lemma_sort_by_ensures(leq);
    assert(vstd::relations::sorted_by(t, leq));
    vstd::seq_lib::lemma_sorted_unique(t, spec_sorted(s), leq);
}

/// KPP features of a decoded position: both perspectives' BonaPiece lists
/// sorted, then every pair `i < j` (see [`spec_kpp_features_of`]); every
/// index is below [`KPP_INPUTS`].
pub fn map_kpp_features(board: &ShogiBoard) -> (r: Vec<(usize, usize)>)
    ensures
        r@ == spec_kpp_features_of(
            board@,
            spec_sorted(spec_bonapieces(board@, board@.side_to_move)),
            spec_sorted(spec_bonapieces(board@, board@.side_to_move.spec_opponent())),
        ),
        spec_pairs_below(r@, KPP_INPUTS as int),
{
    let stm = board.side_to_move;
    let nstm = stm.opponent();
    let mut out: Vec<(usize, usize)> = Vec::new();
    let mut sb = list_bonapieces(board, stm);
    let mut nb = list_bonapieces(board, nstm);
    let ghost s0 = sb@;
    let ghost t0 = nb@;
    sort_ascending(&mut sb);
    sort_ascending(&mut nb);
    proof {
        lemma_ascending_is_sorted(sb@, s0);
        lemma_ascending_is_sorted(nb@, t0);
        broadcast use vstd::seq_lib::group_to_multiset_ensures;

        assert forall|i: int| 0 <= i < sb@.len() implies sb@[i] < 1548 by {
            assert(sb@.contains(sb@[i]));
            assert(sb@.to_multiset().count(sb@[i]) > 0);
            assert(s0.contains(sb@[i]));
        }
        assert forall|i: int| 0 <= i < nb@.len() implies nb@[i] < 1548 by {
            assert(nb@.contains(nb@[i]));
            assert(nb@.to_multiset().count(nb@[i]) > 0);
            assert(t0.contains(nb@[i]));
        }
    }
    let sk = match my_king_index(board, stm) {
        Some(v) => v,
        None => {
            assert(spec_kpp_features_of(board@, sb@, nb@) =~= Seq::<(usize, usize)>::empty());
            return out;
        },
    };
    let nk = match my_king_index(board, nstm) {
        Some(v) => v,
        None => {
            assert(spec_kpp_features_of(board@, sb@, nb@) =~= Seq::<(usize, usize)>::empty());
            return out;
        },
    };
    let n = if sb.len() <= nb.len() {
        sb.len()
    } else {
        nb.len()
    };
    let ghost idxs = Seq::new(n as nat, |i: int| i);
    let ghost rowf = |i: int| spec_kpp_row(sb@, nb@, sk as int, nk as int, n as int, i);
    let mut i: usize = 0;
    while i < n
        invariant
            i <= n,
            n <= sb@.len(),
            n <= nb@.len(),
            sk < 81,
            nk < 81,
            forall|k: int| 0 <= k < sb@.len() ==> sb@[k] < 1548,
            forall|k: int| 0 <= k < nb@.len() ==> nb@[k] < 1548,
            idxs == Seq::new(n as nat, |i: int| i),
            rowf == (|i: int| spec_kpp_row(sb@, nb@, sk as int, nk as int, n as int, i)),
            out@ == spec_flat_map(idxs.take(i as int), rowf),
            spec_pairs_below(out@, KPP_INPUTS as int),
        decreases n - i,
    {
        proof {
            lemma_flat_map_step(idxs, rowf, i as int);
        }
        let ghost base = out@;
        let mut j: usize = i + 1;
        while j < n
            invariant
                i < j <= n,
                n <= sb@.len(),
                n <= nb@.len(),
                sk < 81,
                nk < 81,
                forall|k: int| 0 <= k < sb@.len() ==> sb@[k] < 1548,
                forall|k: int| 0 <= k < nb@.len() ==> nb@[k] < 1548,
                out@ == base + spec_kpp_row(sb@, nb@, sk as int, nk as int, n as int, i as int).take(j - i - 1),
                spec_pairs_below(out@, KPP_INPUTS as int),
            decreases n - j,
        {
            let si = kpp_index(sk, sb[i], sb[j]);
            let ni = kpp_index(nk, nb[i], nb[j]);
            out.push((si, ni));
            let ghost row = spec_kpp_row(sb@, nb@, sk as int, nk as int, n as int, i as int);
            assert(row.take(j - i) =~= row.take(j - i - 1).push(row[j - i - 1]));
            j = j + 1;
        }
        let ghost row = spec_kpp_row(sb@, nb@, sk as int, nk as int, n as int, i as int);
        assert(row.take(n - i - 1) =~= row);
        assert(idxs[i as int] == i as int);
        i = i + 1;
    }
    proof {
        lemma_flat_map_take_all(idxs, rowf);
        assert(spec_kpp_features_of(board@, sb@, nb@) == out@);
    }
    out
}

impl ShogiKpp {
    pub fn num_inputs(&self) -> (r: usize)
        ensures
            r == KPP_INPUTS,
    {
        KPP_INPUTS
    }

    pub fn max_active(&self) -> (r: usize)
        ensures
            r == KPP_MAX_ACTIVE,
    {
        KPP_MAX_ACTIVE
    }

    /// KPP features of a training record (see [`map_kpp_features`]).
    pub fn map_features(&self, pos: &PackedSfenValue) -> (r: Vec<(usize, usize)>)
        ensures
            r@ == spec_kpp_features_of(
                spec_decode(pos.data@),
                spec_sorted(spec_bonapieces(spec_decode(pos.data@), spec_decode(pos.data@).side_to_move)),
                spec_sorted(
                    spec_bonapieces(spec_decode(pos.data@), spec_decode(pos.data@).side_to_move.spec_opponent()),
                ),
            ),
            spec_pairs_below(r@, KPP_INPUTS as int),
    {
        let board = ShogiBoard::from_packed_sfen(pos);
        map_kpp_features(&board)
    }

    pub fn shorthand(&self) -> (r: String)
        ensures
            r@ == "ShogiKpp"@,
    {
        "ShogiKpp".to_owned()
    }

    pub fn description(&self) -> (r: String)
        ensures
            r@ == "Shogi KPP input (194100624 dims = 81*1548*1548, max_active=703; for KPPT-style training, canonicalised p1 < p2)"@,
    {
        "Shogi KPP input (194100624 dims = 81*1548*1548, max_active=703; for KPPT-style training, canonicalised p1 < p2)".to_owned()
    }
}

} // verus!

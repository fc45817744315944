//! Left-right symmetry of the half-mirrored feature sets (HalfKP_vm,
//! HalfKA_hm1, HalfKA_hm2): a board and its reflection have the same
//! features, counted with multiplicity, while both kings stay off the
//! centre file.

use vstd::prelude::*;
use vstd::multiset::Multiset;
use crate::inputs::halfka::{
    lemma_mirror_bp_of_board, lemma_mirror_idx_facts, spec_bucket_of, spec_hm_mirrored, spec_kings_valid,
    spec_mirror_file_idx, spec_sq_index_from,
};
use crate::inputs::halfka_hm1::spec_halfka_hm1_features;
use crate::inputs::halfka_hm2::spec_halfka_hm2_features;
use crate::inputs::halfkpvm::spec_halfkpvm_features;
use crate::inputs::piece_features::{
    Scheme, spec_persp_ksq, spec_scheme_board_pair, spec_scheme_board_pairs, spec_scheme_hand_pair,
    spec_scheme_hand_pairs, spec_scheme_index, spec_scheme_king_pairs,
};
use crate::seqs::spec_collect;
use crate::shogi::board::{
    BoardView, lemma_group_piece_in_range, spec_board_items, spec_board_items_upto, spec_group_piece,
    spec_hand_items, spec_hand_items_upto,
};
use crate::shogi::bona_piece::{BonaPiece, E_KING, F_KING, spec_board_bases, spec_sq_from};
use crate::shogi::types::{Color, Piece, PieceType, Square};

verus! {

broadcast use vstd::multiset::group_multiset_axioms;

/// The multiset sum of `g(0)`, ..., `g(n - 1)`.
pub open spec fn spec_msum<T>(g: spec_fn(int) -> Multiset<T>, n: int) -> Multiset<T>
    decreases n,
{
    if n <= 0 {
        Multiset::empty()
    } else {
        spec_msum(g, n - 1).add(g(n - 1))
    }
}

/// Sums of terms that agree on the range agree.
proof fn lemma_msum_congruent<T>(g1: spec_fn(int) -> Multiset<T>, g2: spec_fn(int) -> Multiset<T>, n: int)
    requires
        forall|i: int| 0 <= i < n ==> #[trigger] g1(i) == g2(i),
    ensures
        spec_msum(g1, n) == spec_msum(g2, n),
    decreases n,
{
    if n > 0 {
        lemma_msum_congruent(g1, g2, n - 1);
    }
}

/// A sum over `a + k` terms splits after the first `a`.
proof fn lemma_msum_split<T>(g: spec_fn(int) -> Multiset<T>, a: int, k: int)
    requires
        0 <= a,
        0 <= k,
    ensures
        spec_msum(g, a + k) =~= spec_msum(g, a).add(spec_msum(|r: int| g(a + r), k)),
    decreases k,
{
    if k > 0 {
        lemma_msum_split(g, a, k - 1);
        assert(spec_msum(g, a + k) == spec_msum(g, a + k - 1).add(g(a + k - 1)));
    }
}

/// The sum of the 9 files of a 9-wide block of squares, one file at a time.
pub open spec fn spec_file_sum<T>(g: spec_fn(int) -> Multiset<T>, f: int) -> Multiset<T> {
    spec_msum(|r: int| g(9 * f + r), 9)
}

proof fn lemma_msum_by_files<T>(g: spec_fn(int) -> Multiset<T>, n: int)
    requires
        0 <= n,
    ensures
        spec_msum(g, 9 * n) == spec_msum(|f: int| spec_file_sum(g, f), n),
    decreases n,
{
    if n > 0 {
        lemma_msum_by_files(g, n - 1);
        lemma_msum_split(g, 9 * (n - 1), 9);
        assert(9 * (n - 1) + 9 == 9 * n);
    }
}

proof fn lemma_msum_nine_reversed<T>(h: spec_fn(int) -> Multiset<T>)
    ensures
        spec_msum(|f: int| h(8 - f), 9) =~= spec_msum(h, 9),
{
    reveal_with_fuel(spec_msum, 10);
}

/// Summing over the 81 squares in mirrored order gives the same multiset.
pub proof fn lemma_msum_mirror<T>(g: spec_fn(int) -> Multiset<T>)
    ensures
        spec_msum(|j: int| g(spec_mirror_file_idx(j)), 81) == spec_msum(g, 81),
{
    let gm = |j: int| g(spec_mirror_file_idx(j));
    lemma_msum_by_files(g, 9);
    lemma_msum_by_files(gm, 9);
    assert forall|f: int| 0 <= f < 9 implies spec_file_sum(gm, f) == spec_file_sum(g, 8 - f) by {
        let a = |r: int| gm(9 * f + r);
        let c = |r: int| g(9 * (8 - f) + r);
        assert forall|r: int| 0 <= r < 9 implies #[trigger] a(r) == c(r) by {
            assert(spec_mirror_file_idx(9 * f + r) == 9 * (8 - f) + r) by (nonlinear_arith)
                requires
                    0 <= f < 9,
                    0 <= r < 9,
            ;
        }
        lemma_msum_congruent(a, c, 9);
    }
    let h = |f: int| spec_file_sum(g, f);
    lemma_msum_congruent(|f: int| spec_file_sum(gm, f), |f: int| h(8 - f), 9);
    lemma_msum_nine_reversed(h);
}

/// `b` reflected left to right: the content of every square moves to the
/// mirrored square, both kings with it; hands and side to move stay.
pub open spec fn spec_mirror_board(b: BoardView) -> BoardView {
    BoardView {
        board: Seq::new(81, |i: int| b.board[spec_mirror_file_idx(i)]),
        side_to_move: b.side_to_move,
        black_king_sq: b.black_king_sq.spec_mirror_file(),
        white_king_sq: b.white_king_sq.spec_mirror_file(),
        black_hand: b.black_hand,
        white_hand: b.white_hand,
    }
}

/// Both kings stand on the board, off the centre file.
pub open spec fn spec_kings_off_centre(b: BoardView) -> bool {
    &&& spec_kings_valid(b)
    &&& b.black_king_sq.spec_file() != 4
    &&& b.white_king_sq.spec_file() != 4
}

/// The feature sets whose king buckets fold files 6-9 onto files 1-5.
pub open spec fn spec_folds_files(scheme: Scheme) -> bool {
    scheme == Scheme::HalfKpVm || scheme == Scheme::Hm1 || scheme == Scheme::Hm2
}

proof fn lemma_sq_mirror(sq: Square, c: Color)
    requires
        sq.spec_valid(),
    ensures
        sq.spec_mirror_file().spec_valid(),
        sq.spec_mirror_file().0 == spec_mirror_file_idx(sq.0 as int),
        0 <= spec_sq_from(sq, c) < 81,
        spec_sq_from(sq, c) == spec_sq_index_from(sq, c),
        spec_sq_from(sq.spec_mirror_file(), c) == spec_mirror_file_idx(spec_sq_from(sq, c)),
        sq.spec_file() != 4 ==> spec_sq_from(sq, c) / 9 != 4,
{
    lemma_mirror_idx_facts(sq.0 as int);
    assert(sq.spec_mirror_file().0 == spec_mirror_file_idx(sq.0 as int));
    if c == Color::White {
        assert(80 - spec_mirror_file_idx(sq.0 as int) == spec_mirror_file_idx(80 - sq.0) && (80 - sq.0) / 9 == 8
            - sq.0 / 9) by (nonlinear_arith)
            requires
                0 <= sq.0 < 81,
        ;
    }
}

proof fn lemma_persp_ksq_mirror(b: BoardView, c: Color)
    requires
        spec_kings_off_centre(b),
    ensures
        0 <= spec_persp_ksq(b, c) < 81,
        spec_persp_ksq(b, c) / 9 != 4,
        spec_persp_ksq(spec_mirror_board(b), c) == spec_mirror_file_idx(spec_persp_ksq(b, c)),
{
    lemma_sq_mirror(b.spec_king_square(c), c);
    assert(spec_mirror_board(b).spec_king_square(c) == b.spec_king_square(c).spec_mirror_file());
}

/// Off the centre file, a king square and its mirror share a bucket, and
/// exactly one of them is mirrored.
proof fn lemma_bucket_mirror(k: int)
    requires
        0 <= k < 81,
        k / 9 != 4,
    ensures
        spec_bucket_of(spec_mirror_file_idx(k)) == spec_bucket_of(k),
        spec_hm_mirrored(spec_mirror_file_idx(k)) == !spec_hm_mirrored(k),
{
    lemma_mirror_idx_facts(k);
}

/// A hand BonaPiece gets the same index from a board and its reflection.
proof fn lemma_hand_index_mirror(scheme: Scheme, b: BoardView, persp: Color, bp: int)
    requires
        spec_folds_files(scheme),
        spec_kings_off_centre(b),
        0 <= bp < 90,
    ensures
        spec_scheme_index(scheme, spec_mirror_board(b), persp, bp) == spec_scheme_index(scheme, b, persp, bp),
{
    lemma_persp_ksq_mirror(b, persp);
    lemma_bucket_mirror(spec_persp_ksq(b, persp));
}

/// A board (or king) BonaPiece `base + y` gets, from the reflected board,
/// the index that `base` plus the mirrored square gets from the board.
proof fn lemma_board_index_mirror(scheme: Scheme, b: BoardView, persp: Color, base: int, y: int)
    requires
        spec_folds_files(scheme),
        spec_kings_off_centre(b),
        90 <= base <= 1629,
        (base - 90) % 81 == 0,
        0 <= y < 81,
    ensures
        spec_scheme_index(scheme, spec_mirror_board(b), persp, base + spec_mirror_file_idx(y)) == spec_scheme_index(
            scheme,
            b,
            persp,
            base + y,
        ),
{
    let k = spec_persp_ksq(b, persp);
    lemma_persp_ksq_mirror(b, persp);
    lemma_bucket_mirror(k);
    lemma_mirror_idx_facts(y);
    lemma_mirror_bp_of_board(base, y);
    lemma_mirror_bp_of_board(base, spec_mirror_file_idx(y));
}

/// A board piece on `sq` has, on the reflected board, on the mirrored
/// square, the feature pair it has on the board.
pub proof fn lemma_board_pair_mirror(scheme: Scheme, b: BoardView, p: Piece, sq: Square)
    requires
        spec_folds_files(scheme),
        spec_kings_off_centre(b),
        sq.spec_valid(),
        spec_board_bases(p.piece_type) is Some,
    ensures
        spec_scheme_board_pair(scheme, spec_mirror_board(b), (p, sq.spec_mirror_file()))
            == spec_scheme_board_pair(scheme, b, (p, sq)),
{
    let (fb, eb) = spec_board_bases(p.piece_type)->0;
    assert(90 <= fb <= 1467 && (fb - 90) % 81 == 0 && 90 <= eb <= 1467 && (eb - 90) % 81 == 0);
    let stm = b.side_to_move;
    let nstm = stm.spec_opponent();
    lemma_sq_mirror(sq, stm);
    lemma_sq_mirror(sq, nstm);
    let bs = if p.color == stm { fb } else { eb } as int;
    let bn = if p.color == nstm { fb } else { eb } as int;
    lemma_board_index_mirror(scheme, b, stm, bs, spec_sq_from(sq, stm));
    lemma_board_index_mirror(scheme, b, nstm, bn, spec_sq_from(sq, nstm));
    assert(BonaPiece::spec_from_piece_square(p, sq.spec_mirror_file(), stm).0 == bs + spec_mirror_file_idx(
        spec_sq_from(sq, stm),
    ));
    assert(BonaPiece::spec_from_piece_square(p, sq.spec_mirror_file(), nstm).0 == bn + spec_mirror_file_idx(
        spec_sq_from(sq, nstm),
    ));
}

/// A hand piece has the same feature pair on a board and its reflection.
pub proof fn lemma_hand_pair_mirror(scheme: Scheme, b: BoardView, it: (Color, PieceType, u8))
    requires
        spec_folds_files(scheme),
        spec_kings_off_centre(b),
    ensures
        spec_scheme_hand_pair(scheme, spec_mirror_board(b), it) == spec_scheme_hand_pair(scheme, b, it),
{
    let stm = b.side_to_move;
    let nstm = stm.spec_opponent();
    let s = BonaPiece::spec_from_hand_piece(stm, it.0, it.1, it.2);
    let n = BonaPiece::spec_from_hand_piece(nstm, it.0, it.1, it.2);
    assert(s.0 < 90 && n.0 < 90);
    lemma_hand_index_mirror(scheme, b, stm, s.0 as int);
    lemma_hand_index_mirror(scheme, b, nstm, n.0 as int);
}

/// Collecting over a concatenation is concatenating the collections.
proof fn lemma_collect_append<A, B>(a: Seq<A>, c: Seq<A>, f: spec_fn(A) -> Option<B>)
    ensures
        spec_collect(a + c, f) == spec_collect(a, f) + spec_collect(c, f),
    decreases c.len(),
{
    if c.len() == 0 {
        assert(a + c =~= a);
        assert(spec_collect(c, f) =~= Seq::<B>::empty());
        assert(spec_collect(a, f) + spec_collect(c, f) =~= spec_collect(a, f));
    } else {
        lemma_collect_append(a, c.drop_last(), f);
        assert((a + c).drop_last() =~= a + c.drop_last());
        assert((a + c).last() == c.last());
        match f(c.last()) {
            Some(x) => {
                assert(spec_collect(a, f) + spec_collect(c, f) =~= (spec_collect(a, f) + spec_collect(
                    c.drop_last(),
                    f,
                )).push(x));
            },
            None => {},
        }
    }
}

/// Collecting with two functions that agree on the elements gives the same.
proof fn lemma_collect_congruent<A, B>(s: Seq<A>, f: spec_fn(A) -> Option<B>, g: spec_fn(A) -> Option<B>)
    requires
        forall|i: int| 0 <= i < s.len() ==> #[trigger] f(s[i]) == g(s[i]),
    ensures
        spec_collect(s, f) == spec_collect(s, g),
    decreases s.len(),
{
    if s.len() > 0 {
        assert forall|i: int| 0 <= i < s.drop_last().len() implies #[trigger] f(s.drop_last()[i]) == g(
            s.drop_last()[i],
        ) by {
            assert(s.drop_last()[i] == s[i]);
        }
        lemma_collect_congruent(s.drop_last(), f, g);
        assert(f(s[s.len() - 1]) == g(s[s.len() - 1]));
    }
}

/// What square `i` holding `p` adds to the feature pairs collected by `f`.
pub open spec fn spec_sq_term(
    b: BoardView,
    p: Piece,
    f: spec_fn((Piece, Square)) -> Option<(usize, usize)>,
    i: int,
) -> Multiset<(usize, usize)> {
    if b.board[i] == p {
        match f((p, Square(i as u8))) {
            Some(x) => Multiset::singleton(x),
            None => Multiset::empty(),
        }
    } else {
        Multiset::empty()
    }
}

/// The pairs collected over the squares of `p` among the first `n` are the
/// sum of the square terms.
proof fn lemma_group_as_sum(b: BoardView, p: Piece, f: spec_fn((Piece, Square)) -> Option<(usize, usize)>, n: int)
    requires
        0 <= n <= 81,
    ensures
        spec_collect(b.spec_pieces_upto(p.color, p.piece_type, n).map_values(|sq: Square| (p, sq)), f).to_multiset()
            == spec_msum(|i: int| spec_sq_term(b, p, f, i), n),
    decreases n,
{
    broadcast use vstd::seq_lib::group_to_multiset_ensures;

    let m = |sq: Square| (p, sq);
    if n == 0 {
        assert(b.spec_pieces_upto(p.color, p.piece_type, 0).map_values(m) =~= Seq::<(Piece, Square)>::empty());
        assert(spec_collect(Seq::<(Piece, Square)>::empty(), f) =~= Seq::<(usize, usize)>::empty());
        assert(Seq::<(usize, usize)>::empty().to_multiset() =~= Multiset::empty());
    } else {
        lemma_group_as_sum(b, p, f, n - 1);
        let prev = b.spec_pieces_upto(p.color, p.piece_type, n - 1);
        let g = |i: int| spec_sq_term(b, p, f, i);
        assert(spec_msum(g, n) == spec_msum(g, n - 1).add(g(n - 1)));
        assert(p == (Piece { piece_type: p.piece_type, color: p.color }));
        if b.board[n - 1] == p {
            let t = prev.map_values(m).push((p, Square((n - 1) as u8)));
            assert(b.spec_pieces_upto(p.color, p.piece_type, n).map_values(m) =~= t);
            assert(t.drop_last() =~= prev.map_values(m));
            match f((p, Square((n - 1) as u8))) {
                Some(x) => {
                    assert(spec_collect(t, f) == spec_collect(prev.map_values(m), f).push(x));
                    assert(spec_collect(prev.map_values(m), f).to_multiset().insert(x) =~= spec_msum(g, n - 1).add(
                        Multiset::singleton(x),
                    ));
                },
                None => {
                    assert(spec_msum(g, n) =~= spec_msum(g, n - 1));
                },
            }
        } else {
            assert(b.spec_pieces_upto(p.color, p.piece_type, n).map_values(m) =~= prev.map_values(m));
            assert(spec_msum(g, n) =~= spec_msum(g, n - 1));
        }
    }
}

/// The pairs of one (kind, colour) group are, counted with multiplicity,
/// the same on a board and on its reflection.
proof fn lemma_group_mirror(scheme: Scheme, b: BoardView, p: Piece)
    requires
        spec_folds_files(scheme),
        spec_kings_off_centre(b),
        b.board.len() == 81,
        spec_board_bases(p.piece_type) is Some,
    ensures
        spec_collect(
            spec_mirror_board(b).spec_pieces(p.color, p.piece_type).map_values(|sq: Square| (p, sq)),
            |it: (Piece, Square)| spec_scheme_board_pair(scheme, spec_mirror_board(b), it),
        ).to_multiset() == spec_collect(
            b.spec_pieces(p.color, p.piece_type).map_values(|sq: Square| (p, sq)),
            |it: (Piece, Square)| spec_scheme_board_pair(scheme, b, it),
        ).to_multiset(),
{
    let mb = spec_mirror_board(b);
    let fm = |it: (Piece, Square)| spec_scheme_board_pair(scheme, mb, it);
    let fb = |it: (Piece, Square)| spec_scheme_board_pair(scheme, b, it);
    lemma_group_as_sum(mb, p, fm, 81);
    lemma_group_as_sum(b, p, fb, 81);
    let tm = |j: int| spec_sq_term(mb, p, fm, j);
    let tb = |i: int| spec_sq_term(b, p, fb, i);
    let tbm = |j: int| tb(spec_mirror_file_idx(j));
    assert forall|j: int| 0 <= j < 81 implies #[trigger] tm(j) == tbm(j) by {
        let i = spec_mirror_file_idx(j);
        lemma_mirror_idx_facts(j);
        lemma_mirror_idx_facts(i);
        assert(mb.board[j] == b.board[i]);
        assert(Square(i as u8).spec_mirror_file() == Square(j as u8));
        lemma_board_pair_mirror(scheme, b, p, Square(i as u8));
    }
    lemma_msum_congruent(tm, tbm, 81);
    lemma_msum_mirror(tb);
}

/// The board pairs of the first `k` groups are, counted with multiplicity,
/// the same on a board and on its reflection.
proof fn lemma_items_mirror(scheme: Scheme, b: BoardView, k: int)
    requires
        spec_folds_files(scheme),
        spec_kings_off_centre(b),
        b.board.len() == 81,
        0 <= k <= 26,
    ensures
        spec_scheme_board_pairs(scheme, spec_mirror_board(b), spec_board_items_upto(spec_mirror_board(b), k)).to_multiset()
            == spec_scheme_board_pairs(scheme, b, spec_board_items_upto(b, k)).to_multiset(),
    decreases k,
{
    let mb = spec_mirror_board(b);
    let fm = |it: (Piece, Square)| spec_scheme_board_pair(scheme, mb, it);
    let fb = |it: (Piece, Square)| spec_scheme_board_pair(scheme, b, it);
    if k == 0 {
        assert(spec_collect(Seq::<(Piece, Square)>::empty(), fm) =~= spec_collect(
            Seq::<(Piece, Square)>::empty(),
            fb,
        ));
    } else {
        lemma_items_mirror(scheme, b, k - 1);
        let p = spec_group_piece(k - 1);
        lemma_group_piece_in_range(k - 1);
        assert(spec_board_bases(p.piece_type) is Some) by {
            match p.piece_type {
                PieceType::King => {},
                PieceType::NoPiece => {},
                _ => {},
            }
        }
        lemma_group_mirror(scheme, b, p);
        let gm = mb.spec_pieces(p.color, p.piece_type).map_values(|sq: Square| (p, sq));
        let gb = b.spec_pieces(p.color, p.piece_type).map_values(|sq: Square| (p, sq));
        lemma_collect_append(spec_board_items_upto(mb, k - 1), gm, fm);
        lemma_collect_append(spec_board_items_upto(b, k - 1), gb, fb);
        vstd::seq_lib::lemma_multiset_commutative(spec_collect(spec_board_items_upto(mb, k - 1), fm), spec_collect(gm, fm));
        vstd::seq_lib::lemma_multiset_commutative(spec_collect(spec_board_items_upto(b, k - 1), fb), spec_collect(gb, fb));
    }
}

proof fn lemma_hand_items_mirror(b: BoardView, g: int)
    ensures
        spec_hand_items_upto(spec_mirror_board(b), g) == spec_hand_items_upto(b, g),
    decreases g,
{
    if g > 0 {
        lemma_hand_items_mirror(b, g - 1);
        assert(spec_mirror_board(b).spec_hand(Color::Black) == b.spec_hand(Color::Black));
        assert(spec_mirror_board(b).spec_hand(Color::White) == b.spec_hand(Color::White));
    }
}

/// The hand pairs of a board and of its reflection are the same.
proof fn lemma_hand_pairs_mirror(scheme: Scheme, b: BoardView)
    requires
        spec_folds_files(scheme),
        spec_kings_off_centre(b),
    ensures
        spec_scheme_hand_pairs(scheme, spec_mirror_board(b)) == spec_scheme_hand_pairs(scheme, b),
{
    let mb = spec_mirror_board(b);
    lemma_hand_items_mirror(b, 14);
    let items = spec_hand_items(b);
    let fm = |it: (Color, PieceType, u8)| spec_scheme_hand_pair(scheme, mb, it);
    let fb = |it: (Color, PieceType, u8)| spec_scheme_hand_pair(scheme, b, it);
    assert forall|i: int| 0 <= i < items.len() implies #[trigger] fm(items[i]) == fb(items[i]) by {
        lemma_hand_pair_mirror(scheme, b, items[i]);
    }
    lemma_collect_congruent(items, fm, fb);
}

/// The king pairs of a board and of its reflection are the same.
proof fn lemma_king_pairs_mirror(scheme: Scheme, b: BoardView)
    requires
        spec_folds_files(scheme),
        spec_kings_off_centre(b),
    ensures
        spec_scheme_king_pairs(scheme, spec_mirror_board(b)) == spec_scheme_king_pairs(scheme, b),
{
    let mb = spec_mirror_board(b);
    let stm = b.side_to_move;
    let nstm = stm.spec_opponent();
    let sk = b.spec_king_square(stm);
    let nk = b.spec_king_square(nstm);
    assert(mb.spec_king_square(stm) == sk.spec_mirror_file());
    assert(mb.spec_king_square(nstm) == nk.spec_mirror_file());
    lemma_sq_mirror(sk, stm);
    lemma_sq_mirror(sk, nstm);
    lemma_sq_mirror(nk, stm);
    lemma_sq_mirror(nk, nstm);
    lemma_sq_mirror(sk.spec_mirror_file(), stm);
    lemma_sq_mirror(sk.spec_mirror_file(), nstm);
    lemma_sq_mirror(nk.spec_mirror_file(), stm);
    lemma_sq_mirror(nk.spec_mirror_file(), nstm);
    lemma_board_index_mirror(scheme, b, stm, F_KING as int, spec_sq_from(sk, stm));
    lemma_board_index_mirror(scheme, b, nstm, F_KING as int, spec_sq_from(nk, nstm));
    lemma_board_index_mirror(scheme, b, stm, E_KING as int, spec_sq_from(nk, stm));
    lemma_board_index_mirror(scheme, b, nstm, E_KING as int, spec_sq_from(sk, nstm));
    assert(spec_scheme_king_pairs(scheme, mb) =~= spec_scheme_king_pairs(scheme, b));
}

/// Reflecting a board left to right leaves its HalfKP_vm features the same,
/// counted with multiplicity, while both kings stand off the centre file.
pub proof fn lemma_halfkpvm_mirror_symmetric(b: BoardView)
    requires
        b.board.len() == 81,
        spec_kings_off_centre(b),
    ensures
        spec_halfkpvm_features(spec_mirror_board(b)).to_multiset() == spec_halfkpvm_features(b).to_multiset(),
{
    let mb = spec_mirror_board(b);
    lemma_sq_mirror(b.black_king_sq, Color::Black);
    lemma_sq_mirror(b.white_king_sq, Color::Black);
    lemma_items_mirror(Scheme::HalfKpVm, b, 26);
    lemma_hand_pairs_mirror(Scheme::HalfKpVm, b);
    let hp = spec_scheme_hand_pairs(Scheme::HalfKpVm, b);
    vstd::seq_lib::lemma_multiset_commutative(spec_scheme_board_pairs(Scheme::HalfKpVm, mb, spec_board_items(mb)), hp);
    vstd::seq_lib::lemma_multiset_commutative(spec_scheme_board_pairs(Scheme::HalfKpVm, b, spec_board_items(b)), hp);
}

/// The board, king and hand pairs of a mirror-folding scheme are, counted
/// with multiplicity, the same on a board and on its reflection.
proof fn lemma_with_kings_mirror(scheme: Scheme, b: BoardView)
    requires
        spec_folds_files(scheme),
        b.board.len() == 81,
        spec_kings_off_centre(b),
    ensures
        (spec_scheme_board_pairs(scheme, spec_mirror_board(b), spec_board_items(spec_mirror_board(b)))
            + spec_scheme_king_pairs(scheme, spec_mirror_board(b)) + spec_scheme_hand_pairs(
            scheme,
            spec_mirror_board(b),
        )).to_multiset() == (spec_scheme_board_pairs(scheme, b, spec_board_items(b)) + spec_scheme_king_pairs(
            scheme,
            b,
        ) + spec_scheme_hand_pairs(scheme, b)).to_multiset(),
{
    let mb = spec_mirror_board(b);
    lemma_items_mirror(scheme, b, 26);
    lemma_king_pairs_mirror(scheme, b);
    lemma_hand_pairs_mirror(scheme, b);
    let kp = spec_scheme_king_pairs(scheme, b);
    let hp = spec_scheme_hand_pairs(scheme, b);
    let bm = spec_scheme_board_pairs(scheme, mb, spec_board_items(mb));
    let bb = spec_scheme_board_pairs(scheme, b, spec_board_items(b));
    vstd::seq_lib::lemma_multiset_commutative(bm + kp, hp);
    vstd::seq_lib::lemma_multiset_commutative(bb + kp, hp);
    vstd::seq_lib::lemma_multiset_commutative(bm, kp);
    vstd::seq_lib::lemma_multiset_commutative(bb, kp);
}

/// Reflecting a board left to right leaves its HalfKA_hm1 features the
/// same, counted with multiplicity, while both kings stand off the centre
/// file.
pub proof fn lemma_halfka_hm1_mirror_symmetric(b: BoardView)
    requires
        b.board.len() == 81,
        spec_kings_off_centre(b),
    ensures
        spec_halfka_hm1_features(spec_mirror_board(b)).to_multiset() == spec_halfka_hm1_features(b).to_multiset(),
{
    lemma_sq_mirror(b.black_king_sq, Color::Black);
    lemma_sq_mirror(b.white_king_sq, Color::Black);
    lemma_with_kings_mirror(Scheme::Hm1, b);
}

/// Reflecting a board left to right leaves its HalfKA_hm2 features the
/// same, counted with multiplicity, while both kings stand off the centre
/// file.
pub proof fn lemma_halfka_hm2_mirror_symmetric(b: BoardView)
    requires
        b.board.len() == 81,
        spec_kings_off_centre(b),
    ensures
        spec_halfka_hm2_features(spec_mirror_board(b)).to_multiset() == spec_halfka_hm2_features(b).to_multiset(),
{
    lemma_sq_mirror(b.black_king_sq, Color::Black);
    lemma_sq_mirror(b.white_king_sq, Color::Black);
    lemma_with_kings_mirror(Scheme::Hm2, b);
}

} // verus!

//! HalfKPE9: HalfKP inputs split nine ways by how often each side attacks
//! the piece's square (0, 1, or 2 and more, for each side).
//!
//! `index = (effect1 * 3 + effect2) * 81 * 1548 + king_sq * 1548 + bp`,
//! `effect1` counting the perspective's own attacks on the square and
//! `effect2` the other side's; hand pieces count as unattacked.

use vstd::prelude::*;
use crate::inputs::halfka::spec_kings_valid;
use crate::inputs::piece_features::spec_pairs_below;
use crate::inputs::threat::{Occupied, for_each_attack, spec_occupancy, spec_piece_attack_targets};
use crate::seqs::{lemma_collect_len, lemma_collect_step, lemma_collect_take_all, lemma_flat_map_step, lemma_flat_map_take_all, spec_collect, spec_flat_map};
use crate::shogi::board::{
    BoardView, ShogiBoard, board_items, hand_items, lemma_board_items_valid, lemma_pieces_upto_valid, spec_board_items,
    spec_hand_items,
};
use crate::shogi::bona_piece::BonaPiece;
use crate::shogi::packed_sfen::{PackedSfenValue, spec_decode};
use crate::shogi::types::{Color, Piece, PieceType, Square, board_piece_type, spec_board_piece_type};

verus! {

/// Feature hash of HalfKPE9 (that of HalfKP).
pub const FEATURE_HASH_HALFKPE9: u32 = 0x5D69D5B8;

/// Piece inputs (`fe_end`).
pub const FE_END: usize = 1548;

/// King squares.
pub const NUM_KING_SQ: usize = 81;

/// Attack-count buckets: 3 x 3.
pub const EFFECT_BUCKETS: usize = 9;

/// HalfKPE9 input dimension: 81 x 1548 x 9.
pub const HALFKPE9_DIMENSIONS: usize = 1128492;

/// Most features active at once: 38 non-king pieces.
pub const MAX_ACTIVE_FEATURES: usize = 38;

/// HalfKPE9 feature set.
#[derive(Clone, Copy, Debug, Default)]
pub struct ShogiHalfKpe9;

/// Index of BonaPiece `bp` for king square `king_sq` with attack counts
/// `e1` (own) and `e2` (other side).
pub open spec fn spec_halfkpe9_index(king_sq: int, bp: int, e1: int, e2: int) -> int {
    (e1 * 3 + e2) * (81 * 1548) + king_sq * 1548 + bp
}

pub fn make_index(king_sq: usize, bonapiece: usize, effect1: u8, effect2: u8) -> (r: usize)
    requires
        king_sq < 81,
        bonapiece < 1548,
        effect1 <= 2,
        effect2 <= 2,
    ensures
        r == spec_halfkpe9_index(king_sq as int, bonapiece as int, effect1 as int, effect2 as int),
        r < HALFKPE9_DIMENSIONS,
{
    let eff_bucket = (effect1 as usize) * 3 + (effect2 as usize);
    eff_bucket * 125388 + king_sq * 1548 + bonapiece
}

/// Kind of attacker group `t`: the non-king kinds in enumeration order,
/// then the king.
pub open spec fn spec_attacker_type(t: int) -> PieceType {
    if t < 13 {
        spec_board_piece_type(t)
    } else {
        PieceType::King
    }
}

/// Pieces of colour `c` in attacker groups `0..t`, with their squares.
pub open spec fn spec_attackers_upto(b: BoardView, c: Color, t: int) -> Seq<(PieceType, Square)>
    decreases t,
{
    if t <= 0 {
        Seq::empty()
    } else {
        let pt = spec_attacker_type(t - 1);
        spec_attackers_upto(b, c, t - 1) + b.spec_pieces(c, pt).map_values(|sq: Square| (pt, sq))
    }
}

/// Every square attacked by a piece of colour `c`, once per attacker.
pub open spec fn spec_attacks(b: BoardView, c: Color) -> Seq<Square> {
    spec_flat_map(
        spec_attackers_upto(b, c, 14),
        |a: (PieceType, Square)| spec_piece_attack_targets(a.0, c, a.1, spec_occupancy(b)),
    )
}

/// Number of elements of `s` that are square `sq`.
pub open spec fn spec_count_square(s: Seq<Square>, sq: int) -> int
    decreases s.len(),
{
    if s.len() == 0 {
        0
    } else {
        spec_count_square(s.drop_last(), sq) + if s.last().0 == sq {
            1int
        } else {
            0
        }
    }
}

/// Attack count of colour `c` on square `sq`, capped at 2.
pub open spec fn spec_effect(b: BoardView, c: Color, sq: int) -> int {
    let n = spec_count_square(spec_attacks(b, c), sq);
    if n < 2 {
        n
    } else {
        2
    }
}

proof fn lemma_attackers_valid(b: BoardView, c: Color, t: int)
    requires
        0 <= t,
    ensures
        forall|i: int| 0 <= i < spec_attackers_upto(b, c, t).len() ==> (#[trigger] spec_attackers_upto(b, c, t)[i]).1.0 < 81,
    decreases t,
{
    if t > 0 {
        lemma_attackers_valid(b, c, t - 1);
        let pt = spec_attacker_type(t - 1);
        lemma_pieces_upto_valid(b, c, pt, 81);
        let prev = spec_attackers_upto(b, c, t - 1);
        let add = b.spec_pieces(c, pt).map_values(|sq: Square| (pt, sq));
        assert forall|i: int| 0 <= i < spec_attackers_upto(b, c, t).len() implies (#[trigger] spec_attackers_upto(
            b,
            c,
            t,
        )[i]).1.0 < 81 by {
            if i < prev.len() {
                assert(spec_attackers_upto(b, c, t)[i] == prev[i]);
            } else {
                assert(spec_attackers_upto(b, c, t)[i] == add[i - prev.len()]);
            }
        }
    }
}

fn attackers(b: &ShogiBoard, c: Color) -> (r: Vec<(PieceType, Square)>)
    ensures
        r@ == spec_attackers_upto(b@, c, 14),
        forall|i: int| 0 <= i < r@.len() ==> (#[trigger] r@[i]).1.0 < 81,
{
    let mut out: Vec<(PieceType, Square)> = Vec::new();
    let mut t: usize = 0;
    while t < 14
        invariant
            t <= 14,
            out@ == spec_attackers_upto(b@, c, t as int),
        decreases 14 - t,
    {
        let pt = if t < 13 {
            board_piece_type(t)
        } else {
            PieceType::King
        };
        let sqs = b.pieces(c, pt);
        let ghost before = out@;
        let mut k: usize = 0;
        while k < sqs.len()
            invariant
                k <= sqs@.len(),
                sqs@ == b@.spec_pieces(c, pt),
                out@ == before + sqs@.take(k as int).map_values(|sq: Square| (pt, sq)),
            decreases sqs@.len() - k,
        {
            out.push((pt, sqs[k]));
            assert(sqs@.take(k as int + 1).map_values(|sq: Square| (pt, sq)) =~= sqs@.take(k as int).map_values(
                |sq: Square| (pt, sq),
            ).push((pt, sqs@[k as int])));
            k = k + 1;
        }
        assert(sqs@.take(sqs@.len() as int) =~= sqs@);
        t = t + 1;
    }
    proof {
        lemma_attackers_valid(b@, c, 14);
    }
    out
}

/// Capped counts of the squares of `s`: 81 counts, each the number of
/// times its square occurs, at most 2.
pub open spec fn spec_clip_counts(s: Seq<Square>) -> Seq<u8>
    decreases s.len(),
{
    if s.len() == 0 {
        Seq::new(81, |i: int| 0u8)
    } else {
        let prev = spec_clip_counts(s.drop_last());
        let q = s.last().0 as int;
        if 0 <= q < 81 && prev[q] < 2 {
            prev.update(q, (prev[q] + 1) as u8)
        } else {
            prev
        }
    }
}

proof fn lemma_clip_counts(s: Seq<Square>)
    ensures
        spec_clip_counts(s).len() == 81,
        forall|q: int|
            0 <= q < 81 ==> #[trigger] spec_clip_counts(s)[q] == if spec_count_square(s, q) < 2 {
                spec_count_square(s, q)
            } else {
                2
            },
    decreases s.len(),
{
    if s.len() > 0 {
        lemma_clip_counts(s.drop_last());
    }
}

/// Attack counts of Black and White on every square, capped at 2.
pub fn compute_effect_counts(board: &ShogiBoard) -> (r: [[u8; 81]; 2])
    ensures
        forall|q: int| 0 <= q < 81 ==> #[trigger] r@[0]@[q] == spec_effect(board@, Color::Black, q),
        forall|q: int| 0 <= q < 81 ==> #[trigger] r@[1]@[q] == spec_effect(board@, Color::White, q),
{
    let occ = Occupied::from_board(board);
    let black = effect_counts_of(board, &occ, Color::Black);
    let white = effect_counts_of(board, &occ, Color::White);
    [black, white]
}

fn effect_counts_of(board: &ShogiBoard, occ: &Occupied, c: Color) -> (r: [u8; 81])
    requires
        occ@ == spec_occupancy(board@),
    ensures
        forall|q: int| 0 <= q < 81 ==> #[trigger] r@[q] == spec_effect(board@, c, q),
{
    let atk = attackers(board, c);
    let ghost g = |a: (PieceType, Square)| spec_piece_attack_targets(a.0, c, a.1, spec_occupancy(board@));
    let mut counts = [0u8; 81];
    let ghost mut done: Seq<Square> = Seq::empty();
    assert(counts@ =~= spec_clip_counts(done));
    let mut i: usize = 0;
    while i < atk.len()
        invariant
            i <= atk@.len(),
            atk@ == spec_attackers_upto(board@, c, 14),
            forall|j: int| 0 <= j < atk@.len() ==> (#[trigger] atk@[j]).1.0 < 81,
            occ@ == spec_occupancy(board@),
            occ@.len() == 81,
            g == (|a: (PieceType, Square)| spec_piece_attack_targets(a.0, c, a.1, spec_occupancy(board@))),
            done == spec_flat_map(atk@.take(i as int), g),
            counts@ == spec_clip_counts(done),
        decreases atk@.len() - i,
    {
        let (pt, from) = atk[i];
        proof {
            lemma_flat_map_step(atk@, g, i as int);
        }
        let targets = for_each_attack(pt, c, from, occ);
        let ghost base = done;
        let mut k: usize = 0;
        while k < targets.len()
            invariant
                k <= targets@.len(),
                done == base + targets@.take(k as int),
                counts@ == spec_clip_counts(done),
            decreases targets@.len() - k,
        {
            let q = targets[k].0 as usize;
            if q < 81 && counts[q] < 2 {
                counts[q] = counts[q] + 1;
            }
            proof {
                let nd = base + targets@.take(k as int + 1);
                assert(nd.drop_last() =~= done);
                assert(nd.last() == targets@[k as int]);
                done = nd;
            }
            k = k + 1;
        }
        assert(targets@.take(targets@.len() as int) =~= targets@);
        i = i + 1;
    }
    proof {
        lemma_flat_map_take_all(atk@, g);
        lemma_clip_counts(done);
    }
    counts
}


/// King square of perspective `p`, seen from `p`'s side.
pub open spec fn spec_persp_king(b: BoardView, p: Color) -> int {
    let k = b.spec_king_square(p);
    if p == Color::Black {
        k.0 as int
    } else {
        k.spec_inverse().0 as int
    }
}

/// Feature pair of a board piece: none when it is no piece from the side to
/// move's view, else both perspectives' indices with their attack counts.
pub open spec fn spec_hkpe9_board_pair(b: BoardView, it: (Piece, Square)) -> Option<(usize, usize)> {
    let stm = b.side_to_move;
    let nstm = stm.spec_opponent();
    let sbp = BonaPiece::spec_from_piece_square(it.0, it.1, stm);
    let nbp = BonaPiece::spec_from_piece_square(it.0, it.1, nstm);
    let q = it.1.0 as int;
    if sbp.0 == 0 {
        None
    } else {
        Some(
            (
                spec_halfkpe9_index(spec_persp_king(b, stm), sbp.0 as int, spec_effect(b, stm, q), spec_effect(b, nstm, q)) as usize,
                spec_halfkpe9_index(spec_persp_king(b, nstm), nbp.0 as int, spec_effect(b, nstm, q), spec_effect(b, stm, q)) as usize,
            ),
        )
    }
}

/// Feature pair of a hand piece: unattacked, in both perspectives.
pub open spec fn spec_hkpe9_hand_pair(b: BoardView, it: (Color, PieceType, u8)) -> Option<(usize, usize)> {
    let stm = b.side_to_move;
    let nstm = stm.spec_opponent();
    let sbp = BonaPiece::spec_from_hand_piece(stm, it.0, it.1, it.2);
    let nbp = BonaPiece::spec_from_hand_piece(nstm, it.0, it.1, it.2);
    if sbp.0 == 0 {
        None
    } else {
        Some(
            (
                spec_halfkpe9_index(spec_persp_king(b, stm), sbp.0 as int, 0, 0) as usize,
                spec_halfkpe9_index(spec_persp_king(b, nstm), nbp.0 as int, 0, 0) as usize,
            ),
        )
    }
}

/// HalfKPE9 features: board pieces in enumeration order, then hand pieces;
/// nothing when a king is missing.
pub open spec fn spec_halfkpe9_features(b: BoardView) -> Seq<(usize, usize)> {
    if !spec_kings_valid(b) {
        Seq::empty()
    } else {
        spec_collect(spec_board_items(b), |it: (Piece, Square)| spec_hkpe9_board_pair(b, it)) + spec_collect(
            spec_hand_items(b),
            |it: (Color, PieceType, u8)| spec_hkpe9_hand_pair(b, it),
        )
    }
}

fn persp_king(b: &ShogiBoard, p: Color) -> (r: usize)
    requires
        b@.spec_king_square(p).spec_valid(),
    ensures
        r == spec_persp_king(b@, p),
        r < 81,
{
    let k = b.king_square(p);
    match p {
        Color::Black => k.index(),
        Color::White => k.inverse().index(),
    }
}

/// HalfKPE9 features of `b` (see [`spec_halfkpe9_features`]); every index
/// is below [`HALFKPE9_DIMENSIONS`].
pub fn map_halfkpe9_features(b: &ShogiBoard) -> (r: Vec<(usize, usize)>)
    ensures
        r@ == spec_halfkpe9_features(b@),
        spec_pairs_below(r@, HALFKPE9_DIMENSIONS as int),
{
    let stm = b.side_to_move;
    let nstm = stm.opponent();
    let mut out: Vec<(usize, usize)> = Vec::new();
    if !b.king_square(stm).is_valid() || !b.king_square(nstm).is_valid() {
        assert(!spec_kings_valid(b@)) by {
            match stm {
                Color::Black => {},
                Color::White => {},
            }
        }
        return out;
    }
    assert(spec_kings_valid(b@)) by {
        match stm {
            Color::Black => {},
            Color::White => {},
        }
    }
    let sk = persp_king(b, stm);
    let nk = persp_king(b, nstm);
    let counts = compute_effect_counts(b);
    let (cs, cn) = match stm {
        Color::Black => (counts[0], counts[1]),
        Color::White => (counts[1], counts[0]),
    };
    let ghost f = |it: (Piece, Square)| spec_hkpe9_board_pair(b@, it);
    let ghost g = |it: (Color, PieceType, u8)| spec_hkpe9_hand_pair(b@, it);
    let items = board_items(b);
    proof {
        lemma_board_items_valid(b@);
    }
    let mut i: usize = 0;
    while i < items.len()
        invariant
            i <= items@.len(),
            items@ == spec_board_items(b@),
            forall|j: int|
                0 <= j < spec_board_items(b@).len() ==> {
                    let it = #[trigger] spec_board_items(b@)[j];
                    &&& it.1.0 < 81
                },
            stm == b@.side_to_move,
            nstm == stm.spec_opponent(),
            sk == spec_persp_king(b@, stm),
            nk == spec_persp_king(b@, nstm),
            sk < 81,
            nk < 81,
            forall|q: int| 0 <= q < 81 ==> #[trigger] cs@[q] == spec_effect(b@, stm, q),
            forall|q: int| 0 <= q < 81 ==> #[trigger] cn@[q] == spec_effect(b@, nstm, q),
            f == (|it: (Piece, Square)| spec_hkpe9_board_pair(b@, it)),
            out@ == spec_collect(items@.take(i as int), f),
            spec_pairs_below(out@, HALFKPE9_DIMENSIONS as int),
        decreases items@.len() - i,
    {
        let (piece, sq) = items[i];
        proof {
            lemma_collect_step(items@, f, i as int);
        }
        let sbp = BonaPiece::from_piece_square(piece, sq, stm);
        if sbp.value() != 0 {
            let nbp = BonaPiece::from_piece_square(piece, sq, nstm);
            let q = sq.index();
            let e_s = cs[q];
            let e_n = cn[q];
            let s_idx = make_index(sk, sbp.value() as usize, e_s, e_n);
            let n_idx = make_index(nk, nbp.value() as usize, e_n, e_s);
            out.push((s_idx, n_idx));
        }
        i = i + 1;
    }
    proof {
        lemma_collect_take_all(items@, f);
    }
    let ghost board_part = out@;
    let hitems = hand_items(b);
    let mut j: usize = 0;
    while j < hitems.len()
        invariant
            j <= hitems@.len(),
            hitems@ == spec_hand_items(b@),
            stm == b@.side_to_move,
            nstm == stm.spec_opponent(),
            sk == spec_persp_king(b@, stm),
            nk == spec_persp_king(b@, nstm),
            sk < 81,
            nk < 81,
            g == (|it: (Color, PieceType, u8)| spec_hkpe9_hand_pair(b@, it)),
            out@ == board_part + spec_collect(hitems@.take(j as int), g),
            spec_pairs_below(out@, HALFKPE9_DIMENSIONS as int),
        decreases hitems@.len() - j,
    {
        let (owner, pt, c) = hitems[j];
        proof {
            lemma_collect_step(hitems@, g, j as int);
        }
        let sbp = BonaPiece::from_hand_piece(stm, owner, pt, c);
        if sbp.value() != 0 {
            let nbp = BonaPiece::from_hand_piece(nstm, owner, pt, c);
            let s_idx = make_index(sk, sbp.value() as usize, 0, 0);
            let n_idx = make_index(nk, nbp.value() as usize, 0, 0);
            out.push((s_idx, n_idx));
        }
        j = j + 1;
    }
    proof {
        lemma_collect_take_all(hitems@, g);
    }
    out
}

impl ShogiHalfKpe9 {
    pub fn num_inputs(&self) -> (r: usize)
        ensures
            r == HALFKPE9_DIMENSIONS,
    {
        HALFKPE9_DIMENSIONS
    }

    pub fn max_active(&self) -> (r: usize)
        ensures
            r == MAX_ACTIVE_FEATURES,
    {
        MAX_ACTIVE_FEATURES
    }

    /// HalfKPE9 features of a training record.
    pub fn map_features(&self, pos: &PackedSfenValue) -> (r: Vec<(usize, usize)>)
        ensures
            r@ == spec_halfkpe9_features(spec_decode(pos.data@)),
            spec_pairs_below(r@, HALFKPE9_DIMENSIONS as int),
    {
        let board = ShogiBoard::from_packed_sfen(pos);
        map_halfkpe9_features(&board)
    }

    pub fn shorthand(&self) -> (r: String)
        ensures
            r@ == "shogi-halfkpe9-1128492x81"@,
    {
        "shogi-halfkpe9-1128492x81".to_owned()
    }

    pub fn description(&self) -> (r: String)
        ensures
            r@ == "Shogi HalfKPE9: 81 king squares × 1548 piece inputs × 9 effect-count buckets"@,
    {
        "Shogi HalfKPE9: 81 king squares × 1548 piece inputs × 9 effect-count buckets".to_owned()
    }
}

} // verus!

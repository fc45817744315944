//! HalfKA_hm (73,305 inputs) followed by defensive hand threats: only drops
//! by the other side that would attack one of the perspective's own pieces.
//! Each such drop is a feature of one perspective only, so the features come
//! as (side to move, other side) pairs with one half absent.

use vstd::prelude::*;
use crate::inputs::halfka::{
    HALFKA_HM_DIMENSIONS, MAX_ACTIVE_FEATURES, halfka_hm_features, is_hm_mirror, spec_halfka_hm_features,
    spec_is_hm_mirror, spec_kings_valid,
};
use crate::inputs::halfka_hm_threat::{
    lemma_class_width_bound, normalize_sq, spec_class_width, spec_normalize_sq, spec_order_value, spec_oriented,
    lemma_normalized_attacked,
};
use crate::inputs::hand_threat::{
    HAND_NUM_CLASSES, HandThreatClass, class_widths, has_pawn_on_file, is_legal_drop_rank, lemma_hand_class_piece,
    spec_drop_targets, spec_droppable,
};
use crate::inputs::threat::{
    AttackTables, spec_complete_tables, NUM_THREAT_CLASSES, Occupied, ThreatClass, attack_pattern_id, for_each_attack,
    lemma_attack_order_bound, lemma_from_offset_bounds, lemma_pattern_roundtrip, lemma_targets_attacked,
    spec_attack_pattern_id, spec_empty_attacked, spec_from_offset, spec_occupancy, spec_pattern_class,
    spec_pattern_color, spec_pattern_total,
};
use crate::seqs::{spec_collect, lemma_collect_step, lemma_collect_take_all};
use crate::shogi::board::{BoardView, ShogiBoard};
use crate::shogi::packed_sfen::{PackedSfenValue, spec_decode};
use crate::shogi::types::{Color, Square};
use crate::text::{concat_strs, decimal_string, spec_decimal};

verus! {

/// Defensive pairs: 7 drop kinds x 9 attacked classes.
pub const HAND_NUM_PAIRS: usize = 63;

/// Number of defensive hand threat inputs: 9 x 3,364.
pub const HAND_THREAT_DIMENSIONS: usize = 30276;

/// Most defensive hand threat features active at once (a safe bound).
pub const MAX_ACTIVE_HAND_THREAT_DEFENSIVE_FEATURES: usize = 512;

/// Total width of the defensive pairs below `i` (pair `i = kind * 9 +
/// class`).
pub open spec fn spec_def_pair_cum(i: int) -> int
    decreases i,
{
    if i <= 0 {
        0
    } else {
        spec_def_pair_cum(i - 1) + spec_class_width((i - 1) / 9)
    }
}

/// Number of defensive hand threat inputs.
pub open spec fn spec_def_dims() -> int {
    spec_def_pair_cum(63)
}

pub proof fn lemma_def_pair_cum_bounds(a: int, b: int)
    requires
        0 <= a <= b,
    ensures
        0 <= spec_def_pair_cum(a) <= spec_def_pair_cum(b),
        spec_def_pair_cum(b) <= 6561 * b,
        a < b ==> spec_def_pair_cum(a) + spec_class_width(a / 9) <= spec_def_pair_cum(b),
    decreases b,
{
    if b > 0 {
        lemma_class_width_bound((b - 1) / 9);
        if a < b {
            lemma_def_pair_cum_bounds(a, b - 1);
        } else {
            lemma_def_pair_cum_bounds(b - 1, b - 1);
        }
    }
}

/// Builds the defensive pair base table from the class widths.
pub fn build_def_pair_base(widths: &Vec<usize>) -> (r: (Vec<usize>, usize))
    requires
        widths@.len() == NUM_THREAT_CLASSES,
        forall|c: int| 0 <= c < 9 ==> #[trigger] widths@[c] == spec_class_width(c),
    ensures
        r.0@.len() == HAND_NUM_PAIRS,
        forall|i: int| 0 <= i < 63 ==> #[trigger] r.0@[i] == spec_def_pair_cum(i),
        r.1 == spec_def_dims(),
{
    let mut table: Vec<usize> = Vec::new();
    let mut cumulative: usize = 0;
    let mut i: usize = 0;
    while i < HAND_NUM_PAIRS
        invariant
            i <= 63,
            widths@.len() == 9,
            forall|c: int| 0 <= c < 9 ==> #[trigger] widths@[c] == spec_class_width(c),
            table@.len() == i,
            forall|j: int| 0 <= j < i ==> #[trigger] table@[j] == spec_def_pair_cum(j),
            cumulative == spec_def_pair_cum(i as int),
        decreases 63 - i,
    {
        proof {
            lemma_def_pair_cum_bounds(i as int, i as int + 1);
            lemma_def_pair_cum_bounds(i as int + 1, i as int + 1);
        }
        table.push(cumulative);
        cumulative = cumulative + widths[i / 9];
        i = i + 1;
    }
    (table, cumulative)
}

/// Defensive index (without the HalfKA_hm offset) of a drop of kind `hc`
/// moving as `oriented` attacking class `dc`.
pub open spec fn spec_def_index(hc: HandThreatClass, oriented: Color, dc: ThreatClass, drop_n: int, to_n: int) -> int {
    let p = spec_attack_pattern_id(hc.spec_board_class(), oriented);
    spec_def_pair_cum(hc.spec_index() * 9 + dc.spec_index()) + spec_from_offset(p, drop_n) + spec_order_value(
        p,
        drop_n,
        to_n,
    )
}

/// Defensive index of a drop by `dcolor` on `d` attacking `to`, seen from
/// `persp` of `b`.
pub open spec fn spec_persp_def_index(
    b: BoardView,
    persp: Color,
    dcolor: Color,
    hc: HandThreatClass,
    dc: ThreatClass,
    d: Square,
    to: Square,
) -> int {
    let hm = spec_is_hm_mirror(b.spec_king_square(persp), persp);
    spec_def_index(
        hc,
        spec_oriented(dcolor, persp),
        dc,
        spec_normalize_sq(d, persp, hm).0 as int,
        spec_normalize_sq(to, persp, hm).0 as int,
    )
}

/// Feature of a drop of kind `hc` by `dcolor` on `d` attacking `to`: for
/// the perspective that `dcolor` plays against, when `to` holds one of that
/// perspective's non-king pieces.
pub open spec fn spec_def_pair(b: BoardView, dcolor: Color, hc: HandThreatClass, d: Square, to: Square) -> Option<
    (Option<usize>, Option<usize>),
> {
    let tpc = b.board[to.0 as int];
    let stm = b.side_to_move;
    let nstm = stm.spec_opponent();
    match ThreatClass::spec_from_piece_type(tpc.piece_type) {
        Some(dc) => if dcolor != stm {
            if tpc.color != stm {
                None
            } else {
                Some(
                    (
                        Some((HALFKA_HM_DIMENSIONS + spec_persp_def_index(b, stm, dcolor, hc, dc, d, to)) as usize),
                        None,
                    ),
                )
            }
        } else {
            if tpc.color != nstm {
                None
            } else {
                Some(
                    (
                        None,
                        Some((HALFKA_HM_DIMENSIONS + spec_persp_def_index(b, nstm, dcolor, hc, dc, d, to)) as usize),
                    ),
                )
            }
        },
        None => None,
    }
}

/// Defensive features of a drop of kind `hc` by `dcolor` on square `d`.
pub open spec fn spec_def_at(b: BoardView, dcolor: Color, hc: HandThreatClass, d: int) -> Seq<(Option<usize>, Option<usize>)> {
    if spec_droppable(b, dcolor, hc, d) {
        spec_collect(
            spec_drop_targets(b, dcolor, hc, d),
            |to: Square| spec_def_pair(b, dcolor, hc, Square(d as u8), to),
        )
    } else {
        Seq::empty()
    }
}

/// Defensive features of the drops of kind `hc` by `dcolor` on squares
/// `0..n`.
pub open spec fn spec_def_squares(b: BoardView, dcolor: Color, hc: HandThreatClass, n: int) -> Seq<
    (Option<usize>, Option<usize>),
>
    decreases n,
{
    if n <= 0 {
        Seq::empty()
    } else {
        spec_def_squares(b, dcolor, hc, n - 1) + spec_def_at(b, dcolor, hc, n - 1)
    }
}

/// Defensive features of the first `k` drop kinds held by `dcolor`.
pub open spec fn spec_def_kinds(b: BoardView, dcolor: Color, k: int) -> Seq<(Option<usize>, Option<usize>)>
    decreases k,
{
    if k <= 0 {
        Seq::empty()
    } else {
        let hc = HandThreatClass::spec_from_index(k - 1);
        spec_def_kinds(b, dcolor, k - 1) + if crate::shogi::board::spec_hand_count(
            b.spec_hand(dcolor),
            hc.spec_piece_type(),
        ) == 0 {
            Seq::empty()
        } else {
            spec_def_squares(b, dcolor, hc, 81)
        }
    }
}

/// Defensive features: drops by the side to move (features of the other
/// side), then drops by the other side (features of the side to move); none
/// when a king is missing.
pub open spec fn spec_def_part(b: BoardView) -> Seq<(Option<usize>, Option<usize>)> {
    if !spec_kings_valid(b) {
        Seq::empty()
    } else {
        spec_def_kinds(b, b.side_to_move, 7) + spec_def_kinds(b, b.side_to_move.spec_opponent(), 7)
    }
}

/// Both halves present.
pub open spec fn spec_both(s: Seq<(usize, usize)>) -> Seq<(Option<usize>, Option<usize>)> {
    s.map_values(|p: (usize, usize)| (Some(p.0), Some(p.1)))
}

/// HalfKA_hm features (both halves) followed by the defensive features.
pub open spec fn spec_def_split_features(b: BoardView) -> Seq<(Option<usize>, Option<usize>)> {
    spec_both(spec_halfka_hm_features(b)) + spec_def_part(b)
}

/// Whether every present index is below `n`.
pub open spec fn spec_split_below(s: Seq<(Option<usize>, Option<usize>)>, n: int) -> bool {
    forall|i: int|
        0 <= i < s.len() ==> ((#[trigger] s[i]).0 matches Some(x) ==> x < n) && (s[i].1 matches Some(y) ==> y < n)
}

pub proof fn lemma_def_index_facts(
    hc: HandThreatClass,
    oriented: Color,
    dc: ThreatClass,
    color: Color,
    persp: Color,
    hm: bool,
    d: Square,
    to: Square,
)
    requires
        oriented == spec_oriented(color, persp),
        spec_empty_attacked(hc.spec_board_class(), color, d.0 as int, to.0 as int),
    ensures
        ({
            let p = spec_attack_pattern_id(hc.spec_board_class(), oriented);
            let f = spec_normalize_sq(d, persp, hm).0 as int;
            let t = spec_normalize_sq(to, persp, hm).0 as int;
            let pi = hc.spec_index() * 9 + dc.spec_index();
            &&& spec_empty_attacked(spec_pattern_class(p), spec_pattern_color(p), f, t)
            &&& 0 <= spec_order_value(p, f, t) < 81
            &&& 0 <= pi < 63
            &&& 0 <= spec_def_pair_cum(pi)
            &&& 0 <= spec_from_offset(p, f)
            &&& spec_def_index(hc, oriented, dc, f, t) < spec_def_dims()
            &&& spec_def_dims() <= 6561 * 63
        }),
{
    let ac = hc.spec_board_class();
    let p = spec_attack_pattern_id(ac, oriented);
    let f = spec_normalize_sq(d, persp, hm).0 as int;
    let t = spec_normalize_sq(to, persp, hm).0 as int;
    let pi = hc.spec_index() * 9 + dc.spec_index();
    lemma_normalized_attacked(ac, color, d, to, persp, hm);
    lemma_pattern_roundtrip(ac, oriented);
    lemma_attack_order_bound(spec_pattern_class(p), spec_pattern_color(p), f, t);
    lemma_from_offset_bounds(p, f, 81);
    assert(pi / 9 == hc.spec_index());
    lemma_def_pair_cum_bounds(pi, 63);
    assert(spec_pattern_total(p) <= spec_class_width(hc.spec_index())) by {
        lemma_class_width_bound(hc.spec_index());
        assert(ThreatClass::spec_from_index(hc.spec_index()) == ac);
    }
}

/// Defensive hand threats with the HalfKA_hm features in front.
#[derive(Debug)]
pub struct ShogiHalfKaHmHandThreatDefensive {
    pair_base: Vec<usize>,
    dims: usize,
    tables: AttackTables,
}

impl Clone for ShogiHalfKaHmHandThreatDefensive {
    fn clone(&self) -> (r: ShogiHalfKaHmHandThreatDefensive)
        ensures
            r.spec_pair_base() == self.spec_pair_base(),
            r.spec_dims() == self.spec_dims(),
            r.spec_tables().spec_offset_table() == self.spec_tables().spec_offset_table(),
            r.spec_tables().spec_order_table() == self.spec_tables().spec_order_table(),
            r.spec_tables().spec_totals() == self.spec_tables().spec_totals(),
    {
        proof {
            use_type_invariant(self);
        }
        let pair_base = self.pair_base.clone();
        assert(pair_base@ =~= self.pair_base@);
        ShogiHalfKaHmHandThreatDefensive { pair_base, dims: self.dims, tables: self.tables.clone() }
    }
}

impl Default for ShogiHalfKaHmHandThreatDefensive {
    fn default() -> (r: ShogiHalfKaHmHandThreatDefensive)
        ensures
            r.spec_pair_base() == Seq::new(63, |i: int| spec_def_pair_cum(i) as usize),
            r.spec_dims() == spec_def_dims(),
            spec_complete_tables(r.spec_tables()),
    {
        ShogiHalfKaHmHandThreatDefensive::new()
    }
}

impl ShogiHalfKaHmHandThreatDefensive {
    #[verifier::type_invariant]
    closed spec fn inv(self) -> bool {
        &&& self.pair_base@.len() == HAND_NUM_PAIRS
        &&& forall|i: int| 0 <= i < 63 ==> #[trigger] self.pair_base@[i] == spec_def_pair_cum(i)
        &&& self.dims == spec_def_dims()
    }

    /// Where each pair starts.
    pub closed spec fn spec_pair_base(self) -> Seq<usize> {
        self.pair_base@
    }

    /// Number of hand threat inputs.
    pub closed spec fn spec_dims(self) -> usize {
        self.dims
    }

    /// The attack tables.
    pub closed spec fn spec_tables(self) -> AttackTables {
        self.tables
    }

    /// Builds the attack tables and the start of each pair.
    pub fn new() -> (r: ShogiHalfKaHmHandThreatDefensive)
        ensures
            r.spec_pair_base() == Seq::new(63, |i: int| spec_def_pair_cum(i) as usize),
            r.spec_dims() == spec_def_dims(),
            spec_complete_tables(r.spec_tables()),
    {
        let tables = AttackTables::new();
        let widths = class_widths(&tables);
        let (pair_base, dims) = build_def_pair_base(&widths);
        let r = ShogiHalfKaHmHandThreatDefensive { pair_base, dims, tables };
        proof {
            use_type_invariant(&r);
        }
        assert(r.pair_base@ =~= Seq::new(63, |i: int| spec_def_pair_cum(i) as usize));
        r
    }

    /// Number of defensive hand threat inputs.
    pub fn hand_threat_dimensions(&self) -> (r: usize)
        ensures
            r == spec_def_dims(),
    {
        proof {
            use_type_invariant(self);
        }
        self.dims
    }

    /// Where each defensive pair starts (pair `kind * 9 + class`).
    pub fn hand_pair_base(&self) -> (r: Vec<usize>)
        ensures
            r@.len() == HAND_NUM_PAIRS,
            forall|i: int| 0 <= i < 63 ==> #[trigger] r@[i] == spec_def_pair_cum(i),
    {
        proof {
            use_type_invariant(self);
        }
        let r = self.pair_base.clone();
        assert(r@ =~= self.pair_base@);
        r
    }

    /// Number of inputs: HalfKA_hm followed by the defensive hand threats.
    pub fn num_inputs(&self) -> (r: usize)
        ensures
            r == HALFKA_HM_DIMENSIONS + spec_def_dims(),
    {
        proof {
            use_type_invariant(self);
            lemma_def_pair_cum_bounds(63, 63);
        }
        HALFKA_HM_DIMENSIONS + self.dims
    }

    /// Most features active at once.
    pub fn max_active(&self) -> (r: usize)
        ensures
            r == MAX_ACTIVE_FEATURES + MAX_ACTIVE_HAND_THREAT_DEFENSIVE_FEATURES,
    {
        MAX_ACTIVE_FEATURES + MAX_ACTIVE_HAND_THREAT_DEFENSIVE_FEATURES
    }

    /// Defensive index of a drop seen from `persp`.
    #[verifier::rlimit(100)]
    #[verifier::spinoff_prover]
    fn persp_index(
        &self,
        persp: Color,
        hm: bool,
        dcolor: Color,
        hc: HandThreatClass,
        dc: ThreatClass,
        d: Square,
        to: Square,
    ) -> (r: usize)
        requires
            d.spec_valid(),
            to.spec_valid(),
            spec_empty_attacked(hc.spec_board_class(), dcolor, d.0 as int, to.0 as int),
        ensures
            r == spec_def_index(
                hc,
                spec_oriented(dcolor, persp),
                dc,
                spec_normalize_sq(d, persp, hm).0 as int,
                spec_normalize_sq(to, persp, hm).0 as int,
            ),
            r < spec_def_dims(),
    {
        proof {
            use_type_invariant(self);
        }
        let oriented = if persp == Color::Black {
            dcolor
        } else {
            dcolor.opponent()
        };
        let ac = hc.as_board_class();
        let pattern = attack_pattern_id(ac, oriented);
        let d_n = normalize_sq(d, persp, hm);
        let to_n = normalize_sq(to, persp, hm);
        proof {
            lemma_def_index_facts(hc, oriented, dc, dcolor, persp, hm, d, to);
        }
        let base = self.pair_base[hc.index() * 9 + dc.index()];
        let off = self.tables.from_offset(pattern, d_n);
        let ord = self.tables.attack_order(pattern, d_n, to_n);
        assert(ord == spec_order_value(pattern as int, d_n.0 as int, to_n.0 as int));
        base + off + ord as usize
    }

    /// Appends the defensive features of a drop of kind `hc` by `dcolor` on
    /// square `d` (see [`spec_def_at`]).
    fn push_drop_square(
        &self,
        b: &ShogiBoard,
        occ: &Occupied,
        stm_hm: bool,
        nstm_hm: bool,
        dcolor: Color,
        hc: HandThreatClass,
        d: usize,
        out: &mut Vec<(Option<usize>, Option<usize>)>,
    )
        requires
            d < 81,
            occ@ == spec_occupancy(b@),
            stm_hm == spec_is_hm_mirror(b@.spec_king_square(b.side_to_move), b.side_to_move),
            nstm_hm == spec_is_hm_mirror(
                b@.spec_king_square(b.side_to_move.spec_opponent()),
                b.side_to_move.spec_opponent(),
            ),
            spec_split_below(old(out)@, HALFKA_HM_DIMENSIONS + spec_def_dims()),
        ensures
            final(out)@ == old(out)@ + spec_def_at(b@, dcolor, hc, d as int),
            spec_split_below(final(out)@, HALFKA_HM_DIMENSIONS + spec_def_dims()),
    {
        proof {
            lemma_def_pair_cum_bounds(63, 63);
        }
        let sq = Square(d as u8);
        if occ.is_occupied(d as u8) || !is_legal_drop_rank(hc, dcolor, sq) || (hc == HandThreatClass::Pawn
            && has_pawn_on_file(b, dcolor, sq)) {
            assert(out@ =~= old(out)@ + spec_def_at(b@, dcolor, hc, d as int));
            return;
        }
        let stm = b.side_to_move;
        let nstm = stm.opponent();
        let targets = for_each_attack(hc.as_piece_type(), dcolor, sq, occ);
        proof {
            lemma_hand_class_piece(hc);
            lemma_targets_attacked(hc.spec_board_class(), dcolor, sq, occ@);
        }
        let ghost before = out@;
        let ghost ft = |to: Square| spec_def_pair(b@, dcolor, hc, sq, to);
        let mut k: usize = 0;
        while k < targets.len()
            invariant
                k <= targets@.len(),
                sq.0 == d,
                d < 81,
                targets@ == spec_drop_targets(b@, dcolor, hc, d as int),
                forall|j: int|
                    0 <= j < targets@.len() ==> spec_empty_attacked(
                        hc.spec_board_class(),
                        dcolor,
                        d as int,
                        (#[trigger] targets@[j]).0 as int,
                    ),
                stm == b.side_to_move,
                nstm == stm.spec_opponent(),
                stm_hm == spec_is_hm_mirror(b@.spec_king_square(stm), stm),
                nstm_hm == spec_is_hm_mirror(b@.spec_king_square(nstm), nstm),
                spec_def_dims() <= 6561 * 63,
                ft == (|to: Square| spec_def_pair(b@, dcolor, hc, sq, to)),
                out@ == before + spec_collect(targets@.take(k as int), ft),
                spec_split_below(out@, HALFKA_HM_DIMENSIONS + spec_def_dims()),
            decreases targets.len() - k,
        {
            let to = targets[k];
            proof {
                lemma_collect_step(targets@, ft, k as int);
            }
            let tpc = b.piece_on(to);
            match ThreatClass::from_piece_type(tpc.piece_type) {
                None => {},
                Some(dc) => {
                    if dcolor != stm {
                        if tpc.color == stm {
                            let si = self.persp_index(stm, stm_hm, dcolor, hc, dc, sq, to);
                            out.push((Some(HALFKA_HM_DIMENSIONS + si), None));
                        }
                    } else {
                        if tpc.color == nstm {
                            let ni = self.persp_index(nstm, nstm_hm, dcolor, hc, dc, sq, to);
                            out.push((None, Some(HALFKA_HM_DIMENSIONS + ni)));
                        }
                    }
                },
            }
            k = k + 1;
        }
        proof {
            lemma_collect_take_all(targets@, ft);
        }
    }

    /// Appends the defensive features of every drop by `dcolor`.
    #[verifier::rlimit(100)]
    #[verifier::spinoff_prover]
    fn push_drop_color(
        &self,
        b: &ShogiBoard,
        occ: &Occupied,
        stm_hm: bool,
        nstm_hm: bool,
        dcolor: Color,
        out: &mut Vec<(Option<usize>, Option<usize>)>,
    )
        requires
            occ@ == spec_occupancy(b@),
            stm_hm == spec_is_hm_mirror(b@.spec_king_square(b.side_to_move), b.side_to_move),
            nstm_hm == spec_is_hm_mirror(
                b@.spec_king_square(b.side_to_move.spec_opponent()),
                b.side_to_move.spec_opponent(),
            ),
            spec_split_below(old(out)@, HALFKA_HM_DIMENSIONS + spec_def_dims()),
        ensures
            final(out)@ == old(out)@ + spec_def_kinds(b@, dcolor, 7),
            spec_split_below(final(out)@, HALFKA_HM_DIMENSIONS + spec_def_dims()),
    {
        let ghost start = out@;
        let hand = b.hand(dcolor);
        let mut k: usize = 0;
        while k < HAND_NUM_CLASSES
            invariant
                k <= 7,
                hand.counts@ == b@.spec_hand(dcolor),
                occ@ == spec_occupancy(b@),
                stm_hm == spec_is_hm_mirror(b@.spec_king_square(b.side_to_move), b.side_to_move),
                nstm_hm == spec_is_hm_mirror(
                    b@.spec_king_square(b.side_to_move.spec_opponent()),
                    b.side_to_move.spec_opponent(),
                ),
                out@ == start + spec_def_kinds(b@, dcolor, k as int),
                spec_split_below(out@, HALFKA_HM_DIMENSIONS + spec_def_dims()),
            decreases 7 - k,
        {
            let hc = HandThreatClass::from_index(k);
            if hand.count(hc.as_piece_type()) == 0 {
                assert(out@ =~= start + spec_def_kinds(b@, dcolor, k as int + 1));
            } else {
                let ghost mid = out@;
                let mut d: usize = 0;
                while d < 81
                    invariant
                        d <= 81,
                        k < 7,
                        hc == HandThreatClass::spec_from_index(k as int),
                        hand.counts@ == b@.spec_hand(dcolor),
                        occ@ == spec_occupancy(b@),
                        stm_hm == spec_is_hm_mirror(b@.spec_king_square(b.side_to_move), b.side_to_move),
                        nstm_hm == spec_is_hm_mirror(
                            b@.spec_king_square(b.side_to_move.spec_opponent()),
                            b.side_to_move.spec_opponent(),
                        ),
                        out@ == mid + spec_def_squares(b@, dcolor, hc, d as int),
                        spec_split_below(out@, HALFKA_HM_DIMENSIONS + spec_def_dims()),
                    decreases 81 - d,
                {
                    self.push_drop_square(b, occ, stm_hm, nstm_hm, dcolor, hc, d, out);
                    assert(out@ =~= mid + spec_def_squares(b@, dcolor, hc, d as int + 1));
                    d = d + 1;
                }
                assert(out@ =~= start + spec_def_kinds(b@, dcolor, k as int + 1));
            }
            k = k + 1;
        }
    }

    /// Defensive features of `b` (see [`spec_def_part`]).
    pub fn map_hand_threat_features_defensive(&self, b: &ShogiBoard) -> (r: Vec<(Option<usize>, Option<usize>)>)
        ensures
            r@ == spec_def_part(b@),
            spec_split_below(r@, HALFKA_HM_DIMENSIONS + spec_def_dims()),
    {
        let stm = b.side_to_move;
        let nstm = stm.opponent();
        let sk = b.king_square(stm);
        let nk = b.king_square(nstm);
        let mut out: Vec<(Option<usize>, Option<usize>)> = Vec::new();
        if !sk.is_valid() || !nk.is_valid() {
            proof {
                assert(!spec_kings_valid(b@)) by {
                    match stm {
                        Color::Black => {},
                        Color::White => {},
                    }
                }
            }
            return out;
        }
        assert(spec_kings_valid(b@)) by {
            match stm {
                Color::Black => {},
                Color::White => {},
            }
        }
        let occ = Occupied::from_board(b);
        let stm_hm = is_hm_mirror(sk, stm);
        let nstm_hm = is_hm_mirror(nk, nstm);
        self.push_drop_color(b, &occ, stm_hm, nstm_hm, stm, &mut out);
        self.push_drop_color(b, &occ, stm_hm, nstm_hm, nstm, &mut out);
        assert(out@ =~= spec_def_part(b@));
        out
    }

    /// Symmetric features of a training record: the HalfKA_hm part only (the
    /// defensive part has one half per feature; see
    /// [`Self::map_features_split`]).
    pub fn map_features(&self, pos: &PackedSfenValue) -> (r: Vec<(usize, usize)>)
        ensures
            r@ == spec_halfka_hm_features(spec_decode(pos.data@)),
    {
        let board = ShogiBoard::from_packed_sfen(pos);
        halfka_hm_features(&board)
    }

    /// Features of a training record: the HalfKA_hm part with both halves,
    /// then the defensive part.
    pub fn map_features_split(&self, pos: &PackedSfenValue) -> (r: Vec<(Option<usize>, Option<usize>)>)
        ensures
            r@ == spec_def_split_features(spec_decode(pos.data@)),
            spec_split_below(r@, HALFKA_HM_DIMENSIONS + spec_def_dims()),
    {
        proof {
            lemma_def_pair_cum_bounds(63, 63);
        }
        let board = ShogiBoard::from_packed_sfen(pos);
        let hk = halfka_hm_features(&board);
        let mut out: Vec<(Option<usize>, Option<usize>)> = Vec::new();
        let mut i: usize = 0;
        while i < hk.len()
            invariant
                i <= hk@.len(),
                forall|j: int| 0 <= j < hk@.len() ==> hk@[j].0 < HALFKA_HM_DIMENSIONS && hk@[j].1 < HALFKA_HM_DIMENSIONS,
                out@ == spec_both(hk@.take(i as int)),
                spec_split_below(out@, HALFKA_HM_DIMENSIONS + spec_def_dims()),
                spec_def_dims() >= 0,
            decreases hk.len() - i,
        {
            let (s, n) = hk[i];
            let ghost pre = out@;
            out.push((Some(s), Some(n)));
            assert forall|t: int| 0 <= t < out@.len() implies ((#[trigger] out@[t]).0 matches Some(x) ==> x
                < HALFKA_HM_DIMENSIONS + spec_def_dims()) && (out@[t].1 matches Some(y) ==> y < HALFKA_HM_DIMENSIONS
                + spec_def_dims()) by {
                if t < pre.len() {
                    assert(out@[t] == pre[t]);
                }
            }
            assert(spec_both(hk@.take(i as int + 1)) =~= spec_both(hk@.take(i as int)).push((Some(s), Some(n))));
            i = i + 1;
        }
        assert(hk@.take(hk@.len() as int) =~= hk@);
        let def = self.map_hand_threat_features_defensive(&board);
        let mut k: usize = 0;
        let ghost mid = out@;
        while k < def.len()
            invariant
                k <= def@.len(),
                spec_split_below(def@, HALFKA_HM_DIMENSIONS + spec_def_dims()),
                out@ == mid + def@.take(k as int),
                spec_split_below(out@, HALFKA_HM_DIMENSIONS + spec_def_dims()),
            decreases def.len() - k,
        {
            let ghost pre = out@;
            out.push(def[k]);
            assert(mid + def@.take(k as int + 1) =~= (mid + def@.take(k as int)).push(def@[k as int]));
            assert forall|i: int| 0 <= i < out@.len() implies ((#[trigger] out@[i]).0 matches Some(x) ==> x
                < HALFKA_HM_DIMENSIONS + spec_def_dims()) && (out@[i].1 matches Some(y) ==> y < HALFKA_HM_DIMENSIONS
                + spec_def_dims()) by {
                if i < pre.len() {
                    assert(out@[i] == pre[i]);
                } else {
                    assert(out@[i] == def@[k as int]);
                }
            }
            k = k + 1;
        }
        assert(def@.take(def@.len() as int) =~= def@);
        out
    }

    /// Short name: `shogi-<inputs>x45hm+handthreatdef`.
    pub fn shorthand(&self) -> (r: String)
        ensures
            r@ == "shogi-"@ + spec_decimal((HALFKA_HM_DIMENSIONS + spec_def_dims()) as nat) + "x45hm+handthreatdef"@,
    {
        let n = self.num_inputs();
        let head = concat_strs("shogi-", decimal_string(n).as_str());
        concat_strs(head.as_str(), "x45hm+handthreatdef")
    }

    /// One-line description naming both parts.
    pub fn description(&self) -> (r: String)
        ensures
            r@ == "Shogi HalfKA_hm ("@ + spec_decimal(HALFKA_HM_DIMENSIONS as nat) + ") + HandThreat defensive ("@
                + spec_decimal(spec_def_dims() as nat) + ") concatenated (asymmetric)"@,
    {
        let a = concat_strs("Shogi HalfKA_hm (", decimal_string(HALFKA_HM_DIMENSIONS).as_str());
        let b = concat_strs(a.as_str(), ") + HandThreat defensive (");
        let c = concat_strs(b.as_str(), decimal_string(self.hand_threat_dimensions()).as_str());
        concat_strs(c.as_str(), ") concatenated (asymmetric)")
    }
}

} // verus!

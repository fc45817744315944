//! HalfKA_hm (73,305 inputs) followed by board threats: one input per
//! (attacker side, attacker class, attacked side, attacked class, empty-board
//! attack) of a piece attacking another non-king piece, seen from each side
//! and numbered in the side's own (possibly mirrored) frame. A
//! [`ThreatProfile`] leaves some pairs out.

use vstd::prelude::*;
use crate::inputs::halfka::{
    HALFKA_HM_DIMENSIONS, MAX_ACTIVE_FEATURES, halfka_hm_features, is_hm_mirror, spec_halfka_hm_features,
    spec_is_hm_mirror, spec_kings_valid,
};
use crate::inputs::threat::{
    AttackTables, spec_complete_tables, NUM_ATTACK_PATTERNS, NUM_THREAT_CLASSES, Occupied, ThreatClass, attack_pattern_id, for_each_attack,
    lemma_attack_order_bound, lemma_empty_attacked_inverse, lemma_empty_attacked_mirror, lemma_from_offset_bounds,
    lemma_pattern_roundtrip, lemma_sq_mirror_coords, lemma_targets_attacked, spec_attack_order, spec_attack_targets,
    spec_attack_pattern_id, spec_empty_attacked, spec_from_offset, spec_is_directional, spec_occupancy,
    spec_pattern_class, spec_pattern_color, spec_pattern_total, spec_piece_attack_targets,
};
use crate::inputs::threat_exclusion::ThreatProfile;
use crate::seqs::{spec_collect, lemma_collect_step, lemma_collect_take_all};
use crate::shogi::board::{BoardView, ShogiBoard};
use crate::shogi::packed_sfen::{PackedSfenValue, spec_decode};
use crate::shogi::types::{Color, PieceType, Square};
use crate::text::{concat_strs, decimal_string, spec_decimal};

verus! {

/// Number of threat pairs: 2 sides x 9 classes x 2 sides x 9 classes.
pub const NUM_PAIRS: usize = 324;

/// Pair base of an excluded pair.
pub const EXCLUDED_PAIR_BASE: usize = usize::MAX;

/// Most threat features active at once (a safe upper bound).
pub const MAX_ACTIVE_THREAT_FEATURES: usize = 320;

/// Most features active at once: HalfKA_hm plus threats.
pub const MAX_ACTIVE_TOTAL: usize = 360;

/// Empty-board attacks of each class, per side, in class order: pawn 72,
/// lance 324, knight 112, silver 328, gold-like 416, bishop 816, rook 1296,
/// horse 1104, dragon 1552.
pub open spec fn spec_attacks_per_color(class: int) -> int {
    if class == 0 {
        72
    } else if class == 1 {
        324
    } else if class == 2 {
        112
    } else if class == 3 {
        328
    } else if class == 4 {
        416
    } else if class == 5 {
        816
    } else if class == 6 {
        1296
    } else if class == 7 {
        1104
    } else {
        1552
    }
}

pub fn attacks_per_color(class: usize) -> (r: usize)
    requires
        class < NUM_THREAT_CLASSES,
    ensures
        r == spec_attacks_per_color(class as int),
{
    if class == 0 {
        72
    } else if class == 1 {
        324
    } else if class == 2 {
        112
    } else if class == 3 {
        328
    } else if class == 4 {
        416
    } else if class == 5 {
        816
    } else if class == 6 {
        1296
    } else if class == 7 {
        1104
    } else {
        1552
    }
}

/// Width of the numbering of a pair whose attacker has class `c`: the
/// number of empty-board attacks of the class. A class and its turned-round
/// pattern attack equally many squares; the larger of the two counts is
/// taken so that either fits.
#[verifier::opaque]
pub open spec fn spec_class_width(c: int) -> int {
    let b = spec_pattern_total(c);
    let w = spec_pattern_total(spec_attack_pattern_id(ThreatClass::spec_from_index(c), Color::White));
    if b >= w {
        b
    } else {
        w
    }
}

/// Whether pair `i = as * 162 + ac * 18 + ds * 9 + dc` is left out.
pub open spec fn spec_pair_excluded(profile: ThreatProfile, i: int) -> bool {
    profile.spec_is_excluded(i / 162, (i % 162) / 18, (i % 18) / 9, i % 9)
}

/// Total width of the pairs below `i` that are kept.
pub open spec fn spec_pair_cum(profile: ThreatProfile, i: int) -> int
    decreases i,
{
    if i <= 0 {
        0
    } else {
        spec_pair_cum(profile, i - 1) + if spec_pair_excluded(profile, i - 1) {
            0
        } else {
            spec_class_width(((i - 1) % 162) / 18)
        }
    }
}

/// Pair base table entry: where pair `i` starts, or [`EXCLUDED_PAIR_BASE`].
pub open spec fn spec_pair_base_entry(profile: ThreatProfile, i: int) -> usize {
    if spec_pair_excluded(profile, i) {
        EXCLUDED_PAIR_BASE
    } else {
        spec_pair_cum(profile, i) as usize
    }
}

/// Number of threat inputs of a profile.
pub open spec fn spec_threat_dims(profile: ThreatProfile) -> int {
    spec_pair_cum(profile, 324)
}

pub proof fn lemma_class_width_bound(c: int)
    ensures
        0 <= spec_class_width(c) <= 6561,
        spec_pattern_total(c) <= spec_class_width(c),
        spec_pattern_total(spec_attack_pattern_id(ThreatClass::spec_from_index(c), Color::White)) <= spec_class_width(c),
        spec_class_width(c) == spec_pattern_total(c) || spec_class_width(c) == spec_pattern_total(
            spec_attack_pattern_id(ThreatClass::spec_from_index(c), Color::White),
        ),
{
    reveal(spec_class_width);
    lemma_from_offset_bounds(c, 81, 81);
    lemma_from_offset_bounds(spec_attack_pattern_id(ThreatClass::spec_from_index(c), Color::White), 81, 81);
}

pub proof fn lemma_pair_cum_bounds(profile: ThreatProfile, a: int, b: int)
    requires
        0 <= a <= b,
    ensures
        0 <= spec_pair_cum(profile, a) <= spec_pair_cum(profile, b),
        spec_pair_cum(profile, b) <= 6561 * b,
        a < b && !spec_pair_excluded(profile, a) ==> spec_pair_cum(profile, a) + spec_class_width((a % 162) / 18)
            <= spec_pair_cum(profile, b),
    decreases b,
{
    if b > 0 {
        lemma_class_width_bound(((b - 1) % 162) / 18);
        if a < b {
            lemma_pair_cum_bounds(profile, a, b - 1);
        } else {
            lemma_pair_cum_bounds(profile, b - 1, b - 1);
        }
    }
}

/// Builds the pair base table of `profile` from the class widths.
pub fn build_pair_base(profile: ThreatProfile, widths: &Vec<usize>) -> (r: (Vec<usize>, usize))
    requires
        widths@.len() == NUM_THREAT_CLASSES,
        forall|c: int| 0 <= c < 9 ==> #[trigger] widths@[c] == spec_class_width(c),
    ensures
        r.0@.len() == NUM_PAIRS,
        forall|i: int| 0 <= i < 324 ==> #[trigger] r.0@[i] == spec_pair_base_entry(profile, i),
        r.1 == spec_threat_dims(profile),
{
    let mut table: Vec<usize> = Vec::new();
    let mut cumulative: usize = 0;
    let mut i: usize = 0;
    while i < NUM_PAIRS
        invariant
            i <= 324,
            widths@.len() == 9,
            forall|c: int| 0 <= c < 9 ==> #[trigger] widths@[c] == spec_class_width(c),
            table@.len() == i,
            forall|j: int| 0 <= j < i ==> #[trigger] table@[j] == spec_pair_base_entry(profile, j),
            cumulative == spec_pair_cum(profile, i as int),
        decreases 324 - i,
    {
        proof {
            lemma_pair_cum_bounds(profile, i as int, i as int + 1);
            lemma_pair_cum_bounds(profile, i as int + 1, i as int + 1);
        }
        let attacker_side = i / 162;
        let ac = (i % 162) / 18;
        let ds = (i % 18) / 9;
        let dc = i % 9;
        if profile.is_excluded(attacker_side, ac, ds, dc) {
            table.push(EXCLUDED_PAIR_BASE);
        } else {
            table.push(cumulative);
            cumulative = cumulative + widths[ac];
        }
        i = i + 1;
    }
    (table, cumulative)
}

/// Attack-order value used in the numbering: the rank of `to_n` among the
/// empty-board attacks of pattern `p` from `from_n`, or 255 when it is not
/// attacked.
pub open spec fn spec_order_value(p: int, from_n: int, to_n: int) -> int {
    if spec_empty_attacked(spec_pattern_class(p), spec_pattern_color(p), from_n, to_n) {
        spec_attack_order(spec_pattern_class(p), spec_pattern_color(p), from_n, to_n)
    } else {
        255
    }
}

/// Pair index of (attacker side, attacker class, attacked side, attacked
/// class).
pub open spec fn spec_pair_index(as_: int, ac: ThreatClass, ds: int, dc: ThreatClass) -> int {
    as_ * 162 + ac.spec_index() * 18 + ds * 9 + dc.spec_index()
}

/// Threat index (without the HalfKA_hm offset) of an attack, or none for an
/// excluded pair: pair base + offset of the normalized from-square + rank of
/// the normalized to-square.
pub open spec fn spec_threat_index(
    profile: ThreatProfile,
    as_: int,
    ac: ThreatClass,
    oriented: Color,
    ds: int,
    dc: ThreatClass,
    from_n: int,
    to_n: int,
) -> Option<int> {
    if profile.spec_is_excluded(as_, ac.spec_index(), ds, dc.spec_index()) {
        None
    } else {
        let p = spec_attack_pattern_id(ac, oriented);
        Some(
            spec_pair_cum(profile, spec_pair_index(as_, ac, ds, dc)) + spec_from_offset(p, from_n)
                + spec_order_value(p, from_n, to_n),
        )
    }
}

/// `sq` seen from `perspective` (rotated for White), mirrored left to right
/// when `hm`.
pub open spec fn spec_normalize_sq(sq: Square, perspective: Color, hm: bool) -> Square {
    let n = if perspective == Color::Black {
        sq
    } else {
        sq.spec_inverse()
    };
    if hm {
        n.spec_mirror_file()
    } else {
        n
    }
}

pub fn normalize_sq(sq: Square, perspective: Color, hm: bool) -> (r: Square)
    requires
        sq.spec_valid(),
    ensures
        r == spec_normalize_sq(sq, perspective, hm),
        r.spec_valid(),
{
    let n = if perspective == Color::Black {
        sq
    } else {
        sq.inverse()
    };
    if hm {
        n.mirror_file()
    } else {
        n
    }
}

/// Side of a piece of `color` for `perspective`: 0 own, 1 other.
pub open spec fn spec_side(color: Color, perspective: Color) -> int {
    if color == perspective {
        0
    } else {
        1
    }
}

/// Direction a piece of `color` moves in, in the frame of `perspective`.
pub open spec fn spec_oriented(color: Color, perspective: Color) -> Color {
    if perspective == Color::Black {
        color
    } else {
        color.spec_opponent()
    }
}

/// Threat index of an attack from `from` to `to` seen from `persp` of `b`.
pub open spec fn spec_persp_threat_index(
    b: BoardView,
    profile: ThreatProfile,
    persp: Color,
    ac: ThreatClass,
    dc: ThreatClass,
    from: Square,
    to: Square,
) -> Option<int> {
    let hm = spec_is_hm_mirror(b.spec_king_square(persp), persp);
    let pc = b.board[from.0 as int];
    let tpc = b.board[to.0 as int];
    spec_threat_index(
        profile,
        spec_side(pc.color, persp),
        ac,
        spec_oriented(pc.color, persp),
        spec_side(tpc.color, persp),
        dc,
        spec_normalize_sq(from, persp, hm).0 as int,
        spec_normalize_sq(to, persp, hm).0 as int,
    )
}

/// Feature pair of the piece on `from` attacking `to`: none when `to` holds
/// no piece or a king, or when the pair is excluded.
pub open spec fn spec_threat_pair(b: BoardView, profile: ThreatProfile, from: Square, to: Square) -> Option<(usize, usize)> {
    let pc = b.board[from.0 as int];
    let tpc = b.board[to.0 as int];
    match (ThreatClass::spec_from_piece_type(pc.piece_type), ThreatClass::spec_from_piece_type(tpc.piece_type)) {
        (Some(ac), Some(dc)) => {
            let stm = b.side_to_move;
            match (
                spec_persp_threat_index(b, profile, stm, ac, dc, from, to),
                spec_persp_threat_index(b, profile, stm.spec_opponent(), ac, dc, from, to),
            ) {
                (Some(x), Some(y)) => Some(((HALFKA_HM_DIMENSIONS + x) as usize, (HALFKA_HM_DIMENSIONS + y) as usize)),
                _ => None,
            }
        },
        _ => None,
    }
}

/// Threat features of the piece on square `from` (none for an empty square
/// or a king), in the order its attacks are walked.
pub open spec fn spec_threats_from(b: BoardView, profile: ThreatProfile, from: int) -> Seq<(usize, usize)> {
    let pc = b.board[from];
    let sq = Square(from as u8);
    match ThreatClass::spec_from_piece_type(pc.piece_type) {
        Some(_) => spec_collect(
            spec_piece_attack_targets(pc.piece_type, pc.color, sq, spec_occupancy(b)),
            |to: Square| spec_threat_pair(b, profile, sq, to),
        ),
        None => Seq::empty(),
    }
}

/// Threat features of the pieces on squares `0..n`, square by square.
pub open spec fn spec_threats_upto(b: BoardView, profile: ThreatProfile, n: int) -> Seq<(usize, usize)>
    decreases n,
{
    if n <= 0 {
        Seq::empty()
    } else {
        spec_threats_upto(b, profile, n - 1) + spec_threats_from(b, profile, n - 1)
    }
}

/// HalfKA_hm + threat features of `b`; nothing when a king is missing.
pub open spec fn spec_threat_features(b: BoardView, profile: ThreatProfile) -> Seq<(usize, usize)> {
    if !spec_kings_valid(b) {
        Seq::empty()
    } else {
        spec_halfka_hm_features(b) + spec_threats_upto(b, profile, 81)
    }
}

/// Kept pairs are numbered inside the profile's threat inputs.
pub proof fn lemma_threat_index_bound(
    profile: ThreatProfile,
    as_: int,
    ac: ThreatClass,
    oriented: Color,
    ds: int,
    dc: ThreatClass,
    from_n: int,
    to_n: int,
)
    requires
        0 <= as_ < 2,
        0 <= ds < 2,
        !profile.spec_is_excluded(as_, ac.spec_index(), ds, dc.spec_index()),
        spec_empty_attacked(
            spec_pattern_class(spec_attack_pattern_id(ac, oriented)),
            spec_pattern_color(spec_attack_pattern_id(ac, oriented)),
            from_n,
            to_n,
        ),
    ensures
        spec_threat_index(profile, as_, ac, oriented, ds, dc, from_n, to_n) matches Some(x) && 0 <= x
            < spec_threat_dims(profile),
{
    let p = spec_attack_pattern_id(ac, oriented);
    let pi = spec_pair_index(as_, ac, ds, dc);
    let class = spec_pattern_class(p);
    let color = spec_pattern_color(p);
    lemma_pattern_roundtrip(ac, oriented);
    lemma_attack_order_bound(class, color, from_n, to_n);
    lemma_from_offset_bounds(p, from_n, 81);
    assert(pi / 162 == as_ && (pi % 162) / 18 == ac.spec_index() && (pi % 18) / 9 == ds && pi % 9
        == dc.spec_index()) by (nonlinear_arith)
        requires
            pi == as_ * 162 + ac.spec_index() * 18 + ds * 9 + dc.spec_index(),
            0 <= as_ < 2,
            0 <= ds < 2,
            0 <= ac.spec_index() < 9,
            0 <= dc.spec_index() < 9,
    ;
    assert(0 <= pi < 324);
    lemma_pair_cum_bounds(profile, pi, 324);
    assert(spec_pattern_total(p) <= spec_class_width(ac.spec_index())) by {
        lemma_class_width_bound(ac.spec_index());
        assert(ThreatClass::spec_from_index(ac.spec_index()) == ac);
    }
}

/// Whether a piece of `class` moving as `color` attacks `to` from `from`
/// on an empty board.
pub open spec fn spec_pattern_attacked(class: ThreatClass, color: Color, from: int, to: int) -> bool {
    let p = spec_attack_pattern_id(class, color);
    spec_empty_attacked(spec_pattern_class(p), spec_pattern_color(p), from, to)
}

/// An attack stays an attack of the oriented pattern after normalizing both
/// squares.
pub proof fn lemma_normalized_attacked(class: ThreatClass, color: Color, from: Square, to: Square, persp: Color, hm: bool)
    requires
        spec_empty_attacked(class, color, from.0 as int, to.0 as int),
    ensures
        spec_pattern_attacked(
            class,
            spec_oriented(color, persp),
            spec_normalize_sq(from, persp, hm).0 as int,
            spec_normalize_sq(to, persp, hm).0 as int,
        ),
{
    let oc = spec_oriented(color, persp);
    let n_from = if persp == Color::Black {
        from
    } else {
        from.spec_inverse()
    };
    let n_to = if persp == Color::Black {
        to
    } else {
        to.spec_inverse()
    };
    if persp == Color::White {
        lemma_empty_attacked_inverse(class, color, from.0 as int, to.0 as int);
    }
    assert(spec_empty_attacked(class, oc, n_from.0 as int, n_to.0 as int));
    if hm {
        lemma_empty_attacked_mirror(class, oc, n_from.0 as int, n_to.0 as int);
        lemma_sq_mirror_coords(n_from.0 as int);
        lemma_sq_mirror_coords(n_to.0 as int);
    }
    let f = spec_normalize_sq(from, persp, hm).0 as int;
    let t = spec_normalize_sq(to, persp, hm).0 as int;
    assert(spec_empty_attacked(class, oc, f, t));
    lemma_pattern_roundtrip(class, oc);
}

pub proof fn lemma_pair_index_decode(as_: int, ac: ThreatClass, ds: int, dc: ThreatClass)
    requires
        0 <= as_ < 2,
        0 <= ds < 2,
    ensures
        0 <= spec_pair_index(as_, ac, ds, dc) < 324,
        spec_pair_index(as_, ac, ds, dc) / 162 == as_,
        (spec_pair_index(as_, ac, ds, dc) % 162) / 18 == ac.spec_index(),
        (spec_pair_index(as_, ac, ds, dc) % 18) / 9 == ds,
        spec_pair_index(as_, ac, ds, dc) % 9 == dc.spec_index(),
{
    let pi = spec_pair_index(as_, ac, ds, dc);
    assert(pi / 162 == as_ && (pi % 162) / 18 == ac.spec_index() && (pi % 18) / 9 == ds && pi % 9
        == dc.spec_index()) by (nonlinear_arith)
        requires
            pi == as_ * 162 + ac.spec_index() * 18 + ds * 9 + dc.spec_index(),
            0 <= as_ < 2,
            0 <= ds < 2,
            0 <= ac.spec_index() < 9,
            0 <= dc.spec_index() < 9,
    ;
}

/// What the threat index of a kept pair needs: the normalized squares form
/// an attack of the oriented pattern, and the index parts stay in range.
pub proof fn lemma_persp_index_facts(
    profile: ThreatProfile,
    as_: int,
    ac: ThreatClass,
    oriented: Color,
    ds: int,
    dc: ThreatClass,
    color: Color,
    persp: Color,
    hm: bool,
    from: Square,
    to: Square,
)
    requires
        0 <= as_ < 2,
        0 <= ds < 2,
        oriented == spec_oriented(color, persp),
        !profile.spec_is_excluded(as_, ac.spec_index(), ds, dc.spec_index()),
        spec_empty_attacked(ac, color, from.0 as int, to.0 as int),
    ensures
        ({
            let p = spec_attack_pattern_id(ac, oriented);
            let f = spec_normalize_sq(from, persp, hm).0 as int;
            let t = spec_normalize_sq(to, persp, hm).0 as int;
            &&& spec_empty_attacked(spec_pattern_class(p), spec_pattern_color(p), f, t)
            &&& 0 <= spec_order_value(p, f, t) < 81
            &&& spec_threat_index(profile, as_, ac, oriented, ds, dc, f, t) == Some(
                spec_pair_cum(profile, spec_pair_index(as_, ac, ds, dc)) + spec_from_offset(p, f) + spec_order_value(
                    p,
                    f,
                    t,
                ),
            )
            &&& spec_pair_cum(profile, spec_pair_index(as_, ac, ds, dc)) + spec_from_offset(p, f)
                + spec_order_value(p, f, t) < spec_threat_dims(profile)
            &&& spec_threat_dims(profile) <= 6561 * 324
            &&& 0 <= spec_from_offset(p, f)
            &&& 0 <= spec_pair_cum(profile, spec_pair_index(as_, ac, ds, dc))
        }),
{
    let p = spec_attack_pattern_id(ac, oriented);
    let f = spec_normalize_sq(from, persp, hm).0 as int;
    let t = spec_normalize_sq(to, persp, hm).0 as int;
    lemma_normalized_attacked(ac, color, from, to, persp, hm);
    lemma_threat_index_bound(profile, as_, ac, oriented, ds, dc, f, t);
    lemma_pattern_roundtrip(ac, oriented);
    lemma_attack_order_bound(spec_pattern_class(p), spec_pattern_color(p), f, t);
    lemma_from_offset_bounds(p, f, 81);
    lemma_pair_index_decode(as_, ac, ds, dc);
    lemma_pair_cum_bounds(profile, spec_pair_index(as_, ac, ds, dc), 324);
}

/// The parts of a threat index: sides, classes, the attacker's direction in
/// the perspective's frame, and the normalized squares.
#[derive(Clone, Copy, Debug)]
pub struct ThreatParams {
    pub attacker_side: usize,
    pub attacker_class: ThreatClass,
    pub oriented_color: Color,
    pub attacked_side: usize,
    pub attacked_class: ThreatClass,
    pub from_sq_n: Square,
    pub to_sq_n: Square,
}

/// Board threats with the HalfKA_hm features in front.
#[derive(Debug)]
pub struct ShogiHalfKaHmThreat {
    profile: ThreatProfile,
    pair_base: Vec<usize>,
    threat_dims: usize,
    tables: AttackTables,
}

impl Clone for ShogiHalfKaHmThreat {
    fn clone(&self) -> (r: ShogiHalfKaHmThreat)
        ensures
            r.spec_profile() == self.spec_profile(),
            r.spec_pair_base() == self.spec_pair_base(),
            r.spec_dims() == self.spec_dims(),
            r.spec_tables().spec_offset_table() == self.spec_tables().spec_offset_table(),
            r.spec_tables().spec_order_table() == self.spec_tables().spec_order_table(),
            r.spec_tables().spec_totals() == self.spec_tables().spec_totals(),
    {
        proof {
            use_type_invariant(self);
        }
        let pair_base = self.pair_base.clone();
        assert(pair_base@ =~= self.pair_base@);
        ShogiHalfKaHmThreat {
            profile: self.profile,
            pair_base,
            threat_dims: self.threat_dims,
            tables: self.tables.clone(),
        }
    }
}

impl ShogiHalfKaHmThreat {
    #[verifier::type_invariant]
    closed spec fn inv(self) -> bool {
        &&& self.pair_base@.len() == NUM_PAIRS
        &&& forall|i: int| 0 <= i < 324 ==> #[trigger] self.pair_base@[i] == spec_pair_base_entry(self.profile, i)
        &&& self.threat_dims == spec_threat_dims(self.profile)
    }

    /// The exclusion profile.
    pub closed spec fn spec_profile(self) -> ThreatProfile {
        self.profile
    }

    /// Where each attacker/target pair starts.
    pub closed spec fn spec_pair_base(self) -> Seq<usize> {
        self.pair_base@
    }

    /// Number of threat inputs.
    pub closed spec fn spec_dims(self) -> usize {
        self.threat_dims
    }

    /// The attack tables.
    pub closed spec fn spec_tables(self) -> AttackTables {
        self.tables
    }

    /// Feature set with the pairs of `profile`.
    pub fn new(profile: ThreatProfile) -> (r: ShogiHalfKaHmThreat)
        ensures
            r.spec_profile() == profile,
            r.spec_pair_base() == Seq::new(324, |i: int| spec_pair_base_entry(profile, i)),
            r.spec_dims() == spec_threat_dims(profile),
            spec_complete_tables(r.spec_tables()),
    {
        let tables = AttackTables::new();
        let mut widths: Vec<usize> = Vec::new();
        let mut c: usize = 0;
        while c < NUM_THREAT_CLASSES
            invariant
                c <= 9,
                widths@.len() == c,
                forall|j: int| 0 <= j < c ==> #[trigger] widths@[j] == spec_class_width(j),
            decreases 9 - c,
        {
            let class = ThreatClass::from_index(c);
            let b = tables.total(attack_pattern_id(class, Color::Black));
            let w = tables.total(attack_pattern_id(class, Color::White));
            proof {
                assert(spec_attack_pattern_id(class, Color::Black) == c);
                reveal(spec_class_width);
            }
            widths.push(if b >= w { b } else { w });
            c = c + 1;
        }
        let (pair_base, threat_dims) = build_pair_base(profile, &widths);
        let r = ShogiHalfKaHmThreat { profile, pair_base, threat_dims, tables };
        proof {
            use_type_invariant(&r);
        }
        assert(r.pair_base@ =~= Seq::new(324, |i: int| spec_pair_base_entry(profile, i)));
        r
    }

    /// Number of threat inputs.
    pub fn threat_dimensions(&self) -> (r: usize)
        ensures
            r == spec_threat_dims(self.spec_profile()),
    {
        proof {
            use_type_invariant(self);
        }
        self.threat_dims
    }

    /// The exclusion profile.
    pub fn profile(&self) -> (r: ThreatProfile)
        ensures
            r == self.spec_profile(),
    {
        self.profile
    }

    /// Number of inputs: HalfKA_hm followed by the threats.
    pub fn num_inputs(&self) -> (r: usize)
        ensures
            r == HALFKA_HM_DIMENSIONS + spec_threat_dims(self.spec_profile()),
    {
        proof {
            use_type_invariant(self);
            lemma_pair_cum_bounds(self.profile, 324, 324);
        }
        HALFKA_HM_DIMENSIONS + self.threat_dims
    }

    /// Most features active at once.
    pub fn max_active(&self) -> (r: usize)
        ensures
            r == MAX_ACTIVE_TOTAL,
    {
        MAX_ACTIVE_TOTAL
    }

    /// Threat index of an attack by a piece of class `ac` and colour `color`
    /// on a piece of class `dc` and colour `tcolor`, seen from `persp` (see
    /// [`spec_threat_index`]).
    #[verifier::rlimit(100)]
    #[verifier::spinoff_prover]
    fn persp_index(
        &self,
        persp: Color,
        hm: bool,
        ac: ThreatClass,
        color: Color,
        dc: ThreatClass,
        tcolor: Color,
        from: Square,
        to: Square,
    ) -> (r: Option<usize>)
        requires
            from.spec_valid(),
            to.spec_valid(),
            spec_empty_attacked(ac, color, from.0 as int, to.0 as int),
        ensures
            ({
                let s = spec_threat_index(
                    self.spec_profile(),
                    spec_side(color, persp),
                    ac,
                    spec_oriented(color, persp),
                    spec_side(tcolor, persp),
                    dc,
                    spec_normalize_sq(from, persp, hm).0 as int,
                    spec_normalize_sq(to, persp, hm).0 as int,
                );
                &&& r matches Some(x) ==> s == Some(x as int) && x < spec_threat_dims(self.spec_profile())
                &&& r is None ==> s is None
            }),
    {
        let as_: usize = if color == persp {
            0
        } else {
            1
        };
        let ds: usize = if tcolor == persp {
            0
        } else {
            1
        };
        let oriented = if persp == Color::Black {
            color
        } else {
            color.opponent()
        };
        proof {
            lemma_pair_index_decode(as_ as int, ac, ds as int, dc);
        }
        let idx = as_ * 162 + ac.index() * 18 + ds * 9 + dc.index();
        let base = self.base_of(idx);
        if base == EXCLUDED_PAIR_BASE {
            proof {
                if !spec_pair_excluded(self.profile, idx as int) {
                    lemma_pair_cum_bounds(self.profile, idx as int, idx as int);
                }
            }
            return None;
        }
        let pattern = attack_pattern_id(ac, oriented);
        let from_n = normalize_sq(from, persp, hm);
        let to_n = normalize_sq(to, persp, hm);
        proof {
            lemma_persp_index_facts(self.profile, as_ as int, ac, oriented, ds as int, dc, color, persp, hm, from, to);
        }
        let off = self.tables.from_offset(pattern, from_n);
        let ord = self.tables.attack_order(pattern, from_n, to_n);
        assert(base == spec_pair_cum(self.profile, spec_pair_index(as_ as int, ac, ds as int, dc)));
        assert(off == spec_from_offset(pattern as int, from_n.0 as int));
        assert(ord == spec_order_value(pattern as int, from_n.0 as int, to_n.0 as int));
        assert(base + off + ord < spec_threat_dims(self.profile));
        let x = base + off + ord as usize;
        assert(spec_threat_index(
            self.profile,
            spec_side(color, persp),
            ac,
            spec_oriented(color, persp),
            spec_side(tcolor, persp),
            dc,
            spec_normalize_sq(from, persp, hm).0 as int,
            spec_normalize_sq(to, persp, hm).0 as int,
        ) == Some(x as int));
        Some(x)
    }

    /// HalfKA_hm + threat features of `b` (see [`spec_threat_features`]);
    /// every index is below [`Self::num_inputs`].
    pub fn map_threat_features(&self, b: &ShogiBoard) -> (r: Vec<(usize, usize)>)
        ensures
            r@ == spec_threat_features(b@, self.spec_profile()),
            forall|i: int|
                0 <= i < r@.len() ==> r@[i].0 < HALFKA_HM_DIMENSIONS + spec_threat_dims(self.spec_profile())
                    && r@[i].1 < HALFKA_HM_DIMENSIONS + spec_threat_dims(self.spec_profile()),
    {
        proof {
            use_type_invariant(self);
            lemma_pair_cum_bounds(self.profile, 324, 324);
        }
        let stm = b.side_to_move;
        let nstm = stm.opponent();
        let sk = b.king_square(stm);
        let nk = b.king_square(nstm);
        if !sk.is_valid() || !nk.is_valid() {
            proof {
                assert(!spec_kings_valid(b@)) by {
                    match stm {
                        Color::Black => {},
                        Color::White => {},
                    }
                }
            }
            return Vec::new();
        }
        assert(spec_kings_valid(b@)) by {
            match stm {
                Color::Black => {},
                Color::White => {},
            }
        }
        let ghost profile = self.profile;
        let ghost dims = spec_threat_dims(self.profile);
        let mut out = halfka_hm_features(b);
        let ghost hk = out@;
        let occ = Occupied::from_board(b);
        let stm_hm = is_hm_mirror(sk, stm);
        let nstm_hm = is_hm_mirror(nk, nstm);
        let mut sq: usize = 0;
        while sq < 81
            invariant
                sq <= 81,
                profile == self.spec_profile(),
                dims == spec_threat_dims(profile),
                dims <= 6561 * 324,
                stm == b.side_to_move,
                nstm == stm.spec_opponent(),
                stm_hm == spec_is_hm_mirror(b@.spec_king_square(stm), stm),
                nstm_hm == spec_is_hm_mirror(b@.spec_king_square(nstm), nstm),
                occ@ == spec_occupancy(b@),
                out@ == hk + spec_threats_upto(b@, profile, sq as int),
                forall|i: int|
                    0 <= i < out@.len() ==> out@[i].0 < HALFKA_HM_DIMENSIONS + dims && out@[i].1
                        < HALFKA_HM_DIMENSIONS + dims,
            decreases 81 - sq,
        {
            let from = Square(sq as u8);
            let pc = b.piece_on(from);
            let ghost before = out@;
            match ThreatClass::from_piece_type(pc.piece_type) {
                None => {
                    assert(out@ =~= hk + spec_threats_upto(b@, profile, sq as int + 1));
                },
                Some(ac) => {
                    let targets = for_each_attack(pc.piece_type, pc.color, from, &occ);
                    proof {
                        lemma_targets_attacked(ac, pc.color, from, occ@);
                    }
                    let ghost ft = |to: Square| spec_threat_pair(b@, profile, from, to);
                    let mut k: usize = 0;
                    while k < targets.len()
                        invariant
                            k <= targets@.len(),
                            from.0 == sq,
                            sq < 81,
                            pc == b@.board[sq as int],
                            ThreatClass::spec_from_piece_type(pc.piece_type) == Some(ac),
                            targets@ == spec_attack_targets(ac, pc.color, from, occ@),
                            forall|j: int|
                                0 <= j < targets@.len() ==> spec_empty_attacked(
                                    ac,
                                    pc.color,
                                    from.0 as int,
                                    (#[trigger] targets@[j]).0 as int,
                                ),
                            profile == self.spec_profile(),
                            dims == spec_threat_dims(profile),
                            dims <= 6561 * 324,
                            stm == b.side_to_move,
                            nstm == stm.spec_opponent(),
                            stm_hm == spec_is_hm_mirror(b@.spec_king_square(stm), stm),
                            nstm_hm == spec_is_hm_mirror(b@.spec_king_square(nstm), nstm),
                            ft == (|to: Square| spec_threat_pair(b@, profile, from, to)),
                            out@ == before + spec_collect(targets@.take(k as int), ft),
                            forall|i: int|
                                0 <= i < out@.len() ==> out@[i].0 < HALFKA_HM_DIMENSIONS + dims && out@[i].1
                                    < HALFKA_HM_DIMENSIONS + dims,
                        decreases targets.len() - k,
                    {
                        let to = targets[k];
                        proof {
                            lemma_collect_step(targets@, ft, k as int);
                        }
                        let tpc = b.piece_on(to);
                        match ThreatClass::from_piece_type(tpc.piece_type) {
                            None => {},
                            Some(dc) => {
                                let si = self.persp_index(stm, stm_hm, ac, pc.color, dc, tpc.color, from, to);
                                let ni = self.persp_index(nstm, nstm_hm, ac, pc.color, dc, tpc.color, from, to);
                                match (si, ni) {
                                    (Some(x), Some(y)) => {
                                        out.push((HALFKA_HM_DIMENSIONS + x, HALFKA_HM_DIMENSIONS + y));
                                    },
                                    _ => {},
                                }
                            },
                        }
                        k = k + 1;
                    }
                    proof {
                        lemma_collect_take_all(targets@, ft);
                    }
                    assert(out@ =~= hk + spec_threats_upto(b@, profile, sq as int + 1));
                },
            }
            sq = sq + 1;
        }
        out
    }

    /// Features of a training record: its position decoded, then
    /// [`Self::map_threat_features`].
    pub fn map_features(&self, pos: &PackedSfenValue) -> (r: Vec<(usize, usize)>)
        ensures
            r@ == spec_threat_features(spec_decode(pos.data@), self.spec_profile()),
    {
        let board = ShogiBoard::from_packed_sfen(pos);
        self.map_threat_features(&board)
    }

    /// Short name: `shogi-<inputs>x45hm+threat`.
    pub fn shorthand(&self) -> (r: String)
        ensures
            r@ == "shogi-"@ + spec_decimal((HALFKA_HM_DIMENSIONS + spec_threat_dims(self.spec_profile())) as nat)
                + "x45hm+threat"@,
    {
        let n = self.num_inputs();
        let digits = decimal_string(n);
        let head = concat_strs("shogi-", digits.as_str());
        concat_strs(head.as_str(), "x45hm+threat")
    }

    /// One-line description naming both parts and the profile.
    pub fn description(&self) -> (r: String)
        ensures
            r@ == "Shogi HalfKA_hm ("@ + spec_decimal(HALFKA_HM_DIMENSIONS as nat) + ") + Threat ("@ + spec_decimal(
                spec_threat_dims(self.spec_profile()) as nat,
            ) + ", profile="@ + self.spec_profile().spec_name() + ") concatenated"@,
    {
        let a = concat_strs("Shogi HalfKA_hm (", decimal_string(HALFKA_HM_DIMENSIONS).as_str());
        let b = concat_strs(a.as_str(), ") + Threat (");
        let c = concat_strs(b.as_str(), decimal_string(self.threat_dimensions()).as_str());
        let d = concat_strs(c.as_str(), ", profile=");
        let e = concat_strs(d.as_str(), self.profile.name());
        concat_strs(e.as_str(), ") concatenated")
    }

    /// Table entry of pair `idx`.
    fn base_of(&self, idx: usize) -> (r: usize)
        requires
            idx < NUM_PAIRS,
        ensures
            r == spec_pair_base_entry(self.spec_profile(), idx as int),
    {
        proof {
            use_type_invariant(self);
        }
        self.pair_base[idx]
    }

    /// Where each pair starts (pair `as * 162 + ac * 18 + ds * 9 + dc`), or
    /// [`EXCLUDED_PAIR_BASE`].
    pub fn pair_base(&self) -> (r: Vec<usize>)
        ensures
            r@.len() == NUM_PAIRS,
            forall|i: int| 0 <= i < 324 ==> #[trigger] r@[i] == spec_pair_base_entry(self.spec_profile(), i),
    {
        proof {
            use_type_invariant(self);
        }
        let r = self.pair_base.clone();
        assert(r@ =~= self.pair_base@);
        r
    }

    /// Threat index (without the HalfKA_hm offset) of `params`; none for an
    /// excluded pair (see [`spec_threat_index`]).
    pub fn threat_index(&self, params: &ThreatParams) -> (r: Option<usize>)
        requires
            params.attacker_side < 2,
            params.attacked_side < 2,
            params.from_sq_n.spec_valid(),
            params.to_sq_n.spec_valid(),
        ensures
            r matches Some(x) ==> spec_threat_index(
                self.spec_profile(),
                params.attacker_side as int,
                params.attacker_class,
                params.oriented_color,
                params.attacked_side as int,
                params.attacked_class,
                params.from_sq_n.0 as int,
                params.to_sq_n.0 as int,
            ) == Some(x as int),
            r is None ==> spec_threat_index(
                self.spec_profile(),
                params.attacker_side as int,
                params.attacker_class,
                params.oriented_color,
                params.attacked_side as int,
                params.attacked_class,
                params.from_sq_n.0 as int,
                params.to_sq_n.0 as int,
            ) is None,
    {
        proof {
            lemma_pair_index_decode(
                params.attacker_side as int,
                params.attacker_class,
                params.attacked_side as int,
                params.attacked_class,
            );
        }
        let idx = params.attacker_side * 162 + params.attacker_class.index() * 18 + params.attacked_side * 9
            + params.attacked_class.index();
        let base = self.base_of(idx);
        if base == EXCLUDED_PAIR_BASE {
            proof {
                if !spec_pair_excluded(self.profile, idx as int) {
                    lemma_pair_cum_bounds(self.profile, idx as int, idx as int);
                }
            }
            return None;
        }
        proof {
            lemma_pair_cum_bounds(self.profile, idx as int, 324);
            lemma_from_offset_bounds(
                spec_attack_pattern_id(params.attacker_class, params.oriented_color),
                params.from_sq_n.0 as int,
                81,
            );
        }
        let pattern = attack_pattern_id(params.attacker_class, params.oriented_color);
        let off = self.tables.from_offset(pattern, params.from_sq_n);
        let ord = self.tables.attack_order(pattern, params.from_sq_n, params.to_sq_n);
        proof {
            let c = spec_pattern_class(pattern as int);
            let k = spec_pattern_color(pattern as int);
            if spec_empty_attacked(c, k, params.from_sq_n.0 as int, params.to_sq_n.0 as int) {
                lemma_attack_order_bound(c, k, params.from_sq_n.0 as int, params.to_sq_n.0 as int);
            }
        }
        assert(ord == spec_order_value(pattern as int, params.from_sq_n.0 as int, params.to_sq_n.0 as int));
        Some(base + off + ord as usize)
    }
}

} // verus!

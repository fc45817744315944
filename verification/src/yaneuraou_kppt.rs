//! YaneuraOu KPPT evaluation files from trained KK / KKP / KPP weights: where
//! each table entry of the files takes its weight from, the file layouts,
//! and the reader of the weight dump that holds the trained tensors.
//!
//! YaneuraOu indexes `kk[bk][wk]` by raw squares, while the trained KK input
//! numbers Black's view `bk * 81 + (80 - wk)`; KKP adds the BonaPiece
//! `bk * 81 + (80 - wk)` times 1548 plus `bp`. Training only sees a KPP pair
//! in canonical order (lower BonaPiece first), so both orders of a pair read
//! the same weight.

use vstd::prelude::*;
use vstd::arithmetic::power::{lemma_pow_increases, pow};

verus! {

/// Squares of the board.
pub const SQ_NB: usize = 81;

/// BonaPieces.
pub const FE_END: usize = 1548;

/// Entries of the KK table.
pub const KK_TOTAL: usize = 6561;

/// Entries of the KKP table.
pub const KKP_TOTAL: usize = 10156428;

/// Entries of the KPP table.
pub const KPP_TOTAL: usize = 194100624;

/// On-disk layout of the KPP file.
#[derive(Clone, Copy, Debug, PartialEq, Eq, Structural)]
pub enum KppFormat {
    /// `int16_t kpp[81][1548][1548][2]`: with a turn channel.
    Kppt,
    /// `int16_t kpp[81][1548][1548]`: without one.
    KppKkpt,
}

impl Default for KppFormat {
    /// The KPPT layout.
    fn default() -> (r: Self)
        ensures
            r == KppFormat::Kppt,
    {
        KppFormat::Kppt
    }
}

impl KppFormat {
    /// `int16_t` values per KPP entry: 2 with the turn channel, else 1.
    pub fn values_per_entry(self) -> (r: usize)
        ensures
            r == match self {
                KppFormat::Kppt => 2usize,
                KppFormat::KppKkpt => 1usize,
            },
    {
        match self {
            KppFormat::Kppt => 2,
            KppFormat::KppKkpt => 1,
        }
    }
}

/// Trained KK weight of `kk[bk][wk]`.
pub open spec fn spec_kk_source(bk: int, wk: int) -> int {
    bk * 81 + (80 - wk)
}

/// Trained KKP weight of `kkp[bk][wk][bp]`.
pub open spec fn spec_kkp_source(bk: int, wk: int, bp: int) -> int {
    spec_kk_source(bk, wk) * 1548 + bp
}

/// Trained KPP weight of `kpp[k][p1][p2]`: the canonical pair, lower
/// BonaPiece first.
pub open spec fn spec_kpp_source(k: int, p1: int, p2: int) -> int {
    if p1 <= p2 {
        k * 1548 * 1548 + p1 * 1548 + p2
    } else {
        k * 1548 * 1548 + p2 * 1548 + p1
    }
}

/// Index of the trained weight that `kk[bk][wk]` takes.
pub fn kk_source_index(bk: usize, wk: usize) -> (r: usize)
    requires
        bk < 81,
        wk < 81,
    ensures
        r == spec_kk_source(bk as int, wk as int),
        r < KK_TOTAL,
{
    bk * SQ_NB + (80 - wk)
}

/// Index of the trained weight that `kkp[bk][wk][bp]` takes.
pub fn kkp_source_index(bk: usize, wk: usize, bp: usize) -> (r: usize)
    requires
        bk < 81,
        wk < 81,
        bp < 1548,
    ensures
        r == spec_kkp_source(bk as int, wk as int, bp as int),
        r < KKP_TOTAL,
{
    let kk = kk_source_index(bk, wk);
    assert(kk * 1548 + bp < KKP_TOTAL) by (nonlinear_arith)
        requires
            kk < 6561,
            bp < 1548,
    ;
    kk * FE_END + bp
}

/// Index of the trained weight that `kpp[k][p1][p2]` takes.
pub fn kpp_source_index(k: usize, p1: usize, p2: usize) -> (r: usize)
    requires
        k < 81,
        p1 < 1548,
        p2 < 1548,
    ensures
        r == spec_kpp_source(k as int, p1 as int, p2 as int),
        r < KPP_TOTAL,
{
    let (lo, hi) = if p1 <= p2 { (p1, p2) } else { (p2, p1) };
    assert(k * 1548 * 1548 + lo * 1548 + hi < KPP_TOTAL) by (nonlinear_arith)
        requires
            k < 81,
            lo < 1548,
            hi < 1548,
    ;
    k * FE_END * FE_END + lo * FE_END + hi
}

/// The KPP table is symmetric: `kpp[k][p1][p2]` and `kpp[k][p2][p1]` take
/// the same trained weight.
pub proof fn lemma_kpp_table_symmetric(k: int, p1: int, p2: int)
    ensures
        spec_kpp_source(k, p1, p2) == spec_kpp_source(k, p2, p1),
{
}

/// Every trained KK weight fills exactly one KK entry: the entry
/// `kk[bk][wk]` with `bk = i / 81` and `wk = 80 - i % 81` takes weight
/// `i`, and no other entry does.
pub proof fn lemma_kk_sources_one_to_one(bk: int, wk: int, bk2: int, wk2: int)
    requires
        0 <= bk < 81,
        0 <= wk < 81,
        0 <= bk2 < 81,
        0 <= wk2 < 81,
    ensures
        0 <= spec_kk_source(bk, wk) < 6561,
        spec_kk_source(bk, wk) == spec_kk_source(bk2, wk2) ==> bk == bk2 && wk == wk2,
        spec_kk_source(spec_kk_source(bk, wk) / 81, 80 - spec_kk_source(bk, wk) % 81) == spec_kk_source(bk, wk),
{
    assert(spec_kk_source(bk, wk) / 81 == bk && spec_kk_source(bk, wk) % 81 == 80 - wk) by (nonlinear_arith)
        requires
            0 <= bk < 81,
            0 <= wk < 81,
    ;
    if spec_kk_source(bk, wk) == spec_kk_source(bk2, wk2) {
        assert(spec_kk_source(bk2, wk2) / 81 == bk2 && spec_kk_source(bk2, wk2) % 81 == 80 - wk2)
            by (nonlinear_arith)
            requires
                0 <= bk2 < 81,
                0 <= wk2 < 81,
        ;
    }
}

/// Every canonical KPP weight `(k, lo, hi)` with `lo <= hi` is the source
/// of `kpp[k][lo][hi]`, and of `kpp[k][hi][lo]` too.
pub proof fn lemma_kpp_canonical_weights_are_used(k: int, lo: int, hi: int)
    requires
        lo <= hi,
    ensures
        spec_kpp_source(k, lo, hi) == k * 1548 * 1548 + lo * 1548 + hi,
        spec_kpp_source(k, hi, lo) == k * 1548 * 1548 + lo * 1548 + hi,
{
}

/// Little-endian value of the `n` bytes of `d` from `p`.
pub open spec fn spec_le(d: Seq<u8>, p: int, n: nat) -> nat
    decreases n,
{
    if n == 0 {
        0
    } else {
        d[p] as nat + 256 * spec_le(d, p + 1, (n - 1) as nat)
    }
}

/// The `n` little-endian 32-bit words of `d` from `p`.
pub open spec fn spec_words(d: Seq<u8>, p: int, n: nat) -> Seq<u32> {
    Seq::new(n, |i: int| spec_le(d, p + 4 * i, 4) as u32)
}

/// First newline byte of `d` at or after `o`; the end of `d` when none.
pub open spec fn spec_newline_from(d: Seq<u8>, o: int) -> int
    decreases d.len() - o,
{
    if o >= d.len() {
        d.len() as int
    } else if d[o] == 10 {
        o
    } else {
        spec_newline_from(d, o + 1)
    }
}

/// What a weight dump failed on: the bytes end inside a weight name
/// (`EofInId`), inside a length (`EofInLength`: the name, the offset of
/// the length and the size of the dump) or inside the values
/// (`EofInValues`: the name, their number, the bytes they need, saturated
/// to `usize::MAX`, and the bytes left).
#[derive(Clone, Debug)]
pub enum WeightsError {
    EofInId,
    EofInLength { id: Vec<u8>, offset: usize, total: usize },
    EofInValues { id: Vec<u8>, len: usize, need: usize, have: usize },
}

/// Mathematical form of a [`WeightsError`]: its variant (0, 1, 2), the
/// name and its three numbers (zero where the variant has none).
pub open spec fn spec_weights_error(e: WeightsError) -> (int, Seq<u8>, int, int, int) {
    match e {
        WeightsError::EofInId => (0, Seq::empty(), 0, 0, 0),
        WeightsError::EofInLength { id, offset, total } => (1, id@, offset as int, total as int, 0),
        WeightsError::EofInValues { id, len, need, have } => (2, id@, len as int, need as int, have as int),
    }
}

/// Bytes for `l` values, saturated to `usize::MAX`.
pub open spec fn spec_need(l: int) -> int {
    if l * 4 > usize::MAX {
        usize::MAX as int
    } else {
        l * 4
    }
}

/// The weights of a dump `d` from offset `o`, with lengths of `w` bytes:
/// per weight a name ended by a newline, its number of values as a
/// little-endian length, and the values as little-endian 32-bit words; or
/// the first failure (see [`spec_weights_error`]).
pub open spec fn spec_parse_weights(d: Seq<u8>, o: int, w: nat) -> Result<
    Seq<(Seq<u8>, Seq<u32>)>,
    (int, Seq<u8>, int, int, int),
>
    decreases d.len() - o,
{
    if o < 0 || o >= d.len() {
        Ok(Seq::empty())
    } else {
        let e = spec_newline_from(d, o);
        if e >= d.len() {
            Err((0, Seq::empty(), 0, 0, 0))
        } else {
            let id = d.subrange(o, e);
            let o1 = e + 1;
            if o1 + w > d.len() {
                Err((1, id, o1, d.len() as int, 0))
            } else {
                let l = spec_le(d, o1, w) as int;
                let o2 = o1 + w;
                if o2 + spec_need(l) > d.len() || o2 + 4 * l > d.len() {
                    Err((2, id, l, spec_need(l), d.len() - o2))
                } else {
                    proof {
                        lemma_newline_from_bounds(d, o);
                    }
                    match spec_parse_weights(d, o2 + 4 * l, w) {
                        Err(x) => Err(x),
                        Ok(rest) => Ok(seq![(id, spec_words(d, o2, l as nat))] + rest),
                    }
                }
            }
        }
    }
}

/// The first newline from `o` lies between `o` and the end, and no byte
/// before it is a newline.
pub proof fn lemma_newline_from_bounds(d: Seq<u8>, o: int)
    requires
        0 <= o,
    ensures
        o <= spec_newline_from(d, o) <= d.len() || (o > d.len() && spec_newline_from(d, o) == d.len()),
        spec_newline_from(d, o) < d.len() ==> d[spec_newline_from(d, o)] == 10,
        forall|k: int| o <= k < spec_newline_from(d, o) ==> d[k] != 10,
    decreases d.len() - o,
{
    if o < d.len() && d[o] != 10 {
        lemma_newline_from_bounds(d, o + 1);
    }
}

/// Little-endian value of `w` bytes of `data` from `p`; `w` is the size of
/// a `usize`, so the value fits one.
fn read_le_usize(data: &[u8], p: usize, w: usize) -> (r: usize)
    requires
        p + w <= data@.len(),
        w == vstd::layout::size_of::<usize>(),
    ensures
        r == spec_le(data@, p as int, w as nat),
{
    proof {
        vstd::layout::unsigned_int_max_values();
        vstd::arithmetic::power::lemma_pow0(256);
    }
    let mut v: usize = 0;
    let mut i: usize = w;
    while i > 0
        invariant
            i <= w,
            p + w <= data@.len(),
            data.len() == data@.len(),
            (usize::MAX as nat) == pow(256, w as nat) - 1,
            v == spec_le(data@, p + i, (w - i) as nat),
            v < pow(256, (w - i) as nat),
        decreases i,
    {
        proof {
            let n = (w - i) as nat;
            lemma_pow_increases(256, n + 1, w as nat);
            assert(pow(256, n + 1) == 256 * pow(256, n)) by {
                reveal(pow);
            }
        }
        let b = data[p + i - 1];
        v = v * 256 + b as usize;
        i = i - 1;
    }
    v
}

/// Little-endian 32-bit word of `data` at `p`.
fn read_le_u32(data: &[u8], p: usize) -> (r: u32)
    requires
        p + 4 <= data@.len(),
    ensures
        r == spec_le(data@, p as int, 4),
{
    let b0 = data[p] as u32;
    let b1 = data[p + 1] as u32;
    let b2 = data[p + 2] as u32;
    let b3 = data[p + 3] as u32;
    reveal_with_fuel(spec_le, 5);
    assert(spec_le(data@, p as int, 4) == b0 + 256 * (b1 + 256 * (b2 + 256 * (b3 + 256 * spec_le(
        data@,
        p + 4,
        0,
    )))));
    b0 + 256 * (b1 + 256 * (b2 + 256 * b3))
}

/// Reads a weight dump (see [`spec_parse_weights`]): each weight's name
/// and its values as 32-bit words, in the order of the dump, lengths being
/// `usize`s; the first failure otherwise.
pub fn parse_model_weights_bin(bytes: &[u8]) -> (r: Result<Vec<(Vec<u8>, Vec<u32>)>, WeightsError>)
    ensures
        match spec_parse_weights(bytes@, 0, vstd::layout::size_of::<usize>()) {
            Ok(ws) => r matches Ok(v) && v@.len() == ws.len() && forall|k: int|
                0 <= k < ws.len() ==> (#[trigger] v@[k]).0@ == ws[k].0 && v@[k].1@ == ws[k].1,
            Err(e) => r matches Err(x) && spec_weights_error(x) == e,
        },
{
    let w = core::mem::size_of::<usize>();
    let ghost d = bytes@;
    let ghost wn = w as nat;
    let len = bytes.len();
    let mut out: Vec<(Vec<u8>, Vec<u32>)> = Vec::new();
    let ghost mut done: Seq<(Seq<u8>, Seq<u32>)> = Seq::empty();
    let mut offset: usize = 0;
    while offset < len
        invariant
            d == bytes@,
            len == d.len(),
            w == vstd::layout::size_of::<usize>(),
            wn == w,
            offset <= len,
            out@.len() == done.len(),
            forall|k: int| 0 <= k < done.len() ==> (#[trigger] out@[k]).0@ == done[k].0 && out@[k].1@ == done[k].1,
            spec_parse_weights(d, 0, wn) == match spec_parse_weights(d, offset as int, wn) {
                Err(x) => Err(x),
                Ok(rest) => Ok::<Seq<(Seq<u8>, Seq<u32>)>, (int, Seq<u8>, int, int, int)>(done + rest),
            },
        decreases len - offset,
    {
        proof {
            lemma_newline_from_bounds(d, offset as int);
        }
        let start = offset;
        let mut id: Vec<u8> = Vec::new();
        let mut e: usize = offset;
        while e < len && bytes[e] != 10u8
            invariant
                d == bytes@,
                len == d.len(),
                start <= e <= len,
                spec_newline_from(d, start as int) == spec_newline_from(d, e as int),
                id@ == d.subrange(start as int, e as int),
            decreases len - e,
        {
            id.push(bytes[e]);
            e = e + 1;
        }
        assert(spec_newline_from(d, e as int) == e);
        if e >= len {
            return Err(WeightsError::EofInId);
        }
        let o1 = e + 1;
        if w > len - o1 {
            return Err(WeightsError::EofInLength { id, offset: o1, total: len });
        }
        let l = read_le_usize(bytes, o1, w);
        let o2 = o1 + w;
        let need = if l > usize::MAX / 4 { usize::MAX } else { l * 4 };
        if need > len - o2 {
            return Err(WeightsError::EofInValues { id, len: l, need, have: len - o2 });
        }
        let mut values: Vec<u32> = Vec::new();
        let mut i: usize = 0;
        while i < l
            invariant
                d == bytes@,
                len == d.len(),
                o2 + 4 * l <= len,
                i <= l,
                values@ == spec_words(d, o2 as int, l as nat).take(i as int),
            decreases l - i,
        {
            let v = read_le_u32(bytes, o2 + 4 * i);
            values.push(v);
            i = i + 1;
        }
        assert(values@ =~= spec_words(d, o2 as int, l as nat));
        let ghost item = (id@, values@);
        proof {
            match spec_parse_weights(d, o2 + 4 * l, wn) {
                Err(x) => {},
                Ok(rest) => {
                    assert(done + (seq![item] + rest) =~= done.push(item) + rest);
                },
            }
            done = done.push(item);
        }
        out.push((id, values));
        offset = o2 + 4 * l;
    }
    assert(done + Seq::<(Seq<u8>, Seq<u32>)>::empty() =~= done);
    Ok(out)
}

} // verus!

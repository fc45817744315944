//! shardKP: every K+P feature expanded to seven connections (one common,
//! six hashed to shards), each an input of its own.

use vstd::prelude::*;
use crate::inputs::kp::{KP_DIMENSIONS, KP_MAX_ACTIVE, ShogiKp, spec_kp_features};
use crate::shogi::packed_sfen::{PackedSfenValue, spec_decode};

verus! {

/// Common first-layer width.
pub const SHARDKP_COMMON_DIMENSIONS: usize = 256;

/// Width of one shard.
pub const SHARDKP_SHARD_DIMENSIONS: usize = 128;

/// Number of shards.
pub const SHARDKP_SHARD_COUNT: usize = 64;

/// Shard connections per feature.
pub const SHARDKP_FANOUT: usize = 6;

/// Connections per feature: the common one and the shard ones.
pub const SHARDKP_CONNECTIONS_PER_FEATURE: usize = 7;

/// First-layer width: 256 + 128 x 64.
pub const SHARDKP_TOTAL_L1: usize = 8448;

/// Inputs: 1710 x 7.
pub const SHARDKP_DIMENSIONS: usize = 11970;

/// Most features active at once: 40 x 7.
pub const SHARDKP_MAX_ACTIVE: usize = 280;

/// Feature hash ("SKP1").
pub const FEATURE_HASH_SHARDKP: u32 = 0x534B5031;

/// shardKP feature set.
#[derive(Clone, Copy, Debug, Default)]
pub struct ShogiShardKp;

pub open spec fn spec_connection_index(kp_feature: int, connection: int) -> int {
    kp_feature * 7 + connection
}

/// Input of connection `connection` of K+P feature `kp_feature`.
pub fn connection_index(kp_feature: usize, connection: usize) -> (r: usize)
    requires
        kp_feature < KP_DIMENSIONS,
        connection < SHARDKP_CONNECTIONS_PER_FEATURE,
    ensures
        r == spec_connection_index(kp_feature as int, connection as int),
        r < SHARDKP_DIMENSIONS,
{
    kp_feature * SHARDKP_CONNECTIONS_PER_FEATURE + connection
}

/// The mixing hash of (`kp_feature`, `connection`).
pub open spec fn spec_shard_mix(kp_feature: u64, connection: u64) -> u64 {
    let x0 = vstd::wrapping::u64_specs::wrapping_mul(kp_feature, 0x9E37_79B9_7F4A_7C15u64);
    let x1 = x0 ^ vstd::wrapping::u64_specs::wrapping_mul(connection, 0xBF58_476D_1CE4_E5B9u64);
    let x2 = x1 ^ (x1 >> 30u64);
    let x3 = vstd::wrapping::u64_specs::wrapping_mul(x2, 0xBF58_476D_1CE4_E5B9u64);
    let x4 = x3 ^ (x3 >> 27u64);
    let x5 = vstd::wrapping::u64_specs::wrapping_mul(x4, 0x94D0_49BB_1331_11EBu64);
    x5 ^ (x5 >> 31u64)
}

/// Shard of connection `connection` (1..7) of K+P feature `kp_feature`: the
/// low six bits of the mixing hash; none for the common connection and for
/// connections beyond the fan-out.
pub open spec fn spec_shard_for_feature(kp_feature: usize, connection: usize) -> Option<usize> {
    if connection == 0 || connection >= SHARDKP_CONNECTIONS_PER_FEATURE {
        None
    } else {
        Some(((spec_shard_mix(kp_feature as u64, connection as u64) as usize) & 63usize) as usize)
    }
}

pub fn shard_for_feature(kp_feature: usize, connection: usize) -> (r: Option<usize>)
    ensures
        r == spec_shard_for_feature(kp_feature, connection),
        r matches Some(s) ==> s < SHARDKP_SHARD_COUNT,
{
    if connection == 0 || connection >= SHARDKP_CONNECTIONS_PER_FEATURE {
        return None;
    }
    let mut x: u64 = (kp_feature as u64).wrapping_mul(0x9E37_79B9_7F4A_7C15u64);
    x = x ^ (connection as u64).wrapping_mul(0xBF58_476D_1CE4_E5B9u64);
    x = x ^ (x >> 30u64);
    x = x.wrapping_mul(0xBF58_476D_1CE4_E5B9u64);
    x = x ^ (x >> 27u64);
    x = x.wrapping_mul(0x94D0_49BB_1331_11EBu64);
    x = x ^ (x >> 31u64);
    let s: usize = (x as usize) & 63usize;
    assert(s < 64) by (bit_vector)
        requires
            s == (x as usize) & 63usize,
    ;
    Some(s)
}

/// Connections of a feature half: the seven inputs of each present index.
pub open spec fn spec_expand(p: (Option<usize>, Option<usize>), connection: int) -> (Option<usize>, Option<usize>) {
    (
        match p.0 {
            Some(i) => Some(spec_connection_index(i as int, connection) as usize),
            None => None,
        },
        match p.1 {
            Some(i) => Some(spec_connection_index(i as int, connection) as usize),
            None => None,
        },
    )
}

/// shardKP features of a position with K+P features `kp`: for each K+P
/// feature, its seven connections in order.
pub open spec fn spec_shardkp_split(kp: Seq<(usize, usize)>) -> Seq<(Option<usize>, Option<usize>)> {
    Seq::new(kp.len() * 7, |i: int| spec_expand((Some(kp[i / 7].0), Some(kp[i / 7].1)), i % 7))
}

impl ShogiShardKp {
    pub fn num_inputs(&self) -> (r: usize)
        ensures
            r == SHARDKP_DIMENSIONS,
    {
        SHARDKP_DIMENSIONS
    }

    pub fn max_active(&self) -> (r: usize)
        ensures
            r == SHARDKP_MAX_ACTIVE,
    {
        SHARDKP_MAX_ACTIVE
    }

    /// Features of a training record, halves as options.
    pub fn map_features_split(&self, pos: &PackedSfenValue) -> (r: Vec<(Option<usize>, Option<usize>)>)
        ensures
            r@ == spec_shardkp_split(spec_kp_features(spec_decode(pos.data@))),
    {
        let kp = ShogiKp.map_features(pos);
        let mut out: Vec<(Option<usize>, Option<usize>)> = Vec::new();
        let mut i: usize = 0;
        while i < kp.len()
            invariant
                i <= kp@.len(),
                forall|j: int| 0 <= j < kp@.len() ==> (#[trigger] kp@[j]).0 < KP_DIMENSIONS && kp@[j].1 < KP_DIMENSIONS,
                out@.len() == i * 7,
                forall|j: int|
                    0 <= j < i * 7 ==> #[trigger] out@[j] == spec_expand((Some(kp@[j / 7].0), Some(kp@[j / 7].1)), j % 7),
            decreases kp.len() - i,
        {
            let (s, n) = kp[i];
            let mut c: usize = 0;
            while c < SHARDKP_CONNECTIONS_PER_FEATURE
                invariant
                    c <= 7,
                    i < kp@.len(),
                    kp@[i as int] == (s, n),
                    s < KP_DIMENSIONS,
                    n < KP_DIMENSIONS,
                    out@.len() == i * 7 + c,
                    forall|j: int|
                        0 <= j < i * 7 + c ==> #[trigger] out@[j] == spec_expand(
                            (Some(kp@[j / 7].0), Some(kp@[j / 7].1)),
                            j % 7,
                        ),
                decreases 7 - c,
            {
                out.push((Some(connection_index(s, c)), Some(connection_index(n, c))));
                assert(((i * 7 + c) as int) / 7 == i && ((i * 7 + c) as int) % 7 == c) by (nonlinear_arith)
                    requires
                        c < 7,
                ;
                c = c + 1;
            }
            i = i + 1;
        }
        assert(out@ =~= spec_shardkp_split(kp@));
        out
    }

    /// Features of a training record (every half is present).
    pub fn map_features(&self, pos: &PackedSfenValue) -> (r: Vec<(usize, usize)>)
        ensures
            r@.len() == spec_shardkp_split(spec_kp_features(spec_decode(pos.data@))).len(),
            forall|i: int|
                0 <= i < r@.len() ==> spec_shardkp_split(spec_kp_features(spec_decode(pos.data@)))[i] == (
                Some(#[trigger] r@[i].0),
                Some(r@[i].1),
            ),
    {
        let split = self.map_features_split(pos);
        let mut out: Vec<(usize, usize)> = Vec::new();
        let mut i: usize = 0;
        while i < split.len()
            invariant
                i <= split@.len(),
                forall|j: int| 0 <= j < split@.len() ==> (#[trigger] split@[j]).0 is Some && split@[j].1 is Some,
                out@.len() == i,
                forall|j: int| 0 <= j < i ==> split@[j] == (Some(#[trigger] out@[j].0), Some(out@[j].1)),
            decreases split.len() - i,
        {
            match split[i] {
                (Some(s), Some(n)) => {
                    out.push((s, n));
                },
                _ => {},
            }
            i = i + 1;
        }
        out
    }

    pub fn shorthand(&self) -> (r: String)
        ensures
            r@ == "shogi-shardkp-c256-s128x64-f6"@,
    {
        "shogi-shardkp-c256-s128x64-f6".to_owned()
    }

    pub fn description(&self) -> (r: String)
        ensures
            r@ == "Shogi shardKP prototype: K+P expanded to common 256 + shard 128x64 fanout 6"@,
    {
        "Shogi shardKP prototype: K+P expanded to common 256 + shard 128x64 fanout 6".to_owned()
    }
}

} // verus!

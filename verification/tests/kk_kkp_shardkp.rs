use bulletou::inputs::kk::{KK_INPUTS, KK_MAX_ACTIVE, ShogiKk};
use bulletou::inputs::kkp::{KKP_FE_END, KKP_INPUTS, KKP_MAX_ACTIVE, ShogiKkp, map_kkp_features};
use bulletou::inputs::kp::KP_DIMENSIONS;
use bulletou::inputs::shardkp::{
    SHARDKP_DIMENSIONS, SHARDKP_FANOUT, SHARDKP_SHARD_COUNT, SHARDKP_TOTAL_L1, ShogiShardKp, connection_index,
    shard_for_feature,
};
use bulletou::shogi::board::ShogiBoard;
use bulletou::shogi::packed_sfen::PackedSfenValue;
use bulletou::shogi::types::{Color, Piece, PieceType, Square};

#[test]
fn kk_dims_are_sane() {
    assert_eq!(KK_INPUTS, 6561);
    assert_eq!(KK_MAX_ACTIVE, 1);
}

#[test]
fn map_features_returns_one_pair() {
    let pos = PackedSfenValue::default();
    let mut count = 0;
    for (stm, ntm) in ShogiKk.map_features(&pos) {
        assert!(stm < KK_INPUTS, "stm out of range: {stm}");
        assert!(ntm < KK_INPUTS, "ntm out of range: {ntm}");
        count += 1;
    }
    assert_eq!(count, 1, "KK should emit exactly one feature per position");
}

#[test]
fn kkp_dims_are_sane() {
    assert_eq!(KKP_FE_END, 1548);
    assert_eq!(KKP_INPUTS, 81 * 81 * 1548);
    assert_eq!(KKP_INPUTS, 10_156_428);
    assert_eq!(KKP_MAX_ACTIVE, 38);
}

#[test]
fn shogi_kkp_map_features_does_not_panic_on_default_psv() {
    let pos = PackedSfenValue::default();
    for (stm, nstm) in ShogiKkp.map_features(&pos) {
        assert!(stm < KKP_INPUTS, "stm idx out of range: {stm}");
        assert!(nstm < KKP_INPUTS, "nstm idx out of range: {nstm}");
    }
}

#[test]
fn kkp_one_pawn_per_side_gives_two_features() {
    let mut board = ShogiBoard {
        side_to_move: Color::Black,
        black_king_sq: Square::new(4, 8),
        white_king_sq: Square::new(4, 0),
        ..Default::default()
    };
    board.board[board.black_king_sq.index()] = Piece::new(Color::Black, PieceType::King);
    board.board[board.white_king_sq.index()] = Piece::new(Color::White, PieceType::King);
    board.board[Square::new(0, 6).index()] = Piece::new(Color::Black, PieceType::Pawn);
    board.board[Square::new(8, 2).index()] = Piece::new(Color::White, PieceType::Pawn);
    let feats = map_kkp_features(&board);
    assert_eq!(feats.len(), 2);
    for (s, n) in feats {
        assert!(s < KKP_INPUTS && n < KKP_INPUTS);
    }
}

#[test]
fn shogi_shardkp_dims() {
    let input = ShogiShardKp;
    assert_eq!(SHARDKP_TOTAL_L1, 8448);
    assert_eq!(input.num_inputs(), 1710 * 7);
    assert_eq!(input.max_active(), 40 * 7);
}

#[test]
fn connection_indices_are_contiguous() {
    assert_eq!(connection_index(0, 0), 0);
    assert_eq!(connection_index(0, 6), 6);
    assert_eq!(connection_index(1, 0), 7);
    assert_eq!(connection_index(KP_DIMENSIONS - 1, 6), SHARDKP_DIMENSIONS - 1);
}

#[test]
fn shard_hash_is_in_range() {
    for feature in [0, 1, 80, 1547, 1548, 1709] {
        assert_eq!(shard_for_feature(feature, 0), None);
        for connection in 1..=SHARDKP_FANOUT {
            let shard = shard_for_feature(feature, connection).unwrap();
            assert!(shard < SHARDKP_SHARD_COUNT);
        }
    }
}

#[test]
fn shard_hash_exact_value() {
    // splitmix-style mix of (feature 0, connection 1): the high bits come from
    // the second multiplier only.
    let mut x: u64 = 0u64.wrapping_mul(0x9E37_79B9_7F4A_7C15);
    x ^= 1u64.wrapping_mul(0xBF58_476D_1CE4_E5B9);
    x ^= x >> 30;
    x = x.wrapping_mul(0xBF58_476D_1CE4_E5B9);
    x ^= x >> 27;
    x = x.wrapping_mul(0x94D0_49BB_1331_11EB);
    x ^= x >> 31;
    assert_eq!(shard_for_feature(0, 1), Some((x as usize) & 63));
    assert_eq!(shard_for_feature(0, 7), None);
}

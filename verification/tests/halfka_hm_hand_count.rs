use bulletou::inputs::halfka::{HALFKA_HM_DIMENSIONS, MAX_ACTIVE_FEATURES};
use bulletou::inputs::halfka_hm_hand_count::{HAND_COUNT_DIMS, ShogiHalfKaHmHandCount};
use bulletou::shogi::packed_sfen::PackedSfenValue;
use bulletou::shogi::types::{PieceType, hand_piece_type};

#[test]
fn dimensions_match_halfka_hm() {
    let input = ShogiHalfKaHmHandCount;
    assert_eq!(input.num_inputs(), HALFKA_HM_DIMENSIONS);
    assert_eq!(input.max_active(), MAX_ACTIVE_FEATURES);
    assert_eq!(input.hand_count_dims(), Some(14));
}

#[test]
fn hand_piece_types_len_matches_half() {
    let pts: Vec<PieceType> = (0..7).map(hand_piece_type).collect();
    assert_eq!(pts.len(), HAND_COUNT_DIMS / 2);
}

#[test]
fn hand_counts_follow_the_decoded_hands() {
    let input = ShogiHalfKaHmHandCount;
    let pos = PackedSfenValue::default();
    let board = pos.decode();
    let stm = board.side_to_move;
    let out = input.hand_counts(&pos);
    for i in 0..7 {
        assert_eq!(out[i], board.hand(stm).count(hand_piece_type(i)));
        assert_eq!(out[7 + i], board.hand(stm.opponent()).count(hand_piece_type(i)));
    }
}

use bulletou::inputs::halfka::mirror_file_idx;
use bulletou::inputs::halfka_hm1::{
    FEATURE_HASH_HALFKA_HM1, HALFKA_HM1_DIMENSIONS, NUM_KING_BUCKETS, PIECE_INPUTS, ShogiHalfKaHm1,
    halfka_hm1_index, map_halfka_hm1_features,
};
use bulletou::shogi::board::ShogiBoard;
use bulletou::shogi::bona_piece::{E_KING, FE_HAND_END};
use bulletou::shogi::types::{Color, Piece, PieceType, Square};

fn kings_and_pawns(black_king: Square, white_king: Square) -> ShogiBoard {
    let mut board =
        ShogiBoard { side_to_move: Color::Black, black_king_sq: black_king, white_king_sq: white_king, ..Default::default() };
    board.board[board.black_king_sq.index()] = Piece::new(Color::Black, PieceType::King);
    board.board[board.white_king_sq.index()] = Piece::new(Color::White, PieceType::King);
    for file in 0..9 {
        board.board[Square::new(file, 6).index()] = Piece::new(Color::Black, PieceType::Pawn);
        board.board[Square::new(file, 2).index()] = Piece::new(Color::White, PieceType::Pawn);
    }
    board
}

#[test]
fn shogi_halfka_hm1_test_dimensions() {
    assert_eq!(ShogiHalfKaHm1.num_inputs(), 76_950);
    assert_eq!(ShogiHalfKaHm1.max_active(), 40);
    assert_eq!(PIECE_INPUTS, 1710);
    assert_eq!(NUM_KING_BUCKETS, 45);
}

#[test]
fn shogi_halfka_hm1_test_feature_hash_matches_yaneuraou() {
    assert_eq!(FEATURE_HASH_HALFKA_HM1, 0x7f134cb8_u32);
}

#[test]
fn shogi_halfka_hm1_test_index_no_mirror_below_file_5() {
    for file in 0u8..=4 {
        let king = (file as usize) * 9 + 0;
        let idx = halfka_hm1_index(king, 100);
        assert_eq!(idx, king * PIECE_INPUTS + 100);
        assert!(idx < HALFKA_HM1_DIMENSIONS);
    }
}

#[test]
fn shogi_halfka_hm1_test_index_mirror_at_or_above_file_5() {
    let king = 5 * 9 + 2;
    let bp_hand = 10usize;
    let idx = halfka_hm1_index(king, bp_hand);
    assert_eq!(idx, (3 * 9 + 2) * PIECE_INPUTS + bp_hand);

    let king = 8 * 9 + 5;
    let idx = halfka_hm1_index(king, bp_hand);
    assert_eq!(idx, (0 * 9 + 5) * PIECE_INPUTS + bp_hand);
}

#[test]
fn test_index_mirror_board_piece_bp() {
    let king = 6 * 9 + 4;
    let piece_idx = 1usize;
    let sq_idx = 7 * 9 + 3;
    let bp = FE_HAND_END + piece_idx * 81 + sq_idx;
    let idx = halfka_hm1_index(king, bp);

    let expected_king = mirror_file_idx(king);
    let expected_bp = FE_HAND_END + piece_idx * 81 + mirror_file_idx(sq_idx);
    assert_eq!(idx, expected_king * PIECE_INPUTS + expected_bp);
    assert!(idx < HALFKA_HM1_DIMENSIONS);
}

#[test]
fn test_index_no_collapse_for_enemy_king() {
    let king = 0 * 9 + 4;
    let bp_e_king = (E_KING as usize) + 40;
    let idx = halfka_hm1_index(king, bp_e_king);
    assert_eq!(idx, king * PIECE_INPUTS + bp_e_king);
    assert!(idx < HALFKA_HM1_DIMENSIONS);
}

#[test]
fn shogi_halfka_hm1_test_map_features_initial_position_count() {
    let board = kings_and_pawns(Square::new(4, 8), Square::new(4, 0));
    let count = map_halfka_hm1_features(&board).len();
    // 18 pawns and 2 kings.
    assert_eq!(count, 20);
}

#[test]
fn shogi_halfka_hm1_test_map_features_indices_in_range() {
    for king_file in 0u8..9 {
        let board = kings_and_pawns(Square::new(king_file, 8), Square::new(8 - king_file, 0));
        let max_valid = HALFKA_HM1_DIMENSIONS - 1;
        for (stm, nstm) in map_halfka_hm1_features(&board) {
            assert!(stm <= max_valid, "STM index {} OOB (king_file={}, max {})", stm, king_file, max_valid);
            assert!(nstm <= max_valid, "NSTM index {} OOB (king_file={}, max {})", nstm, king_file, max_valid);
        }
    }
}

fn one_pawn(king_file: u8, pawn_file: u8) -> ShogiBoard {
    let mut board = ShogiBoard {
        side_to_move: Color::Black,
        black_king_sq: Square::new(king_file, 8),
        white_king_sq: Square::new(king_file, 0),
        ..Default::default()
    };
    board.board[board.black_king_sq.index()] = Piece::new(Color::Black, PieceType::King);
    board.board[board.white_king_sq.index()] = Piece::new(Color::White, PieceType::King);
    board.board[Square::new(pawn_file, 6).index()] = Piece::new(Color::Black, PieceType::Pawn);
    board
}

#[test]
fn shogi_halfka_hm1_test_mirror_symmetry() {
    let left = one_pawn(2, 1);
    let right = one_pawn(6, 7);
    let mut left_set = map_halfka_hm1_features(&left);
    let mut right_set = map_halfka_hm1_features(&right);
    left_set.sort();
    right_set.sort();
    assert_eq!(left_set, right_set);
}

#[test]
fn hm1_shorthand_and_description_are_set() {
    assert!(!ShogiHalfKaHm1.shorthand().is_empty());
    assert!(!ShogiHalfKaHm1.description().is_empty());
}

use bulletou::inputs::halfka::mirror_file_idx;
use bulletou::inputs::halfkpvm::{
    FE_END, FEATURE_HASH_HALFKPVM, HALFKPVM_DIMENSIONS, ShogiHalfKPvm, halfkpvm_index, map_halfkpvm_features,
};
use bulletou::shogi::board::ShogiBoard;
use bulletou::shogi::bona_piece::FE_HAND_END;
use bulletou::shogi::types::{Color, Piece, PieceType, Square};

fn kings(black_king: Square, white_king: Square) -> ShogiBoard {
    let mut board =
        ShogiBoard { side_to_move: Color::Black, black_king_sq: black_king, white_king_sq: white_king, ..Default::default() };
    board.board[board.black_king_sq.index()] = Piece::new(Color::Black, PieceType::King);
    board.board[board.white_king_sq.index()] = Piece::new(Color::White, PieceType::King);
    board
}

fn with_pawns(mut board: ShogiBoard) -> ShogiBoard {
    for file in 0..9 {
        board.board[Square::new(file, 6).index()] = Piece::new(Color::Black, PieceType::Pawn);
        board.board[Square::new(file, 2).index()] = Piece::new(Color::White, PieceType::Pawn);
    }
    board
}

#[test]
fn shogi_halfkpvm_test_dimensions() {
    let input = ShogiHalfKPvm;
    assert_eq!(input.num_inputs(), 69_660);
    assert_eq!(input.max_active(), 38);
}

#[test]
fn shogi_halfkpvm_test_shorthand() {
    let input = ShogiHalfKPvm;
    assert_eq!(input.shorthand(), "shogi-69660x45");
}

#[test]
fn shogi_halfkpvm_test_feature_hash_matches_yaneuraou() {
    assert_eq!(FEATURE_HASH_HALFKPVM, 0x0B6B1D9A_u32);
}

#[test]
fn test_mirror_file_idx_symmetric() {
    for f in 0u8..9 {
        for r in 0u8..9 {
            let sq = (f as usize) * 9 + (r as usize);
            let mirrored = mirror_file_idx(sq);
            assert_eq!(mirrored / 9, (8 - f) as usize);
            assert_eq!(mirrored % 9, r as usize);
            assert_eq!(mirror_file_idx(mirrored), sq);
        }
    }
}

#[test]
fn test_halfkpvm_index_no_mirror_below_file_5() {
    for file in 0u8..=4 {
        let king = (file as usize) * 9 + 0;
        let idx = halfkpvm_index(king, 100);
        assert_eq!(idx, king * FE_END + 100);
        assert!(idx < HALFKPVM_DIMENSIONS);
    }
}

#[test]
fn test_halfkpvm_index_mirror_at_or_above_file_5() {
    let king = 5 * 9 + 2;
    let bp_hand = 10usize;
    let idx = halfkpvm_index(king, bp_hand);
    let expected_king = 3 * 9 + 2;
    assert_eq!(idx, expected_king * FE_END + bp_hand);

    let king = 8 * 9 + 5;
    let idx = halfkpvm_index(king, bp_hand);
    let expected_king = 0 * 9 + 5;
    assert_eq!(idx, expected_king * FE_END + bp_hand);
}

#[test]
fn test_halfkpvm_index_mirror_board_piece_bp() {
    let king = 6 * 9 + 4;
    let piece_idx = 1usize;
    let sq_idx = 7 * 9 + 3;
    let bp = FE_HAND_END + piece_idx * 81 + sq_idx;
    let idx = halfkpvm_index(king, bp);
    let expected_king = mirror_file_idx(king);
    let expected_bp = FE_HAND_END + piece_idx * 81 + mirror_file_idx(sq_idx);
    assert_eq!(idx, expected_king * FE_END + expected_bp);
    assert!(idx < HALFKPVM_DIMENSIONS);
}

#[test]
fn test_map_features_pawn_count() {
    let board = with_pawns(kings(Square::new(4, 8), Square::new(4, 0)));
    assert_eq!(map_halfkpvm_features(&board).len(), 18);
}

#[test]
fn shogi_halfkpvm_test_map_features_indices_in_range() {
    for king_file in 0u8..9 {
        let board = with_pawns(kings(Square::new(king_file, 8), Square::new(8 - king_file, 0)));
        let max_valid = HALFKPVM_DIMENSIONS - 1;
        for (stm, nstm) in map_halfkpvm_features(&board) {
            assert!(stm <= max_valid, "STM index {} OOB (max {})", stm, max_valid);
            assert!(nstm <= max_valid, "NSTM index {} OOB (max {})", nstm, max_valid);
        }
    }
}

#[test]
fn test_map_features_no_kings_in_features() {
    let board = kings(Square::new(4, 8), Square::new(4, 0));
    assert_eq!(map_halfkpvm_features(&board).len(), 0);
}

#[test]
fn test_mirror_consistency_with_halfkp() {
    let mut left = kings(Square::new(2, 8), Square::new(2, 0));
    left.board[Square::new(1, 6).index()] = Piece::new(Color::Black, PieceType::Pawn);
    let mut right = kings(Square::new(6, 8), Square::new(6, 0));
    right.board[Square::new(7, 6).index()] = Piece::new(Color::Black, PieceType::Pawn);

    let mut left_set = map_halfkpvm_features(&left);
    let mut right_set = map_halfkpvm_features(&right);
    left_set.sort();
    right_set.sort();
    assert_eq!(left_set, right_set);
}

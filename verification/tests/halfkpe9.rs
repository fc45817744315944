use bulletou::inputs::halfkpe9::{
    FE_END, FEATURE_HASH_HALFKPE9, HALFKPE9_DIMENSIONS, NUM_KING_SQ, ShogiHalfKpe9, compute_effect_counts, make_index,
    map_halfkpe9_features,
};
use bulletou::shogi::board::ShogiBoard;
use bulletou::shogi::types::{Color, Piece, PieceType, Square};

#[test]
fn shogi_halfkpe9_dims() {
    let f = ShogiHalfKpe9;
    assert_eq!(f.num_inputs(), 1_128_492);
    assert_eq!(f.max_active(), 38);
    assert_eq!(HALFKPE9_DIMENSIONS, 81 * 1548 * 9);
}

#[test]
fn shogi_halfkpe9_feature_hash_matches_yaneuraou() {
    assert_eq!(FEATURE_HASH_HALFKPE9, 0x5D69D5B8u32);
}

#[test]
fn make_index_layout() {
    let kp_like = make_index(0, 0, 0, 0);
    assert_eq!(kp_like, 0);
    let kp_like_max = make_index(80, 1547, 0, 0);
    assert_eq!(kp_like_max, 80 * 1548 + 1547);
    let max_bucket_start = make_index(0, 0, 2, 2);
    assert_eq!(max_bucket_start, 8 * 81 * 1548);
    let absolute_max = make_index(80, 1547, 2, 2);
    assert_eq!(absolute_max, HALFKPE9_DIMENSIONS - 1);
}

#[test]
fn make_index_effect_bucket_order() {
    let unit = NUM_KING_SQ * FE_END;
    assert_eq!(make_index(0, 0, 0, 1), 1 * unit);
    assert_eq!(make_index(0, 0, 1, 0), 3 * unit);
    assert_eq!(make_index(0, 0, 1, 1), 4 * unit);
    assert_eq!(make_index(0, 0, 2, 0), 6 * unit);
}

fn make_test_board_with_pawns() -> ShogiBoard {
    let mut board = ShogiBoard {
        side_to_move: Color::Black,
        black_king_sq: Square::new(4, 8),
        white_king_sq: Square::new(4, 0),
        ..Default::default()
    };
    board.board[board.black_king_sq.index()] = Piece::new(Color::Black, PieceType::King);
    board.board[board.white_king_sq.index()] = Piece::new(Color::White, PieceType::King);
    for file in 0..9 {
        board.board[Square::new(file, 6).index()] = Piece::new(Color::Black, PieceType::Pawn);
        board.board[Square::new(file, 2).index()] = Piece::new(Color::White, PieceType::Pawn);
    }
    board
}

#[test]
fn map_features_emits_38_pieces_at_most() {
    let board = make_test_board_with_pawns();
    let count = map_halfkpe9_features(&board).len();
    assert_eq!(count, 18);
}

#[test]
fn shogi_halfkpe9_map_features_all_in_range() {
    let board = make_test_board_with_pawns();
    let max = HALFKPE9_DIMENSIONS - 1;
    for (stm_idx, nstm_idx) in map_halfkpe9_features(&board) {
        assert!(stm_idx <= max, "stm {stm_idx} > max {max}");
        assert!(nstm_idx <= max, "nstm {nstm_idx} > max {max}");
    }
}

#[test]
fn map_features_skip_one_king() {
    let mut board = ShogiBoard {
        side_to_move: Color::Black,
        black_king_sq: Square::new(4, 8),
        white_king_sq: Square::none(),
        ..Default::default()
    };
    board.board[board.black_king_sq.index()] = Piece::new(Color::Black, PieceType::King);
    let count = map_halfkpe9_features(&board).len();
    assert_eq!(count, 0);
}

#[test]
fn effect_counts_initial_position_pawn_attacked() {
    let board = make_test_board_with_pawns();
    let counts = compute_effect_counts(&board);
    for file in 0..9 {
        let target = Square::new(file, 5).index();
        assert_eq!(counts[Color::Black.index()][target], 1, "file {file} attacked by black pawn");
    }
    for file in 0..9 {
        let target = Square::new(file, 3).index();
        assert_eq!(counts[Color::White.index()][target], 1, "file {file} attacked by white pawn");
    }
}

#[test]
fn effect_counts_cap_at_two() {
    // Three black golds all covering 5e: the count saturates at 2.
    let mut board = ShogiBoard {
        side_to_move: Color::Black,
        black_king_sq: Square::new(0, 8),
        white_king_sq: Square::new(8, 0),
        ..Default::default()
    };
    board.board[board.black_king_sq.index()] = Piece::new(Color::Black, PieceType::King);
    board.board[board.white_king_sq.index()] = Piece::new(Color::White, PieceType::King);
    board.board[Square::new(4, 5).index()] = Piece::new(Color::Black, PieceType::Gold);
    board.board[Square::new(3, 5).index()] = Piece::new(Color::Black, PieceType::Gold);
    board.board[Square::new(5, 5).index()] = Piece::new(Color::Black, PieceType::Gold);
    let counts = compute_effect_counts(&board);
    assert_eq!(counts[Color::Black.index()][Square::new(4, 4).index()], 2);
    assert_eq!(counts[Color::White.index()][Square::new(4, 4).index()], 0);
}

#[test]
fn halfkpe9_shorthand_and_description() {
    assert_eq!(ShogiHalfKpe9.shorthand(), "shogi-halfkpe9-1128492x81");
    assert!(!ShogiHalfKpe9.description().is_empty());
}

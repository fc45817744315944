use bulletou::inputs::kp::{
    FEATURE_HASH_KP, KP_DIMENSIONS, KP_P_DIMENSIONS, ShogiKp, k_index_opp, k_index_own, map_kp_features,
};
use bulletou::shogi::board::ShogiBoard;
use bulletou::shogi::types::{Color, Piece, PieceType, Square};

fn kings_board() -> ShogiBoard {
    let mut board = ShogiBoard {
        side_to_move: Color::Black,
        black_king_sq: Square::new(4, 8),
        white_king_sq: Square::new(4, 0),
        ..Default::default()
    };
    board.board[board.black_king_sq.index()] = Piece::new(Color::Black, PieceType::King);
    board.board[board.white_king_sq.index()] = Piece::new(Color::White, PieceType::King);
    board
}

fn kings_and_pawns() -> ShogiBoard {
    let mut board = kings_board();
    for file in 0..9 {
        board.board[Square::new(file, 6).index()] = Piece::new(Color::Black, PieceType::Pawn);
        board.board[Square::new(file, 2).index()] = Piece::new(Color::White, PieceType::Pawn);
    }
    board
}

#[test]
fn shogi_kp_dims() {
    let kp = ShogiKp;
    assert_eq!(kp.num_inputs(), 1710);
    assert_eq!(kp.max_active(), 40);
}

#[test]
fn shogi_kp_k_index_ranges() {
    assert_eq!(k_index_own(0), 1548);
    assert_eq!(k_index_own(80), 1628);
    assert_eq!(k_index_opp(0), 1629);
    assert_eq!(k_index_opp(80), 1709);
}

#[test]
fn shogi_kp_feature_hash_matches_yaneuraou() {
    let k_hash: u32 = 0xD3CEE169;
    let p_hash: u32 = 0x764CFB4B;
    let combined = k_hash ^ (p_hash.wrapping_shl(1)) ^ (p_hash.wrapping_shr(31));
    assert_eq!(combined, FEATURE_HASH_KP);
    assert_eq!(FEATURE_HASH_KP, 0x3F5717FF);
}

#[test]
fn shogi_kp_map_features_two_kings_only() {
    let board = kings_board();
    let emissions = map_kp_features(&board);
    assert_eq!(emissions.len(), 2);
    for (s, n) in &emissions {
        assert!(*s >= KP_P_DIMENSIONS && *s < KP_DIMENSIONS, "stm={s}");
        assert!(*n >= KP_P_DIMENSIONS && *n < KP_DIMENSIONS, "nstm={n}");
    }
}

#[test]
fn shogi_kp_map_features_two_kings_plus_pawns() {
    let board = kings_and_pawns();
    let mut k_count = 0;
    let mut p_count = 0;
    for (s, _n) in map_kp_features(&board) {
        if s >= KP_P_DIMENSIONS {
            k_count += 1;
        } else {
            p_count += 1;
        }
    }
    assert_eq!(k_count, 2);
    assert_eq!(p_count, 18);
}

#[test]
fn shogi_kp_map_features_all_in_range() {
    let board = kings_and_pawns();
    let max = KP_DIMENSIONS - 1;
    for (s, n) in map_kp_features(&board) {
        assert!(s <= max, "stm idx {s} exceeds {max}");
        assert!(n <= max, "nstm idx {n} exceeds {max}");
    }
}

#[test]
fn shogi_kp_map_features_skip_one_king_position() {
    let mut board = ShogiBoard {
        side_to_move: Color::Black,
        black_king_sq: Square::new(4, 8),
        white_king_sq: Square::none(),
        ..Default::default()
    };
    board.board[board.black_king_sq.index()] = Piece::new(Color::Black, PieceType::King);
    assert_eq!(map_kp_features(&board).len(), 0);
}

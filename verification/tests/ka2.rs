use bulletou::inputs::ka2::{
    FEATURE_HASH_KA2, KA2_A2_DIMENSIONS, KA2_DIMENSIONS, ShogiKa2, k_index_opp, k_index_own, map_ka2_features,
};
use bulletou::inputs::piece_features::a2_index;
use bulletou::shogi::board::ShogiBoard;
use bulletou::shogi::bona_piece::{E_KING, F_KING};
use bulletou::shogi::types::{Color, Piece, PieceType, Square};

fn kings_board() -> ShogiBoard {
    let mut board = ShogiBoard {
        side_to_move: Color::Black,
        black_king_sq: Square::new(4, 8),
        white_king_sq: Square::new(4, 0),
        ..Default::default()
    };
    board.board[board.black_king_sq.index()] = Piece::new(Color::Black, PieceType::King);
    board.board[board.white_king_sq.index()] = Piece::new(Color::White, PieceType::King);
    board
}

#[test]
fn shogi_ka2_dims() {
    let ka2 = ShogiKa2;
    assert_eq!(ka2.num_inputs(), 1791);
    assert_eq!(ka2.max_active(), 42);
}

#[test]
fn shogi_ka2_k_index_ranges() {
    assert_eq!(k_index_own(0), 1629);
    assert_eq!(k_index_own(80), 1709);
    assert_eq!(k_index_opp(0), 1710);
    assert_eq!(k_index_opp(80), 1790);
}

#[test]
fn a2_collapse_enemy_to_friend_plane() {
    for sq in 0u16..81 {
        let friend_bp = (F_KING + sq) as u16;
        let enemy_bp = (E_KING + sq) as u16;
        assert_eq!(a2_index(friend_bp), a2_index(enemy_bp));
        assert_eq!(a2_index(friend_bp), (F_KING as usize) + sq as usize);
    }
}

#[test]
fn a2_passthrough_below_e_king() {
    for v in [0u16, 100, 1000, 1547, 1548, 1628] {
        assert_eq!(a2_index(v), v as usize);
    }
}

#[test]
fn shogi_ka2_feature_hash_matches_yaneuraou() {
    let k_hash: u32 = 0xD3CEE169;
    let a2_hash: u32 = 0xA20DCB9B;
    let combined = k_hash ^ (a2_hash.wrapping_shl(1)) ^ (a2_hash.wrapping_shr(31));
    assert_eq!(combined, FEATURE_HASH_KA2);
    assert_eq!(FEATURE_HASH_KA2, 0x97D5765E);
}

#[test]
fn shogi_ka2_map_features_two_kings_only() {
    let board = kings_board();
    let emissions = map_ka2_features(&board);
    assert_eq!(emissions.len(), 4);
    let max = KA2_DIMENSIONS - 1;
    for (s, n) in &emissions {
        assert!(*s <= max, "stm={s}");
        assert!(*n <= max, "nstm={n}");
    }
    let k_count = emissions.iter().filter(|(s, _)| *s >= KA2_A2_DIMENSIONS).count();
    let a2_count = emissions.iter().filter(|(s, _)| *s < KA2_A2_DIMENSIONS).count();
    assert_eq!(k_count, 2);
    assert_eq!(a2_count, 2);
}

#[test]
fn shogi_ka2_map_features_two_kings_plus_pawns() {
    let mut board = kings_board();
    for file in 0..9 {
        board.board[Square::new(file, 6).index()] = Piece::new(Color::Black, PieceType::Pawn);
        board.board[Square::new(file, 2).index()] = Piece::new(Color::White, PieceType::Pawn);
    }
    let mut k_count = 0;
    let mut a2_count = 0;
    for (s, _n) in map_ka2_features(&board) {
        if s >= KA2_A2_DIMENSIONS {
            k_count += 1;
        } else {
            a2_count += 1;
        }
    }
    assert_eq!(k_count, 2);
    assert_eq!(a2_count, 20);
}

#[test]
fn shogi_ka2_map_features_skip_one_king_position() {
    let mut board = ShogiBoard {
        side_to_move: Color::Black,
        black_king_sq: Square::new(4, 8),
        white_king_sq: Square::none(),
        ..Default::default()
    };
    board.board[board.black_king_sq.index()] = Piece::new(Color::Black, PieceType::King);
    assert_eq!(map_ka2_features(&board).len(), 0);
}

#[test]
fn ka2_king_features_use_own_then_opponent_planes() {
    let board = kings_board();
    let emissions = map_ka2_features(&board);
    // Black to move: own king 5i is square 4*9+8 = 44.
    assert!(emissions.contains(&(k_index_own(44), k_index_opp(80 - 44))));
}

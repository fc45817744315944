use bulletou::outputs::progress_features::{gikou_lite_feature_counts, progress8_feature_counts};
use bulletou::shogi::board::ShogiBoard;
use bulletou::shogi::types::{Color, Piece, PieceType, Square};

fn board() -> ShogiBoard {
    let mut b = ShogiBoard {
        side_to_move: Color::Black,
        black_king_sq: Square::new(4, 8),
        white_king_sq: Square::new(4, 0),
        ..Default::default()
    };
    b.board[b.black_king_sq.index()] = Piece::new(Color::Black, PieceType::King);
    b.board[b.white_king_sq.index()] = Piece::new(Color::White, PieceType::King);
    // Black horse next to its own king, White rook two files from the Black king.
    b.board[Square::new(4, 7).index()] = Piece::new(Color::Black, PieceType::Horse);
    b.board[Square::new(2, 8).index()] = Piece::new(Color::White, PieceType::Rook);
    b.black_hand.set_pawn(2);
    b.white_hand.set_bishop(1);
    b
}

#[test]
fn progress8_counts() {
    let f = progress8_feature_counts(&board());
    // non-king pieces, hand total, majors, promoted, own king rank 8, other king rank 8 - 0.
    assert_eq!(f, [2, 3, 2, 1, 8, 8]);
}

#[test]
fn gikou_lite_counts() {
    let f = gikou_lite_feature_counts(&board());
    assert_eq!(&f[..6], &progress8_feature_counts(&board())[..]);
    // Black horse: own king (5i) at distance 1, White king (5a) at distance 7.
    assert_eq!(f[6], 1);
    assert_eq!(f[11], 1);
    assert_eq!(f[18], 1);
    assert_eq!(f[23], 1);
    // White rook: own king (5a) at distance 8, Black king (5i) at distance 2.
    assert_eq!(f[14], 1);
    assert_eq!(f[16], 1);
    assert_eq!(f[26], 1);
    assert_eq!(f[28], 1);
    assert_eq!((f[30], f[31], f[32], f[33]), (2, 1, 0, 1));
    assert_eq!(f.iter().sum::<u32>(), 2 + 3 + 2 + 1 + 8 + 8 + 8 + 2 + 1 + 0 + 1);
}

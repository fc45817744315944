use bulletou::inputs::halfka_hm1::map_halfka_hm1_features;
use bulletou::inputs::halfka_hm2::map_halfka_hm2_features;
use bulletou::inputs::halfkpvm::map_halfkpvm_features;
use bulletou::shogi::board::ShogiBoard;
use bulletou::shogi::types::{Color, Piece, PieceType, Square};

fn mixed_position(black_king: Square, white_king: Square, stm: Color) -> ShogiBoard {
    let mut board =
        ShogiBoard { side_to_move: stm, black_king_sq: black_king, white_king_sq: white_king, ..Default::default() };
    board.board[black_king.index()] = Piece::new(Color::Black, PieceType::King);
    board.board[white_king.index()] = Piece::new(Color::White, PieceType::King);
    board.board[Square::new(0, 6).index()] = Piece::new(Color::Black, PieceType::Pawn);
    board.board[Square::new(3, 5).index()] = Piece::new(Color::Black, PieceType::Silver);
    board.board[Square::new(7, 7).index()] = Piece::new(Color::Black, PieceType::Rook);
    board.board[Square::new(4, 4).index()] = Piece::new(Color::White, PieceType::Horse);
    board.board[Square::new(8, 2).index()] = Piece::new(Color::White, PieceType::ProPawn);
    board.board[Square::new(1, 1).index()] = Piece::new(Color::White, PieceType::Gold);
    board.black_hand.counts[0] = 2;
    board.white_hand.counts[5] = 1;
    board
}

fn reflected(board: &ShogiBoard) -> ShogiBoard {
    let mut out = board.clone();
    for i in 0..81usize {
        let file = i / 9;
        let rank = i % 9;
        out.board[(8 - file) * 9 + rank] = board.board[i];
    }
    out.black_king_sq = board.black_king_sq.mirror_file();
    out.white_king_sq = board.white_king_sq.mirror_file();
    out
}

fn sorted(mut v: Vec<(usize, usize)>) -> Vec<(usize, usize)> {
    v.sort();
    v
}

#[test]
fn reflected_position_keeps_halfkpvm_features() {
    for stm in [Color::Black, Color::White] {
        let board = mixed_position(Square::new(2, 8), Square::new(6, 0), stm);
        let mirrored = reflected(&board);
        let a = sorted(map_halfkpvm_features(&board));
        let b = sorted(map_halfkpvm_features(&mirrored));
        assert_eq!(a.len(), 9);
        assert_eq!(a, b);
    }
}

#[test]
fn reflected_position_keeps_halfka_hm1_and_hm2_features() {
    for stm in [Color::Black, Color::White] {
        let board = mixed_position(Square::new(5, 8), Square::new(3, 0), stm);
        let mirrored = reflected(&board);
        assert_eq!(sorted(map_halfka_hm1_features(&board)), sorted(map_halfka_hm1_features(&mirrored)));
        assert_eq!(sorted(map_halfka_hm2_features(&board)), sorted(map_halfka_hm2_features(&mirrored)));
    }
}

#[test]
fn king_on_centre_file_breaks_the_symmetry() {
    let board = mixed_position(Square::new(4, 8), Square::new(6, 0), Color::Black);
    let mirrored = reflected(&board);
    assert_ne!(sorted(map_halfkpvm_features(&board)), sorted(map_halfkpvm_features(&mirrored)));
}

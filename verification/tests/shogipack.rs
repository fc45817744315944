use bulletou::loader::pack::{MiniPosition, PackExpander, convert_game_result, expand_game, is_end_marker, read_one_game};
use bulletou::shogi::packed_sfen::PackedSfenValue;
use bulletou::shogi::types::{Color, Piece, PieceType, Square};

#[test]
fn test_hirate_pack_roundtrip() {
    let pos = MiniPosition::hirate();
    let psfen = pos.pack_to_psfen();
    let mut data = [0u8; 40];
    data[0..32].copy_from_slice(&psfen);
    let psv = PackedSfenValue::from_raw(data);
    let board = psv.decode();
    assert_eq!(board.side_to_move, Color::Black);
    assert_eq!(board.black_king_sq, Square(44));
    assert_eq!(board.white_king_sq, Square(36));
    let p = board.board[60];
    assert_eq!(p.piece_type, PieceType::Pawn);
    assert_eq!(p.color, Color::Black);
    let p = board.board[10];
    assert_eq!(p.piece_type, PieceType::Rook);
    assert_eq!(p.color, Color::White);
    let p = board.board[16];
    assert_eq!(p.piece_type, PieceType::Bishop);
    assert_eq!(p.color, Color::Black);
}

#[test]
fn test_do_move_normal() {
    let mut pos = MiniPosition::hirate();
    let move16 = 59 | (60 << 7);
    pos.do_move(move16);
    assert_eq!(pos.board[60], Piece::none());
    assert_eq!(pos.board[59].piece_type, PieceType::Pawn);
    assert_eq!(pos.board[59].color, Color::Black);
    assert_eq!(pos.side_to_move, Color::White);
}

#[test]
fn test_do_move_capture() {
    let mut pos = MiniPosition::hirate();
    let move16 = 56u16 | (60 << 7);
    pos.do_move(move16);
    assert_eq!(pos.board[60], Piece::none());
    assert_eq!(pos.board[56].piece_type, PieceType::Pawn);
    assert_eq!(pos.board[56].color, Color::Black);
    assert_eq!(pos.hands[Color::Black.index()].count(PieceType::Pawn), 1);
}

#[test]
fn test_do_move_drop() {
    let mut pos = MiniPosition::hirate();
    pos.hands[Color::Black.index()].add(PieceType::Pawn, 1);
    let move16 = 40u16 | (81 << 7);
    pos.do_move(move16);
    assert_eq!(pos.board[40].piece_type, PieceType::Pawn);
    assert_eq!(pos.board[40].color, Color::Black);
    assert_eq!(pos.hands[Color::Black.index()].count(PieceType::Pawn), 0);
}

#[test]
fn test_do_move_promote() {
    let mut pos = MiniPosition::hirate();
    pos.board[6 * 9 + 2] = Piece::new(Color::Black, PieceType::Pawn);
    let from_sq = 6 * 9 + 2;
    let to_sq = 6 * 9 + 1;
    let move16 = to_sq as u16 | ((from_sq as u16) << 7) | 0x4000;
    pos.do_move(move16);
    assert_eq!(pos.board[to_sq].piece_type, PieceType::ProPawn);
    assert_eq!(pos.board[to_sq].color, Color::Black);
}

#[test]
fn test_end_marker() {
    assert!(is_end_marker(0));
    assert!(is_end_marker(129));
    assert!(!is_end_marker(59 | (60 << 7)));
}

#[test]
fn test_convert_game_result() {
    assert_eq!(convert_game_result(0, Color::Black), 0);
    assert_eq!(convert_game_result(1, Color::Black), 1);
    assert_eq!(convert_game_result(1, Color::White), -1);
    assert_eq!(convert_game_result(2, Color::White), 1);
    assert_eq!(convert_game_result(2, Color::Black), -1);
}

#[test]
fn do_move_advances_ply_and_capture_of_promoted_piece_unpromotes() {
    let mut pos = MiniPosition::hirate();
    pos.board[40] = Piece::new(Color::White, PieceType::Dragon);
    pos.board[49] = Piece::new(Color::Black, PieceType::Gold);
    let ply = pos.game_ply;
    pos.do_move(40u16 | (49 << 7));
    assert_eq!(pos.game_ply, ply + 1);
    assert_eq!(pos.hands[Color::Black.index()].count(PieceType::Rook), 1);
}

#[test]
fn read_one_game_from_initial_position() {
    // flag 1 (initial position), one move 7g7f with eval 12, then a Black-win
    // end marker (to = from = 1) and its reason byte.
    let m: u16 = 59 | (60 << 7);
    let mut bytes = vec![1u8];
    bytes.extend_from_slice(&m.to_le_bytes());
    bytes.extend_from_slice(&12i16.to_le_bytes());
    bytes.extend_from_slice(&129u16.to_le_bytes());
    bytes.push(0);
    let (game, next) = read_one_game(&bytes, 0).expect("game");
    assert_eq!(next, bytes.len());
    assert_eq!(game.moves, vec![(m, 12)]);
    assert_eq!(game.pack_game_result, 1);
    let records = expand_game(game);
    assert_eq!(records.len(), 1);
    assert_eq!(records[0].score(), 12);
    assert_eq!(records[0].move16(), m);
    assert_eq!(records[0].game_result(), 1);
    let board = records[0].decode();
    assert_eq!(board.black_king_sq, Square(44));
}

#[test]
fn read_one_game_rejects_bad_flag_and_truncation() {
    assert!(read_one_game(&[7u8, 0, 0], 0).is_none());
    assert!(read_one_game(&[1u8, 59], 0).is_none());
}

#[test]
fn pack_expander_skips_then_passes() {
    let mut ex = PackExpander::new(1);
    let psv = PackedSfenValue::default();
    assert!(ex.accept(psv, false).is_none());
    assert!(ex.accept(psv, true).is_none());
    assert_eq!(ex.accept(psv, true), Some(psv));
    assert!(ex.end_sweep().is_ok());
    assert!(ex.end_sweep().is_ok());
    assert!(ex.end_sweep().is_err());
}

#[test]
fn packed_position_decodes_back_after_a_capture() {
    let mut pos = MiniPosition::hirate();
    pos.do_move(56u16 | (60 << 7));
    let psv = pos.to_packed_sfen_value(-3, 56u16 | (60 << 7), 1);
    let board = psv.decode();
    assert_eq!(board.board, pos.board);
    assert_eq!(board.side_to_move, pos.side_to_move);
    assert_eq!(board.black_hand, pos.hands[0]);
    assert_eq!(board.white_hand, pos.hands[1]);
    assert_eq!(psv.score(), -3);
    assert_eq!(psv.game_result(), 1);
    assert_eq!(psv.game_ply(), pos.game_ply);
}

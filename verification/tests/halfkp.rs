use bulletou::inputs::halfkp::{
    FE_END, HALFKP_DIMENSIONS, HALFKP_PIECE_INPUTS, MAX_ACTIVE_FEATURES, ShogiHalfKP, ShogiHalfKPPieceFactorizer,
    fill_halfkp_feature_indices, halfkp_index, map_halfkp_features, map_halfkp_features_from_packed,
};
use bulletou::shogi::board::ShogiBoard;
use bulletou::shogi::packed_sfen::PackedSfenValue;
use bulletou::shogi::types::{Color, Piece, PieceType, Square};

fn kings(black_king: Square, white_king: Square) -> ShogiBoard {
    let mut board =
        ShogiBoard { side_to_move: Color::Black, black_king_sq: black_king, white_king_sq: white_king, ..Default::default() };
    board.board[board.black_king_sq.index()] = Piece::new(Color::Black, PieceType::King);
    board.board[board.white_king_sq.index()] = Piece::new(Color::White, PieceType::King);
    board
}

fn kings_and_pawns() -> ShogiBoard {
    let mut board = kings(Square::new(4, 8), Square::new(4, 0));
    for file in 0..9 {
        board.board[Square::new(file, 6).index()] = Piece::new(Color::Black, PieceType::Pawn);
        board.board[Square::new(file, 2).index()] = Piece::new(Color::White, PieceType::Pawn);
    }
    board
}

#[test]
fn shogi_halfkp_test_dimensions() {
    let input = ShogiHalfKP;
    assert_eq!(input.num_inputs(), 125_388);
    assert_eq!(input.max_active(), 38);
}

#[test]
fn shogi_halfkp_test_shorthand() {
    let input = ShogiHalfKP;
    assert_eq!(input.shorthand(), "shogi-125388x81");
}

#[test]
fn test_halfkp_index() {
    assert_eq!(halfkp_index(0, 0), 0);
    assert_eq!(halfkp_index(1, 0), FE_END);
    assert_eq!(halfkp_index(80, 1547), 125_387);
}

#[test]
fn test_piece_factorizer_dimensions_and_derivation() {
    let factorizer = ShogiHalfKPPieceFactorizer;
    assert_eq!(factorizer.num_inputs(), HALFKP_PIECE_INPUTS);
    assert_eq!(factorizer.max_active(), MAX_ACTIVE_FEATURES);
    assert_eq!(factorizer.derive_feature(&ShogiHalfKP, halfkp_index(17, 123)), Some(123));
    assert_eq!(factorizer.derive_feature(&ShogiHalfKP, HALFKP_DIMENSIONS), None);
}

#[derive(Default)]
struct TestPackedSfenWriter {
    bytes: [u8; 32],
    cursor: usize,
}

impl TestPackedSfenWriter {
    fn write_bit(&mut self, bit: bool) {
        assert!(self.cursor < 256);
        if bit {
            self.bytes[self.cursor / 8] |= 1 << (self.cursor % 8);
        }
        self.cursor += 1;
    }

    fn write_bits(&mut self, value: u32, len: u8) {
        for i in 0..len {
            self.write_bit(((value >> i) & 1) != 0);
        }
    }

    fn write_board_piece(&mut self, piece: Piece) {
        if piece.is_none() {
            self.write_bit(false);
            return;
        }

        let (pattern, len, promoted) = board_piece_code(piece.piece_type);
        self.write_bits(pattern, len);
        if piece.piece_type.unpromote() != PieceType::Gold {
            self.write_bit(promoted);
        }
        self.write_bit(piece.color == Color::White);
    }

    fn write_hand_piece(&mut self, piece: Piece) {
        let (pattern, len, _) = board_piece_code(piece.piece_type);
        self.write_bits(pattern >> 1, len - 1);
        if piece.piece_type != PieceType::Gold {
            self.write_bit(false);
        }
        self.write_bit(piece.color == Color::White);
    }

    fn write_piecebox_pawn(&mut self) {
        self.write_bit(false);
        self.write_bit(true);
        self.write_bit(false);
    }

    fn write_piecebox_lance_prefix(&mut self, bits: usize) {
        // Lance hand code is 001 (LSB-first value 1, len 3), followed by the
        // piecebox bit. The final colour bit may be omitted at the 256-bit
        // boundary because the decoder treats OOB reads as false.
        let seq = [true, false, false, true, false];
        for &bit in seq.iter().take(bits) {
            self.write_bit(bit);
        }
    }

    fn finish_with_piecebox_padding(&mut self) {
        while self.cursor < 256 {
            let remaining = 256 - self.cursor;
            match remaining {
                1 => self.write_bit(true),
                2 => {
                    self.write_bit(false);
                    self.write_bit(true);
                }
                4 => self.write_piecebox_lance_prefix(4),
                5 => self.write_piecebox_lance_prefix(5),
                _ => self.write_piecebox_pawn(),
            }
        }
    }
}

fn board_piece_code(pt: PieceType) -> (u32, u8, bool) {
    match pt {
        PieceType::Pawn => (0x01, 2, false),
        PieceType::Lance => (0x03, 4, false),
        PieceType::Knight => (0x0b, 4, false),
        PieceType::Silver => (0x07, 4, false),
        PieceType::Bishop => (0x1f, 6, false),
        PieceType::Rook => (0x3f, 6, false),
        PieceType::Gold => (0x0f, 5, false),
        PieceType::ProPawn => (0x01, 2, true),
        PieceType::ProLance => (0x03, 4, true),
        PieceType::ProKnight => (0x0b, 4, true),
        PieceType::ProSilver => (0x07, 4, true),
        PieceType::Horse => (0x1f, 6, true),
        PieceType::Dragon => (0x3f, 6, true),
        _ => panic!("unsupported test piece type"),
    }
}

fn packed_halfkp_test_position(side_to_move: Color) -> PackedSfenValue {
    let black_king = Square::new(4, 8);
    let white_king = Square::new(4, 0);
    let mut board = [Piece::none(); 81];
    board[Square::new(0, 6).index()] = Piece::new(Color::Black, PieceType::Pawn);
    board[Square::new(8, 2).index()] = Piece::new(Color::White, PieceType::Pawn);
    board[Square::new(2, 4).index()] = Piece::new(Color::Black, PieceType::ProSilver);
    board[Square::new(6, 4).index()] = Piece::new(Color::White, PieceType::Dragon);

    let mut writer = TestPackedSfenWriter::default();
    writer.write_bit(side_to_move == Color::White);
    writer.write_bits(black_king.0 as u32, 7);
    writer.write_bits(white_king.0 as u32, 7);
    for sq_idx in 0..81u8 {
        if sq_idx == black_king.0 || sq_idx == white_king.0 {
            continue;
        }
        writer.write_board_piece(board[sq_idx as usize]);
    }
    writer.write_hand_piece(Piece::new(Color::Black, PieceType::Pawn));
    writer.write_hand_piece(Piece::new(Color::Black, PieceType::Pawn));
    writer.write_hand_piece(Piece::new(Color::White, PieceType::Rook));
    writer.write_hand_piece(Piece::new(Color::White, PieceType::Gold));
    writer.finish_with_piecebox_padding();

    let mut pos = PackedSfenValue::default();
    pos.data[..32].copy_from_slice(&writer.bytes);
    pos
}


#[test]
fn test_direct_packed_mapper_matches_board_mapper() {
    for side_to_move in [Color::Black, Color::White] {
        let pos = packed_halfkp_test_position(side_to_move);
        let board = ShogiBoard::from_packed_sfen(&pos);

        let board_features = map_halfkp_features(&board);
        let direct_features = map_halfkp_features_from_packed(&pos);
        assert_eq!(direct_features, board_features);

        let mut stm = [-1; MAX_ACTIVE_FEATURES];
        let mut nstm = [-1; MAX_ACTIVE_FEATURES];
        let (stm_count, nstm_count) = fill_halfkp_feature_indices(&pos, &mut stm, &mut nstm);
        assert_eq!(stm_count, board_features.len());
        assert_eq!(nstm_count, board_features.len());
        let filled_features: Vec<_> = (0..stm_count).map(|i| (stm[i] as usize, nstm[i] as usize)).collect();
        assert_eq!(filled_features, board_features);
    }
}

#[test]
fn test_map_features_count() {
    let board = kings_and_pawns();
    assert_eq!(map_halfkp_features(&board).len(), 18);
}

#[test]
fn test_map_features_no_kings() {
    let board = kings(Square::new(4, 8), Square::new(4, 0));
    assert_eq!(map_halfkp_features(&board).len(), 0);
}

#[test]
fn shogi_halfkp_test_map_features_sq_nb_guard() {
    let mut board = ShogiBoard {
        side_to_move: Color::Black,
        black_king_sq: Square::new(4, 8),
        white_king_sq: Square::none(),
        ..Default::default()
    };
    board.board[board.black_king_sq.index()] = Piece::new(Color::Black, PieceType::King);
    assert_eq!(map_halfkp_features(&board).len(), 0);
}

#[test]
fn test_feature_indices_in_range() {
    let board = kings_and_pawns();
    let max_valid_index = HALFKP_DIMENSIONS - 1;
    for (stm_idx, nstm_idx) in map_halfkp_features(&board) {
        assert!(stm_idx <= max_valid_index, "STM index {} exceeds max {}", stm_idx, max_valid_index);
        assert!(nstm_idx <= max_valid_index, "NSTM index {} exceeds max {}", nstm_idx, max_valid_index);
    }
}

#[test]
fn halfkp_pawn_feature_is_king_times_fe_end_plus_bonapiece() {
    let board = kings_and_pawns();
    let feats = map_halfkp_features(&board);
    // Both kings stand on square 44 from their own sides; a Black pawn on
    // square 6 is BonaPiece 90 + 6 for Black and 171 + (80 - 6) for White.
    assert!(feats.contains(&(44 * 1548 + 96, 44 * 1548 + 171 + (80 - 6))));
}

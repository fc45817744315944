use bulletou::inputs::kpp::{KPP_FE_END, KPP_INPUTS, KPP_MAX_ACTIVE, ShogiKpp, map_kpp_features};
use bulletou::shogi::board::ShogiBoard;
use bulletou::shogi::packed_sfen::PackedSfenValue;
use bulletou::shogi::types::{Color, Piece, PieceType, Square};

fn check_canonical(idx: usize) {
    let king = idx / (KPP_FE_END * KPP_FE_END);
    let rest = idx % (KPP_FE_END * KPP_FE_END);
    let p_lo = rest / KPP_FE_END;
    let p_hi = rest % KPP_FE_END;
    assert!(king < 81, "king out of range: {king}");
    assert!(p_lo <= p_hi, "non-canonical pair: ({p_lo}, {p_hi})");
    assert!(p_hi < KPP_FE_END, "p_hi out of range: {p_hi}");
}

#[test]
fn kpp_dims_are_sane() {
    assert_eq!(KPP_FE_END, 1548);
    assert_eq!(KPP_INPUTS, 81 * 1548 * 1548);
    assert_eq!(KPP_INPUTS, 194_100_624);
    assert_eq!(KPP_MAX_ACTIVE, 703);
}

#[test]
fn shogi_kpp_map_features_does_not_panic_on_default_psv() {
    let pos = PackedSfenValue::default();
    let feats = ShogiKpp.map_features(&pos);
    for (stm, nstm) in &feats {
        assert!(*stm < KPP_INPUTS, "stm idx out of range: {stm}");
        assert!(*nstm < KPP_INPUTS, "nstm idx out of range: {nstm}");
    }
}

#[test]
fn map_features_canonical_ordering() {
    let pos = PackedSfenValue::default();
    for (stm_idx, nstm_idx) in ShogiKpp.map_features(&pos) {
        check_canonical(stm_idx);
        check_canonical(nstm_idx);
    }
}

#[test]
fn kpp_pairs_of_kings_and_pawns_are_canonical_and_complete() {
    let mut board = ShogiBoard {
        side_to_move: Color::Black,
        black_king_sq: Square::new(4, 8),
        white_king_sq: Square::new(4, 0),
        ..Default::default()
    };
    board.board[board.black_king_sq.index()] = Piece::new(Color::Black, PieceType::King);
    board.board[board.white_king_sq.index()] = Piece::new(Color::White, PieceType::King);
    for file in 0..3 {
        board.board[Square::new(file, 6).index()] = Piece::new(Color::Black, PieceType::Pawn);
    }
    let feats = map_kpp_features(&board);
    // Three pieces besides the kings: C(3, 2) = 3 unordered pairs.
    assert_eq!(feats.len(), 3);
    for (stm_idx, nstm_idx) in feats {
        check_canonical(stm_idx);
        check_canonical(nstm_idx);
        assert!(stm_idx < KPP_INPUTS && nstm_idx < KPP_INPUTS);
    }
}

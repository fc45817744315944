use bulletou::inputs::halfka::HALFKA_HM_DIMENSIONS;
use bulletou::inputs::hand_threat::{
    HAND_NUM_CLASSES, HAND_THREAT_DIMENSIONS, HandThreatClass, ShogiHalfKaHmHandThreat, hand_attacks_per_color,
    is_legal_drop_rank,
};
use bulletou::inputs::hand_threat_defensive::{
    HAND_THREAT_DIMENSIONS as DEF_HAND_THREAT_DIMENSIONS, ShogiHalfKaHmHandThreatDefensive,
};
use bulletou::inputs::threat::{NUM_THREAT_CLASSES, ThreatClass};
use bulletou::shogi::board::ShogiBoard;
use bulletou::shogi::types::{Color, Piece, PieceType, Square};

fn collect_hand_threat_only(board: &ShogiBoard) -> Vec<(usize, usize)> {
    let input = ShogiHalfKaHmHandThreat::new();
    let mut pairs = Vec::new();
    for (stm_idx, nstm_idx) in input.map_hand_threat_features(board) {
        if stm_idx >= HALFKA_HM_DIMENSIONS {
            pairs.push((stm_idx - HALFKA_HM_DIMENSIONS, nstm_idx - HALFKA_HM_DIMENSIONS));
        }
    }
    pairs.sort();
    pairs
}

fn build_minimal_pawn_drop_position() -> ShogiBoard {
    let mut board = ShogiBoard {
        side_to_move: Color::Black,
        black_king_sq: Square::new(4, 8),
        white_king_sq: Square::new(4, 0),
        ..Default::default()
    };
    board.board[board.black_king_sq.index()] = Piece::new(Color::Black, PieceType::King);
    board.board[board.white_king_sq.index()] = Piece::new(Color::White, PieceType::King);
    board.board[Square::new(4, 4).index()] = Piece::new(Color::Black, PieceType::Rook);
    board.black_hand.set(PieceType::Pawn, 1);
    board
}

#[test]
fn shogi_halfka_hm_hand_threat_test_hand_threat_dimensions_value() {
    assert_eq!(HAND_THREAT_DIMENSIONS, 121_104);
    assert_eq!(ShogiHalfKaHmHandThreat::new().hand_threat_dimensions(), 121_104);
}

#[test]
fn test_hand_attacks_per_color_totals() {
    let per: Vec<usize> = (0..HAND_NUM_CLASSES).map(hand_attacks_per_color).collect();
    assert_eq!(per, vec![72, 324, 112, 328, 416, 816, 1296]);
    assert_eq!(per.iter().sum::<usize>(), 3_364);
}

#[test]
fn shogi_halfka_hm_hand_threat_test_hand_pair_base_monotone() {
    let base_table = ShogiHalfKaHmHandThreat::new().hand_pair_base();
    let mut prev: Option<usize> = None;
    for drop_owner in 0..2 {
        for hc in 0..HAND_NUM_CLASSES {
            for attacked_side in 0..2 {
                for ac in 0..NUM_THREAT_CLASSES {
                    let idx = drop_owner * 126 + hc * 18 + attacked_side * 9 + ac;
                    let base = base_table[idx];
                    if let Some(p) = prev {
                        assert!(base > p, "must be strictly increasing");
                    }
                    prev = Some(base);
                }
            }
        }
    }
}

#[test]
fn shogi_halfka_hm_hand_threat_test_num_inputs() {
    let input = ShogiHalfKaHmHandThreat::new();
    assert_eq!(input.num_inputs(), HALFKA_HM_DIMENSIONS + 121_104);
}

#[test]
fn test_drop_legality_black_pawn() {
    let p = HandThreatClass::Pawn;
    assert!(!is_legal_drop_rank(p, Color::Black, Square::new(0, 0)));
    assert!(is_legal_drop_rank(p, Color::Black, Square::new(0, 1)));
}

#[test]
fn test_drop_legality_black_knight() {
    let n = HandThreatClass::Knight;
    assert!(!is_legal_drop_rank(n, Color::Black, Square::new(0, 0)));
    assert!(!is_legal_drop_rank(n, Color::Black, Square::new(0, 1)));
    assert!(is_legal_drop_rank(n, Color::Black, Square::new(0, 2)));
}

#[test]
fn test_drop_legality_white_pawn() {
    let p = HandThreatClass::Pawn;
    assert!(!is_legal_drop_rank(p, Color::White, Square::new(0, 8)));
    assert!(is_legal_drop_rank(p, Color::White, Square::new(0, 7)));
}

#[test]
fn test_hand_to_board_class_mapping() {
    assert_eq!(HandThreatClass::Pawn.as_board_class().index(), ThreatClass::Pawn.index());
    assert_eq!(HandThreatClass::Gold.as_board_class().index(), ThreatClass::GoldLike.index());
}

#[test]
fn test_minimal_position_has_one_hand_threat() {
    let board = build_minimal_pawn_drop_position();
    let pairs = collect_hand_threat_only(&board);
    assert_eq!(pairs.len(), 1, "minimal position should produce exactly 1 hand threat feature");
}

#[test]
fn test_startpos_no_hand_threats() {
    let mut board = ShogiBoard {
        side_to_move: Color::Black,
        black_king_sq: Square::new(4, 8),
        white_king_sq: Square::new(4, 0),
        ..Default::default()
    };
    board.board[board.black_king_sq.index()] = Piece::new(Color::Black, PieceType::King);
    board.board[board.white_king_sq.index()] = Piece::new(Color::White, PieceType::King);
    let input = ShogiHalfKaHmHandThreat::new();
    let hand_indices_count =
        input.map_hand_threat_features(&board).iter().filter(|(s, _)| *s >= HALFKA_HM_DIMENSIONS).count();
    assert_eq!(hand_indices_count, 0, "startpos should have no hand threats");
}

#[test]
fn hand_threat_indices_stay_in_range() {
    let board = build_minimal_pawn_drop_position();
    let input = ShogiHalfKaHmHandThreat::new();
    for (s, n) in input.map_hand_threat_features(&board) {
        assert!(s < input.num_inputs() && n < input.num_inputs());
    }
}

#[test]
fn shogi_halfka_hm_hand_threat_defensive_test_hand_threat_dimensions_value() {
    assert_eq!(DEF_HAND_THREAT_DIMENSIONS, 30_276);
    assert_eq!(ShogiHalfKaHmHandThreatDefensive::new().hand_threat_dimensions(), 30_276);
}

#[test]
fn shogi_halfka_hm_hand_threat_defensive_test_hand_pair_base_monotone() {
    let base_table = ShogiHalfKaHmHandThreatDefensive::new().hand_pair_base();
    let mut prev: Option<usize> = None;
    for hc in 0..HAND_NUM_CLASSES {
        for ac in 0..NUM_THREAT_CLASSES {
            let idx = hc * NUM_THREAT_CLASSES + ac;
            let base = base_table[idx];
            if let Some(p) = prev {
                assert!(base > p, "must be strictly increasing");
            }
            prev = Some(base);
        }
    }
}

#[test]
fn shogi_halfka_hm_hand_threat_defensive_test_num_inputs() {
    let input = ShogiHalfKaHmHandThreatDefensive::new();
    assert_eq!(input.num_inputs(), HALFKA_HM_DIMENSIONS + 30_276);
}

#[test]
fn defensive_minimal_position_features_in_range() {
    let board = build_minimal_pawn_drop_position();
    let input = ShogiHalfKaHmHandThreatDefensive::new();
    let feats = input.map_hand_threat_features_defensive(&board);
    for (s, n) in feats {
        if let Some(s) = s {
            assert!(s < input.num_inputs());
        }
        if let Some(n) = n {
            assert!(n < input.num_inputs());
        }
    }
}

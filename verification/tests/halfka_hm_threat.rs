use bulletou::inputs::halfka::HALFKA_HM_DIMENSIONS;
use bulletou::inputs::halfka_hm_threat::{
    attacks_per_color, normalize_sq, ShogiHalfKaHmThreat, ThreatParams, EXCLUDED_PAIR_BASE,
};
use bulletou::inputs::threat::{
    attack_pattern_id, attacks_empty_board, compute_attack_order, AttackTables, ThreatClass,
};
use bulletou::inputs::threat_exclusion::ThreatProfile;
use bulletou::shogi::board::ShogiBoard;
use bulletou::shogi::types::{Color, Piece, PieceType, Square};

const ALL_CLASSES: [ThreatClass; 9] = [
    ThreatClass::Pawn,
    ThreatClass::Lance,
    ThreatClass::Knight,
    ThreatClass::Silver,
    ThreatClass::GoldLike,
    ThreatClass::Bishop,
    ThreatClass::Rook,
    ThreatClass::Horse,
    ThreatClass::Dragon,
];

fn full_input() -> ShogiHalfKaHmThreat {
    ShogiHalfKaHmThreat::new(ThreatProfile::Full)
}

fn startpos() -> ShogiBoard {
    let mut board = ShogiBoard {
        side_to_move: Color::Black,
        black_king_sq: Square::new(4, 8),
        white_king_sq: Square::new(4, 0),
        ..Default::default()
    };
    board.board[board.black_king_sq.index()] = Piece::new(Color::Black, PieceType::King);
    board.board[board.white_king_sq.index()] = Piece::new(Color::White, PieceType::King);
    for file in 0..9u8 {
        board.board[Square::new(file, 6).index()] = Piece::new(Color::Black, PieceType::Pawn);
        board.board[Square::new(file, 2).index()] = Piece::new(Color::White, PieceType::Pawn);
    }
    board.board[Square::new(7, 7).index()] = Piece::new(Color::Black, PieceType::Bishop);
    board.board[Square::new(1, 7).index()] = Piece::new(Color::Black, PieceType::Rook);
    board.board[Square::new(1, 1).index()] = Piece::new(Color::White, PieceType::Bishop);
    board.board[Square::new(7, 1).index()] = Piece::new(Color::White, PieceType::Rook);
    board.board[Square::new(0, 8).index()] = Piece::new(Color::Black, PieceType::Lance);
    board.board[Square::new(8, 8).index()] = Piece::new(Color::Black, PieceType::Lance);
    board.board[Square::new(0, 0).index()] = Piece::new(Color::White, PieceType::Lance);
    board.board[Square::new(8, 0).index()] = Piece::new(Color::White, PieceType::Lance);
    board.board[Square::new(1, 8).index()] = Piece::new(Color::Black, PieceType::Knight);
    board.board[Square::new(7, 8).index()] = Piece::new(Color::Black, PieceType::Knight);
    board.board[Square::new(1, 0).index()] = Piece::new(Color::White, PieceType::Knight);
    board.board[Square::new(7, 0).index()] = Piece::new(Color::White, PieceType::Knight);
    board.board[Square::new(2, 8).index()] = Piece::new(Color::Black, PieceType::Silver);
    board.board[Square::new(6, 8).index()] = Piece::new(Color::Black, PieceType::Silver);
    board.board[Square::new(2, 0).index()] = Piece::new(Color::White, PieceType::Silver);
    board.board[Square::new(6, 0).index()] = Piece::new(Color::White, PieceType::Silver);
    board.board[Square::new(3, 8).index()] = Piece::new(Color::Black, PieceType::Gold);
    board.board[Square::new(5, 8).index()] = Piece::new(Color::Black, PieceType::Gold);
    board.board[Square::new(3, 0).index()] = Piece::new(Color::White, PieceType::Gold);
    board.board[Square::new(5, 0).index()] = Piece::new(Color::White, PieceType::Gold);
    board
}

#[test]
fn test_total_dimensions() {
    let input = full_input();
    assert_eq!(input.num_inputs(), HALFKA_HM_DIMENSIONS + 216_720);
}

#[test]
fn test_cross_side_dimensions() {
    let input = ShogiHalfKaHmThreat::new(ThreatProfile::CrossSide);
    assert_eq!(input.threat_dimensions(), 96_320);
}

#[test]
fn test_max_active() {
    let input = full_input();
    assert_eq!(input.max_active(), 40 + 320);
}

#[test]
fn test_pair_base_dimensions() {
    let input = full_input();
    let mut last_base = 0usize;
    let mut last_ac = 0usize;
    for (i, &base) in input.pair_base().iter().enumerate() {
        if base != EXCLUDED_PAIR_BASE && base >= last_base {
            last_base = base;
            last_ac = (i % 162) / 18;
        }
    }
    assert_eq!(last_base + attacks_per_color(last_ac), input.threat_dimensions());
}

#[test]
fn test_attacks_per_color_totals() {
    for (i, &class) in ALL_CLASSES.iter().enumerate() {
        let total: usize = (0..81u8)
            .map(|sq| {
                let (_, cnt) = attacks_empty_board(class, Color::Black, Square(sq));
                cnt
            })
            .sum();
        assert_eq!(total, attacks_per_color(i), "{:?}: expected {}, got {}", class, attacks_per_color(i), total);
    }
}

#[test]
fn test_from_offset_pawn() {
    let table = AttackTables::new();
    let pattern = attack_pattern_id(ThreatClass::Pawn, Color::Black);
    assert_eq!(table.from_offset(pattern, Square(0)), 0);
    assert_eq!(table.from_offset(pattern, Square(1)), 0);
    assert_eq!(table.from_offset(pattern, Square(2)), 1);
}

#[test]
fn test_from_offset_rook() {
    let table = AttackTables::new();
    let pattern = attack_pattern_id(ThreatClass::Rook, Color::Black);
    for sq_raw in 0..81u8 {
        assert_eq!(table.from_offset(pattern, Square(sq_raw)), 16 * sq_raw as usize);
    }
}

#[test]
fn test_attack_order_rook_center() {
    let (targets, count) = attacks_empty_board(ThreatClass::Rook, Color::Black, Square(40));
    assert_eq!(count, 16);
    let first_sq = Square(targets[0]);
    assert_eq!(compute_attack_order(ThreatClass::Rook, Color::Black, Square(40), first_sq), 0);
}

#[test]
fn test_threat_index_range() {
    let input = full_input();
    for &class in &ALL_CLASSES {
        for &oriented_color in &[Color::Black, Color::White] {
            for sq_raw in 0..81u8 {
                let sq = Square(sq_raw);
                let (targets, count) = attacks_empty_board(class, oriented_color, sq);
                for &target_raw in targets.iter().take(count) {
                    let to = Square(target_raw);
                    for as_ in 0..2usize {
                        for ds in 0..2usize {
                            for &dc_class in &ALL_CLASSES {
                                let idx = input.threat_index(&ThreatParams {
                                    attacker_side: as_,
                                    attacker_class: class,
                                    oriented_color,
                                    attacked_side: ds,
                                    attacked_class: dc_class,
                                    from_sq_n: sq,
                                    to_sq_n: to,
                                });
                                if let Some(idx) = idx {
                                    assert!(
                                        idx < input.threat_dimensions(),
                                        "index {} out of range for class={:?} color={:?} sq={} to={}",
                                        idx,
                                        class,
                                        oriented_color,
                                        sq.0,
                                        to.0
                                    );
                                }
                            }
                        }
                    }
                }
            }
        }
    }
}

#[test]
fn test_map_features_startpos() {
    let board = startpos();
    let mut halfka_count = 0usize;
    let mut threat_count = 0usize;
    let input = full_input();
    let total_dims = input.num_inputs();
    for (stm_idx, nstm_idx) in input.map_threat_features(&board) {
        if stm_idx < HALFKA_HM_DIMENSIONS {
            halfka_count += 1;
        } else {
            threat_count += 1;
            assert!(stm_idx < total_dims, "stm threat index out of range: {stm_idx}");
        }
        if nstm_idx >= HALFKA_HM_DIMENSIONS {
            assert!(nstm_idx < total_dims, "nstm threat index out of range: {nstm_idx}");
        }
    }
    assert_eq!(halfka_count, 40);
    assert!(threat_count > 0, "threat features should be non-empty in startpos");
}

#[test]
fn shogi_halfka_hm_threat_test_map_features_sq_nb_guard() {
    let board = ShogiBoard {
        side_to_move: Color::Black,
        black_king_sq: Square::new(4, 8),
        white_king_sq: Square::none(),
        ..Default::default()
    };
    let input = full_input();
    let count = input.map_threat_features(&board).len();
    assert_eq!(count, 0);
}

#[test]
fn shogi_halfka_hm_threat_test_shorthand() {
    let input = full_input();
    let expected = format!("shogi-{}x45hm+threat", input.num_inputs());
    assert_eq!(input.shorthand(), expected);
}

#[test]
fn test_normalize_sq() {
    let sq = Square::new(4, 4);
    assert_eq!(normalize_sq(sq, Color::Black, false), sq);
    assert_eq!(normalize_sq(sq, Color::Black, true), sq.mirror_file());
    assert_eq!(normalize_sq(sq, Color::White, false), sq.inverse());
    assert_eq!(normalize_sq(sq, Color::White, true), sq.inverse().mirror_file());
}

#[test]
fn test_canonical_startpos_threat_indices() {
    let board = startpos();
    let input = full_input();
    let mut stm_threat_indices: Vec<usize> = input
        .map_threat_features(&board)
        .into_iter()
        .filter(|&(stm_idx, _)| stm_idx >= HALFKA_HM_DIMENSIONS)
        .map(|(stm_idx, _)| stm_idx - HALFKA_HM_DIMENSIONS)
        .collect();
    stm_threat_indices.sort();
    let expected: Vec<usize> = vec![
        1330, 1618, 7147, 7148, 7231, 7232, 11047, 11213, 16475, 16578, 23268, 23270, 24087, 25717, 37487, 40080,
        43974, 112573, 112861, 116503, 116504, 116587, 116588, 122160, 122650, 128533, 128636, 138321, 138323,
        139136, 140770, 158280, 160871, 164753,
    ];
    assert_eq!(stm_threat_indices, expected);
}

#[test]
fn threat_profile_names_round_trip() {
    for p in [ThreatProfile::Full, ThreatProfile::SameClass, ThreatProfile::SameClassMajorPawn, ThreatProfile::CrossSide] {
        assert_eq!(ThreatProfile::from_cli(p.name()), Some(p));
    }
    assert_eq!(ThreatProfile::from_cli("nope"), None);
    assert_eq!(ThreatProfile::CrossSide.profile_id(), 10);
    assert!(ThreatProfile::CrossSide.is_excluded(0, 1, 0, 2));
    assert!(!ThreatProfile::CrossSide.is_excluded(0, 1, 1, 2));
}

use bulletou::outputs::progress::{
    SHOGI_SFNN_PROGRESS_WEIGHT_COUNT, ShogiSfnnProgressQ16Params, ShogiSfnnProgressState,
    shogi_sfnn_material_heuristic_sum_q16_from_board, shogi_sfnn_progress_0_to_255_from_sum_q16,
    shogi_sfnn_progress_bucket_from_value, shogi_sfnn_progress_sum_q16_from_board,
};
use bulletou::outputs::sfnn::{
    ShogiSfnnHandBucketKind, ShogiSfnnKingBucketKind, ShogiSfnnLayerStackBucket, ShogiSfnnLayerStackBucketKind,
    ShogiSfnnProgressBucketKind,
};
use bulletou::outputs::{
    ShogiHand1024Bucket, ShogiHand1024King21ByKing21Bucket, ShogiHand1024King29ByKing29Bucket,
    ShogiHand1024KingRank81Bucket, ShogiHand1024KingRankBucket, ShogiHand256Bucket, ShogiHand256King21ByKing21Bucket,
    ShogiHand256King29ByKing29Bucket, ShogiHand256KingRank81Bucket, ShogiHand256KingRankBucket, ShogiHand64Bucket,
    ShogiHand64King21ByKing21Bucket, ShogiHand64King29ByKing29Bucket, ShogiHand64KingRank81Bucket,
    ShogiKing13ZoneByKing13ZoneBucket, ShogiKing21ByKing21Bucket, ShogiKing29ByKing29Bucket,
    ShogiKing9ZoneByKing9ZoneBucket, ShogiKingRankBucket, ShogiPlyBucket9, shogi_hand1024_single_bucket,
    shogi_hand16_single_bucket, shogi_hand256_single_bucket, shogi_hand4_single_bucket, shogi_hand64_single_bucket,
    shogi_hand64z_single_bucket, shogi_king13_zone_single_bucket, shogi_king21_single_bucket,
    shogi_king29_single_bucket, shogi_king9_zone_single_bucket,
};
use bulletou::shogi::board::ShogiBoard;
use bulletou::shogi::packed_sfen::PackedSfenValue;
use bulletou::shogi::types::{Color, Hand, Piece, PieceType, Square};

fn psv_with_ply(ply: u16) -> PackedSfenValue {
    let mut psv = PackedSfenValue::default();
    let le = ply.to_le_bytes();
    psv.data[36] = le[0];
    psv.data[37] = le[1];
    psv
}

fn write_bits_lsb_first(bytes: &mut [u8], cursor: &mut usize, value: u32, bits: u8) {
    for i in 0..bits {
        if ((value >> i) & 1) != 0 {
            let bit = *cursor + usize::from(i);
            bytes[bit / 8] |= 1 << (bit % 8);
        }
    }
    *cursor += usize::from(bits);
}

fn psv_with_kings(stm: Color, black_king: Square, white_king: Square) -> PackedSfenValue {
    let mut psv = PackedSfenValue::default();
    let mut cursor = 0usize;
    write_bits_lsb_first(&mut psv.data, &mut cursor, u32::from(stm == Color::White), 1);
    write_bits_lsb_first(&mut psv.data, &mut cursor, black_king.index() as u32, 7);
    write_bits_lsb_first(&mut psv.data, &mut cursor, white_king.index() as u32, 7);
    psv
}

fn full_hand() -> Hand {
    let mut hand = Hand::empty();
    hand.set_pawn(18);
    hand.set_lance(4);
    hand.set_knight(4);
    hand.set_silver(4);
    hand.set_gold(4);
    hand.set_bishop(2);
    hand.set_rook(2);
    hand
}

#[test]
fn test_shogi_hand4_and_hand16_single_bucket_formulas() {
    let empty = Hand::empty();
    assert_eq!(shogi_hand4_single_bucket(empty), 0);
    assert_eq!(shogi_hand16_single_bucket(empty), 0);

    let mut hand = Hand::empty();
    hand.set_pawn(1);
    assert_eq!(shogi_hand4_single_bucket(hand), 0);
    assert_eq!(shogi_hand16_single_bucket(hand), 1);

    hand = Hand::empty();
    hand.set_bishop(1);
    assert_eq!(shogi_hand4_single_bucket(hand), 1);
    assert_eq!(shogi_hand16_single_bucket(hand), 2);

    hand.set_pawn(1);
    assert_eq!(shogi_hand16_single_bucket(hand), 3);
}

#[test]
fn test_shogi_hand64_single_bucket_formula() {
    assert_eq!(shogi_hand64_single_bucket(Hand::empty()), 0);
    let mut hand = Hand::empty();
    hand.set_pawn(1);
    assert_eq!(shogi_hand64_single_bucket(hand), 1);
    hand = Hand::empty();
    hand.set_pawn(5);
    assert_eq!(shogi_hand64_single_bucket(hand), 1);
    hand = Hand::empty();
    hand.set_lance(1);
    hand.set_knight(1);
    assert_eq!(shogi_hand64_single_bucket(hand), 1);
    hand = Hand::empty();
    hand.set_silver(1);
    hand.set_gold(1);
    assert_eq!(shogi_hand64_single_bucket(hand), 2);
    hand = Hand::empty();
    hand.set_bishop(1);
    assert_eq!(shogi_hand64_single_bucket(hand), 4);
    hand = Hand::empty();
    hand.set_bishop(1);
    hand.set_rook(1);
    assert_eq!(shogi_hand64_single_bucket(hand), 6);
    assert_eq!(shogi_hand64_single_bucket(full_hand()), 7);
}

#[test]
fn test_shogi_hand64z_single_bucket_formula() {
    assert_eq!(shogi_hand64z_single_bucket(Hand::empty()), 0);
    let mut hand = Hand::empty();
    hand.set_pawn(1);
    assert_eq!(shogi_hand64z_single_bucket(hand), 1);
    hand = Hand::empty();
    hand.set_pawn(5);
    assert_eq!(shogi_hand64z_single_bucket(hand), 2);
    hand = Hand::empty();
    hand.set_lance(1);
    hand.set_knight(1);
    assert_eq!(shogi_hand64z_single_bucket(hand), 1);
    hand = Hand::empty();
    hand.set_silver(1);
    hand.set_gold(1);
    assert_eq!(shogi_hand64z_single_bucket(hand), 2);
    hand = Hand::empty();
    hand.set_bishop(1);
    assert_eq!(shogi_hand64z_single_bucket(hand), 2);
    hand = Hand::empty();
    hand.set_bishop(1);
    hand.set_rook(1);
    assert_eq!(shogi_hand64z_single_bucket(hand), 3);
    assert_eq!(shogi_hand64z_single_bucket(full_hand()), 7);
}

#[test]
fn test_shogi_hand256_single_bucket_formula() {
    assert_eq!(shogi_hand256_single_bucket(Hand::empty()), 0);
    let mut hand = Hand::empty();
    hand.set_pawn(1);
    assert_eq!(shogi_hand256_single_bucket(hand), 1);
    hand = Hand::empty();
    hand.set_lance(1);
    assert_eq!(shogi_hand256_single_bucket(hand), 1);
    hand = Hand::empty();
    hand.set_knight(1);
    assert_eq!(shogi_hand256_single_bucket(hand), 1);
    hand = Hand::empty();
    hand.set_silver(1);
    assert_eq!(shogi_hand256_single_bucket(hand), 2);
    hand = Hand::empty();
    hand.set_gold(1);
    assert_eq!(shogi_hand256_single_bucket(hand), 2);
    hand = Hand::empty();
    hand.set_bishop(1);
    assert_eq!(shogi_hand256_single_bucket(hand), 4);
    hand = Hand::empty();
    hand.set_rook(1);
    assert_eq!(shogi_hand256_single_bucket(hand), 8);
    assert_eq!(shogi_hand256_single_bucket(full_hand()), 15);
}

#[test]
fn test_shogi_hand1024_single_bucket_formula() {
    assert_eq!(shogi_hand1024_single_bucket(Hand::empty()), 0);
    let mut hand = Hand::empty();
    hand.set_pawn(1);
    assert_eq!(shogi_hand1024_single_bucket(hand), 1);
    hand = Hand::empty();
    hand.set_lance(1);
    assert_eq!(shogi_hand1024_single_bucket(hand), 2);
    hand = Hand::empty();
    hand.set_knight(1);
    assert_eq!(shogi_hand1024_single_bucket(hand), 2);
    hand = Hand::empty();
    hand.set_silver(1);
    assert_eq!(shogi_hand1024_single_bucket(hand), 4);
    hand = Hand::empty();
    hand.set_gold(1);
    assert_eq!(shogi_hand1024_single_bucket(hand), 4);
    hand = Hand::empty();
    hand.set_bishop(1);
    assert_eq!(shogi_hand1024_single_bucket(hand), 8);
    hand = Hand::empty();
    hand.set_rook(1);
    assert_eq!(shogi_hand1024_single_bucket(hand), 16);
    assert_eq!(shogi_hand1024_single_bucket(full_hand()), 31);
}

#[test]
fn test_shogi_sfnn_layerstack_bucket_counts() {
    type K = ShogiSfnnLayerStackBucketKind;
    assert_eq!(K::Single().num_stacks(), 1);
    assert_eq!(K::KingRank9().num_stacks(), 9);
    assert_eq!(K::KingRank81().num_stacks(), 81);
    assert_eq!(K::King9ZoneByKing9Zone().num_stacks(), 81);
    assert_eq!(K::King13ZoneByKing13Zone().num_stacks(), 169);
    assert_eq!(K::King21ByKing21().num_stacks(), 441);
    assert_eq!(K::King29ByKing29().num_stacks(), 841);
    assert_eq!(K::Hand4().num_stacks(), 4);
    assert_eq!(K::Hand16().num_stacks(), 16);
    assert_eq!(K::Hand64().num_stacks(), 64);
    assert_eq!(K::Hand64z().num_stacks(), 64);
    assert_eq!(K::Hand64KingRank9().num_stacks(), 576);
    assert_eq!(K::Hand64KingRank81().num_stacks(), 5184);
    assert_eq!(K::Hand64King21ByKing21().num_stacks(), 28224);
    assert_eq!(K::Hand64King29ByKing29().num_stacks(), 53824);
    assert_eq!(K::Hand256().num_stacks(), 256);
    assert_eq!(K::Hand256KingRank9().num_stacks(), 2304);
    assert_eq!(K::Hand256KingRank81().num_stacks(), 20736);
    assert_eq!(K::Hand256King21ByKing21().num_stacks(), 112896);
    assert_eq!(K::Hand256King29ByKing29().num_stacks(), 215296);
    assert_eq!(K::Hand1024().num_stacks(), 1024);
    assert_eq!(K::Hand1024KingRank9().num_stacks(), 9216);
    assert_eq!(K::Hand1024KingRank81().num_stacks(), 82944);
    assert_eq!(K::Hand1024King21ByKing21().num_stacks(), 451584);
    assert_eq!(K::Hand1024King29ByKing29().num_stacks(), 861184);
    assert_eq!(
        K::new(ShogiSfnnHandBucketKind::NoAxis, ShogiSfnnKingBucketKind::NoAxis, ShogiSfnnProgressBucketKind::Progress8)
            .num_stacks(),
        8
    );
    assert_eq!(
        K::new(
            ShogiSfnnHandBucketKind::Hand256,
            ShogiSfnnKingBucketKind::KingRank9,
            ShogiSfnnProgressBucketKind::Progress16,
        )
        .num_stacks(),
        256 * 9 * 16
    );
    let state = ShogiSfnnProgressState::new();
    let startpos_like = psv_with_kings(Color::Black, Square::new(4, 8), Square::new(4, 0));
    assert_eq!(ShogiSfnnLayerStackBucket::default().bucket(&startpos_like, &state), 8);
    assert_eq!(ShogiSfnnLayerStackBucket::new(K::Single()).bucket(&startpos_like, &state), 0);
    assert_eq!(ShogiSfnnLayerStackBucket::new(K::KingRank81()).bucket(&startpos_like, &state), 80);
    assert_eq!(ShogiSfnnLayerStackBucket::new(K::King9ZoneByKing9Zone()).bucket(&startpos_like, &state), 70);
    assert_eq!(ShogiSfnnLayerStackBucket::new(K::King13ZoneByKing13Zone()).bucket(&startpos_like, &state), 154);
    assert_eq!(ShogiSfnnLayerStackBucket::new(K::King29ByKing29()).bucket(&startpos_like, &state), 720);
    assert_eq!(ShogiSfnnLayerStackBucket::new(K::King21ByKing21()).bucket(&startpos_like, &state), 352);
    assert_eq!(shogi_sfnn_progress_0_to_255_from_sum_q16(0), 128);
    assert_eq!(shogi_sfnn_progress_bucket_from_value(0, 8), 0);
    assert_eq!(shogi_sfnn_progress_bucket_from_value(128, 8), 4);
    assert_eq!(shogi_sfnn_progress_bucket_from_value(255, 8), 7);
    assert_eq!(shogi_sfnn_progress_bucket_from_value(255, 32), 31);
}

#[test]
fn test_shogi_sfnn_progress_material_heuristic_shape() {
    let params = ShogiSfnnProgressQ16Params::material_heuristic();
    assert_eq!(params.weights_q16.len(), SHOGI_SFNN_PROGRESS_WEIGHT_COUNT);
    assert!(params.bias_q16 < 0);
    assert!(params.weights_q16.iter().any(|&w| w > 0));
}

#[test]
fn test_shogi_sfnn_progress_material_heuristic_fast_sum_matches_weight_sum() {
    let params = ShogiSfnnProgressQ16Params::material_heuristic();
    let mut board = ShogiBoard { black_king_sq: Square::new(4, 8), white_king_sq: Square::new(4, 0), ..Default::default() };
    board.board[Square::new(2, 3).index()] = Piece::new(Color::Black, PieceType::Horse);
    board.board[Square::new(6, 5).index()] = Piece::new(Color::White, PieceType::Dragon);
    board.black_hand.set_pawn(3);
    board.black_hand.set_bishop(1);
    board.white_hand.set_lance(2);
    board.white_hand.set_rook(1);
    let generic = shogi_sfnn_progress_sum_q16_from_board(&board, &params);
    let fast = shogi_sfnn_material_heuristic_sum_q16_from_board(&board);
    assert_eq!(fast, generic);
}

#[test]
fn test_shogi_king9_by_king9_bucket_formula() {
    let pos = psv_with_kings(Color::Black, Square::new(4, 2), Square::new(4, 7));
    assert_eq!(ShogiKingRankBucket::<81>.bucket(&pos), 2 * 9 + 1);
    assert_eq!(ShogiKingRankBucket::<9>.bucket(&pos), 0);
    let pos = psv_with_kings(Color::White, Square::new(4, 2), Square::new(4, 7));
    assert_eq!(ShogiKingRankBucket::<81>.bucket(&pos), 1 * 9 + 2);
    assert_eq!(ShogiKingRankBucket::<9>.bucket(&pos), 0);
    let startpos_like = psv_with_kings(Color::Black, Square::new(4, 8), Square::new(4, 0));
    assert_eq!(ShogiKingRankBucket::<81>.bucket(&startpos_like), 80);
    assert_eq!(ShogiKingRankBucket::<9>.bucket(&startpos_like), 8);
}

#[test]
fn test_shogi_king9_zone_by_king9_zone_bucket_formula() {
    assert_eq!(shogi_king9_zone_single_bucket(Square::new(0, 0)), 0);
    assert_eq!(shogi_king9_zone_single_bucket(Square::new(8, 2)), 0);
    assert_eq!(shogi_king9_zone_single_bucket(Square::new(0, 3)), 1);
    assert_eq!(shogi_king9_zone_single_bucket(Square::new(8, 5)), 1);
    assert_eq!(shogi_king9_zone_single_bucket(Square::new(0, 6)), 2);
    assert_eq!(shogi_king9_zone_single_bucket(Square::new(0, 7)), 3);
    assert_eq!(shogi_king9_zone_single_bucket(Square::new(8, 7)), 5);
    assert_eq!(shogi_king9_zone_single_bucket(Square::new(0, 8)), 6);
    assert_eq!(shogi_king9_zone_single_bucket(Square::new(8, 8)), 8);
    let startpos_like = psv_with_kings(Color::Black, Square::new(4, 8), Square::new(4, 0));
    assert_eq!(ShogiKing9ZoneByKing9ZoneBucket::bucket_index(&startpos_like), 7 * 9 + 7);
    let startpos_like_white = psv_with_kings(Color::White, Square::new(4, 8), Square::new(4, 0));
    assert_eq!(ShogiKing9ZoneByKing9ZoneBucket::bucket_index(&startpos_like_white), 7 * 9 + 7);
}

#[test]
fn test_shogi_king13_zone_by_king13_zone_bucket_formula() {
    assert_eq!(shogi_king13_zone_single_bucket(Square::new(0, 0)), 0);
    assert_eq!(shogi_king13_zone_single_bucket(Square::new(8, 6)), 6);
    assert_eq!(shogi_king13_zone_single_bucket(Square::new(0, 7)), 7);
    assert_eq!(shogi_king13_zone_single_bucket(Square::new(8, 7)), 9);
    assert_eq!(shogi_king13_zone_single_bucket(Square::new(0, 8)), 10);
    assert_eq!(shogi_king13_zone_single_bucket(Square::new(8, 8)), 12);
    let startpos_like = psv_with_kings(Color::Black, Square::new(4, 8), Square::new(4, 0));
    assert_eq!(ShogiKing13ZoneByKing13ZoneBucket::bucket_index(&startpos_like), 11 * 13 + 11);
    let startpos_like_white = psv_with_kings(Color::White, Square::new(4, 8), Square::new(4, 0));
    assert_eq!(ShogiKing13ZoneByKing13ZoneBucket::bucket_index(&startpos_like_white), 11 * 13 + 11);
}

#[test]
fn test_shogi_king29_by_king29_bucket_formula() {
    assert_eq!(shogi_king29_single_bucket(Square::new(0, 0)), 0);
    assert_eq!(shogi_king29_single_bucket(Square::new(8, 2)), 0);
    assert_eq!(shogi_king29_single_bucket(Square::new(0, 3)), 1);
    assert_eq!(shogi_king29_single_bucket(Square::new(8, 5)), 1);
    assert_eq!(shogi_king29_single_bucket(Square::new(0, 6)), 2);
    assert_eq!(shogi_king29_single_bucket(Square::new(8, 6)), 10);
    assert_eq!(shogi_king29_single_bucket(Square::new(0, 7)), 11);
    assert_eq!(shogi_king29_single_bucket(Square::new(8, 8)), 28);
    let startpos_like = psv_with_kings(Color::Black, Square::new(4, 8), Square::new(4, 0));
    assert_eq!(ShogiKing29ByKing29Bucket::bucket_index(&startpos_like), 24 * 29 + 24);
    let startpos_like_white = psv_with_kings(Color::White, Square::new(4, 8), Square::new(4, 0));
    assert_eq!(ShogiKing29ByKing29Bucket::bucket_index(&startpos_like_white), 24 * 29 + 24);
    let pos = psv_with_kings(Color::Black, Square::new(0, 6), Square::new(8, 2));
    assert_eq!(
        ShogiKing29ByKing29Bucket::bucket_index(&pos),
        shogi_king29_single_bucket(Square::new(0, 6)) * 29 + shogi_king29_single_bucket(Square::new(0, 6))
    );
}

#[test]
fn test_shogi_king21_by_king21_bucket_formula() {
    assert_eq!(shogi_king21_single_bucket(Square::new(0, 0)), 0);
    assert_eq!(shogi_king21_single_bucket(Square::new(8, 2)), 0);
    assert_eq!(shogi_king21_single_bucket(Square::new(0, 3)), 1);
    assert_eq!(shogi_king21_single_bucket(Square::new(8, 5)), 1);
    assert_eq!(shogi_king21_single_bucket(Square::new(0, 6)), 2);
    assert_eq!(shogi_king21_single_bucket(Square::new(0, 7)), 3);
    assert_eq!(shogi_king21_single_bucket(Square::new(8, 7)), 11);
    assert_eq!(shogi_king21_single_bucket(Square::new(0, 8)), 12);
    assert_eq!(shogi_king21_single_bucket(Square::new(8, 8)), 20);
    let startpos_like = psv_with_kings(Color::Black, Square::new(4, 8), Square::new(4, 0));
    assert_eq!(ShogiKing21ByKing21Bucket::bucket_index(&startpos_like), 16 * 21 + 16);
    let startpos_like_white = psv_with_kings(Color::White, Square::new(4, 8), Square::new(4, 0));
    assert_eq!(ShogiKing21ByKing21Bucket::bucket_index(&startpos_like_white), 16 * 21 + 16);
    let pos = psv_with_kings(Color::Black, Square::new(0, 7), Square::new(8, 1));
    assert_eq!(
        ShogiKing21ByKing21Bucket::bucket_index(&pos),
        shogi_king21_single_bucket(Square::new(0, 7)) * 21 + shogi_king21_single_bucket(Square::new(0, 7))
    );
}

#[test]
fn test_shogi_hand64_king9_by_king9_bucket_formula() {
    let pos = psv_with_kings(Color::Black, Square::new(4, 2), Square::new(4, 7));
    assert_eq!(
        ShogiHand64KingRank81Bucket::bucket_index(&pos),
        ShogiHand64Bucket::bucket_index(&pos) * 81 + ShogiKingRankBucket::<81>.bucket(&pos)
    );
    let startpos_like = psv_with_kings(Color::Black, Square::new(4, 8), Square::new(4, 0));
    assert_eq!(
        ShogiHand64KingRank81Bucket::bucket_index(&startpos_like),
        ShogiHand64Bucket::bucket_index(&startpos_like) * 81 + 80
    );
}

#[test]
fn test_shogi_hand256_and_hand1024_king_bucket_formulas() {
    let pos = psv_with_kings(Color::White, Square::new(4, 1), Square::new(4, 8));
    assert_eq!(
        ShogiHand256KingRankBucket::bucket_index(&pos),
        ShogiHand256Bucket::bucket_index(&pos) * 9 + ShogiKingRankBucket::<9>.bucket(&pos)
    );
    assert_eq!(
        ShogiHand256KingRank81Bucket::bucket_index(&pos),
        ShogiHand256Bucket::bucket_index(&pos) * 81 + ShogiKingRankBucket::<81>.bucket(&pos)
    );
    assert_eq!(
        ShogiHand1024KingRankBucket::bucket_index(&pos),
        ShogiHand1024Bucket::bucket_index(&pos) * 9 + ShogiKingRankBucket::<9>.bucket(&pos)
    );
    assert_eq!(
        ShogiHand1024KingRank81Bucket::bucket_index(&pos),
        ShogiHand1024Bucket::bucket_index(&pos) * 81 + ShogiKingRankBucket::<81>.bucket(&pos)
    );
}

#[test]
fn test_shogi_hand_king29_bucket_formulas() {
    let pos = psv_with_kings(Color::White, Square::new(2, 6), Square::new(6, 0));
    assert_eq!(
        ShogiHand64King21ByKing21Bucket::bucket_index(&pos),
        ShogiHand64Bucket::bucket_index(&pos) * 441 + ShogiKing21ByKing21Bucket::bucket_index(&pos)
    );
    assert_eq!(
        ShogiHand256King21ByKing21Bucket::bucket_index(&pos),
        ShogiHand256Bucket::bucket_index(&pos) * 441 + ShogiKing21ByKing21Bucket::bucket_index(&pos)
    );
    assert_eq!(
        ShogiHand1024King21ByKing21Bucket::bucket_index(&pos),
        ShogiHand1024Bucket::bucket_index(&pos) * 441 + ShogiKing21ByKing21Bucket::bucket_index(&pos)
    );
    assert_eq!(
        ShogiHand64King29ByKing29Bucket::bucket_index(&pos),
        ShogiHand64Bucket::bucket_index(&pos) * 841 + ShogiKing29ByKing29Bucket::bucket_index(&pos)
    );
    assert_eq!(
        ShogiHand256King29ByKing29Bucket::bucket_index(&pos),
        ShogiHand256Bucket::bucket_index(&pos) * 841 + ShogiKing29ByKing29Bucket::bucket_index(&pos)
    );
    assert_eq!(
        ShogiHand1024King29ByKing29Bucket::bucket_index(&pos),
        ShogiHand1024Bucket::bucket_index(&pos) * 841 + ShogiKing29ByKing29Bucket::bucket_index(&pos)
    );
}

#[test]
fn test_shogi_ply_bucket9_default_bounds() {
    let bucket = ShogiPlyBucket9::default();
    assert_eq!(bucket.bucket(&psv_with_ply(0)), 0);
    assert_eq!(bucket.bucket(&psv_with_ply(30)), 0);
    assert_eq!(bucket.bucket(&psv_with_ply(31)), 1);
    assert_eq!(bucket.bucket(&psv_with_ply(138)), 7);
    assert_eq!(bucket.bucket(&psv_with_ply(139)), 8);
    assert_eq!(bucket.bucket(&psv_with_ply(400)), 8);
}

#[test]
fn progress_params_new_rejects_wrong_length() {
    assert!(ShogiSfnnProgressQ16Params::new(0, vec![0; 3]).is_err());
    let ok = ShogiSfnnProgressQ16Params::new(-5, vec![0; SHOGI_SFNN_PROGRESS_WEIGHT_COUNT]).unwrap();
    assert_eq!(ok.bias_q16, -5);
}

#[test]
fn progress_value_extremes() {
    assert_eq!(shogi_sfnn_progress_0_to_255_from_sum_q16(i64::MIN / 4), 0);
    assert_eq!(shogi_sfnn_progress_0_to_255_from_sum_q16(i64::MAX / 4), 255);
}

#[test]
fn layer_stack_bucket_stays_below_stack_count() {
    type K = ShogiSfnnLayerStackBucketKind;
    let state = ShogiSfnnProgressState::new();
    let pos = psv_with_kings(Color::White, Square::new(2, 6), Square::new(6, 0));
    for kind in [K::Hand1024King29ByKing29(), K::Hand64z(), K::KingRank9(), K::Hand256King21ByKing21()] {
        assert!(kind.bucket(&pos, &state) < kind.num_stacks());
    }
}

#[test]
fn hand_buckets_accept_every_record() {
    for fill in [0x00u8, 0xff, 0xaa, 0x55, 0x92, 0x49] {
        let mut data = [fill; 40];
        data[0] = fill & 0xfe;
        let pos = PackedSfenValue { data };
        let b = pos.decode();
        let held: u32 = (0..7).map(|i| b.black_hand.counts[i] as u32 + b.white_hand.counts[i] as u32).sum();
        assert!(held <= 121);
        assert!(ShogiHand64Bucket::bucket_index(&pos) < 64);
        assert!(ShogiHand256Bucket::bucket_index(&pos) < 256);
        assert!(ShogiHand1024Bucket::bucket_index(&pos) < 1024);
        assert_eq!(ShogiSfnnHandBucketKind::Hand64.bucket(&pos), ShogiHand64Bucket::bucket_index(&pos));
    }
}

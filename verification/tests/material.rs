use bulletformat::ChessBoard;
use bulletou::outputs::material::MaterialCount;

#[test]
fn occupancy_bucket_by_piece_count() {
    // 8 buckets: 4 piece counts per bucket, kings excluded.
    assert_eq!(MaterialCount::<8>::bucket_of_occupancy(0b11), Some(0));
    assert_eq!(MaterialCount::<8>::bucket_of_occupancy((1u64 << 18) - 1), Some(4));
    assert_eq!(MaterialCount::<8>::bucket_of_occupancy(u64::MAX >> 32), Some(7));
    assert_eq!(MaterialCount::<1>::bucket_of_occupancy(u64::MAX >> 30), Some(1));
}

#[test]
fn occupancy_bucket_refuses_too_few() {
    assert_eq!(MaterialCount::<8>::bucket_of_occupancy(1), None);
    assert_eq!(MaterialCount::<0>::bucket_of_occupancy(0xff), None);
}

#[test]
fn chess_board_bucket_reads_its_occupancy() {
    let pos = ChessBoard { occ: 0x00ff_0000_0000_ff00 | 0b11, ..Default::default() };
    // 18 pieces: (18 - 2) / 4 = 4.
    assert_eq!(MaterialCount::<8>.bucket_of_chess_board(&pos), Some(4));
}

use bulletou::interleave::{InterleaveMode, Rand, parse_interleave_mode, pick_weighted_index, FALLBACK_SEED};
use bulletou::loader::hcpe::{HCPE_RECORD_SIZE, HcpeDataLoader, decode_hcpe_record};
use bulletou::loader::pack::{MiniPosition, RawGameData, game_replayable};
use bulletou::teacher_path::{DataFormat, infer_data_format};
use bulletou::validate::{SeededXorShift, sample_record_indices};

#[test]
fn infer_format_uniform_ok() {
    assert_eq!(infer_data_format(&["a.hcpe", "b.hcpe"]).unwrap(), DataFormat::Hcpe);
    assert_eq!(infer_data_format(&["a.pack"]).unwrap(), DataFormat::Pack);
    assert_eq!(infer_data_format(&["a.psv"]).unwrap(), DataFormat::Psv);
    assert_eq!(infer_data_format(&["a.HCPE3"]).unwrap(), DataFormat::Hcpe3);
}

#[test]
fn infer_format_mixed_errors() {
    let err = infer_data_format(&["a.hcpe", "b.pack"]).unwrap_err();
    assert!(err.contains("mixed"));
}

#[test]
fn infer_format_unknown_ext_errors() {
    let err = infer_data_format(&["a.txt"]).unwrap_err();
    assert!(err.contains("cannot infer"));
}

#[test]
fn infer_format_exact_messages() {
    assert_eq!(infer_data_format(&[]).unwrap_err(), "no data files provided");
    assert_eq!(
        infer_data_format(&["a.hcpe", "b.pack"]).unwrap_err(),
        "mixed data formats: b.pack is Pack but previous file(s) were Hcpe"
    );
    assert_eq!(
        infer_data_format(&["noext"]).unwrap_err(),
        "cannot infer data format from path: noext\n  expected file extension: .hcpe / .hcpe3 / .pack / .psv"
    );
}

#[test]
fn hcpe_record_size_is_38() {
    assert_eq!(HCPE_RECORD_SIZE, 38);
}

#[test]
fn decode_invalid_record_returns_none() {
    let rec = [0u8; HCPE_RECORD_SIZE];
    let _ = decode_hcpe_record(&rec);
}

#[test]
fn hcpe_positions_counted_from_file_sizes() {
    assert_eq!(HcpeDataLoader::<u8>::count_positions_from_sizes(&[38 * 3, 38 * 2 + 5]), 5);
}

#[test]
fn weighted_picker_uses_correct_boundaries() {
    let weights = [1usize, 1usize];
    assert_eq!(pick_weighted_index(&weights, 0), 0);
    assert_eq!(pick_weighted_index(&weights, 1), 1);
}

#[test]
fn weighted_picker_skips_zero_weights() {
    let weights = [0usize, 3, 0, 2];
    assert_eq!(pick_weighted_index(&weights, 0), 1);
    assert_eq!(pick_weighted_index(&weights, 2), 1);
    assert_eq!(pick_weighted_index(&weights, 3), 3);
    assert_eq!(pick_weighted_index(&weights, 4), 3);
}

#[test]
fn interleave_mode_parsing() {
    assert_eq!(parse_interleave_mode("record"), Ok(InterleaveMode::Record));
    assert_eq!(parse_interleave_mode("block"), Ok(InterleaveMode::Block));
    assert_eq!(parse_interleave_mode("concat"), Ok(InterleaveMode::Concat));
    assert!(parse_interleave_mode("zigzag").is_err());
}

#[test]
fn rand_zero_seed_uses_fallback() {
    assert_eq!(Rand::with_seed(0).state, FALLBACK_SEED);
    let mut r = Rand::with_seed(1);
    // 1 ^ 1<<13 = 8193; ^ >>7 = 8193 ^ 64 = 8257; ^ <<17 = 8257 ^ 1082261504
    assert_eq!(r.rand(), 1082269761);
}

#[test]
fn seeded_rng_is_reproducible() {
    let mut a = SeededXorShift::from_seed(12345);
    let mut b = SeededXorShift::from_seed(12345);
    for _ in 0..20 {
        assert_eq!(a.next_u64(), b.next_u64());
    }
}

#[test]
fn sampled_indices_are_sorted_distinct_and_in_range() {
    let all = sample_record_indices(5, 10, 7);
    assert_eq!(all, vec![0, 1, 2, 3, 4]);
    let some = sample_record_indices(1000, 10, 7);
    assert_eq!(some.len(), 10);
    assert!(some.windows(2).all(|w| w[0] < w[1]));
    assert!(some.iter().all(|&i| i < 1000));
    assert_eq!(some, sample_record_indices(1000, 10, 7));
}

#[test]
fn hirate_is_black_to_move_at_ply_one() {
    let pos = MiniPosition::hirate();
    assert_eq!(pos.game_ply, 1);
}

#[test]
fn derived_seeds_are_fixed_and_nonzero() {
    assert_eq!(Rand::derive_seed(1, 2), 13757245211066428519);
    // seed 0, stream 0 mixes to zero, which is replaced.
    assert_eq!(Rand::derive_seed(0, 0), FALLBACK_SEED);
}

#[test]
fn pack_game_replayability() {
    let ok = RawGameData { start_pos: MiniPosition::hirate(), moves: vec![(59 | (60 << 7), 0)], pack_game_result: 0 };
    assert!(game_replayable(&ok));
    let bad = RawGameData { start_pos: MiniPosition::hirate(), moves: vec![(0x7F, 0)], pack_game_result: 0 };
    assert!(!game_replayable(&bad));
}

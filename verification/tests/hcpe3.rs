use bulletou::loader::hcpe3::{
    HEADER_SIZE, Hcpe3DataLoader, Hcpe3Read, expand_hcpe3_game, hcpe3_game_replayable, read_hcpe3_game,
};

fn header(move_num: u16, result: u8) -> Vec<u8> {
    let mut v = vec![0u8; 32];
    v.extend_from_slice(&move_num.to_le_bytes());
    v.push(result);
    v.push(0);
    v
}

fn move_info(m: u16, eval: i16, cands: u16) -> Vec<u8> {
    let mut v = Vec::new();
    v.extend_from_slice(&m.to_le_bytes());
    v.extend_from_slice(&eval.to_le_bytes());
    v.extend_from_slice(&cands.to_le_bytes());
    v.extend(std::iter::repeat(0xAAu8).take(4 * cands as usize));
    v
}

#[test]
fn hcpe3_reads_header_moves_and_skips_candidates() {
    let mut bytes = header(2, 0b110);
    bytes.extend(move_info(59 | (60 << 7), 30, 2));
    bytes.extend(move_info(40 | (41 << 7), -7, 0));
    let total = bytes.len();
    bytes.extend(header(0, 1));
    match read_hcpe3_game(&bytes, 0) {
        Hcpe3Read::Game(g, next) => {
            assert_eq!(next, total);
            assert_eq!(g.move_num, 2);
            assert_eq!(g.result_bits, 2);
            assert_eq!(g.moves, vec![(59 | (60 << 7), 30), (40 | (41 << 7), -7)]);
            assert!(hcpe3_game_replayable(&g));
            let recs = expand_hcpe3_game(&g);
            assert!(recs.is_empty() || recs.len() == 2);
        }
        _ => panic!("expected a game"),
    }
    match read_hcpe3_game(&bytes, total) {
        Hcpe3Read::Game(g, next) => {
            assert_eq!(next, bytes.len());
            assert!(g.moves.is_empty());
            assert_eq!(g.result_bits, 1);
        }
        _ => panic!("expected an empty game"),
    }
    assert!(matches!(read_hcpe3_game(&bytes, bytes.len()), Hcpe3Read::End));
}

#[test]
fn hcpe3_short_header_is_end() {
    let bytes = vec![0u8; HEADER_SIZE - 1];
    assert!(matches!(read_hcpe3_game(&bytes, 0), Hcpe3Read::End));
}

#[test]
fn hcpe3_cut_move_record_ends_the_file() {
    let mut bytes = header(3, 0);
    bytes.extend(move_info(1, 5, 0));
    bytes.extend_from_slice(&[1, 2, 3]);
    match read_hcpe3_game(&bytes, 0) {
        Hcpe3Read::Game(g, next) => {
            assert_eq!(next, bytes.len());
            assert_eq!(g.moves.len(), 1);
        }
        _ => panic!("expected a cut game"),
    }
}

#[test]
fn hcpe3_cut_candidates_are_broken() {
    let mut bytes = header(1, 0);
    bytes.extend(move_info(1, 5, 3));
    bytes.truncate(bytes.len() - 1);
    assert!(matches!(read_hcpe3_game(&bytes, 0), Hcpe3Read::Broken));
}

#[test]
fn hcpe3_replayability_ignores_the_last_move() {
    let mut bytes = header(2, 0);
    bytes.extend(move_info(0x7F, 0, 0));
    bytes.extend(move_info(0x7F, 0, 0));
    match read_hcpe3_game(&bytes, 0) {
        Hcpe3Read::Game(g, _) => assert!(!hcpe3_game_replayable(&g)),
        _ => panic!(),
    }
    let mut bytes = header(1, 0);
    bytes.extend(move_info(0x7F, 0, 0));
    match read_hcpe3_game(&bytes, 0) {
        Hcpe3Read::Game(g, _) => assert!(hcpe3_game_replayable(&g)),
        _ => panic!(),
    }
}

#[test]
fn hcpe3_loader_keeps_paths_and_buffer() {
    let l = Hcpe3DataLoader::new_concat_multiple(&["a.hcpe3", "b.hcpe3"], 1, 0u8);
    assert_eq!(l.file_paths, vec!["a.hcpe3".to_string(), "b.hcpe3".to_string()]);
    assert_eq!(l.buffer_size, 1048576 / 40);
    assert_eq!(l.count_positions(), None);
}

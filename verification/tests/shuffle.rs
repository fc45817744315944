use bulletou::interleave::Rand;
use bulletou::loader::shuffle::{RecordChunker, shuffle, shuffle_from_one};
use bulletou::shogi::packed_sfen::PackedSfenValue;

fn records(n: u8) -> Vec<PackedSfenValue> {
    (0..n)
        .map(|k| {
            let mut data = [0u8; 40];
            data[0] = k;
            PackedSfenValue { data }
        })
        .collect()
}

fn tags(v: &[PackedSfenValue]) -> Vec<u8> {
    v.iter().map(|p| p.data[0]).collect()
}

#[test]
fn shuffle_follows_the_generator() {
    let mut rng = Rand::with_seed(12345);
    let mut v = records(6);
    shuffle(&mut v, &mut rng);
    assert_eq!(tags(&v), vec![5, 4, 0, 1, 2, 3]);
    assert_eq!(rng.state, 17929983844738297539);
}

#[test]
fn shuffle_from_one_skips_the_last_draw() {
    let mut rng = Rand::with_seed(12345);
    let mut v = records(6);
    shuffle_from_one(&mut v, &mut rng);
    assert_eq!(tags(&v), vec![5, 4, 0, 1, 2, 3]);
    assert_eq!(rng.state, 8896562790888756974);
}

#[test]
fn shuffle_keeps_every_record() {
    let mut rng = Rand::with_seed(0);
    let mut v = records(40);
    shuffle(&mut v, &mut rng);
    let mut t = tags(&v);
    t.sort();
    assert_eq!(t, (0..40).collect::<Vec<u8>>());
}

#[test]
fn shuffle_of_nothing_draws_nothing() {
    let mut rng = Rand::with_seed(7);
    let mut v: Vec<PackedSfenValue> = Vec::new();
    shuffle(&mut v, &mut rng);
    assert!(v.is_empty());
    assert_eq!(rng.state, 7);
    let mut one = records(1);
    shuffle_from_one(&mut one, &mut rng);
    assert_eq!(rng.state, 7);
}

#[test]
fn chunker_skips_then_hands_out_full_buffers() {
    let recs = records(8);
    let mut c = RecordChunker::new(2, 3, 1, Rand::with_seed(5));
    let mut chunks: Vec<Vec<u8>> = Vec::new();
    for (k, r) in recs.iter().enumerate() {
        // Record 4 fails the filter.
        if c.accept(*r, k != 4) {
            chunks.push(tags(&c.buffer));
            c.clear();
        }
    }
    assert_eq!(c.skipped, 2);
    assert_eq!(chunks.len(), 1);
    let mut first = chunks[0].clone();
    first.sort();
    assert_eq!(first, vec![2, 3, 5]);
    assert!(c.finish());
    let mut rest = tags(&c.buffer);
    rest.sort();
    assert_eq!(rest, vec![6, 7]);
    c.clear();
    assert!(!c.finish());
}

#[test]
fn chunker_shuffles_down_to_its_position() {
    let mut a = RecordChunker::new(0, 6, 0, Rand::with_seed(12345));
    let mut flushed = false;
    for r in records(6) {
        flushed = a.accept(r, true);
    }
    assert!(flushed);
    assert_eq!(tags(&a.buffer), vec![5, 4, 0, 1, 2, 3]);
    assert_eq!(a.rng.state, 17929983844738297539);
    let mut b = RecordChunker::new(0, 6, 1, Rand::with_seed(12345));
    for r in records(6) {
        b.accept(r, true);
    }
    assert_eq!(b.rng.state, 8896562790888756974);
}

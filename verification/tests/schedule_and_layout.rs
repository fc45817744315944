use bulletou::interleave::{InterleaveSchedule, Rand};
use bulletou::loader::batch::{sparse_row_fits, sparse_rows};
use bulletou::teacher_path::DataFormat;
use bulletou::validate::{FixedTeacherFile, fixed_record_size, fixed_teacher_files, locate_records};
use bulletou::yaneuraou_kppt::{
    KK_TOTAL, KPP_TOTAL, KppFormat, WeightsError, kk_source_index, kkp_source_index, kpp_source_index,
    parse_model_weights_bin,
};

fn drain(mut s: InterleaveSchedule, inputs: usize) -> (Vec<usize>, Vec<(usize, usize)>) {
    let mut copied = vec![0usize; inputs];
    let mut steps = Vec::new();
    while let Some((input, n)) = s.next_copy() {
        copied[input] += n;
        steps.push((input, n));
    }
    assert_eq!(s.remaining, 0);
    (copied, steps)
}

#[test]
fn block_schedule_copies_every_record_once() {
    let counts = [5usize, 0, 3, 7];
    let s = InterleaveSchedule::new(&counts, 2, 42);
    assert_eq!(s.remaining, 15);
    let (copied, steps) = drain(s, counts.len());
    assert_eq!(copied, counts.to_vec());
    assert!(steps.iter().all(|&(_, n)| (1..=2).contains(&n)));
}

#[test]
fn record_schedule_is_reproducible() {
    let counts = [3usize, 3];
    let a = drain(InterleaveSchedule::new(&counts, 1, 7), 2).1;
    let b = drain(InterleaveSchedule::new(&counts, 1, 7), 2).1;
    assert_eq!(a, b);
    assert_eq!(a.len(), 6);
}

#[test]
fn first_schedule_step_follows_the_generator() {
    let counts = [1usize, 1];
    let mut s = InterleaveSchedule::new(&counts, 1, 1);
    let mut r = Rand::with_seed(1);
    let spot = r.rand() as usize % 2;
    assert_eq!(s.next_copy(), Some((spot, 1)));
}

#[test]
fn sparse_rows_pad_each_side_separately() {
    let feats = vec![(Some(3), Some(4)), (None, Some(9)), (Some(1), None)];
    assert!(sparse_row_fits(&feats, 10, 3));
    assert!(!sparse_row_fits(&feats, 9, 3));
    assert!(!sparse_row_fits(&feats, 10, 1));
    let (stm, nstm) = sparse_rows(&feats, 10, 3);
    assert_eq!(stm, vec![3, 1, -1]);
    assert_eq!(nstm, vec![4, 9, -1]);
}

#[test]
fn teacher_layout_counts_and_errors() {
    let paths = vec!["a.psv".to_string(), "b.psv".to_string()];
    let (files, total, size) = fixed_teacher_files(&paths, &[80, 120], DataFormat::Psv).unwrap();
    assert_eq!((total, size), (5, 40));
    assert_eq!((files[1].start_record, files[1].records), (2, 3));
    let err = fixed_teacher_files(&paths, &[80, 121], DataFormat::Psv).unwrap_err();
    assert_eq!(err, "b.psv: size 121 is not a multiple of PSV_RECORD_SIZE (40) \u{2014} not a valid Psv file?");
    assert_eq!(fixed_record_size(DataFormat::Hcpe), Some(38));
    assert_eq!(fixed_record_size(DataFormat::Pack), None);
}

#[test]
fn records_are_located_by_a_forward_walk() {
    let files = vec![
        FixedTeacherFile { path: "a".to_string(), start_record: 0, records: 2 },
        FixedTeacherFile { path: "b".to_string(), start_record: 2, records: 0 },
        FixedTeacherFile { path: "c".to_string(), start_record: 2, records: 3 },
    ];
    assert_eq!(locate_records(&files, 40, &[0, 1, 2, 4]).unwrap(), vec![(0, 0), (0, 40), (2, 0), (2, 80)]);
    assert_eq!(locate_records(&files, 40, &[3, 0]).unwrap_err(), "internal validation sampler index underflow for c");
}

#[test]
fn kppt_sources() {
    assert_eq!(kk_source_index(0, 80), 0);
    assert_eq!(kk_source_index(80, 0), KK_TOTAL - 1);
    assert_eq!(kkp_source_index(1, 80, 5), 81 * 1548 + 5);
    assert_eq!(kpp_source_index(2, 10, 3), kpp_source_index(2, 3, 10));
    assert_eq!(kpp_source_index(80, 1547, 1547), KPP_TOTAL - 1);
    assert_eq!(KppFormat::default(), KppFormat::Kppt);
    assert_eq!(KppFormat::KppKkpt.values_per_entry(), 1);
}

#[test]
fn weight_dump_round_trip() {
    let mut bytes = b"kkw\n".to_vec();
    bytes.extend_from_slice(&2usize.to_le_bytes());
    bytes.extend_from_slice(&1.5f32.to_le_bytes());
    bytes.extend_from_slice(&(-2.0f32).to_le_bytes());
    let ws = parse_model_weights_bin(&bytes).unwrap();
    assert_eq!(ws.len(), 1);
    assert_eq!(ws[0].0, b"kkw".to_vec());
    assert_eq!(ws[0].1, vec![1.5f32.to_bits(), (-2.0f32).to_bits()]);
}

#[test]
fn weight_dump_errors() {
    assert!(matches!(parse_model_weights_bin(b"abc"), Err(WeightsError::EofInId)));
    match parse_model_weights_bin(b"a\n\x01") {
        Err(WeightsError::EofInLength { id, offset, total }) => {
            assert_eq!((id, offset, total), (b"a".to_vec(), 2, 3));
        }
        _ => panic!(),
    }
    let mut bytes = b"a\n".to_vec();
    bytes.extend_from_slice(&3usize.to_le_bytes());
    bytes.extend_from_slice(&[0; 4]);
    match parse_model_weights_bin(&bytes) {
        Err(WeightsError::EofInValues { len, need, have, .. }) => assert_eq!((len, need, have), (3, 12, 4)),
        _ => panic!(),
    }
    assert_eq!(parse_model_weights_bin(&[]).unwrap().len(), 0);
}

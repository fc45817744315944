use bulletou::teacher_path::DataFormat;
use bulletou::validate::{SeededXorShift, sample_record_indices, seed_from_clock_reading, validation_teacher_format};

#[test]
fn validation_reads_bin_as_psv() {
    assert_eq!(validation_teacher_format(&["held_out.bin"]), Ok(DataFormat::Psv));
    assert_eq!(validation_teacher_format(&["a.BIN", "b.psv"]), Ok(DataFormat::Psv));
    assert_eq!(validation_teacher_format(&["a.hcpe"]), Ok(DataFormat::Hcpe));
}

#[test]
fn validation_refuses_variable_length_formats() {
    assert_eq!(
        validation_teacher_format(&["games.pack"]),
        Err("--test-teacher format Pack is variable-length; export it to .psv with export_teacher_psv first"
            .to_string())
    );
    assert_eq!(
        validation_teacher_format(&["a.bin", "b.hcpe"]),
        Err("mixed data formats: b.hcpe is Hcpe but previous file(s) were Psv".to_string())
    );
    assert!(validation_teacher_format(&[]).is_err());
}

#[test]
fn clock_seed_is_odd() {
    assert_eq!(seed_from_clock_reading(Some(4)), 5);
    assert_eq!(seed_from_clock_reading(Some(7)), 7);
    assert_eq!(seed_from_clock_reading(None), 0xDEADBEEFCAFEBABF);
    assert_eq!(SeededXorShift::from_seed(0).0 % 2, 1);
}

#[test]
fn clock_seeded_sample_is_a_sample() {
    let r = sample_record_indices(1000, 10, 0);
    assert_eq!(r.len(), 10);
    assert!(r.windows(2).all(|w| w[0] < w[1]));
    assert!(r.iter().all(|&i| i < 1000));
}

#[test]
fn validation_reads_bin_in_a_directory_as_psv() {
    assert_eq!(validation_teacher_format(&["/tmp/held/out.bin"]), Ok(DataFormat::Psv));
    assert_eq!(validation_teacher_format(&["data/a.psv", "data/b.bin"]), Ok(DataFormat::Psv));
}

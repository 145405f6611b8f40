use dicom_anonymizer::study_id::{study_id_from, StudyIdSource};

#[test]
fn study_id_zero_is_all_zeros() {
    assert_eq!(study_id_from(0), "0000000000000000");
}

#[test]
fn study_id_small_number_is_zero_padded() {
    assert_eq!(study_id_from(42), "0000000000000042");
}

#[test]
fn study_id_largest_number() {
    assert_eq!(study_id_from(99_999_999_999), "0000099999999999");
}

#[test]
fn study_id_mid_range() {
    assert_eq!(study_id_from(12_345_678_901), "0000012345678901");
}

#[test]
fn generated_study_id_shape() {
    let mut source = StudyIdSource::from_entropy();
    for _ in 0..32 {
        let id = source.next_study_id();
        assert_eq!(id.len(), 16);
        assert!(id.chars().all(|c| c.is_ascii_digit()));
        let value: u64 = id.parse().unwrap();
        assert!(value < 100_000_000_000);
    }
}

#[test]
fn seeded_source_is_reproducible() {
    let mut a = StudyIdSource::from_seed(7);
    let mut b = StudyIdSource::from_seed(7);
    for _ in 0..8 {
        assert_eq!(a.next_study_id(), b.next_study_id());
    }
}

#[test]
fn distinct_numbers_render_distinct_ids() {
    assert_ne!(study_id_from(1), study_id_from(2));
    assert_ne!(study_id_from(0), study_id_from(10_000_000_000));
}

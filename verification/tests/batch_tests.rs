use dicom_anonymizer::batch::Batch;
use dicom_anonymizer::pairing::plan_pairs;

#[test]
fn batch_walks_pairs_in_order() {
    let mut batch = Batch::new(plan_pairs("a.dcm,b.dcm", "a_out.dcm,b_out.dcm"));
    assert_eq!(batch.written_count(), 0);

    let first = batch.current().unwrap();
    assert_eq!(first.input, "a.dcm");
    assert_eq!(first.output, "a_out.dcm");
    batch.record_written();
    assert_eq!(batch.written_count(), 1);

    let second = batch.current().unwrap();
    assert_eq!(second.input, "b.dcm");
    assert_eq!(second.output, "b_out.dcm");
    batch.record_written();
    assert_eq!(batch.written_count(), 2);

    assert!(batch.current().is_none());
    assert!(!batch.is_halted());
}

#[test]
fn failure_halts_batch_and_keeps_prefix() {
    let mut batch = Batch::new(plan_pairs("a,b,c", "x,y,z"));
    batch.record_written();
    assert_eq!(batch.written_count(), 1);

    batch.record_failure();
    assert!(batch.is_halted());
    assert!(batch.current().is_none());
    assert_eq!(batch.written_count(), 1);
}

#[test]
fn empty_batch_has_no_current_pair() {
    let batch = Batch::new(Vec::new());
    assert!(batch.current().is_none());
}

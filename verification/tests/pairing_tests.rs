use dicom_anonymizer::pairing::{checked_pairs, pair_files, plan_pairs, split_paths};

#[test]
fn split_two_paths() {
    assert_eq!(split_paths("a.dcm,b.dcm"), vec!["a.dcm", "b.dcm"]);
}

#[test]
fn split_single_path() {
    assert_eq!(split_paths("scan.dcm"), vec!["scan.dcm"]);
}

#[test]
fn split_empty_string_is_one_empty_piece() {
    assert_eq!(split_paths(""), vec![""]);
}

#[test]
fn split_keeps_empty_pieces() {
    assert_eq!(split_paths("a,,b,"), vec!["a", "", "b", ""]);
}

#[test]
fn plan_pairs_in_listed_order() {
    let pairs = plan_pairs("a.dcm,b.dcm", "a_out.dcm,b_out.dcm");
    assert_eq!(pairs.len(), 2);
    assert_eq!(pairs[0].input, "a.dcm");
    assert_eq!(pairs[0].output, "a_out.dcm");
    assert_eq!(pairs[1].input, "b.dcm");
    assert_eq!(pairs[1].output, "b_out.dcm");
}

#[test]
fn plan_pairs_drops_longer_tail() {
    let pairs = plan_pairs("a,b,c", "x");
    assert_eq!(pairs.len(), 1);
    assert_eq!(pairs[0].input, "a");
    assert_eq!(pairs[0].output, "x");

    let pairs = plan_pairs("a", "x,y,z");
    assert_eq!(pairs.len(), 1);
    assert_eq!(pairs[0].input, "a");
    assert_eq!(pairs[0].output, "x");
}

#[test]
fn pair_files_zips_positionally() {
    let inputs = vec!["i0".to_owned(), "i1".to_owned()];
    let outputs = vec!["o0".to_owned(), "o1".to_owned(), "o2".to_owned()];
    let pairs = pair_files(&inputs, &outputs);
    assert_eq!(pairs.len(), 2);
    assert_eq!(pairs[1].input, "i1");
    assert_eq!(pairs[1].output, "o1");
}

#[test]
fn checked_pairs_rejects_unequal_lists() {
    let err = checked_pairs("a,b", "x").unwrap_err();
    assert_eq!(err.inputs, 2);
    assert_eq!(err.outputs, 1);
}

#[test]
fn checked_pairs_accepts_equal_lists() {
    let pairs = checked_pairs("a,b", "x,y").unwrap();
    assert_eq!(pairs.len(), 2);
    assert_eq!(pairs[0].input, "a");
    assert_eq!(pairs[1].output, "y");
}

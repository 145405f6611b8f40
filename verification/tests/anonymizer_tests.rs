use dicom::object::InMemDicomObject;
use dicom_anonymizer::anonymizer::{anonymize_object, anonymize_object_with, MissingAttributeError};
use dicom_anonymizer::study_id::StudyIdSource;
use dicom_core::header::{DataElement, Tag, VR};

fn sample_object() -> InMemDicomObject {
    let mut obj = InMemDicomObject::new_empty();
    obj.put(DataElement::new(Tag(0x0010, 0x0010), VR::PN, "Doe^John"));
    obj.put(DataElement::new(Tag(0x0010, 0x0020), VR::LO, "PAT123"));
    obj.put(DataElement::new(Tag(0x0010, 0x0030), VR::DA, "19700101"));
    obj.put(DataElement::new(Tag(0x0020, 0x0010), VR::SH, "STUDY1"));
    obj.put(DataElement::new(Tag(0x0008, 0x0080), VR::LO, "General Hospital"));
    obj.put(DataElement::new(Tag(0x0008, 0x0060), VR::CS, "CT"));
    obj
}

fn text_at(obj: &InMemDicomObject, group: u16, element: u16) -> String {
    obj.element(Tag(group, element)).unwrap().to_str().unwrap().into_owned()
}

#[test]
fn five_attributes_replaced() {
    let mut obj = sample_object();
    anonymize_object(&mut obj, 1234).unwrap();
    assert_eq!(text_at(&obj, 0x0010, 0x0010), "puripuri^2100");
    assert_eq!(text_at(&obj, 0x0010, 0x0020), "puripuri^2100");
    assert_eq!(text_at(&obj, 0x0010, 0x0030), "200000401");
    assert_eq!(text_at(&obj, 0x0020, 0x0010), "0000000000001234");
    assert_eq!(text_at(&obj, 0x0008, 0x0080), "FooBar Hospital");
}

#[test]
fn other_attributes_unchanged() {
    let mut obj = sample_object();
    anonymize_object(&mut obj, 5).unwrap();
    assert_eq!(text_at(&obj, 0x0008, 0x0060), "CT");
}

#[test]
fn changes_report_old_and_new_values() {
    let mut obj = sample_object();
    let changes = anonymize_object(&mut obj, 77).unwrap();
    assert_eq!(changes.len(), 5);
    assert_eq!((changes[0].group, changes[0].element), (0x0010, 0x0010));
    assert_eq!(changes[0].old_value, "Doe^John");
    assert_eq!(changes[0].new_value, "puripuri^2100");
    assert_eq!((changes[1].group, changes[1].element), (0x0010, 0x0020));
    assert_eq!(changes[1].old_value, "PAT123");
    assert_eq!(changes[1].new_value, "puripuri^2100");
    assert_eq!((changes[2].group, changes[2].element), (0x0010, 0x0030));
    assert_eq!(changes[2].old_value, "19700101");
    assert_eq!(changes[2].new_value, "200000401");
    assert_eq!((changes[3].group, changes[3].element), (0x0020, 0x0010));
    assert_eq!(changes[3].old_value, "STUDY1");
    assert_eq!(changes[3].new_value, "0000000000000077");
    assert_eq!((changes[4].group, changes[4].element), (0x0008, 0x0080));
    assert_eq!(changes[4].old_value, "General Hospital");
    assert_eq!(changes[4].new_value, "FooBar Hospital");
}

#[test]
fn missing_attribute_is_reported() {
    let mut no_birth_date = InMemDicomObject::new_empty();
    no_birth_date.put(DataElement::new(Tag(0x0010, 0x0010), VR::PN, "Doe^John"));
    no_birth_date.put(DataElement::new(Tag(0x0010, 0x0020), VR::LO, "PAT123"));
    no_birth_date.put(DataElement::new(Tag(0x0020, 0x0010), VR::SH, "STUDY1"));
    no_birth_date.put(DataElement::new(Tag(0x0008, 0x0080), VR::LO, "General Hospital"));
    no_birth_date.put(DataElement::new(Tag(0x0008, 0x0060), VR::CS, "CT"));
    let err = anonymize_object(&mut no_birth_date, 1).unwrap_err();
    assert_eq!(err, MissingAttributeError { group: 0x0010, element: 0x0030 });
    // A failed run leaves every attribute outside the five targets untouched.
    assert_eq!(text_at(&no_birth_date, 0x0008, 0x0060), "CT");
}

#[test]
fn first_missing_attribute_wins() {
    let mut empty = InMemDicomObject::new_empty();
    let err = anonymize_object(&mut empty, 1).unwrap_err();
    assert_eq!(err, MissingAttributeError { group: 0x0010, element: 0x0010 });
}

#[test]
fn rerun_changes_study_id_only() {
    let mut first = sample_object();
    let mut second = sample_object();
    anonymize_object(&mut first, 111).unwrap();
    anonymize_object(&mut second, 222).unwrap();
    assert_eq!(
        text_at(&first, 0x0010, 0x0010),
        text_at(&second, 0x0010, 0x0010),
    );
    assert_eq!(
        text_at(&first, 0x0010, 0x0020),
        text_at(&second, 0x0010, 0x0020),
    );
    assert_eq!(
        text_at(&first, 0x0010, 0x0030),
        text_at(&second, 0x0010, 0x0030),
    );
    assert_eq!(
        text_at(&first, 0x0008, 0x0080),
        text_at(&second, 0x0008, 0x0080),
    );
    assert_ne!(
        text_at(&first, 0x0020, 0x0010),
        text_at(&second, 0x0020, 0x0010),
    );

    let mut third = sample_object();
    anonymize_object(&mut third, 111).unwrap();
    assert_eq!(
        text_at(&first, 0x0020, 0x0010),
        text_at(&third, 0x0020, 0x0010),
    );
}

#[test]
fn reparsed_output_keeps_anonymized_values() {
    let mut obj = sample_object();
    anonymize_object(&mut obj, 4321).unwrap();

    let ts = dicom::transfer_syntax::entries::EXPLICIT_VR_LITTLE_ENDIAN.erased();
    let mut bytes: Vec<u8> = Vec::new();
    obj.write_dataset_with_ts(&mut bytes, &ts).unwrap();
    let reparsed = InMemDicomObject::read_dataset_with_ts(bytes.as_slice(), &ts).unwrap();

    assert_eq!(text_at(&reparsed, 0x0010, 0x0010), "puripuri^2100");
    assert_eq!(text_at(&reparsed, 0x0010, 0x0020), "puripuri^2100");
    assert_eq!(text_at(&reparsed, 0x0010, 0x0030), "200000401");
    assert_eq!(text_at(&reparsed, 0x0020, 0x0010), "0000000000004321");
    assert_eq!(text_at(&reparsed, 0x0008, 0x0080), "FooBar Hospital");
    assert_eq!(text_at(&reparsed, 0x0008, 0x0060), "CT");
}

#[test]
fn anonymize_with_source_draws_valid_study_id() {
    let mut obj = sample_object();
    let mut source = StudyIdSource::from_seed(3);
    let changes = anonymize_object_with(&mut obj, &mut source).unwrap();
    let id = text_at(&obj, 0x0020, 0x0010);
    assert_eq!(id.len(), 16);
    assert!(id.chars().all(|c| c.is_ascii_digit()));
    assert!(id.parse::<u64>().unwrap() < 100_000_000_000);
    assert_eq!(changes[3].new_value, id);
}

//! Replacement of the five patient-identifying attributes of a DICOM data set.
//!
//! The data set itself is the DICOM codec's in-memory object; this module
//! reasons about it through [`dicom_text`], the map from each tag that is
//! present with a primitive value to the clean string rendering of that
//! value. Four attributes are overwritten with fixed literals — the Patient
//! ID deliberately receives the same literal as the Patient Name — and the
//! Study ID with a freshly rendered study identifier.

use vstd::prelude::*;
use crate::study_id::{
    study_id_chars, study_id_from, lemma_study_id_value, lemma_study_id_injective, StudyIdSource,
    STUDY_NUMBER_BOUND,
};

verus! {

/// The DICOM codec's in-memory data set, under its standard data dictionary.
pub type DicomDataset = dicom::object::InMemDicomObject<dicom::object::StandardDataDictionary>;

#[verifier::external_type_specification]
#[verifier::external_body]
#[verifier::reject_recursive_types(D)]
pub struct ExInMemDicomObject<D>(dicom::object::InMemDicomObject<D>);

#[verifier::external_type_specification]
#[verifier::external_body]
pub struct ExStandardDataDictionary(dicom::object::StandardDataDictionary);

/// The text content of a DICOM data set: for every tag that is present with a
/// primitive (non-sequence) value, the clean string rendering of that value —
/// trailing spaces and NULs trimmed, multiple values joined by `\`.
pub uninterp spec fn dicom_text(obj: DicomDataset) -> Map<(u16, u16), Seq<char>>;

/// Value representations of the attributes written here.
enum Vr {
    /// Person name.
    Pn,
    /// Long string.
    Lo,
    /// Date.
    Da,
    /// Short string.
    Sh,
}

/// Relies on `InMemDicomObject::element` and `DataElement::to_str` of the
/// DICOM codec: `element` returns the element at the tag and fails exactly
/// when it is absent; `to_str` renders a primitive value as its clean string
/// and fails exactly when the value is not primitive.
#[verifier::external_body]
fn element_text(obj: &DicomDataset, group: u16, element: u16) -> (r: Option<String>)
    ensures
        r is Some <==> dicom_text(*obj).dom().contains((group, element)),
        r matches Some(s) ==> s@ == dicom_text(*obj)[(group, element)],
{
    match obj.element(dicom_core::header::Tag(group, element)) {
        Ok(el) => match el.to_str() {
            Ok(s) => Some(s.into_owned()),
            Err(_) => None,
        },
        Err(_) => None,
    }
}

/// Relies on `InMemDicomObject::put` and `DataElement::new` of the DICOM
/// codec: `put` inserts the element at its tag, replacing any previous
/// element there. The stored value renders back with trailing spaces and
/// NULs trimmed, hence the requirement on the last character.
#[verifier::external_body]
fn put_text(obj: &mut DicomDataset, group: u16, element: u16, vr: Vr, value: &str)
    requires
        value@.len() > 0,
        value@.last() != ' ',
        value@.last() != '\u{0}',
    ensures
        dicom_text(*final(obj)) == dicom_text(*old(obj)).insert((group, element), value@),
{
    let vr = match vr {
        Vr::Pn => dicom_core::header::VR::PN,
        Vr::Lo => dicom_core::header::VR::LO,
        Vr::Da => dicom_core::header::VR::DA,
        Vr::Sh => dicom_core::header::VR::SH,
    };
    obj.put(dicom_core::header::DataElement::new(
        dicom_core::header::Tag(group, element),
        vr,
        value,
    ));
}

/// Patient Name, group and element.
pub open spec fn patient_name_tag() -> (u16, u16) {
    (0x0010u16, 0x0010u16)
}

/// Patient ID, group and element.
pub open spec fn patient_id_tag() -> (u16, u16) {
    (0x0010u16, 0x0020u16)
}

/// Patient Birth Date, group and element.
pub open spec fn birth_date_tag() -> (u16, u16) {
    (0x0010u16, 0x0030u16)
}

/// Study ID, group and element.
pub open spec fn study_id_tag() -> (u16, u16) {
    (0x0020u16, 0x0010u16)
}

/// Institution Name, group and element.
pub open spec fn institution_tag() -> (u16, u16) {
    (0x0008u16, 0x0080u16)
}

/// Whether a tag is one of the five replaced attributes.
pub open spec fn is_target_tag(t: (u16, u16)) -> bool {
    t == patient_name_tag() || t == patient_id_tag() || t == birth_date_tag() || t
        == study_id_tag() || t == institution_tag()
}

/// The replacement Patient Name (and Patient ID) value.
pub open spec fn patient_name_value() -> Seq<char> {
    "puripuri^2100"@
}

/// The replacement Patient Birth Date value.
pub open spec fn birth_date_value() -> Seq<char> {
    "200000401"@
}

/// The replacement Institution Name value.
pub open spec fn institution_value() -> Seq<char> {
    "FooBar Hospital"@
}

/// The text content of a data set after anonymization with study number `n`.
pub open spec fn anonymized_text(m: Map<(u16, u16), Seq<char>>, n: nat) -> Map<
    (u16, u16),
    Seq<char>,
> {
    m.insert(patient_name_tag(), patient_name_value()).insert(
        patient_id_tag(),
        patient_name_value(),
    ).insert(birth_date_tag(), birth_date_value()).insert(study_id_tag(), study_id_chars(n)).insert(
        institution_tag(),
        institution_value(),
    )
}

/// The first replaced attribute, in processing order, that the data set's
/// text content lacks.
pub open spec fn first_absent_target(m: Map<(u16, u16), Seq<char>>) -> Option<(u16, u16)> {
    if !m.dom().contains(patient_name_tag()) {
        Some(patient_name_tag())
    } else if !m.dom().contains(patient_id_tag()) {
        Some(patient_id_tag())
    } else if !m.dom().contains(birth_date_tag()) {
        Some(birth_date_tag())
    } else if !m.dom().contains(study_id_tag()) {
        Some(study_id_tag())
    } else if !m.dom().contains(institution_tag()) {
        Some(institution_tag())
    } else {
        None
    }
}

/// Tags other than the five replaced ones keep their presence and value.
pub open spec fn unchanged_outside_targets(
    m_before: Map<(u16, u16), Seq<char>>,
    m_after: Map<(u16, u16), Seq<char>>,
) -> bool {
    forall|t: (u16, u16)|
        !is_target_tag(t) ==> (#[trigger] m_after.dom().contains(t) <==> m_before.dom().contains(
            t,
        )) && (m_before.dom().contains(t) ==> m_after[t] == m_before[t])
}

/// A required attribute was absent from the input data set's text content:
/// either not present at all, or carrying no renderable primitive value.
#[derive(Debug, PartialEq, Eq, Structural, Clone, Copy)]
pub struct MissingAttributeError {
    pub group: u16,
    pub element: u16,
}

/// One attribute replacement: the tag, the value it had, the value written.
#[derive(Debug)]
pub struct AttributeChange {
    pub group: u16,
    pub element: u16,
    pub old_value: String,
    pub new_value: String,
}

/// Whether a recorded change shows tag `t` going from `was` to `now`.
pub open spec fn change_is(c: AttributeChange, t: (u16, u16), was: Seq<char>, now: Seq<char>) -> bool {
    c.group == t.0 && c.element == t.1 && c.old_value@ == was && c.new_value@ == now
}

/// Whether `cs` records the five replacements applied to text content `m`
/// with study number `n`, in processing order.
pub open spec fn changes_describe(
    cs: Seq<AttributeChange>,
    m: Map<(u16, u16), Seq<char>>,
    n: nat,
) -> bool {
    &&& cs.len() == 5
    &&& change_is(cs[0], patient_name_tag(), m[patient_name_tag()], patient_name_value())
    &&& change_is(cs[1], patient_id_tag(), m[patient_id_tag()], patient_name_value())
    &&& change_is(cs[2], birth_date_tag(), m[birth_date_tag()], birth_date_value())
    &&& change_is(cs[3], study_id_tag(), m[study_id_tag()], study_id_chars(n))
    &&& change_is(cs[4], institution_tag(), m[institution_tag()], institution_value())
}

/// Anonymization law: every tag outside the five targets keeps its presence
/// and value, and each target tag carries exactly its replacement value.
pub proof fn lemma_anonymized_pointwise(m: Map<(u16, u16), Seq<char>>, n: nat)
    ensures
        anonymized_text(m, n)[patient_name_tag()] == patient_name_value(),
        anonymized_text(m, n)[patient_id_tag()] == patient_name_value(),
        anonymized_text(m, n)[birth_date_tag()] == birth_date_value(),
        anonymized_text(m, n)[study_id_tag()] == study_id_chars(n),
        anonymized_text(m, n)[institution_tag()] == institution_value(),
        forall|t: (u16, u16)|
            is_target_tag(t) ==> #[trigger] anonymized_text(m, n).dom().contains(t),
        unchanged_outside_targets(m, anonymized_text(m, n)),
{
}

/// Determinism law: anonymizing the same content again yields the same four
/// constant attributes, and the same Study ID entry exactly when the same
/// study number was drawn again.
pub proof fn lemma_rerun_determinism(m: Map<(u16, u16), Seq<char>>, n1: nat, n2: nat)
    requires
        n1 < STUDY_NUMBER_BOUND,
        n2 < STUDY_NUMBER_BOUND,
    ensures
        anonymized_text(m, n1)[patient_name_tag()] == anonymized_text(m, n2)[patient_name_tag()],
        anonymized_text(m, n1)[patient_id_tag()] == anonymized_text(m, n2)[patient_id_tag()],
        anonymized_text(m, n1)[birth_date_tag()] == anonymized_text(m, n2)[birth_date_tag()],
        anonymized_text(m, n1)[institution_tag()] == anonymized_text(m, n2)[institution_tag()],
        (anonymized_text(m, n1)[study_id_tag()] == anonymized_text(m, n2)[study_id_tag()]) <==> n1
            == n2,
{
    lemma_anonymized_pointwise(m, n1);
    lemma_anonymized_pointwise(m, n2);
    if study_id_chars(n1) == study_id_chars(n2) {
        lemma_study_id_injective(n1, n2);
    }
}

/// Replaces the five patient-identifying attributes of `obj`, writing the
/// study identifier rendered from `study_number`, and reports each change.
/// Fails on the first required attribute that is absent, leaving every
/// non-target attribute untouched.
pub fn anonymize_object(obj: &mut DicomDataset, study_number: u64) -> (r: Result<
    Vec<AttributeChange>,
    MissingAttributeError,
>)
    requires
        study_number < STUDY_NUMBER_BOUND,
    ensures
        r is Ok <==> first_absent_target(dicom_text(*old(obj))) is None,
        r matches Ok(changes) ==> dicom_text(*final(obj)) == anonymized_text(
            dicom_text(*old(obj)),
            study_number as nat,
        ),
        r matches Ok(changes) ==> changes_describe(
            changes@,
            dicom_text(*old(obj)),
            study_number as nat,
        ),
        r matches Err(e) ==> Some((e.group, e.element)) == first_absent_target(
            dicom_text(*old(obj)),
        ),
        unchanged_outside_targets(dicom_text(*old(obj)), dicom_text(*final(obj))),
{
    let ghost m0 = dicom_text(*obj);
    let mut changes: Vec<AttributeChange> = Vec::new();

    let old_patient_name = match element_text(obj, 0x0010, 0x0010) {
        Some(s) => s,
        None => {
            return Err(MissingAttributeError { group: 0x0010, element: 0x0010 });
        },
    };
    proof {
        reveal_strlit("puripuri^2100");
    }
    put_text(obj, 0x0010, 0x0010, Vr::Pn, "puripuri^2100");
    changes.push(
        AttributeChange {
            group: 0x0010,
            element: 0x0010,
            old_value: old_patient_name,
            new_value: "puripuri^2100".to_owned(),
        },
    );

    let old_patient_id = match element_text(obj, 0x0010, 0x0020) {
        Some(s) => s,
        None => {
            return Err(MissingAttributeError { group: 0x0010, element: 0x0020 });
        },
    };
    put_text(obj, 0x0010, 0x0020, Vr::Lo, "puripuri^2100");
    changes.push(
        AttributeChange {
            group: 0x0010,
            element: 0x0020,
            old_value: old_patient_id,
            new_value: "puripuri^2100".to_owned(),
        },
    );

    let old_birth_date = match element_text(obj, 0x0010, 0x0030) {
        Some(s) => s,
        None => {
            return Err(MissingAttributeError { group: 0x0010, element: 0x0030 });
        },
    };
    proof {
        reveal_strlit("200000401");
    }
    put_text(obj, 0x0010, 0x0030, Vr::Da, "200000401");
    changes.push(
        AttributeChange {
            group: 0x0010,
            element: 0x0030,
            old_value: old_birth_date,
            new_value: "200000401".to_owned(),
        },
    );

    let old_study_id = match element_text(obj, 0x0020, 0x0010) {
        Some(s) => s,
        None => {
            return Err(MissingAttributeError { group: 0x0020, element: 0x0010 });
        },
    };
    let new_study_id = study_id_from(study_number);
    proof {
        lemma_study_id_value(study_number as nat);
        assert(new_study_id@.last() == study_id_chars(study_number as nat)[15]);
    }
    put_text(obj, 0x0020, 0x0010, Vr::Sh, new_study_id.as_str());
    changes.push(
        AttributeChange {
            group: 0x0020,
            element: 0x0010,
            old_value: old_study_id,
            new_value: new_study_id,
        },
    );

    let old_institution = match element_text(obj, 0x0008, 0x0080) {
        Some(s) => s,
        None => {
            return Err(MissingAttributeError { group: 0x0008, element: 0x0080 });
        },
    };
    proof {
        reveal_strlit("FooBar Hospital");
    }
    put_text(obj, 0x0008, 0x0080, Vr::Lo, "FooBar Hospital");
    changes.push(
        AttributeChange {
            group: 0x0008,
            element: 0x0080,
            old_value: old_institution,
            new_value: "FooBar Hospital".to_owned(),
        },
    );

    proof {
        lemma_anonymized_pointwise(m0, study_number as nat);
    }
    Ok(changes)
}

/// Anonymizes `obj` with a study number freshly drawn from `source`.
pub fn anonymize_object_with(obj: &mut DicomDataset, source: &mut StudyIdSource) -> (r: Result<
    Vec<AttributeChange>,
    MissingAttributeError,
>)
    ensures
        r is Ok <==> first_absent_target(dicom_text(*old(obj))) is None,
        r matches Ok(changes) ==> exists|n: nat|
            (n < STUDY_NUMBER_BOUND && dicom_text(*final(obj)) == anonymized_text(
                dicom_text(*old(obj)),
                n,
            ) && changes_describe(changes@, dicom_text(*old(obj)), n)),
        r matches Err(e) ==> Some((e.group, e.element)) == first_absent_target(
            dicom_text(*old(obj)),
        ),
        unchanged_outside_targets(dicom_text(*old(obj)), dicom_text(*final(obj))),
{
    let n = source.draw();
    let r = anonymize_object(obj, n);
    proof {
        if r is Ok {
            assert((n as nat) < STUDY_NUMBER_BOUND && dicom_text(*obj) == anonymized_text(
                dicom_text(*old(obj)),
                n as nat,
            ) && changes_describe(r->Ok_0@, dicom_text(*old(obj)), n as nat));
        }
    }
    r
}

} // verus!

//! A verified core for a DICOM anonymizer.
//!
//! The library covers the logic of the anonymizer: pairing comma-separated
//! input and output path lists, generating fresh study identifiers, replacing
//! the five patient-identifying attributes of a DICOM object, and tracking the
//! strictly sequential progress of a batch. Opening and writing the files
//! themselves is left to the surrounding program.

pub mod anonymizer;
pub mod batch;
pub mod pairing;
pub mod study_id;

//! Tests of the tensor record: the byte-length invariant, the rejection of
//! kinds without a byte width, and field preservation through assembly.

use tch_serde::device::DeviceTag;
use tch_serde::error::CodecError;
use tch_serde::kind::{element_size, ElementKind};
use tch_serde::record::TensorRepr;

fn record(shape: Vec<i64>, kind: ElementKind, len: usize) -> Result<TensorRepr, CodecError> {
    TensorRepr::new(false, DeviceTag::Cpu, shape, kind, vec![0u8; len])
}

#[test]
fn element_sizes_match_table() {
    assert_eq!(element_size(&ElementKind::Uint8), Some(1));
    assert_eq!(element_size(&ElementKind::Int8), Some(1));
    assert_eq!(element_size(&ElementKind::Int16), Some(2));
    assert_eq!(element_size(&ElementKind::Int), Some(4));
    assert_eq!(element_size(&ElementKind::Int64), Some(8));
    assert_eq!(element_size(&ElementKind::Half), Some(2));
    assert_eq!(element_size(&ElementKind::Float), Some(4));
    assert_eq!(element_size(&ElementKind::Double), Some(8));
    assert_eq!(element_size(&ElementKind::Bool), Some(1));
    assert_eq!(element_size(&ElementKind::QInt8), Some(1));
    assert_eq!(element_size(&ElementKind::QUInt8), Some(1));
    assert_eq!(element_size(&ElementKind::QInt32), Some(4));
    assert_eq!(element_size(&ElementKind::BFloat16), Some(2));
    assert_eq!(element_size(&ElementKind::ComplexHalf), None);
    assert_eq!(element_size(&ElementKind::ComplexFloat), None);
    assert_eq!(element_size(&ElementKind::ComplexDouble), None);
}

#[test]
fn byte_length_invariant_enforced() {
    // shape [3, 2, 4] of 4-byte floats: exactly 96 bytes, one short or one
    // long is rejected with the expected and actual lengths.
    assert!(record(vec![3, 2, 4], ElementKind::Float, 96).is_ok());
    assert_eq!(
        record(vec![3, 2, 4], ElementKind::Float, 95).unwrap_err(),
        CodecError::MalformedTensorRecord { expected: 96, actual: 95 }
    );
    assert_eq!(
        record(vec![3, 2, 4], ElementKind::Float, 97).unwrap_err(),
        CodecError::MalformedTensorRecord { expected: 96, actual: 97 }
    );
}

#[test]
fn unsupported_kind_rejected() {
    for k in [
        ElementKind::ComplexHalf,
        ElementKind::ComplexFloat,
        ElementKind::ComplexDouble,
    ] {
        assert_eq!(
            record(vec![2, 2], k, 16).unwrap_err(),
            CodecError::UnsupportedKind(k)
        );
        assert_eq!(record(vec![], k, 0).unwrap_err(), CodecError::UnsupportedKind(k));
    }
}

#[test]
fn scalar_record() {
    // The empty shape denotes a scalar: one element.
    assert!(record(vec![], ElementKind::Double, 8).is_ok());
    assert_eq!(
        record(vec![], ElementKind::Double, 0).unwrap_err(),
        CodecError::MalformedTensorRecord { expected: 8, actual: 0 }
    );
}

#[test]
fn zero_dimension_record() {
    // A zero dimension makes the element count zero.
    assert!(record(vec![2, 0, 3], ElementKind::Int64, 0).is_ok());
    assert_eq!(
        record(vec![2, 0, 3], ElementKind::Int64, 8).unwrap_err(),
        CodecError::MalformedTensorRecord { expected: 0, actual: 8 }
    );
}

#[test]
fn negative_dimension_mismatches() {
    // A negative element count can match no byte length; the expected
    // length saturates at zero.
    assert_eq!(
        record(vec![-2, 3], ElementKind::Uint8, 6).unwrap_err(),
        CodecError::MalformedTensorRecord { expected: 0, actual: 6 }
    );
}

#[test]
fn record_preserves_fields() {
    let data: Vec<u8> = (0u8..24).collect();
    let rec = TensorRepr::new(
        true,
        DeviceTag::Accelerator(1),
        vec![3, 2],
        ElementKind::Int,
        data.clone(),
    );
    let rec = rec.unwrap();
    assert!(rec.requires_grad);
    assert_eq!(rec.device, DeviceTag::Accelerator(1));
    assert_eq!(rec.shape, vec![3, 2]);
    assert_eq!(rec.kind, ElementKind::Int);
    assert_eq!(rec.data, data);
}

#[test]
fn validate_matches_new() {
    let rec = TensorRepr {
        requires_grad: false,
        device: DeviceTag::Cpu,
        shape: vec![5],
        kind: ElementKind::Int16,
        data: vec![0u8; 10],
    };
    assert!(rec.validate().is_ok());
    let bad = TensorRepr { data: vec![0u8; 9], ..rec };
    assert_eq!(
        bad.validate().unwrap_err(),
        CodecError::MalformedTensorRecord { expected: 10, actual: 9 }
    );
}

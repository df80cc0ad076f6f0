//! Tests of the three string codecs: round trips, literal forms, and the
//! rejection of malformed strings.

use tch_serde::device::{decode_device, encode_device, DeviceTag};
use tch_serde::error::CodecError;
use tch_serde::kind::{decode_kind, encode_kind, ElementKind};
use tch_serde::reduction::{decode_reduction, encode_reduction, ReductionMode};

#[test]
fn serde_reduction_test() {
    assert_eq!(decode_reduction("none").unwrap(), ReductionMode::NoReduction);
    assert_eq!(decode_reduction("mean").unwrap(), ReductionMode::Mean);
    assert_eq!(decode_reduction("sum").unwrap(), ReductionMode::Sum);
    assert_eq!(decode_reduction("other:3").unwrap(), ReductionMode::Custom(3));
    assert_eq!(encode_reduction(&ReductionMode::NoReduction), "none");
    assert_eq!(encode_reduction(&ReductionMode::Mean), "mean");
    assert_eq!(encode_reduction(&ReductionMode::Sum), "sum");
    assert_eq!(encode_reduction(&ReductionMode::Custom(1)), "other:1");
}

#[test]
fn serde_device_test() {
    // encode
    assert_eq!(encode_device(&DeviceTag::Cpu), "cpu");
    assert_eq!(encode_device(&DeviceTag::Accelerator(0)), "cuda:0");
    assert_eq!(encode_device(&DeviceTag::Accelerator(1)), "cuda:1");

    // decode
    assert_eq!(decode_device("cpu").unwrap(), DeviceTag::Cpu);
    assert_eq!(decode_device("cuda:0").unwrap(), DeviceTag::Accelerator(0));
    assert_eq!(decode_device("cuda:1").unwrap(), DeviceTag::Accelerator(1));
}

#[test]
fn serde_kind_test() {
    // encode
    assert_eq!(encode_kind(&ElementKind::Int), "int");
    assert_eq!(encode_kind(&ElementKind::Float), "float");
    assert_eq!(encode_kind(&ElementKind::Uint8), "uint8");
    assert_eq!(encode_kind(&ElementKind::Int8), "int8");
    assert_eq!(encode_kind(&ElementKind::Int16), "int16");
    assert_eq!(encode_kind(&ElementKind::Int), "int");
    assert_eq!(encode_kind(&ElementKind::Int64), "int64");
    assert_eq!(encode_kind(&ElementKind::Half), "half");
    assert_eq!(encode_kind(&ElementKind::Float), "float");
    assert_eq!(encode_kind(&ElementKind::Double), "double");
    assert_eq!(encode_kind(&ElementKind::ComplexHalf), "complex_half");
    assert_eq!(encode_kind(&ElementKind::ComplexFloat), "complex_float");
    assert_eq!(encode_kind(&ElementKind::ComplexDouble), "complex_double");
    assert_eq!(encode_kind(&ElementKind::Bool), "bool");
    assert_eq!(encode_kind(&ElementKind::QInt8), "qint8");
    assert_eq!(encode_kind(&ElementKind::QUInt8), "quint8");
    assert_eq!(encode_kind(&ElementKind::QInt32), "qint32");
    assert_eq!(encode_kind(&ElementKind::BFloat16), "bfloat16");

    // decode
    assert_eq!(decode_kind("int").unwrap(), ElementKind::Int);
    assert_eq!(decode_kind("float").unwrap(), ElementKind::Float);
    assert_eq!(decode_kind("uint8").unwrap(), ElementKind::Uint8);
    assert_eq!(decode_kind("int8").unwrap(), ElementKind::Int8);
    assert_eq!(decode_kind("int16").unwrap(), ElementKind::Int16);
    assert_eq!(decode_kind("int").unwrap(), ElementKind::Int);
    assert_eq!(decode_kind("int64").unwrap(), ElementKind::Int64);
    assert_eq!(decode_kind("half").unwrap(), ElementKind::Half);
    assert_eq!(decode_kind("float").unwrap(), ElementKind::Float);
    assert_eq!(decode_kind("double").unwrap(), ElementKind::Double);
    assert_eq!(decode_kind("complex_half").unwrap(), ElementKind::ComplexHalf);
    assert_eq!(decode_kind("complex_float").unwrap(), ElementKind::ComplexFloat);
    assert_eq!(decode_kind("complex_double").unwrap(), ElementKind::ComplexDouble);
    assert_eq!(decode_kind("bool").unwrap(), ElementKind::Bool);
    assert_eq!(decode_kind("qint8").unwrap(), ElementKind::QInt8);
    assert_eq!(decode_kind("quint8").unwrap(), ElementKind::QUInt8);
    assert_eq!(decode_kind("qint32").unwrap(), ElementKind::QInt32);
    assert_eq!(decode_kind("bfloat16").unwrap(), ElementKind::BFloat16);
}

#[test]
fn kind_round_trip_all() {
    let kinds = [
        ElementKind::Uint8,
        ElementKind::Int8,
        ElementKind::Int16,
        ElementKind::Int,
        ElementKind::Int64,
        ElementKind::Half,
        ElementKind::Float,
        ElementKind::Double,
        ElementKind::ComplexHalf,
        ElementKind::ComplexFloat,
        ElementKind::ComplexDouble,
        ElementKind::Bool,
        ElementKind::QInt8,
        ElementKind::QUInt8,
        ElementKind::QInt32,
        ElementKind::BFloat16,
    ];
    for k in kinds {
        assert_eq!(decode_kind(&encode_kind(&k)).unwrap(), k);
    }
}

#[test]
fn device_round_trip_several() {
    let devices = [
        DeviceTag::Cpu,
        DeviceTag::Accelerator(0),
        DeviceTag::Accelerator(1),
        DeviceTag::Accelerator(7),
        DeviceTag::Accelerator(123456789),
        DeviceTag::Accelerator(u64::MAX),
    ];
    for d in devices {
        assert_eq!(decode_device(&encode_device(&d)).unwrap(), d);
    }
    assert_eq!(
        encode_device(&DeviceTag::Accelerator(u64::MAX)),
        "cuda:18446744073709551615"
    );
}

#[test]
fn reduction_round_trip_several() {
    let modes = [
        ReductionMode::NoReduction,
        ReductionMode::Mean,
        ReductionMode::Sum,
        ReductionMode::Custom(0),
        ReductionMode::Custom(3),
        ReductionMode::Custom(-7),
        ReductionMode::Custom(i64::MAX),
        ReductionMode::Custom(i64::MIN),
    ];
    for m in modes {
        assert_eq!(decode_reduction(&encode_reduction(&m)).unwrap(), m);
    }
    assert_eq!(
        encode_reduction(&ReductionMode::Custom(i64::MIN)),
        "other:-9223372036854775808"
    );
}

#[test]
fn device_literal_scenario() {
    assert_eq!(encode_device(&DeviceTag::Accelerator(1)), "cuda:1");
    assert_eq!(decode_device("cuda:1").unwrap(), DeviceTag::Accelerator(1));
    assert_eq!(decode_device("cpu").unwrap(), DeviceTag::Cpu);
}

#[test]
fn reduction_literal_scenario() {
    assert_eq!(encode_reduction(&ReductionMode::Custom(3)), "other:3");
    assert_eq!(decode_reduction("other:3").unwrap(), ReductionMode::Custom(3));
    assert_eq!(
        decode_reduction("other:-7").unwrap(),
        ReductionMode::Custom(-7)
    );
}

#[test]
fn device_rejects_malformed() {
    for bad in ["cuda:", "cuda:-1", "cuda:abc", "gpu:0", "", "CPU", "cuda:1 ", " cpu"] {
        assert_eq!(
            decode_device(bad),
            Err(CodecError::InvalidDeviceString(bad.to_string()))
        );
    }
}

#[test]
fn reduction_rejects_malformed() {
    for bad in ["other:", "other:x", "mean ", "Sum", "other:1.5", "other: 1"] {
        assert_eq!(
            decode_reduction(bad),
            Err(CodecError::InvalidReductionString(bad.to_string()))
        );
    }
}

#[test]
fn kind_rejects_malformed() {
    for bad in ["Float", "uint16", "", "float ", "int32"] {
        assert_eq!(
            decode_kind(bad),
            Err(CodecError::InvalidKindName(bad.to_string()))
        );
    }
}

#[test]
fn numeral_parsing_edges() {
    // Leading zeros and an explicit plus sign parse, as integer parsing
    // usually allows.
    assert_eq!(decode_device("cuda:007").unwrap(), DeviceTag::Accelerator(7));
    assert_eq!(decode_device("cuda:+7").unwrap(), DeviceTag::Accelerator(7));
    assert_eq!(
        decode_device("cuda:18446744073709551615").unwrap(),
        DeviceTag::Accelerator(u64::MAX)
    );
    assert!(decode_device("cuda:18446744073709551616").is_err());
    assert!(decode_device("cuda:+").is_err());
    assert_eq!(
        decode_reduction("other:+5").unwrap(),
        ReductionMode::Custom(5)
    );
    assert_eq!(
        decode_reduction("other:-9223372036854775808").unwrap(),
        ReductionMode::Custom(i64::MIN)
    );
    assert!(decode_reduction("other:9223372036854775808").is_err());
    assert!(decode_reduction("other:-9223372036854775809").is_err());
    assert!(decode_reduction("other:-").is_err());
}

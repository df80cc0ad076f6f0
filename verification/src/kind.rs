//! The element-kind codec: a scalar type tag to and from its canonical
//! lowercase name, and the byte width each supported kind occupies.

use crate::error::CodecError;
use crate::text::str_eq;
use vstd::prelude::*;
use vstd::string::*;

verus! {

/// The scalar element types a tensor can hold.  The complex kinds belong to
/// the domain but carry no byte width, so the tensor codec rejects them.
#[derive(Clone, Copy, Debug, PartialEq, Eq, Structural)]
pub enum ElementKind {
    Uint8,
    Int8,
    Int16,
    Int,
    Int64,
    Half,
    Float,
    Double,
    ComplexHalf,
    ComplexFloat,
    ComplexDouble,
    Bool,
    QInt8,
    QUInt8,
    QInt32,
    BFloat16,
}

/// The canonical lowercase name of each element kind.
pub open spec fn kind_name(k: ElementKind) -> Seq<char> {
    match k {
        ElementKind::Uint8 => "uint8"@,
        ElementKind::Int8 => "int8"@,
        ElementKind::Int16 => "int16"@,
        ElementKind::Int => "int"@,
        ElementKind::Int64 => "int64"@,
        ElementKind::Half => "half"@,
        ElementKind::Float => "float"@,
        ElementKind::Double => "double"@,
        ElementKind::ComplexHalf => "complex_half"@,
        ElementKind::ComplexFloat => "complex_float"@,
        ElementKind::ComplexDouble => "complex_double"@,
        ElementKind::Bool => "bool"@,
        ElementKind::QInt8 => "qint8"@,
        ElementKind::QUInt8 => "quint8"@,
        ElementKind::QInt32 => "qint32"@,
        ElementKind::BFloat16 => "bfloat16"@,
    }
}

/// Decoding of a kind name: an exact, case-sensitive match against the
/// sixteen canonical names; anything else is rejected.
pub open spec fn parse_kind(s: Seq<char>) -> Option<ElementKind> {
    if s == "uint8"@ {
        Some(ElementKind::Uint8)
    } else if s == "int8"@ {
        Some(ElementKind::Int8)
    } else if s == "int16"@ {
        Some(ElementKind::Int16)
    } else if s == "int"@ {
        Some(ElementKind::Int)
    } else if s == "int64"@ {
        Some(ElementKind::Int64)
    } else if s == "half"@ {
        Some(ElementKind::Half)
    } else if s == "float"@ {
        Some(ElementKind::Float)
    } else if s == "double"@ {
        Some(ElementKind::Double)
    } else if s == "complex_half"@ {
        Some(ElementKind::ComplexHalf)
    } else if s == "complex_float"@ {
        Some(ElementKind::ComplexFloat)
    } else if s == "complex_double"@ {
        Some(ElementKind::ComplexDouble)
    } else if s == "bool"@ {
        Some(ElementKind::Bool)
    } else if s == "qint8"@ {
        Some(ElementKind::QInt8)
    } else if s == "quint8"@ {
        Some(ElementKind::QUInt8)
    } else if s == "qint32"@ {
        Some(ElementKind::QInt32)
    } else if s == "bfloat16"@ {
        Some(ElementKind::BFloat16)
    } else {
        None
    }
}

/// Byte width of one element of each kind: one byte for the 8-bit and
/// boolean kinds, two for the 16-bit kinds, four for the 32-bit kinds,
/// eight for the 64-bit kinds; the complex kinds have none.
pub open spec fn kind_width(k: ElementKind) -> Option<int> {
    match k {
        ElementKind::Uint8 => Some(1),
        ElementKind::Int8 => Some(1),
        ElementKind::Int16 => Some(2),
        ElementKind::Int => Some(4),
        ElementKind::Int64 => Some(8),
        ElementKind::Half => Some(2),
        ElementKind::Float => Some(4),
        ElementKind::Double => Some(8),
        ElementKind::ComplexHalf => None,
        ElementKind::ComplexFloat => None,
        ElementKind::ComplexDouble => None,
        ElementKind::Bool => Some(1),
        ElementKind::QInt8 => Some(1),
        ElementKind::QUInt8 => Some(1),
        ElementKind::QInt32 => Some(4),
        ElementKind::BFloat16 => Some(2),
    }
}

/// Encodes an element kind as its canonical name.
pub fn encode_kind(k: &ElementKind) -> (r: String)
    ensures
        r@ == kind_name(*k),
{
    match k {
        ElementKind::Uint8 => String::from_str("uint8"),
        ElementKind::Int8 => String::from_str("int8"),
        ElementKind::Int16 => String::from_str("int16"),
        ElementKind::Int => String::from_str("int"),
        ElementKind::Int64 => String::from_str("int64"),
        ElementKind::Half => String::from_str("half"),
        ElementKind::Float => String::from_str("float"),
        ElementKind::Double => String::from_str("double"),
        ElementKind::ComplexHalf => String::from_str("complex_half"),
        ElementKind::ComplexFloat => String::from_str("complex_float"),
        ElementKind::ComplexDouble => String::from_str("complex_double"),
        ElementKind::Bool => String::from_str("bool"),
        ElementKind::QInt8 => String::from_str("qint8"),
        ElementKind::QUInt8 => String::from_str("quint8"),
        ElementKind::QInt32 => String::from_str("qint32"),
        ElementKind::BFloat16 => String::from_str("bfloat16"),
    }
}

/// Decodes a kind name, rejecting any string that is not one of the sixteen
/// canonical names.
pub fn decode_kind(s: &str) -> (r: Result<ElementKind, CodecError>)
    ensures
        r is Ok <==> parse_kind(s@) is Some,
        match parse_kind(s@) {
            Some(k) => r == Ok::<ElementKind, CodecError>(k),
            None => r matches Err(CodecError::InvalidKindName(t)) && t@ == s@,
        },
{
    if str_eq(s, "uint8") {
        Ok(ElementKind::Uint8)
    } else if str_eq(s, "int8") {
        Ok(ElementKind::Int8)
    } else if str_eq(s, "int16") {
        Ok(ElementKind::Int16)
    } else if str_eq(s, "int") {
        Ok(ElementKind::Int)
    } else if str_eq(s, "int64") {
        Ok(ElementKind::Int64)
    } else if str_eq(s, "half") {
        Ok(ElementKind::Half)
    } else if str_eq(s, "float") {
        Ok(ElementKind::Float)
    } else if str_eq(s, "double") {
        Ok(ElementKind::Double)
    } else if str_eq(s, "complex_half") {
        Ok(ElementKind::ComplexHalf)
    } else if str_eq(s, "complex_float") {
        Ok(ElementKind::ComplexFloat)
    } else if str_eq(s, "complex_double") {
        Ok(ElementKind::ComplexDouble)
    } else if str_eq(s, "bool") {
        Ok(ElementKind::Bool)
    } else if str_eq(s, "qint8") {
        Ok(ElementKind::QInt8)
    } else if str_eq(s, "quint8") {
        Ok(ElementKind::QUInt8)
    } else if str_eq(s, "qint32") {
        Ok(ElementKind::QInt32)
    } else if str_eq(s, "bfloat16") {
        Ok(ElementKind::BFloat16)
    } else {
        Err(CodecError::InvalidKindName(s.to_owned()))
    }
}

/// Byte width of one element, for the kinds the tensor codec supports.
pub fn element_size(k: &ElementKind) -> (r: Option<usize>)
    ensures
        match r {
            Some(w) => kind_width(*k) == Some(w as int),
            None => kind_width(*k) is None,
        },
{
    match k {
        ElementKind::Uint8 => Some(1),
        ElementKind::Int8 => Some(1),
        ElementKind::Int16 => Some(2),
        ElementKind::Int => Some(4),
        ElementKind::Int64 => Some(8),
        ElementKind::Half => Some(2),
        ElementKind::Float => Some(4),
        ElementKind::Double => Some(8),
        ElementKind::ComplexHalf => None,
        ElementKind::ComplexFloat => None,
        ElementKind::ComplexDouble => None,
        ElementKind::Bool => Some(1),
        ElementKind::QInt8 => Some(1),
        ElementKind::QUInt8 => Some(1),
        ElementKind::QInt32 => Some(4),
        ElementKind::BFloat16 => Some(2),
    }
}

/// Law: decoding an encoded kind name gives back the kind.
pub proof fn lemma_kind_round_trip(k: ElementKind)
    ensures
        parse_kind(kind_name(k)) == Some(k),
{
    reveal_strlit("uint8");
    reveal_strlit("int8");
    reveal_strlit("int16");
    reveal_strlit("int");
    reveal_strlit("int64");
    reveal_strlit("half");
    reveal_strlit("float");
    reveal_strlit("double");
    reveal_strlit("complex_half");
    reveal_strlit("complex_float");
    reveal_strlit("complex_double");
    reveal_strlit("bool");
    reveal_strlit("qint8");
    reveal_strlit("quint8");
    reveal_strlit("qint32");
    reveal_strlit("bfloat16");
    assert("uint8"@[0] == 'u');
    assert("int8"@[0] == 'i');
    assert("int16"@[0] == 'i');
    assert("int"@[0] == 'i');
    assert("int64"@[0] == 'i');
    assert("half"@[0] == 'h');
    assert("float"@[0] == 'f');
    assert("double"@[0] == 'd');
    assert("complex_half"@[0] == 'c');
    assert("complex_float"@[0] == 'c');
    assert("complex_double"@[0] == 'c');
    assert("bool"@[0] == 'b');
    assert("qint8"@[0] == 'q');
    assert("quint8"@[0] == 'q');
    assert("qint32"@[0] == 'q');
    assert("bfloat16"@[0] == 'b');
    assert("uint8"@.len() == 5);
    assert("int8"@.len() == 4);
    assert("int16"@.len() == 5);
    assert("int"@.len() == 3);
    assert("int64"@.len() == 5);
    assert("half"@.len() == 4);
    assert("float"@.len() == 5);
    assert("double"@.len() == 6);
    assert("complex_half"@.len() == 12);
    assert("complex_float"@.len() == 13);
    assert("complex_double"@.len() == 14);
    assert("bool"@.len() == 4);
    assert("qint8"@.len() == 5);
    assert("quint8"@.len() == 6);
    assert("qint32"@.len() == 6);
    assert("bfloat16"@.len() == 8);
    assert("int16"@[3] == '1');
    assert("int64"@[3] == '6');
    assert("quint8"@[1] == 'u');
    assert("qint32"@[1] == 'i');
}

} // verus!

//! The typed failures of the codecs.

use crate::kind::ElementKind;
use vstd::prelude::*;

verus! {

/// Every way an encode or decode call can fail.  Each failure is returned to
/// the immediate caller; no codec panics or leaves a partial value behind.
#[derive(Debug, Clone, PartialEq, Eq)]
pub enum CodecError {
    /// Encode-time: the element kind has no defined byte width (the complex
    /// kinds); carries the offending kind.
    UnsupportedKind(ElementKind),
    /// Decode-time: the kind string is not one of the sixteen canonical
    /// names; carries the offending string.
    InvalidKindName(String),
    /// Decode-time: the device string is neither `"cpu"` nor a well-formed
    /// `"cuda:<index>"`; carries the offending string.
    InvalidDeviceString(String),
    /// Decode-time: the reduction string is neither a fixed keyword nor a
    /// well-formed `"other:<code>"`; carries the offending string.
    InvalidReductionString(String),
    /// Decode-time: the byte payload's length does not equal the element
    /// count times the element byte width.  `expected` is that product,
    /// saturated into the `u64` range; `actual` is the payload's length.
    MalformedTensorRecord { expected: u64, actual: u64 },
}

} // verus!

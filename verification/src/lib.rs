//! Codecs between tensor-related values and their textual form.
//!
//! Four small codecs share one pattern: encode a domain value into a
//! serializer-agnostic form (a string, or a plain record), and decode by
//! validating and reconstructing.  The element-kind codec maps a scalar type
//! tag to one of sixteen fixed names; the device codec maps a placement to
//! `"cpu"` or `"cuda:<index>"`; the reduction codec maps a loss-reduction
//! policy to `"none"`, `"mean"`, `"sum"` or `"other:<code>"`; and the tensor
//! record holds a tensor's full serialized state, with its byte-length
//! invariant checked on both sides.

pub mod device;
pub mod error;
pub mod kind;
pub mod numeral;
pub mod record;
pub mod reduction;
mod text;

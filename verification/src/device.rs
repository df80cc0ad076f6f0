//! The device codec: a compute placement to and from `"cpu"` or
//! `"cuda:<index>"`.

use crate::error::CodecError;
use crate::numeral::{
    append_dec_u64, dec_digits, is_digit_char, is_u64_numeral, lemma_dec_digits, parse_u64_numeral,
    strip_plus, u64_numeral_val,
};
use crate::text::{has_prefix, str_eq};
use vstd::prelude::*;
use vstd::string::*;

verus! {

/// A compute placement: host memory, or an indexed accelerator.
#[derive(Clone, Copy, Debug, PartialEq, Eq, Structural)]
pub enum DeviceTag {
    Cpu,
    Accelerator(u64),
}

/// The textual form of a device tag: `"cpu"`, or `"cuda:"` followed by the
/// decimal accelerator index.
pub open spec fn device_str(d: DeviceTag) -> Seq<char> {
    match d {
        DeviceTag::Cpu => "cpu"@,
        DeviceTag::Accelerator(i) => "cuda:"@ + dec_digits(i as nat),
    }
}

/// Decoding of a device string: `"cpu"` exactly, or `"cuda:"` followed by an
/// unsigned numeral with nothing after it; anything else is rejected.
pub open spec fn parse_device(s: Seq<char>) -> Option<DeviceTag> {
    if s == "cpu"@ {
        Some(DeviceTag::Cpu)
    } else if "cuda:"@.len() <= s.len() && s.subrange(0, "cuda:"@.len() as int) == "cuda:"@
        && is_u64_numeral(s.skip("cuda:"@.len() as int)) {
        Some(DeviceTag::Accelerator(u64_numeral_val(s.skip("cuda:"@.len() as int)) as u64))
    } else {
        None
    }
}

/// Encodes a device tag as its textual form.
pub fn encode_device(d: &DeviceTag) -> (r: String)
    ensures
        r@ == device_str(*d),
{
    match d {
        DeviceTag::Cpu => String::from_str("cpu"),
        DeviceTag::Accelerator(i) => {
            let mut out = String::from_str("cuda:");
            append_dec_u64(&mut out, *i);
            out
        },
    }
}

/// Decodes a device string, rejecting anything that is neither `"cpu"` nor a
/// well-formed `"cuda:<index>"`.
pub fn decode_device(s: &str) -> (r: Result<DeviceTag, CodecError>)
    ensures
        r is Ok <==> parse_device(s@) is Some,
        match parse_device(s@) {
            Some(d) => r == Ok::<DeviceTag, CodecError>(d),
            None => r matches Err(CodecError::InvalidDeviceString(t)) && t@ == s@,
        },
{
    if str_eq(s, "cpu") {
        return Ok(DeviceTag::Cpu);
    }
    if has_prefix(s, "cuda:") {
        proof {
            reveal_strlit("cuda:");
        }
        let n = s.unicode_len();
        let rest = s.substring_char(5, n);
        proof {
            assert(rest@ =~= s@.skip(5));
        }
        match parse_u64_numeral(rest) {
            Some(v) => {
                return Ok(DeviceTag::Accelerator(v));
            },
            None => {},
        }
    }
    Err(CodecError::InvalidDeviceString(s.to_owned()))
}

/// Law: decoding an encoded device string gives back the device.
pub proof fn lemma_device_round_trip(d: DeviceTag)
    ensures
        parse_device(device_str(d)) == Some(d),
{
    reveal_strlit("cpu");
    reveal_strlit("cuda:");
    match d {
        DeviceTag::Cpu => {},
        DeviceTag::Accelerator(i) => {
            lemma_dec_digits(i as nat);
            let body = dec_digits(i as nat);
            let s = "cuda:"@ + body;
            assert(s.len() >= 6);
            assert(s.subrange(0, 5) =~= "cuda:"@);
            assert(s.skip(5) =~= body);
            assert(is_digit_char(body[0]));
            assert(body[0] != '+');
            assert(strip_plus(body) == body);
            assert(is_u64_numeral(body));
            assert(u64_numeral_val(body) == i);
        },
    }
}

} // verus!

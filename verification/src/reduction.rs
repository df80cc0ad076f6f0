//! The reduction-mode codec: a loss-reduction policy to and from `"none"`,
//! `"mean"`, `"sum"` or `"other:<code>"`.

use crate::error::CodecError;
use crate::numeral::{
    append_dec_i64, dec_digits, dec_signed, is_digit_char, is_i64_numeral, i64_numeral_val,
    lemma_dec_digits, parse_i64_numeral, strip_plus,
};
use crate::text::{has_prefix, str_eq};
use vstd::prelude::*;
use vstd::string::*;

verus! {

/// How a loss or metric aggregates per-element values: not at all, by mean,
/// by sum, or by an implementation-specific custom code.
#[derive(Clone, Copy, Debug, PartialEq, Eq, Structural)]
pub enum ReductionMode {
    NoReduction,
    Mean,
    Sum,
    Custom(i64),
}

/// The textual form of a reduction mode: a fixed keyword, or `"other:"`
/// followed by the signed decimal custom code.
pub open spec fn reduction_str(m: ReductionMode) -> Seq<char> {
    match m {
        ReductionMode::NoReduction => "none"@,
        ReductionMode::Mean => "mean"@,
        ReductionMode::Sum => "sum"@,
        ReductionMode::Custom(v) => "other:"@ + dec_signed(v as int),
    }
}

/// Decoding of a reduction string: one of the three keywords exactly, or
/// `"other:"` followed by a signed numeral with nothing after it; anything
/// else is rejected.
pub open spec fn parse_reduction(s: Seq<char>) -> Option<ReductionMode> {
    if s == "none"@ {
        Some(ReductionMode::NoReduction)
    } else if s == "mean"@ {
        Some(ReductionMode::Mean)
    } else if s == "sum"@ {
        Some(ReductionMode::Sum)
    } else if "other:"@.len() <= s.len() && s.subrange(0, "other:"@.len() as int) == "other:"@
        && is_i64_numeral(s.skip("other:"@.len() as int)) {
        Some(ReductionMode::Custom(i64_numeral_val(s.skip("other:"@.len() as int)) as i64))
    } else {
        None
    }
}

/// Encodes a reduction mode as its textual form.
pub fn encode_reduction(m: &ReductionMode) -> (r: String)
    ensures
        r@ == reduction_str(*m),
{
    match m {
        ReductionMode::NoReduction => String::from_str("none"),
        ReductionMode::Mean => String::from_str("mean"),
        ReductionMode::Sum => String::from_str("sum"),
        ReductionMode::Custom(v) => {
            let mut out = String::from_str("other:");
            append_dec_i64(&mut out, *v);
            out
        },
    }
}

/// Decodes a reduction string, rejecting anything that is neither a keyword
/// nor a well-formed `"other:<code>"`.
pub fn decode_reduction(s: &str) -> (r: Result<ReductionMode, CodecError>)
    ensures
        r is Ok <==> parse_reduction(s@) is Some,
        match parse_reduction(s@) {
            Some(m) => r == Ok::<ReductionMode, CodecError>(m),
            None => r matches Err(CodecError::InvalidReductionString(t)) && t@ == s@,
        },
{
    if str_eq(s, "none") {
        return Ok(ReductionMode::NoReduction);
    }
    if str_eq(s, "mean") {
        return Ok(ReductionMode::Mean);
    }
    if str_eq(s, "sum") {
        return Ok(ReductionMode::Sum);
    }
    if has_prefix(s, "other:") {
        proof {
            reveal_strlit("other:");
        }
        let n = s.unicode_len();
        let rest = s.substring_char(6, n);
        proof {
            assert(rest@ =~= s@.skip(6));
        }
        match parse_i64_numeral(rest) {
            Some(v) => {
                return Ok(ReductionMode::Custom(v));
            },
            None => {},
        }
    }
    Err(CodecError::InvalidReductionString(s.to_owned()))
}

/// Law: decoding an encoded reduction string gives back the mode.
pub proof fn lemma_reduction_round_trip(m: ReductionMode)
    ensures
        parse_reduction(reduction_str(m)) == Some(m),
{
    reveal_strlit("none");
    reveal_strlit("mean");
    reveal_strlit("sum");
    reveal_strlit("other:");
    match m {
        ReductionMode::NoReduction => {},
        ReductionMode::Mean => {
            assert("mean"@[0] == 'm' && "none"@[0] == 'n');
        },
        ReductionMode::Sum => {
            assert("sum"@[0] == 's' && "none"@[0] == 'n' && "mean"@[0] == 'm');
        },
        ReductionMode::Custom(v) => {
            let body = dec_signed(v as int);
            let s = "other:"@ + body;
            if v < 0 {
                lemma_dec_digits((-(v as int)) as nat);
                assert(body =~= seq!['-'] + dec_digits((-(v as int)) as nat));
                assert(body[0] == '-');
                assert(body.drop_first() =~= dec_digits((-(v as int)) as nat));
            } else {
                lemma_dec_digits(v as nat);
                assert(is_digit_char(body[0]));
                assert(body[0] != '-' && body[0] != '+');
                assert(strip_plus(body) == body);
            }
            assert(s.len() >= 7);
            assert(s.subrange(0, 6) =~= "other:"@);
            assert(s.skip(6) =~= body);
            assert(is_i64_numeral(body));
            assert(i64_numeral_val(body) == v);
            assert("none"@.len() == 4 && "mean"@.len() == 4 && "sum"@.len() == 3);
        },
    }
}

} // verus!

//! Decimal numerals: canonical formatting of integers, and parsing with the
//! usual lenient grammar (an optional sign, then one or more digits).

use vstd::prelude::*;
use vstd::string::*;

verus! {

/// The ten decimal digit characters.
pub open spec fn is_digit_char(c: char) -> bool {
    c == '0' || c == '1' || c == '2' || c == '3' || c == '4' || c == '5' || c == '6' || c == '7'
        || c == '8' || c == '9'
}

/// Numeric value of a digit character; meaningful only on digit characters,
/// but always in `0..=9`.
pub open spec fn digit_val(c: char) -> int {
    if c == '0' {
        0
    } else if c == '1' {
        1
    } else if c == '2' {
        2
    } else if c == '3' {
        3
    } else if c == '4' {
        4
    } else if c == '5' {
        5
    } else if c == '6' {
        6
    } else if c == '7' {
        7
    } else if c == '8' {
        8
    } else {
        9
    }
}

/// The digit character for a value in `0..=9`.
pub open spec fn digit_char(d: int) -> char {
    if d == 0 {
        '0'
    } else if d == 1 {
        '1'
    } else if d == 2 {
        '2'
    } else if d == 3 {
        '3'
    } else if d == 4 {
        '4'
    } else if d == 5 {
        '5'
    } else if d == 6 {
        '6'
    } else if d == 7 {
        '7'
    } else if d == 8 {
        '8'
    } else {
        '9'
    }
}

/// Every character of `s` is a decimal digit.
pub open spec fn all_digits(s: Seq<char>) -> bool {
    forall|i: int| 0 <= i < s.len() ==> is_digit_char(#[trigger] s[i])
}

/// Value of a digit string read most-significant first.
pub open spec fn digits_val(s: Seq<char>) -> int
    decreases s.len(),
{
    if s.len() == 0 {
        0
    } else {
        digits_val(s.drop_last()) * 10 + digit_val(s.last())
    }
}

/// The canonical decimal digits of `n`: no sign, and no leading zero except
/// for `"0"` itself.
pub open spec fn dec_digits(n: nat) -> Seq<char>
    decreases n,
{
    if n < 10 {
        seq![digit_char(n as int)]
    } else {
        dec_digits(n / 10) + seq![digit_char((n % 10) as int)]
    }
}

/// The canonical signed decimal form of `v`: a minus sign before the digits
/// of the magnitude when `v` is negative, no sign otherwise.
pub open spec fn dec_signed(v: int) -> Seq<char> {
    if v < 0 {
        seq!['-'] + dec_digits((-v) as nat)
    } else {
        dec_digits(v as nat)
    }
}

/// `s` without one leading plus sign, if it has one.
pub open spec fn strip_plus(s: Seq<char>) -> Seq<char> {
    if s.len() > 0 && s[0] == '+' {
        s.drop_first()
    } else {
        s
    }
}

/// `s` is an unsigned numeral whose value fits in `u64`: an optional plus
/// sign, then one or more digits.
pub open spec fn is_u64_numeral(s: Seq<char>) -> bool {
    let b = strip_plus(s);
    b.len() > 0 && all_digits(b) && digits_val(b) <= u64::MAX as int
}

/// Value of an unsigned numeral.
pub open spec fn u64_numeral_val(s: Seq<char>) -> int {
    digits_val(strip_plus(s))
}

/// `s` is a signed numeral whose value fits in `i64`: an optional plus or
/// minus sign, then one or more digits.
pub open spec fn is_i64_numeral(s: Seq<char>) -> bool {
    if s.len() > 0 && s[0] == '-' {
        let b = s.drop_first();
        b.len() > 0 && all_digits(b) && -digits_val(b) >= i64::MIN as int
    } else {
        let b = strip_plus(s);
        b.len() > 0 && all_digits(b) && digits_val(b) <= i64::MAX as int
    }
}

/// Value of a signed numeral.
pub open spec fn i64_numeral_val(s: Seq<char>) -> int {
    if s.len() > 0 && s[0] == '-' {
        -digits_val(s.drop_first())
    } else {
        digits_val(strip_plus(s))
    }
}

/// The value of a digit string is never negative.
pub proof fn lemma_digits_val_nonneg(s: Seq<char>)
    ensures
        0 <= digits_val(s),
    decreases s.len(),
{
    if s.len() > 0 {
        lemma_digits_val_nonneg(s.drop_last());
    }
}

/// Appending a digit multiplies the value by ten and adds the digit.
pub proof fn lemma_digits_val_push(s: Seq<char>, c: char)
    ensures
        digits_val(s.push(c)) == digits_val(s) * 10 + digit_val(c),
{
    assert(s.push(c).drop_last() =~= s);
    assert(s.push(c).last() == c);
}

/// A prefix of a digit string never has a larger value than the whole.
pub proof fn lemma_digits_val_prefix(s: Seq<char>, j: int)
    requires
        0 <= j <= s.len(),
    ensures
        digits_val(s.take(j)) <= digits_val(s),
    decreases s.len(),
{
    if j == s.len() {
        assert(s.take(j) =~= s);
    } else {
        lemma_digits_val_prefix(s.drop_last(), j);
        assert(s.drop_last().take(j) =~= s.take(j));
        lemma_digits_val_nonneg(s.drop_last());
    }
}

/// The canonical digits of `n` are nonempty, all digits, and read back to `n`.
pub proof fn lemma_dec_digits(n: nat)
    ensures
        dec_digits(n).len() >= 1,
        all_digits(dec_digits(n)),
        digits_val(dec_digits(n)) == n,
    decreases n,
{
    if n < 10 {
        let s = dec_digits(n);
        assert(s =~= Seq::<char>::empty().push(digit_char(n as int)));
        lemma_digits_val_push(Seq::<char>::empty(), digit_char(n as int));
    } else {
        lemma_dec_digits(n / 10);
        let pre = dec_digits(n / 10);
        let c = digit_char((n % 10) as int);
        let s = dec_digits(n);
        assert(s =~= pre.push(c));
        lemma_digits_val_push(pre, c);
        assert(digits_val(s) == digits_val(pre) * 10 + digit_val(c));
        assert(n / 10 * 10 + n % 10 == n) by {
            vstd::arithmetic::div_mod::lemma_fundamental_div_mod(n as int, 10);
        };
        assert forall|i: int| 0 <= i < s.len() implies is_digit_char(#[trigger] s[i]) by {
            if i < pre.len() {
                assert(s[i] == pre[i]);
            } else {
                assert(s[i] == c);
            }
        };
    }
}

/// A one-character string slice holding the given digit.
fn digit_str(d: u64) -> (r: &'static str)
    requires
        d < 10,
    ensures
        r@ == seq![digit_char(d as int)],
{
    proof {
        reveal_strlit("0");
        reveal_strlit("1");
        reveal_strlit("2");
        reveal_strlit("3");
        reveal_strlit("4");
        reveal_strlit("5");
        reveal_strlit("6");
        reveal_strlit("7");
        reveal_strlit("8");
        reveal_strlit("9");
    }
    if d == 0 {
        proof { assert("0"@ =~= seq![digit_char(0int)]); }
        "0"
    } else if d == 1 {
        proof { assert("1"@ =~= seq![digit_char(1int)]); }
        "1"
    } else if d == 2 {
        proof { assert("2"@ =~= seq![digit_char(2int)]); }
        "2"
    } else if d == 3 {
        proof { assert("3"@ =~= seq![digit_char(3int)]); }
        "3"
    } else if d == 4 {
        proof { assert("4"@ =~= seq![digit_char(4int)]); }
        "4"
    } else if d == 5 {
        proof { assert("5"@ =~= seq![digit_char(5int)]); }
        "5"
    } else if d == 6 {
        proof { assert("6"@ =~= seq![digit_char(6int)]); }
        "6"
    } else if d == 7 {
        proof { assert("7"@ =~= seq![digit_char(7int)]); }
        "7"
    } else if d == 8 {
        proof { assert("8"@ =~= seq![digit_char(8int)]); }
        "8"
    } else {
        proof { assert("9"@ =~= seq![digit_char(9int)]); }
        "9"
    }
}

/// The digit value of a character, if it is one.
fn char_to_digit(c: char) -> (r: Option<u64>)
    ensures
        match r {
            Some(d) => is_digit_char(c) && d < 10 && d as int == digit_val(c),
            None => !is_digit_char(c),
        },
{
    if c == '0' {
        Some(0)
    } else if c == '1' {
        Some(1)
    } else if c == '2' {
        Some(2)
    } else if c == '3' {
        Some(3)
    } else if c == '4' {
        Some(4)
    } else if c == '5' {
        Some(5)
    } else if c == '6' {
        Some(6)
    } else if c == '7' {
        Some(7)
    } else if c == '8' {
        Some(8)
    } else if c == '9' {
        Some(9)
    } else {
        None
    }
}

/// Appends the canonical decimal digits of `n` to `out`.
pub(crate) fn append_dec_u64(out: &mut String, n: u64)
    ensures
        final(out)@ == old(out)@ + dec_digits(n as nat),
    decreases n,
{
    let ghost entry = out@;
    if n >= 10 {
        append_dec_u64(out, n / 10);
    }
    out.append(digit_str(n % 10));
    proof {
        if n < 10 {
            assert(out@ =~= entry + dec_digits(n as nat));
        } else {
            assert(out@ =~= entry + dec_digits(n as nat));
        }
    }
}

/// Appends the canonical signed decimal form of `v` to `out`.
pub(crate) fn append_dec_i64(out: &mut String, v: i64)
    ensures
        final(out)@ == old(out)@ + dec_signed(v as int),
{
    let ghost entry = out@;
    if v < 0 {
        out.append("-");
        let m: u64 = ((-1 - v) as u64) + 1;
        proof {
            assert(m as int == -(v as int));
        }
        append_dec_u64(out, m);
        proof {
            reveal_strlit("-");
            assert("-"@ =~= seq!['-']);
            assert(out@ =~= entry + dec_signed(v as int));
        }
    } else {
        append_dec_u64(out, v as u64);
    }
}

/// Parses the digits of `s` from position `start` to the end as a `u64`.
fn parse_digits_from(s: &str, start: usize) -> (r: Option<u64>)
    requires
        start as int <= s@.len(),
    ensures
        ({
            let b = s@.skip(start as int);
            match r {
                Some(v) => b.len() > 0 && all_digits(b) && v as int == digits_val(b),
                None => !(b.len() > 0 && all_digits(b) && digits_val(b) <= u64::MAX as int),
            }
        }),
{
    let n = s.unicode_len();
    let ghost b = s@.skip(start as int);
    if start >= n {
        return None;
    }
    let mut j: usize = start;
    let mut acc: u64 = 0;
    while j < n
        invariant
            start <= j <= n,
            start < n,
            n == s@.len(),
            b == s@.skip(start as int),
            forall|k: int| start <= k < j ==> is_digit_char(#[trigger] s@[k]),
            acc as int == digits_val(s@.subrange(start as int, j as int)),
        decreases n - j,
    {
        let c = s.get_char(j);
        let ghost pre = s@.subrange(start as int, j as int);
        proof {
            assert(s@.subrange(start as int, j as int + 1) =~= pre.push(s@[j as int]));
            lemma_digits_val_push(pre, s@[j as int]);
        }
        match char_to_digit(c) {
            None => {
                proof {
                    assert(b[j - start] == s@[j as int]);
                }
                return None;
            },
            Some(d) => {
                let wide: u128 = (acc as u128) * 10 + (d as u128);
                if wide > u64::MAX as u128 {
                    proof {
                        assert(digits_val(s@.subrange(start as int, j as int + 1)) > u64::MAX as int);
                        assert(s@.subrange(start as int, j as int + 1) =~= b.take(
                            j as int + 1 - start,
                        ));
                        lemma_digits_val_prefix(b, j as int + 1 - start);
                    }
                    return None;
                }
                acc = wide as u64;
            },
        }
        j += 1;
    }
    proof {
        assert(s@.subrange(start as int, n as int) =~= b);
    }
    Some(acc)
}

/// Parses `s` as an unsigned numeral: an optional plus sign, then digits.
pub(crate) fn parse_u64_numeral(s: &str) -> (r: Option<u64>)
    ensures
        match r {
            Some(v) => is_u64_numeral(s@) && v as int == u64_numeral_val(s@),
            None => !is_u64_numeral(s@),
        },
{
    let n = s.unicode_len();
    let start: usize = if n > 0 && s.get_char(0) == '+' {
        1
    } else {
        0
    };
    proof {
        assert(strip_plus(s@) =~= s@.skip(start as int));
    }
    parse_digits_from(s, start)
}

/// Parses `s` as a signed numeral: an optional sign, then digits.
pub(crate) fn parse_i64_numeral(s: &str) -> (r: Option<i64>)
    ensures
        match r {
            Some(v) => is_i64_numeral(s@) && v as int == i64_numeral_val(s@),
            None => !is_i64_numeral(s@),
        },
{
    let n = s.unicode_len();
    if n > 0 && s.get_char(0) == '-' {
        proof {
            assert(s@.drop_first() =~= s@.skip(1));
        }
        match parse_digits_from(s, 1) {
            Some(m) => {
                if m < 9223372036854775808u64 {
                    Some(-(m as i64))
                } else if m == 9223372036854775808u64 {
                    Some(i64::MIN)
                } else {
                    None
                }
            },
            None => None,
        }
    } else {
        let start: usize = if n > 0 && s.get_char(0) == '+' {
            1
        } else {
            0
        };
        proof {
            assert(strip_plus(s@) =~= s@.skip(start as int));
        }
        match parse_digits_from(s, start) {
            Some(m) => {
                if m <= i64::MAX as u64 {
                    Some(m as i64)
                } else {
                    None
                }
            },
            None => None,
        }
    }
}

} // verus!

//! Conversion functions: `toBoolean`, `toInteger`, `toFloat` and `toString`.
//!
//! Each takes a boolean or any value; a value that cannot be converted gives `NULL`. Conversions
//! that compute on floats are handed back to the caller as a `Converted` request.
use vstd::prelude::*;

use crate::function::{is_plain_lowercase, lowercase, to_lowercase};
use crate::function::arith::SIGN_BIT;
use crate::scalar::{decimal, digit_char, digits, integer_text, ScalarModel, ScalarValue};

verus! {

/// The bits of the double `1.0`.
pub const ONE_BITS: u64 = 0x3FF0_0000_0000_0000u64;

/// What a conversion gives.
pub enum Converted {
    /// The converted value (`None` is `NULL`).
    Value(Option<ScalarValue>),
    /// The float with these bits converted with `as i64`; left to the caller.
    FloatToInteger(u64),
    /// The integer converted with `as f64`; left to the caller.
    IntegerToFloat(i64),
    /// The text parsed as an `f64`, `NULL` when it is not one; left to the caller.
    ParseFloat(String),
    /// The display text of the float with these bits; left to the caller.
    FloatText(u64),
}

/// Whether `r` is `Converted::Value` holding a value with model `m`.
pub open spec fn converted_to(r: Converted, m: Option<ScalarModel>) -> bool {
    r matches Converted::Value(d) && match (d, m) {
        (Some(v), Some(x)) => v@ == x,
        (None, None) => true,
        _ => false,
    }
}

/// The value of an ASCII digit.
pub open spec fn digit_value(c: char) -> int {
    (c as int) - ('0' as int)
}

pub open spec fn is_digit(c: char) -> bool {
    '0' <= c <= '9'
}

/// The number that a sequence of decimal digits writes.
pub open spec fn digits_value(s: Seq<char>) -> int
    decreases s.len(),
{
    if s.len() == 0 {
        0
    } else {
        digits_value(s.drop_last()) * 10 + digit_value(s.last())
    }
}

/// `s` without its leading sign, if it has one.
pub open spec fn unsigned_part(s: Seq<char>) -> Seq<char> {
    if s.len() > 0 && (s[0] == '-' || s[0] == '+') {
        s.drop_first()
    } else {
        s
    }
}

/// What `str::parse::<i64>` gives: an optional `+` or `-` sign followed by at least one decimal
/// digit, and a value within the range of `i64`.
pub open spec fn parse_i64(s: Seq<char>) -> Option<i64> {
    let body = unsigned_part(s);
    let value = if s.len() > 0 && s[0] == '-' {
        -digits_value(body)
    } else {
        digits_value(body)
    };
    if body.len() > 0 && (forall|i: int| 0 <= i < body.len() ==> is_digit(#[trigger] body[i])) && i64::MIN
        <= value <= i64::MAX {
        Some(value as i64)
    } else {
        None
    }
}

proof fn lemma_digits_value_prefix(s: Seq<char>, k: int)
    requires
        0 <= k < s.len(),
    ensures
        digits_value(s.subrange(0, k + 1)) == digits_value(s.subrange(0, k)) * 10 + digit_value(s[k]),
{
    assert(s.subrange(0, k + 1).drop_last() =~= s.subrange(0, k));
}

proof fn lemma_digits_value_grows(s: Seq<char>, k: int)
    requires
        0 <= k <= s.len(),
        forall|i: int| 0 <= i < s.len() ==> is_digit(#[trigger] s[i]),
    ensures
        0 <= digits_value(s.subrange(0, k)) <= digits_value(s),
    decreases s.len() - k,
{
    if k < s.len() {
        lemma_digits_value_prefix(s, k);
        lemma_digits_value_grows(s, k + 1);
    } else {
        assert(s.subrange(0, k) =~= s);
        lemma_digits_value_nonneg(s);
    }
}

proof fn lemma_digits_value_nonneg(s: Seq<char>)
    requires
        forall|i: int| 0 <= i < s.len() ==> is_digit(#[trigger] s[i]),
    ensures
        digits_value(s) >= 0,
    decreases s.len(),
{
    if s.len() > 0 {
        let t = s.drop_last();
        assert forall|i: int| 0 <= i < t.len() implies is_digit(#[trigger] t[i]) by {
            assert(t[i] == s[i]);
        }
        lemma_digits_value_nonneg(t);
        assert(is_digit(s[s.len() - 1]));
    }
}

/// `text.parse::<i64>().ok()`.
pub fn parse_integer(text: &str) -> (r: Option<i64>)
    ensures
        r == parse_i64(text@),
{
    let n = text.unicode_len();
    let ghost s = text@;
    let mut start: usize = 0;
    let mut negative = false;
    if n > 0 {
        let c = text.get_char(0);
        if c == '-' {
            negative = true;
            start = 1;
        } else if c == '+' {
            start = 1;
        }
    }
    let ghost body = s.subrange(start as int, n as int);
    proof {
        assert(body =~= unsigned_part(s));
    }
    if start == n {
        return None;
    }
    let limit: u128 = 0x8000_0000_0000_0000u128;
    let mut acc: u128 = 0;
    let mut i: usize = start;
    while i < n
        invariant
            start <= i <= n,
            n == s.len(),
            s == text@,
            body == s.subrange(start as int, n as int),
            forall|k: int| 0 <= k < i - start ==> is_digit(#[trigger] body[k]),
            body == unsigned_part(s),
            negative == (s.len() > 0 && s[0] == '-'),
            limit == 0x8000_0000_0000_0000u128,
            acc == digits_value(body.subrange(0, i - start)),
            acc <= limit,
        decreases n - i,
    {
        let c = text.get_char(i);
        if !('0' <= c && c <= '9') {
            assert(!is_digit(body[i - start]));
            return None;
        }
        proof {
            lemma_digits_value_prefix(body, i - start);
        }
        let d = (c as u32 - '0' as u32) as u128;
        acc = acc * 10 + d;
        i = i + 1;
        if acc > limit {
            proof {
                assert(is_digit(body[i - 1 - start]));
            }
            let ghost k = (i - start) as int;
            // the remaining characters are either not digits, or only make the value larger
            let mut j: usize = i;
            while j < n
                invariant
                    i <= j <= n,
                    n == s.len(),
                    s == text@,
                    start <= i,
                    body == s.subrange(start as int, n as int),
                    body == unsigned_part(s),
                    forall|m: int| 0 <= m < j - start ==> is_digit(#[trigger] body[m]),
                decreases n - j,
            {
                let c2 = text.get_char(j);
                if !('0' <= c2 && c2 <= '9') {
                    assert(!is_digit(body[j - start]));
                    return None;
                }
                j = j + 1;
            }
            proof {
                lemma_digits_value_grows(body, k);
            }
            return None;
        }
    }
    proof {
        assert(body.subrange(0, i - start) =~= body);
    }
    if negative {
        if acc == limit {
            Some(i64::MIN)
        } else {
            let v = acc as i64;
            Some(-v)
        }
    } else {
        if acc > 0x7FFF_FFFF_FFFF_FFFFu128 {
            None
        } else {
            Some(acc as i64)
        }
    }
}

/// `toBoolean` of a boolean.
pub fn boolean_to_boolean(b: bool) -> (r: bool)
    ensures
        r == b,
{
    b
}

/// Whether a double is not zero (neither `0.0` nor `-0.0`).
pub open spec fn float_nonzero(bits: u64) -> bool {
    bits & !SIGN_BIT != 0
}

/// The boolean that a text reads as `str::parse::<bool>` reads it: exactly `true` or `false`.
pub open spec fn parse_bool(s: Seq<char>) -> Option<bool> {
    if s == "true"@ {
        Some(true)
    } else if s == "false"@ {
        Some(false)
    } else {
        None
    }
}

/// `toBoolean`: a boolean as it is, a string that reads `true` or `false` once in lower case, a
/// number tested against zero; `NULL` for anything else, a string that reads as no boolean
/// included.
pub fn any_to_boolean(arg: &ScalarValue) -> (r: Option<bool>)
    ensures
        r == match arg@ {
            ScalarModel::Bool(b) => Some(b),
            ScalarModel::String(s) => parse_bool(lowercase(s)),
            ScalarModel::Integer(i) => Some(i != 0),
            ScalarModel::Float(f) => Some(float_nonzero(f)),
            _ => None::<bool>,
        },
{
    match arg {
        ScalarValue::Bool(b) => Some(*b),
        ScalarValue::String(s) => {
            let lower = to_lowercase(s.as_str());
            let t = String::from_str("true");
            let f = String::from_str("false");
            if lower == t {
                Some(true)
            } else if lower == f {
                Some(false)
            } else {
                None
            }
        },
        ScalarValue::Integer(i) => Some(*i != 0),
        ScalarValue::Float(f) => Some(*f & !SIGN_BIT != 0),
        _ => None,
    }
}

/// `toInteger` of a boolean: 1 or 0.
pub fn boolean_to_integer(b: bool) -> (r: ScalarValue)
    ensures
        r@ == ScalarModel::Integer(if b { 1 } else { 0 }),
{
    if b {
        ScalarValue::Integer(1)
    } else {
        ScalarValue::Integer(0)
    }
}

/// `toInteger`: an integer as it is, a boolean as 1 or 0, a string that parses as an integer once
/// in lower case, a float truncated (left to the caller); `NULL` for anything else.
pub fn any_to_integer(arg: &ScalarValue) -> (r: Converted)
    ensures
        match arg@ {
            ScalarModel::Integer(i) => converted_to(r, Some(ScalarModel::Integer(i))),
            ScalarModel::Bool(b) => converted_to(r, Some(ScalarModel::Integer(if b { 1 } else { 0 }))),
            ScalarModel::String(s) => converted_to(
                r,
                match parse_i64(lowercase(s)) {
                    Some(i) => Some(ScalarModel::Integer(i)),
                    None => None,
                },
            ),
            ScalarModel::Float(f) => r == Converted::FloatToInteger(f),
            _ => converted_to(r, None),
        },
{
    match arg {
        ScalarValue::Integer(i) => Converted::Value(Some(ScalarValue::Integer(*i))),
        ScalarValue::Float(f) => Converted::FloatToInteger(*f),
        ScalarValue::Bool(b) => Converted::Value(Some(boolean_to_integer(*b))),
        ScalarValue::String(s) => {
            let lower = to_lowercase(s.as_str());
            match parse_integer(lower.as_str()) {
                Some(i) => Converted::Value(Some(ScalarValue::Integer(i))),
                None => Converted::Value(None),
            }
        },
        _ => Converted::Value(None),
    }
}

/// `toFloat` of a boolean: `1.0` or `0.0`.
pub fn boolean_to_float(b: bool) -> (r: ScalarValue)
    ensures
        r@ == ScalarModel::Float(if b { ONE_BITS } else { 0 }),
{
    if b {
        ScalarValue::Float(ONE_BITS)
    } else {
        ScalarValue::Float(0)
    }
}

/// `toFloat`: a float as it is, an integer converted and a string parsed (both left to the caller);
/// `NULL` for anything else.
pub fn any_to_float(arg: &ScalarValue) -> (r: Converted)
    ensures
        match arg@ {
            ScalarModel::Float(f) => converted_to(r, Some(ScalarModel::Float(f))),
            ScalarModel::Integer(i) => r == Converted::IntegerToFloat(i),
            ScalarModel::String(s) => r matches Converted::ParseFloat(t) && t@ == s,
            _ => converted_to(r, None),
        },
{
    match arg {
        ScalarValue::Float(f) => Converted::Value(Some(ScalarValue::Float(*f))),
        ScalarValue::Integer(i) => Converted::IntegerToFloat(*i),
        ScalarValue::String(s) => Converted::ParseFloat(s.clone()),
        _ => Converted::Value(None),
    }
}

/// The text of a boolean.
pub open spec fn bool_text(b: bool) -> Seq<char> {
    if b {
        "true"@
    } else {
        "false"@
    }
}

/// `toString` of a boolean: `true` or `false`.
pub fn boolean_to_string(b: bool) -> (r: ScalarValue)
    ensures
        r@ == ScalarModel::String(bool_text(b)),
{
    if b {
        ScalarValue::String(String::from_str("true"))
    } else {
        ScalarValue::String(String::from_str("false"))
    }
}

/// `toString`: the decimal text of an integer, a string as it is, `true` or `false`, the display
/// text of a float (left to the caller); `NULL` for anything else.
pub fn any_to_string(arg: &ScalarValue) -> (r: Converted)
    ensures
        match arg@ {
            ScalarModel::Integer(i) => converted_to(r, Some(ScalarModel::String(decimal(i as int)))),
            ScalarModel::String(s) => converted_to(r, Some(ScalarModel::String(s))),
            ScalarModel::Bool(b) => converted_to(r, Some(ScalarModel::String(bool_text(b)))),
            ScalarModel::Float(f) => r == Converted::FloatText(f),
            _ => converted_to(r, None),
        },
{
    match arg {
        ScalarValue::Integer(i) => Converted::Value(Some(ScalarValue::String(integer_text(*i)))),
        ScalarValue::String(s) => Converted::Value(Some(ScalarValue::String(s.clone()))),
        ScalarValue::Float(f) => Converted::FloatText(*f),
        ScalarValue::Bool(b) => Converted::Value(Some(boolean_to_string(*b))),
        _ => Converted::Value(None),
    }
}

proof fn lemma_digit_char(d: nat)
    requires
        d < 10,
    ensures
        is_digit(digit_char(d)),
        digit_value(digit_char(d)) == d,
{
}

proof fn lemma_digits_facts(n: nat)
    ensures
        digits(n).len() >= 1,
        forall|i: int| 0 <= i < digits(n).len() ==> is_digit(#[trigger] digits(n)[i]),
        digits_value(digits(n)) == n,
    decreases n,
{
    lemma_digit_char(n % 10);
    if n >= 10 {
        lemma_digits_facts(n / 10);
        let d = digits(n / 10);
        let s = d.push(digit_char(n % 10));
        assert(s.drop_last() =~= d);
        assert(s.last() == digit_char(n % 10));
        assert(digits_value(s) == digits_value(d) * 10 + digit_value(digit_char(n % 10)));
        assert(n == (n / 10) * 10 + n % 10);
        assert forall|i: int| 0 <= i < s.len() implies is_digit(#[trigger] s[i]) by {
            if i < d.len() {
                assert(s[i] == d[i]);
            }
        }
    } else {
        let s = seq![digit_char(n)];
        assert(s.drop_last() =~= Seq::<char>::empty());
        assert(digits_value(s) == digits_value(s.drop_last()) * 10 + digit_value(s.last()));
    }
}

/// `toInteger(toString(n)) == n`: the decimal text of an integer, which is plain ASCII and so its
/// own lower case form, parses back to the integer.
pub proof fn law_integer_text_round_trip(n: i64)
    ensures
        is_plain_lowercase(decimal(n as int)),
        parse_i64(decimal(n as int)) == Some(n),
{
    let m: nat = if n < 0 { (-n) as nat } else { n as nat };
    lemma_digits_facts(m);
    let t = decimal(n as int);
    if n < 0 {
        assert(t == seq!['-'] + digits(m));
        assert(t.drop_first() =~= digits(m));
        assert(unsigned_part(t) == digits(m));
    } else {
        assert(t == digits(m));
        assert(is_digit(t[0]));
        assert(unsigned_part(t) == t);
    }
    assert forall|i: int| 0 <= i < t.len() implies (#[trigger] t[i] as u32) < 128 && !('A' <= t[i] <= 'Z') by {
        if n < 0 && i > 0 {
            assert(t[i] == digits(m)[i - 1]);
            assert(is_digit(digits(m)[i - 1]));
        } else if n >= 0 {
            assert(is_digit(digits(m)[i]));
        }
    }
}

/// `toBoolean(toString(b)) == b`: the text of a boolean is plain ASCII and reads back as it.
pub proof fn law_bool_text_round_trip(b: bool)
    ensures
        is_plain_lowercase(bool_text(b)),
        parse_bool(bool_text(b)) == Some(b),
{
    reveal_strlit("true");
    reveal_strlit("false");
    assert("true"@.len() == 4 && "false"@.len() == 5);
}


/// `toBoolean` of a double is `false` exactly for `0.0` and `-0.0` and `true` for every other
/// double, NaN and the infinities included; the sign of a double does not change the answer.
pub proof fn law_float_to_boolean(bits: u64)
    ensures
        float_nonzero(bits) <==> !(bits == 0u64 || bits == 0x8000_0000_0000_0000u64),
        float_nonzero(bits) == float_nonzero(bits ^ 0x8000_0000_0000_0000u64),
{
    assert(((bits & !0x8000_0000_0000_0000u64) != 0u64) <==> !(bits == 0u64 || bits == 0x8000_0000_0000_0000u64))
        by (bit_vector);
    assert(((bits & !0x8000_0000_0000_0000u64) != 0u64) == (((bits ^ 0x8000_0000_0000_0000u64) & !0x8000_0000_0000_0000u64)
        != 0u64)) by (bit_vector);
}

} // verus!

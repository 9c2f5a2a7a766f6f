//! Numeric literals: from the text of a literal to a structured value.
use crate::json::{float_literal, json_float_literal, json_int, json_null, json_of, Json, JsonNumber};
use vstd::prelude::*;
use vstd::string::*;

verus! {

pub open spec fn is_digit(c: char) -> bool {
    '0' <= c && c <= '9'
}

pub open spec fn all_digits(s: Seq<char>) -> bool {
    forall|i: int| 0 <= i < s.len() ==> is_digit(#[trigger] s[i])
}

/// The number that a sequence of decimal digits denotes.
pub open spec fn digits_value(s: Seq<char>) -> int
    decreases s.len(),
{
    if s.len() == 0 {
        0
    } else {
        digits_value(s.drop_last()) * 10 + (s.last() as int - '0' as int)
    }
}

/// What is left of a literal behind its sign, if it has one.
pub open spec fn unsigned_part(s: Seq<char>) -> Seq<char> {
    if s.len() > 0 && (s[0] == '-' || s[0] == '+') {
        s.skip(1)
    } else {
        s
    }
}

/// The integer that a text denotes: an optional `+` or `-`, then one
/// decimal digit or more, and nothing else.
pub open spec fn signed_decimal(s: Seq<char>) -> Option<int> {
    let body = unsigned_part(s);
    if body.len() == 0 || !all_digits(body) {
        None
    } else if s[0] == '-' {
        Some(-digits_value(body))
    } else {
        Some(digits_value(body))
    }
}

/// The text read as a signed 32-bit integer.
pub open spec fn parse_i32(s: Seq<char>) -> Option<int> {
    match signed_decimal(s) {
        Some(v) => if i32::MIN <= v <= i32::MAX {
            Some(v)
        } else {
            None
        },
        None => None,
    }
}

/// The text read as an unsigned 32-bit integer, which takes no `-`.
pub open spec fn parse_u32(s: Seq<char>) -> Option<int> {
    match signed_decimal(s) {
        Some(v) => if s[0] != '-' && v <= u32::MAX {
            Some(v)
        } else {
            None
        },
        None => None,
    }
}

/// The integer of a literal without fraction and exponent: read as a signed
/// 32-bit integer, and where that fails as an unsigned one.
pub open spec fn int_literal(s: Seq<char>) -> Option<int> {
    match parse_i32(s) {
        Some(v) => Some(v),
        None => parse_u32(s),
    }
}

/// Whether a literal is read as a floating-point number: it holds a decimal
/// point or an exponent marker, `e` or `E`.
pub open spec fn is_float_text(s: Seq<char>) -> bool {
    s.contains('.') || s.contains('e') || s.contains('E')
}

/// The structured value of a numeric literal with the given text.
pub open spec fn number_json(raw: Seq<char>) -> Json {
    if is_float_text(raw) {
        match float_literal(raw) {
            Some(bits) => Json::Number(JsonNumber::Float(bits)),
            None => Json::Null,
        }
    } else {
        match int_literal(raw) {
            Some(v) => Json::Number(JsonNumber::Int(v)),
            None => Json::Null,
        }
    }
}

proof fn lemma_digits_value_bounds(s: Seq<char>)
    requires
        all_digits(s),
    ensures
        0 <= digits_value(s),
        s.len() > 0 ==> digits_value(s.drop_last()) * 10 <= digits_value(s),
    decreases s.len(),
{
    if s.len() > 0 {
        lemma_digits_value_bounds(s.drop_last());
    }
}

/// Digits appended to a text never make its value smaller.
proof fn lemma_digits_value_grows(s: Seq<char>, n: int)
    requires
        all_digits(s),
        0 <= n <= s.len(),
    ensures
        digits_value(s.take(n)) <= digits_value(s),
    decreases s.len() - n,
{
    if n < s.len() {
        lemma_digits_value_grows(s, n + 1);
        let t = s.take(n + 1);
        assert(t.drop_last() =~= s.take(n));
        lemma_digits_value_bounds(t);
        lemma_digits_value_bounds(s.take(n));
    } else {
        assert(s.take(n) =~= s);
    }
}

/// Whether the text holds a decimal point or an exponent marker, `e` or
/// `E`.
pub fn has_fraction_or_exponent(raw: &str) -> (r: bool)
    ensures
        r == is_float_text(raw@),
{
    let n = raw.unicode_len();
    let mut i: usize = 0;
    while i < n
        invariant
            n == raw@.len(),
            i <= n,
            forall|j: int| 0 <= j < i ==> raw@[j] != '.' && raw@[j] != 'e' && raw@[j] != 'E',
        decreases n - i,
    {
        let c = raw.get_char(i);
        if c == '.' || c == 'e' || c == 'E' {
            return true;
        }
        i = i + 1;
    }
    false
}

/// Reads a literal as a signed 32-bit integer and, where that fails, as an
/// unsigned one.
pub fn parse_int_literal(raw: &str) -> (r: Option<i64>)
    ensures
        r is Some <==> int_literal(raw@) is Some,
        r is Some ==> r->0 as int == int_literal(raw@)->0,
{
    let n = raw.unicode_len();
    if n == 0 {
        return None;
    }
    let first = raw.get_char(0);
    let negative = first == '-';
    let start: usize = if first == '-' || first == '+' {
        1
    } else {
        0
    };
    if start == n {
        return None;
    }
    let ghost body = unsigned_part(raw@);
    assert(body =~= raw@.skip(start as int));
    let mut value: u64 = 0;
    let mut i: usize = start;
    while i < n
        invariant
            n == raw@.len(),
            start <= i <= n,
            body == raw@.skip(start as int),
            body == unsigned_part(raw@),
            all_digits(body.take(i - start)),
            value == digits_value(body.take(i - start)),
            value <= u32::MAX,
        decreases n - i,
    {
        let c = raw.get_char(i);
        if !(c >= '0' && c <= '9') {
            assert(!is_digit(body[i - start]));
            return None;
        }
        let digit: u64 = (c as u32 - '0' as u32) as u64;
        proof {
            let next = body.take(i - start + 1);
            assert(next.drop_last() =~= body.take(i - start));
            assert(next.last() == c);
            assert forall|j: int| 0 <= j < next.len() implies is_digit(#[trigger] next[j]) by {
                if j < next.len() - 1 {
                    assert(next[j] == body.take(i - start)[j]);
                }
            }
        }
        value = value * 10 + digit;
        i = i + 1;
        if value > u32::MAX as u64 {
            proof {
                // Whatever follows, the value is out of both ranges or the
                // text is no integer at all.
                if all_digits(body) {
                    lemma_digits_value_grows(body, i - start);
                }
            }
            return None;
        }
    }
    assert(body.take(i - start) =~= body);
    if negative {
        if value <= 0x8000_0000 {
            Some(-(value as i64))
        } else {
            None
        }
    } else {
        Some(value as i64)
    }
}

/// The structured value of a numeric literal: a floating-point number where
/// the text holds a decimal point or an exponent marker, else an integer of
/// 32 bits, and null where the text is no such number.
pub fn number_value(raw: &str) -> (r: serde_json::Value)
    ensures
        json_of(r) == number_json(raw@),
{
    if has_fraction_or_exponent(raw) {
        match json_float_literal(raw) {
            Some(number) => number,
            None => json_null(),
        }
    } else {
        match parse_int_literal(raw) {
            Some(v) => json_int(v),
            None => json_null(),
        }
    }
}

} // verus!

//! Recognising numbers in text: the literals that Rust's `i64::from_str` and
//! `f64::from_str` accept.

use vstd::prelude::*;
use crate::text::{chars_of, copy_range, find_first, first_index_of};

verus! {

/// Whether `c` is one of the decimal digits `0` to `9`.
pub open spec fn is_digit(c: char) -> bool {
    '0' <= c <= '9'
}

/// The value of a decimal digit; 0 for any other character.
pub open spec fn digit_value(c: char) -> nat {
    if is_digit(c) {
        (c as u32 - '0' as u32) as nat
    } else {
        0
    }
}

/// Whether `s` holds decimal digits only.
pub open spec fn all_digits(s: Seq<char>) -> bool {
    forall|i: int| 0 <= i < s.len() ==> is_digit(#[trigger] s[i])
}

/// The number that the decimal digits `s` write.
pub open spec fn decimal_value(s: Seq<char>) -> nat
    decreases s.len(),
{
    if s.len() == 0 {
        0
    } else {
        decimal_value(s.drop_last()) * 10 + digit_value(s.last())
    }
}

/// `s` without a leading `+` or `-`.
pub open spec fn unsigned_part(s: Seq<char>) -> Seq<char> {
    if s.len() > 0 && (s[0] == '+' || s[0] == '-') {
        s.skip(1)
    } else {
        s
    }
}

/// Whether `s` starts with a minus sign.
pub open spec fn is_negative(s: Seq<char>) -> bool {
    s.len() > 0 && s[0] == '-'
}

/// The integer that `s` writes: an optional sign, then one or more decimal
/// digits and nothing else.
pub open spec fn signed_decimal(s: Seq<char>) -> Option<int> {
    let digits = unsigned_part(s);
    if digits.len() == 0 || !all_digits(digits) {
        None
    } else if is_negative(s) {
        Some(-(decimal_value(digits) as int))
    } else {
        Some(decimal_value(digits) as int)
    }
}

/// What `i64::from_str` makes of `s`: the integer that `s` writes, where it
/// fits in 64 bits.
pub open spec fn i64_literal_value(s: Seq<char>) -> Option<i64> {
    match signed_decimal(s) {
        Some(v) => if i64::MIN <= v <= i64::MAX {
            Some(v as i64)
        } else {
            None
        },
        None => None,
    }
}

/// Appending digits never makes the number smaller.
pub proof fn lemma_decimal_value_prefix(s: Seq<char>, k: int)
    requires
        0 <= k <= s.len(),
    ensures
        decimal_value(s.take(k)) <= decimal_value(s),
    decreases s.len(),
{
    if k == s.len() {
        assert(s.take(k) == s);
    } else {
        lemma_decimal_value_prefix(s.drop_last(), k);
        assert(s.drop_last().take(k) == s.take(k));
    }
}

/// Whether `c` is a decimal digit.
pub fn char_is_digit(c: char) -> (r: bool)
    ensures
        r == is_digit(c),
{
    '0' <= c && c <= '9'
}

/// Parses a 64-bit signed integer as `i64::from_str` does.
pub fn parse_i64_chars(s: &Vec<char>) -> (r: Option<i64>)
    ensures
        r == i64_literal_value(s@),
{
    let n = s.len();
    let negative = n > 0 && s[0] == '-';
    let start: usize = if n > 0 && (s[0] == '+' || s[0] == '-') {
        1
    } else {
        0
    };
    let ghost digits = unsigned_part(s@);
    assert(digits == s@.skip(start as int));
    if start == n {
        return None;
    }
    let limit: i128 = if negative {
        0x8000_0000_0000_0000
    } else {
        0x7FFF_FFFF_FFFF_FFFF
    };
    let mut acc: i128 = 0;
    let mut i: usize = start;
    assert(digits.take(0) == Seq::<char>::empty());
    while i < n
        invariant
            start <= i <= n == s@.len(),
            digits == s@.skip(start as int),
            digits == unsigned_part(s@),
            negative == is_negative(s@),
            limit == if negative {
                0x8000_0000_0000_0000i128
            } else {
                0x7FFF_FFFF_FFFF_FFFFi128
            },
            all_digits(digits.take(i - start)),
            acc == decimal_value(digits.take(i - start)),
            0 <= acc <= limit <= 0x8000_0000_0000_0000,
        decreases n - i,
    {
        let c = s[i];
        if !char_is_digit(c) {
            assert(!is_digit(digits[i - start]));
            return None;
        }
        let d: i128 = (c as u32 - '0' as u32) as i128;
        let ghost longer = digits.take(i - start + 1);
        assert(longer.drop_last() == digits.take(i - start));
        assert(longer.last() == c);
        assert(all_digits(longer));
        if acc * 10 + d > limit {
            proof {
                lemma_decimal_value_prefix(digits, i - start + 1);
            }
            return None;
        }
        acc = acc * 10 + d;
        i += 1;
    }
    assert(digits.take(digits.len() as int) == digits);
    if negative {
        Some((-acc) as i64)
    } else {
        Some(acc as i64)
    }
}

/// Parses a 64-bit signed integer as `i64::from_str` does.
pub fn parse_i64(s: &str) -> (r: Option<i64>)
    ensures
        r == i64_literal_value(s@),
{
    let chars = chars_of(s);
    parse_i64_chars(&chars)
}

/// The lower-case form of an ASCII letter; any other character unchanged.
pub open spec fn ascii_lower(c: char) -> char {
    if 'A' <= c <= 'Z' {
        ((c as u32) + 32) as char
    } else {
        c
    }
}

/// Whether `s` and `t` are equal but for the case of their ASCII letters.
pub open spec fn eq_ignore_ascii_case(s: Seq<char>, t: Seq<char>) -> bool {
    &&& s.len() == t.len()
    &&& forall|i: int| 0 <= i < s.len() ==> ascii_lower(#[trigger] s[i]) == ascii_lower(t[i])
}

/// The lower-case form of an ASCII letter; any other character unchanged.
pub fn to_ascii_lower(c: char) -> (r: char)
    ensures
        r == ascii_lower(c),
{
    if 'A' <= c && c <= 'Z' {
        let u: u32 = c as u32 + 32;
        assert(u == 'a' as u32 + (c as u32 - 'A' as u32));
        char_of_ascii(u)
    } else {
        c
    }
}

/// The character with code `u`, for `u` in the ASCII range.
fn char_of_ascii(u: u32) -> (r: char)
    requires
        u < 128,
    ensures
        r as u32 == u,
{
    let b: u8 = u as u8;
    b as char
}

/// Whether `s[from..to]` equals `word` but for the case of ASCII letters.
pub fn range_eq_ignore_case(s: &Vec<char>, from: usize, to: usize, word: &Vec<char>) -> (r: bool)
    requires
        from <= to <= s@.len(),
    ensures
        r == eq_ignore_ascii_case(s@.subrange(from as int, to as int), word@),
{
    if to - from != word.len() {
        return false;
    }
    let ghost part = s@.subrange(from as int, to as int);
    let mut k: usize = 0;
    while k < word.len()
        invariant
            k <= word@.len(),
            from <= to <= s@.len(),
            to - from == word@.len(),
            part == s@.subrange(from as int, to as int),
            forall|j: int| 0 <= j < k ==> ascii_lower(#[trigger] part[j]) == ascii_lower(word@[j]),
        decreases word@.len() - k,
    {
        if to_ascii_lower(s[from + k]) != to_ascii_lower(word[k]) {
            assert(ascii_lower(part[k as int]) != ascii_lower(word@[k as int]));
            return false;
        }
        k += 1;
    }
    true
}

/// The parts of a decimal number in text: the digits before and after the
/// decimal point, and the exponent part where there is one (what follows
/// `e` or `E`).
pub struct DecimalParts {
    pub int_digits: Seq<char>,
    pub frac_digits: Seq<char>,
    pub exponent: Option<Seq<char>>,
}

/// Splits `s` at its first `e` or `E`, and what stands before that at its
/// first decimal point.
pub open spec fn decimal_parts(s: Seq<char>) -> DecimalParts {
    let e = first_index_of(s, 'e', 'E');
    let mantissa = s.take(e);
    let dot = first_index_of(mantissa, '.', '.');
    DecimalParts {
        int_digits: mantissa.take(dot),
        frac_digits: if dot < mantissa.len() {
            mantissa.skip(dot + 1)
        } else {
            Seq::empty()
        },
        exponent: if e < s.len() {
            Some(s.skip(e + 1))
        } else {
            None
        },
    }
}

/// Whether `s` is a decimal number without sign: digits with at most one
/// decimal point and at least one digit, then optionally `e` or `E` and an
/// integer with at least one digit.
pub open spec fn is_decimal_number(s: Seq<char>) -> bool {
    let p = decimal_parts(s);
    &&& all_digits(p.int_digits)
    &&& all_digits(p.frac_digits)
    &&& p.int_digits.len() + p.frac_digits.len() > 0
    &&& p.exponent matches Some(x) ==> signed_decimal(x) is Some
}

/// Whether `s` names an infinity or a NaN: `inf`, `infinity` or `nan`, in
/// any case.
pub open spec fn is_float_word(s: Seq<char>) -> bool {
    ||| eq_ignore_ascii_case(s, seq!['i', 'n', 'f'])
    ||| eq_ignore_ascii_case(s, seq!['i', 'n', 'f', 'i', 'n', 'i', 't', 'y'])
    ||| eq_ignore_ascii_case(s, seq!['n', 'a', 'n'])
}

/// Whether `f64::from_str` accepts `s`: an optional sign, then a decimal
/// number, an infinity or a NaN.
pub open spec fn is_float_literal(s: Seq<char>) -> bool {
    let body = unsigned_part(s);
    is_float_word(body) || is_decimal_number(body)
}

/// Whether `s[from..to]` holds decimal digits only.
pub fn all_digits_in(s: &Vec<char>, from: usize, to: usize) -> (r: bool)
    requires
        from <= to <= s@.len(),
    ensures
        r == all_digits(s@.subrange(from as int, to as int)),
{
    let ghost part = s@.subrange(from as int, to as int);
    let mut i: usize = from;
    while i < to
        invariant
            from <= i <= to <= s@.len(),
            part == s@.subrange(from as int, to as int),
            forall|k: int| 0 <= k < i - from ==> is_digit(#[trigger] part[k]),
        decreases to - i,
    {
        if !char_is_digit(s[i]) {
            assert(!is_digit(part[i - from]));
            return false;
        }
        i += 1;
    }
    true
}

/// Where the parts of a decimal number stand in its text `s`: the digits
/// before the decimal point are `s[..dot]`, those after it `s[dot + 1..e]`
/// (none where `dot == e`), and the exponent part is `s[e + 1..]` (none
/// where `e` is the length of `s`).
pub struct DecimalSpans {
    pub dot: usize,
    pub e: usize,
}

impl DecimalSpans {
    /// That these are the places of the parts of `s`.
    pub open spec fn marks(self, s: Seq<char>) -> bool {
        let p = decimal_parts(s);
        &&& self.dot <= self.e <= s.len()
        &&& p.int_digits == s.take(self.dot as int)
        &&& p.frac_digits == if self.dot < self.e {
            s.subrange(self.dot + 1, self.e as int)
        } else {
            Seq::empty()
        }
        &&& p.exponent == if self.e < s.len() {
            Some(s.skip(self.e + 1))
        } else {
            None
        }
    }
}

/// Recognises a decimal number without sign, and says where its parts stand.
pub fn scan_decimal_number(s: &Vec<char>) -> (r: Option<DecimalSpans>)
    ensures
        r is Some == is_decimal_number(s@),
        r matches Some(spans) ==> spans.marks(s@),
{
    let n = s.len();
    let e = find_first(s, n, 'e', 'E');
    assert(s@.take(n as int) == s@);
    let dot = find_first(s, e, '.', '.');
    let ghost mantissa = s@.take(e as int);
    assert(mantissa.take(dot as int) == s@.take(dot as int));
    assert(s@.take(dot as int) == s@.subrange(0, dot as int));
    if !all_digits_in(s, 0, dot) {
        return None;
    }
    let frac_from: usize = if dot < e {
        dot + 1
    } else {
        e
    };
    assert(dot < e ==> mantissa.skip(dot + 1) == s@.subrange(dot + 1, e as int));
    assert(dot == e ==> s@.subrange(e as int, e as int) == Seq::<char>::empty());
    if !all_digits_in(s, frac_from, e) {
        return None;
    }
    if dot + (e - frac_from) == 0 {
        return None;
    }
    if e < n {
        let ghost x = s@.skip(e + 1);
        let digits_from: usize = if e + 1 < n && (s[e + 1] == '+' || s[e + 1] == '-') {
            e + 2
        } else {
            e + 1
        };
        assert(unsigned_part(x) == s@.subrange(digits_from as int, n as int));
        if digits_from == n || !all_digits_in(s, digits_from, n) {
            return None;
        }
    }
    Some(DecimalSpans { dot, e })
}

/// Whether `s` names an infinity or a NaN.
pub fn is_float_word_chars(s: &Vec<char>) -> (r: bool)
    ensures
        r == is_float_word(s@),
{
    let n = s.len();
    assert(s@.subrange(0, n as int) == s@);
    let inf: Vec<char> = vec!['i', 'n', 'f'];
    let infinity: Vec<char> = vec!['i', 'n', 'f', 'i', 'n', 'i', 't', 'y'];
    let nan: Vec<char> = vec!['n', 'a', 'n'];
    assert(inf@ == seq!['i', 'n', 'f']);
    assert(infinity@ == seq!['i', 'n', 'f', 'i', 'n', 'i', 't', 'y']);
    assert(nan@ == seq!['n', 'a', 'n']);
    range_eq_ignore_case(s, 0, n, &inf) || range_eq_ignore_case(s, 0, n, &infinity)
        || range_eq_ignore_case(s, 0, n, &nan)
}

/// The index at which `s` continues after an optional sign.
pub fn skip_sign(s: &Vec<char>) -> (r: usize)
    ensures
        r <= s@.len(),
        unsigned_part(s@) == s@.skip(r as int),
{
    if s.len() > 0 && (s[0] == '+' || s[0] == '-') {
        1
    } else {
        assert(s@.skip(0) == s@);
        0
    }
}

/// Whether `f64::from_str` accepts `s`.
pub fn is_float_literal_chars(s: &Vec<char>) -> (r: bool)
    ensures
        r == is_float_literal(s@),
{
    let start = skip_sign(s);
    let body = copy_range(s, start, s.len());
    assert(body@ == unsigned_part(s@));
    is_float_word_chars(&body) || scan_decimal_number(&body).is_some()
}

} // verus!

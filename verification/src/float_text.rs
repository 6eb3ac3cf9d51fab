//! Which decimal numbers in text lie within the range of a 64-bit float.
//!
//! `f64::from_str` rounds to the nearest float, and halfway cases to the
//! float with an even significand. A number therefore becomes an infinity
//! exactly where its magnitude reaches 2^1024 - 2^970, halfway between the
//! largest float and 2^1024. No float is computed here: the decision is made
//! on the digits.

use vstd::prelude::*;
use crate::numeric_text::{
    all_digits,
    char_is_digit,
    decimal_parts,
    decimal_value,
    digit_value,
    is_decimal_number,
    is_digit,
    is_negative,
    scan_decimal_number,
    signed_decimal,
    skip_sign,
    unsigned_part,
    DecimalParts,
    DecimalSpans,
};
use crate::text::{chars_of, copy_range, push_all};

verus! {

/// Ten to the power of `n`.
pub open spec fn pow10(n: nat) -> nat
    decreases n,
{
    if n == 0 {
        1
    } else {
        10 * pow10((n - 1) as nat)
    }
}

/// The decimal digits of 2^1024 - 2^970.
pub open spec fn overflow_threshold_digits() -> Seq<char> {
    "179769313486231580793728971405303415079934132710037826936173778980444968292764750946649017977587207096330286416692887910946555547851940402630657488671505820681908902000708383676273854845817711531764475730270069855571366959622842914819860834936475292719074168444365510704342711559699508093042880177904174497792"@
}

/// The least magnitude that `f64::from_str` turns into an infinity.
pub open spec fn overflow_threshold() -> nat {
    decimal_value(overflow_threshold_digits())
}

/// The exponent that a decimal number is written with; 0 where it has none.
pub open spec fn exponent_value(p: DecimalParts) -> int {
    match p.exponent {
        Some(x) => match signed_decimal(x) {
            Some(v) => v,
            None => 0,
        },
        None => 0,
    }
}

/// Whether `m * 10^e` is less than `bound`.
pub open spec fn scaled_below(m: nat, e: int, bound: nat) -> bool {
    if e >= 0 {
        m * pow10(e as nat) < bound
    } else {
        m < bound * pow10((-e) as nat)
    }
}

/// Whether the decimal number `s`, written without sign, is less than
/// `bound`.
pub open spec fn decimal_number_below(s: Seq<char>, bound: nat) -> bool {
    let p = decimal_parts(s);
    scaled_below(
        decimal_value(p.int_digits + p.frac_digits),
        exponent_value(p) - p.frac_digits.len(),
        bound,
    )
}

/// Whether `f64::from_str` makes a finite number of `s`: `s` is a decimal
/// number, with or without sign, of a magnitude below the overflow
/// threshold.
pub open spec fn is_finite_float_literal(s: Seq<char>) -> bool {
    let body = unsigned_part(s);
    is_decimal_number(body) && decimal_number_below(body, overflow_threshold())
}

/// `k` zeros.
pub open spec fn zeros(k: nat) -> Seq<char> {
    Seq::new(k, |i: int| '0')
}

/// `s` with zeros appended up to the length `len`.
pub open spec fn padded(s: Seq<char>, len: nat) -> Seq<char> {
    s + zeros((len - s.len()) as nat)
}

/// A power of ten is at least one.
pub proof fn lemma_pow10_positive(n: nat)
    ensures
        pow10(n) >= 1,
    decreases n,
{
    if n > 0 {
        lemma_pow10_positive((n - 1) as nat);
    }
}

/// Exponents add up where powers of ten are multiplied.
pub proof fn lemma_pow10_add(a: nat, b: nat)
    ensures
        pow10(a + b) == pow10(a) * pow10(b),
    decreases b,
{
    if b == 0 {
        assert(pow10(a) * 1 == pow10(a));
    } else {
        lemma_pow10_add(a, (b - 1) as nat);
        assert(pow10(a + b) == 10 * pow10((a + b - 1) as nat));
        assert(10 * (pow10(a) * pow10((b - 1) as nat)) == pow10(a) * (10 * pow10((b - 1) as nat)))
            by (nonlinear_arith);
    }
}

/// A larger exponent gives no smaller power of ten.
pub proof fn lemma_pow10_monotonic(a: nat, b: nat)
    requires
        a <= b,
    ensures
        pow10(a) <= pow10(b),
    decreases b,
{
    if a < b {
        lemma_pow10_monotonic(a, (b - 1) as nat);
    }
}

/// A number of `n` digits is less than `10^n`.
pub proof fn lemma_decimal_value_upper(s: Seq<char>)
    ensures
        decimal_value(s) < pow10(s.len()),
    decreases s.len(),
{
    if s.len() > 0 {
        lemma_decimal_value_upper(s.drop_last());
    }
}

/// A number of `n` digits whose first digit is not zero is at least
/// `10^(n-1)`.
pub proof fn lemma_decimal_value_lower(s: Seq<char>)
    requires
        s.len() >= 1,
        digit_value(s[0]) >= 1,
    ensures
        decimal_value(s) >= pow10((s.len() - 1) as nat),
    decreases s.len(),
{
    if s.len() == 1 {
        assert(s.drop_last().len() == 0);
    } else {
        lemma_decimal_value_lower(s.drop_last());
    }
}

/// Digits of equal values write equal numbers.
pub proof fn lemma_same_digits(a: Seq<char>, b: Seq<char>)
    requires
        a.len() == b.len(),
        forall|k: int| 0 <= k < a.len() ==> digit_value(a[k]) == digit_value(b[k]),
    ensures
        decimal_value(a) == decimal_value(b),
    decreases a.len(),
{
    if a.len() > 0 {
        lemma_same_digits(a.drop_last(), b.drop_last());
    }
}

/// Of two numbers with as many digits, the one with the smaller digit at the
/// first place where they differ is the smaller.
pub proof fn lemma_first_difference(a: Seq<char>, b: Seq<char>, i: int)
    requires
        a.len() == b.len(),
        0 <= i < a.len(),
        forall|k: int| 0 <= k < i ==> digit_value(a[k]) == digit_value(b[k]),
        digit_value(a[i]) < digit_value(b[i]),
    ensures
        decimal_value(a) < decimal_value(b),
    decreases a.len(),
{
    if i == a.len() - 1 {
        lemma_same_digits(a.drop_last(), b.drop_last());
    } else {
        lemma_first_difference(a.drop_last(), b.drop_last(), i);
    }
}

/// Appending `k` zeros multiplies by `10^k`.
pub proof fn lemma_append_zeros(s: Seq<char>, k: nat)
    ensures
        decimal_value(s + zeros(k)) == decimal_value(s) * pow10(k),
    decreases k,
{
    if k == 0 {
        assert(s + zeros(0) == s);
        assert(decimal_value(s) * 1 == decimal_value(s));
    } else {
        lemma_append_zeros(s, (k - 1) as nat);
        assert((s + zeros(k)).drop_last() == s + zeros((k - 1) as nat));
        assert((s + zeros(k)).last() == '0');
        assert((decimal_value(s) * pow10((k - 1) as nat)) * 10 == decimal_value(s) * (10 * pow10(
            (k - 1) as nat,
        ))) by (nonlinear_arith);
    }
}

/// Leading zeros do not change the number.
pub proof fn lemma_leading_zeros(s: Seq<char>, z: int)
    requires
        0 <= z <= s.len(),
        forall|k: int| 0 <= k < z ==> digit_value(s[k]) == 0,
    ensures
        decimal_value(s) == decimal_value(s.skip(z)),
    decreases s.len(),
{
    if s.len() == z {
        assert(s.skip(z).len() == 0);
        if z > 0 {
            lemma_leading_zeros(s.drop_last(), z - 1);
            assert(s.drop_last().skip(z - 1).len() == 0);
        }
    } else {
        lemma_leading_zeros(s.drop_last(), z);
        assert(s.drop_last().skip(z) == s.skip(z).drop_last());
    }
}

/// A number of `n` digits scaled by `10^e` is below a bound of 309 digits
/// where `n + e` is less than 309, and not below it where `n + e` is more.
pub proof fn lemma_below_by_length(m: nat, n: nat, e: int, bound: nat)
    requires
        n >= 1,
        pow10((n - 1) as nat) <= m < pow10(n),
        pow10(308) <= bound < pow10(309),
    ensures
        n + e <= 308 ==> scaled_below(m, e, bound),
        n + e >= 310 ==> !scaled_below(m, e, bound),
{
    if e >= 0 {
        let k = e as nat;
        lemma_pow10_positive(k);
        if n + e <= 308 {
            lemma_pow10_add(n, k);
            lemma_pow10_monotonic(n + k, 308);
            assert(m * pow10(k) < pow10(n) * pow10(k)) by (nonlinear_arith)
                requires
                    m < pow10(n),
                    pow10(k) >= 1,
            ;
        }
        if n + e >= 310 {
            lemma_pow10_add((n - 1) as nat, k);
            lemma_pow10_monotonic(309, (n - 1 + k) as nat);
            assert(m * pow10(k) >= pow10((n - 1) as nat) * pow10(k)) by (nonlinear_arith)
                requires
                    m >= pow10((n - 1) as nat),
                    pow10(k) >= 1,
            ;
        }
    } else {
        let k = (-e) as nat;
        lemma_pow10_positive(k);
        if n + e <= 308 {
            if n >= k {
                lemma_pow10_add((n - k) as nat, k);
                lemma_pow10_monotonic((n - k) as nat, 308);
                assert(pow10((n - k) as nat) * pow10(k) <= bound * pow10(k)) by (nonlinear_arith)
                    requires
                        pow10((n - k) as nat) <= bound,
                        pow10(k) >= 1,
                ;
            } else {
                lemma_pow10_monotonic(n, k);
                lemma_pow10_positive(308);
                assert(pow10(k) <= bound * pow10(k)) by (nonlinear_arith)
                    requires
                        bound >= 1,
                        pow10(k) >= 1,
                ;
            }
        }
        if n + e >= 310 {
            lemma_pow10_add((n - 1 - k) as nat, k);
            lemma_pow10_monotonic(309, (n - 1 - k) as nat);
            assert(bound * pow10(k) < pow10((n - 1 - k) as nat) * pow10(k)) by (nonlinear_arith)
                requires
                    bound < pow10((n - 1 - k) as nat),
                    pow10(k) >= 1,
            ;
        }
    }
}

/// The overflow threshold has 309 digits, of which the first is 1.
pub proof fn lemma_overflow_threshold_bounds()
    ensures
        overflow_threshold_digits().len() == 309,
        pow10(308) <= overflow_threshold() < pow10(309),
{
    reveal_strlit(
        "179769313486231580793728971405303415079934132710037826936173778980444968292764750946649017977587207096330286416692887910946555547851940402630657488671505820681908902000708383676273854845817711531764475730270069855571366959622842914819860834936475292719074168444365510704342711559699508093042880177904174497792",
    );
    let digits = overflow_threshold_digits();
    assert(digits.len() == 309);
    assert(digits[0] == '1');
    lemma_decimal_value_lower(digits);
    lemma_decimal_value_upper(digits);
}

fn digit_of(c: char) -> (r: u8)
    ensures
        r == digit_value(c),
        r <= 9,
{
    if char_is_digit(c) {
        (c as u32 - '0' as u32) as u8
    } else {
        0
    }
}

/// Compares the digits `sig[z..]` with those of the overflow threshold, the
/// shorter of the two continued with zeros.
fn digits_below_threshold(sig: &Vec<char>, z: usize) -> (r: bool)
    requires
        z <= sig@.len(),
    ensures
        ({
            let digits = sig@.skip(z as int);
            let len = if digits.len() > 309 {
                digits.len()
            } else {
                309nat
            };
            r == (decimal_value(padded(digits, len)) < decimal_value(
                padded(overflow_threshold_digits(), len),
            ))
        }),
{
    let threshold = chars_of(
        "179769313486231580793728971405303415079934132710037826936173778980444968292764750946649017977587207096330286416692887910946555547851940402630657488671505820681908902000708383676273854845817711531764475730270069855571366959622842914819860834936475292719074168444365510704342711559699508093042880177904174497792",
    );
    proof {
        lemma_overflow_threshold_bounds();
    }
    let n: usize = sig.len() - z;
    let len: usize = if n > 309 {
        n
    } else {
        309
    };
    let ghost a = padded(sig@.skip(z as int), len as nat);
    let ghost b = padded(threshold@, len as nat);
    let mut i: usize = 0;
    while i < len
        invariant
            i <= len,
            z <= sig@.len() <= usize::MAX,
            n == sig@.len() - z,
            threshold@ == overflow_threshold_digits(),
            threshold@.len() == 309,
            len == if n > 309 {
                n
            } else {
                309usize
            },
            len >= n,
            len >= 309,
            a == padded(sig@.skip(z as int), len as nat),
            b == padded(threshold@, len as nat),
            a.len() == len,
            b.len() == len,
            forall|k: int| 0 <= k < i ==> digit_value(a[k]) == digit_value(b[k]),
        decreases len - i,
    {
        let x: u8 = if i < n {
            digit_of(sig[z + i])
        } else {
            0
        };
        let y: u8 = if i < 309 {
            digit_of(threshold[i])
        } else {
            0
        };
        assert(x == digit_value(a[i as int]));
        assert(y == digit_value(b[i as int]));
        if x < y {
            proof {
                lemma_first_difference(a, b, i as int);
            }
            return true;
        }
        if x > y {
            proof {
                lemma_first_difference(b, a, i as int);
            }
            return false;
        }
        i += 1;
    }
    proof {
        lemma_same_digits(a, b);
    }
    false
}

/// The exponent of a decimal number, kept within `-2^100 ..= 2^100`.
fn clamped_exponent(s: &Vec<char>, spans: &DecimalSpans) -> (r: i128)
    requires
        is_decimal_number(s@),
        spans.marks(s@),
    ensures
        ({
            let e = exponent_value(decimal_parts(s@));
            let limit = 0x10_0000_0000_0000_0000_0000_0000int;
            r == if e > limit {
                limit
            } else if e < -limit {
                -limit
            } else {
                e
            }
        }),
{
    let n = s.len();
    if spans.e >= n {
        return 0;
    }
    let ghost x = s@.skip(spans.e + 1);
    let negative = spans.e + 1 < n && s[spans.e + 1] == '-';
    let start: usize = if spans.e + 1 < n && (s[spans.e + 1] == '+' || s[spans.e + 1] == '-') {
        spans.e + 2
    } else {
        spans.e + 1
    };
    let ghost digits = unsigned_part(x);
    assert(digits == s@.skip(start as int));
    assert(negative == is_negative(x));
    let limit: i128 = 0x10_0000_0000_0000_0000_0000_0000;
    let mut acc: i128 = 0;
    let mut i: usize = start;
    assert(digits.take(0) == Seq::<char>::empty());
    while i < n
        invariant
            start <= i <= n == s@.len(),
            digits == s@.skip(start as int),
            limit == 0x10_0000_0000_0000_0000_0000_0000,
            acc == if decimal_value(digits.take(i - start)) > limit {
                limit as int
            } else {
                decimal_value(digits.take(i - start)) as int
            },
        decreases n - i,
    {
        let d: i128 = digit_of(s[i]) as i128;
        let ghost longer = digits.take(i - start + 1);
        assert(longer.drop_last() == digits.take(i - start));
        assert(longer.last() == s@[i as int]);
        acc = acc * 10 + d;
        if acc > limit {
            acc = limit;
        }
        i += 1;
    }
    assert(digits.take(digits.len() as int) == digits);
    if negative {
        -acc
    } else {
        acc
    }
}

fn count_leading_zeros(s: &Vec<char>) -> (r: usize)
    ensures
        r <= s@.len(),
        forall|k: int| 0 <= k < r ==> s@[k] == '0',
        r < s@.len() ==> s@[r as int] != '0',
{
    let mut z: usize = 0;
    while z < s.len() && s[z] == '0'
        invariant
            z <= s@.len(),
            forall|k: int| 0 <= k < z ==> s@[k] == '0',
        decreases s@.len() - z,
    {
        z += 1;
    }
    z
}

/// Whether the decimal number `s`, whose parts stand where `spans` says, is
/// below the overflow threshold.
fn below_overflow_threshold(s: &Vec<char>, spans: &DecimalSpans) -> (r: bool)
    requires
        is_decimal_number(s@),
        spans.marks(s@),
    ensures
        r == decimal_number_below(s@, overflow_threshold()),
{
    let ghost parts = decimal_parts(s@);
    let ghost bound = overflow_threshold();
    let mut sig = copy_range(s, 0, spans.dot);
    assert(s@.subrange(0, spans.dot as int) == s@.take(spans.dot as int));
    let frac_from: usize = if spans.dot < spans.e {
        spans.dot + 1
    } else {
        spans.e
    };
    let frac = copy_range(s, frac_from, spans.e);
    assert(frac@ == parts.frac_digits);
    push_all(&mut sig, &frac);
    assert(sig@ == parts.int_digits + parts.frac_digits);
    assert(all_digits(sig@));
    let z = count_leading_zeros(&sig);
    let n: usize = sig.len() - z;
    let ghost m = decimal_value(sig@);
    let ghost e = exponent_value(parts) - parts.frac_digits.len();
    let ghost digits = sig@.skip(z as int);
    proof {
        lemma_leading_zeros(sig@, z as int);
        lemma_overflow_threshold_bounds();
    }
    if n == 0 {
        assert(digits.len() == 0);
        assert(m == 0);
        proof {
            lemma_pow10_positive(308);
            if e >= 0 {
                assert(0 * pow10(e as nat) == 0);
            } else {
                lemma_pow10_positive((-e) as nat);
                assert(bound * pow10((-e) as nat) >= 1) by (nonlinear_arith)
                    requires
                        bound >= 1,
                        pow10((-e) as nat) >= 1,
                ;
            }
        }
        return true;
    }
    proof {
        assert(is_digit(sig@[z as int]));
        assert(digit_value(digits[0]) >= 1);
        lemma_decimal_value_lower(digits);
        lemma_decimal_value_upper(digits);
        lemma_below_by_length(m, n as nat, e, bound);
    }
    let exponent = clamped_exponent(s, spans);
    let position: i128 = n as i128 + exponent - frac.len() as i128;
    if position <= 308 {
        true
    } else if position >= 310 {
        false
    } else {
        assert(n + e == 309);
        let below = digits_below_threshold(&sig, z);
        proof {
            let len: nat = if n > 309 {
                n as nat
            } else {
                309
            };
            lemma_append_zeros(digits, (len - n) as nat);
            lemma_append_zeros(overflow_threshold_digits(), (len - 309) as nat);
            if e >= 0 {
                assert(pow10(0) == 1);
                assert(bound * 1 == bound);
            } else {
                assert(pow10(0) == 1);
                assert(m * 1 == m);
            }
        }
        below
    }
}

/// Whether `f64::from_str` makes a finite number of `s`.
pub fn is_finite_float_literal_chars(s: &Vec<char>) -> (r: bool)
    ensures
        r == is_finite_float_literal(s@),
{
    let start = skip_sign(s);
    let body = copy_range(s, start, s.len());
    assert(body@ == unsigned_part(s@));
    match scan_decimal_number(&body) {
        Some(spans) => below_overflow_threshold(&body, &spans),
        None => false,
    }
}

} // verus!

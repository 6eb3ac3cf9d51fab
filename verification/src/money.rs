//! The text of PostgreSQL `money` values, reduced to a plain decimal number.

use vstd::prelude::*;
use crate::numeric_text::{char_is_digit, is_digit};
use crate::text::{
    chars_of,
    contains_char,
    find_first,
    first_index_of,
    lemma_first_index_bound,
    string_of,
};

verus! {

/// The characters of a money value that belong to its number.
pub open spec fn is_money_char(c: char) -> bool {
    is_digit(c) || c == '-' || c == '.' || c == ','
}

/// The test for the characters that are kept.
pub open spec fn money_chars() -> spec_fn(char) -> bool {
    |c: char| is_money_char(c)
}

/// The test for any character but a comma.
pub open spec fn not_comma() -> spec_fn(char) -> bool {
    |c: char| c != ','
}

/// The number in a money value.
///
/// Only digits, `-`, `.` and `,` are kept. Where both `.` and `,` are left,
/// the commas separate thousands and are removed. Where only commas are
/// left, the first one is the decimal separator and becomes `.`.
pub open spec fn spec_strip_money_symbol(text: Seq<char>) -> Seq<char> {
    let cleaned = text.filter(money_chars());
    if cleaned.contains('.') && cleaned.contains(',') {
        cleaned.filter(not_comma())
    } else if cleaned.contains(',') {
        cleaned.update(first_index_of(cleaned, ',', ','), '.')
    } else {
        cleaned
    }
}

fn keep_money_chars(s: &Vec<char>) -> (r: Vec<char>)
    ensures
        r@ == s@.filter(money_chars()),
{
    let mut out: Vec<char> = Vec::new();
    let mut i: usize = 0;
    assert(s@.take(0).filter(money_chars()) == Seq::<char>::empty()) by {
        reveal(Seq::filter);
    }
    while i < s.len()
        invariant
            i <= s@.len(),
            out@ == s@.take(i as int).filter(money_chars()),
        decreases s@.len() - i,
    {
        let c = s[i];
        proof {
            s@.take(i as int).lemma_filter_push(c, money_chars());
            assert(s@.take(i as int).push(c) == s@.take(i + 1));
        }
        if char_is_digit(c) || c == '-' || c == '.' || c == ',' {
            out.push(c);
        }
        i += 1;
    }
    assert(s@.take(s@.len() as int) == s@);
    out
}

fn drop_commas(s: &Vec<char>) -> (r: Vec<char>)
    ensures
        r@ == s@.filter(not_comma()),
{
    let mut out: Vec<char> = Vec::new();
    let mut i: usize = 0;
    assert(s@.take(0).filter(not_comma()) == Seq::<char>::empty()) by {
        reveal(Seq::filter);
    }
    while i < s.len()
        invariant
            i <= s@.len(),
            out@ == s@.take(i as int).filter(not_comma()),
        decreases s@.len() - i,
    {
        let c = s[i];
        proof {
            s@.take(i as int).lemma_filter_push(c, not_comma());
            assert(s@.take(i as int).push(c) == s@.take(i + 1));
        }
        if c != ',' {
            out.push(c);
        }
        i += 1;
    }
    assert(s@.take(s@.len() as int) == s@);
    out
}

/// Strips currency symbols and thousands separators from a money value:
/// `$1,234.56` becomes `1234.56`, and `€99,95` becomes `99.95`.
pub fn strip_money_symbol(text: &str) -> (r: String)
    ensures
        r@ == spec_strip_money_symbol(text@),
{
    let chars = chars_of(text);
    let mut cleaned = keep_money_chars(&chars);
    let has_dot = contains_char(&cleaned, '.');
    let has_comma = contains_char(&cleaned, ',');
    if has_dot && has_comma {
        let without = drop_commas(&cleaned);
        string_of(&without)
    } else if has_comma {
        let at = find_first(&cleaned, cleaned.len(), ',', ',');
        assert(cleaned@.take(cleaned@.len() as int) == cleaned@);
        assert(at < cleaned@.len()) by {
            let k = choose|k: int| 0 <= k < cleaned@.len() && cleaned@[k] == ',';
            lemma_first_index_bound(cleaned@, ',', ',', k);
        }
        cleaned.set(at, '.');
        string_of(&cleaned)
    } else {
        string_of(&cleaned)
    }
}

} // verus!

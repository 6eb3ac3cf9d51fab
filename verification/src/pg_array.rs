//! PostgreSQL's text format for arrays, `{elem1,elem2,...}`, turned into the
//! text of a JSON array.

use vstd::prelude::*;
use crate::float_text::{is_finite_float_literal, is_finite_float_literal_chars};
use crate::numeric_text::{
    eq_ignore_ascii_case,
    i64_literal_value,
    parse_i64_chars,
    range_eq_ignore_case,
};
use crate::text::{chars_of, copy_range, same_chars, string_of, trim_bounds, trimmed};

verus! {

/// The hexadecimal digit of `n`, in lower case.
pub open spec fn hex_digit_lower(n: nat) -> char
    recommends
        n < 16,
{
    if n < 10 {
        ('0' as u32 + n) as char
    } else {
        ('a' as u32 + (n - 10)) as char
    }
}

/// What stands for the character `c` inside a JSON string: `"`, `\`, line
/// feed, carriage return and tab have a two-character escape, any other
/// character below U+0020 is written as `\u00XX`, and every other character
/// stands for itself.
pub open spec fn json_escape(c: char) -> Seq<char> {
    if c == '"' {
        seq!['\\', '"']
    } else if c == '\\' {
        seq!['\\', '\\']
    } else if c == '\n' {
        seq!['\\', 'n']
    } else if c == '\r' {
        seq!['\\', 'r']
    } else if c == '\t' {
        seq!['\\', 't']
    } else if (c as u32) < 0x20 {
        seq![
            '\\',
            'u',
            '0',
            '0',
            hex_digit_lower((c as u32 / 16) as nat),
            hex_digit_lower((c as u32 % 16) as nat),
        ]
    } else {
        seq![c]
    }
}

/// The characters of `s`, each escaped for a JSON string.
pub open spec fn json_escaped(s: Seq<char>) -> Seq<char>
    decreases s.len(),
{
    if s.len() == 0 {
        Seq::empty()
    } else {
        json_escaped(s.drop_last()) + json_escape(s.last())
    }
}

/// `s` as a JSON string: escaped, between double quotes.
pub open spec fn json_quoted(s: Seq<char>) -> Seq<char> {
    seq!['"'] + json_escaped(s) + seq!['"']
}

fn hex_char_lower(n: u32) -> (r: char)
    requires
        n < 16,
    ensures
        r == hex_digit_lower(n as nat),
{
    let code: u8 = if n < 10 {
        ('0' as u32 + n) as u8
    } else {
        ('a' as u32 + (n - 10)) as u8
    };
    code as char
}

/// Appends `c`, escaped for a JSON string, to `out`.
fn push_json_escape(out: &mut String, c: char)
    ensures
        final(out)@ == old(out)@ + json_escape(c),
{
    if c == '"' {
        out.push('\\');
        out.push('"');
    } else if c == '\\' {
        out.push('\\');
        out.push('\\');
    } else if c == '\n' {
        out.push('\\');
        out.push('n');
    } else if c == '\r' {
        out.push('\\');
        out.push('r');
    } else if c == '\t' {
        out.push('\\');
        out.push('t');
    } else if (c as u32) < 0x20 {
        out.push('\\');
        out.push('u');
        out.push('0');
        out.push('0');
        out.push(hex_char_lower(c as u32 / 16));
        out.push(hex_char_lower(c as u32 % 16));
    } else {
        out.push(c);
    }
    assert(out@ =~= old(out)@ + json_escape(c));
}

/// Appends `s` to `out` as a JSON string.
pub fn json_quote_into(out: &mut String, s: &str)
    ensures
        final(out)@ == old(out)@ + json_quoted(s@),
{
    out.push('"');
    for c in it: s.chars()
        invariant
            out@ == old(out)@ + seq!['"'] + json_escaped(it.seq().take(it.index() as int)),
    {
        proof {
            let longer = it.seq().take(it.index() + 1);
            assert(longer.drop_last() == it.seq().take(it.index() as int));
            assert(longer.last() == c);
        }
        push_json_escape(out, c);
    }
    assert(s@.take(s@.len() as int) == s@);
    out.push('"');
    assert(out@ =~= old(out)@ + json_quoted(s@));
}

/// How far the tokenizer has come: the elements that a comma has closed,
/// the characters of the element that is open, whether it stands inside
/// double quotes, and whether the last character was a backslash that
/// escapes the next one.
pub struct ScanState {
    pub elements: Seq<Seq<char>>,
    pub current: Seq<char>,
    pub in_quotes: bool,
    pub escaped: bool,
}

/// The tokenizer's step on one character.
///
/// A double quote opens or closes a quoted stretch and is dropped. Inside
/// quotes a backslash is dropped and the character after it is taken as it
/// is. Outside quotes a comma closes the element. Any other character
/// belongs to the element.
pub open spec fn scan_step(st: ScanState, c: char) -> ScanState {
    if st.escaped {
        ScanState { current: st.current.push(c), escaped: false, ..st }
    } else if st.in_quotes {
        if c == '\\' {
            ScanState { escaped: true, ..st }
        } else if c == '"' {
            ScanState { in_quotes: false, ..st }
        } else {
            ScanState { current: st.current.push(c), ..st }
        }
    } else if c == '"' {
        ScanState { in_quotes: true, ..st }
    } else if c == ',' {
        ScanState { elements: st.elements.push(st.current), current: Seq::empty(), ..st }
    } else {
        ScanState { current: st.current.push(c), ..st }
    }
}

/// The tokenizer's state after the characters `s`.
pub open spec fn scan(s: Seq<char>) -> ScanState
    decreases s.len(),
{
    if s.len() == 0 {
        ScanState {
            elements: Seq::empty(),
            current: Seq::empty(),
            in_quotes: false,
            escaped: false,
        }
    } else {
        scan_step(scan(s.drop_last()), s.last())
    }
}

/// The elements of an array, given what stands between its braces. The
/// element that is open at the end counts unless nothing was read at all:
/// empty content has no element, content without a comma has one, be it
/// the empty string that two quotes stand for, and a comma at the end is
/// followed by an empty element.
pub open spec fn spec_parse_pg_array_elements(inner: Seq<char>) -> Seq<Seq<char>> {
    let st = scan(inner);
    if inner.len() > 0 {
        st.elements.push(st.current)
    } else {
        st.elements
    }
}

/// Content that is not empty and holds no comma is one element.
pub proof fn lemma_content_without_comma(inner: Seq<char>)
    requires
        inner.len() > 0,
        !inner.contains(','),
    ensures
        spec_parse_pg_array_elements(inner).len() == 1,
{
    lemma_no_comma_closes_nothing(inner);
}

proof fn lemma_no_comma_closes_nothing(s: Seq<char>)
    requires
        !s.contains(','),
    ensures
        scan(s).elements.len() == 0,
    decreases s.len(),
{
    if s.len() > 0 {
        assert forall|i: int| 0 <= i < s.drop_last().len() implies s.drop_last()[i] != ',' by {
            assert(s.drop_last()[i] == s[i]);
        }
        lemma_no_comma_closes_nothing(s.drop_last());
        assert(s.last() == s[s.len() - 1]);
    }
}

/// The views of a list of strings, in order.
pub open spec fn strings_view(v: Seq<String>) -> Seq<Seq<char>> {
    v.map_values(|s: String| s@)
}

/// Splits the content of an array into its elements, resolving quotes and
/// escapes.
pub fn parse_pg_array_elements(inner: &str) -> (r: Vec<String>)
    ensures
        strings_view(r@) == spec_parse_pg_array_elements(inner@),
{
    let mut elements: Vec<String> = Vec::new();
    let mut current = String::new();
    let mut in_quotes = false;
    let mut escaped = false;
    assert(strings_view(elements@) =~= Seq::<Seq<char>>::empty());
    for c in it: inner.chars()
        invariant
            scan(it.seq().take(it.index() as int)) == (ScanState {
                elements: strings_view(elements@),
                current: current@,
                in_quotes,
                escaped,
            }),
    {
        proof {
            let longer = it.seq().take(it.index() + 1);
            assert(longer.drop_last() == it.seq().take(it.index() as int));
            assert(longer.last() == c);
        }
        if escaped {
            current.push(c);
            escaped = false;
        } else if in_quotes {
            if c == '\\' {
                escaped = true;
            } else if c == '"' {
                in_quotes = false;
            } else {
                current.push(c);
            }
        } else if c == '"' {
            in_quotes = true;
        } else if c == ',' {
            let ghost before = strings_view(elements@);
            let ghost closed = current@;
            elements.push(current);
            current = String::new();
            assert(strings_view(elements@) =~= before.push(closed));
        } else {
            current.push(c);
        }
    }
    assert(inner@.take(inner@.len() as int) == inner@);
    if !inner.is_empty() {
        let ghost before = strings_view(elements@);
        let ghost open = current@;
        elements.push(current);
        assert(strings_view(elements@) =~= before.push(open));
    }
    elements
}

/// The kind of the elements of an array.
#[derive(Clone, Copy, Debug, PartialEq, Eq, Structural)]
pub enum ElementKind {
    Int,
    Float,
    Text,
}

/// The kind that an element type names: `int`, `float`, or text for any
/// other name.
pub open spec fn element_kind(element_type: Seq<char>) -> ElementKind {
    if element_type == seq!['i', 'n', 't'] {
        ElementKind::Int
    } else if element_type == seq!['f', 'l', 'o', 'a', 't'] {
        ElementKind::Float
    } else {
        ElementKind::Text
    }
}

/// One element as JSON: `null` for `NULL` in any case; an integer or a
/// finite float as it stands, where the kind asks for one; a JSON string
/// otherwise.
pub open spec fn render_element(elem: Seq<char>, kind: ElementKind) -> Seq<char> {
    if eq_ignore_ascii_case(elem, seq!['N', 'U', 'L', 'L']) {
        seq!['n', 'u', 'l', 'l']
    } else if kind == ElementKind::Int && i64_literal_value(elem) is Some {
        elem
    } else if kind == ElementKind::Float && is_finite_float_literal(elem) {
        elem
    } else {
        json_quoted(elem)
    }
}

/// The elements as JSON, separated by commas.
pub open spec fn render_elements(elems: Seq<Seq<char>>, kind: ElementKind) -> Seq<char>
    decreases elems.len(),
{
    if elems.len() == 0 {
        Seq::empty()
    } else if elems.len() == 1 {
        render_element(elems[0], kind)
    } else {
        render_elements(elems.drop_last(), kind) + seq![','] + render_element(elems.last(), kind)
    }
}

/// Whether `t` is an array in braces.
pub open spec fn is_braced(t: Seq<char>) -> bool {
    t.len() >= 2 && t[0] == '{' && t.last() == '}'
}

/// The JSON array that stands for the PostgreSQL array `text`.
///
/// Whitespace around the array is ignored. Text that is not in braces is
/// no array: the whole of it, as it was given, becomes one JSON string.
pub open spec fn spec_parse_pg_array(text: Seq<char>, element_type: Seq<char>) -> Seq<char> {
    let t = trimmed(text);
    if is_braced(t) {
        seq!['['] + render_elements(
            spec_parse_pg_array_elements(t.subrange(1, t.len() - 1)),
            element_kind(element_type),
        ) + seq![']']
    } else {
        json_quoted(text)
    }
}

fn element_kind_of(element_type: &str) -> (r: ElementKind)
    ensures
        r == element_kind(element_type@),
{
    let name = chars_of(element_type);
    let int_name: Vec<char> = vec!['i', 'n', 't'];
    let float_name: Vec<char> = vec!['f', 'l', 'o', 'a', 't'];
    assert(int_name@ == seq!['i', 'n', 't']);
    assert(float_name@ == seq!['f', 'l', 'o', 'a', 't']);
    if same_chars(&name, &int_name) {
        ElementKind::Int
    } else if same_chars(&name, &float_name) {
        ElementKind::Float
    } else {
        ElementKind::Text
    }
}

/// Appends one element, as JSON, to `out`.
fn push_element(out: &mut String, elem: &String, kind: ElementKind)
    ensures
        final(out)@ == old(out)@ + render_element(elem@, kind),
{
    let chars = chars_of(elem.as_str());
    let null_word: Vec<char> = vec!['N', 'U', 'L', 'L'];
    assert(null_word@ == seq!['N', 'U', 'L', 'L']);
    assert(chars@.subrange(0, chars@.len() as int) == chars@);
    if range_eq_ignore_case(&chars, 0, chars.len(), &null_word) {
        out.push('n');
        out.push('u');
        out.push('l');
        out.push('l');
        assert(out@ =~= old(out)@ + seq!['n', 'u', 'l', 'l']);
        return ;
    }
    let raw = match kind {
        ElementKind::Int => parse_i64_chars(&chars).is_some(),
        ElementKind::Float => is_finite_float_literal_chars(&chars),
        ElementKind::Text => false,
    };
    if raw {
        crate::text::push_range(out, &chars, 0, chars.len());
    } else {
        json_quote_into(out, elem.as_str());
    }
}

/// Converts an array in PostgreSQL's text format to the text of a JSON
/// array. `element_type` is `"int"`, `"float"` or `"text"`.
pub fn parse_pg_array(text: &str, element_type: &str) -> (r: String)
    ensures
        r@ == spec_parse_pg_array(text@, element_type@),
{
    let chars = chars_of(text);
    let (start, end) = trim_bounds(&chars);
    let mut out = String::new();
    if !(end - start >= 2 && chars[start] == '{' && chars[end - 1] == '}') {
        json_quote_into(&mut out, text);
        assert(out@ =~= json_quoted(text@));
        return out;
    }
    let ghost t = trimmed(chars@);
    let inner_chars = copy_range(&chars, start + 1, end - 1);
    assert(inner_chars@ == t.subrange(1, t.len() - 1));
    let inner = string_of(&inner_chars);
    let elements = parse_pg_array_elements(inner.as_str());
    let kind = element_kind_of(element_type);
    let ghost elems = strings_view(elements@);
    out.push('[');
    let mut i: usize = 0;
    assert(elems.take(0) =~= Seq::<Seq<char>>::empty());
    while i < elements.len()
        invariant
            i <= elements@.len(),
            elems == strings_view(elements@),
            out@ == seq!['['] + render_elements(elems.take(i as int), kind),
        decreases elements@.len() - i,
    {
        proof {
            let longer = elems.take(i + 1);
            assert(longer.drop_last() == elems.take(i as int));
            assert(longer.last() == elements@[i as int]@);
            assert(i == 0 ==> longer[0] == elements@[i as int]@);
        }
        if i > 0 {
            out.push(',');
        }
        push_element(&mut out, &elements[i], kind);
        i += 1;
        assert(out@ =~= seq!['['] + render_elements(elems.take(i as int), kind));
    }
    assert(elems.take(elems.len() as int) == elems);
    out.push(']');
    out
}

/// An empty array becomes an empty JSON array, whatever the element type.
pub proof fn lemma_empty_array(element_type: Seq<char>)
    ensures
        spec_parse_pg_array(seq!['{', '}'], element_type) == seq!['[', ']'],
{
    let t = seq!['{', '}'];
    assert(!crate::text::is_whitespace('{') && !crate::text::is_whitespace('}'));
    assert(t[0] == '{' && t.last() == '}');
    crate::text::lemma_trimmed_identity(t);
    assert(t.subrange(1, 1) =~= Seq::<char>::empty());
    assert(seq!['['] + Seq::<char>::empty() + seq![']'] =~= seq!['[', ']']);
}

} // verus!

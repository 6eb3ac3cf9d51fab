//! PostgreSQL `timestamptz` text, normalized to UTC without offset.
//!
//! Reading a timestamp, moving it to UTC and writing it out again is the
//! work of the `chrono` crate. Verus does not look into it: what chrono
//! answers is named by [`chrono_parse_instant`] and [`chrono_format_utc`],
//! and the contracts here say which questions are put to it and what is made
//! of each answer.

use vstd::prelude::*;
use crate::numeric_text::{char_is_digit, is_digit};
use crate::text::{chars_of, contains_char, string_of};

verus! {

/// The instant that `chrono::DateTime::parse_from_str` reads from `text`
/// against the format `fmt`, as whole seconds since 1970-01-01T00:00:00Z and
/// the nanoseconds beyond them; `None` where chrono rejects the text.
pub uninterp spec fn chrono_parse_instant(text: Seq<char>, fmt: Seq<char>) -> Option<(i64, u32)>;

/// What `chrono::DateTime::format` writes, with the format `fmt`, for the
/// UTC date and time of the instant `secs` seconds and `nanos` nanoseconds
/// after 1970-01-01T00:00:00Z; `None` where chrono has no date for that
/// instant.
pub uninterp spec fn chrono_format_utc(secs: i64, nanos: u32, fmt: Seq<char>) -> Option<
    Seq<char>,
>;

/// The format of a timestamp with offset: date, time, optional fraction of
/// a second, and an offset written `+HH:MM`.
pub open spec fn offset_format() -> Seq<char> {
    "%Y-%m-%d %H:%M:%S%.f%:z"@
}

/// The format of a timestamp without offset, to the second.
pub open spec fn seconds_format() -> Seq<char> {
    "%Y-%m-%d %H:%M:%S"@
}

/// The format of a timestamp without offset, with six digits for the
/// microseconds.
pub open spec fn micros_format() -> Seq<char> {
    "%Y-%m-%d %H:%M:%S%.6f"@
}

/// Calls `chrono::DateTime::parse_from_str(text, fmt)` and, where it
/// succeeds, reads the instant off the result with `timestamp` and
/// `timestamp_subsec_nanos`. The outcome is the one named by
/// [`chrono_parse_instant`].
#[verifier::external_body]
pub(crate) fn parse_instant(text: &str, fmt: &str) -> (r: Option<(i64, u32)>)
    ensures
        r == chrono_parse_instant(text@, fmt@),
{
    match chrono::DateTime::parse_from_str(text, fmt) {
        Ok(t) => Some((t.timestamp(), t.timestamp_subsec_nanos())),
        Err(_) => None,
    }
}

/// Makes a UTC date and time with `chrono::DateTime::from_timestamp` and
/// writes it with `chrono::DateTime::format`. The outcome is the one named
/// by [`chrono_format_utc`]. Only the two formats of this module are
/// handed on: a format that chrono cannot read would make it panic.
#[verifier::external_body]
pub(crate) fn format_utc(secs: i64, nanos: u32, fmt: &str) -> (r: Option<String>)
    requires
        fmt@ == seconds_format() || fmt@ == micros_format(),
    ensures
        r is Some == chrono_format_utc(secs, nanos, fmt@) is Some,
        r matches Some(s) ==> chrono_format_utc(secs, nanos, fmt@) == Some(s@),
{
    match chrono::DateTime::from_timestamp(secs, nanos) {
        Some(t) => Some(t.format(fmt).to_string()),
        None => None,
    }
}

/// Whether `text` ends in an offset of hours only: a sign and two digits.
pub open spec fn has_short_offset(text: Seq<char>) -> bool {
    let n = text.len();
    &&& n >= 3
    &&& text[n - 3] == '+' || text[n - 3] == '-'
    &&& is_digit(text[n - 2])
    &&& is_digit(text[n - 1])
}

/// `text` with an offset of hours only completed by `:00`.
pub open spec fn spec_expand_short_tz_offset(text: Seq<char>) -> Seq<char> {
    if has_short_offset(text) {
        text + seq![':', '0', '0']
    } else {
        text
    }
}

/// Completes a short offset: `+05` becomes `+05:00`, `-03` becomes `-03:00`.
/// Text that does not end in a sign and two digits is handed back as it is.
pub fn expand_short_tz_offset(text: &str) -> (r: String)
    ensures
        r@ == spec_expand_short_tz_offset(text@),
{
    let mut chars = chars_of(text);
    let n = chars.len();
    if n >= 3 && (chars[n - 3] == '+' || chars[n - 3] == '-') && char_is_digit(chars[n - 2])
        && char_is_digit(chars[n - 1]) {
        chars.push(':');
        chars.push('0');
        chars.push('0');
        assert(chars@ =~= text@ + seq![':', '0', '0']);
    }
    string_of(&chars)
}

/// The instant that `text` names: chrono's reading of it as a timestamp
/// with offset, or else of its form with a short offset completed.
pub open spec fn parsed_instant(text: Seq<char>) -> Option<(i64, u32)> {
    match chrono_parse_instant(text, offset_format()) {
        Some(t) => Some(t),
        None => chrono_parse_instant(spec_expand_short_tz_offset(text), offset_format()),
    }
}

/// The format in which `text` is written out again: with microseconds if
/// and only if it holds a `.`.
pub open spec fn spec_utc_format_for(text: Seq<char>) -> Seq<char> {
    if text.contains('.') {
        micros_format()
    } else {
        seconds_format()
    }
}

/// The instant in UTC, in the format that suits `text`; `text` itself
/// where chrono has no date for the instant.
pub open spec fn rendered_instant(text: Seq<char>, secs: i64, nanos: u32) -> Seq<char> {
    match chrono_format_utc(secs, nanos, spec_utc_format_for(text)) {
        Some(s) => s,
        None => text,
    }
}

/// The timestamp `text` in UTC without offset; `text` itself where it is
/// not read as a timestamp with offset.
pub open spec fn spec_normalize_timestamptz(text: Seq<char>) -> Seq<char> {
    match parsed_instant(text) {
        Some(t) => rendered_instant(text, t.0, t.1),
        None => text,
    }
}

/// Chooses the format for writing a timestamp out again.
pub fn utc_format_for(text: &str) -> (r: &'static str)
    ensures
        r@ == spec_utc_format_for(text@),
{
    let chars = chars_of(text);
    if contains_char(&chars, '.') {
        "%Y-%m-%d %H:%M:%S%.6f"
    } else {
        "%Y-%m-%d %H:%M:%S"
    }
}

/// Writes the instant out in UTC, keeping microseconds if `text` had a
/// fraction.
pub fn render_utc(text: &str, secs: i64, nanos: u32) -> (r: String)
    ensures
        r@ == rendered_instant(text@, secs, nanos),
{
    match format_utc(secs, nanos, utc_format_for(text)) {
        Some(s) => s,
        None => text.to_owned(),
    }
}

/// Normalizes a `timestamptz` value to UTC and drops the offset:
/// `2024-06-15 17:30:00+05:30` becomes `2024-06-15 12:00:00`. Microseconds
/// are kept where the value has a fraction. A value that cannot be read is
/// handed back unchanged.
pub fn normalize_timestamptz(text: &str) -> (r: String)
    ensures
        r@ == spec_normalize_timestamptz(text@),
{
    let direct = parse_instant(text, "%Y-%m-%d %H:%M:%S%.f%:z");
    let instant = match direct {
        Some(t) => Some(t),
        None => {
            let expanded = expand_short_tz_offset(text);
            parse_instant(expanded.as_str(), "%Y-%m-%d %H:%M:%S%.f%:z")
        },
    };
    match instant {
        Some(t) => render_utc(text, t.0, t.1),
        None => text.to_owned(),
    }
}

/// Text that is not read as a timestamp with offset is left as it is.
pub proof fn lemma_unread_text_is_kept(text: Seq<char>)
    requires
        parsed_instant(text) is None,
    ensures
        spec_normalize_timestamptz(text) == text,
{
}

/// Normalizing is idempotent wherever it leaves the text alone, and
/// wherever what it writes is not read as a timestamp with offset again, as
/// is the case for a timestamp written out without one: the second pass
/// hands back what it was given.
pub proof fn lemma_normalize_idempotent(text: Seq<char>)
    requires
        spec_normalize_timestamptz(text) != text ==> parsed_instant(
            spec_normalize_timestamptz(text),
        ) is None,
    ensures
        spec_normalize_timestamptz(spec_normalize_timestamptz(text)) == spec_normalize_timestamptz(
            text,
        ),
{
}

} // verus!

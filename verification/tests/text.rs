use pg_cdc::text::{
    char_is_whitespace, chars_of, contains_char, copy_range, push_all, push_range, same_chars,
    string_of, trim_bounds,
};

fn chars(s: &str) -> Vec<char> {
    s.chars().collect()
}

fn trimmed(s: &str) -> String {
    let v = chars(s);
    let (start, end) = trim_bounds(&v);
    v[start..end].iter().collect()
}

#[test]
fn chars_and_strings_round_trip() {
    assert_eq!(chars_of("héllo €"), chars("héllo €"));
    assert_eq!(chars_of(""), Vec::<char>::new());
    assert_eq!(string_of(&chars("héllo €")), "héllo €");
    assert_eq!(string_of(&Vec::new()), "");
}

#[test]
fn ranges_are_copied_and_appended() {
    let v = chars("abcdef");
    assert_eq!(copy_range(&v, 1, 4), chars("bcd"));
    assert_eq!(copy_range(&v, 3, 3), chars(""));
    let mut out = String::from("x");
    push_range(&mut out, &v, 2, 6);
    assert_eq!(out, "xcdef");
    let mut w = chars("12");
    push_all(&mut w, &v);
    assert_eq!(w, chars("12abcdef"));
}

#[test]
fn characters_are_found_and_compared() {
    assert!(contains_char(&chars("a.b"), '.'));
    assert!(!contains_char(&chars("ab"), '.'));
    assert!(!contains_char(&chars(""), '.'));
    assert!(same_chars(&chars("abc"), &chars("abc")));
    assert!(!same_chars(&chars("abc"), &chars("abd")));
    assert!(!same_chars(&chars("abc"), &chars("ab")));
}

#[test]
fn whitespace_is_what_the_standard_library_trims() {
    for code in 0..=0x10FFFFu32 {
        if let Some(c) = char::from_u32(code) {
            assert_eq!(char_is_whitespace(c), c.is_whitespace(), "U+{:04X}", code);
        }
    }
}

#[test]
fn trimming_agrees_with_the_standard_library() {
    for s in [
        "",
        " ",
        "  \t\n",
        "a",
        " a",
        "a ",
        "  a b  ",
        "\u{a0}x\u{3000}",
        "\u{2003}{1,2}\r\n",
        "x \u{85}",
        "\u{200b}x",
    ] {
        assert_eq!(trimmed(s), s.trim(), "{:?}", s);
    }
}

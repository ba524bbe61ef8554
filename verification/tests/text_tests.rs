use xmrigcc_proxy_monitor::text::{
    append_chars, chars_eq, chars_of, chars_start_with, find_char, is_whitespace_char, join_chars,
    lower_char, owned, parse_unsigned, push_decimal, string_of, string_of_range, to_ascii_lowercase,
    trim_bounds, trimmed,
};

#[test]
fn trimming_drops_unicode_whitespace_on_both_sides() {
    let cs = chars_of("\u{a0}\t  host.local \u{3000}\n");
    assert_eq!(string_of(&trimmed(&cs)), "host.local");
    let blank = chars_of(" \t\r\n");
    assert!(trimmed(&blank).is_empty());
    assert_eq!(trim_bounds(&chars_of("  ab ")), (2, 4));
}

#[test]
fn trimming_twice_changes_nothing() {
    let once = trimmed(&chars_of("  x y  "));
    let twice = trimmed(&once);
    assert_eq!(once, twice);
    assert_eq!(string_of(&twice), "x y");
}

#[test]
fn whitespace_set_matches_std() {
    for c in ['\t', '\n', '\u{b}', '\u{c}', '\r', ' ', '\u{85}', '\u{a0}', '\u{1680}', '\u{2000}',
        '\u{200a}', '\u{2028}', '\u{2029}', '\u{202f}', '\u{205f}', '\u{3000}', 'a', '\u{200b}',
        '\u{180e}', '_']
    {
        assert_eq!(is_whitespace_char(c), c.is_whitespace(), "{:?}", c);
    }
}

#[test]
fn unsigned_parsing_follows_str_parse() {
    assert_eq!(parse_unsigned(&chars_of("8080"), u16::MAX as u64), Some(8080));
    assert_eq!(parse_unsigned(&chars_of("+42"), u16::MAX as u64), Some(42));
    assert_eq!(parse_unsigned(&chars_of("65535"), u16::MAX as u64), Some(65535));
    assert_eq!(parse_unsigned(&chars_of("65536"), u16::MAX as u64), None);
    assert_eq!(parse_unsigned(&chars_of("-1"), u16::MAX as u64), None);
    assert_eq!(parse_unsigned(&chars_of("+"), u16::MAX as u64), None);
    assert_eq!(parse_unsigned(&chars_of(""), u16::MAX as u64), None);
    assert_eq!(parse_unsigned(&chars_of("12a"), u16::MAX as u64), None);
    assert_eq!(parse_unsigned(&chars_of("0018"), u64::MAX), Some(18));
    assert_eq!(
        parse_unsigned(&chars_of("18446744073709551615"), u64::MAX),
        Some(u64::MAX)
    );
    assert_eq!(parse_unsigned(&chars_of("18446744073709551616"), u64::MAX), None);
}

#[test]
fn decimal_text_round_trips() {
    for n in [0u64, 7, 10, 80, 65535, 1_000_000, u64::MAX] {
        let mut out = chars_of("x=");
        push_decimal(&mut out, n);
        assert_eq!(string_of(&out), format!("x={}", n));
        let digits = chars_of(&n.to_string());
        assert_eq!(parse_unsigned(&digits, u64::MAX), Some(n));
    }
}

#[test]
fn lowercase_touches_only_ascii_letters() {
    assert_eq!(string_of(&to_ascii_lowercase(&chars_of("HTTPS-Ä1"))), "https-Ä1");
    assert_eq!(lower_char('Q'), 'q');
    assert_eq!(lower_char('9'), '9');
}

#[test]
fn character_helpers() {
    let cs = chars_of("GET /1/summary");
    assert_eq!(find_char(&cs, 0, ' '), 3);
    assert_eq!(find_char(&cs, 4, ' '), cs.len());
    assert!(chars_start_with(&cs, &chars_of("GET")));
    assert!(!chars_start_with(&cs, &chars_of("POST")));
    assert!(chars_eq(&chars_of("ab"), &chars_of("ab")));
    assert!(!chars_eq(&chars_of("ab"), &chars_of("abc")));
    assert_eq!(string_of_range(&cs, 4, 6), "/1");
    let mut out = chars_of("a");
    append_chars(&mut out, &chars_of("bc"));
    assert_eq!(string_of(&out), "abc");
    assert_eq!(owned("copy"), "copy");
}

#[test]
fn joining_puts_the_separator_between_parts() {
    let parts = vec![chars_of("a"), chars_of("b"), chars_of("c")];
    assert_eq!(string_of(&join_chars(&parts, &[',', ' '])), "a, b, c");
    assert_eq!(string_of(&join_chars(&vec![chars_of("only")], &['/'])), "only");
    assert_eq!(string_of(&join_chars(&Vec::new(), &['/'])), "");
}

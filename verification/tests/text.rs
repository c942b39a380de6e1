use fmtm_ytmimi_markdown_fmt::text::{
    all, chars_of, contains, count, count_newlines, decimal_value, ends_with, equals, find,
    is_whitespace, line_end, longer_than, matches_at, push_all, push_decimal, push_repeat, scan,
    scan_back, span, starts_with, string_of, to_vec, trim, trim_end, trim_end_matches, trim_start,
    trim_start_matches, utf8_len, CharSet,
};

fn chars(s: &str) -> Vec<char> {
    s.chars().collect()
}

fn text(v: &[char]) -> String {
    v.iter().collect()
}

#[test]
fn whitespace_is_that_of_unicode() {
    for c in [' ', '\t', '\n', '\r', '\u{b}', '\u{c}', '\u{85}', '\u{a0}', '\u{1680}', '\u{2003}', '\u{2028}', '\u{2029}', '\u{202f}', '\u{205f}', '\u{3000}'] {
        assert!(is_whitespace(c), "{c:?}");
    }
    for c in ['a', '0', '-', '\u{200b}', '\u{feff}', '\u{8}', '\u{e}'] {
        assert!(!is_whitespace(c), "{c:?}");
    }
    for code in 0..0x3100u32 {
        if let Some(c) = char::from_u32(code) {
            assert_eq!(is_whitespace(c), c.is_whitespace(), "{c:?}");
        }
    }
}

#[test]
fn char_sets_hold_their_characters() {
    assert!(CharSet::Whitespace.test(' '));
    assert!(!CharSet::Whitespace.test('x'));
    assert!(CharSet::Just('x').test('x'));
    assert!(!CharSet::Just('x').test('y'));
    assert!(CharSet::Either('`', '~').test('~'));
    assert!(!CharSet::Either('`', '~').test('-'));
    assert!(CharSet::HeadingTail.test('#'));
    assert!(CharSet::HeadingTail.test('\\'));
    assert!(CharSet::HeadingTail.test('\t'));
    assert!(!CharSet::HeadingTail.test('a'));
    assert!(CharSet::Digit.test('0'));
    assert!(CharSet::Digit.test('9'));
    assert!(!CharSet::Digit.test('a'));
}

#[test]
fn scans_stop_where_asked() {
    let s = chars("  ab  c");
    assert_eq!(scan(&s, CharSet::Whitespace, false, 0), 2);
    assert_eq!(scan(&s, CharSet::Whitespace, true, 2), 4);
    assert_eq!(scan(&s, CharSet::Just('z'), true, 0), 7);
    assert_eq!(scan(&s, CharSet::Just('z'), true, 100), 7);
    assert_eq!(scan_back(&s, CharSet::Whitespace, false, 6), 4);
    assert_eq!(scan_back(&s, CharSet::Just('c'), false, 7), 6);
    assert_eq!(scan_back(&s, CharSet::Just('z'), true, 7), 0);
    assert_eq!(scan_back(&s, CharSet::Just('z'), true, 100), 0);
}

#[test]
fn text_is_trimmed() {
    assert_eq!(text(trim(&chars(" \t a b \n"))), "a b");
    assert_eq!(text(trim(&chars("   "))), "");
    assert_eq!(text(trim(&chars(""))), "");
    assert_eq!(text(trim_start(&chars("  a "))), "a ");
    assert_eq!(text(trim_end(&chars("  a "))), "  a");
    assert_eq!(text(trim_start_matches(&chars("``~x`"), CharSet::Either('`', '~'))), "x`");
    assert_eq!(text(trim_end_matches(&chars("a\n\n"), CharSet::Just('\n'))), "a");
    assert_eq!(text(trim(&chars("\u{a0}x\u{3000}"))), "x");
}

#[test]
fn characters_are_counted() {
    assert_eq!(count(&chars("a-b--c"), CharSet::Just('-')), 3);
    assert_eq!(count(&chars(""), CharSet::Just('-')), 0);
    assert_eq!(count_newlines(&chars("a\n\nb\n")), 3);
    assert!(contains(&chars("a b"), CharSet::Whitespace));
    assert!(!contains(&chars("ab"), CharSet::Whitespace));
    assert!(all(&chars("123"), CharSet::Digit));
    assert!(all(&chars(""), CharSet::Digit));
    assert!(!all(&chars("12a"), CharSet::Digit));
}

#[test]
fn patterns_are_found() {
    let s = chars("abcabc");
    assert!(matches_at(&s, &chars("bc"), 1));
    assert!(!matches_at(&s, &chars("bc"), 0));
    assert!(!matches_at(&s, &chars("bc"), 5));
    assert!(matches_at(&s, &chars(""), 6));
    assert!(!matches_at(&s, &chars(""), 7));
    assert!(starts_with(&s, &chars("abc")));
    assert!(!starts_with(&s, &chars("bc")));
    assert!(ends_with(&s, &chars("abc")));
    assert!(!ends_with(&s, &chars("ab")));
    assert!(equals(&s, &chars("abcabc")));
    assert!(!equals(&s, &chars("abcab")));
    assert_eq!(find(&s, &chars("ca"), 0), 2);
    assert_eq!(find(&s, &chars("bc"), 2), 4);
    assert_eq!(find(&s, &chars("x"), 0), 6);
    assert_eq!(find(&s, &chars("a"), 9), 6);
}

#[test]
fn spans_are_brought_into_the_text() {
    let s = chars("abcdef");
    assert_eq!(text(span(&s, 1, 3)), "bc");
    assert_eq!(text(span(&s, 4, 100)), "ef");
    assert_eq!(text(span(&s, 3, 1)), "");
    assert_eq!(text(span(&s, 100, 200)), "");
}

#[test]
fn lines_end_behind_their_line_feed() {
    let s = chars("ab\ncd\n\nef");
    assert_eq!(line_end(&s, 0), 3);
    assert_eq!(line_end(&s, 1), 3);
    assert_eq!(line_end(&s, 3), 6);
    assert_eq!(line_end(&s, 6), 7);
    assert_eq!(line_end(&s, 7), 9);
    assert_eq!(line_end(&s, 9), 9);
    assert_eq!(line_end(&s, 50), 9);
}

#[test]
fn texts_are_built() {
    let mut out = chars("a");
    push_all(&mut out, &chars("bc"));
    push_repeat(&mut out, '-', 3);
    push_decimal(&mut out, 0);
    push_decimal(&mut out, 1907);
    assert_eq!(text(&out), "abc---01907");
    assert_eq!(to_vec(&out), out);
    assert_eq!(string_of(&out), "abc---01907");
    assert_eq!(chars_of("héllo 🙂"), chars("héllo 🙂"));
    let mut number = Vec::new();
    push_decimal(&mut number, usize::MAX);
    assert_eq!(text(&number), usize::MAX.to_string());
}

#[test]
fn decimal_numerals_are_read() {
    assert_eq!(decimal_value(&chars("0")), Some(0));
    assert_eq!(decimal_value(&chars("0042")), Some(42));
    assert_eq!(decimal_value(&chars("")), Some(0));
    assert_eq!(decimal_value(&chars(&usize::MAX.to_string())), Some(usize::MAX));
    assert_eq!(decimal_value(&chars("18446744073709551616")), None);
    assert_eq!(decimal_value(&chars("99999999999999999999999")), None);
}

#[test]
fn bytes_are_counted() {
    assert_eq!(utf8_len('a'), 1);
    assert_eq!(utf8_len('é'), 2);
    assert_eq!(utf8_len('€'), 3);
    assert_eq!(utf8_len('🙂'), 4);
    for c in ['\u{7f}', '\u{80}', '\u{7ff}', '\u{800}', '\u{ffff}', '\u{10000}'] {
        assert_eq!(utf8_len(c), c.len_utf8());
    }
    assert!(longer_than(&chars("abc"), 2));
    assert!(!longer_than(&chars("ab"), 2));
    assert!(longer_than(&chars("€"), 2));
    assert!(!longer_than(&chars(""), 0));
}

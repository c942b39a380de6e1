use fmtm_ytmimi_markdown_fmt::links::{
    balanced_parens, find_inline_url_and_title, find_reference_link_label,
    find_text_within_last_set_of_balance_bracket, format_link_url, inline_link, link_title_start,
    recover_escaped_link_destination_and_title, reference_definition,
    reference_definition_without_label, split_inline_url_from_title, trim_angle_brackes, LinkParts,
};

fn chars(s: &str) -> Vec<char> {
    s.chars().collect()
}

fn text(v: &[char]) -> String {
    v.iter().collect()
}

fn parts(url: &str, title: Option<(&str, char)>) -> LinkParts {
    LinkParts { url: chars(url), title: title.map(|(t, q)| (chars(t), q)) }
}

#[test]
fn parens_are_balanced() {
    assert!(balanced_parens(&chars("")));
    assert!(balanced_parens(&chars("/url")));
    assert!(balanced_parens(&chars("/a(b(c))d")));
    assert!(balanced_parens(&chars("a\\(b")));
    assert!(balanced_parens(&chars("a\\)b")));
    assert!(!balanced_parens(&chars("a(b")));
    assert!(!balanced_parens(&chars("a)b")));
    assert!(!balanced_parens(&chars(")(")));
}

#[test]
fn link_url_is_wrapped_where_needed() {
    assert_eq!(text(&format_link_url(&chars("/url"), false)), "/url");
    assert_eq!(text(&format_link_url(&chars(""), false)), "");
    assert_eq!(text(&format_link_url(&chars(""), true)), "<>");
    assert_eq!(text(&format_link_url(&chars("/my url"), false)), "</my url>");
    assert_eq!(text(&format_link_url(&chars("</my url>"), false)), "</my url>");
    assert_eq!(text(&format_link_url(&chars("/a(b"), true)), "</a(b>");
}

#[test]
fn last_balanced_bracket_is_found() {
    assert_eq!(find_text_within_last_set_of_balance_bracket(&chars("[foo][bar]"), '[', ']', None), (5, 10));
    assert_eq!(
        find_text_within_last_set_of_balance_bracket(&chars("[link \\[bar][ref]"), '[', ']', None),
        (12, 17)
    );
    assert_eq!(
        find_text_within_last_set_of_balance_bracket(&chars("[a](b[c])"), '[', ']', Some('(')),
        (0, 3)
    );
    assert_eq!(find_text_within_last_set_of_balance_bracket(&chars("none"), '[', ']', None), (0, 5));
}

#[test]
fn reference_link_label_is_found() {
    assert_eq!(text(find_reference_link_label(&chars("[foo][bar]"))), "bar");
    assert_eq!(text(find_reference_link_label(&chars("[link \\[bar][ref]"))), "ref");
    assert_eq!(text(find_reference_link_label(&chars("[foo][ bar ]"))), "bar");
}

#[test]
fn inline_url_and_title_are_found() {
    assert_eq!(find_inline_url_and_title(&chars("[link](/uri)")), Some(parts("/uri", None)));
    assert_eq!(
        find_inline_url_and_title(&chars("[link](</my uri>)")),
        Some(parts("/my uri", None))
    );
    assert_eq!(
        find_inline_url_and_title(&chars("[link](/uri \"title\")")),
        Some(parts("/uri", Some(("title", '"'))))
    );
    assert_eq!(
        find_inline_url_and_title(&chars("[link](/uri 'it''s')")),
        Some(parts("/uri 'it'", Some(("s", '\''))))
    );
    assert_eq!(
        find_inline_url_and_title(&chars("[link](/uri (title))")),
        Some(parts("/uri", Some(("title", ')'))))
    );
    assert_eq!(find_inline_url_and_title(&chars("[link]()")), Some(parts("", None)));
    assert_eq!(find_inline_url_and_title(&chars("[a](b\\\"c \"t\")")), Some(parts("b\\\"c", Some(("t", '"')))));
}

#[test]
fn inline_url_is_not_found_without_parentheses() {
    assert_eq!(find_inline_url_and_title(&chars("")), None);
    assert_eq!(find_inline_url_and_title(&chars("[a]")), None);
    assert_eq!(find_inline_url_and_title(&chars("abc")), None);
}

#[test]
fn title_start_is_found() {
    assert_eq!(link_title_start(&chars("/uri \"title\"")), 5);
    assert_eq!(link_title_start(&chars("/uri (title)")), 5);
    assert_eq!(link_title_start(&chars("/u \"a\\\"b\"")), 3);
    assert_eq!(link_title_start(&chars("\"title\"")), 0);
    assert_eq!(link_title_start(&chars("")), 0);
}

#[test]
fn angle_brackets_are_trimmed() {
    assert_eq!(text(trim_angle_brackes(&chars("< /a b >"))), "/a b");
    assert_eq!(text(trim_angle_brackes(&chars("  /a  "))), "/a");
    assert_eq!(text(trim_angle_brackes(&chars("<"))), "<");
    assert_eq!(text(trim_angle_brackes(&chars("<>"))), "");
}

#[test]
fn url_is_split_from_title() {
    assert_eq!(split_inline_url_from_title(&chars("/uri"), false), parts("/uri", None));
    assert_eq!(split_inline_url_from_title(&chars("/uri"), true), parts("/uri", None));
    assert_eq!(
        split_inline_url_from_title(&chars("</a b>   'x y'"), true),
        parts("/a b", Some(("x y", '\'')))
    );
    assert_eq!(split_inline_url_from_title(&chars("/uri \"t\""), false), parts("/uri \"t\"", None));
    assert_eq!(split_inline_url_from_title(&chars("\"t\""), true), parts("\"t\"", None));
}

#[test]
fn definition_without_label_is_found() {
    assert_eq!(text(reference_definition_without_label(&chars("[foo]: /url"), &chars("foo"))), ": /url");
    assert_eq!(text(reference_definition_without_label(&chars("[a:b]: /url"), &chars("a:b"))), ": /url");
    // the label is not found as it stands: the definition is taken to begin with it
    assert_eq!(text(reference_definition_without_label(&chars("[f\\]]: /u"), &chars("f]"))), "]]: /u");
}

#[test]
fn escaped_destination_and_title_are_recovered() {
    assert_eq!(
        recover_escaped_link_destination_and_title(&chars("[foo]: /url\\* \"ti\\*tle\""), &chars("foo"), true),
        Some(parts("/url\\*", Some(("ti\\*tle", '"'))))
    );
    assert_eq!(
        recover_escaped_link_destination_and_title(&chars("[foo]: </my url>"), &chars("foo"), false),
        Some(parts("/my url", None))
    );
    assert_eq!(
        recover_escaped_link_destination_and_title(&chars("[foo] /url"), &chars("foo"), false),
        None
    );
}

#[test]
fn inline_link_is_written() {
    assert_eq!(text(&inline_link(&chars("/uri"), &None)), "](/uri)");
    assert_eq!(text(&inline_link(&chars("/my uri"), &Some((chars("t"), '"')))), "](</my uri> \"t\")");
    assert_eq!(text(&inline_link(&chars("/uri"), &Some((chars("t"), ')')))), "](/uri (t))");
    assert_eq!(text(&inline_link(&chars(""), &None)), "]()");
}

#[test]
fn reference_definition_is_written() {
    assert_eq!(text(&reference_definition(&chars(" foo "), &chars("/url"), &None)), "[foo]: /url");
    assert_eq!(text(&reference_definition(&chars("foo"), &chars(""), &None)), "[foo]: <>");
    assert_eq!(
        text(&reference_definition(&chars("foo"), &chars("/a b"), &Some((chars("t"), '\'')))),
        "[foo]: </a b> 't'"
    );
    assert_eq!(
        text(&reference_definition(&chars("foo"), &chars("/u"), &Some((chars("t"), ')')))),
        "[foo]: /u (t)"
    );
}

use fmtm_ytmimi_markdown_fmt::{Config, FormatError, MarkdownFormatter, MdEvent, SourceEvent};

fn format(input: &str) -> String {
    MarkdownFormatter::default().format(input).expect("formatting won't fail")
}

fn format_opinionated(input: &str) -> String {
    let mut formatter = MarkdownFormatter::default();
    formatter.sichanghe_config();
    formatter.format(input).expect("formatting won't fail")
}

/// Formats, compares, and formats the result once more.
fn check(input: &str, expected: &str) {
    let formatted = format(input);
    assert_eq!(formatted, expected);
    assert_eq!(format(&formatted), formatted);
}

fn check_opinionated(input: &str, expected: &str) {
    let formatted = format_opinionated(input);
    assert_eq!(formatted, expected);
    assert_eq!(format_opinionated(&formatted), formatted);
}

#[test]
fn reformat() {
    let input = r##"#  Hello World!
1.  Hey [ there! ]
2.  what's going on?

<p> and a little bit of HTML </p>

```rust
fn main() {}
```
[
    there!
    ]: htts://example.com "Yoooo"
"##;
    let expected = r##"# Hello World!
1. Hey [there!]
1. what's going on?

<p> and a little bit of HTML </p>

```rust
fn main() {}
```
[there!]: htts://example.com "Yoooo"
"##;
    check_opinionated(input, expected);
}

#[test]
fn reformat_emoji() {
    let input = "Congratulations, that's really good news 🙂

I have a couple of good firends there.";
    check_opinionated(input, input);
}

#[test]
fn reformat_display_math_in_list() {
    let input = "- $a$

    $$
    a
    $$";
    check_opinionated(input, input);
}

#[test]
fn getting_started() {
    let markdown = r##" # Getting Started
1. numbered lists
1.  are easy!
"##;
    let expected = r##"# Getting Started
1. numbered lists
1. are easy!
"##;
    check(markdown, expected);
}

#[test]
fn header_is_normalized() {
    check("#  Hello World! ", "# Hello World!");
    check("   #  Header! ", "# Header!");
    check("###    deep   \n", "### deep\n");
}

#[test]
fn empty_header_has_no_trailing_space() {
    check("#\n", "#\n");
    check("## ##\n", "##\n");
}

#[test]
fn setext_header_keeps_its_underline() {
    check("Header\n======\n\nSecond\n---\n", "Header\n======\n\nSecond\n---\n");
}

#[test]
fn header_attributes_are_kept() {
    check("# Title { #top .big .red }\n", "# Title {#top .big .red}\n");
    check("# Title { .big }\n", "# Title {.big}\n");
}

#[test]
fn list_is_renumbered() {
    let input = "1.  Hey [ there! ]\n2.  what's going on?\n";
    check_opinionated(input, "1. Hey [there!]\n1. what's going on?\n");
    // without fixed markers the source's own numbers stay
    check(input, "1. Hey [there!]\n2. what's going on?\n");
}

#[test]
fn list_is_renumbered_with_the_list_settings_alone() {
    let config = Config {
        fixed_zero_padding: Some(0),
        fixed_number: Some(1),
        fixed_ordered_list_marker: Some(fmtm_ytmimi_markdown_fmt::OrderedListMarker::Period),
        fixed_unordered_list_marker: Some(fmtm_ytmimi_markdown_fmt::UnorderedListMarker::Hyphen),
        ..Config::default()
    };
    let formatted = MarkdownFormatter::with_config(config.clone())
        .format("1.  Hey [ there! ]\n2.  what's going on?\n")
        .unwrap();
    assert_eq!(formatted, "1. Hey [there!]\n1. what's going on?\n");
    assert_eq!(MarkdownFormatter::with_config(config.clone()).format(&formatted).unwrap(), formatted);
    let formatted =
        MarkdownFormatter::with_config(config).format("007) a\n008) b\n\n* x\n* y\n").unwrap();
    assert_eq!(formatted, "1. a\n1. b\n\n- x\n- y\n");
}

#[test]
fn tilde_fence_document_is_kept() {
    check("~~~~ text\nhello\n~~~~\n", "~~~~ text\nhello\n~~~~\n");
    check("~~~\nhello\n~~~", "~~~\nhello\n~~~");
}

#[test]
fn list_without_a_final_line_feed_has_none() {
    check("- a\n- b", "- a\n- b");
    check("1. a\n2. b", "1. a\n2. b");
    check_opinionated("* a\n* b", "- a\n- b");
}

#[test]
fn unordered_markers_are_fixed_or_kept() {
    check_opinionated("* a\n* b\n", "- a\n- b\n");
    check("* a\n* b\n", "* a\n* b\n");
    check("+ a\n+ b\n", "+ a\n+ b\n");
}

#[test]
fn zero_padding_is_kept_or_fixed() {
    check("007. a\n008. b\n", "007. a\n008. b\n");
    check_opinionated("007. a\n008. b\n", "1. a\n1. b\n");
    check("3) a\n4) b\n", "3) a\n4) b\n");
}

#[test]
fn reference_definition_is_repositioned() {
    let input = "text\n\n[\n    there!\n    ]: htts://example.com \"Yoooo\"\n\nmore [ there! ]\n";
    check(input, "text\n\n[there!]: htts://example.com \"Yoooo\"\n\nmore [there!]\n");
}

#[test]
fn reference_definitions_come_in_source_order() {
    let input = "[c]: /c\n[a]: /a\n\ntext [a] [b] [c]\n\n[b]: /b\n";
    check(input, "[c]: /c\n[a]: /a\n\ntext [a] [b] [c]\n\n[b]: /b\n");
}

#[test]
fn leftover_reference_definitions_are_flushed_at_the_end() {
    check("text\n\n[x]: /x 'title'\n[y]: <>\n", "text\n\n[x]: /x 'title'\n[y]: <>\n");
}

#[test]
fn table_columns_are_aligned() {
    let input = "| a | b |\n|---|:-:|\n| 1 | 22222 |\n";
    check(input, "| a   |   b   |\n| --- | :---: |\n| 1   | 22222 |\n");
}

#[test]
fn table_alignment_row_follows_the_declared_alignment() {
    let input = "|a|b|c|d|\n|-|:-|-:|:-:|\n|1|2|3|4|\n";
    let expected = "| a   | b   |   c |  d  |\n| --- | :-- | --: | :-: |\n| 1   | 2   |   3 |  4  |\n";
    check(input, expected);
    let input = "|aaaa|bbbb|cccc|dddd|\n|-|:-|-:|:-:|\n|1|2|3|4|\n";
    let expected = "| aaaa | bbbb | cccc | dddd |\n| ---- | :--- | ---: | :--: |\n| 1    | 2    |    3 |  4   |\n";
    check(input, expected);
}

#[test]
fn table_column_is_as_wide_as_its_widest_cell() {
    check(
        "| abc | defghi |\n:-: | -----------:\nbar | baz",
        "| abc | defghi |\n| :-: | -----: |\n| bar |    baz |",
    );
}

#[test]
fn table_width_counts_graphemes() {
    // "e" with a combining accent is two characters and one grapheme
    let input = "| e\u{301}e\u{301}e\u{301}e\u{301} |\n|---|\n| abcd |\n";
    check(input, "| e\u{301}e\u{301}e\u{301}e\u{301} |\n| ---- |\n| abcd |\n");
}

#[test]
fn fence_is_preserved() {
    check("```rust\nfn main() {}\n```\n", "```rust\nfn main() {}\n```\n");
    check("~~~~ text\nhello\n~~~~\n", "~~~~ text\nhello\n~~~~\n");
    check("`````\n```\n`````\n", "`````\n```\n`````\n");
}

#[test]
fn code_block_content_is_untouched() {
    let input = "```\n  two\n\n      six  \n\tx\n```\n";
    check(input, input);
}

#[test]
fn empty_block_quote_has_no_trailing_space() {
    check(">", ">");
    check("> a\n>\n> b\n", "> a\n>\n> b\n");
}

#[test]
fn empty_list_item_has_no_trailing_space() {
    check("-\n", "-\n");
    check("- a\n-\n- b\n", "- a\n-\n- b\n");
    check("1.\n", "1.\n");
}

#[test]
fn trailing_newline_mirrors_the_input() {
    assert_eq!(format("text"), "text");
    assert_eq!(format("text\n"), "text\n");
    assert_eq!(format(""), "");
}

#[test]
fn emphasis_markers_are_kept() {
    let input = "Some *emphasis*, _more_, **strong**, __more__ and ~~struck~~ text.\n";
    check(input, input);
}

#[test]
fn emphasis_markers_are_fixed() {
    let config = Config {
        fixed_emphasis_marker: Some("*".to_string()),
        fixed_strong_marker: Some("**".to_string()),
        ..Config::default()
    };
    let formatted = MarkdownFormatter::with_config(config)
        .format("Some _emphasis_ and __strong__ text.\n")
        .unwrap();
    assert_eq!(formatted, "Some *emphasis* and **strong** text.\n");
}

#[test]
fn links_keep_their_form() {
    let input = "[link](http://example.com \"title\") ![img](a.png) <http://a.b> [x][] [y]\n\n[x]: /x\n[y]: /y\n";
    check(input, input);
}

#[test]
fn link_destination_with_space_is_wrapped() {
    check("[a](</my uri>)\n", "[a](</my uri>)\n");
}

#[test]
fn link_title_in_parentheses_is_kept() {
    check("[a](/uri (title))\n", "[a](/uri (title))\n");
}

#[test]
fn paragraphs_are_wrapped_to_the_width() {
    let input = "a very long line of text that goes well beyond the eighty columns that the opinionated configuration allows for a paragraph\n";
    let expected = "a very long line of text that goes well beyond the eighty columns that the\nopinionated configuration allows for a paragraph\n";
    check_opinionated(input, expected);
    // without a width the paragraph stays as it is
    check(input, input);
}

#[test]
fn width_of_a_paragraph_is_what_the_indentation_leaves() {
    let mut formatter = MarkdownFormatter::default();
    formatter.max_width(Some(12));
    // the block quote takes two of the twelve columns
    assert_eq!(formatter.format("> aaaa bbbb cccc\n").unwrap(), "> aaaa bbbb\n> cccc\n");
    let mut formatter = MarkdownFormatter::default();
    formatter.max_width(Some(12));
    assert_eq!(formatter.format("aaaa bbbbbbb cccc\n").unwrap(), "aaaa bbbbbbb\ncccc\n");
    let mut formatter = MarkdownFormatter::default();
    formatter.max_width(Some(12));
    assert_eq!(formatter.format("> aaaa bbbbbbb cccc\n").unwrap(), "> aaaa\n> bbbbbbb\n> cccc\n");
}

#[test]
fn blank_lines_of_the_source_are_kept() {
    check("one\n\n\n\ntwo\n", "one\n\n\n\ntwo\n");
    check("one\ntwo\n", "one\ntwo\n");
}

#[test]
fn text_beyond_ascii_is_kept() {
    let input = "Ünïcödé *tëxt* — with “quotes” and 🙂\n\n- ünï\n- 🙂 item\n\n[ünï]: /ü \"tïtle\"\n";
    check(input, input);
}

#[test]
fn failures_are_told_apart() {
    assert!(!FormatError::WriteFailure.is_invariant_violation());
    assert!(FormatError::MismatchedTag.is_invariant_violation());
    assert!(FormatError::MissingEndTag.is_invariant_violation());
    assert!(FormatError::SourceRange.is_invariant_violation());
}

#[test]
fn max_width_is_set_by_the_builder() {
    let mut formatter = MarkdownFormatter::default();
    formatter.max_width(Some(10));
    assert_eq!(formatter.format("aaaa bbbb cccc\n").unwrap(), "aaaa bbbb\ncccc\n");
}

#[test]
fn list_after_code_block_gets_a_comment() {
    let formatted = format("* a\n* b\n\n<!-- x -->\n\n    code\n");
    assert_eq!(format(&formatted), formatted);
}

#[test]
fn indented_code_behind_a_list_is_parted_from_it() {
    let events_in = "- a\n\n<!-- -->\n\n    code\n";
    let formatted = format(events_in);
    assert_eq!(format(&formatted), formatted);
}

#[test]
fn text_that_reads_as_a_block_is_escaped() {
    check("a\n\\# b\n", "a\n\\# b\n");
    check("a\n\\- b\n", "a\n\\- b\n");
}

#[test]
fn task_list_markers_are_kept() {
    check("- [ ] todo\n- [x] done\n", "- [ ] todo\n- [x] done\n");
}

#[test]
fn footnotes_are_kept() {
    check("Footnote[^1].\n\n[^1]: note\n", "Footnote[^1].\n\n[^1]: note\n");
}

#[test]
fn metadata_block_is_kept() {
    check("---\ntitle: x\n---\n\n# T\n", "---\ntitle: x\n---\n\n# T\n");
    check("+++\ntitle = 1\n+++\n\ntext\n", "+++\ntitle = 1\n+++\n\ntext\n");
}

#[test]
fn document_that_ends_with_its_metadata_block_ends_as_the_source() {
    check("---\na\n---", "---\na\n---");
    check("---\na\n---\n", "---\na\n---\n");
    check("+++\ntitle = 1\n+++\n", "+++\ntitle = 1\n+++\n");
    check_opinionated("---\na\n---", "---\na\n---");
    check_opinionated("---\na\n---\n", "---\na\n---\n");
}

#[test]
fn final_line_feed_mirrors_the_source() {
    for input in [
        "text",
        "# h",
        "- a\n- b",
        "> q",
        "```\ncode\n```",
        "    code",
        "<div>\nx\n</div>",
        "| a |\n|---|\n| 1 |",
        "[a]: /a",
        "---\na\n---",
        "$$\nx\n$$",
        "* * *",
    ] {
        let formatted = format(input);
        assert!(!formatted.ends_with('\n'), "input: {input:?} gave {formatted:?}");
        let with_feed = format!("{input}\n");
        let formatted = format(&with_feed);
        assert!(formatted.ends_with('\n'), "input: {with_feed:?} gave {formatted:?}");
        assert_eq!(format(&formatted), formatted, "input: {with_feed:?}");
    }
}

#[test]
fn html_block_indentation_is_trimmed_to_four() {
    check("<div>\n  <p>\n      x\n  </p>\n</div>\n", "<div>\n<p>\n    x\n</p>\n</div>\n");
}

#[test]
fn nested_structures_are_idempotent() {
    for input in [
        "> - a\n>   b\n> - c\n",
        "1. a\n   ```\n   code\n   ```\n2. b\n",
        "- a\n\n  b\n- c\n",
        "> > nested\n>\n> back\n",
        "- a\n  - b\n    - c\n",
        "text with `code` and <span>html</span>\n",
        "a  \nb\\\nc\n",
    ] {
        let formatted = format(input);
        assert_eq!(format(&formatted), formatted, "input: {input:?}");
        let formatted = format_opinionated(input);
        assert_eq!(format_opinionated(&formatted), formatted, "input: {input:?}");
    }
}

#[test]
fn unparsable_positions_are_reported() {
    let events = vec![SourceEvent { event: MdEvent::Rule, start: 0, end: 9 }];
    let result = MarkdownFormatter::default().format_parsed("---\n", events, vec![]);
    assert_eq!(result, Err(FormatError::SourceRange));
    // a position inside a character
    let events = vec![SourceEvent { event: MdEvent::Text(vec!['é']), start: 1, end: 2 }];
    let result = MarkdownFormatter::default().format_parsed("é", events, vec![]);
    assert_eq!(result, Err(FormatError::SourceRange));
}

#[test]
fn large_document_is_formatted() {
    let mut input = String::new();
    for i in 0..1500 {
        input.push_str(&format!("# Section {i}\n\nSome *text* with a [link](/to/{i} \"t\") that is long enough to be wrapped when the width says so, and `code`.\n\n"));
        input.push_str("- one\n- two\n  - nested [ref]\n\n> quote\n> more\n\n| a | b |\n|---|--:|\n| 1 | 2 |\n\n```rust\nfn main() {}\n```\n\n");
    }
    input.push_str("[ref]: /ref\n");
    let formatted = format_opinionated(&input);
    assert!(formatted.len() > input.len() / 2);
    assert_eq!(format_opinionated(&formatted), formatted);
}

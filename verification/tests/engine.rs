use std::collections::VecDeque;

use fmtm_ytmimi_markdown_fmt::adapters::loose_list::all_loose_lists;
use fmtm_ytmimi_markdown_fmt::parser::RawDefinition;
use fmtm_ytmimi_markdown_fmt::{
    Config, DefaultFormatterCombination, FormatError, FormatState, InvalidMarker, MarkdownFormatter,
    MdEvent, MdTag, ParseListMarkerError, ReferenceLinkDefinition, SourceEvent, TagKind,
};

fn event(event: MdEvent, start: usize, end: usize) -> SourceEvent {
    SourceEvent { event, start, end }
}

fn chars(s: &str) -> Vec<char> {
    s.chars().collect()
}

fn run(input: &str, events: Vec<SourceEvent>) -> Result<String, FormatError> {
    FormatState::<DefaultFormatterCombination>::new(input, Config::default(), events, vec![]).format()
}

#[test]
fn state_formats_its_events() {
    let events = vec![
        event(MdEvent::Start(MdTag::Paragraph), 0, 5),
        event(MdEvent::Text(chars("hello")), 0, 5),
        event(MdEvent::End(TagKind::Paragraph), 0, 5),
    ];
    assert_eq!(run("hello", events), Ok("hello".to_string()));
}

#[test]
fn state_writes_the_definitions_that_are_left() {
    let definitions = vec![
        ReferenceLinkDefinition {
            label: chars("b"),
            destination: chars("/b"),
            title: Some((chars("t"), '"')),
            start: 10,
            end: 21,
        },
        ReferenceLinkDefinition {
            label: chars("a"),
            destination: chars(""),
            title: None,
            start: 3,
            end: 9,
        },
    ];
    let input = "x\n\n[a]: <>\n[b]: /b \"t\"\n";
    let events = vec![
        event(MdEvent::Start(MdTag::Paragraph), 0, 2),
        event(MdEvent::Text(chars("x")), 0, 1),
        event(MdEvent::End(TagKind::Paragraph), 0, 2),
    ];
    let state = FormatState::<DefaultFormatterCombination>::new(
        input,
        Config::default(),
        events,
        definitions,
    );
    assert_eq!(state.format(), Ok("x\n\n[a]: <>\n[b]: /b \"t\"\n".to_string()));
}

#[test]
fn state_puts_the_definitions_in_order() {
    let definitions = vec![
        ReferenceLinkDefinition {
            label: chars("a"),
            destination: chars("/a"),
            title: None,
            start: 3,
            end: 10,
        },
        ReferenceLinkDefinition {
            label: chars("c"),
            destination: chars("/c"),
            title: None,
            start: 19,
            end: 26,
        },
        ReferenceLinkDefinition {
            label: chars("b"),
            destination: chars("/b"),
            title: None,
            start: 11,
            end: 18,
        },
    ];
    let input = "x\n\n[a]: /a\n[b]: /b\n[c]: /c\n";
    let events = vec![
        event(MdEvent::Start(MdTag::Paragraph), 0, 2),
        event(MdEvent::Text(chars("x")), 0, 1),
        event(MdEvent::End(TagKind::Paragraph), 0, 2),
    ];
    let state = FormatState::<DefaultFormatterCombination>::new(
        input,
        Config::default(),
        events,
        definitions,
    );
    assert_eq!(state.format(), Ok(input.to_string()));
}

#[test]
fn mismatched_end_is_reported() {
    let events = vec![
        event(MdEvent::Start(MdTag::Paragraph), 0, 5),
        event(MdEvent::Text(chars("hello")), 0, 5),
        event(MdEvent::End(TagKind::BlockQuote), 0, 5),
    ];
    assert_eq!(run("hello", events), Err(FormatError::MismatchedTag));
}

#[test]
fn element_that_stays_open_is_reported() {
    let events = vec![
        event(MdEvent::Start(MdTag::List(false)), 0, 5),
        event(MdEvent::Start(MdTag::Item), 0, 5),
    ];
    assert_eq!(run("- abc", events), Err(FormatError::MismatchedTag));
}

#[test]
fn item_that_ends_without_a_margin_is_reported() {
    // the item is innermost, but it was never opened: no margin is left
    let events = vec![
        event(MdEvent::Start(MdTag::Emphasis), 0, 1),
        event(MdEvent::End(TagKind::Item), 0, 1),
    ];
    assert_eq!(run("*", events), Err(FormatError::MismatchedTag));
}

#[test]
fn end_without_start_is_reported() {
    let events = vec![event(MdEvent::End(TagKind::Heading(fmtm_ytmimi_markdown_fmt::HeadingLevel::H1)), 0, 3)];
    assert_eq!(run("# a", events), Err(FormatError::MismatchedTag));
}

#[test]
fn block_quote_without_anything_behind_is_reported() {
    let events = vec![event(MdEvent::Start(MdTag::BlockQuote), 0, 1)];
    assert_eq!(run(">", events), Err(FormatError::MissingEndTag));
}

#[test]
fn item_without_marker_is_reported() {
    let events = vec![
        event(MdEvent::Start(MdTag::List(false)), 0, 5),
        event(MdEvent::Start(MdTag::Item), 0, 5),
        event(MdEvent::End(TagKind::Item), 0, 5),
        event(MdEvent::End(TagKind::List(false)), 0, 5),
    ];
    assert_eq!(
        run("hello", events),
        Err(FormatError::ListMarker(ParseListMarkerError::InvalidMarker(InvalidMarker('h'))))
    );
}

#[test]
fn event_outside_the_source_is_reported() {
    let events = vec![event(MdEvent::Rule, 0, 4)];
    assert_eq!(run("---", events), Err(FormatError::SourceRange));
    let events = vec![event(MdEvent::Rule, 3, 2)];
    assert_eq!(run("---", events), Err(FormatError::SourceRange));
}

#[test]
fn definition_outside_the_source_is_reported() {
    let definitions = vec![ReferenceLinkDefinition {
        label: chars("a"),
        destination: chars("/a"),
        title: None,
        start: 0,
        end: 100,
    }];
    let state =
        FormatState::<DefaultFormatterCombination>::new("[a]: /a", Config::default(), vec![], definitions);
    assert_eq!(state.format(), Err(FormatError::SourceRange));
}

#[test]
fn parsed_document_is_formatted() {
    // "é" takes two bytes: the positions are counted in bytes
    let input = "é  *b*\n";
    let events = vec![
        event(MdEvent::Start(MdTag::Paragraph), 0, 8),
        event(MdEvent::Text(chars("é  ")), 0, 4),
        event(MdEvent::Start(MdTag::Emphasis), 4, 7),
        event(MdEvent::Text(chars("b")), 5, 6),
        event(MdEvent::End(TagKind::Emphasis), 4, 7),
        event(MdEvent::End(TagKind::Paragraph), 0, 8),
    ];
    let result = MarkdownFormatter::default().format_parsed(input, events, vec![]);
    assert_eq!(result, Ok("é  *b*\n".to_string()));
}

#[test]
fn definition_with_a_false_title_loses_it() {
    // something follows the title on its line, so it is no title
    let input = "[a]: /a \"t\" x\n";
    let definitions = vec![RawDefinition {
        label: chars("a"),
        dest: chars("/a"),
        title: Some(chars("t")),
        start: 0,
        end: 11,
    }];
    let result = MarkdownFormatter::default().format_parsed(input, vec![], definitions);
    assert_eq!(result, Ok("[a]: /a\n".to_string()));
}

fn loose(input: &str, events: Vec<SourceEvent>) -> Result<Vec<SourceEvent>, FormatError> {
    all_loose_lists(&chars(input), VecDeque::from(events)).map(Vec::from)
}

#[test]
fn tight_list_stays_as_it_is() {
    let input = "- a\n- b\n";
    let events = vec![
        event(MdEvent::Start(MdTag::List(false)), 0, 8),
        event(MdEvent::Start(MdTag::Item), 0, 4),
        event(MdEvent::Text(chars("a")), 2, 3),
        event(MdEvent::End(TagKind::Item), 0, 4),
        event(MdEvent::Start(MdTag::Item), 4, 8),
        event(MdEvent::Text(chars("b")), 6, 7),
        event(MdEvent::End(TagKind::Item), 4, 8),
        event(MdEvent::End(TagKind::List(false)), 0, 8),
    ];
    assert_eq!(loose(input, events.clone()), Ok(events));
}

#[test]
fn loose_list_is_loose_in_every_item() {
    // a blank line parts the first two items; the last item has no paragraph
    let input = "- a\n\n- b\n- c\n";
    let events = vec![
        event(MdEvent::Start(MdTag::List(false)), 0, 13),
        event(MdEvent::Start(MdTag::Item), 0, 5),
        event(MdEvent::Start(MdTag::Paragraph), 2, 4),
        event(MdEvent::Text(chars("a")), 2, 3),
        event(MdEvent::End(TagKind::Paragraph), 2, 4),
        event(MdEvent::End(TagKind::Item), 0, 5),
        event(MdEvent::Start(MdTag::Item), 5, 9),
        event(MdEvent::Start(MdTag::Paragraph), 7, 9),
        event(MdEvent::Text(chars("b")), 7, 8),
        event(MdEvent::End(TagKind::Paragraph), 7, 9),
        event(MdEvent::End(TagKind::Item), 5, 9),
        event(MdEvent::Start(MdTag::Item), 9, 13),
        event(MdEvent::Text(chars("c")), 11, 12),
        event(MdEvent::End(TagKind::Item), 9, 13),
        event(MdEvent::End(TagKind::List(false)), 0, 13),
    ];
    let mut expected = events.clone();
    expected.insert(13, event(MdEvent::End(TagKind::Paragraph), 11, 12));
    expected.insert(12, event(MdEvent::Start(MdTag::Paragraph), 11, 13));
    assert_eq!(loose(input, events), Ok(expected));
}

#[test]
fn loose_list_with_a_bare_item_is_formatted() {
    let input = "- a\n\n- b\n- c\n";
    let events = vec![
        event(MdEvent::Start(MdTag::List(false)), 0, 13),
        event(MdEvent::Start(MdTag::Item), 0, 5),
        event(MdEvent::Start(MdTag::Paragraph), 2, 4),
        event(MdEvent::Text(chars("a")), 2, 3),
        event(MdEvent::End(TagKind::Paragraph), 2, 4),
        event(MdEvent::End(TagKind::Item), 0, 5),
        event(MdEvent::Start(MdTag::Item), 5, 9),
        event(MdEvent::Start(MdTag::Paragraph), 7, 9),
        event(MdEvent::Text(chars("b")), 7, 8),
        event(MdEvent::End(TagKind::Paragraph), 7, 9),
        event(MdEvent::End(TagKind::Item), 5, 9),
        event(MdEvent::Start(MdTag::Item), 9, 13),
        event(MdEvent::Text(chars("c")), 11, 12),
        event(MdEvent::End(TagKind::Item), 9, 13),
        event(MdEvent::End(TagKind::List(false)), 0, 13),
    ];
    let result = MarkdownFormatter::default().format_parsed(input, events, vec![]);
    assert_eq!(result, Ok("- a\n\n- b\n- c\n".to_string()));
}

#[test]
fn list_that_never_ends_is_reported() {
    let events = vec![
        event(MdEvent::Start(MdTag::List(false)), 0, 4),
        event(MdEvent::Start(MdTag::Item), 0, 4),
        event(MdEvent::End(TagKind::Item), 0, 4),
    ];
    assert_eq!(loose("- a\n", events), Err(FormatError::MissingEndTag));
}

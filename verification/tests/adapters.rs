use std::collections::VecDeque;

use fmtm_ytmimi_markdown_fmt::adapters::sequential_blocks::all_sequential_blocks;
use fmtm_ytmimi_markdown_fmt::{FormatError, MdEvent, MdTag, SourceEvent, TagKind};

fn event(event: MdEvent, start: usize, end: usize) -> SourceEvent {
    SourceEvent { event, start, end }
}

#[test]
fn check_adapter_events() {
    // A paragraph that opens inside an open HTML block waits for the end of
    // the HTML block.
    let events: VecDeque<SourceEvent> = vec![
        event(MdEvent::Start(MdTag::HtmlBlock), 0, 10),
        event(MdEvent::Html, 0, 5),
        event(MdEvent::Start(MdTag::Paragraph), 5, 20),
        event(MdEvent::Html, 5, 10),
        event(MdEvent::End(TagKind::HtmlBlock), 0, 10),
        event(MdEvent::Text("text".chars().collect()), 10, 20),
        event(MdEvent::End(TagKind::Paragraph), 5, 20),
    ]
    .into();
    let sorted = all_sequential_blocks(events).unwrap();
    let expected: Vec<SourceEvent> = vec![
        event(MdEvent::Start(MdTag::HtmlBlock), 0, 10),
        event(MdEvent::Html, 0, 5),
        event(MdEvent::End(TagKind::HtmlBlock), 0, 10),
        event(MdEvent::Start(MdTag::Paragraph), 5, 20),
        event(MdEvent::Html, 5, 10),
        event(MdEvent::Text("text".chars().collect()), 10, 20),
        event(MdEvent::End(TagKind::Paragraph), 5, 20),
    ];
    assert_eq!(Vec::from(sorted), expected);
}

#[test]
fn adapter_reports_a_block_that_never_ends() {
    let events: VecDeque<SourceEvent> = vec![
        event(MdEvent::Start(MdTag::Paragraph), 0, 10),
        event(MdEvent::Start(MdTag::HtmlBlock), 2, 8),
        event(MdEvent::End(TagKind::HtmlBlock), 2, 8),
    ]
    .into();
    assert_eq!(all_sequential_blocks(events), Err(FormatError::MissingEndTag));
}

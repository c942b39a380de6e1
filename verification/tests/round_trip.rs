use fmtm_ytmimi_markdown_fmt::MarkdownFormatter;
use pulldown_cmark::{Event, Options, Parser};

/// The events of a document, without the texts that hold white space alone.
fn events(input: &str) -> Vec<Event<'_>> {
    let mut options = Options::all();
    options.remove(Options::ENABLE_SMART_PUNCTUATION);
    Parser::new_ext(input, options)
        .filter(|e| !matches!(e, Event::Text(text) if text.trim().is_empty()))
        .collect()
}

fn same_events(input: &str, formatted: &str) -> bool {
    let input_events = events(input);
    let formatted_events = events(formatted);
    input_events.len() == formatted_events.len()
        && input_events.iter().zip(formatted_events.iter()).all(|pair| match pair {
            (Event::Text(input), Event::Text(formatted)) => input.trim() == formatted.trim(),
            (input, formatted) => input == formatted,
        })
}

const DOCUMENTS: [&str; 12] = [
    "#  Hello World! ",
    " # Getting Started\n1. numbered lists\n1.  are easy!\n",
    "> a\n>\n> b\n",
    "- a\n-\n- b\n",
    "| a | b |\n|---|:-:|\n| 1 | 22222 |\n",
    "~~~~ text\nhello\n~~~~\n",
    "Some *emphasis* and __strong__ text.\n\n[link](http://example.com \"title\") and ![img](a.png)\n",
    "text\n\n[\n    there!\n    ]: htts://example.com \"Yoooo\"\n\nmore [ there! ]\n",
    "Header\n======\n\nSecond\n---\n",
    "- [ ] todo\n- [x] done\n",
    "1. a\n   ```\n   code\n   ```\n2. b\n",
    "> - a\n>   b\n> - c\n",
];

#[test]
fn formatting_is_idempotent() {
    for document in DOCUMENTS {
        let formatted = MarkdownFormatter::default().format(document).unwrap();
        let again = MarkdownFormatter::default().format(&formatted).unwrap();
        assert_eq!(again, formatted, "document: {document:?}");
    }
}

#[test]
fn formatting_keeps_the_events() {
    for document in DOCUMENTS {
        let formatted = MarkdownFormatter::default().format(document).unwrap();
        assert!(same_events(document, &formatted), "document: {document:?}");
    }
}

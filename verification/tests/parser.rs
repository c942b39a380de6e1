use fmtm_ytmimi_markdown_fmt::parser::{convert_tag, convert_tag_end, event_from, Shape};
use fmtm_ytmimi_markdown_fmt::{
    CodeBlockKind, ColumnAlignment, HeadingLevel, LinkKind, MdEvent, MdTag, MetadataBlockKind,
    TagKind,
};

fn chars(s: &str) -> Vec<char> {
    s.chars().collect()
}

#[test]
fn end_is_the_first_that_is_told() {
    assert_eq!(convert_tag_end(Some(TagKind::Item), None, None, None), TagKind::Item);
    assert_eq!(
        convert_tag_end(Some(TagKind::List(true)), Some(TagKind::Link), None, None),
        TagKind::List(true)
    );
    assert_eq!(
        convert_tag_end(None, Some(TagKind::Link), Some(HeadingLevel::H2), None),
        TagKind::Link
    );
    assert_eq!(
        convert_tag_end(None, None, Some(HeadingLevel::H3), Some(MetadataBlockKind::YamlStyle)),
        TagKind::Heading(HeadingLevel::H3)
    );
    assert_eq!(
        convert_tag_end(None, None, None, Some(MetadataBlockKind::PlusesStyle)),
        TagKind::MetadataBlock(MetadataBlockKind::PlusesStyle)
    );
    assert_eq!(convert_tag_end(None, None, None, None), TagKind::Paragraph);
}

#[test]
fn tag_is_known_by_its_parts() {
    assert_eq!(
        convert_tag(Some(CodeBlockKind::Fenced(chars("rust"))), None, None, None, None, TagKind::CodeBlock),
        MdTag::CodeBlock(CodeBlockKind::Fenced(chars("rust")))
    );
    assert_eq!(
        convert_tag(Some(CodeBlockKind::Indented), None, None, None, None, TagKind::Item),
        MdTag::CodeBlock(CodeBlockKind::Indented)
    );
    assert_eq!(
        convert_tag(None, Some((false, LinkKind::Inline, chars("/u"), chars("t"))), None, None, None, TagKind::Link),
        MdTag::Link { link_type: LinkKind::Inline, dest_url: chars("/u"), title: chars("t") }
    );
    assert_eq!(
        convert_tag(None, Some((true, LinkKind::Reference, chars("/i"), chars(""))), None, None, None, TagKind::Image),
        MdTag::Image { link_type: LinkKind::Reference, dest_url: chars("/i"), title: chars("") }
    );
    assert_eq!(
        convert_tag(None, None, Some(vec![ColumnAlignment::Left, ColumnAlignment::Unset]), None, None, TagKind::Table),
        MdTag::Table(vec![ColumnAlignment::Left, ColumnAlignment::Unset])
    );
    assert_eq!(
        convert_tag(None, None, None, Some(chars("note")), None, TagKind::FootnoteDefinition),
        MdTag::FootnoteDefinition(chars("note"))
    );
}

#[test]
fn tag_without_parts_is_known_by_its_end() {
    assert_eq!(
        convert_tag(None, None, None, None, Some((Some(chars("top")), vec![chars("big")])), TagKind::Heading(HeadingLevel::H2)),
        MdTag::Heading { level: HeadingLevel::H2, id: Some(chars("top")), classes: vec![chars("big")] }
    );
    assert_eq!(
        convert_tag(None, None, None, None, None, TagKind::Heading(HeadingLevel::H6)),
        MdTag::Heading { level: HeadingLevel::H6, id: None, classes: vec![] }
    );
    let plain = [
        (TagKind::BlockQuote, MdTag::BlockQuote),
        (TagKind::HtmlBlock, MdTag::HtmlBlock),
        (TagKind::List(false), MdTag::List(false)),
        (TagKind::List(true), MdTag::List(true)),
        (TagKind::Item, MdTag::Item),
        (TagKind::TableHead, MdTag::TableHead),
        (TagKind::TableRow, MdTag::TableRow),
        (TagKind::TableCell, MdTag::TableCell),
        (TagKind::Emphasis, MdTag::Emphasis),
        (TagKind::Strong, MdTag::Strong),
        (TagKind::Strikethrough, MdTag::Strikethrough),
        (TagKind::MetadataBlock(MetadataBlockKind::YamlStyle), MdTag::MetadataBlock(MetadataBlockKind::YamlStyle)),
        (TagKind::Paragraph, MdTag::Paragraph),
        // ends that tell of parts that are not there
        (TagKind::CodeBlock, MdTag::Paragraph),
        (TagKind::Link, MdTag::Paragraph),
        (TagKind::Table, MdTag::Paragraph),
    ];
    for (end, tag) in plain {
        assert_eq!(convert_tag(None, None, None, None, None, end), tag);
    }
    // the identifier and the classes belong to headings alone
    assert_eq!(
        convert_tag(None, None, None, None, Some((None, vec![])), TagKind::Item),
        MdTag::Item
    );
}

#[test]
fn event_is_made_of_what_is_told() {
    assert_eq!(
        event_from(Shape::Start, chars(""), Some(MdTag::Item), None),
        MdEvent::Start(MdTag::Item)
    );
    assert_eq!(event_from(Shape::Start, chars(""), None, None), MdEvent::Start(MdTag::Paragraph));
    assert_eq!(
        event_from(Shape::End, chars(""), None, Some(TagKind::Item)),
        MdEvent::End(TagKind::Item)
    );
    assert_eq!(event_from(Shape::End, chars(""), None, None), MdEvent::End(TagKind::Paragraph));
    assert_eq!(event_from(Shape::Text, chars("a"), None, None), MdEvent::Text(chars("a")));
    assert_eq!(
        event_from(Shape::DisplayMath, chars("x"), None, None),
        MdEvent::DisplayMath(chars("x"))
    );
    assert_eq!(
        event_from(Shape::FootnoteReference, chars("n"), None, None),
        MdEvent::FootnoteReference(chars("n"))
    );
    assert_eq!(event_from(Shape::Code, chars("c"), None, None), MdEvent::Code);
    assert_eq!(event_from(Shape::InlineMath, chars("c"), None, None), MdEvent::InlineMath);
    assert_eq!(event_from(Shape::Html, chars("c"), None, None), MdEvent::Html);
    assert_eq!(event_from(Shape::InlineHtml, chars("c"), None, None), MdEvent::InlineHtml);
    assert_eq!(event_from(Shape::SoftBreak, chars(""), None, None), MdEvent::SoftBreak);
    assert_eq!(event_from(Shape::HardBreak, chars(""), None, None), MdEvent::HardBreak);
    assert_eq!(event_from(Shape::Rule, chars(""), None, None), MdEvent::Rule);
    assert_eq!(
        event_from(Shape::TaskListMarker(true), chars(""), Some(MdTag::Item), None),
        MdEvent::TaskListMarker(true)
    );
}

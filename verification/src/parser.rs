//! Reading a document: the parser of `pulldown_cmark` reads the source, and
//! what it hands out is brought into the library's own events.
use vstd::prelude::*;
use vstd::multiset::Multiset;
use crate::events::{
    event_views, id_view, CodeBlockKind, CodeBlockKindView, ColumnAlignment, HeadingLevel, LinkKind,
    MdEvent, MdEventView, MdTag, MdTagView, MetadataBlockKind, SourceEvent, SourceEventView,
    TagKind,
};
use crate::text::{chars_of, texts};

verus! {

/// `pulldown_cmark::Event`: an event as the parser hands it out.
#[verifier::external_type_specification]
#[verifier::external_body]
pub struct ExEvent<'a>(pulldown_cmark::Event<'a>);

/// `pulldown_cmark::Tag`: what opens an element.
#[verifier::external_type_specification]
#[verifier::external_body]
pub struct ExTag<'a>(pulldown_cmark::Tag<'a>);

/// `pulldown_cmark::TagEnd`: what closes an element.
#[verifier::external_type_specification]
#[verifier::external_body]
pub struct ExTagEnd(pulldown_cmark::TagEnd);

/// `pulldown_cmark::LinkType`: how a link is written.
#[verifier::external_type_specification]
#[verifier::external_body]
pub struct ExLinkType(pulldown_cmark::LinkType);

/// `pulldown_cmark::Alignment`: how a table column is aligned.
#[verifier::external_type_specification]
#[verifier::external_body]
pub struct ExAlignment(pulldown_cmark::Alignment);

/// A link reference definition as the parser hands it out: the label, the
/// destination and the title with their escapes resolved, and the part of
/// the source it stands at, `start..end`, counted in bytes.
#[derive(Clone, Debug, PartialEq, Eq)]
pub struct RawDefinition {
    pub label: Vec<char>,
    pub dest: Vec<char>,
    pub title: Option<Vec<char>>,
    pub start: usize,
    pub end: usize,
}

/// A `RawDefinition` as a mathematical value.
pub struct RawDefinitionView {
    pub label: Seq<char>,
    pub dest: Seq<char>,
    pub title: Option<Seq<char>>,
    pub start: usize,
    pub end: usize,
}

impl View for RawDefinition {
    type V = RawDefinitionView;

    open spec fn view(&self) -> RawDefinitionView {
        RawDefinitionView {
            label: self.label@,
            dest: self.dest@,
            title: match self.title {
                Some(text) => Some(text@),
                None => None,
            },
            start: self.start,
            end: self.end,
        }
    }
}

/// The definitions as mathematical values.
pub open spec fn raw_views(definitions: Seq<RawDefinition>) -> Seq<RawDefinitionView> {
    Seq::new(definitions.len(), |i: int| definitions[i]@)
}

/// What kind of event the parser handed out.
#[derive(Clone, Copy, Debug, PartialEq, Eq)]
pub enum Shape {
    Start,
    End,
    Text,
    Code,
    InlineMath,
    DisplayMath,
    Html,
    InlineHtml,
    FootnoteReference,
    SoftBreak,
    HardBreak,
    Rule,
    TaskListMarker(bool),
}

/// Tells the variants of `pulldown_cmark::Event` apart.
#[verifier::external_body]
fn event_shape(event: &pulldown_cmark::Event<'_>) -> Shape {
    match event {
        pulldown_cmark::Event::Start(_) => Shape::Start,
        pulldown_cmark::Event::End(_) => Shape::End,
        pulldown_cmark::Event::Text(_) => Shape::Text,
        pulldown_cmark::Event::Code(_) => Shape::Code,
        pulldown_cmark::Event::InlineMath(_) => Shape::InlineMath,
        pulldown_cmark::Event::DisplayMath(_) => Shape::DisplayMath,
        pulldown_cmark::Event::Html(_) => Shape::Html,
        pulldown_cmark::Event::InlineHtml(_) => Shape::InlineHtml,
        pulldown_cmark::Event::FootnoteReference(_) => Shape::FootnoteReference,
        pulldown_cmark::Event::SoftBreak => Shape::SoftBreak,
        pulldown_cmark::Event::HardBreak => Shape::HardBreak,
        pulldown_cmark::Event::Rule => Shape::Rule,
        pulldown_cmark::Event::TaskListMarker(done) => Shape::TaskListMarker(*done),
    }
}

/// The text of a `pulldown_cmark::Event::Text`, `DisplayMath` or
/// `FootnoteReference`; empty for any other event.
#[verifier::external_body]
fn event_text(event: &pulldown_cmark::Event<'_>) -> Vec<char> {
    match event {
        pulldown_cmark::Event::Text(text)
        | pulldown_cmark::Event::DisplayMath(text)
        | pulldown_cmark::Event::FootnoteReference(text) => text.chars().collect(),
        _ => Vec::new(),
    }
}

/// The tag of a `pulldown_cmark::Event::Start`.
#[verifier::external_body]
fn event_start<'a>(event: pulldown_cmark::Event<'a>) -> Option<pulldown_cmark::Tag<'a>> {
    match event {
        pulldown_cmark::Event::Start(tag) => Some(tag),
        _ => None,
    }
}

/// The tag of a `pulldown_cmark::Event::End`.
#[verifier::external_body]
fn event_end(event: &pulldown_cmark::Event<'_>) -> Option<pulldown_cmark::TagEnd> {
    match event {
        pulldown_cmark::Event::End(tag) => Some(*tag),
        _ => None,
    }
}

/// `pulldown_cmark::Tag::to_end`: the end that closes the tag.
#[verifier::external_body]
fn tag_end(tag: &pulldown_cmark::Tag<'_>) -> pulldown_cmark::TagEnd {
    tag.to_end()
}

/// The identifier and the classes of a `pulldown_cmark::Tag::Heading`.
#[verifier::external_body]
fn heading_parts(tag: &pulldown_cmark::Tag<'_>) -> Option<(Option<Vec<char>>, Vec<Vec<char>>)> {
    match tag {
        pulldown_cmark::Tag::Heading { id, classes, .. } => Some(
            (
                id.as_ref().map(|text| text.chars().collect()),
                classes.iter().map(|text| text.chars().collect()).collect(),
            ),
        ),
        _ => None,
    }
}

/// The kind of a `pulldown_cmark::Tag::CodeBlock`, with the info string of
/// a fenced one.
#[verifier::external_body]
fn code_block_parts(tag: &pulldown_cmark::Tag<'_>) -> Option<CodeBlockKind> {
    match tag {
        pulldown_cmark::Tag::CodeBlock(pulldown_cmark::CodeBlockKind::Fenced(info)) => Some(
            CodeBlockKind::Fenced(info.chars().collect()),
        ),
        pulldown_cmark::Tag::CodeBlock(pulldown_cmark::CodeBlockKind::Indented) => Some(
            CodeBlockKind::Indented,
        ),
        _ => None,
    }
}

/// The type, the destination and the title of a `pulldown_cmark::Tag::Link`
/// or `Image`, and whether it is an image.
#[verifier::external_body]
fn link_parts(tag: &pulldown_cmark::Tag<'_>) -> Option<
    (bool, pulldown_cmark::LinkType, Vec<char>, Vec<char>),
> {
    match tag {
        pulldown_cmark::Tag::Link { link_type, dest_url, title, .. } => Some(
            (false, *link_type, dest_url.chars().collect(), title.chars().collect()),
        ),
        pulldown_cmark::Tag::Image { link_type, dest_url, title, .. } => Some(
            (true, *link_type, dest_url.chars().collect(), title.chars().collect()),
        ),
        _ => None,
    }
}

/// The column alignments of a `pulldown_cmark::Tag::Table`.
#[verifier::external_body]
fn table_parts(tag: &pulldown_cmark::Tag<'_>) -> Option<Vec<pulldown_cmark::Alignment>> {
    match tag {
        pulldown_cmark::Tag::Table(alignment) => Some(alignment.clone()),
        _ => None,
    }
}

/// The label of a `pulldown_cmark::Tag::FootnoteDefinition`.
#[verifier::external_body]
fn footnote_label(tag: &pulldown_cmark::Tag<'_>) -> Option<Vec<char>> {
    match tag {
        pulldown_cmark::Tag::FootnoteDefinition(label) => Some(label.chars().collect()),
        _ => None,
    }
}

/// Tells the variants of `pulldown_cmark::TagEnd` apart that end a block,
/// but for headings and metadata blocks.
#[verifier::external_body]
fn block_end(tag: pulldown_cmark::TagEnd) -> Option<TagKind> {
    match tag {
        pulldown_cmark::TagEnd::Paragraph => Some(TagKind::Paragraph),
        pulldown_cmark::TagEnd::BlockQuote => Some(TagKind::BlockQuote),
        pulldown_cmark::TagEnd::CodeBlock => Some(TagKind::CodeBlock),
        pulldown_cmark::TagEnd::HtmlBlock => Some(TagKind::HtmlBlock),
        pulldown_cmark::TagEnd::List(ordered) => Some(TagKind::List(ordered)),
        pulldown_cmark::TagEnd::Item => Some(TagKind::Item),
        pulldown_cmark::TagEnd::FootnoteDefinition => Some(TagKind::FootnoteDefinition),
        _ => None,
    }
}

/// Tells the variants of `pulldown_cmark::TagEnd` apart that end a part of
/// a table or of a line.
#[verifier::external_body]
fn inline_end(tag: pulldown_cmark::TagEnd) -> Option<TagKind> {
    match tag {
        pulldown_cmark::TagEnd::Table => Some(TagKind::Table),
        pulldown_cmark::TagEnd::TableHead => Some(TagKind::TableHead),
        pulldown_cmark::TagEnd::TableRow => Some(TagKind::TableRow),
        pulldown_cmark::TagEnd::TableCell => Some(TagKind::TableCell),
        pulldown_cmark::TagEnd::Emphasis => Some(TagKind::Emphasis),
        pulldown_cmark::TagEnd::Strong => Some(TagKind::Strong),
        pulldown_cmark::TagEnd::Strikethrough => Some(TagKind::Strikethrough),
        pulldown_cmark::TagEnd::Link => Some(TagKind::Link),
        pulldown_cmark::TagEnd::Image => Some(TagKind::Image),
        _ => None,
    }
}

/// The level of a `pulldown_cmark::TagEnd::Heading`.
#[verifier::external_body]
fn heading_end(tag: pulldown_cmark::TagEnd) -> Option<HeadingLevel> {
    match tag {
        pulldown_cmark::TagEnd::Heading(pulldown_cmark::HeadingLevel::H1) => Some(HeadingLevel::H1),
        pulldown_cmark::TagEnd::Heading(pulldown_cmark::HeadingLevel::H2) => Some(HeadingLevel::H2),
        pulldown_cmark::TagEnd::Heading(pulldown_cmark::HeadingLevel::H3) => Some(HeadingLevel::H3),
        pulldown_cmark::TagEnd::Heading(pulldown_cmark::HeadingLevel::H4) => Some(HeadingLevel::H4),
        pulldown_cmark::TagEnd::Heading(pulldown_cmark::HeadingLevel::H5) => Some(HeadingLevel::H5),
        pulldown_cmark::TagEnd::Heading(pulldown_cmark::HeadingLevel::H6) => Some(HeadingLevel::H6),
        _ => None,
    }
}

/// The kind of a `pulldown_cmark::TagEnd::MetadataBlock`.
#[verifier::external_body]
fn metadata_end(tag: pulldown_cmark::TagEnd) -> Option<MetadataBlockKind> {
    match tag {
        pulldown_cmark::TagEnd::MetadataBlock(pulldown_cmark::MetadataBlockKind::YamlStyle) => Some(
            MetadataBlockKind::YamlStyle,
        ),
        pulldown_cmark::TagEnd::MetadataBlock(
            pulldown_cmark::MetadataBlockKind::PlusesStyle,
        ) => Some(MetadataBlockKind::PlusesStyle),
        _ => None,
    }
}

/// Tells the variants of `pulldown_cmark::LinkType` apart.
#[verifier::external_body]
fn link_type(link_type: pulldown_cmark::LinkType) -> LinkKind {
    match link_type {
        pulldown_cmark::LinkType::Inline => LinkKind::Inline,
        pulldown_cmark::LinkType::Reference => LinkKind::Reference,
        pulldown_cmark::LinkType::ReferenceUnknown => LinkKind::ReferenceUnknown,
        pulldown_cmark::LinkType::Collapsed => LinkKind::Collapsed,
        pulldown_cmark::LinkType::CollapsedUnknown => LinkKind::CollapsedUnknown,
        pulldown_cmark::LinkType::Shortcut => LinkKind::Shortcut,
        pulldown_cmark::LinkType::ShortcutUnknown => LinkKind::ShortcutUnknown,
        pulldown_cmark::LinkType::Autolink => LinkKind::Autolink,
        pulldown_cmark::LinkType::Email => LinkKind::Email,
    }
}

/// Tells the variants of `pulldown_cmark::Alignment` apart.
#[verifier::external_body]
fn alignment(alignment: &pulldown_cmark::Alignment) -> ColumnAlignment {
    match alignment {
        pulldown_cmark::Alignment::None => ColumnAlignment::Unset,
        pulldown_cmark::Alignment::Left => ColumnAlignment::Left,
        pulldown_cmark::Alignment::Center => ColumnAlignment::Center,
        pulldown_cmark::Alignment::Right => ColumnAlignment::Right,
    }
}

/// The end of an element, from what is told of it: the end of a block or
/// of a part of a line where one is told, else that of a heading or of a
/// metadata block; the end of a paragraph where nothing is told.
pub open spec fn spec_convert_tag_end(
    block: Option<TagKind>,
    inline: Option<TagKind>,
    heading: Option<HeadingLevel>,
    metadata: Option<MetadataBlockKind>,
) -> TagKind {
    match (block, inline, heading, metadata) {
        (Some(end), _, _, _) => end,
        (None, Some(end), _, _) => end,
        (None, None, Some(level), _) => TagKind::Heading(level),
        (None, None, None, Some(kind)) => TagKind::MetadataBlock(kind),
        (None, None, None, None) => TagKind::Paragraph,
    }
}

/// The end of an element in the library's own terms, from what `block_end`,
/// `inline_end`, `heading_end` and `metadata_end` tell of it.
pub fn convert_tag_end(
    block: Option<TagKind>,
    inline: Option<TagKind>,
    heading: Option<HeadingLevel>,
    metadata: Option<MetadataBlockKind>,
) -> (r: TagKind)
    ensures
        r == spec_convert_tag_end(block, inline, heading, metadata),
{
    if let Some(end) = block {
        return end;
    }
    if let Some(end) = inline {
        return end;
    }
    if let Some(level) = heading {
        return TagKind::Heading(level);
    }
    match metadata {
        Some(kind) => TagKind::MetadataBlock(kind),
        None => TagKind::Paragraph,
    }
}

/// The kind of a code block as a mathematical value, where there is one.
pub open spec fn code_block_view(kind: Option<CodeBlockKind>) -> Option<CodeBlockKindView> {
    match kind {
        Some(kind) => Some(kind@),
        None => None,
    }
}

/// The parts of a link as mathematical values, where there are any.
pub open spec fn link_view(link: Option<(bool, LinkKind, Vec<char>, Vec<char>)>) -> Option<
    (bool, LinkKind, Seq<char>, Seq<char>),
> {
    match link {
        Some((image, link_type, dest_url, title)) => Some((image, link_type, dest_url@, title@)),
        None => None,
    }
}

/// The column alignments as a mathematical value, where there are any.
pub open spec fn columns_view(columns: Option<Vec<ColumnAlignment>>) -> Option<
    Seq<ColumnAlignment>,
> {
    match columns {
        Some(columns) => Some(columns@),
        None => None,
    }
}

/// The identifier and the classes of a heading as mathematical values,
/// where there are any.
pub open spec fn heading_view(heading: Option<(Option<Vec<char>>, Vec<Vec<char>>)>) -> Option<
    (Option<Seq<char>>, Seq<Seq<char>>),
> {
    match heading {
        Some((id, classes)) => Some((id_view(id), texts(classes@))),
        None => None,
    }
}

/// The start of an element, from what is told of it. A code block, a link
/// or an image, a table and a footnote definition are known by their parts,
/// in this order. Any other element is known by the end that closes it; a
/// heading has the identifier and the classes that are told, or none. An end
/// that tells of none of these gives a paragraph.
pub open spec fn spec_convert_tag(
    code_block: Option<CodeBlockKindView>,
    link: Option<(bool, LinkKind, Seq<char>, Seq<char>)>,
    table: Option<Seq<ColumnAlignment>>,
    footnote: Option<Seq<char>>,
    heading: Option<(Option<Seq<char>>, Seq<Seq<char>>)>,
    end: TagKind,
) -> MdTagView {
    match (code_block, link, table, footnote) {
        (Some(kind), _, _, _) => MdTagView::CodeBlock(kind),
        (None, Some((image, link_type, dest_url, title)), _, _) => if image {
            MdTagView::Image { link_type, dest_url, title }
        } else {
            MdTagView::Link { link_type, dest_url, title }
        },
        (None, None, Some(columns), _) => MdTagView::Table(columns),
        (None, None, None, Some(label)) => MdTagView::FootnoteDefinition(label),
        (None, None, None, None) => match end {
            TagKind::Heading(level) => match heading {
                Some((id, classes)) => MdTagView::Heading { level, id, classes },
                None => MdTagView::Heading { level, id: None, classes: Seq::empty() },
            },
            TagKind::BlockQuote => MdTagView::BlockQuote,
            TagKind::HtmlBlock => MdTagView::HtmlBlock,
            TagKind::List(ordered) => MdTagView::List(ordered),
            TagKind::Item => MdTagView::Item,
            TagKind::TableHead => MdTagView::TableHead,
            TagKind::TableRow => MdTagView::TableRow,
            TagKind::TableCell => MdTagView::TableCell,
            TagKind::Emphasis => MdTagView::Emphasis,
            TagKind::Strong => MdTagView::Strong,
            TagKind::Strikethrough => MdTagView::Strikethrough,
            TagKind::MetadataBlock(kind) => MdTagView::MetadataBlock(kind),
            _ => MdTagView::Paragraph,
        },
    }
}

/// The start of an element in the library's own terms, from what
/// `code_block_parts`, `link_parts`, `table_parts`, `footnote_label` and
/// `heading_parts` tell of it, and from the end that closes it.
pub fn convert_tag(
    code_block: Option<CodeBlockKind>,
    link: Option<(bool, LinkKind, Vec<char>, Vec<char>)>,
    table: Option<Vec<ColumnAlignment>>,
    footnote: Option<Vec<char>>,
    heading: Option<(Option<Vec<char>>, Vec<Vec<char>>)>,
    end: TagKind,
) -> (r: MdTag)
    ensures
        r@ == spec_convert_tag(
            code_block_view(code_block),
            link_view(link),
            columns_view(table),
            id_view(footnote),
            heading_view(heading),
            end,
        ),
{
    if let Some(kind) = code_block {
        return MdTag::CodeBlock(kind);
    }
    if let Some((image, link_type, dest_url, title)) = link {
        return if image {
            MdTag::Image { link_type, dest_url, title }
        } else {
            MdTag::Link { link_type, dest_url, title }
        };
    }
    if let Some(columns) = table {
        return MdTag::Table(columns);
    }
    if let Some(label) = footnote {
        return MdTag::FootnoteDefinition(label);
    }
    match end {
        TagKind::Heading(level) => match heading {
            Some((id, classes)) => MdTag::Heading { level, id, classes },
            None => {
                let classes: Vec<Vec<char>> = Vec::new();
                assert(texts(classes@) =~= Seq::empty());
                MdTag::Heading { level, id: None, classes }
            },
        },
        TagKind::BlockQuote => MdTag::BlockQuote,
        TagKind::HtmlBlock => MdTag::HtmlBlock,
        TagKind::List(ordered) => MdTag::List(ordered),
        TagKind::Item => MdTag::Item,
        TagKind::TableHead => MdTag::TableHead,
        TagKind::TableRow => MdTag::TableRow,
        TagKind::TableCell => MdTag::TableCell,
        TagKind::Emphasis => MdTag::Emphasis,
        TagKind::Strong => MdTag::Strong,
        TagKind::Strikethrough => MdTag::Strikethrough,
        TagKind::MetadataBlock(kind) => MdTag::MetadataBlock(kind),
        _ => MdTag::Paragraph,
    }
}

/// The start of an element as a mathematical value, where there is one.
pub open spec fn started_view(started: Option<MdTag>) -> Option<MdTagView> {
    match started {
        Some(tag) => Some(tag@),
        None => None,
    }
}

/// The event of the given shape, from what is told of it: `text` is the
/// text it carries, `started` the element it opens and `closed` the end of
/// the element it closes. A start or an end of which no element is told is
/// that of a paragraph.
pub open spec fn spec_event_from(
    shape: Shape,
    text: Seq<char>,
    started: Option<MdTagView>,
    closed: Option<TagKind>,
) -> MdEventView {
    match shape {
        Shape::Start => match started {
            Some(tag) => MdEventView::Start(tag),
            None => MdEventView::Start(MdTagView::Paragraph),
        },
        Shape::End => match closed {
            Some(tag) => MdEventView::End(tag),
            None => MdEventView::End(TagKind::Paragraph),
        },
        Shape::Text => MdEventView::Text(text),
        Shape::Code => MdEventView::Code,
        Shape::InlineMath => MdEventView::InlineMath,
        Shape::DisplayMath => MdEventView::DisplayMath(text),
        Shape::Html => MdEventView::Html,
        Shape::InlineHtml => MdEventView::InlineHtml,
        Shape::FootnoteReference => MdEventView::FootnoteReference(text),
        Shape::SoftBreak => MdEventView::SoftBreak,
        Shape::HardBreak => MdEventView::HardBreak,
        Shape::Rule => MdEventView::Rule,
        Shape::TaskListMarker(done) => MdEventView::TaskListMarker(done),
    }
}

/// An event in the library's own terms, from what `event_shape`,
/// `event_text`, `event_start` and `event_end` tell of it.
pub fn event_from(shape: Shape, text: Vec<char>, started: Option<MdTag>, closed: Option<TagKind>) -> (r:
    MdEvent)
    ensures
        r@ == spec_event_from(shape, text@, started_view(started), closed),
{
    match shape {
        Shape::Start => match started {
            Some(tag) => MdEvent::Start(tag),
            None => MdEvent::Start(MdTag::Paragraph),
        },
        Shape::End => match closed {
            Some(tag) => MdEvent::End(tag),
            None => MdEvent::End(TagKind::Paragraph),
        },
        Shape::Text => MdEvent::Text(text),
        Shape::Code => MdEvent::Code,
        Shape::InlineMath => MdEvent::InlineMath,
        Shape::DisplayMath => MdEvent::DisplayMath(text),
        Shape::Html => MdEvent::Html,
        Shape::InlineHtml => MdEvent::InlineHtml,
        Shape::FootnoteReference => MdEvent::FootnoteReference(text),
        Shape::SoftBreak => MdEvent::SoftBreak,
        Shape::HardBreak => MdEvent::HardBreak,
        Shape::Rule => MdEvent::Rule,
        Shape::TaskListMarker(done) => MdEvent::TaskListMarker(done),
    }
}

/// An event of the parser in the library's own terms, with the part of the
/// source it was read from, `start..end`, counted in bytes. The part of the
/// source is carried over as it is; the event is what `event_from` makes of
/// what the parser's event is told to be, its element what `convert_tag` and
/// `convert_tag_end` make of what its tag is told to be.
fn convert_event(event: pulldown_cmark::Event<'_>, start: usize, end: usize) -> (r: SourceEvent)
    ensures
        r.start == start,
        r.end == end,
{
    let shape = event_shape(&event);
    let text = event_text(&event);
    let closed = match event_end(&event) {
        Some(tag) => Some(
            convert_tag_end(block_end(tag), inline_end(tag), heading_end(tag), metadata_end(tag)),
        ),
        None => None,
    };
    let started = match event_start(event) {
        Some(tag) => {
            let link = match link_parts(&tag) {
                Some((image, kind, dest_url, title)) => Some(
                    (image, link_type(kind), dest_url, title),
                ),
                None => None,
            };
            let table = match table_parts(&tag) {
                Some(columns) => {
                    let mut converted: Vec<ColumnAlignment> = Vec::new();
                    let mut i: usize = 0;
                    while i < columns.len()
                        invariant
                            i <= columns@.len(),
                            converted@.len() == i,
                        decreases columns@.len() - i,
                    {
                        converted.push(alignment(&columns[i]));
                        i += 1;
                    }
                    Some(converted)
                },
                None => None,
            };
            let closing = tag_end(&tag);
            let kind = convert_tag_end(
                block_end(closing),
                inline_end(closing),
                heading_end(closing),
                metadata_end(closing),
            );
            Some(
                convert_tag(
                    code_block_parts(&tag),
                    link,
                    table,
                    footnote_label(&tag),
                    heading_parts(&tag),
                    kind,
                ),
            )
        },
        None => None,
    };
    SourceEvent { event: event_from(shape, text, started, closed), start, end }
}

/// A link reference definition of the parser in the library's own terms.
fn raw_definition(label: &str, dest: &str, title: Option<&str>, start: usize, end: usize) -> (r:
    RawDefinition)
    ensures
        r@ == (RawDefinitionView {
            label: label@,
            dest: dest@,
            title: match title {
                Some(text) => Some(text@),
                None => None,
            },
            start,
            end,
        }),
{
    RawDefinition {
        label: chars_of(label),
        dest: chars_of(dest),
        title: match title {
            Some(text) => Some(chars_of(text)),
            None => None,
        },
        start,
        end,
    }
}

/// What stands for a link whose reference has no definition: an empty
/// destination and an empty title, so that such a link is still read as a
/// link.
fn broken_link_target() -> (r: Option<(&'static str, &'static str)>)
    ensures
        r == Some(("", "")),
{
    Some(("", ""))
}

/// The events that the parser of `pulldown_cmark` reads `input` as, with
/// every extension but smart punctuation, each brought into the library's
/// own terms by `convert_event`; the parts of the source are counted in
/// bytes.
pub uninterp spec fn markdown_events(input: Seq<char>) -> Seq<SourceEventView>;

/// The link reference definitions that the parser of `pulldown_cmark` finds
/// in `input`, each brought into the library's own terms by
/// `raw_definition`.
pub uninterp spec fn markdown_definitions(input: Seq<char>) -> Multiset<RawDefinitionView>;

/// `pulldown_cmark::Parser::new_with_broken_link_callback` and
/// `into_offset_iter`: the events of `input` in the order of the document.
#[verifier::external_body]
pub(crate) fn parse_events(input: &str) -> (r: Vec<SourceEvent>)
    ensures
        event_views(r@) == markdown_events(input@),
{
    let mut options = pulldown_cmark::Options::all();
    options.remove(pulldown_cmark::Options::ENABLE_SMART_PUNCTUATION);
    let mut callback = |_link| broken_link_target().map(|(url, title)| (url.into(), title.into()));
    pulldown_cmark::Parser::new_with_broken_link_callback(
        input,
        options,
        Some(&mut callback),
    ).into_offset_iter().map(|(event, range)| convert_event(event, range.start, range.end)).collect()
}

/// `pulldown_cmark::Parser::reference_definitions`: the link reference
/// definitions of `input`, in no order that could be told.
#[verifier::external_body]
pub(crate) fn parse_definitions(input: &str) -> (r: Vec<RawDefinition>)
    ensures
        raw_views(r@).to_multiset() == markdown_definitions(input@),
{
    let mut options = pulldown_cmark::Options::all();
    options.remove(pulldown_cmark::Options::ENABLE_SMART_PUNCTUATION);
    pulldown_cmark::Parser::new_ext(input, options).reference_definitions().iter().map(
        |(label, definition)|
            raw_definition(
                label,
                definition.dest.as_ref(),
                definition.title.as_deref(),
                definition.span.start,
                definition.span.end,
            ),
    ).collect()
}

} // verus!

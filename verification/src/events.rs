//! The events that a Markdown document is read as: what opens, what closes
//! and what stands between, each with the part of the source it came from.
use vstd::prelude::*;

verus! {

#[derive(Clone, Copy, Debug, PartialEq, Eq, Structural)]
pub enum HeadingLevel {
    H1,
    H2,
    H3,
    H4,
    H5,
    H6,
}

/// How a link or an image is written in the source.
#[derive(Clone, Copy, Debug, PartialEq, Eq, Structural)]
pub enum LinkKind {
    /// `[foo](bar)`
    Inline,
    /// `[foo][bar]`
    Reference,
    /// `[foo][bar]`, with no definition of `bar` in the document.
    ReferenceUnknown,
    /// `[foo][]`
    Collapsed,
    /// `[foo][]`, with no definition of `foo` in the document.
    CollapsedUnknown,
    /// `[foo]`
    Shortcut,
    /// `[foo]`, with no definition of `foo` in the document.
    ShortcutUnknown,
    /// `<http://foo.bar/baz>`
    Autolink,
    /// `<john@example.org>`
    Email,
}

/// How the text of a table column is aligned.
#[derive(Clone, Copy, Debug, PartialEq, Eq, Structural)]
pub enum ColumnAlignment {
    /// No alignment is asked for.
    Unset,
    Left,
    Center,
    Right,
}

#[derive(Clone, Copy, Debug, PartialEq, Eq, Structural)]
pub enum MetadataBlockKind {
    /// Between lines of `---`.
    YamlStyle,
    /// Between lines of `+++`.
    PlusesStyle,
}

#[derive(Clone, Debug, PartialEq, Eq)]
pub enum CodeBlockKind {
    Indented,
    /// Between fences; the text is the info string, which may be empty.
    Fenced(Vec<char>),
}

/// A `CodeBlockKind` as a mathematical value.
pub enum CodeBlockKindView {
    Indented,
    Fenced(Seq<char>),
}

impl View for CodeBlockKind {
    type V = CodeBlockKindView;

    open spec fn view(&self) -> CodeBlockKindView {
        match self {
            CodeBlockKind::Indented => CodeBlockKindView::Indented,
            CodeBlockKind::Fenced(info) => CodeBlockKindView::Fenced(info@),
        }
    }
}

/// What an element that holds other elements is.
#[derive(Clone, Debug, PartialEq, Eq)]
pub enum MdTag {
    Paragraph,
    Heading { level: HeadingLevel, id: Option<Vec<char>>, classes: Vec<Vec<char>> },
    BlockQuote,
    CodeBlock(CodeBlockKind),
    HtmlBlock,
    /// A list; `true` for an ordered one.
    List(bool),
    Item,
    /// A footnote definition, with its label.
    FootnoteDefinition(Vec<char>),
    /// A table, with the alignment of each column.
    Table(Vec<ColumnAlignment>),
    TableHead,
    TableRow,
    TableCell,
    Emphasis,
    Strong,
    Strikethrough,
    Link { link_type: LinkKind, dest_url: Vec<char>, title: Vec<char> },
    Image { link_type: LinkKind, dest_url: Vec<char>, title: Vec<char> },
    MetadataBlock(MetadataBlockKind),
}

/// An `MdTag` as a mathematical value.
pub enum MdTagView {
    Paragraph,
    Heading { level: HeadingLevel, id: Option<Seq<char>>, classes: Seq<Seq<char>> },
    BlockQuote,
    CodeBlock(CodeBlockKindView),
    HtmlBlock,
    List(bool),
    Item,
    FootnoteDefinition(Seq<char>),
    Table(Seq<ColumnAlignment>),
    TableHead,
    TableRow,
    TableCell,
    Emphasis,
    Strong,
    Strikethrough,
    Link { link_type: LinkKind, dest_url: Seq<char>, title: Seq<char> },
    Image { link_type: LinkKind, dest_url: Seq<char>, title: Seq<char> },
    MetadataBlock(MetadataBlockKind),
}

/// The text of an identifier, where there is one.
pub open spec fn id_view(id: Option<Vec<char>>) -> Option<Seq<char>> {
    match id {
        Some(text) => Some(text@),
        None => None,
    }
}

impl View for MdTag {
    type V = MdTagView;

    open spec fn view(&self) -> MdTagView {
        match self {
            MdTag::Paragraph => MdTagView::Paragraph,
            MdTag::Heading { level, id, classes } => MdTagView::Heading {
                level: *level,
                id: id_view(*id),
                classes: crate::text::texts(classes@),
            },
            MdTag::BlockQuote => MdTagView::BlockQuote,
            MdTag::CodeBlock(kind) => MdTagView::CodeBlock(kind@),
            MdTag::HtmlBlock => MdTagView::HtmlBlock,
            MdTag::List(ordered) => MdTagView::List(*ordered),
            MdTag::Item => MdTagView::Item,
            MdTag::FootnoteDefinition(label) => MdTagView::FootnoteDefinition(label@),
            MdTag::Table(alignment) => MdTagView::Table(alignment@),
            MdTag::TableHead => MdTagView::TableHead,
            MdTag::TableRow => MdTagView::TableRow,
            MdTag::TableCell => MdTagView::TableCell,
            MdTag::Emphasis => MdTagView::Emphasis,
            MdTag::Strong => MdTagView::Strong,
            MdTag::Strikethrough => MdTagView::Strikethrough,
            MdTag::Link { link_type, dest_url, title } => MdTagView::Link {
                link_type: *link_type,
                dest_url: dest_url@,
                title: title@,
            },
            MdTag::Image { link_type, dest_url, title } => MdTagView::Image {
                link_type: *link_type,
                dest_url: dest_url@,
                title: title@,
            },
            MdTag::MetadataBlock(kind) => MdTagView::MetadataBlock(*kind),
        }
    }
}

/// The open elements as mathematical values.
pub open spec fn tag_views(tags: Seq<MdTag>) -> Seq<MdTagView> {
    Seq::new(tags.len(), |i: int| tags[i]@)
}

/// The end of an `MdTag`.
#[derive(Clone, Copy, Debug, PartialEq, Eq, Structural)]
pub enum TagKind {
    Paragraph,
    Heading(HeadingLevel),
    BlockQuote,
    CodeBlock,
    HtmlBlock,
    /// A list; `true` for an ordered one.
    List(bool),
    Item,
    FootnoteDefinition,
    Table,
    TableHead,
    TableRow,
    TableCell,
    Emphasis,
    Strong,
    Strikethrough,
    Link,
    Image,
    MetadataBlock(MetadataBlockKind),
}

impl MdTagView {
    /// The end that closes this tag.
    pub open spec fn spec_to_end(self) -> TagKind {
        match self {
            MdTagView::Paragraph => TagKind::Paragraph,
            MdTagView::Heading { level, .. } => TagKind::Heading(level),
            MdTagView::BlockQuote => TagKind::BlockQuote,
            MdTagView::CodeBlock(_) => TagKind::CodeBlock,
            MdTagView::HtmlBlock => TagKind::HtmlBlock,
            MdTagView::List(ordered) => TagKind::List(ordered),
            MdTagView::Item => TagKind::Item,
            MdTagView::FootnoteDefinition(_) => TagKind::FootnoteDefinition,
            MdTagView::Table(_) => TagKind::Table,
            MdTagView::TableHead => TagKind::TableHead,
            MdTagView::TableRow => TagKind::TableRow,
            MdTagView::TableCell => TagKind::TableCell,
            MdTagView::Emphasis => TagKind::Emphasis,
            MdTagView::Strong => TagKind::Strong,
            MdTagView::Strikethrough => TagKind::Strikethrough,
            MdTagView::Link { .. } => TagKind::Link,
            MdTagView::Image { .. } => TagKind::Image,
            MdTagView::MetadataBlock(kind) => TagKind::MetadataBlock(kind),
        }
    }
}

impl MdTag {
    /// The end that closes this tag.
    pub fn to_end(&self) -> (r: TagKind)
        ensures
            r == self@.spec_to_end(),
    {
        match self {
            MdTag::Paragraph => TagKind::Paragraph,
            MdTag::Heading { level, .. } => TagKind::Heading(*level),
            MdTag::BlockQuote => TagKind::BlockQuote,
            MdTag::CodeBlock(_) => TagKind::CodeBlock,
            MdTag::HtmlBlock => TagKind::HtmlBlock,
            MdTag::List(ordered) => TagKind::List(*ordered),
            MdTag::Item => TagKind::Item,
            MdTag::FootnoteDefinition(_) => TagKind::FootnoteDefinition,
            MdTag::Table(_) => TagKind::Table,
            MdTag::TableHead => TagKind::TableHead,
            MdTag::TableRow => TagKind::TableRow,
            MdTag::TableCell => TagKind::TableCell,
            MdTag::Emphasis => TagKind::Emphasis,
            MdTag::Strong => TagKind::Strong,
            MdTag::Strikethrough => TagKind::Strikethrough,
            MdTag::Link { .. } => TagKind::Link,
            MdTag::Image { .. } => TagKind::Image,
            MdTag::MetadataBlock(kind) => TagKind::MetadataBlock(*kind),
        }
    }
}

/// One step of a walk through the document tree.
#[derive(Clone, Debug, PartialEq, Eq)]
pub enum MdEvent {
    Start(MdTag),
    End(TagKind),
    /// Text, as the parser read it: with escapes and entities resolved.
    Text(Vec<char>),
    Code,
    Html,
    InlineHtml,
    InlineMath,
    /// A display math block, with what stands between its `$$`.
    DisplayMath(Vec<char>),
    SoftBreak,
    HardBreak,
    Rule,
    /// A reference to a footnote, with its label.
    FootnoteReference(Vec<char>),
    /// The box of a task list item; `true` when it is ticked.
    TaskListMarker(bool),
}

/// What kind of event one is, without the text it carries. Of a `Start`
/// it keeps the end that will close it, and whether it opens an indented
/// code block.
#[derive(Clone, Copy, Debug, PartialEq, Eq, Structural)]
pub enum EventKind {
    Start { tag: TagKind, indented: bool },
    End(TagKind),
    Text,
    Code,
    Html,
    InlineHtml,
    InlineMath,
    DisplayMath,
    SoftBreak,
    HardBreak,
    Rule,
    FootnoteReference,
    TaskListMarker,
}

/// An `MdEvent` as a mathematical value.
pub enum MdEventView {
    Start(MdTagView),
    End(TagKind),
    Text(Seq<char>),
    Code,
    Html,
    InlineHtml,
    InlineMath,
    DisplayMath(Seq<char>),
    SoftBreak,
    HardBreak,
    Rule,
    FootnoteReference(Seq<char>),
    TaskListMarker(bool),
}

impl MdEventView {
    pub open spec fn spec_kind(self) -> EventKind {
        match self {
            MdEventView::Start(tag) => EventKind::Start {
                tag: tag.spec_to_end(),
                indented: tag == MdTagView::CodeBlock(CodeBlockKindView::Indented),
            },
            MdEventView::End(tag) => EventKind::End(tag),
            MdEventView::Text(_) => EventKind::Text,
            MdEventView::Code => EventKind::Code,
            MdEventView::Html => EventKind::Html,
            MdEventView::InlineHtml => EventKind::InlineHtml,
            MdEventView::InlineMath => EventKind::InlineMath,
            MdEventView::DisplayMath(_) => EventKind::DisplayMath,
            MdEventView::SoftBreak => EventKind::SoftBreak,
            MdEventView::HardBreak => EventKind::HardBreak,
            MdEventView::Rule => EventKind::Rule,
            MdEventView::FootnoteReference(_) => EventKind::FootnoteReference,
            MdEventView::TaskListMarker(_) => EventKind::TaskListMarker,
        }
    }
}

impl View for MdEvent {
    type V = MdEventView;

    open spec fn view(&self) -> MdEventView {
        match self {
            MdEvent::Start(tag) => MdEventView::Start(tag@),
            MdEvent::End(tag) => MdEventView::End(*tag),
            MdEvent::Text(text) => MdEventView::Text(text@),
            MdEvent::Code => MdEventView::Code,
            MdEvent::Html => MdEventView::Html,
            MdEvent::InlineHtml => MdEventView::InlineHtml,
            MdEvent::InlineMath => MdEventView::InlineMath,
            MdEvent::DisplayMath(text) => MdEventView::DisplayMath(text@),
            MdEvent::SoftBreak => MdEventView::SoftBreak,
            MdEvent::HardBreak => MdEventView::HardBreak,
            MdEvent::Rule => MdEventView::Rule,
            MdEvent::FootnoteReference(label) => MdEventView::FootnoteReference(label@),
            MdEvent::TaskListMarker(done) => MdEventView::TaskListMarker(*done),
        }
    }
}

impl MdEvent {
    pub fn kind(&self) -> (r: EventKind)
        ensures
            r == self@.spec_kind(),
    {
        match self {
            MdEvent::Start(tag) => EventKind::Start {
                tag: tag.to_end(),
                indented: match tag {
                    MdTag::CodeBlock(CodeBlockKind::Indented) => true,
                    _ => false,
                },
            },
            MdEvent::End(tag) => EventKind::End(*tag),
            MdEvent::Text(_) => EventKind::Text,
            MdEvent::Code => EventKind::Code,
            MdEvent::Html => EventKind::Html,
            MdEvent::InlineHtml => EventKind::InlineHtml,
            MdEvent::InlineMath => EventKind::InlineMath,
            MdEvent::DisplayMath(_) => EventKind::DisplayMath,
            MdEvent::SoftBreak => EventKind::SoftBreak,
            MdEvent::HardBreak => EventKind::HardBreak,
            MdEvent::Rule => EventKind::Rule,
            MdEvent::FootnoteReference(_) => EventKind::FootnoteReference,
            MdEvent::TaskListMarker(_) => EventKind::TaskListMarker,
        }
    }
}

/// An event and the part of the source it was read from, `start..end`.
#[derive(Clone, Debug, PartialEq, Eq)]
pub struct SourceEvent {
    pub event: MdEvent,
    pub start: usize,
    pub end: usize,
}

/// A `SourceEvent` as a mathematical value.
pub struct SourceEventView {
    pub event: MdEventView,
    pub start: usize,
    pub end: usize,
}

impl View for SourceEvent {
    type V = SourceEventView;

    open spec fn view(&self) -> SourceEventView {
        SourceEventView { event: self.event@, start: self.start, end: self.end }
    }
}

/// The events as mathematical values.
pub open spec fn event_views(events: Seq<SourceEvent>) -> Seq<SourceEventView> {
    Seq::new(events.len(), |i: int| events[i]@)
}

impl SourceEventView {
    /// Whether the event's part of the source lies within a source of
    /// `len` characters.
    pub open spec fn spec_within(self, len: nat) -> bool {
        self.start <= self.end <= len
    }
}

impl SourceEvent {
    pub fn within(&self, len: usize) -> (r: bool)
        ensures
            r == self@.spec_within(len as nat),
    {
        self.start <= self.end && self.end <= len
    }
}

/// Takes the first event off the queue.
pub(crate) fn take_front(queue: &mut std::collections::VecDeque<SourceEvent>) -> (r: SourceEvent)
    requires
        old(queue)@.len() > 0,
    ensures
        r@ == event_views(old(queue)@)[0],
        event_views(final(queue)@) == event_views(old(queue)@).skip(1),
        final(queue)@.len() == old(queue)@.len() - 1,
{
    let ghost before = queue@;
    let next = queue.pop_front().unwrap();
    assert(event_views(queue@) =~= event_views(before).skip(1)) by {
        assert forall|k: int| 0 <= k < queue@.len() implies event_views(queue@)[k] == event_views(
            before,
        ).skip(1)[k] by {
            assert(event_views(before)[k + 1] == before[k + 1]@);
        }
    }
    next
}

/// Puts an event at the end of the queue.
pub(crate) fn put_back(queue: &mut std::collections::VecDeque<SourceEvent>, event: SourceEvent)
    ensures
        event_views(final(queue)@) == event_views(old(queue)@).push(event@),
        final(queue)@.len() == old(queue)@.len() + 1,
{
    let ghost before = queue@;
    queue.push_back(event);
    assert(event_views(queue@) =~= event_views(before).push(event@));
}

/// A link reference definition, `[label]: destination "title"`, and the
/// part of the source it stands at, `start..end`. The title comes with the
/// character that closes it: `"`, `'` or `)`.
#[derive(Clone, Debug, PartialEq, Eq)]
pub struct ReferenceLinkDefinition {
    pub label: Vec<char>,
    pub destination: Vec<char>,
    pub title: Option<(Vec<char>, char)>,
    pub start: usize,
    pub end: usize,
}

/// A `ReferenceLinkDefinition` as a mathematical value.
pub struct ReferenceLinkDefinitionView {
    pub label: Seq<char>,
    pub destination: Seq<char>,
    pub title: Option<(Seq<char>, char)>,
    pub start: usize,
    pub end: usize,
}

impl View for ReferenceLinkDefinition {
    type V = ReferenceLinkDefinitionView;

    open spec fn view(&self) -> ReferenceLinkDefinitionView {
        ReferenceLinkDefinitionView {
            label: self.label@,
            destination: self.destination@,
            title: match self.title {
                Some((text, quote)) => Some((text@, quote)),
                None => None,
            },
            start: self.start,
            end: self.end,
        }
    }
}

/// The definitions as mathematical values.
pub open spec fn definition_views(definitions: Seq<ReferenceLinkDefinition>) -> Seq<
    ReferenceLinkDefinitionView,
> {
    Seq::new(definitions.len(), |i: int| definitions[i]@)
}

} // verus!

//! The steps of a formatting run: what each event writes and changes.
use vstd::prelude::*;
use crate::events::{
    id_view, tag_views, ColumnAlignment, CodeBlockKind, CodeBlockKindView, MdEvent, EventKind,
    MdEventView, HeadingLevel, LinkKind, MdTag, TagKind, MdTagView,
};
use crate::external_formatter::{BufferType, BufferTypeView, ExternalFormatter};
use crate::config::spec_list_marker;
use crate::formatter::formatting_states::helpers::{
    rewirte_header_classes, spec_at_line_start, spec_header_classes,
};
use crate::links::{
    find_inline_url_and_title, find_reference_link_label, format_link_url,
    spec_find_inline_url_and_title, spec_find_reference_link_label, spec_format_link_url,
    title_view,
};
use crate::formatter::formatting_states::{FormatError, FormatState, StateView};
use crate::list::ListMarker;
use crate::table::{TableState, TableView};
use crate::text::{
    chars_of, contains, count_newlines, matches_at, scan, scan_back, span, spec_contains,
    spec_count_newlines, spec_decimal, spec_matches_at, spec_scan, spec_scan_back, spec_span,
    spec_trim, spec_trim_end, spec_trim_end_matches, spec_trim_start_matches, string_of, texts,
    to_vec, trim, trim_end, trim_end_matches, trim_start_matches, CharSet,
};

verus! {

/// What opens an ATX heading of the given level: its `#`s and a space.
pub open spec fn spec_heading_marker(level: HeadingLevel) -> Seq<char> {
    match level {
        HeadingLevel::H1 => "# "@,
        HeadingLevel::H2 => "## "@,
        HeadingLevel::H3 => "### "@,
        HeadingLevel::H4 => "#### "@,
        HeadingLevel::H5 => "##### "@,
        HeadingLevel::H6 => "###### "@,
    }
}

fn heading_marker(level: HeadingLevel) -> (r: Vec<char>)
    ensures
        r@ == spec_heading_marker(level),
{
    match level {
        HeadingLevel::H1 => chars_of("# "),
        HeadingLevel::H2 => chars_of("## "),
        HeadingLevel::H3 => chars_of("### "),
        HeadingLevel::H4 => chars_of("#### "),
        HeadingLevel::H5 => chars_of("##### "),
        HeadingLevel::H6 => chars_of("###### "),
    }
}

/// The first index at or behind `i` where `pat` does not stand once more.
pub open spec fn spec_skip_pattern(s: Seq<char>, pat: Seq<char>, i: int) -> int
    decreases s.len() - i,
{
    if pat.len() > 0 && spec_matches_at(s, pat, i) {
        spec_skip_pattern(s, pat, i + pat.len())
    } else {
        i
    }
}

fn skip_pattern(s: &[char], pat: &[char], i: usize) -> (r: usize)
    requires
        i <= s@.len(),
    ensures
        r == spec_skip_pattern(s@, pat@, i as int),
        i <= r <= s@.len(),
{
    let mut j: usize = i;
    let n = s.len();
    while pat.len() > 0 && matches_at(s, pat, j)
        invariant
            n == s@.len(),
            i <= j <= s@.len(),
            spec_skip_pattern(s@, pat@, i as int) == spec_skip_pattern(s@, pat@, j as int),
        decreases s@.len() - j,
    {
        j += pat.len();
    }
    j
}

/// Whether the source `full_header` of a heading, without white space at
/// either end, is that of a setext heading: it has more than one line and
/// ends with `=` or `-`.
pub open spec fn spec_is_setext(full_header: Seq<char>) -> bool {
    spec_contains(full_header, CharSet::Just('\n')) && full_header.len() > 0 && (
    full_header.last() == '=' || full_header.last() == '-')
}

/// The underline of a setext heading: the last line of its source, without
/// white space at either end.
pub open spec fn spec_setext_marker(full_header: Seq<char>) -> Seq<char> {
    spec_trim(
        full_header.skip(
            spec_scan_back(full_header, CharSet::Just('\n'), true, full_header.len() as int),
        ),
    )
}

/// Whether an ATX heading has no text: nothing is left of its source when
/// the marker in front and white space, `#` and backslashes at the end are
/// taken away.
pub open spec fn spec_is_empty_header(full_header: Seq<char>, marker: Seq<char>) -> bool {
    spec_trim_end_matches(
        full_header.skip(spec_skip_pattern(full_header, marker, 0)),
        CharSet::HeadingTail,
    ).len() == 0
}

/// The info string of a fenced code block as it is written: the first
/// line of the source behind the fence, or the info string that was read
/// where nothing stands behind the fence; without white space at either end.
pub open spec fn spec_info_string(exclude_fence: Seq<char>, parsed: Seq<char>) -> Seq<char> {
    if exclude_fence.len() == 0 {
        spec_trim(parsed)
    } else {
        spec_trim(exclude_fence.take(spec_scan(exclude_fence, CharSet::Just('\n'), true, 0)))
    }
}

/// How a heading begins.
pub enum HeadingStart {
    /// A setext heading, with its underline.
    Setext(Vec<char>),
    /// An ATX heading, with the marker that is written in front of it.
    Atx(Vec<char>),
}

/// A `HeadingStart` as a mathematical value.
pub enum HeadingStartView {
    Setext(Seq<char>),
    Atx(Seq<char>),
}

impl View for HeadingStart {
    type V = HeadingStartView;

    open spec fn view(&self) -> HeadingStartView {
        match self {
            HeadingStart::Setext(marker) => HeadingStartView::Setext(marker@),
            HeadingStart::Atx(marker) => HeadingStartView::Atx(marker@),
        }
    }
}

/// How the heading of the given level begins whose source is `source`: a
/// setext heading with its underline, or an ATX heading with its marker,
/// which has its space only where text follows.
#[verifier::opaque]
pub open spec fn spec_heading_start(source: Seq<char>, level: HeadingLevel) -> HeadingStartView {
    let full_header = spec_trim(source);
    if spec_is_setext(full_header) {
        HeadingStartView::Setext(spec_setext_marker(full_header))
    } else if spec_is_empty_header(full_header, spec_heading_marker(level)) {
        HeadingStartView::Atx(spec_trim(spec_heading_marker(level)))
    } else {
        HeadingStartView::Atx(spec_heading_marker(level))
    }
}

pub fn heading_start(source: &[char], level: HeadingLevel) -> (r: HeadingStart)
    ensures
        r@ == spec_heading_start(source@, level),
{
    reveal(spec_heading_start);
    let full_header = trim(source);
    let n = full_header.len();
    if contains(full_header, CharSet::Just('\n')) && n > 0 && (full_header[n - 1] == '='
        || full_header[n - 1] == '-') {
        // support for alternative syntax for H1 and H2
        let from = scan_back(full_header, CharSet::Just('\n'), true, n);
        return HeadingStart::Setext(to_vec(trim(vstd::slice::slice_subrange(full_header, from, n))));
    }
    let header = heading_marker(level);
    let skipped = skip_pattern(full_header, header.as_slice(), 0);
    let empty_header = trim_end_matches(
        vstd::slice::slice_subrange(full_header, skipped, n),
        CharSet::HeadingTail,
    ).len() == 0;
    if empty_header {
        HeadingStart::Atx(to_vec(trim(header.as_slice())))
    } else {
        HeadingStart::Atx(header)
    }
}

/// Of the source of a fenced code block: whether white space stands right
/// behind the fence, and the info string as it is written.
#[verifier::opaque]
pub open spec fn spec_fence_info(source: Seq<char>, parsed: Seq<char>) -> (bool, Seq<char>) {
    let exclude_fence = spec_trim_start_matches(source, CharSet::Either('`', '~'));
    (
        exclude_fence.len() > 0 && CharSet::Whitespace.has(exclude_fence[0]),
        spec_info_string(exclude_fence, parsed),
    )
}

pub fn fence_info(source: &[char], parsed: &[char]) -> (r: (bool, Vec<char>))
    ensures
        (r.0, r.1@) == spec_fence_info(source@, parsed@),
{
    reveal(spec_fence_info);
    let exclude_fence = trim_start_matches(source, CharSet::Either('`', '~'));
    let starts_with_space = exclude_fence.len() > 0 && CharSet::Whitespace.test(exclude_fence[0]);
    let info = if exclude_fence.len() == 0 {
        to_vec(trim(parsed))
    } else {
        let line = scan(exclude_fence, CharSet::Just('\n'), true, 0);
        let first = vstd::slice::slice_subrange(exclude_fence, 0, line);
        assert(first@ =~= exclude_fence@.take(line as int));
        to_vec(trim(first))
    };
    (starts_with_space, info)
}

impl<E: ExternalFormatter> StateView<E> {
    pub open spec fn push_context(self, tag: MdTagView) -> Self {
        StateView { nested_context: self.nested_context.push(tag), ..self }
    }

    pub open spec fn push_indentation(self, indent: Seq<char>) -> Self {
        StateView { indentation: self.indentation.push(indent), ..self }
    }

    /// The state with the innermost indentation replaced, where there is
    /// one.
    pub open spec fn replace_last_indentation(self, indent: Seq<char>) -> Self {
        if self.indentation.len() > 0 {
            StateView {
                indentation: self.indentation.update(self.indentation.len() - 1, indent),
                ..self
            }
        } else {
            self
        }
    }

    /// The state after the line feeds of the source in front of
    /// `start..end` were written, where they are due.
    #[verifier::opaque]
    pub open spec fn write_due_newlines(self, start: usize, end: usize) -> Self {
        if self.needs_indent {
            StateView {
                needs_indent: false,
                ..self.write_newlines(self.count_newlines(start, end))
            }
        } else {
            self
        }
    }

    #[verifier::opaque]
    pub open spec fn start_paragraph(self, start: usize, end: usize) -> Self {
        self.write_due_newlines(start, end).push_context(MdTagView::Paragraph).new_external_formatted(
            BufferTypeView::Paragraph,
        )
    }

    /// An ATX heading is written anew from its level, with the space behind
    /// the marker only where text follows. A setext heading keeps its
    /// underline, which is written when the heading ends.
    #[verifier::opaque]
    pub open spec fn start_heading(
        self,
        level: HeadingLevel,
        id: Option<Seq<char>>,
        classes: Seq<Seq<char>>,
        start: usize,
        end: usize,
    ) -> Self {
        let s = (StateView {
            header_id_and_classes: Some((id, classes)),
            ..self
        }).write_due_newlines(start, end);
        match spec_heading_start(spec_span(s.input, start as int, end as int), level) {
            HeadingStartView::Setext(marker) => StateView { setext_header: Some(marker), ..s },
            HeadingStartView::Atx(marker) => s.write(marker),
        }
    }

    /// The state with the innermost indentation made `>`, where it is `> `.
    #[verifier::opaque]
    pub open spec fn tighten_last_quote(self) -> Self {
        if self.indentation.len() > 0 && self.indentation.last() == "> "@ {
            self.replace_last_indentation(">"@)
        } else {
            self
        }
    }

    /// The state after the marker of a block quote that was just opened
    /// was written, and the line feeds of the source behind it.
    #[verifier::opaque]
    pub open spec fn open_quote(self, start: usize, end: usize) -> Self {
        match self.peek() {
            Some(next) => {
                if next.kind == EventKind::End(TagKind::BlockQuote) {
                    // the current blockquote is empty
                    self.write(">"@).push_indentation(">"@).write_newlines(
                        spec_count_newlines(
                            spec_trim_end(spec_span(self.input, start as int, end as int)),
                        ),
                    )
                } else if next.kind == (EventKind::Start {
                    tag: TagKind::BlockQuote,
                    indented: false,
                }) {
                    self.write(">"@).push_indentation(">"@).write_newlines(
                        spec_count_newlines(
                            spec_span(self.input, start as int, next.start as int),
                        ),
                    )
                } else {
                    let newlines = spec_count_newlines(
                        spec_span(self.input, start as int, next.start as int),
                    );
                    let s = self.push_indentation("> "@);
                    if newlines > 0 {
                        s.write(">"@).write_newlines(newlines)
                    } else {
                        s.write("> "@)
                    }
                }
            },
            None => self.fail(FormatError::MissingEndTag),
        }
    }

    /// A block quote puts `> ` in front of its lines, or `>` alone where
    /// it is empty, where another block quote opens right in it, or on the
    /// lines that hold nothing else.
    #[verifier::opaque]
    pub open spec fn start_block_quote(self, tag: MdTagView, start: usize, end: usize) -> Self {
        self.tighten_last_quote().write_due_newlines(start, end).push_context(tag).open_quote(
            start,
            end,
        )
    }

    /// A fenced code block keeps its fence and its info string.
    #[verifier::opaque]
    pub open spec fn start_fenced_code_block(
        self,
        tag: MdTagView,
        info_string: Seq<char>,
        start: usize,
        end: usize,
    ) -> Self {
        let newlines = self.count_newlines(start, end);
        let s = self.write_newlines_before_code_block(newlines).rewrite_marker(start, end);
        let s = StateView { needs_indent: true, ..s };
        if info_string.len() == 0 {
            s.write(seq!['\n']).new_external_formatted(
                BufferTypeView::CodeBlock { info: None },
            ).push_context(tag)
        } else {
            let (starts_with_space, info) = spec_fence_info(
                spec_span(s.input, start as int, end as int),
                info_string,
            );
            let s = if starts_with_space {
                s.write(seq![' '])
            } else {
                s
            };
            s.write(info).write(seq!['\n']).new_external_formatted(
                BufferTypeView::CodeBlock { info: Some(info) },
            ).push_context(tag)
        }
    }

    /// An indented code block is indented by four spaces; an empty one
    /// writes nothing.
    #[verifier::opaque]
    pub open spec fn start_indented_code_block(self, tag: MdTagView, start: usize, end: usize) -> Self {
        let newlines = self.count_newlines(start, end);
        let s = self.push_indentation("    "@);
        let s = if s.peek() matches Some(next) && next.kind == EventKind::End(TagKind::CodeBlock) {
            s
        } else {
            // Only write the new line before and the indentation if
            // this isn't an empty indented code block
            let written = s.write_newlines_before_code_block(newlines);
            if spec_at_line_start(s.write_line_feeds(0, newlines).rewrite_buffer) {
                written
            } else {
                written.write("    "@)
            }
        };
        (StateView { needs_indent: false, ..s }).new_external_formatted(
            BufferTypeView::CodeBlock { info: None },
        ).push_context(tag)
    }

    #[verifier::opaque]
    pub open spec fn start_code_block(self, tag: MdTagView, start: usize, end: usize) -> Self {
        match tag {
            MdTagView::CodeBlock(CodeBlockKindView::Fenced(info_string)) => self.start_fenced_code_block(
                tag,
                info_string,
                start,
                end,
            ),
            _ => self.start_indented_code_block(tag, start, end),
        }
    }

    #[verifier::opaque]
    pub open spec fn start_list(self, tag: MdTagView, start: usize, end: usize) -> Self {
        self.write_due_newlines(start, end).push_context(tag)
    }

    /// Whether the list item at `start` is empty: it ends at once, or a
    /// line feed stands between its marker and what comes next.
    #[verifier::opaque]
    pub open spec fn is_empty_list_item(self, start: usize) -> bool {
        match self.peek() {
            Some(next) => next.kind == EventKind::End(TagKind::Item) || spec_contains(
                spec_span(self.input, start as int, next.start as int),
                CharSet::Just('\n'),
            ),
            None => false,
        }
    }

    /// The state after the marker `marker` was written, with a space
    /// behind it unless the item is empty.
    #[verifier::opaque]
    pub open spec fn write_list_marker(self, marker: ListMarker, empty_list_item: bool) -> Self {
        let s = match marker {
            ListMarker::Ordered { number, .. } => self.write(marker.spec_zero_padding()).write(
                spec_decimal(number as nat),
            ).write(seq![marker.spec_marker_char()]),
            ListMarker::Unordered(_) => self.write(seq![marker.spec_marker_char()]),
        };
        if empty_list_item {
            s
        } else {
            s.write(seq![' '])
        }
    }

    /// The margin of what belongs to an item with the marker `marker`: as
    /// wide as the marker where a code block, an HTML block or a table head
    /// follows at once, else the configured one, or as wide as the marker
    /// where none is configured.
    #[verifier::opaque]
    pub open spec fn item_indentation(self, marker: ListMarker) -> Seq<char> {
        let follows_block = self.peek() matches Some(next) && (next.kind matches EventKind::Start {
            tag,
            ..
        } && (tag == TagKind::CodeBlock || tag == TagKind::HtmlBlock || tag == TagKind::TableHead));
        if follows_block {
            marker.spec_indentation()
        } else {
            match self.config.fixed_indentation {
                Some(fixed) => fixed@,
                None => marker.spec_indentation(),
            }
        }
    }

    /// A list item begins with its marker: the one of the source, with the
    /// parts that the configuration fixes.
    #[verifier::opaque]
    pub open spec fn start_item(self, tag: MdTagView, start: usize, end: usize) -> Self {
        let newlines = self.count_newlines(start, end);
        let s = if self.needs_indent && newlines > 0 {
            self.write_newlines(newlines)
        } else {
            self
        };
        let empty_list_item = s.is_empty_list_item(start);
        // We need to push a newline and indentation before the next event if
        // this is an empty list item
        let s = StateView { needs_indent: empty_list_item, ..s };
        match spec_list_marker(s.config, spec_span(s.input, start as int, end as int)) {
            Err(e) => s.fail(FormatError::ListMarker(e)),
            Ok(marker) => {
                let s = s.write_list_marker(marker, empty_list_item).push_context(tag);
                s.push_indentation(s.item_indentation(marker))
            },
        }
    }

    #[verifier::opaque]
    pub open spec fn start_footnote_definition(self, label: Seq<char>, start: usize, end: usize) -> Self {
        self.write_newlines(self.count_newlines(start, end)).write("[^"@).write(label).write("]: "@)
    }

    /// The state after the line feeds in front of a link or an image were
    /// written, where they are due.
    #[verifier::opaque]
    pub open spec fn write_link_newlines(self, start: usize, end: usize) -> Self {
        let newlines = self.count_newlines(start, end);
        if self.needs_indent && newlines > 0 {
            StateView { needs_indent: false, ..self.write_newlines(newlines) }
        } else {
            self
        }
    }

    /// The state after a link or an image was opened with `opener`.
    #[verifier::opaque]
    pub open spec fn open_link(self, tag: MdTagView, opener: Seq<char>, start: usize, end: usize) -> Self {
        let s = self.write_link_newlines(start, end).write(opener).push_context(tag);
        if s.peek() matches Some(next) && (next.kind is Text || next.kind is SoftBreak) {
            StateView { trim_link_or_image_start: true, ..s }
        } else {
            s
        }
    }

    pub open spec fn start_link(self, tag: MdTagView, link_type: LinkKind, start: usize, end: usize) -> Self {
        self.open_link(
            tag,
            if link_type == LinkKind::Email || link_type == LinkKind::Autolink {
                "<"@
            } else {
                "["@
            },
            start,
            end,
        )
    }

    pub open spec fn start_image(self, tag: MdTagView, start: usize, end: usize) -> Self {
        self.open_link(tag, "!["@, start, end)
    }

    #[verifier::opaque]
    pub open spec fn start_table(self, tag: MdTagView, alignment: Seq<ColumnAlignment>, start: usize, end: usize) -> Self {
        let s = self.write_due_newlines(start, end);
        let s = StateView {
            table: Some(
                TableView { alignment, headers: Seq::empty(), body: Seq::empty(), col_index: 0 },
            ),
            ..s
        };
        s.write("|"@).push_indentation("|"@).push_context(tag)
    }

    #[verifier::opaque]
    pub open spec fn start_table_row(self, tag: MdTagView) -> Self {
        let s = self.push_context(tag);
        match s.table {
            Some(t) => StateView { table: Some(t.push_row()), ..s },
            None => s,
        }
    }

    /// An empty cell is noted; any other cell is filled by what it holds.
    #[verifier::opaque]
    pub open spec fn start_table_cell(self) -> Self {
        if self.peek() matches Some(next) && next.kind == EventKind::End(TagKind::TableCell) {
            match self.table {
                Some(t) => StateView { table: Some(t.write(Seq::empty())), ..self },
                None => self,
            }
        } else {
            self
        }
    }

    #[verifier::opaque]
    pub open spec fn start_html_block(self, start: usize, end: usize) -> Self {
        let newlines = self.count_newlines(start, end);
        self.flush_external_formatted(false).write_line_feeds(0, newlines).new_external_formatted(
            BufferTypeView::HtmlBlock,
        )
    }

    /// The state after the element `tag`, read from `start..end` of the
    /// source, was opened.
    #[verifier::opaque]
    pub open spec fn start_tag(self, tag: MdTagView, start: usize, end: usize) -> Self {
        match tag {
            MdTagView::Paragraph => self.start_paragraph(start, end),
            MdTagView::Heading { level, id, classes } => self.start_heading(
                level,
                id,
                classes,
                start,
                end,
            ),
            MdTagView::BlockQuote => self.start_block_quote(tag, start, end),
            MdTagView::CodeBlock(_) => self.start_code_block(tag, start, end),
            MdTagView::List(_) => self.start_list(tag, start, end),
            MdTagView::Item => self.start_item(tag, start, end),
            MdTagView::FootnoteDefinition(label) => self.start_footnote_definition(label, start, end),
            MdTagView::Emphasis => self.write_emphasis_marker(start, end),
            MdTagView::Strong => self.write_strong_marker(start, end),
            MdTagView::Strikethrough => self.rewrite_marker(start, end),
            MdTagView::Link { link_type, .. } => self.start_link(tag, link_type, start, end),
            MdTagView::Image { .. } => self.start_image(tag, start, end),
            MdTagView::Table(alignment) => self.start_table(tag, alignment, start, end),
            MdTagView::TableHead => self.push_context(tag),
            MdTagView::TableRow => self.start_table_row(tag),
            MdTagView::TableCell => self.start_table_cell(),
            MdTagView::HtmlBlock => self.start_html_block(start, end),
            MdTagView::MetadataBlock(kind) => self.write_metadata_block_separator(
                kind,
                false,
                start,
                end,
            ),
        }
    }
}

/// Twice the length of the part `start..end`, as a capacity to ask for;
/// `usize::MAX` where that is more.
fn capacity_for(start: usize, end: usize) -> (r: usize)
    ensures
        r == if end < start {
            0
        } else if 2 * (end - start) <= usize::MAX {
            2 * (end - start)
        } else {
            usize::MAX as int
        },
{
    if end >= start {
        let len = end - start;
        len.saturating_add(len)
    } else {
        0
    }
}

impl<E: ExternalFormatter> FormatState<E> {
    /// Writes the text of a literal.
    pub fn write_literal(&mut self, text: &str)
        ensures
            final(self)@ == old(self)@.write(text@),
    {
        let chars = chars_of(text);
        self.write_str(chars.as_slice());
    }

    /// Notes that the element `tag` is open.
    pub fn push_context(&mut self, tag: MdTag)
        ensures
            final(self)@ == old(self)@.push_context(tag@),
    {
        let ghost before = self.nested_context@;
        self.nested_context.push(tag);
        assert(tag_views(self.nested_context@) =~= tag_views(before).push(tag@));
    }

    /// Takes the innermost open element away, where there is one.
    pub fn take_context(&mut self) -> (r: Option<MdTag>)
        ensures
            old(self)@.nested_context.len() == 0 ==> r is None && final(self)@ == old(self)@,
            old(self)@.nested_context.len() > 0 ==> r is Some && r->0@
                == old(self)@.nested_context.last() && final(self)@ == (StateView {
                nested_context: old(self)@.nested_context.drop_last(),
                ..old(self)@
            }),
    {
        let ghost before = self.nested_context@;
        let r = self.nested_context.pop();
        assert(before.len() > 0 ==> tag_views(self.nested_context@) =~= tag_views(before).drop_last());
        assert(before.len() == 0 ==> tag_views(self.nested_context@) =~= tag_views(before));
        r
    }

    pub fn push_indentation(&mut self, indent: Vec<char>)
        ensures
            final(self)@ == old(self)@.push_indentation(indent@),
    {
        let ghost before = self.indentation@;
        self.indentation.push(indent);
        assert(texts(self.indentation@) =~= texts(before).push(indent@));
    }

    pub fn replace_last_indentation(&mut self, indent: Vec<char>)
        ensures
            final(self)@ == old(self)@.replace_last_indentation(indent@),
    {
        let ghost before = self.indentation@;
        if self.indentation.len() > 0 {
            self.indentation.pop();
            self.indentation.push(indent);
            assert(texts(self.indentation@) =~= texts(before).update(before.len() - 1, indent@));
        }
    }

    /// Takes the innermost indentation away.
    pub fn pop_indentation(&mut self) -> (r: Option<Vec<char>>)
        ensures
            old(self)@.indentation.len() == 0 ==> r is None && final(self)@ == old(self)@,
            old(self)@.indentation.len() > 0 ==> r is Some && r->0@ == old(self)@.indentation.last()
                && final(self)@ == (StateView {
                indentation: old(self)@.indentation.drop_last(),
                ..old(self)@
            }),
    {
        let ghost before = self.indentation@;
        let r = self.indentation.pop();
        assert(before.len() > 0 ==> texts(self.indentation@) =~= texts(before).drop_last());
        assert(before.len() == 0 ==> texts(self.indentation@) =~= texts(before));
        r
    }

    fn write_due_newlines(&mut self, start: usize, end: usize)
        ensures
            final(self)@ == old(self)@.write_due_newlines(start, end),
    {
        reveal(StateView::<_>::write_due_newlines);
        if self.needs_indent {
            let newlines = self.count_newlines(start, end);
            self.write_newlines(newlines);
            self.needs_indent = false;
        }
    }

    fn start_paragraph(&mut self, start: usize, end: usize)
        ensures
            final(self)@ == old(self)@.start_paragraph(start, end),
    {
        reveal(StateView::<_>::start_paragraph);
        self.write_due_newlines(start, end);
        self.push_context(MdTag::Paragraph);
        self.new_external_formatted(BufferType::Paragraph, capacity_for(start, end));
    }

    fn start_heading(
        &mut self,
        level: HeadingLevel,
        id: Option<Vec<char>>,
        classes: Vec<Vec<char>>,
        start: usize,
        end: usize,
    )
        ensures
            final(self)@ == old(self)@.start_heading(
                level,
                id_view(id),
                texts(classes@),
                start,
                end,
            ),
    {
        reveal(StateView::<_>::start_heading);
        self.header_id_and_classes = Some((id, classes));
        self.write_due_newlines(start, end);
        match heading_start(span(self.input.as_slice(), start, end), level) {
            HeadingStart::Setext(header_marker) => {
                // setext header are handled in `end_tag`
                self.setext_header = Some(header_marker);
            },
            HeadingStart::Atx(header) => {
                self.write_str(header.as_slice());
            },
        }
    }

    fn tighten_last_quote(&mut self)
        ensures
            final(self)@ == old(self)@.tighten_last_quote(),
    {
        reveal(StateView::<_>::tighten_last_quote);
        // Just in case we're starting a new block quote in a nested context where
        // We alternate indentation levels we want to remove trailing whitespace
        // from the blockquote that we're about to push on top of
        let n = self.indentation.len();
        let quote = chars_of("> ");
        if n > 0 && crate::text::equals(self.indentation[n - 1].as_slice(), quote.as_slice()) {
            self.replace_last_indentation(chars_of(">"));
        }
    }

    fn open_quote(&mut self, start: usize, end: usize)
        ensures
            final(self)@ == old(self)@.open_quote(start, end),
    {
        reveal(StateView::<_>::open_quote);
        match self.peek() {
            Some(next) => {
                if next.kind == EventKind::End(TagKind::BlockQuote) {
                    // The next event is `End(BlockQuote)` so the current blockquote is empty!
                    let newlines = count_newlines(trim_end(span(self.input.as_slice(), start, end)));
                    self.write_literal(">");
                    self.push_indentation(chars_of(">"));
                    self.write_newlines(newlines);
                } else if next.kind == (EventKind::Start {
                    tag: TagKind::BlockQuote,
                    indented: false,
                }) {
                    // The next event is `Start(BlockQuote) so we're adding another level
                    // of indentation.
                    // Now add any missing newlines for empty block quotes between
                    // the current start and the next start
                    let newlines = count_newlines(span(self.input.as_slice(), start, next.start));
                    self.write_literal(">");
                    self.push_indentation(chars_of(">"));
                    self.write_newlines(newlines);
                } else {
                    let newlines = count_newlines(span(self.input.as_slice(), start, next.start));
                    self.push_indentation(chars_of("> "));
                    if newlines > 0 {
                        self.write_literal(">");
                        self.write_newlines(newlines);
                    } else {
                        self.write_literal("> ");
                    }
                }
            },
            None => {
                // At the very least an `End(BlockQuote)` must follow.
                self.fail(FormatError::MissingEndTag);
            },
        }
    }

    fn start_block_quote(&mut self, tag: MdTag, start: usize, end: usize)
        ensures
            final(self)@ == old(self)@.start_block_quote(tag@, start, end),
    {
        reveal(StateView::<_>::start_block_quote);
        self.tighten_last_quote();
        self.write_due_newlines(start, end);
        self.push_context(tag);
        self.open_quote(start, end);
    }

    fn start_fenced_code_block(&mut self, tag: MdTag, info_string: Vec<char>, start: usize, end: usize)
        ensures
            final(self)@ == old(self)@.start_fenced_code_block(tag@, info_string@, start, end),
    {
        reveal(StateView::<_>::start_fenced_code_block);
        let newlines = self.count_newlines(start, end);
        self.write_newlines_before_code_block(newlines);
        self.rewrite_marker(start, end);
        self.needs_indent = true;
        let info = if info_string.len() == 0 {
            self.write_char('\n');
            None
        } else {
            let (starts_with_space, info) = fence_info(
                span(self.input.as_slice(), start, end),
                info_string.as_slice(),
            );
            if starts_with_space {
                self.write_char(' ');
            }
            self.write_str(info.as_slice());
            self.write_char('\n');
            Some(string_of(info.as_slice()))
        };
        self.new_external_formatted(BufferType::CodeBlock { info }, capacity_for(start, end));
        self.push_context(tag);
    }

    fn start_indented_code_block(&mut self, tag: MdTag, start: usize, end: usize)
        ensures
            final(self)@ == old(self)@.start_indented_code_block(tag@, start, end),
    {
        reveal(StateView::<_>::start_indented_code_block);
        let newlines = self.count_newlines(start, end);
        self.push_indentation(chars_of("    "));
        let ends_at_once = match self.peek() {
            Some(next) => next.kind == EventKind::End(TagKind::CodeBlock),
            None => false,
        };
        if !ends_at_once {
            // Only write the new line before and
            // the indentation if
            // this isn't an empty indented code block
            if !self.write_newlines_before_code_block(newlines) {
                self.write_literal("    ");
            }
        }
        self.needs_indent = false;
        self.new_external_formatted(BufferType::CodeBlock { info: None }, capacity_for(start, end));
        self.push_context(tag);
    }

    fn start_code_block(&mut self, tag: MdTag, start: usize, end: usize)
        ensures
            final(self)@ == old(self)@.start_code_block(tag@, start, end),
    {
        reveal(StateView::<_>::start_code_block);
        let fenced: Option<Vec<char>> = match &tag {
            MdTag::CodeBlock(CodeBlockKind::Fenced(info_string)) => Some(
                to_vec(info_string.as_slice()),
            ),
            _ => None,
        };
        match fenced {
            Some(info_string) => self.start_fenced_code_block(tag, info_string, start, end),
            None => self.start_indented_code_block(tag, start, end),
        }
    }

    fn start_list(&mut self, tag: MdTag, start: usize, end: usize)
        ensures
            final(self)@ == old(self)@.start_list(tag@, start, end),
    {
        reveal(StateView::<_>::start_list);
        self.write_due_newlines(start, end);
        self.push_context(tag);
    }

    fn is_empty_list_item(&self, start: usize) -> (r: bool)
        ensures
            r == self@.is_empty_list_item(start),
    {
        reveal(StateView::<_>::is_empty_list_item);
        match self.peek() {
            Some(next) => next.kind == EventKind::End(TagKind::Item) || contains(
                span(self.input.as_slice(), start, next.start),
                CharSet::Just('\n'),
            ),
            None => false,
        }
    }

    fn write_list_marker(&mut self, marker: ListMarker, empty_list_item: bool)
        ensures
            final(self)@ == old(self)@.write_list_marker(marker, empty_list_item),
    {
        reveal(StateView::<_>::write_list_marker);
        match marker {
            ListMarker::Ordered { number, .. } => {
                let zero_padding = marker.zero_padding();
                self.write_str(zero_padding.as_slice());
                let mut digits: Vec<char> = Vec::new();
                crate::text::push_decimal(&mut digits, number);
                assert(digits@ =~= spec_decimal(number as nat));
                self.write_str(digits.as_slice());
                self.write_char(marker.marker_char());
            },
            ListMarker::Unordered(_) => {
                self.write_char(marker.marker_char());
            },
        }
        if !empty_list_item {
            self.write_char(' ');
        }
    }

    fn item_indentation(&self, marker: ListMarker) -> (r: Vec<char>)
        ensures
            r@ == self@.item_indentation(marker),
    {
        reveal(StateView::<_>::item_indentation);
        let follows_block = match self.peek() {
            Some(next) => match next.kind {
                EventKind::Start { tag, .. } => tag == TagKind::CodeBlock || tag
                    == TagKind::HtmlBlock || tag == TagKind::TableHead,
                _ => false,
            },
            None => false,
        };
        if follows_block {
            // Have to use the "correct" indentation if
            // a code block, HTML block,
            // or table follows immediately.
            marker.indentation()
        } else {
            match &self.config.fixed_indentation {
                Some(fixed) => chars_of(fixed.as_str()),
                None => marker.indentation(),
            }
        }
    }

    fn start_item(&mut self, tag: MdTag, start: usize, end: usize)
        ensures
            final(self)@ == old(self)@.start_item(tag@, start, end),
    {
        reveal(StateView::<_>::start_item);
        let newlines = self.count_newlines(start, end);
        if self.needs_indent && newlines > 0 {
            self.write_newlines(newlines);
        }
        let empty_list_item = self.is_empty_list_item(start);
        // We need to push a newline and indentation before the next event if
        // this is an empty list item
        self.needs_indent = empty_list_item;
        match self.config.list_marker_of(span(self.input.as_slice(), start, end)) {
            Err(e) => {
                self.fail(FormatError::ListMarker(e));
            },
            Ok(list_marker) => {
                self.write_list_marker(list_marker, empty_list_item);
                self.push_context(tag);
                let indentation = self.item_indentation(list_marker);
                self.push_indentation(indentation);
            },
        }
    }

    fn start_footnote_definition(&mut self, label: &[char], start: usize, end: usize)
        ensures
            final(self)@ == old(self)@.start_footnote_definition(label@, start, end),
    {
        reveal(StateView::<_>::start_footnote_definition);
        let newlines = self.count_newlines(start, end);
        self.write_newlines(newlines);
        self.write_literal("[^");
        self.write_str(label);
        self.write_literal("]: ");
    }

    fn open_link(&mut self, tag: MdTag, opener: &str, start: usize, end: usize)
        ensures
            final(self)@ == old(self)@.open_link(tag@, opener@, start, end),
    {
        reveal(StateView::<_>::open_link);
        reveal(StateView::<_>::write_link_newlines);
        let newlines = self.count_newlines(start, end);
        if self.needs_indent && newlines > 0 {
            self.write_newlines(newlines);
            self.needs_indent = false;
        }
        self.write_literal(opener);
        self.push_context(tag);
        let trim_start = match self.peek() {
            Some(next) => match next.kind {
                EventKind::Text => true,
                EventKind::SoftBreak => true,
                _ => false,
            },
            None => false,
        };
        if trim_start {
            self.trim_link_or_image_start = true;
        }
    }

    fn start_table(&mut self, tag: MdTag, start: usize, end: usize)
        requires
            tag is Table,
        ensures
            final(self)@ == old(self)@.start_table(tag@, tag->Table_0@, start, end),
    {
        reveal(StateView::<_>::start_table);
        self.write_due_newlines(start, end);
        let mut alignment: Vec<ColumnAlignment> = Vec::new();
        match &tag {
            MdTag::Table(columns) => {
                let mut i: usize = 0;
                while i < columns.len()
                    invariant
                        i <= columns@.len(),
                        alignment@ == columns@.take(i as int),
                    decreases columns@.len() - i,
                {
                    alignment.push(columns[i]);
                    assert(alignment@ =~= columns@.take(i + 1));
                    i += 1;
                }
                assert(alignment@ =~= columns@);
            },
            _ => {},
        }
        self.table_state = Some(TableState::new(alignment));
        self.write_literal("|");
        self.push_indentation(chars_of("|"));
        self.push_context(tag);
    }

    fn start_table_row(&mut self, tag: MdTag)
        ensures
            final(self)@ == old(self)@.start_table_row(tag@),
    {
        reveal(StateView::<_>::start_table_row);
        self.push_context(tag);
        match &mut self.table_state {
            Some(state) => {
                state.push_row();
            },
            None => {},
        }
    }

    fn start_table_cell(&mut self)
        ensures
            final(self)@ == old(self)@.start_table_cell(),
    {
        reveal(StateView::<_>::start_table_cell);
        let ends_at_once = match self.peek() {
            Some(next) => next.kind == EventKind::End(TagKind::TableCell),
            None => false,
        };
        if !ends_at_once {
            return ;
        }
        let empty: Vec<char> = Vec::new();
        assert(empty@ =~= Seq::<char>::empty());
        match &mut self.table_state {
            Some(state) => {
                state.write_str(empty.as_slice());
            },
            None => {},
        }
    }

    fn start_html_block(&mut self, start: usize, end: usize)
        ensures
            final(self)@ == old(self)@.start_html_block(start, end),
    {
        reveal(StateView::<_>::start_html_block);
        let newlines = self.count_newlines(start, end);
        self.flush_external_formatted(false);
        let ghost flushed = self@;
        let mut i: usize = 0;
        while i < newlines
            invariant
                i <= newlines,
                flushed.write_line_feeds(0, newlines as nat) == self@.write_line_feeds(
                    i as nat,
                    newlines as nat,
                ),
            decreases newlines - i,
        {
            self.write_char('\n');
            i += 1;
        }
        self.new_external_formatted(BufferType::HtmlBlock, capacity_for(start, end));
    }

    pub fn start_tag(&mut self, tag: MdTag, start: usize, end: usize)
        ensures
            final(self)@ == old(self)@.start_tag(tag@, start, end),
    {
        reveal(StateView::<_>::start_tag);
        match tag {
            MdTag::Paragraph => self.start_paragraph(start, end),
            MdTag::Heading { level, id, classes } => self.start_heading(
                level,
                id,
                classes,
                start,
                end,
            ),
            MdTag::BlockQuote => self.start_block_quote(tag, start, end),
            MdTag::CodeBlock(_) => self.start_code_block(tag, start, end),
            MdTag::List(_) => self.start_list(tag, start, end),
            MdTag::Item => self.start_item(tag, start, end),
            MdTag::FootnoteDefinition(label) => self.start_footnote_definition(
                label.as_slice(),
                start,
                end,
            ),
            MdTag::Emphasis => self.write_emphasis_marker(start, end),
            MdTag::Strong => self.write_strong_marker(start, end),
            MdTag::Strikethrough => self.rewrite_marker(start, end),
            MdTag::Link { link_type, .. } => {
                let email_or_auto = link_type == LinkKind::Email || link_type == LinkKind::Autolink;
                let opener = if email_or_auto {
                    "<"
                } else {
                    "["
                };
                self.open_link(tag, opener, start, end)
            },
            MdTag::Image { .. } => self.open_link(tag, "![", start, end),
            MdTag::Table(_) => self.start_table(tag, start, end),
            MdTag::TableHead => {
                self.push_context(tag);
            },
            MdTag::TableRow => self.start_table_row(tag),
            MdTag::TableCell => self.start_table_cell(),
            MdTag::HtmlBlock => self.start_html_block(start, end),
            MdTag::MetadataBlock(kind) => self.write_metadata_block_separator(kind, false, start, end),
        }
    }
}

/// The title that the parser read, as one that `"` closes; none where it
/// is empty.
pub open spec fn spec_parsed_title(title: Seq<char>) -> Option<(Seq<char>, char)> {
    if title.len() == 0 {
        None
    } else {
        Some((title, '"'))
    }
}

impl<E: ExternalFormatter> StateView<E> {
    /// The state after the innermost element was closed by `expected`. The
    /// run fails where no element is open or another one is innermost.
    #[verifier::opaque]
    pub open spec fn pop_context(self, expected: TagKind) -> Self {
        if self.nested_context.len() == 0 {
            self.fail(FormatError::MismatchedTag)
        } else {
            let s = StateView { nested_context: self.nested_context.drop_last(), ..self };
            if self.nested_context.last().spec_to_end() == expected {
                s
            } else {
                s.fail(FormatError::MismatchedTag)
            }
        }
    }

    /// The state after the innermost indentation was taken away. The run
    /// fails where there is none.
    #[verifier::opaque]
    pub open spec fn drop_indentation(self) -> Self {
        if self.indentation.len() == 0 {
            self.fail(FormatError::MismatchedTag)
        } else {
            StateView { indentation: self.indentation.drop_last(), ..self }
        }
    }

    #[verifier::opaque]
    pub open spec fn end_paragraph(self) -> Self {
        self.pop_context(TagKind::Paragraph).flush_external_formatted(true)
    }

    /// The state after the attributes of a heading were written:
    /// ` {#id .class}`, or nothing where it has neither.
    #[verifier::opaque]
    pub open spec fn write_header_attributes(self, id: Option<Seq<char>>, classes: Seq<Seq<char>>) -> Self {
        let class_text = spec_header_classes(classes, classes.len() as int);
        match id {
            Some(id) => if classes.len() > 0 {
                self.write(" {#"@).write(id).write(class_text).write("}"@)
            } else {
                self.write(" {#"@).write(id).write("}"@)
            },
            None => if classes.len() > 0 {
                self.write(" {"@).write(spec_trim(class_text)).write("}"@)
            } else {
                self
            },
        }
    }

    /// The state after the underline of a setext heading was written on a
    /// line of its own, where one is kept.
    #[verifier::opaque]
    pub open spec fn write_setext_marker(self) -> Self {
        match self.setext_header {
            Some(marker) => (StateView { setext_header: None, ..self }).write_newlines(1).write(
                marker,
            ),
            None => self,
        }
    }

    /// A heading ends with its attributes and, for a setext heading, its
    /// underline. The run fails where no heading is open.
    #[verifier::opaque]
    pub open spec fn end_heading(self) -> Self {
        match self.header_id_and_classes {
            None => self.fail(FormatError::MismatchedTag),
            Some((id, classes)) => (StateView {
                header_id_and_classes: None,
                ..self
            }).write_header_attributes(id, classes).write_setext_marker(),
        }
    }

    /// The state after the line feeds at the end of a block quote were
    /// written, on lines that hold `>` alone.
    #[verifier::opaque]
    pub open spec fn write_quote_end_newlines(self, start: usize, end: usize) -> Self {
        let newlines = self.count_newlines(start, end);
        if self.needs_indent && newlines > 0 {
            // Recover empty block quote lines
            self.replace_last_indentation(">"@).write_newlines(newlines)
        } else {
            self
        }
    }

    /// The state after the indentation of a block quote was taken away.
    /// Where the block quote around it was made `>` for this one, it gets
    /// the indentation that is taken away.
    #[verifier::opaque]
    pub open spec fn pop_quote_indentation(self) -> Self {
        if self.indentation.len() == 0 {
            self.fail(FormatError::MismatchedTag)
        } else {
            let popped = self.indentation.last();
            let s = StateView { indentation: self.indentation.drop_last(), ..self };
            if s.indentation.len() > 0 && s.indentation.last() == ">"@ {
                s.replace_last_indentation(popped)
            } else {
                s
            }
        }
    }

    #[verifier::opaque]
    pub open spec fn end_block_quote(self, start: usize, end: usize) -> Self {
        self.write_quote_end_newlines(start, end).pop_context(
            TagKind::BlockQuote,
        ).pop_quote_indentation()
    }

    /// A fenced code block ends with the fence it began with; an indented
    /// one gives up its indentation. The run fails where the innermost
    /// element is no code block.
    #[verifier::opaque]
    pub open spec fn end_code_block(self, start: usize, end: usize) -> Self {
        let empty_code_block = self.external matches Some(f) && E::spec_is_empty(f);
        let s = self.flush_external_formatted(true);
        if s.nested_context.len() == 0 {
            s.fail(FormatError::MismatchedTag)
        } else {
            let popped = s.nested_context.last();
            let s = StateView { nested_context: s.nested_context.drop_last(), ..s };
            match popped {
                MdTagView::CodeBlock(CodeBlockKindView::Fenced(_)) => s.write_newline_after_code_block(
                    empty_code_block,
                ).rewrite_marker(start, end),
                MdTagView::CodeBlock(CodeBlockKindView::Indented) => s.drop_indentation(),
                _ => s.fail(FormatError::MismatchedTag),
            }
        }
    }

    /// A list that an indented code block follows is parted from it by a
    /// comment, so that the code block is not read as part of the list.
    #[verifier::opaque]
    pub open spec fn end_list(self, tag: TagKind) -> Self {
        let s = self.pop_context(tag);
        if s.peek() matches Some(next) && next.kind == (EventKind::Start {
            tag: TagKind::CodeBlock,
            indented: true,
        }) {
            s.write_newlines(1).write("<!-- Don't absorb code block into list -->\n"@).write(
                "<!-- Consider a fenced code block instead -->"@,
            )
        } else {
            s
        }
    }

    /// A list item ends behind the line feeds of the source that are due,
    /// and gives up its margin. The run fails where no item is innermost or
    /// no indentation is left to give up.
    #[verifier::opaque]
    pub open spec fn end_item(self, start: usize, end: usize) -> Self {
        let newlines = self.count_newlines(start, end);
        let s = if self.needs_indent && newlines > 0 {
            self.write_newlines_no_trailing_whitespace(newlines)
        } else {
            self
        };
        let s = s.pop_context(TagKind::Item).drop_indentation();
        // if the next event is a Start(Item), then we need to set needs_indent
        StateView {
            needs_indent: s.peek() matches Some(next) && next.kind == (EventKind::Start {
                tag: TagKind::Item,
                indented: false,
            }),
            ..s
        }
    }

    /// The state after an inline link was closed behind its text:
    /// `](destination)` or `](destination "title")`.
    #[verifier::opaque]
    pub open spec fn write_inline_link(self, url: Seq<char>, title: Option<(Seq<char>, char)>) -> Self {
        let s = self.write("]("@).write(spec_format_link_url(url, false));
        match title {
            Some((text, quote)) => if quote == ')' {
                s.write(" ("@).write(text).write("))"@)
            } else {
                s.write(" "@).write(seq![quote]).write(text).write(seq![quote]).write(")"@)
            },
            None => s.write(")"@),
        }
    }

    /// The state after the link or image of the given type, read from
    /// `start..end`, was closed behind its text. The destination and the
    /// title of an inline link are those of the source, or `url` and `title`
    /// where the source does not show them.
    #[verifier::opaque]
    pub open spec fn close_link(
        self,
        link_type: LinkKind,
        url: Seq<char>,
        title: Seq<char>,
        start: usize,
        end: usize,
    ) -> Self {
        let text = spec_span(self.input, start as int, end as int);
        match link_type {
            LinkKind::Inline => match spec_find_inline_url_and_title(text) {
                Some(parts) => self.write_inline_link(parts.url, parts.title),
                None => self.write_inline_link(url, spec_parsed_title(title)),
            },
            LinkKind::Reference => self.write("]["@).write(
                spec_find_reference_link_label(text),
            ).write("]"@),
            LinkKind::ReferenceUnknown => self.write("]["@).write(
                spec_find_reference_link_label(text),
            ).write("]"@),
            LinkKind::Collapsed => self.write("][]"@),
            LinkKind::CollapsedUnknown => self.write("][]"@),
            LinkKind::Shortcut => self.write("]"@),
            LinkKind::ShortcutUnknown => self.write("]"@),
            LinkKind::Autolink => self.write(">"@),
            LinkKind::Email => self.write(">"@),
        }
    }

    /// A link or an image ends in the form it has in the source. The run
    /// fails where the innermost element is not the one that ends.
    #[verifier::opaque]
    pub open spec fn end_link(self, tag: TagKind, start: usize, end: usize) -> Self {
        if self.nested_context.len() == 0 {
            self.fail(FormatError::MismatchedTag)
        } else {
            let popped = self.nested_context.last();
            let s = StateView { nested_context: self.nested_context.drop_last(), ..self };
            let s = if popped.spec_to_end() == tag {
                s
            } else {
                s.fail(FormatError::MismatchedTag)
            };
            match popped {
                MdTagView::Link { link_type, dest_url, title } => s.close_link(
                    link_type,
                    dest_url,
                    title,
                    start,
                    end,
                ),
                MdTagView::Image { link_type, dest_url, title } => s.close_link(
                    link_type,
                    dest_url,
                    title,
                    start,
                    end,
                ),
                _ => s,
            }
        }
    }

    /// A table is written when it ends: its rows, each column as wide as
    /// its widest cell.
    #[verifier::opaque]
    pub open spec fn end_table(self) -> Self {
        let s = self.pop_context(TagKind::Table);
        let s = match s.table {
            Some(t) => (StateView { table: None, ..s }).join_with_indentation(
                t.render(),
                false,
                true,
            ),
            None => s,
        };
        s.drop_indentation()
    }

    #[verifier::opaque]
    pub open spec fn end_table_cell(self) -> Self {
        match self.table {
            // We finished formatting this cell. Setup the state to format the next cell
            Some(t) => StateView { table: Some(t.increment_col_index()), ..self },
            None => self,
        }
    }

    #[verifier::opaque]
    pub open spec fn end_html_block(self) -> Self {
        self.flush_external_formatted(true).check_needs_indent(EventKind::End(TagKind::HtmlBlock))
    }

    /// The state after the element that `tag` closes, read from
    /// `start..end` of the source, was closed.
    #[verifier::opaque]
    pub open spec fn end_tag(self, tag: TagKind, start: usize, end: usize) -> Self {
        match tag {
            TagKind::Paragraph => self.end_paragraph(),
            TagKind::Heading(_) => self.end_heading(),
            TagKind::BlockQuote => self.end_block_quote(start, end),
            TagKind::CodeBlock => self.end_code_block(start, end),
            TagKind::List(_) => self.end_list(tag),
            TagKind::Item => self.end_item(start, end),
            TagKind::FootnoteDefinition => self,
            TagKind::Emphasis => self.write_emphasis_marker(start, end),
            TagKind::Strong => self.write_strong_marker(start, end),
            TagKind::Strikethrough => self.rewrite_marker(start, end),
            TagKind::Link => self.end_link(tag, start, end),
            TagKind::Image => self.end_link(tag, start, end),
            TagKind::Table => self.end_table(),
            TagKind::TableRow => self.pop_context(tag),
            TagKind::TableHead => self.pop_context(tag),
            TagKind::TableCell => self.end_table_cell(),
            TagKind::HtmlBlock => self.end_html_block(),
            TagKind::MetadataBlock(kind) => self.write_metadata_block_separator(kind, true, start, end),
        }
    }
}

impl<E: ExternalFormatter> FormatState<E> {
    /// Takes the innermost open element away, which `expected` must close.
    pub fn pop_context(&mut self, expected: TagKind)
        ensures
            final(self)@ == old(self)@.pop_context(expected),
    {
        reveal(StateView::<_>::pop_context);
        match self.take_context() {
            Some(popped) => {
                if popped.to_end() != expected {
                    self.fail(FormatError::MismatchedTag);
                }
            },
            None => {
                self.fail(FormatError::MismatchedTag);
            },
        }
    }

    fn drop_indentation(&mut self)
        ensures
            final(self)@ == old(self)@.drop_indentation(),
    {
        reveal(StateView::<_>::drop_indentation);
        if self.pop_indentation().is_none() {
            self.fail(FormatError::MismatchedTag);
        }
    }

    fn end_paragraph(&mut self)
        ensures
            final(self)@ == old(self)@.end_paragraph(),
    {
        reveal(StateView::<_>::end_paragraph);
        self.pop_context(TagKind::Paragraph);
        self.flush_external_formatted(true);
    }

    fn write_header_attributes(&mut self, id: &Option<Vec<char>>, classes: &Vec<Vec<char>>)
        ensures
            final(self)@ == old(self)@.write_header_attributes(id_view(*id), texts(classes@)),
    {
        reveal(StateView::<_>::write_header_attributes);
        let class_text = rewirte_header_classes(classes);
        match id {
            Some(id) => {
                self.write_literal(" {#");
                self.write_str(id.as_slice());
                if classes.len() > 0 {
                    self.write_str(class_text.as_slice());
                }
                self.write_literal("}");
            },
            None => {
                if classes.len() > 0 {
                    self.write_literal(" {");
                    self.write_str(trim(class_text.as_slice()));
                    self.write_literal("}");
                }
            },
        }
    }

    fn write_setext_marker(&mut self)
        ensures
            final(self)@ == old(self)@.write_setext_marker(),
    {
        reveal(StateView::<_>::write_setext_marker);
        if let Some(marker) = self.setext_header.take() {
            self.write_newlines(1);
            self.write_str(marker.as_slice());
        }
    }

    fn end_heading(&mut self)
        ensures
            final(self)@ == old(self)@.end_heading(),
    {
        reveal(StateView::<_>::end_heading);
        match self.header_id_and_classes.take() {
            None => {
                self.fail(FormatError::MismatchedTag);
            },
            Some((fragment_identifier, classes)) => {
                self.write_header_attributes(&fragment_identifier, &classes);
                self.write_setext_marker();
            },
        }
    }

    fn write_quote_end_newlines(&mut self, start: usize, end: usize)
        ensures
            final(self)@ == old(self)@.write_quote_end_newlines(start, end),
    {
        reveal(StateView::<_>::write_quote_end_newlines);
        let newlines = self.count_newlines(start, end);
        if self.needs_indent && newlines > 0 {
            // Avoid trailing whitespace by replacing the last indentation with '>'
            self.replace_last_indentation(chars_of(">"));
            self.write_newlines(newlines);
        }
    }

    fn pop_quote_indentation(&mut self)
        ensures
            final(self)@ == old(self)@.pop_quote_indentation(),
    {
        reveal(StateView::<_>::pop_quote_indentation);
        match self.pop_indentation() {
            None => {
                self.fail(FormatError::MismatchedTag);
            },
            Some(popped_indentation) => {
                let n = self.indentation.len();
                let bare = chars_of(">");
                if n > 0 && crate::text::equals(self.indentation[n - 1].as_slice(), bare.as_slice()) {
                    self.replace_last_indentation(popped_indentation);
                }
            },
        }
    }

    fn end_block_quote(&mut self, start: usize, end: usize)
        ensures
            final(self)@ == old(self)@.end_block_quote(start, end),
    {
        reveal(StateView::<_>::end_block_quote);
        self.write_quote_end_newlines(start, end);
        self.pop_context(TagKind::BlockQuote);
        self.pop_quote_indentation();
    }

    fn end_code_block(&mut self, start: usize, end: usize)
        ensures
            final(self)@ == old(self)@.end_code_block(start, end),
    {
        reveal(StateView::<_>::end_code_block);
        let empty_code_block = match &self.external_formatter {
            Some(f) => f.is_empty(),
            None => false,
        };
        self.flush_external_formatted(true);
        match self.take_context() {
            Some(MdTag::CodeBlock(CodeBlockKind::Fenced(_))) => {
                // write closing code fence
                self.write_newline_after_code_block(empty_code_block);
                self.rewrite_marker(start, end);
            },
            Some(MdTag::CodeBlock(CodeBlockKind::Indented)) => {
                self.drop_indentation();
            },
            Some(_) => {
                self.fail(FormatError::MismatchedTag);
            },
            None => {
                self.fail(FormatError::MismatchedTag);
            },
        }
    }

    fn end_list(&mut self, tag: TagKind)
        ensures
            final(self)@ == old(self)@.end_list(tag),
    {
        reveal(StateView::<_>::end_list);
        self.pop_context(tag);
        // To prevent the next code block from being interpreted as a list we'll add an
        // HTML comment See https://spec.commonmark.org/0.30/#example-308, which states:
        //
        //     To separate consecutive lists of the same type, or to separate a list from an
        //     indented code block that would otherwise be parsed as a subparagraph of the
        //     final list item, you can insert a blank HTML comment
        let code_follows = match self.peek() {
            Some(next) => next.kind == (EventKind::Start { tag: TagKind::CodeBlock, indented: true }),
            None => false,
        };
        if code_follows {
            self.write_newlines(1);
            self.write_literal("<!-- Don't absorb code block into list -->\n");
            self.write_literal("<!-- Consider a fenced code block instead -->");
        }
    }

    fn end_item(&mut self, start: usize, end: usize)
        ensures
            final(self)@ == old(self)@.end_item(start, end),
    {
        reveal(StateView::<_>::end_item);
        let newlines = self.count_newlines(start, end);
        if self.needs_indent && newlines > 0 {
            self.write_newlines_no_trailing_whitespace(newlines);
        }
        self.pop_context(TagKind::Item);
        self.drop_indentation();
        // if the next event is a Start(Item), then we need to set needs_indent
        self.needs_indent = match self.peek() {
            Some(next) => next.kind == (EventKind::Start { tag: TagKind::Item, indented: false }),
            None => false,
        };
    }

    pub fn write_inline_link(&mut self, url: &[char], title: &Option<(Vec<char>, char)>)
        ensures
            final(self)@ == old(self)@.write_inline_link(url@, title_view(*title)),
    {
        reveal(StateView::<_>::write_inline_link);
        let url = format_link_url(url, false);
        self.write_literal("](");
        self.write_str(url.as_slice());
        match title {
            Some((text, quote)) => {
                if *quote == ')' {
                    self.write_literal(" (");
                    self.write_str(text.as_slice());
                    self.write_literal("))");
                } else {
                    self.write_literal(" ");
                    self.write_char(*quote);
                    self.write_str(text.as_slice());
                    self.write_char(*quote);
                    self.write_literal(")");
                }
            },
            None => {
                self.write_literal(")");
            },
        }
    }

    fn close_link(
        &mut self,
        link_type: LinkKind,
        url: &[char],
        title: &[char],
        start: usize,
        end: usize,
    )
        ensures
            final(self)@ == old(self)@.close_link(link_type, url@, title@, start, end),
    {
        reveal(StateView::<_>::close_link);
        let text = to_vec(span(self.input.as_slice(), start, end));
        match link_type {
            LinkKind::Inline => {
                match find_inline_url_and_title(text.as_slice()) {
                    Some(parts) => {
                        self.write_inline_link(parts.url.as_slice(), &parts.title);
                    },
                    None => {
                        let title = if title.len() == 0 {
                            None
                        } else {
                            Some((to_vec(title), '"'))
                        };
                        self.write_inline_link(url, &title);
                    },
                }
            },
            LinkKind::Reference | LinkKind::ReferenceUnknown => {
                let label = find_reference_link_label(text.as_slice());
                self.write_literal("][");
                self.write_str(label);
                self.write_literal("]");
            },
            LinkKind::Collapsed | LinkKind::CollapsedUnknown => {
                self.write_literal("][]");
            },
            LinkKind::Shortcut | LinkKind::ShortcutUnknown => {
                self.write_literal("]");
            },
            LinkKind::Autolink | LinkKind::Email => {
                self.write_literal(">");
            },
        }
    }

    fn end_link(&mut self, tag: TagKind, start: usize, end: usize)
        ensures
            final(self)@ == old(self)@.end_link(tag, start, end),
    {
        reveal(StateView::<_>::end_link);
        match self.take_context() {
            None => {
                self.fail(FormatError::MismatchedTag);
            },
            Some(popped_tag) => {
                if popped_tag.to_end() != tag {
                    self.fail(FormatError::MismatchedTag);
                }
                match popped_tag {
                    MdTag::Link { link_type, dest_url, title } => {
                        self.close_link(link_type, dest_url.as_slice(), title.as_slice(), start, end);
                    },
                    MdTag::Image { link_type, dest_url, title } => {
                        self.close_link(link_type, dest_url.as_slice(), title.as_slice(), start, end);
                    },
                    _ => {},
                }
            },
        }
    }

    fn end_table(&mut self)
        ensures
            final(self)@ == old(self)@.end_table(),
    {
        reveal(StateView::<_>::end_table);
        self.pop_context(TagKind::Table);
        if let Some(state) = self.table_state.take() {
            let text = state.format();
            self.join_with_indentation(text.as_slice(), false, true);
        }
        self.drop_indentation();
    }

    fn end_table_cell(&mut self)
        ensures
            final(self)@ == old(self)@.end_table_cell(),
    {
        reveal(StateView::<_>::end_table_cell);
        match &mut self.table_state {
            Some(state) => {
                // We finished formatting this cell. Setup the state to format the next cell
                state.increment_col_index();
            },
            None => {},
        }
    }

    fn end_html_block(&mut self)
        ensures
            final(self)@ == old(self)@.end_html_block(),
    {
        reveal(StateView::<_>::end_html_block);
        self.flush_external_formatted(true);
        self.check_needs_indent(EventKind::End(TagKind::HtmlBlock));
    }

    pub fn end_tag(&mut self, tag: TagKind, start: usize, end: usize)
        ensures
            final(self)@ == old(self)@.end_tag(tag, start, end),
    {
        reveal(StateView::<_>::end_tag);
        match tag {
            TagKind::Paragraph => self.end_paragraph(),
            TagKind::Heading(_) => self.end_heading(),
            TagKind::BlockQuote => self.end_block_quote(start, end),
            TagKind::CodeBlock => self.end_code_block(start, end),
            TagKind::List(_) => self.end_list(tag),
            TagKind::Item => self.end_item(start, end),
            TagKind::FootnoteDefinition => {},
            TagKind::Emphasis => self.write_emphasis_marker(start, end),
            TagKind::Strong => self.write_strong_marker(start, end),
            TagKind::Strikethrough => self.rewrite_marker(start, end),
            TagKind::Link => self.end_link(tag, start, end),
            TagKind::Image => self.end_link(tag, start, end),
            TagKind::Table => self.end_table(),
            TagKind::TableRow => self.pop_context(tag),
            TagKind::TableHead => self.pop_context(tag),
            TagKind::TableCell => self.end_table_cell(),
            TagKind::HtmlBlock => self.end_html_block(),
            TagKind::MetadataBlock(kind) => self.write_metadata_block_separator(kind, true, start, end),
        }
    }
}

/// The index of the last character before `end` that is no white space; 0
/// where there is none.
pub open spec fn spec_last_visible(input: Seq<char>, end: usize) -> usize {
    let before = spec_span(input, 0, end as int);
    let behind = spec_scan_back(before, CharSet::Whitespace, false, before.len() as int);
    if behind > 0 {
        (behind - 1) as usize
    } else {
        0
    }
}

pub fn last_visible(input: &[char], end: usize) -> (r: usize)
    ensures
        r == spec_last_visible(input@, end),
{
    let before = span(input, 0, end);
    let behind = scan_back(before, CharSet::Whitespace, false, before.len());
    if behind > 0 {
        behind - 1
    } else {
        0
    }
}

/// Whether a backslash stands in the source right before `start`.
pub open spec fn spec_starts_with_escape(input: Seq<char>, start: usize) -> bool {
    0 < start <= input.len() && input[start - 1] == '\\'
}

impl<E: ExternalFormatter> StateView<E> {
    /// Whether the event that comes next ends a link or an image.
    pub open spec fn is_next_link_end(self) -> bool {
        self.peek() matches Some(next) && (next.kind == EventKind::End(TagKind::Link) || next.kind
            == EventKind::End(TagKind::Image))
    }

    /// The text of a text event as it is written: that of the source, or
    /// the text that was read where the source has none; without white
    /// space in front where it opens a link or an image, and without white
    /// space at the end where it closes one.
    #[verifier::opaque]
    pub open spec fn source_text(self, parsed_text: Seq<char>, start: usize, end: usize) -> Seq<char> {
        let text_from_source = spec_span(self.input, start as int, end as int);
        let text = if text_from_source.len() == 0 {
            // This seems to happen when the parsed text is whitespace only.
            parsed_text
        } else {
            text_from_source
        };
        let text = if self.in_link_or_image() && self.trim_link_or_image_start {
            crate::text::spec_trim_start(text)
        } else {
            text
        };
        if self.is_next_link_end() {
            spec_trim_end(text)
        } else {
            text
        }
    }

    /// The state after `text` was written, behind a backslash where the
    /// source has one in front of it or the text would else be read as the
    /// start of a block.
    #[verifier::opaque]
    pub open spec fn write_escaped(self, text: Seq<char>, start: usize) -> Self {
        if spec_starts_with_escape(self.input, start) {
            self.write("\\"@).write(text)
        } else if self.needs_escape(text) {
            (StateView { last_was_softbreak: false, ..self }).write("\\"@).write(text)
        } else {
            (StateView { last_was_softbreak: false, ..self }).write(text)
        }
    }

    /// Text inside a code block, an HTML block or display math is written
    /// as it was read. Any other text is written as it stands in the source.
    #[verifier::opaque]
    pub open spec fn format_text(self, parsed_text: Seq<char>, start: usize, end: usize) -> Self {
        if self.external is Some && !self.in_paragraph() {
            // External formatting. Write the text as is.
            StateView { last_position: spec_last_visible(self.input, end), ..self.write(parsed_text) }
        } else {
            let newlines = self.count_newlines(start, end);
            let text = self.source_text(parsed_text, start, end);
            let s = if self.in_link_or_image() && self.trim_link_or_image_start {
                // Make sure we only trim leading whitespace once
                StateView { trim_link_or_image_start: false, ..self }
            } else {
                self
            };
            let s = if s.needs_indent {
                s.write_newlines(newlines)
            } else {
                s
            };
            let s = s.write_escaped(text, start).check_needs_indent(EventKind::Text);
            StateView { last_position: end, ..s }
        }
    }

    /// Display math is written between two `$$`, formatted as display math.
    #[verifier::opaque]
    pub open spec fn format_display_math(self, parsed_text: Seq<char>, end: usize) -> Self {
        let s = self.flush_external_formatted(false).write("$$"@).new_external_formatted(
            BufferTypeView::DisplayMath,
        ).write(parsed_text).flush_external_formatted(false).write_indentation_if_needed().write(
            "$$"@,
        );
        StateView { last_position: spec_last_visible(self.input, end), ..s }
    }

    /// The state after the part `start..end` of the source was written as
    /// it is.
    #[verifier::opaque]
    pub open spec fn write_source(self, start: usize, end: usize) -> Self {
        StateView {
            last_position: spec_last_visible(self.input, end),
            ..self.write(spec_span(self.input, start as int, end as int))
        }
    }

    /// A soft break inside a link or an image becomes a space, or nothing
    /// at the start and at the end of the text. Any other soft break is
    /// written as it stands in the source, with the indentation behind it
    /// unless a paragraph is being written.
    #[verifier::opaque]
    pub open spec fn format_soft_break(self, start: usize, end: usize) -> Self {
        let s = if self.in_link_or_image() {
            if self.trim_link_or_image_start || self.is_next_link_end() {
                StateView { trim_link_or_image_start: false, ..self }
            } else {
                self.write(" "@)
            }
        } else {
            let s = self.write(spec_span(self.input, start as int, end as int));
            // paragraphs write their indentation after reformatting the text
            let s = if !s.in_paragraph() {
                s.write_indentation(false)
            } else {
                s
            };
            StateView { last_was_softbreak: true, ..s }
        };
        StateView { last_position: end, ..s }
    }

    #[verifier::opaque]
    pub open spec fn format_inline(self, kind: EventKind, start: usize, end: usize) -> Self {
        let newlines = self.count_newlines(start, end);
        let s = if self.needs_indent {
            self.write_newlines(newlines)
        } else {
            self
        };
        let s = s.write(
            spec_trim_end_matches(
                spec_span(s.input, start as int, end as int),
                CharSet::Just('\n'),
            ),
        ).check_needs_indent(kind);
        StateView { last_position: spec_last_visible(self.input, end), ..s }
    }

    #[verifier::opaque]
    pub open spec fn format_rule(self, start: usize, end: usize) -> Self {
        let s = self.write_newlines(self.count_newlines(start, end));
        let s = s.write(spec_span(s.input, start as int, end as int)).check_needs_indent(
            EventKind::Rule,
        );
        StateView { last_position: spec_last_visible(self.input, end), ..s }
    }

    #[verifier::opaque]
    pub open spec fn format_footnote_reference(self, label: Seq<char>, end: usize) -> Self {
        StateView {
            last_position: spec_last_visible(self.input, end),
            ..self.write("[^"@).write(label).write("]"@)
        }
    }

    #[verifier::opaque]
    pub open spec fn format_task_list_marker(self, done: bool, end: usize) -> Self {
        StateView {
            last_position: spec_last_visible(self.input, end),
            ..self.write(
                if done {
                    "[x] "@
                } else {
                    "[ ] "@
                },
            )
        }
    }

    /// An element opens behind the link reference definitions that stand
    /// before it in the source.
    #[verifier::opaque]
    pub open spec fn format_start(self, tag: MdTagView, start: usize, end: usize) -> Self {
        StateView {
            last_position: start,
            ..self.rewrite_reference_link_definitions(start).start_tag(tag, start, end)
        }
    }

    #[verifier::opaque]
    pub open spec fn format_end(self, tag: TagKind, start: usize, end: usize) -> Self {
        StateView {
            last_position: spec_last_visible(self.input, end),
            ..self.end_tag(tag, start, end).check_needs_indent(EventKind::End(tag))
        }
    }

    /// The state after the event `event`, read from `start..end` of the
    /// source, was taken in.
    #[verifier::opaque]
    pub open spec fn format_one_event(self, event: MdEventView, start: usize, end: usize) -> Self {
        match event {
            MdEventView::Start(tag) => self.format_start(tag, start, end),
            MdEventView::End(tag) => self.format_end(tag, start, end),
            MdEventView::Text(parsed_text) => self.format_text(parsed_text, start, end),
            MdEventView::DisplayMath(parsed_text) => self.format_display_math(parsed_text, end),
            MdEventView::Code => self.write_source(start, end),
            MdEventView::Html => self.write_source(start, end),
            MdEventView::SoftBreak => self.format_soft_break(start, end),
            MdEventView::HardBreak => self.write_source(start, end),
            MdEventView::InlineHtml => self.format_inline(EventKind::InlineHtml, start, end),
            MdEventView::InlineMath => self.format_inline(EventKind::InlineMath, start, end),
            MdEventView::Rule => self.format_rule(start, end),
            MdEventView::FootnoteReference(label) => self.format_footnote_reference(label, end),
            MdEventView::TaskListMarker(done) => self.format_task_list_marker(done, end),
        }
    }
}

impl<E: ExternalFormatter> FormatState<E> {
    fn is_next_link_end(&self) -> (r: bool)
        ensures
            r == self@.is_next_link_end(),
    {
        match self.peek() {
            Some(next) => next.kind == EventKind::End(TagKind::Link) || next.kind == EventKind::End(
                TagKind::Image,
            ),
            None => false,
        }
    }

    fn source_text(&self, parsed_text: &[char], start: usize, end: usize) -> (r: Vec<char>)
        ensures
            r@ == self@.source_text(parsed_text@, start, end),
    {
        reveal(StateView::<_>::source_text);
        let text_from_source = span(self.input.as_slice(), start, end);
        let mut text = if text_from_source.len() == 0 {
            // This seems to happen when the parsed text is whitespace only.
            // To preserve leading whitespace outside of HTML blocks,
            // use the parsed text instead.
            parsed_text
        } else {
            text_from_source
        };
        if self.in_link_or_image() && self.trim_link_or_image_start {
            // Trim leading whitespace from reference links or images
            text = crate::text::trim_start(text);
        }
        if self.is_next_link_end() {
            text = trim_end(text);
        }
        to_vec(text)
    }

    fn write_escaped(&mut self, text: &[char], start: usize)
        ensures
            final(self)@ == old(self)@.write_escaped(text@, start),
    {
        reveal(StateView::<_>::write_escaped);
        let starts_with_escape = 0 < start && start <= self.input.len() && self.input[start - 1]
            == '\\';
        if starts_with_escape || self.needs_escape(text) {
            // recover escape characters
            self.write_literal("\\");
            self.write_str(text);
        } else {
            self.write_str(text);
        }
    }

    fn format_text(&mut self, parsed_text: &[char], start: usize, end: usize)
        ensures
            final(self)@ == old(self)@.format_text(parsed_text@, start, end),
    {
        reveal(StateView::<_>::format_text);
        let last_position = last_visible(self.input.as_slice(), end);
        let external = match &self.external_formatter {
            Some(f) => f.context() != crate::external_formatter::FormattingContext::Paragraph,
            None => false,
        };
        if external {
            // External formatting. Write the text as is.
            self.write_str(parsed_text);
            self.last_position = last_position;
        } else {
            let newlines = self.count_newlines(start, end);
            let text = self.source_text(parsed_text, start, end);
            if self.in_link_or_image() && self.trim_link_or_image_start {
                // Make sure we only trim leading whitespace once
                self.trim_link_or_image_start = false;
            }
            if self.needs_indent {
                self.write_newlines(newlines);
            }
            self.write_escaped(text.as_slice(), start);
            self.check_needs_indent(EventKind::Text);
            self.last_position = end;
        }
    }

    fn format_display_math(&mut self, parsed_text: &[char], end: usize)
        ensures
            final(self)@ == old(self)@.format_display_math(parsed_text@, end),
    {
        reveal(StateView::<_>::format_display_math);
        let last_position = last_visible(self.input.as_slice(), end);
        self.flush_external_formatted(false);
        self.write_literal("$$");
        self.new_external_formatted(BufferType::DisplayMath, parsed_text.len());
        self.write_str(parsed_text);
        self.flush_external_formatted(false);
        self.write_indentation_if_needed();
        self.write_literal("$$");
        self.last_position = last_position;
    }

    fn write_source(&mut self, start: usize, end: usize)
        ensures
            final(self)@ == old(self)@.write_source(start, end),
    {
        reveal(StateView::<_>::write_source);
        let last_position = last_visible(self.input.as_slice(), end);
        let text = to_vec(span(self.input.as_slice(), start, end));
        self.write_str(text.as_slice());
        self.last_position = last_position;
    }

    fn format_soft_break(&mut self, start: usize, end: usize)
        ensures
            final(self)@ == old(self)@.format_soft_break(start, end),
    {
        reveal(StateView::<_>::format_soft_break);
        if self.in_link_or_image() {
            let next_is_end = self.is_next_link_end();
            if self.trim_link_or_image_start || next_is_end {
                self.trim_link_or_image_start = false;
            } else {
                self.write_literal(" ");
            }
        } else {
            let text = to_vec(span(self.input.as_slice(), start, end));
            self.write_str(text.as_slice());
            // paragraphs write their indentation after reformatting the text
            if !self.in_paragraph() {
                self.write_indentation(false);
            }
            self.last_was_softbreak = true;
        }
        self.last_position = end;
    }

    fn format_inline(&mut self, kind: EventKind, start: usize, end: usize)
        ensures
            final(self)@ == old(self)@.format_inline(kind, start, end),
    {
        reveal(StateView::<_>::format_inline);
        let last_position = last_visible(self.input.as_slice(), end);
        let newlines = self.count_newlines(start, end);
        if self.needs_indent {
            self.write_newlines(newlines);
        }
        let text = to_vec(
            trim_end_matches(span(self.input.as_slice(), start, end), CharSet::Just('\n')),
        );
        self.write_str(text.as_slice());
        self.check_needs_indent(kind);
        self.last_position = last_position;
    }

    fn format_rule(&mut self, start: usize, end: usize)
        ensures
            final(self)@ == old(self)@.format_rule(start, end),
    {
        reveal(StateView::<_>::format_rule);
        let last_position = last_visible(self.input.as_slice(), end);
        let newlines = self.count_newlines(start, end);
        self.write_newlines(newlines);
        let text = to_vec(span(self.input.as_slice(), start, end));
        self.write_str(text.as_slice());
        self.check_needs_indent(EventKind::Rule);
        self.last_position = last_position;
    }

    fn format_footnote_reference(&mut self, label: &[char], end: usize)
        ensures
            final(self)@ == old(self)@.format_footnote_reference(label@, end),
    {
        reveal(StateView::<_>::format_footnote_reference);
        let last_position = last_visible(self.input.as_slice(), end);
        self.write_literal("[^");
        self.write_str(label);
        self.write_literal("]");
        self.last_position = last_position;
    }

    fn format_task_list_marker(&mut self, done: bool, end: usize)
        ensures
            final(self)@ == old(self)@.format_task_list_marker(done, end),
    {
        reveal(StateView::<_>::format_task_list_marker);
        let last_position = last_visible(self.input.as_slice(), end);
        if done {
            self.write_literal("[x] ");
        } else {
            self.write_literal("[ ] ");
        }
        self.last_position = last_position;
    }

    fn format_start(&mut self, tag: MdTag, start: usize, end: usize)
        ensures
            final(self)@ == old(self)@.format_start(tag@, start, end),
    {
        reveal(StateView::<_>::format_start);
        self.rewrite_reference_link_definitions(start);
        self.start_tag(tag, start, end);
        self.last_position = start;
    }

    fn format_end(&mut self, tag: TagKind, start: usize, end: usize)
        ensures
            final(self)@ == old(self)@.format_end(tag, start, end),
    {
        reveal(StateView::<_>::format_end);
        let last_position = last_visible(self.input.as_slice(), end);
        self.end_tag(tag, start, end);
        self.check_needs_indent(EventKind::End(tag));
        self.last_position = last_position;
    }

    pub fn format_one_event(&mut self, event: MdEvent, start: usize, end: usize)
        ensures
            final(self)@ == old(self)@.format_one_event(event@, start, end),
    {
        reveal(StateView::<_>::format_one_event);
        match event {
            MdEvent::Start(tag) => self.format_start(tag, start, end),
            MdEvent::End(tag) => self.format_end(tag, start, end),
            MdEvent::Text(parsed_text) => self.format_text(parsed_text.as_slice(), start, end),
            MdEvent::DisplayMath(parsed_text) => self.format_display_math(
                parsed_text.as_slice(),
                end,
            ),
            MdEvent::Code => self.write_source(start, end),
            MdEvent::Html => self.write_source(start, end),
            MdEvent::SoftBreak => self.format_soft_break(start, end),
            MdEvent::HardBreak => self.write_source(start, end),
            MdEvent::InlineHtml => self.format_inline(EventKind::InlineHtml, start, end),
            MdEvent::InlineMath => self.format_inline(EventKind::InlineMath, start, end),
            MdEvent::Rule => self.format_rule(start, end),
            MdEvent::FootnoteReference(label) => self.format_footnote_reference(
                label.as_slice(),
                end,
            ),
            MdEvent::TaskListMarker(done) => self.format_task_list_marker(done, end),
        }
    }
}

} // verus!

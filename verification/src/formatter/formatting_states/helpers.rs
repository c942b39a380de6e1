//! What the steps of a formatting run are made of.
use vstd::prelude::*;
use crate::events::{
    definition_views, CodeBlockKind, CodeBlockKindView, EventKind, MetadataBlockKind,
    ReferenceLinkDefinition, ReferenceLinkDefinitionView, SourceEvent, MdTag, TagKind, MdTagView,
};
use crate::external_formatter::{
    BufferType, BufferTypeView, ExternalFormatter, FormattingContext,
};
use crate::links::{format_link_url, spec_format_link_url, title_view};
use crate::formatter::formatting_states::{FormatError, FormatState, Route, StateView, Upcoming};
use crate::text::{
    all, chars_of, count_newlines, line_end, longer_than, push_all, scan, scan_back, span, spec_all,
    spec_byte_len, spec_count_newlines, spec_line_end, spec_scan, spec_scan_back, spec_span, spec_trim,
    spec_trim_end, spec_trim_end_matches, spec_trim_start_matches, string_of, texts, to_vec, trim,
    trim_end, trim_end_matches, trim_start_matches, CharSet,
};

verus! {

/// Whether an element that closes with `end` is open.
pub open spec fn spec_has_tag(stack: Seq<MdTagView>, end: TagKind, n: int) -> bool
    decreases n,
{
    if n <= 0 || n > stack.len() {
        false
    } else {
        stack[n - 1].spec_to_end() == end || spec_has_tag(stack, end, n - 1)
    }
}

/// How many characters the first `n` texts of `list` hold together.
pub open spec fn spec_total_len(list: Seq<Seq<char>>, n: int) -> nat
    decreases n,
{
    if n <= 0 || n > list.len() {
        0
    } else {
        spec_total_len(list, n - 1) + list[n - 1].len()
    }
}

/// The index of the last of the first `n` indentations that is more than
/// white space; -1 where there is none.
pub open spec fn spec_last_non_blank(indentation: Seq<Seq<char>>, n: int) -> int
    decreases n,
{
    if n <= 0 || n > indentation.len() {
        -1
    } else if !spec_all(indentation[n - 1], CharSet::Whitespace) {
        n - 1
    } else {
        spec_last_non_blank(indentation, n - 1)
    }
}

/// How many line feeds `buffer` ends with.
pub open spec fn spec_trailing_newlines(buffer: Seq<char>) -> nat {
    (buffer.len() - spec_scan_back(buffer, CharSet::Just('\n'), false, buffer.len() as int)) as nat
}

/// Whether `buffer` stands at the start of a line: it is empty or ends with
/// a line feed.
pub open spec fn spec_at_line_start(buffer: Seq<char>) -> bool {
    buffer.len() == 0 || buffer.last() == '\n'
}

/// Whether `text`, standing at the start of a line, would be read as the
/// start of a block: an ATX heading, the underline of a setext heading, a
/// list item, a thematic break or a block quote. Texts of one or two bytes
/// are never taken so.
pub open spec fn spec_reads_as_block(text: Seq<char>) -> bool {
    if spec_byte_len(text, text.len() as int) <= 2 || text.len() == 0 {
        false
    } else {
        let first = text[0];
        let hashes = spec_scan(text, CharSet::Just('#'), false, 0);
        if first == '#' {
            hashes <= 6 && hashes < text.len() && text[hashes] == ' '
        } else if first == '=' {
            spec_all(spec_trim_end(text), CharSet::Just('='))
        } else if first == '-' {
            text[1] == ' ' || spec_all(spec_trim_end(text), CharSet::Just('-')) || spec_all(
                text,
                CharSet::Either('-', ' '),
            )
        } else if first == '_' {
            spec_all(text, CharSet::Either('_', ' '))
        } else if first == '*' {
            text[1] == ' ' || spec_all(text, CharSet::Either('*', ' '))
        } else if first == '+' {
            text[1] == ' '
        } else {
            first == '>'
        }
    }
}

pub fn reads_as_block(text: &[char]) -> (r: bool)
    ensures
        r == spec_reads_as_block(text@),
{
    if !longer_than(text, 2) || text.len() == 0 {
        return false;
    }
    let first = text[0];
    assert(first == '-' || first == '*' || first == '+' ==> text@.len() >= 2) by {
        if text@.len() == 1 {
            assert(spec_byte_len(text@, 1) == spec_byte_len(text@, 0) + crate::text::spec_utf8_len(
                text@[0],
            ));
        }
    }
    if first == '#' {
        let hashes = scan(text, CharSet::Just('#'), false, 0);
        hashes <= 6 && hashes < text.len() && text[hashes] == ' '
    } else if first == '=' {
        all(trim_end(text), CharSet::Just('='))
    } else if first == '-' {
        text[1] == ' ' || all(trim_end(text), CharSet::Just('-')) || all(
            text,
            CharSet::Either('-', ' '),
        )
    } else if first == '_' {
        all(text, CharSet::Either('_', ' '))
    } else if first == '*' {
        text[1] == ' ' || all(text, CharSet::Either('*', ' '))
    } else if first == '+' {
        text[1] == ' '
    } else {
        first == '>'
    }
}

impl<E: ExternalFormatter> StateView<E> {
    /// How wide the indentation is; `usize::MAX` where it is wider.
    pub open spec fn indentation_len(self) -> usize {
        let total = spec_total_len(self.indentation, self.indentation.len() as int);
        if total <= usize::MAX {
            total as usize
        } else {
            usize::MAX
        }
    }

    /// The width that is left for the text of a block: the configured
    /// width less the indentation.
    pub open spec fn formatter_width(self) -> Option<usize> {
        match self.config.max_width {
            Some(w) => Some(
                if w >= self.indentation_len() {
                    (w - self.indentation_len()) as usize
                } else {
                    0
                },
            ),
            None => None,
        }
    }

    /// Whether nothing has been written yet to where text goes.
    pub open spec fn is_current_buffer_empty(self) -> bool {
        if self.in_fenced_code_block() || self.in_indented_code_block() || self.in_html_block() {
            self.external matches Some(f) && E::spec_is_empty(f)
        } else if self.in_table_header() || self.in_table_row() {
            self.table matches Some(t) && t.is_empty()
        } else if self.external is Some {
            E::spec_is_empty(self.external->0)
        } else {
            self.rewrite_buffer.len() == 0
        }
    }

    /// How many line feeds the source holds between what was taken in last
    /// and the part `start..end`; where that part begins before, those from
    /// what was taken in last to its end, but for the ones it ends with.
    #[verifier::opaque]
    pub open spec fn count_newlines(self, start: usize, end: usize) -> nat {
        if self.last_position == start {
            0
        } else if self.last_position < start {
            spec_count_newlines(spec_span(self.input, self.last_position as int, start as int))
        } else {
            spec_count_newlines(
                spec_trim_end_matches(
                    spec_span(self.input, self.last_position as int, end as int),
                    CharSet::Just('\n'),
                ),
            )
        }
    }

    /// The state after the indentations `i..n` were written.
    pub open spec fn write_indents(self, i: int, n: int) -> Self
        decreases n - i,
    {
        if i < 0 || i >= n || i >= self.indentation.len() {
            self
        } else {
            self.write(self.indentation[i]).write_indents(i + 1, n)
        }
    }

    /// The state after the indentation was written. With
    /// `trim_trailing_whitespace`, it is written up to the last part that is
    /// more than white space, and that part without white space at either
    /// end; nothing is written where every part is white space.
    #[verifier::opaque]
    pub open spec fn write_indentation(self, trim_trailing_whitespace: bool) -> Self {
        if trim_trailing_whitespace {
            let p = spec_last_non_blank(self.indentation, self.indentation.len() as int);
            if p < 0 {
                self
            } else {
                let s = self.write_indents(0, p);
                s.write(spec_trim(self.indentation[p]))
            }
        } else {
            self.write_indents(0, self.indentation.len() as int)
        }
    }

    /// The state after the line feeds `i..total` were written, each with
    /// the indentation behind it where an element is open.
    pub open spec fn write_lines(self, i: nat, total: nat, nested: bool, always_trim: bool) -> Self
        decreases total - i,
    {
        if i >= total {
            self
        } else {
            let s = self.write(seq!['\n']);
            let s = if nested {
                s.write_indentation(i + 1 != total || always_trim)
            } else {
                s
            };
            s.write_lines(i + 1, total, nested, always_trim)
        }
    }

    /// The state after line feeds were written up to `max_newlines` at the
    /// end of the document, and the indentation behind them. Nothing is
    /// written while the current buffer is empty.
    #[verifier::opaque]
    pub open spec fn write_newlines_inner(
        self,
        max_newlines: nat,
        always_trim_trailing_whitespace: bool,
    ) -> Self {
        if self.is_current_buffer_empty() {
            self
        } else {
            let newlines = spec_trailing_newlines(self.rewrite_buffer);
            let nested = self.is_nested();
            let to_write = if max_newlines >= newlines {
                (max_newlines - newlines) as nat
            } else {
                0
            };
            let s = self.write_lines(0, to_write, nested, always_trim_trailing_whitespace);
            if !nested {
                s.write_indentation(self.is_next_end_event() || always_trim_trailing_whitespace)
            } else {
                s
            }
        }
    }

    pub open spec fn write_newlines(self, max_newlines: nat) -> Self {
        self.write_newlines_inner(max_newlines, false)
    }

    pub open spec fn write_newlines_no_trailing_whitespace(self, max_newlines: nat) -> Self {
        self.write_newlines_inner(max_newlines, true)
    }

    /// The state after the line feeds `i..n` were written.
    pub open spec fn write_line_feeds(self, i: nat, n: nat) -> Self
        decreases n - i,
    {
        if i >= n {
            self
        } else {
            self.write(seq!['\n']).write_line_feeds(i + 1, n)
        }
    }

    /// The state after the indentation was written, where the document
    /// stands at the start of a line.
    #[verifier::opaque]
    pub open spec fn write_indentation_if_needed(self) -> Self {
        if spec_at_line_start(self.rewrite_buffer) {
            self.write_indentation(false)
        } else {
            self
        }
    }

    #[verifier::opaque]
    pub open spec fn write_newlines_before_code_block(self, newlines: nat) -> Self {
        self.write_line_feeds(0, newlines).write_indentation_if_needed()
    }

    #[verifier::opaque]
    pub open spec fn write_newline_after_code_block(self, empty_code_block: bool) -> Self {
        let s = if !empty_code_block && !(self.rewrite_buffer.len() > 0
            && self.rewrite_buffer.last() == '\n') {
            self.write(seq!['\n'])
        } else {
            self
        };
        s.write_indentation(false)
    }

    /// Whether line feeds and indentation are due before the event that
    /// comes next, after an event of kind `event`.
    pub open spec fn next_needs_indent(self, event: EventKind) -> bool {
        match self.peek() {
            Some(next) => match next.kind {
                EventKind::Start { .. } => true,
                EventKind::Rule => true,
                EventKind::Html => true,
                EventKind::End(TagKind::Item) => true,
                EventKind::End(TagKind::BlockQuote) => event is End,
                EventKind::Text => event is End || event == (EventKind::Start {
                    tag: TagKind::Item,
                    indented: false,
                }),
                _ => event is Rule,
            },
            None => event is Rule,
        }
    }

    #[verifier::opaque]
    pub open spec fn check_needs_indent(self, event: EventKind) -> Self {
        StateView { needs_indent: self.next_needs_indent(event), ..self }
    }

    /// Whether `text` is written behind a backslash: where it follows a
    /// soft break and would be read as the start of a block.
    pub open spec fn needs_escape(self, text: Seq<char>) -> bool {
        self.last_was_softbreak && spec_reads_as_block(text)
    }
}

/// Whether `line` holds nothing but white space.
pub open spec fn spec_is_blank(line: Seq<char>) -> bool {
    spec_trim(line).len() == 0
}

/// The marker that the source begins with at `start`: the run of the
/// character that stands there. Where the run goes on to the end of the
/// source, the marker ends at `end`.
pub open spec fn spec_find_marker(input: Seq<char>, start: usize, end: usize) -> Seq<char> {
    if start >= input.len() {
        Seq::empty()
    } else {
        let stop = spec_scan(input, CharSet::Just(input[start as int]), false, start as int);
        spec_span(
            input,
            start as int,
            if stop < input.len() {
                stop
            } else {
                end as int
            },
        )
    }
}

/// Find some marker that denotes the start of a markdown construct.
/// for example, `**` for bold or `_` for italics.
pub fn find_marker<'i>(input: &'i [char], start: usize, end: usize) -> (r: &'i [char])
    ensures
        r@ == spec_find_marker(input@, start, end),
{
    if start >= input.len() {
        let r = vstd::slice::slice_subrange(input, 0, 0);
        assert(r@ =~= Seq::<char>::empty());
        return r;
    }
    let stop = scan(input, CharSet::Just(input[start]), false, start);
    span(
        input,
        start,
        if stop < input.len() {
            stop
        } else {
            end
        },
    )
}

/// The first `limit` characters of a marker, or all of it where it has
/// fewer or no limit is set.
pub open spec fn spec_limited(marker: Seq<char>, limit: Option<usize>) -> Seq<char> {
    match limit {
        Some(n) => if n < marker.len() {
            marker.take(n as int)
        } else {
            marker
        },
        None => marker,
    }
}

/// The classes of a heading as they stand in its attributes: each behind
/// a space and a dot. Here the first `n` of them.
pub open spec fn spec_header_classes(classes: Seq<Seq<char>>, n: int) -> Seq<char>
    decreases n,
{
    if n <= 0 || n > classes.len() {
        Seq::empty()
    } else {
        spec_header_classes(classes, n - 1) + seq![' ', '.'] + classes[n - 1]
    }
}

/// Rewrite a list of h1, h2, h3, h4, h5, h6 classes
pub fn rewirte_header_classes(classes: &Vec<Vec<char>>) -> (r: Vec<char>)
    ensures
        r@ == spec_header_classes(texts(classes@), classes@.len() as int),
{
    let mut result: Vec<char> = Vec::new();
    let mut i: usize = 0;
    while i < classes.len()
        invariant
            i <= classes@.len(),
            result@ == spec_header_classes(texts(classes@), i as int),
        decreases classes@.len() - i,
    {
        let ghost before = result@;
        result.push(' ');
        result.push('.');
        push_all(&mut result, classes[i].as_slice());
        assert(result@ =~= before + seq![' ', '.'] + classes@[i as int]@);
        i += 1;
    }
    result
}

/// The character that opens a title which `quote` closes.
pub open spec fn spec_title_opener_of(quote: char) -> char {
    if quote == ')' {
        '('
    } else {
        quote
    }
}

impl<E: ExternalFormatter> StateView<E> {
    /// The state after a link reference definition was written on a line
    /// of its own: `[label]: destination "title"`.
    #[verifier::opaque]
    pub open spec fn write_reference_link_definition_inner(
        self,
        label: Seq<char>,
        dest: Seq<char>,
        title: Option<(Seq<char>, char)>,
    ) -> Self {
        let s = self.write_newlines(1).write(seq!['[']).write(spec_trim(label)).write(
            seq![']', ':', ' '],
        ).write(spec_format_link_url(dest, true));
        match title {
            Some((text, quote)) => s.write(seq![' ']).write(seq![spec_title_opener_of(quote)]).write(
                text,
            ).write(seq![quote]),
            None => s,
        }
    }

    /// The state after those of the definitions `defs` were written that
    /// begin at or before `start`, the last of `defs` first, and the
    /// definitions that are left.
    pub open spec fn flush_definitions(
        self,
        defs: Seq<ReferenceLinkDefinitionView>,
        start: usize,
    ) -> (Self, Seq<ReferenceLinkDefinitionView>)
        decreases defs.len(),
    {
        if defs.len() == 0 || defs.last().start > start {
            (self, defs)
        } else {
            let d = defs.last();
            let s = self.write_newlines(self.count_newlines(d.start, d.end));
            let s = s.write_reference_link_definition_inner(d.label, d.destination, d.title);
            (StateView { last_position: d.end, needs_indent: true, ..s }).flush_definitions(
                defs.drop_last(),
                start,
            )
        }
    }

    /// The state after the link reference definitions that begin at or
    /// before `start` were written, in the order of the source.
    #[verifier::opaque]
    pub open spec fn rewrite_reference_link_definitions(self, start: usize) -> Self {
        if self.reference_links.len() == 0 {
            self
        } else {
            let (s, rest) = (StateView { reference_links: Seq::empty(), ..self }).flush_definitions(
                self.reference_links,
                start,
            );
            StateView { reference_links: rest, ..s }
        }
    }

    /// The state after all of `defs` were written, the last of `defs`
    /// first.
    pub open spec fn flush_all_definitions(self, defs: Seq<ReferenceLinkDefinitionView>) -> Self
        decreases defs.len(),
    {
        if defs.len() == 0 {
            self
        } else {
            let d = defs.last();
            let s = self.write_newlines(self.count_newlines(d.start, d.end));
            let s = s.write_reference_link_definition_inner(d.label, d.destination, d.title);
            (StateView { last_position: d.end, ..s }).flush_all_definitions(defs.drop_last())
        }
    }

    /// The state after the link reference definitions that are left were
    /// written, in the order of the source.
    #[verifier::opaque]
    pub open spec fn rewrite_final_reference_links(self) -> Self {
        (StateView { reference_links: Seq::empty(), ..self }).flush_all_definitions(
            self.reference_links,
        )
    }

    /// The state after the lines of `text` from `pos` on were written.
    pub open spec fn join_lines(
        self,
        text: Seq<char>,
        pos: int,
        start_with_indentation: bool,
        trim_last_newline: bool,
    ) -> Self
        decreases text.len() - pos,
    {
        if pos < 0 || pos >= text.len() {
            self
        } else {
            let end = spec_line_end(text, pos);
            let line = text.subrange(pos, end);
            let is_last = end >= text.len();
            let is_next_empty = !is_last && spec_is_blank(
                text.subrange(end, spec_line_end(text, end)),
            );
            let s = if start_with_indentation {
                self.write_indentation(spec_is_blank(line))
            } else {
                self
            };
            let s = if spec_is_blank(line) {
                s.write(spec_trim_start_matches(line, CharSet::Just(' ')))
            } else if is_last && trim_last_newline {
                s.write(spec_trim_end_matches(line, CharSet::Just('\n')))
            } else {
                s.write(line)
            };
            let s = if !is_last && !start_with_indentation {
                s.write_indentation(is_next_empty)
            } else {
                s
            };
            s.join_lines(text, end, start_with_indentation, trim_last_newline)
        }
    }

    /// The state after `buffer` was written to the document line by line:
    /// with the indentation in front of each line, or, without
    /// `start_with_indentation`, behind each line feed that is not the
    /// last; blank lines without trailing white space; and the last line
    /// without its line feed where `trim_last_newline` is set.
    #[verifier::opaque]
    pub open spec fn join_with_indentation(
        self,
        buffer: Seq<char>,
        start_with_indentation: bool,
        trim_last_newline: bool,
    ) -> Self {
        let s = (StateView { force_rewrite_buffer: true, ..self }).join_lines(
            buffer,
            0,
            start_with_indentation,
            trim_last_newline,
        );
        StateView { force_rewrite_buffer: false, ..s }
    }

    /// The state after the open formatter, where there is one, was closed
    /// and its text written to the document. In front of the text of a code
    /// block, an HTML block or display math a line feed is written, unless
    /// the document is empty or ends with a line feed, a space or `$`.
    #[verifier::opaque]
    pub open spec fn flush_external_formatted(self, trim_last_newline: bool) -> Self {
        match self.external {
            None => self,
            Some(f) => {
                let s = StateView { external: None, ..self };
                let external = E::spec_context(f) != FormattingContext::Paragraph;
                let s = if external && s.rewrite_buffer.len() > 0 && s.rewrite_buffer.last() != '\n'
                    && s.rewrite_buffer.last() != ' ' && s.rewrite_buffer.last() != '$' {
                    s.write(seq!['\n'])
                } else {
                    s
                };
                s.join_with_indentation(
                    E::spec_into_buffer(f),
                    s.needs_indent && external,
                    trim_last_newline,
                )
            },
        }
    }

    /// The state after a formatter for `buffer_type` was opened, and the
    /// one that was open before closed.
    #[verifier::opaque]
    pub open spec fn new_external_formatted(self, buffer_type: BufferTypeView) -> Self {
        let s = self.flush_external_formatted(true);
        StateView { external: Some(E::spec_new(buffer_type, s.formatter_width())), ..s }
    }

    /// The state after the marker at `start` was written, cut to `limit`
    /// characters.
    #[verifier::opaque]
    pub open spec fn rewrite_marker_with_limit(
        self,
        start: usize,
        end: usize,
        limit: Option<usize>,
    ) -> Self {
        self.write(spec_limited(spec_find_marker(self.input, start, end), limit))
    }

    pub open spec fn rewrite_marker(self, start: usize, end: usize) -> Self {
        self.rewrite_marker_with_limit(start, end, None)
    }

    /// The state after the marker of emphasis was written: the configured
    /// one, or the first character of the one in the source.
    #[verifier::opaque]
    pub open spec fn write_emphasis_marker(self, start: usize, end: usize) -> Self {
        match self.config.fixed_emphasis_marker {
            None => self.rewrite_marker_with_limit(start, end, Some(1usize)),
            Some(marker) => self.write(marker@),
        }
    }

    /// The state after the marker of strong emphasis was written: the
    /// configured one, or the first two characters of the one in the source.
    #[verifier::opaque]
    pub open spec fn write_strong_marker(self, start: usize, end: usize) -> Self {
        match self.config.fixed_strong_marker {
            None => self.rewrite_marker_with_limit(start, end, Some(2usize)),
            Some(marker) => self.write(marker@),
        }
    }

    /// The state after the separator of a metadata block was written,
    /// behind the line feeds of the source in front of it. The separator
    /// that opens the block has a line feed behind it; the one that closes
    /// it has none of its own, so that a document which ends with its
    /// metadata block ends as the source does.
    #[verifier::opaque]
    pub open spec fn write_metadata_block_separator(
        self,
        kind: MetadataBlockKind,
        closes: bool,
        start: usize,
        end: usize,
    ) -> Self {
        let s = self.write_newlines(self.count_newlines(start, end));
        let marker = match kind {
            MetadataBlockKind::YamlStyle => seq!['-', '-', '-'],
            MetadataBlockKind::PlusesStyle => seq!['+', '+', '+'],
        };
        if closes {
            s.write(marker)
        } else {
            s.write(marker).write(seq!['\n'])
        }
    }
}

impl<E: ExternalFormatter> StateView<E> {
    /// The state with `error` noted, unless a failure was noted before.
    pub open spec fn fail(self, error: FormatError) -> Self {
        if self.error is None {
            StateView { error: Some(error), ..self }
        } else {
            self
        }
    }

    /// The event that comes next.
    pub open spec fn peek(self) -> Option<Upcoming> {
        if self.events.len() > 0 {
            Some(Upcoming { kind: self.events[0].event.spec_kind(), start: self.events[0].start })
        } else {
            None
        }
    }

    pub open spec fn is_next_end_event(self) -> bool {
        self.peek() matches Some(next) && next.kind is End
    }

    pub open spec fn in_fenced_code_block(self) -> bool {
        self.nested_context.len() > 0 && self.nested_context.last() matches MdTagView::CodeBlock(
            CodeBlockKindView::Fenced(_),
        )
    }

    pub open spec fn in_indented_code_block(self) -> bool {
        self.nested_context.len() > 0 && self.nested_context.last() matches MdTagView::CodeBlock(
            CodeBlockKindView::Indented,
        )
    }

    pub open spec fn in_html_block(self) -> bool {
        self.external matches Some(f) && E::spec_context(f) == FormattingContext::HtmlBlock
    }

    pub open spec fn in_table_header(self) -> bool {
        spec_has_tag(self.nested_context, TagKind::TableHead, self.nested_context.len() as int)
    }

    pub open spec fn in_table_row(self) -> bool {
        spec_has_tag(self.nested_context, TagKind::TableRow, self.nested_context.len() as int)
    }

    pub open spec fn in_link_or_image(self) -> bool {
        self.nested_context.len() > 0 && (self.nested_context.last() is Link
            || self.nested_context.last() is Image)
    }

    /// Whether a paragraph is being written. No paragraph need be among the
    /// open elements for that.
    pub open spec fn in_paragraph(self) -> bool {
        self.external matches Some(f) && E::spec_context(f) == FormattingContext::Paragraph
    }

    pub open spec fn is_nested(self) -> bool {
        self.nested_context.len() > 0
    }

    /// Where text that is written goes: to the document while that is
    /// forced; else to the open formatter inside a code block or an HTML
    /// block; else to the open table inside a table row; else to the open
    /// formatter, where one is open; else to the document.
    pub open spec fn route(self) -> Route {
        if self.force_rewrite_buffer {
            Route::Rewrite
        } else if self.in_fenced_code_block() || self.in_indented_code_block() {
            if self.external is Some {
                Route::External
            } else {
                Route::Nowhere
            }
        } else if self.in_html_block() {
            Route::External
        } else if self.in_table_header() || self.in_table_row() {
            if self.table is Some {
                Route::Table
            } else {
                Route::Nowhere
            }
        } else if self.external is Some {
            Route::External
        } else {
            Route::Rewrite
        }
    }

    /// The state after `text` was written. A formatter that refuses the
    /// text fails the run.
    #[verifier::opaque]
    pub open spec fn write(self, text: Seq<char>) -> Self {
        match self.route() {
            Route::Rewrite => StateView { rewrite_buffer: self.rewrite_buffer + text, ..self },
            Route::External => if E::spec_rejects(self.external->0, text) {
                self.fail(FormatError::WriteFailure)
            } else {
                StateView { external: Some(E::spec_write(self.external->0, text)), ..self }
            },
            Route::Table => StateView { table: Some(self.table->0.write(text)), ..self },
            Route::Nowhere => self,
        }
    }
}

fn has_tag(stack: &Vec<MdTag>, end: TagKind) -> (r: bool)
    ensures
        r == spec_has_tag(crate::events::tag_views(stack@), end, stack@.len() as int),
{
    let mut i: usize = stack.len();
    while i > 0
        invariant
            i <= stack@.len(),
            spec_has_tag(crate::events::tag_views(stack@), end, stack@.len() as int)
                == spec_has_tag(crate::events::tag_views(stack@), end, i as int),
        decreases i,
    {
        if stack[i - 1].to_end() == end {
            return true;
        }
        i -= 1;
    }
    false
}

impl<E: ExternalFormatter> FormatState<E> {
    /// Notes a failure of the run; the first one stays.
    pub fn fail(&mut self, error: FormatError)
        ensures
            final(self)@ == old(self)@.fail(error),
    {
        if self.error.is_none() {
            self.error = Some(error);
        }
    }

    /// Peek at the next event: its kind and where its part of the source
    /// begins.
    pub fn peek(&self) -> (r: Option<Upcoming>)
        ensures
            r == self@.peek(),
    {
        if self.events.len() > 0 {
            let next: &SourceEvent = &self.events[0];
            Some(Upcoming { kind: next.event.kind(), start: next.start })
        } else {
            None
        }
    }

    /// Check if the next event is an `MdEvent::End`
    pub fn is_next_end_event(&self) -> (r: bool)
        ensures
            r == self@.is_next_end_event(),
    {
        match self.peek() {
            Some(Upcoming { kind: EventKind::End(_), .. }) => true,
            _ => false,
        }
    }

    /// Check if we're formatting a fenced code block
    pub fn in_fenced_code_block(&self) -> (r: bool)
        ensures
            r == self@.in_fenced_code_block(),
    {
        let n = self.nested_context.len();
        if n == 0 {
            return false;
        }
        match &self.nested_context[n - 1] {
            MdTag::CodeBlock(CodeBlockKind::Fenced(_)) => true,
            _ => false,
        }
    }

    /// Check if we're formatting an indented code block
    pub fn in_indented_code_block(&self) -> (r: bool)
        ensures
            r == self@.in_indented_code_block(),
    {
        let n = self.nested_context.len();
        if n == 0 {
            return false;
        }
        match &self.nested_context[n - 1] {
            MdTag::CodeBlock(CodeBlockKind::Indented) => true,
            _ => false,
        }
    }

    /// Check if we're in an HTML block.
    pub fn in_html_block(&self) -> (r: bool)
        ensures
            r == self@.in_html_block(),
    {
        match &self.external_formatter {
            Some(f) => f.context() == FormattingContext::HtmlBlock,
            None => false,
        }
    }

    // check if we're formatting a table header
    pub fn in_table_header(&self) -> (r: bool)
        ensures
            r == self@.in_table_header(),
    {
        has_tag(&self.nested_context, TagKind::TableHead)
    }

    // check if we're formatting a table row
    pub fn in_table_row(&self) -> (r: bool)
        ensures
            r == self@.in_table_row(),
    {
        has_tag(&self.nested_context, TagKind::TableRow)
    }

    /// Check if we're formatting a link
    pub fn in_link_or_image(&self) -> (r: bool)
        ensures
            r == self@.in_link_or_image(),
    {
        let n = self.nested_context.len();
        if n == 0 {
            return false;
        }
        match &self.nested_context[n - 1] {
            MdTag::Link { .. } => true,
            MdTag::Image { .. } => true,
            _ => false,
        }
    }

    /// Check if we're in a "paragraph". A `Paragraph` might not necessarily be on the
    /// nested_context stack.
    pub fn in_paragraph(&self) -> (r: bool)
        ensures
            r == self@.in_paragraph(),
    {
        match &self.external_formatter {
            Some(f) => f.context() == FormattingContext::Paragraph,
            None => false,
        }
    }

    /// Check if we're formatting in a nested context
    pub fn is_nested(&self) -> (r: bool)
        ensures
            r == self@.is_nested(),
    {
        self.nested_context.len() > 0
    }

    /// Which buffer is written to: the main rewrite buffer, the buffer of
    /// the open formatter, or the table that is open.
    pub fn current_buffer(&self) -> (r: Route)
        ensures
            r == self@.route(),
    {
        if self.force_rewrite_buffer {
            Route::Rewrite
        } else if self.in_fenced_code_block() || self.in_indented_code_block() {
            if self.external_formatter.is_some() {
                Route::External
            } else {
                Route::Nowhere
            }
        } else if self.in_html_block() {
            Route::External
        } else if self.in_table_header() || self.in_table_row() {
            if self.table_state.is_some() {
                Route::Table
            } else {
                Route::Nowhere
            }
        } else if self.external_formatter.is_some() {
            Route::External
        } else {
            Route::Rewrite
        }
    }

    /// Get the length of the indentation
    pub fn indentation_len(&self) -> (r: usize)
        ensures
            r == self@.indentation_len(),
    {
        let mut total: usize = 0;
        let mut i: usize = 0;
        while i < self.indentation.len()
            invariant
                i <= self.indentation@.len(),
                total == if spec_total_len(self@.indentation, i as int) <= usize::MAX {
                    spec_total_len(self@.indentation, i as int) as usize
                } else {
                    usize::MAX
                },
            decreases self.indentation@.len() - i,
        {
            total = total.saturating_add(self.indentation[i].len());
            i += 1;
        }
        total
    }

    pub fn formatter_width(&self) -> (r: Option<usize>)
        ensures
            r == self@.formatter_width(),
    {
        match self.config.max_width {
            Some(w) => Some(w.saturating_sub(self.indentation_len())),
            None => None,
        }
    }

    /// Check if the current buffer we're writing to is empty
    pub fn is_current_buffer_empty(&self) -> (r: bool)
        ensures
            r == self@.is_current_buffer_empty(),
    {
        if self.in_fenced_code_block() || self.in_indented_code_block() || self.in_html_block() {
            match &self.external_formatter {
                Some(f) => f.is_empty(),
                None => false,
            }
        } else if self.in_table_header() || self.in_table_row() {
            match &self.table_state {
                Some(t) => t.is_empty(),
                None => false,
            }
        } else {
            match &self.external_formatter {
                Some(f) => f.is_empty(),
                None => self.rewrite_buffer.len() == 0,
            }
        }
    }

    pub fn count_newlines(&self, start: usize, end: usize) -> (r: usize)
        ensures
            r == self@.count_newlines(start, end),
    {
        reveal(StateView::<_>::count_newlines);
        if self.last_position == start {
            return 0;
        }
        let snippet = if self.last_position < start {
            // between two markdown events
            span(self.input.as_slice(), self.last_position, start)
        } else {
            // likely in some nested context
            trim_end_matches(
                span(self.input.as_slice(), self.last_position, end),
                CharSet::Just('\n'),
            )
        };
        count_newlines(snippet)
    }

    pub fn write_indentation(&mut self, trim_trailing_whitespace: bool)
        ensures
            final(self)@ == old(self)@.write_indentation(trim_trailing_whitespace),
    {
        reveal(StateView::<_>::write_indentation);
        reveal(StateView::<_>::write);
        let n = self.indentation.len();
        let position = if trim_trailing_whitespace {
            let mut p: usize = n;
            while p > 0 && all(self.indentation[p - 1].as_slice(), CharSet::Whitespace)
                invariant
                    p <= n == self.indentation@.len(),
                    spec_last_non_blank(self@.indentation, n as int) == spec_last_non_blank(
                        self@.indentation,
                        p as int,
                    ),
                decreases p,
            {
                p -= 1;
            }
            if p == 0 {
                // All indents are just whitespace. We don't want to push blank lines
                return ;
            }
            p - 1
        } else {
            n
        };
        let mut i: usize = 0;
        while i < position
            invariant
                i <= position <= n == self.indentation@.len(),
                self@.indentation == old(self)@.indentation,
                old(self)@.write_indents(0, position as int) == self@.write_indents(
                    i as int,
                    position as int,
                ),
            decreases position - i,
        {
            proof {
                reveal(StateView::<_>::write);
            }
            let indent = to_vec(self.indentation[i].as_slice());
            self.write_str(indent.as_slice());
            i += 1;
        }
        if trim_trailing_whitespace {
            let indent = to_vec(trim(self.indentation[position].as_slice()));
            self.write_str(indent.as_slice());
        }
    }

    pub fn write_newlines(&mut self, max_newlines: usize)
        ensures
            final(self)@ == old(self)@.write_newlines(max_newlines as nat),
    {
        self.write_newlines_inner(max_newlines, false)
    }

    pub fn write_newlines_no_trailing_whitespace(&mut self, max_newlines: usize)
        ensures
            final(self)@ == old(self)@.write_newlines_no_trailing_whitespace(max_newlines as nat),
    {
        self.write_newlines_inner(max_newlines, true)
    }

    pub fn write_newlines_inner(
        &mut self,
        max_newlines: usize,
        always_trim_trailing_whitespace: bool,
    )
        ensures
            final(self)@ == old(self)@.write_newlines_inner(
                max_newlines as nat,
                always_trim_trailing_whitespace,
            ),
    {
        reveal(StateView::<_>::write_newlines_inner);
        if self.is_current_buffer_empty() {
            return ;
        }
        let len = self.rewrite_buffer.len();
        let newlines = len - scan_back(
            self.rewrite_buffer.as_slice(),
            CharSet::Just('\n'),
            false,
            len,
        );
        let nested = self.is_nested();
        let newlines_to_write = max_newlines.saturating_sub(newlines);
        let next_is_end_event = self.is_next_end_event();
        let line_feed = vec!['\n'];
        assert(line_feed@ =~= seq!['\n']);
        let mut i: usize = 0;
        while i < newlines_to_write
            invariant
                i <= newlines_to_write,
                line_feed@ == seq!['\n'],
                old(self)@.write_lines(
                    0,
                    newlines_to_write as nat,
                    nested,
                    always_trim_trailing_whitespace,
                ) == self@.write_lines(
                    i as nat,
                    newlines_to_write as nat,
                    nested,
                    always_trim_trailing_whitespace,
                ),
            decreases newlines_to_write - i,
        {
            let is_last = i == newlines_to_write - 1;
            self.write_str(line_feed.as_slice());
            if nested {
                self.write_indentation(!is_last || always_trim_trailing_whitespace);
            }
            i += 1;
        }
        if !nested {
            self.write_indentation(next_is_end_event || always_trim_trailing_whitespace);
        }
    }

    pub fn write_newlines_before_code_block(&mut self, newlines: usize) -> (r: bool)
        ensures
            final(self)@ == old(self)@.write_newlines_before_code_block(newlines as nat),
            r == spec_at_line_start(
                old(self)@.write_line_feeds(0, newlines as nat).rewrite_buffer,
            ),
    {
        reveal(StateView::<_>::write_newlines_before_code_block);
        let line_feed = vec!['\n'];
        assert(line_feed@ =~= seq!['\n']);
        let mut i: usize = 0;
        while i < newlines
            invariant
                i <= newlines,
                line_feed@ == seq!['\n'],
                old(self)@.write_line_feeds(0, newlines as nat) == self@.write_line_feeds(
                    i as nat,
                    newlines as nat,
                ),
            decreases newlines - i,
        {
            self.write_str(line_feed.as_slice());
            i += 1;
        }
        self.write_indentation_if_needed()
    }

    pub fn write_newline_after_code_block(&mut self, empty_code_block: bool)
        ensures
            final(self)@ == old(self)@.write_newline_after_code_block(empty_code_block),
    {
        reveal(StateView::<_>::write_newline_after_code_block);
        let n = self.rewrite_buffer.len();
        if !empty_code_block && !(n > 0 && self.rewrite_buffer[n - 1] == '\n') {
            let line_feed = vec!['\n'];
            assert(line_feed@ =~= seq!['\n']);
            self.write_str(line_feed.as_slice());
        }
        self.write_indentation(false)
    }

    pub fn write_indentation_if_needed(&mut self) -> (r: bool)
        ensures
            final(self)@ == old(self)@.write_indentation_if_needed(),
            r == spec_at_line_start(old(self)@.rewrite_buffer),
    {
        reveal(StateView::<_>::write_indentation_if_needed);
        let n = self.rewrite_buffer.len();
        if n == 0 || self.rewrite_buffer[n - 1] == '\n' {
            self.write_indentation(false);
            true
        } else {
            false
        }
    }

    /// Check if we should write newlines and indentation before the next event
    pub fn check_needs_indent(&mut self, event: EventKind)
        ensures
            final(self)@ == old(self)@.check_needs_indent(event),
    {
        reveal(StateView::<_>::check_needs_indent);
        let after_end = match event {
            EventKind::End(_) => true,
            _ => false,
        };
        let after_rule = match event {
            EventKind::Rule => true,
            _ => false,
        };
        self.needs_indent = match self.peek() {
            Some(next) => match next.kind {
                EventKind::Start { .. } => true,
                EventKind::Rule => true,
                EventKind::Html => true,
                EventKind::End(TagKind::Item) => true,
                EventKind::End(TagKind::BlockQuote) => after_end,
                EventKind::Text => after_end || event == (EventKind::Start {
                    tag: TagKind::Item,
                    indented: false,
                }),
                _ => after_rule,
            },
            None => after_rule,
        };
    }

    /// Whether `text` must be written behind a backslash. The soft break
    /// that came last is taken note of only once.
    pub fn needs_escape(&mut self, text: &[char]) -> (r: bool)
        ensures
            r == old(self)@.needs_escape(text@),
            final(self)@ == (StateView { last_was_softbreak: false, ..old(self)@ }),
    {
        if !self.last_was_softbreak {
            // We _should_ only need to escape after a softbreak since the markdown formatter will
            // adjust the indentation.
            return false;
        }
        self.last_was_softbreak = false;
        reads_as_block(text)
    }

    /// Writes the one character `c`.
    pub fn write_char(&mut self, c: char)
        ensures
            final(self)@ == old(self)@.write(seq![c]),
    {
        let text = vec![c];
        assert(text@ =~= seq![c]);
        self.write_str(text.as_slice());
    }

    pub fn write_reference_link_definition_inner(
        &mut self,
        label: &[char],
        dest: &[char],
        title: &Option<(Vec<char>, char)>,
    )
        ensures
            final(self)@ == old(self)@.write_reference_link_definition_inner(
                label@,
                dest@,
                title_view(*title),
            ),
    {
        reveal(StateView::<_>::write_reference_link_definition_inner);
        // empty links can be specified with <>
        let dest = format_link_url(dest, true);
        self.write_newlines(1);
        self.write_char('[');
        self.write_str(trim(label));
        let colon = vec![']', ':', ' '];
        assert(colon@ =~= seq![']', ':', ' ']);
        self.write_str(colon.as_slice());
        self.write_str(dest.as_slice());
        match title {
            Some((text, quote)) => {
                self.write_char(' ');
                self.write_char(
                    if *quote == ')' {
                        '('
                    } else {
                        *quote
                    },
                );
                self.write_str(text.as_slice());
                self.write_char(*quote);
            },
            None => {},
        }
    }

    pub fn rewrite_reference_link_definitions(&mut self, start: usize)
        ensures
            final(self)@ == old(self)@.rewrite_reference_link_definitions(start),
    {
        reveal(StateView::<_>::rewrite_reference_link_definitions);
        if self.reference_links.len() == 0 {
            return ;
        }
        // take the definitions out, so that the state can be written to
        let mut reference_links: Vec<ReferenceLinkDefinition> = Vec::new();
        core::mem::swap(&mut self.reference_links, &mut reference_links);
        let ghost taken = self@;
        let ghost all = definition_views(reference_links@);
        assert(taken.reference_links =~= Seq::empty());
        assert(taken == (StateView { reference_links: Seq::empty(), ..old(self)@ }));
        while reference_links.len() > 0 && reference_links[reference_links.len() - 1].start
            <= start
            invariant
                taken.flush_definitions(all, start) == self@.flush_definitions(
                    definition_views(reference_links@),
                    start,
                ),
            decreases reference_links@.len(),
        {
            let ghost before = reference_links@;
            let definition = reference_links.pop().unwrap();
            assert(definition_views(reference_links@) =~= definition_views(before).drop_last());
            assert(definition@ == definition_views(before).last());
            let newlines = self.count_newlines(definition.start, definition.end);
            self.write_newlines(newlines);
            self.write_reference_link_definition_inner(
                definition.label.as_slice(),
                definition.destination.as_slice(),
                &definition.title,
            );
            self.last_position = definition.end;
            self.needs_indent = true;
        }
        // put the reference_links back
        self.reference_links = reference_links;
    }

    /// Write out reference links at the end of the file
    pub fn rewrite_final_reference_links(&mut self)
        ensures
            final(self)@ == old(self)@.rewrite_final_reference_links(),
    {
        reveal(StateView::<_>::rewrite_final_reference_links);
        let mut reference_links: Vec<ReferenceLinkDefinition> = Vec::new();
        core::mem::swap(&mut self.reference_links, &mut reference_links);
        let ghost taken = self@;
        let ghost all = definition_views(reference_links@);
        assert(taken.reference_links =~= Seq::empty());
        assert(taken == (StateView { reference_links: Seq::empty(), ..old(self)@ }));
        // need to iterate in reverse because reference_links is a stack
        while reference_links.len() > 0
            invariant
                taken.flush_all_definitions(all) == self@.flush_all_definitions(
                    definition_views(reference_links@),
                ),
            decreases reference_links@.len(),
        {
            let ghost before = reference_links@;
            let definition = reference_links.pop().unwrap();
            assert(definition_views(reference_links@) =~= definition_views(before).drop_last());
            assert(definition@ == definition_views(before).last());
            let newlines = self.count_newlines(definition.start, definition.end);
            self.write_newlines(newlines);
            self.write_reference_link_definition_inner(
                definition.label.as_slice(),
                definition.destination.as_slice(),
                &definition.title,
            );
            self.last_position = definition.end;
        }
    }

    pub fn join_with_indentation(
        &mut self,
        buffer: &[char],
        start_with_indentation: bool,
        trim_last_newline: bool,
    )
        ensures
            final(self)@ == old(self)@.join_with_indentation(
                buffer@,
                start_with_indentation,
                trim_last_newline,
            ),
    {
        reveal(StateView::<_>::join_with_indentation);
        self.force_rewrite_buffer = true;
        let ghost forced = self@;
        let mut pos: usize = 0;
        while pos < buffer.len()
            invariant
                pos <= buffer@.len(),
                forced.join_lines(buffer@, 0, start_with_indentation, trim_last_newline)
                    == self@.join_lines(
                    buffer@,
                    pos as int,
                    start_with_indentation,
                    trim_last_newline,
                ),
            decreases buffer@.len() - pos,
        {
            let end = line_end(buffer, pos);
            let line = vstd::slice::slice_subrange(buffer, pos, end);
            let is_last = end >= buffer.len();
            let is_next_empty = !is_last && trim(
                vstd::slice::slice_subrange(buffer, end, line_end(buffer, end)),
            ).len() == 0;
            let blank = trim(line).len() == 0;
            if start_with_indentation {
                self.write_indentation(blank);
            }
            if blank {
                self.write_str(trim_start_matches(line, CharSet::Just(' ')));
            } else if is_last && trim_last_newline {
                self.write_str(trim_end_matches(line, CharSet::Just('\n')));
            } else {
                self.write_str(line);
            }
            if !is_last && !start_with_indentation {
                self.write_indentation(is_next_empty);
            }
            pos = end;
        }
        self.force_rewrite_buffer = false;
    }

    pub fn new_external_formatted(&mut self, buffer_type: BufferType, capacity: usize)
        ensures
            final(self)@ == old(self)@.new_external_formatted(buffer_type@),
    {
        reveal(StateView::<_>::new_external_formatted);
        self.flush_external_formatted(true);
        let width = self.formatter_width();
        self.external_formatter = Some(E::new(buffer_type, width, capacity));
    }

    pub fn flush_external_formatted(&mut self, trim_last_newline: bool)
        ensures
            final(self)@ == old(self)@.flush_external_formatted(trim_last_newline),
    {
        reveal(StateView::<_>::flush_external_formatted);
        if let Some(external_formatter) = self.external_formatter.take() {
            let external = external_formatter.context() != FormattingContext::Paragraph;
            let n = self.rewrite_buffer.len();
            if external && n > 0 && self.rewrite_buffer[n - 1] != '\n' && self.rewrite_buffer[n
                - 1] != ' ' && self.rewrite_buffer[n - 1] != '$' {
                // Code and HTML blocks should have a `\n` or some sort of
                // indentation before them.
                self.write_char('\n');
            }
            let formatted = external_formatter.into_buffer();
            let text = chars_of(formatted.as_str());
            let start_with_indentation = self.needs_indent && external;
            self.join_with_indentation(text.as_slice(), start_with_indentation, trim_last_newline);
        }
    }

    /// Find some marker, but limit the size
    pub fn rewrite_marker_with_limit(&mut self, start: usize, end: usize, size_limit: Option<usize>)
        ensures
            final(self)@ == old(self)@.rewrite_marker_with_limit(start, end, size_limit),
    {
        reveal(StateView::<_>::rewrite_marker_with_limit);
        let marker = find_marker(self.input.as_slice(), start, end);
        let limited = match size_limit {
            Some(mark_max_width) => if mark_max_width < marker.len() {
                to_vec(vstd::slice::slice_subrange(marker, 0, mark_max_width))
            } else {
                to_vec(marker)
            },
            None => to_vec(marker),
        };
        self.write_str(limited.as_slice());
    }

    /// Finds a marker in the source text and writes it to the buffer
    pub fn rewrite_marker(&mut self, start: usize, end: usize)
        ensures
            final(self)@ == old(self)@.rewrite_marker(start, end),
    {
        self.rewrite_marker_with_limit(start, end, None)
    }

    pub fn write_emphasis_marker(&mut self, start: usize, end: usize)
        ensures
            final(self)@ == old(self)@.write_emphasis_marker(start, end),
    {
        reveal(StateView::<_>::write_emphasis_marker);
        let fixed = match &self.config.fixed_emphasis_marker {
            None => None,
            Some(marker) => Some(chars_of(marker.as_str())),
        };
        match fixed {
            None => self.rewrite_marker_with_limit(start, end, Some(1)),
            Some(marker) => self.write_str(marker.as_slice()),
        }
    }

    pub fn write_strong_marker(&mut self, start: usize, end: usize)
        ensures
            final(self)@ == old(self)@.write_strong_marker(start, end),
    {
        reveal(StateView::<_>::write_strong_marker);
        let fixed = match &self.config.fixed_strong_marker {
            None => None,
            Some(marker) => Some(chars_of(marker.as_str())),
        };
        match fixed {
            None => self.rewrite_marker_with_limit(start, end, Some(2)),
            Some(marker) => self.write_str(marker.as_slice()),
        }
    }

    pub fn write_metadata_block_separator(
        &mut self,
        kind: MetadataBlockKind,
        closes: bool,
        start: usize,
        end: usize,
    )
        ensures
            final(self)@ == old(self)@.write_metadata_block_separator(kind, closes, start, end),
    {
        reveal(StateView::<_>::write_metadata_block_separator);
        let newlines = self.count_newlines(start, end);
        self.write_newlines(newlines);
        let marker = match kind {
            MetadataBlockKind::YamlStyle => vec!['-', '-', '-'],
            MetadataBlockKind::PlusesStyle => vec!['+', '+', '+'],
        };
        assert(kind is YamlStyle ==> marker@ =~= seq!['-', '-', '-']);
        assert(kind is PlusesStyle ==> marker@ =~= seq!['+', '+', '+']);
        self.write_str(marker.as_slice());
        if !closes {
            self.write_char('\n');
        }
    }

    /// Writes `text` to the buffer that is current.
    pub fn write_str(&mut self, text: &[char])
        ensures
            final(self)@ == old(self)@.write(text@),
    {
        reveal(StateView::<_>::write);
        match self.current_buffer() {
            Route::Rewrite => {
                push_all(&mut self.rewrite_buffer, text);
            },
            Route::External => {
                let owned = string_of(text);
                let mut refused = false;
                match &mut self.external_formatter {
                    Some(f) => {
                        refused = f.write_str(owned.as_str()).is_err();
                    },
                    None => {},
                }
                if refused {
                    self.fail(FormatError::WriteFailure);
                }
            },
            Route::Table => {
                match &mut self.table_state {
                    Some(t) => {
                        t.write_str(text);
                    },
                    None => {},
                }
            },
            Route::Nowhere => {},
        }
    }
}

} // verus!

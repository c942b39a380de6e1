//! What no step of a run changes.
use vstd::prelude::*;
use crate::events::{
    ColumnAlignment, EventKind, HeadingLevel, LinkKind, MdEventView, MdTagView, MetadataBlockKind,
    ReferenceLinkDefinitionView, TagKind,
};
use crate::external_formatter::{BufferTypeView, ExternalFormatter};
use crate::formatter::formatting_states::helpers::spec_is_blank;
use crate::formatter::formatting_states::{FormatError, StateView};
use crate::list::ListMarker;
use crate::text::{spec_line_end, spec_trim_end_matches, spec_trim_start_matches, CharSet};

verus! {

/// Whether the definitions `left` are the first of `all`, in their order.
pub open spec fn spec_first_of(
    left: Seq<ReferenceLinkDefinitionView>,
    all: Seq<ReferenceLinkDefinitionView>,
) -> bool {
    left.len() <= all.len() && forall|i: int|
        #![trigger left[i]]
        0 <= i < left.len() ==> left[i] == all[i]
}

/// Whether the text `longer` begins with the text `shorter`.
pub open spec fn spec_begins_with(longer: Seq<char>, shorter: Seq<char>) -> bool {
    shorter.len() <= longer.len() && forall|i: int|
        #![trigger shorter[i]]
        0 <= i < shorter.len() ==> shorter[i] == longer[i]
}

/// Whether a formatter of the kind `E` takes every text.
pub open spec fn spec_never_rejects<E: ExternalFormatter>() -> bool {
    forall|state: E::State, text: Seq<char>| !#[trigger] E::spec_rejects(state, text)
}

/// Whether `b` can follow `a` in a run: the source and the settings are
/// the same, writing is not forced to the document in `b` unless it is in
/// `a`, the document of `b` begins with that of `a`, the definitions
/// that are left in `b` are the first of those left in `a`, a failure that was
/// noted in `a` is the one noted in `b`, and no write has failed on the way
/// where the formatter takes every text.
pub open spec fn spec_follows<E: ExternalFormatter>(a: StateView<E>, b: StateView<E>) -> bool {
    &&& b.input == a.input
    &&& b.config == a.config
    &&& !a.force_rewrite_buffer ==> !b.force_rewrite_buffer
    &&& spec_begins_with(b.rewrite_buffer, a.rewrite_buffer)
    &&& spec_first_of(b.reference_links, a.reference_links)
    &&& a.error is Some ==> b.error == a.error
    &&& spec_never_rejects::<E>() && b.error == Some(FormatError::WriteFailure) ==> a.error == Some(
        FormatError::WriteFailure,
    )
}

/// What can follow what can follow a state can follow that state.
pub proof fn lemma_follows_chain<E: ExternalFormatter>(
    a: StateView<E>,
    b: StateView<E>,
    c: StateView<E>,
)
    requires
        spec_follows(a, b),
        spec_follows(b, c),
    ensures
        spec_follows(a, c),
{
}

/// What `write` gives can follow the state it is taken from.
pub broadcast proof fn lemma_write_follows<E: ExternalFormatter>(s: StateView<E>, text: Seq<char>)
    ensures
        spec_follows(s, #[trigger] s.write(text)),
        s.write(text).events == s.events,
        s.write(text).reference_links == s.reference_links,
{
    reveal(StateView::<_>::write);
}

/// What `write_indents` gives can follow the state it is taken from.
pub broadcast proof fn lemma_write_indents_follows<E: ExternalFormatter>(
    s: StateView<E>,
    i: int,
    n: int,
)
    ensures
        spec_follows(s, #[trigger] s.write_indents(i, n)),
        s.write_indents(i, n).events == s.events,
        s.write_indents(i, n).reference_links == s.reference_links,
    decreases n - i,
{
    if !(i < 0 || i >= n || i >= s.indentation.len()) {
        lemma_write_follows(s, s.indentation[i]);
        lemma_write_indents_follows(s.write(s.indentation[i]), i + 1, n);
    }
}

/// What `write_indentation` gives can follow the state it is taken from.
pub broadcast proof fn lemma_write_indentation_follows<E: ExternalFormatter>(
    s: StateView<E>,
    trim: bool,
)
    ensures
        spec_follows(s, #[trigger] s.write_indentation(trim)),
        s.write_indentation(trim).events == s.events,
        s.write_indentation(trim).reference_links == s.reference_links,
{
    broadcast use {lemma_write_follows, lemma_write_indents_follows};

    reveal(StateView::<_>::write_indentation);
}


/// What `write_lines` gives can follow the state it is taken from.
pub broadcast proof fn lemma_write_lines_follows<E: ExternalFormatter>(
    s: StateView<E>,
    i: nat,
    total: nat,
    nested: bool,
    always_trim: bool,
)
    ensures
        spec_follows(s, #[trigger] s.write_lines(i, total, nested, always_trim)),
        s.write_lines(i, total, nested, always_trim).events == s.events,
        s.write_lines(i, total, nested, always_trim).reference_links == s.reference_links,
    decreases total - i,
{
    if i < total {
        let fed = s.write(seq!['\n']);
        lemma_write_follows(s, seq!['\n']);
        let indented = if nested {
            fed.write_indentation(i + 1 != total || always_trim)
        } else {
            fed
        };
        if nested {
            lemma_write_indentation_follows(fed, i + 1 != total || always_trim);
        }
        lemma_write_lines_follows(indented, i + 1, total, nested, always_trim);
    }
}

/// What `write_line_feeds` gives can follow the state it is taken from.
pub broadcast proof fn lemma_write_line_feeds_follows<E: ExternalFormatter>(
    s: StateView<E>,
    i: nat,
    n: nat,
)
    ensures
        spec_follows(s, #[trigger] s.write_line_feeds(i, n)),
        s.write_line_feeds(i, n).events == s.events,
        s.write_line_feeds(i, n).reference_links == s.reference_links,
    decreases n - i,
{
    if i < n {
        lemma_write_follows(s, seq!['\n']);
        lemma_write_line_feeds_follows(s.write(seq!['\n']), i + 1, n);
    }
}

/// What `join_lines` gives can follow the state it is taken from.
pub broadcast proof fn lemma_join_lines_follows<E: ExternalFormatter>(
    s: StateView<E>,
    text: Seq<char>,
    pos: int,
    start_with_indentation: bool,
    trim_last_newline: bool,
)
    ensures
        spec_follows(
            s,
            #[trigger] s.join_lines(text, pos, start_with_indentation, trim_last_newline),
        ),
        s.join_lines(text, pos, start_with_indentation, trim_last_newline).events == s.events,
        s.join_lines(text, pos, start_with_indentation, trim_last_newline).reference_links == s.reference_links,
    decreases text.len() - pos,
{
    broadcast use {lemma_write_follows, lemma_write_indentation_follows};

    if !(pos < 0 || pos >= text.len()) {
        let end = spec_line_end(text, pos);
        let line = text.subrange(pos, end);
        let is_last = end >= text.len();
        let is_next_empty = !is_last && spec_is_blank(text.subrange(end, spec_line_end(text, end)));
        let s1 = if start_with_indentation {
            s.write_indentation(spec_is_blank(line))
        } else {
            s
        };
        let s2 = if spec_is_blank(line) {
            s1.write(spec_trim_start_matches(line, CharSet::Just(' ')))
        } else if is_last && trim_last_newline {
            s1.write(spec_trim_end_matches(line, CharSet::Just('\n')))
        } else {
            s1.write(line)
        };
        let s3 = if !is_last && !start_with_indentation {
            s2.write_indentation(is_next_empty)
        } else {
            s2
        };
        lemma_join_lines_follows(s3, text, end, start_with_indentation, trim_last_newline);
    }
}

/// What `flush_definitions` gives can follow the state it is taken from,
/// and the definitions that are left are the first of `definitions`.
pub proof fn lemma_flush_definitions_follows<E: ExternalFormatter>(
    s: StateView<E>,
    definitions: Seq<ReferenceLinkDefinitionView>,
    start: usize,
)
    ensures
        spec_follows(s, s.flush_definitions(definitions, start).0),
        s.flush_definitions(definitions, start).0.events == s.events,
        spec_first_of(s.flush_definitions(definitions, start).1, definitions),
    decreases definitions.len(),
{
    broadcast use {
        lemma_write_newlines_follows,
        lemma_write_reference_link_definition_inner_follows,
    };

    if !(definitions.len() == 0 || definitions.last().start > start) {
        let d = definitions.last();
        let s1 = s.write_newlines(s.count_newlines(d.start, d.end));
        let s2 = s1.write_reference_link_definition_inner(d.label, d.destination, d.title);
        let s3 = StateView { last_position: d.end, needs_indent: true, ..s2 };
        lemma_flush_definitions_follows(s3, definitions.drop_last(), start);
    }
}

/// What `rewrite_reference_link_definitions` gives can follow the state it
/// is taken from.
pub broadcast proof fn lemma_rewrite_reference_link_definitions_follows<E: ExternalFormatter>(
    s: StateView<E>,
    start: usize,
)
    ensures
        spec_follows(s, #[trigger] s.rewrite_reference_link_definitions(start)),
        s.rewrite_reference_link_definitions(start).events == s.events,
{
    reveal(StateView::<_>::rewrite_reference_link_definitions);
    lemma_flush_definitions_follows(
        StateView { reference_links: Seq::empty(), ..s },
        s.reference_links,
        start,
    );
}

/// What `flush_all_definitions` gives can follow the state it is taken
/// from.
pub broadcast proof fn lemma_flush_all_definitions_follows<E: ExternalFormatter>(
    s: StateView<E>,
    definitions: Seq<ReferenceLinkDefinitionView>,
)
    ensures
        spec_follows(s, #[trigger] s.flush_all_definitions(definitions)),
        s.flush_all_definitions(definitions).events == s.events,
    decreases definitions.len(),
{
    broadcast use {
        lemma_write_newlines_follows,
        lemma_write_reference_link_definition_inner_follows,
    };

    if definitions.len() > 0 {
        let d = definitions.last();
        let s1 = s.write_newlines(s.count_newlines(d.start, d.end));
        let s2 = s1.write_reference_link_definition_inner(d.label, d.destination, d.title);
        lemma_flush_all_definitions_follows(
            StateView { last_position: d.end, ..s2 },
            definitions.drop_last(),
        );
    }
}

/// What `fail` gives can follow the state it is taken from, where the
/// failure is no failed write.
pub broadcast proof fn lemma_fail_follows<E: ExternalFormatter>(s: StateView<E>, error: FormatError)
    requires
        error != FormatError::WriteFailure,
    ensures
        spec_follows(s, #[trigger] s.fail(error)),
        s.fail(error).events == s.events,
        s.fail(error).reference_links == s.reference_links,
{
    reveal(StateView::<_>::fail);
}

/// What `write_newlines_inner` gives can follow the state it is taken from.
pub broadcast proof fn lemma_write_newlines_inner_follows<E: ExternalFormatter>(
    s: StateView<E>,
    max_newlines: nat,
    always_trim_trailing_whitespace: bool,
)
    ensures
        spec_follows(s, #[trigger] s.write_newlines_inner(max_newlines, always_trim_trailing_whitespace)),
        s.write_newlines_inner(max_newlines, always_trim_trailing_whitespace).events == s.events,
        s.write_newlines_inner(max_newlines, always_trim_trailing_whitespace).reference_links == s.reference_links,
{
    broadcast use {
        lemma_write_indentation_follows,
        lemma_write_lines_follows,
    };

    reveal(StateView::<_>::write_newlines_inner);
}

/// What `write_newlines` gives can follow the state it is taken from.
pub broadcast proof fn lemma_write_newlines_follows<E: ExternalFormatter>(
    s: StateView<E>,
    max_newlines: nat,
)
    ensures
        spec_follows(s, #[trigger] s.write_newlines(max_newlines)),
        s.write_newlines(max_newlines).events == s.events,
        s.write_newlines(max_newlines).reference_links == s.reference_links,
{
    broadcast use lemma_write_newlines_inner_follows;

    reveal(StateView::<_>::write_newlines);
}

/// What `write_newlines_no_trailing_whitespace` gives can follow the state it is taken from.
pub broadcast proof fn lemma_write_newlines_no_trailing_whitespace_follows<E: ExternalFormatter>(
    s: StateView<E>,
    max_newlines: nat,
)
    ensures
        spec_follows(s, #[trigger] s.write_newlines_no_trailing_whitespace(max_newlines)),
        s.write_newlines_no_trailing_whitespace(max_newlines).events == s.events,
        s.write_newlines_no_trailing_whitespace(max_newlines).reference_links == s.reference_links,
{
    broadcast use lemma_write_newlines_inner_follows;

    reveal(StateView::<_>::write_newlines_no_trailing_whitespace);
}

/// What `write_indentation_if_needed` gives can follow the state it is taken from.
pub broadcast proof fn lemma_write_indentation_if_needed_follows<E: ExternalFormatter>(
    s: StateView<E>,
)
    ensures
        spec_follows(s, #[trigger] s.write_indentation_if_needed()),
        s.write_indentation_if_needed().events == s.events,
        s.write_indentation_if_needed().reference_links == s.reference_links,
{
    broadcast use lemma_write_indentation_follows;

    reveal(StateView::<_>::write_indentation_if_needed);
}

/// What `write_newlines_before_code_block` gives can follow the state it is taken from.
pub broadcast proof fn lemma_write_newlines_before_code_block_follows<E: ExternalFormatter>(
    s: StateView<E>,
    newlines: nat,
)
    ensures
        spec_follows(s, #[trigger] s.write_newlines_before_code_block(newlines)),
        s.write_newlines_before_code_block(newlines).events == s.events,
        s.write_newlines_before_code_block(newlines).reference_links == s.reference_links,
{
    broadcast use {
        lemma_write_indentation_if_needed_follows,
        lemma_write_line_feeds_follows,
    };

    reveal(StateView::<_>::write_newlines_before_code_block);
}

/// What `write_newline_after_code_block` gives can follow the state it is taken from.
pub broadcast proof fn lemma_write_newline_after_code_block_follows<E: ExternalFormatter>(
    s: StateView<E>,
    empty_code_block: bool,
)
    ensures
        spec_follows(s, #[trigger] s.write_newline_after_code_block(empty_code_block)),
        s.write_newline_after_code_block(empty_code_block).events == s.events,
        s.write_newline_after_code_block(empty_code_block).reference_links == s.reference_links,
{
    broadcast use {
        lemma_write_follows,
        lemma_write_indentation_follows,
    };

    reveal(StateView::<_>::write_newline_after_code_block);
}

/// What `check_needs_indent` gives can follow the state it is taken from.
pub broadcast proof fn lemma_check_needs_indent_follows<E: ExternalFormatter>(
    s: StateView<E>,
    event: EventKind,
)
    ensures
        spec_follows(s, #[trigger] s.check_needs_indent(event)),
        s.check_needs_indent(event).events == s.events,
        s.check_needs_indent(event).reference_links == s.reference_links,
{
    reveal(StateView::<_>::check_needs_indent);
}

/// What `write_reference_link_definition_inner` gives can follow the state it is taken from.
pub broadcast proof fn lemma_write_reference_link_definition_inner_follows<E: ExternalFormatter>(
    s: StateView<E>,
    label: Seq<char>,
    dest: Seq<char>,
    title: Option<(Seq<char>, char)>,
)
    ensures
        spec_follows(s, #[trigger] s.write_reference_link_definition_inner(label, dest, title)),
        s.write_reference_link_definition_inner(label, dest, title).events == s.events,
        s.write_reference_link_definition_inner(label, dest, title).reference_links == s.reference_links,
{
    broadcast use {
        lemma_write_follows,
        lemma_write_newlines_follows,
    };

    reveal(StateView::<_>::write_reference_link_definition_inner);
}

/// What `rewrite_final_reference_links` gives can follow the state it is taken from.
pub broadcast proof fn lemma_rewrite_final_reference_links_follows<E: ExternalFormatter>(
    s: StateView<E>,
)
    ensures
        spec_follows(s, #[trigger] s.rewrite_final_reference_links()),
        s.rewrite_final_reference_links().events == s.events,
{
    broadcast use lemma_flush_all_definitions_follows;

    reveal(StateView::<_>::rewrite_final_reference_links);
}

/// What `join_with_indentation` gives can follow the state it is taken from.
pub broadcast proof fn lemma_join_with_indentation_follows<E: ExternalFormatter>(
    s: StateView<E>,
    buffer: Seq<char>,
    start_with_indentation: bool,
    trim_last_newline: bool,
)
    ensures
        spec_follows(s, #[trigger] s.join_with_indentation(buffer, start_with_indentation, trim_last_newline)),
        s.join_with_indentation(buffer, start_with_indentation, trim_last_newline).events == s.events,
        s.join_with_indentation(buffer, start_with_indentation, trim_last_newline).reference_links == s.reference_links,
{
    broadcast use lemma_join_lines_follows;

    reveal(StateView::<_>::join_with_indentation);
}

/// What `flush_external_formatted` gives can follow the state it is taken from.
pub broadcast proof fn lemma_flush_external_formatted_follows<E: ExternalFormatter>(
    s: StateView<E>,
    trim_last_newline: bool,
)
    ensures
        spec_follows(s, #[trigger] s.flush_external_formatted(trim_last_newline)),
        s.flush_external_formatted(trim_last_newline).events == s.events,
        s.flush_external_formatted(trim_last_newline).reference_links == s.reference_links,
{
    broadcast use {
        lemma_join_with_indentation_follows,
        lemma_write_follows,
    };

    reveal(StateView::<_>::flush_external_formatted);
}

/// What `new_external_formatted` gives can follow the state it is taken from.
pub broadcast proof fn lemma_new_external_formatted_follows<E: ExternalFormatter>(
    s: StateView<E>,
    buffer_type: BufferTypeView,
)
    ensures
        spec_follows(s, #[trigger] s.new_external_formatted(buffer_type)),
        s.new_external_formatted(buffer_type).events == s.events,
        s.new_external_formatted(buffer_type).reference_links == s.reference_links,
{
    broadcast use lemma_flush_external_formatted_follows;

    reveal(StateView::<_>::new_external_formatted);
}

/// What `rewrite_marker_with_limit` gives can follow the state it is taken from.
pub broadcast proof fn lemma_rewrite_marker_with_limit_follows<E: ExternalFormatter>(
    s: StateView<E>,
    start: usize,
    end: usize,
    limit: Option<usize>,
)
    ensures
        spec_follows(s, #[trigger] s.rewrite_marker_with_limit(start, end, limit)),
        s.rewrite_marker_with_limit(start, end, limit).events == s.events,
        s.rewrite_marker_with_limit(start, end, limit).reference_links == s.reference_links,
{
    broadcast use lemma_write_follows;

    reveal(StateView::<_>::rewrite_marker_with_limit);
}

/// What `rewrite_marker` gives can follow the state it is taken from.
pub broadcast proof fn lemma_rewrite_marker_follows<E: ExternalFormatter>(
    s: StateView<E>,
    start: usize,
    end: usize,
)
    ensures
        spec_follows(s, #[trigger] s.rewrite_marker(start, end)),
        s.rewrite_marker(start, end).events == s.events,
        s.rewrite_marker(start, end).reference_links == s.reference_links,
{
    broadcast use lemma_rewrite_marker_with_limit_follows;

    reveal(StateView::<_>::rewrite_marker);
}

/// What `write_emphasis_marker` gives can follow the state it is taken from.
pub broadcast proof fn lemma_write_emphasis_marker_follows<E: ExternalFormatter>(
    s: StateView<E>,
    start: usize,
    end: usize,
)
    ensures
        spec_follows(s, #[trigger] s.write_emphasis_marker(start, end)),
        s.write_emphasis_marker(start, end).events == s.events,
        s.write_emphasis_marker(start, end).reference_links == s.reference_links,
{
    broadcast use {
        lemma_rewrite_marker_with_limit_follows,
        lemma_write_follows,
    };

    reveal(StateView::<_>::write_emphasis_marker);
}

/// What `write_strong_marker` gives can follow the state it is taken from.
pub broadcast proof fn lemma_write_strong_marker_follows<E: ExternalFormatter>(
    s: StateView<E>,
    start: usize,
    end: usize,
)
    ensures
        spec_follows(s, #[trigger] s.write_strong_marker(start, end)),
        s.write_strong_marker(start, end).events == s.events,
        s.write_strong_marker(start, end).reference_links == s.reference_links,
{
    broadcast use {
        lemma_rewrite_marker_with_limit_follows,
        lemma_write_follows,
    };

    reveal(StateView::<_>::write_strong_marker);
}

/// What `write_metadata_block_separator` gives can follow the state it is taken from.
pub broadcast proof fn lemma_write_metadata_block_separator_follows<E: ExternalFormatter>(
    s: StateView<E>,
    kind: MetadataBlockKind,
    closes: bool,
    start: usize,
    end: usize,
)
    ensures
        spec_follows(s, #[trigger] s.write_metadata_block_separator(kind, closes, start, end)),
        s.write_metadata_block_separator(kind, closes, start, end).events == s.events,
        s.write_metadata_block_separator(kind, closes, start, end).reference_links == s.reference_links,
{
    broadcast use {
        lemma_write_follows,
        lemma_write_newlines_follows,
    };

    reveal(StateView::<_>::write_metadata_block_separator);
}

/// What `push_context` gives can follow the state it is taken from.
pub broadcast proof fn lemma_push_context_follows<E: ExternalFormatter>(
    s: StateView<E>,
    tag: MdTagView,
)
    ensures
        spec_follows(s, #[trigger] s.push_context(tag)),
        s.push_context(tag).events == s.events,
        s.push_context(tag).reference_links == s.reference_links,
{
    reveal(StateView::<_>::push_context);
}

/// What `push_indentation` gives can follow the state it is taken from.
pub broadcast proof fn lemma_push_indentation_follows<E: ExternalFormatter>(
    s: StateView<E>,
    indent: Seq<char>,
)
    ensures
        spec_follows(s, #[trigger] s.push_indentation(indent)),
        s.push_indentation(indent).events == s.events,
        s.push_indentation(indent).reference_links == s.reference_links,
{
    reveal(StateView::<_>::push_indentation);
}

/// What `replace_last_indentation` gives can follow the state it is taken from.
pub broadcast proof fn lemma_replace_last_indentation_follows<E: ExternalFormatter>(
    s: StateView<E>,
    indent: Seq<char>,
)
    ensures
        spec_follows(s, #[trigger] s.replace_last_indentation(indent)),
        s.replace_last_indentation(indent).events == s.events,
        s.replace_last_indentation(indent).reference_links == s.reference_links,
{
    reveal(StateView::<_>::replace_last_indentation);
}

/// What `write_due_newlines` gives can follow the state it is taken from.
pub broadcast proof fn lemma_write_due_newlines_follows<E: ExternalFormatter>(
    s: StateView<E>,
    start: usize,
    end: usize,
)
    ensures
        spec_follows(s, #[trigger] s.write_due_newlines(start, end)),
        s.write_due_newlines(start, end).events == s.events,
        s.write_due_newlines(start, end).reference_links == s.reference_links,
{
    broadcast use lemma_write_newlines_follows;

    reveal(StateView::<_>::write_due_newlines);
}

/// What `start_paragraph` gives can follow the state it is taken from.
pub broadcast proof fn lemma_start_paragraph_follows<E: ExternalFormatter>(
    s: StateView<E>,
    start: usize,
    end: usize,
)
    ensures
        spec_follows(s, #[trigger] s.start_paragraph(start, end)),
        s.start_paragraph(start, end).events == s.events,
        s.start_paragraph(start, end).reference_links == s.reference_links,
{
    broadcast use {
        lemma_new_external_formatted_follows,
        lemma_push_context_follows,
        lemma_write_due_newlines_follows,
    };

    reveal(StateView::<_>::start_paragraph);
}

/// What `start_heading` gives can follow the state it is taken from.
pub broadcast proof fn lemma_start_heading_follows<E: ExternalFormatter>(
    s: StateView<E>,
    level: HeadingLevel,
    id: Option<Seq<char>>,
    classes: Seq<Seq<char>>,
    start: usize,
    end: usize,
)
    ensures
        spec_follows(s, #[trigger] s.start_heading(level, id, classes, start, end)),
        s.start_heading(level, id, classes, start, end).events == s.events,
        s.start_heading(level, id, classes, start, end).reference_links == s.reference_links,
{
    broadcast use {
        lemma_write_follows,
        lemma_write_due_newlines_follows,
    };

    reveal(StateView::<_>::start_heading);
}

/// What `tighten_last_quote` gives can follow the state it is taken from.
pub broadcast proof fn lemma_tighten_last_quote_follows<E: ExternalFormatter>(s: StateView<E>)
    ensures
        spec_follows(s, #[trigger] s.tighten_last_quote()),
        s.tighten_last_quote().events == s.events,
        s.tighten_last_quote().reference_links == s.reference_links,
{
    broadcast use lemma_replace_last_indentation_follows;

    reveal(StateView::<_>::tighten_last_quote);
}

/// What `open_quote` gives can follow the state it is taken from.
pub broadcast proof fn lemma_open_quote_follows<E: ExternalFormatter>(
    s: StateView<E>,
    start: usize,
    end: usize,
)
    ensures
        spec_follows(s, #[trigger] s.open_quote(start, end)),
        s.open_quote(start, end).events == s.events,
        s.open_quote(start, end).reference_links == s.reference_links,
{
    broadcast use {
        lemma_fail_follows,
        lemma_push_indentation_follows,
        lemma_write_follows,
        lemma_write_newlines_follows,
    };

    reveal(StateView::<_>::open_quote);
}

/// What `start_block_quote` gives can follow the state it is taken from.
pub broadcast proof fn lemma_start_block_quote_follows<E: ExternalFormatter>(
    s: StateView<E>,
    tag: MdTagView,
    start: usize,
    end: usize,
)
    ensures
        spec_follows(s, #[trigger] s.start_block_quote(tag, start, end)),
        s.start_block_quote(tag, start, end).events == s.events,
        s.start_block_quote(tag, start, end).reference_links == s.reference_links,
{
    broadcast use {
        lemma_open_quote_follows,
        lemma_push_context_follows,
        lemma_tighten_last_quote_follows,
        lemma_write_due_newlines_follows,
    };

    reveal(StateView::<_>::start_block_quote);
}

/// What `start_fenced_code_block` gives can follow the state it is taken from.
pub broadcast proof fn lemma_start_fenced_code_block_follows<E: ExternalFormatter>(
    s: StateView<E>,
    tag: MdTagView,
    info_string: Seq<char>,
    start: usize,
    end: usize,
)
    ensures
        spec_follows(s, #[trigger] s.start_fenced_code_block(tag, info_string, start, end)),
        s.start_fenced_code_block(tag, info_string, start, end).events == s.events,
        s.start_fenced_code_block(tag, info_string, start, end).reference_links == s.reference_links,
{
    broadcast use {
        lemma_new_external_formatted_follows,
        lemma_push_context_follows,
        lemma_rewrite_marker_follows,
        lemma_write_follows,
        lemma_write_newlines_before_code_block_follows,
    };

    reveal(StateView::<_>::start_fenced_code_block);
}

/// What `start_indented_code_block` gives can follow the state it is taken from.
pub broadcast proof fn lemma_start_indented_code_block_follows<E: ExternalFormatter>(
    s: StateView<E>,
    tag: MdTagView,
    start: usize,
    end: usize,
)
    ensures
        spec_follows(s, #[trigger] s.start_indented_code_block(tag, start, end)),
        s.start_indented_code_block(tag, start, end).events == s.events,
        s.start_indented_code_block(tag, start, end).reference_links == s.reference_links,
{
    broadcast use {
        lemma_new_external_formatted_follows,
        lemma_push_context_follows,
        lemma_push_indentation_follows,
        lemma_write_follows,
        lemma_write_line_feeds_follows,
        lemma_write_newlines_before_code_block_follows,
    };

    reveal(StateView::<_>::start_indented_code_block);
}

/// What `start_code_block` gives can follow the state it is taken from.
pub broadcast proof fn lemma_start_code_block_follows<E: ExternalFormatter>(
    s: StateView<E>,
    tag: MdTagView,
    start: usize,
    end: usize,
)
    ensures
        spec_follows(s, #[trigger] s.start_code_block(tag, start, end)),
        s.start_code_block(tag, start, end).events == s.events,
        s.start_code_block(tag, start, end).reference_links == s.reference_links,
{
    broadcast use {
        lemma_start_fenced_code_block_follows,
        lemma_start_indented_code_block_follows,
    };

    reveal(StateView::<_>::start_code_block);
}

/// What `start_list` gives can follow the state it is taken from.
pub broadcast proof fn lemma_start_list_follows<E: ExternalFormatter>(
    s: StateView<E>,
    tag: MdTagView,
    start: usize,
    end: usize,
)
    ensures
        spec_follows(s, #[trigger] s.start_list(tag, start, end)),
        s.start_list(tag, start, end).events == s.events,
        s.start_list(tag, start, end).reference_links == s.reference_links,
{
    broadcast use {
        lemma_push_context_follows,
        lemma_write_due_newlines_follows,
    };

    reveal(StateView::<_>::start_list);
}

/// What `write_list_marker` gives can follow the state it is taken from.
pub broadcast proof fn lemma_write_list_marker_follows<E: ExternalFormatter>(
    s: StateView<E>,
    marker: ListMarker,
    empty_list_item: bool,
)
    ensures
        spec_follows(s, #[trigger] s.write_list_marker(marker, empty_list_item)),
        s.write_list_marker(marker, empty_list_item).events == s.events,
        s.write_list_marker(marker, empty_list_item).reference_links == s.reference_links,
{
    broadcast use lemma_write_follows;

    reveal(StateView::<_>::write_list_marker);
}

/// What `start_item` gives can follow the state it is taken from.
pub broadcast proof fn lemma_start_item_follows<E: ExternalFormatter>(
    s: StateView<E>,
    tag: MdTagView,
    start: usize,
    end: usize,
)
    ensures
        spec_follows(s, #[trigger] s.start_item(tag, start, end)),
        s.start_item(tag, start, end).events == s.events,
        s.start_item(tag, start, end).reference_links == s.reference_links,
{
    broadcast use {
        lemma_fail_follows,
        lemma_push_context_follows,
        lemma_push_indentation_follows,
        lemma_write_list_marker_follows,
        lemma_write_newlines_follows,
    };

    reveal(StateView::<_>::start_item);
}

/// What `start_footnote_definition` gives can follow the state it is taken from.
pub broadcast proof fn lemma_start_footnote_definition_follows<E: ExternalFormatter>(
    s: StateView<E>,
    label: Seq<char>,
    start: usize,
    end: usize,
)
    ensures
        spec_follows(s, #[trigger] s.start_footnote_definition(label, start, end)),
        s.start_footnote_definition(label, start, end).events == s.events,
        s.start_footnote_definition(label, start, end).reference_links == s.reference_links,
{
    broadcast use {
        lemma_write_follows,
        lemma_write_newlines_follows,
    };

    reveal(StateView::<_>::start_footnote_definition);
}

/// What `write_link_newlines` gives can follow the state it is taken from.
pub broadcast proof fn lemma_write_link_newlines_follows<E: ExternalFormatter>(
    s: StateView<E>,
    start: usize,
    end: usize,
)
    ensures
        spec_follows(s, #[trigger] s.write_link_newlines(start, end)),
        s.write_link_newlines(start, end).events == s.events,
        s.write_link_newlines(start, end).reference_links == s.reference_links,
{
    broadcast use lemma_write_newlines_follows;

    reveal(StateView::<_>::write_link_newlines);
}

/// What `open_link` gives can follow the state it is taken from.
pub broadcast proof fn lemma_open_link_follows<E: ExternalFormatter>(
    s: StateView<E>,
    tag: MdTagView,
    opener: Seq<char>,
    start: usize,
    end: usize,
)
    ensures
        spec_follows(s, #[trigger] s.open_link(tag, opener, start, end)),
        s.open_link(tag, opener, start, end).events == s.events,
        s.open_link(tag, opener, start, end).reference_links == s.reference_links,
{
    broadcast use {
        lemma_push_context_follows,
        lemma_write_follows,
        lemma_write_link_newlines_follows,
    };

    reveal(StateView::<_>::open_link);
}

/// What `start_link` gives can follow the state it is taken from.
pub broadcast proof fn lemma_start_link_follows<E: ExternalFormatter>(
    s: StateView<E>,
    tag: MdTagView,
    link_type: LinkKind,
    start: usize,
    end: usize,
)
    ensures
        spec_follows(s, #[trigger] s.start_link(tag, link_type, start, end)),
        s.start_link(tag, link_type, start, end).events == s.events,
        s.start_link(tag, link_type, start, end).reference_links == s.reference_links,
{
    broadcast use lemma_open_link_follows;

    reveal(StateView::<_>::start_link);
}

/// What `start_image` gives can follow the state it is taken from.
pub broadcast proof fn lemma_start_image_follows<E: ExternalFormatter>(
    s: StateView<E>,
    tag: MdTagView,
    start: usize,
    end: usize,
)
    ensures
        spec_follows(s, #[trigger] s.start_image(tag, start, end)),
        s.start_image(tag, start, end).events == s.events,
        s.start_image(tag, start, end).reference_links == s.reference_links,
{
    broadcast use lemma_open_link_follows;

    reveal(StateView::<_>::start_image);
}

/// What `start_table` gives can follow the state it is taken from.
pub broadcast proof fn lemma_start_table_follows<E: ExternalFormatter>(
    s: StateView<E>,
    tag: MdTagView,
    alignment: Seq<ColumnAlignment>,
    start: usize,
    end: usize,
)
    ensures
        spec_follows(s, #[trigger] s.start_table(tag, alignment, start, end)),
        s.start_table(tag, alignment, start, end).events == s.events,
        s.start_table(tag, alignment, start, end).reference_links == s.reference_links,
{
    broadcast use {
        lemma_push_context_follows,
        lemma_push_indentation_follows,
        lemma_write_follows,
        lemma_write_due_newlines_follows,
    };

    reveal(StateView::<_>::start_table);
}

/// What `start_table_row` gives can follow the state it is taken from.
pub broadcast proof fn lemma_start_table_row_follows<E: ExternalFormatter>(
    s: StateView<E>,
    tag: MdTagView,
)
    ensures
        spec_follows(s, #[trigger] s.start_table_row(tag)),
        s.start_table_row(tag).events == s.events,
        s.start_table_row(tag).reference_links == s.reference_links,
{
    broadcast use lemma_push_context_follows;

    reveal(StateView::<_>::start_table_row);
}

/// What `start_table_cell` gives can follow the state it is taken from.
pub broadcast proof fn lemma_start_table_cell_follows<E: ExternalFormatter>(s: StateView<E>)
    ensures
        spec_follows(s, #[trigger] s.start_table_cell()),
        s.start_table_cell().events == s.events,
        s.start_table_cell().reference_links == s.reference_links,
{
    broadcast use lemma_write_follows;

    reveal(StateView::<_>::start_table_cell);
}

/// What `start_html_block` gives can follow the state it is taken from.
pub broadcast proof fn lemma_start_html_block_follows<E: ExternalFormatter>(
    s: StateView<E>,
    start: usize,
    end: usize,
)
    ensures
        spec_follows(s, #[trigger] s.start_html_block(start, end)),
        s.start_html_block(start, end).events == s.events,
        s.start_html_block(start, end).reference_links == s.reference_links,
{
    broadcast use {
        lemma_flush_external_formatted_follows,
        lemma_new_external_formatted_follows,
        lemma_write_line_feeds_follows,
    };

    reveal(StateView::<_>::start_html_block);
}

/// What `start_tag` gives can follow the state it is taken from.
pub broadcast proof fn lemma_start_tag_follows<E: ExternalFormatter>(
    s: StateView<E>,
    tag: MdTagView,
    start: usize,
    end: usize,
)
    ensures
        spec_follows(s, #[trigger] s.start_tag(tag, start, end)),
        s.start_tag(tag, start, end).events == s.events,
        s.start_tag(tag, start, end).reference_links == s.reference_links,
{
    broadcast use {
        lemma_push_context_follows,
        lemma_rewrite_marker_follows,
        lemma_start_block_quote_follows,
        lemma_start_code_block_follows,
        lemma_start_footnote_definition_follows,
        lemma_start_heading_follows,
        lemma_start_html_block_follows,
        lemma_start_image_follows,
        lemma_start_item_follows,
        lemma_start_link_follows,
        lemma_start_list_follows,
        lemma_start_paragraph_follows,
        lemma_start_table_follows,
        lemma_start_table_cell_follows,
        lemma_start_table_row_follows,
        lemma_write_emphasis_marker_follows,
        lemma_write_metadata_block_separator_follows,
        lemma_write_strong_marker_follows,
    };

    reveal(StateView::<_>::start_tag);
}

/// What `pop_context` gives can follow the state it is taken from.
pub broadcast proof fn lemma_pop_context_follows<E: ExternalFormatter>(
    s: StateView<E>,
    expected: TagKind,
)
    ensures
        spec_follows(s, #[trigger] s.pop_context(expected)),
        s.pop_context(expected).events == s.events,
        s.pop_context(expected).reference_links == s.reference_links,
{
    broadcast use lemma_fail_follows;

    reveal(StateView::<_>::pop_context);
}

/// What `drop_indentation` gives can follow the state it is taken from.
pub broadcast proof fn lemma_drop_indentation_follows<E: ExternalFormatter>(s: StateView<E>)
    ensures
        spec_follows(s, #[trigger] s.drop_indentation()),
        s.drop_indentation().events == s.events,
        s.drop_indentation().reference_links == s.reference_links,
{
    broadcast use lemma_fail_follows;

    reveal(StateView::<_>::drop_indentation);
}

/// What `end_paragraph` gives can follow the state it is taken from.
pub broadcast proof fn lemma_end_paragraph_follows<E: ExternalFormatter>(s: StateView<E>)
    ensures
        spec_follows(s, #[trigger] s.end_paragraph()),
        s.end_paragraph().events == s.events,
        s.end_paragraph().reference_links == s.reference_links,
{
    broadcast use {
        lemma_flush_external_formatted_follows,
        lemma_pop_context_follows,
    };

    reveal(StateView::<_>::end_paragraph);
}

/// What `write_header_attributes` gives can follow the state it is taken from.
pub broadcast proof fn lemma_write_header_attributes_follows<E: ExternalFormatter>(
    s: StateView<E>,
    id: Option<Seq<char>>,
    classes: Seq<Seq<char>>,
)
    ensures
        spec_follows(s, #[trigger] s.write_header_attributes(id, classes)),
        s.write_header_attributes(id, classes).events == s.events,
        s.write_header_attributes(id, classes).reference_links == s.reference_links,
{
    broadcast use lemma_write_follows;

    reveal(StateView::<_>::write_header_attributes);
}

/// What `write_setext_marker` gives can follow the state it is taken from.
pub broadcast proof fn lemma_write_setext_marker_follows<E: ExternalFormatter>(s: StateView<E>)
    ensures
        spec_follows(s, #[trigger] s.write_setext_marker()),
        s.write_setext_marker().events == s.events,
        s.write_setext_marker().reference_links == s.reference_links,
{
    broadcast use {
        lemma_write_follows,
        lemma_write_newlines_follows,
    };

    reveal(StateView::<_>::write_setext_marker);
}

/// What `end_heading` gives can follow the state it is taken from.
pub broadcast proof fn lemma_end_heading_follows<E: ExternalFormatter>(s: StateView<E>)
    ensures
        spec_follows(s, #[trigger] s.end_heading()),
        s.end_heading().events == s.events,
        s.end_heading().reference_links == s.reference_links,
{
    broadcast use {
        lemma_fail_follows,
        lemma_write_header_attributes_follows,
        lemma_write_setext_marker_follows,
    };

    reveal(StateView::<_>::end_heading);
}

/// What `write_quote_end_newlines` gives can follow the state it is taken from.
pub broadcast proof fn lemma_write_quote_end_newlines_follows<E: ExternalFormatter>(
    s: StateView<E>,
    start: usize,
    end: usize,
)
    ensures
        spec_follows(s, #[trigger] s.write_quote_end_newlines(start, end)),
        s.write_quote_end_newlines(start, end).events == s.events,
        s.write_quote_end_newlines(start, end).reference_links == s.reference_links,
{
    broadcast use {
        lemma_replace_last_indentation_follows,
        lemma_write_newlines_follows,
    };

    reveal(StateView::<_>::write_quote_end_newlines);
}

/// What `pop_quote_indentation` gives can follow the state it is taken from.
pub broadcast proof fn lemma_pop_quote_indentation_follows<E: ExternalFormatter>(s: StateView<E>)
    ensures
        spec_follows(s, #[trigger] s.pop_quote_indentation()),
        s.pop_quote_indentation().events == s.events,
        s.pop_quote_indentation().reference_links == s.reference_links,
{
    broadcast use {
        lemma_fail_follows,
        lemma_replace_last_indentation_follows,
    };

    reveal(StateView::<_>::pop_quote_indentation);
}

/// What `end_block_quote` gives can follow the state it is taken from.
pub broadcast proof fn lemma_end_block_quote_follows<E: ExternalFormatter>(
    s: StateView<E>,
    start: usize,
    end: usize,
)
    ensures
        spec_follows(s, #[trigger] s.end_block_quote(start, end)),
        s.end_block_quote(start, end).events == s.events,
        s.end_block_quote(start, end).reference_links == s.reference_links,
{
    broadcast use {
        lemma_pop_context_follows,
        lemma_pop_quote_indentation_follows,
        lemma_write_quote_end_newlines_follows,
    };

    reveal(StateView::<_>::end_block_quote);
}

/// What `end_code_block` gives can follow the state it is taken from.
pub broadcast proof fn lemma_end_code_block_follows<E: ExternalFormatter>(
    s: StateView<E>,
    start: usize,
    end: usize,
)
    ensures
        spec_follows(s, #[trigger] s.end_code_block(start, end)),
        s.end_code_block(start, end).events == s.events,
        s.end_code_block(start, end).reference_links == s.reference_links,
{
    broadcast use {
        lemma_drop_indentation_follows,
        lemma_fail_follows,
        lemma_flush_external_formatted_follows,
        lemma_rewrite_marker_follows,
        lemma_write_newline_after_code_block_follows,
    };

    reveal(StateView::<_>::end_code_block);
}

/// What `end_list` gives can follow the state it is taken from.
pub broadcast proof fn lemma_end_list_follows<E: ExternalFormatter>(s: StateView<E>, tag: TagKind)
    ensures
        spec_follows(s, #[trigger] s.end_list(tag)),
        s.end_list(tag).events == s.events,
        s.end_list(tag).reference_links == s.reference_links,
{
    broadcast use {
        lemma_pop_context_follows,
        lemma_write_follows,
        lemma_write_newlines_follows,
    };

    reveal(StateView::<_>::end_list);
}

/// What `end_item` gives can follow the state it is taken from.
pub broadcast proof fn lemma_end_item_follows<E: ExternalFormatter>(
    s: StateView<E>,
    start: usize,
    end: usize,
)
    ensures
        spec_follows(s, #[trigger] s.end_item(start, end)),
        s.end_item(start, end).events == s.events,
        s.end_item(start, end).reference_links == s.reference_links,
{
    broadcast use {
        lemma_drop_indentation_follows,
        lemma_pop_context_follows,
        lemma_write_newlines_no_trailing_whitespace_follows,
    };

    reveal(StateView::<_>::end_item);
}

/// What `write_inline_link` gives can follow the state it is taken from.
pub broadcast proof fn lemma_write_inline_link_follows<E: ExternalFormatter>(
    s: StateView<E>,
    url: Seq<char>,
    title: Option<(Seq<char>, char)>,
)
    ensures
        spec_follows(s, #[trigger] s.write_inline_link(url, title)),
        s.write_inline_link(url, title).events == s.events,
        s.write_inline_link(url, title).reference_links == s.reference_links,
{
    broadcast use lemma_write_follows;

    reveal(StateView::<_>::write_inline_link);
}

/// What `close_link` gives can follow the state it is taken from.
pub broadcast proof fn lemma_close_link_follows<E: ExternalFormatter>(
    s: StateView<E>,
    link_type: LinkKind,
    url: Seq<char>,
    title: Seq<char>,
    start: usize,
    end: usize,
)
    ensures
        spec_follows(s, #[trigger] s.close_link(link_type, url, title, start, end)),
        s.close_link(link_type, url, title, start, end).events == s.events,
        s.close_link(link_type, url, title, start, end).reference_links == s.reference_links,
{
    broadcast use {
        lemma_write_follows,
        lemma_write_inline_link_follows,
    };

    reveal(StateView::<_>::close_link);
}

/// What `end_link` gives can follow the state it is taken from.
pub broadcast proof fn lemma_end_link_follows<E: ExternalFormatter>(
    s: StateView<E>,
    tag: TagKind,
    start: usize,
    end: usize,
)
    ensures
        spec_follows(s, #[trigger] s.end_link(tag, start, end)),
        s.end_link(tag, start, end).events == s.events,
        s.end_link(tag, start, end).reference_links == s.reference_links,
{
    broadcast use {
        lemma_close_link_follows,
        lemma_fail_follows,
    };

    reveal(StateView::<_>::end_link);
}

/// What `end_table` gives can follow the state it is taken from.
pub broadcast proof fn lemma_end_table_follows<E: ExternalFormatter>(s: StateView<E>)
    ensures
        spec_follows(s, #[trigger] s.end_table()),
        s.end_table().events == s.events,
        s.end_table().reference_links == s.reference_links,
{
    broadcast use {
        lemma_drop_indentation_follows,
        lemma_join_with_indentation_follows,
        lemma_pop_context_follows,
    };

    reveal(StateView::<_>::end_table);
}

/// What `end_table_cell` gives can follow the state it is taken from.
pub broadcast proof fn lemma_end_table_cell_follows<E: ExternalFormatter>(s: StateView<E>)
    ensures
        spec_follows(s, #[trigger] s.end_table_cell()),
        s.end_table_cell().events == s.events,
        s.end_table_cell().reference_links == s.reference_links,
{
    reveal(StateView::<_>::end_table_cell);
}

/// What `end_html_block` gives can follow the state it is taken from.
pub broadcast proof fn lemma_end_html_block_follows<E: ExternalFormatter>(s: StateView<E>)
    ensures
        spec_follows(s, #[trigger] s.end_html_block()),
        s.end_html_block().events == s.events,
        s.end_html_block().reference_links == s.reference_links,
{
    broadcast use {
        lemma_check_needs_indent_follows,
        lemma_flush_external_formatted_follows,
    };

    reveal(StateView::<_>::end_html_block);
}

/// What `end_tag` gives can follow the state it is taken from.
pub broadcast proof fn lemma_end_tag_follows<E: ExternalFormatter>(
    s: StateView<E>,
    tag: TagKind,
    start: usize,
    end: usize,
)
    ensures
        spec_follows(s, #[trigger] s.end_tag(tag, start, end)),
        s.end_tag(tag, start, end).events == s.events,
        s.end_tag(tag, start, end).reference_links == s.reference_links,
{
    broadcast use {
        lemma_end_block_quote_follows,
        lemma_end_code_block_follows,
        lemma_end_heading_follows,
        lemma_end_html_block_follows,
        lemma_end_item_follows,
        lemma_end_link_follows,
        lemma_end_list_follows,
        lemma_end_paragraph_follows,
        lemma_end_table_follows,
        lemma_end_table_cell_follows,
        lemma_pop_context_follows,
        lemma_rewrite_marker_follows,
        lemma_write_emphasis_marker_follows,
        lemma_write_metadata_block_separator_follows,
        lemma_write_strong_marker_follows,
    };

    reveal(StateView::<_>::end_tag);
}

/// What `write_escaped` gives can follow the state it is taken from.
pub broadcast proof fn lemma_write_escaped_follows<E: ExternalFormatter>(
    s: StateView<E>,
    text: Seq<char>,
    start: usize,
)
    ensures
        spec_follows(s, #[trigger] s.write_escaped(text, start)),
        s.write_escaped(text, start).events == s.events,
        s.write_escaped(text, start).reference_links == s.reference_links,
{
    broadcast use lemma_write_follows;

    reveal(StateView::<_>::write_escaped);
}

/// What `format_text` gives can follow the state it is taken from.
pub broadcast proof fn lemma_format_text_follows<E: ExternalFormatter>(
    s: StateView<E>,
    parsed_text: Seq<char>,
    start: usize,
    end: usize,
)
    ensures
        spec_follows(s, #[trigger] s.format_text(parsed_text, start, end)),
        s.format_text(parsed_text, start, end).events == s.events,
        s.format_text(parsed_text, start, end).reference_links == s.reference_links,
{
    broadcast use {
        lemma_check_needs_indent_follows,
        lemma_write_follows,
        lemma_write_escaped_follows,
        lemma_write_newlines_follows,
    };

    reveal(StateView::<_>::format_text);
}

/// What `format_display_math` gives can follow the state it is taken from.
pub broadcast proof fn lemma_format_display_math_follows<E: ExternalFormatter>(
    s: StateView<E>,
    parsed_text: Seq<char>,
    end: usize,
)
    ensures
        spec_follows(s, #[trigger] s.format_display_math(parsed_text, end)),
        s.format_display_math(parsed_text, end).events == s.events,
        s.format_display_math(parsed_text, end).reference_links == s.reference_links,
{
    broadcast use {
        lemma_flush_external_formatted_follows,
        lemma_new_external_formatted_follows,
        lemma_write_follows,
        lemma_write_indentation_if_needed_follows,
    };

    reveal(StateView::<_>::format_display_math);
}

/// What `write_source` gives can follow the state it is taken from.
pub broadcast proof fn lemma_write_source_follows<E: ExternalFormatter>(
    s: StateView<E>,
    start: usize,
    end: usize,
)
    ensures
        spec_follows(s, #[trigger] s.write_source(start, end)),
        s.write_source(start, end).events == s.events,
        s.write_source(start, end).reference_links == s.reference_links,
{
    broadcast use lemma_write_follows;

    reveal(StateView::<_>::write_source);
}

/// What `format_soft_break` gives can follow the state it is taken from.
pub broadcast proof fn lemma_format_soft_break_follows<E: ExternalFormatter>(
    s: StateView<E>,
    start: usize,
    end: usize,
)
    ensures
        spec_follows(s, #[trigger] s.format_soft_break(start, end)),
        s.format_soft_break(start, end).events == s.events,
        s.format_soft_break(start, end).reference_links == s.reference_links,
{
    broadcast use {
        lemma_write_follows,
        lemma_write_indentation_follows,
    };

    reveal(StateView::<_>::format_soft_break);
}

/// What `format_inline` gives can follow the state it is taken from.
pub broadcast proof fn lemma_format_inline_follows<E: ExternalFormatter>(
    s: StateView<E>,
    kind: EventKind,
    start: usize,
    end: usize,
)
    ensures
        spec_follows(s, #[trigger] s.format_inline(kind, start, end)),
        s.format_inline(kind, start, end).events == s.events,
        s.format_inline(kind, start, end).reference_links == s.reference_links,
{
    broadcast use {
        lemma_check_needs_indent_follows,
        lemma_write_follows,
        lemma_write_newlines_follows,
    };

    reveal(StateView::<_>::format_inline);
}

/// What `format_rule` gives can follow the state it is taken from.
pub broadcast proof fn lemma_format_rule_follows<E: ExternalFormatter>(
    s: StateView<E>,
    start: usize,
    end: usize,
)
    ensures
        spec_follows(s, #[trigger] s.format_rule(start, end)),
        s.format_rule(start, end).events == s.events,
        s.format_rule(start, end).reference_links == s.reference_links,
{
    broadcast use {
        lemma_check_needs_indent_follows,
        lemma_write_follows,
        lemma_write_newlines_follows,
    };

    reveal(StateView::<_>::format_rule);
}

/// What `format_footnote_reference` gives can follow the state it is taken from.
pub broadcast proof fn lemma_format_footnote_reference_follows<E: ExternalFormatter>(
    s: StateView<E>,
    label: Seq<char>,
    end: usize,
)
    ensures
        spec_follows(s, #[trigger] s.format_footnote_reference(label, end)),
        s.format_footnote_reference(label, end).events == s.events,
        s.format_footnote_reference(label, end).reference_links == s.reference_links,
{
    broadcast use lemma_write_follows;

    reveal(StateView::<_>::format_footnote_reference);
}

/// What `format_task_list_marker` gives can follow the state it is taken from.
pub broadcast proof fn lemma_format_task_list_marker_follows<E: ExternalFormatter>(
    s: StateView<E>,
    done: bool,
    end: usize,
)
    ensures
        spec_follows(s, #[trigger] s.format_task_list_marker(done, end)),
        s.format_task_list_marker(done, end).events == s.events,
        s.format_task_list_marker(done, end).reference_links == s.reference_links,
{
    broadcast use lemma_write_follows;

    reveal(StateView::<_>::format_task_list_marker);
}

/// What `format_start` gives can follow the state it is taken from.
pub broadcast proof fn lemma_format_start_follows<E: ExternalFormatter>(
    s: StateView<E>,
    tag: MdTagView,
    start: usize,
    end: usize,
)
    ensures
        spec_follows(s, #[trigger] s.format_start(tag, start, end)),
        s.format_start(tag, start, end).events == s.events,
{
    broadcast use {
        lemma_rewrite_reference_link_definitions_follows,
        lemma_start_tag_follows,
    };

    reveal(StateView::<_>::format_start);
}

/// What `format_end` gives can follow the state it is taken from.
pub broadcast proof fn lemma_format_end_follows<E: ExternalFormatter>(
    s: StateView<E>,
    tag: TagKind,
    start: usize,
    end: usize,
)
    ensures
        spec_follows(s, #[trigger] s.format_end(tag, start, end)),
        s.format_end(tag, start, end).events == s.events,
        s.format_end(tag, start, end).reference_links == s.reference_links,
{
    broadcast use {
        lemma_check_needs_indent_follows,
        lemma_end_tag_follows,
    };

    reveal(StateView::<_>::format_end);
}

/// What `format_one_event` gives can follow the state it is taken from.
pub broadcast proof fn lemma_format_one_event_follows<E: ExternalFormatter>(
    s: StateView<E>,
    event: MdEventView,
    start: usize,
    end: usize,
)
    ensures
        spec_follows(s, #[trigger] s.format_one_event(event, start, end)),
        s.format_one_event(event, start, end).events == s.events,
{
    broadcast use {
        lemma_format_display_math_follows,
        lemma_format_end_follows,
        lemma_format_footnote_reference_follows,
        lemma_format_inline_follows,
        lemma_format_rule_follows,
        lemma_format_soft_break_follows,
        lemma_format_start_follows,
        lemma_format_task_list_marker_follows,
        lemma_format_text_follows,
        lemma_write_source_follows,
    };

    reveal(StateView::<_>::format_one_event);
}

} // verus!

//! What holds of every formatting run.
use vstd::prelude::*;
use crate::events::ReferenceLinkDefinitionView;
use crate::external_formatter::ExternalFormatter;
use crate::formatter::formatting_states::helpers::spec_find_marker;
use crate::external_formatter::combination::DefaultFormatterCombination;
use crate::formatter::formatting_states::frames::{
    lemma_fail_follows, lemma_format_one_event_follows, lemma_rewrite_final_reference_links_follows,
    spec_first_of, spec_follows, spec_never_rejects,
};
use crate::formatter::formatting_states::{FormatError, Route, StateView};
use crate::links::{spec_inline_link, spec_reference_definition};
use crate::text::CharSet;

verus! {

/// Whether two states differ at most in what was written and in the
/// failure that was noted: the document, what the open formatter and the open
/// table hold, and the first failure.
pub open spec fn spec_written_only<E: ExternalFormatter>(a: StateView<E>, b: StateView<E>) -> bool {
    b == (StateView {
        rewrite_buffer: b.rewrite_buffer,
        external: b.external,
        table: b.table,
        error: b.error,
        ..a
    }) && (a.external is Some <==> b.external is Some) && (a.table is Some <==> b.table is Some)
}

/// Writing changes nothing but what is written to.
pub proof fn lemma_write_writes_only<E: ExternalFormatter>(s: StateView<E>, text: Seq<char>)
    ensures
        spec_written_only(s, s.write(text)),
{
    reveal(StateView::<_>::write);
}

/// Writing indentations changes nothing but what is written to.
pub proof fn lemma_write_indents_writes_only<E: ExternalFormatter>(s: StateView<E>, i: int, n: int)
    ensures
        spec_written_only(s, s.write_indents(i, n)),
    decreases n - i,
{
    if !(i < 0 || i >= n || i >= s.indentation.len()) {
        lemma_write_writes_only(s, s.indentation[i]);
        lemma_write_indents_writes_only(s.write(s.indentation[i]), i + 1, n);
    }
}

/// Writing the indentation changes nothing but what is written to.
pub proof fn lemma_write_indentation_writes_only<E: ExternalFormatter>(s: StateView<E>, trim: bool)
    ensures
        spec_written_only(s, s.write_indentation(trim)),
{
    reveal(StateView::<_>::write_indentation);
    lemma_write_indents_writes_only(s, 0, s.indentation.len() as int);
    if trim {
        let p = crate::formatter::formatting_states::helpers::spec_last_non_blank(
            s.indentation,
            s.indentation.len() as int,
        );
        if p >= 0 {
            lemma_write_indents_writes_only(s, 0, p);
            lemma_write_writes_only(
                s.write_indents(0, p),
                crate::text::spec_trim(s.indentation[p]),
            );
        }
    }
}

/// Writing line feeds with their indentation changes nothing but what is
/// written to.
pub proof fn lemma_write_lines_writes_only<E: ExternalFormatter>(
    s: StateView<E>,
    i: nat,
    total: nat,
    nested: bool,
    always_trim: bool,
)
    ensures
        spec_written_only(s, s.write_lines(i, total, nested, always_trim)),
    decreases total - i,
{
    if i < total {
        let fed = s.write(seq!['\n']);
        lemma_write_writes_only(s, seq!['\n']);
        let indented = if nested {
            fed.write_indentation(i + 1 != total || always_trim)
        } else {
            fed
        };
        if nested {
            lemma_write_indentation_writes_only(fed, i + 1 != total || always_trim);
        }
        lemma_write_lines_writes_only(indented, i + 1, total, nested, always_trim);
    }
}

/// Writing the line feeds that are due changes nothing but what is written
/// to.
pub proof fn lemma_write_newlines_writes_only<E: ExternalFormatter>(
    s: StateView<E>,
    max_newlines: nat,
    always_trim: bool,
)
    ensures
        spec_written_only(s, s.write_newlines_inner(max_newlines, always_trim)),
{
    reveal(StateView::<_>::write_newlines_inner);
    if !s.is_current_buffer_empty() {
        let newlines = crate::formatter::formatting_states::helpers::spec_trailing_newlines(
            s.rewrite_buffer,
        );
        let to_write = if max_newlines >= newlines {
            (max_newlines - newlines) as nat
        } else {
            0
        };
        let written = s.write_lines(0, to_write, s.is_nested(), always_trim);
        lemma_write_lines_writes_only(s, 0, to_write, s.is_nested(), always_trim);
        if !s.is_nested() {
            lemma_write_indentation_writes_only(written, s.is_next_end_event() || always_trim);
        }
    }
}

/// Writing a link reference definition changes nothing but what is written
/// to.
pub proof fn lemma_write_definition_writes_only<E: ExternalFormatter>(
    s: StateView<E>,
    label: Seq<char>,
    dest: Seq<char>,
    title: Option<(Seq<char>, char)>,
)
    ensures
        spec_written_only(s, s.write_reference_link_definition_inner(label, dest, title)),
{
    reveal(StateView::<_>::write_reference_link_definition_inner);
    let s1 = s.write_newlines(1);
    lemma_write_newlines_writes_only(s, 1, false);
    let s2 = s1.write(seq!['[']);
    lemma_write_writes_only(s1, seq!['[']);
    let s3 = s2.write(crate::text::spec_trim(label));
    lemma_write_writes_only(s2, crate::text::spec_trim(label));
    let s4 = s3.write(seq![']', ':', ' ']);
    lemma_write_writes_only(s3, seq![']', ':', ' ']);
    let s5 = s4.write(crate::links::spec_format_link_url(dest, true));
    lemma_write_writes_only(s4, crate::links::spec_format_link_url(dest, true));
    match title {
        Some((text, quote)) => {
            let opener = crate::formatter::formatting_states::helpers::spec_title_opener_of(quote);
            let s6 = s5.write(seq![' ']);
            lemma_write_writes_only(s5, seq![' ']);
            let s7 = s6.write(seq![opener]);
            lemma_write_writes_only(s6, seq![opener]);
            let s8 = s7.write(text);
            lemma_write_writes_only(s7, text);
            lemma_write_writes_only(s8, seq![quote]);
        },
        None => {},
    }
}

/// What is written to the document is added at its end, and what is
/// written next goes to the document as well.
pub proof fn lemma_write_to_document<E: ExternalFormatter>(s: StateView<E>, text: Seq<char>)
    requires
        s.route() == Route::Rewrite,
    ensures
        s.write(text).rewrite_buffer == s.rewrite_buffer + text,
        s.write(text).route() == Route::Rewrite,
        s.write(text).error == s.error,
{
    reveal(StateView::<_>::write);
}

/// A link reference definition is written on one line, as
/// `[label]: destination "title"`: where the text goes to the document, the
/// document grows, behind the line feed that may be due, by exactly that
/// line.
pub proof fn lemma_definition_is_one_line<E: ExternalFormatter>(
    s: StateView<E>,
    label: Seq<char>,
    dest: Seq<char>,
    title: Option<(Seq<char>, char)>,
)
    requires
        s.write_newlines(1).route() == Route::Rewrite,
    ensures
        s.write_reference_link_definition_inner(label, dest, title).rewrite_buffer
            == s.write_newlines(1).rewrite_buffer + spec_reference_definition(label, dest, title),
{
    reveal(StateView::<_>::write_reference_link_definition_inner);
    let s1 = s.write_newlines(1);
    let s2 = s1.write(seq!['[']);
    lemma_write_to_document(s1, seq!['[']);
    let s3 = s2.write(crate::text::spec_trim(label));
    lemma_write_to_document(s2, crate::text::spec_trim(label));
    let s4 = s3.write(seq![']', ':', ' ']);
    lemma_write_to_document(s3, seq![']', ':', ' ']);
    let s5 = s4.write(crate::links::spec_format_link_url(dest, true));
    lemma_write_to_document(s4, crate::links::spec_format_link_url(dest, true));
    match title {
        Some((text, quote)) => {
            let opener = crate::formatter::formatting_states::helpers::spec_title_opener_of(quote);
            let s6 = s5.write(seq![' ']);
            lemma_write_to_document(s5, seq![' ']);
            let s7 = s6.write(seq![opener]);
            lemma_write_to_document(s6, seq![opener]);
            let s8 = s7.write(text);
            lemma_write_to_document(s7, text);
            let s9 = s8.write(seq![quote]);
            lemma_write_to_document(s8, seq![quote]);
            assert(s9.rewrite_buffer =~= s1.rewrite_buffer + spec_reference_definition(
                label,
                dest,
                title,
            ));
        },
        None => {
            assert(s5.rewrite_buffer =~= s1.rewrite_buffer + spec_reference_definition(
                label,
                dest,
                title,
            ));
        },
    }
}

/// An inline link is closed behind its text by `](destination)` or
/// `](destination "title")`: where the text goes to the document, the
/// document grows by exactly that.
pub proof fn lemma_inline_link_is_closed<E: ExternalFormatter>(
    s: StateView<E>,
    url: Seq<char>,
    title: Option<(Seq<char>, char)>,
)
    requires
        s.route() == Route::Rewrite,
    ensures
        s.write_inline_link(url, title).rewrite_buffer == s.rewrite_buffer + spec_inline_link(
            url,
            title,
        ),
{
    reveal(StateView::<_>::write_inline_link);
    reveal_strlit("](");
    reveal_strlit(" (");
    reveal_strlit("))");
    reveal_strlit(" ");
    reveal_strlit(")");
    let s1 = s.write("]("@);
    lemma_write_to_document(s, "]("@);
    let s2 = s1.write(crate::links::spec_format_link_url(url, false));
    lemma_write_to_document(s1, crate::links::spec_format_link_url(url, false));
    match title {
        Some((text, quote)) => {
            if quote == ')' {
                let s3 = s2.write(" ("@);
                lemma_write_to_document(s2, " ("@);
                let s4 = s3.write(text);
                lemma_write_to_document(s3, text);
                let s5 = s4.write("))"@);
                lemma_write_to_document(s4, "))"@);
                assert(s5.rewrite_buffer =~= s.rewrite_buffer + spec_inline_link(url, title));
            } else {
                let s3 = s2.write(" "@);
                lemma_write_to_document(s2, " "@);
                let s4 = s3.write(seq![quote]);
                lemma_write_to_document(s3, seq![quote]);
                let s5 = s4.write(text);
                lemma_write_to_document(s4, text);
                let s6 = s5.write(seq![quote]);
                lemma_write_to_document(s5, seq![quote]);
                let s7 = s6.write(")"@);
                lemma_write_to_document(s6, ")"@);
                assert(s7.rewrite_buffer =~= s.rewrite_buffer + spec_inline_link(url, title));
            }
        },
        None => {
            let s3 = s2.write(")"@);
            lemma_write_to_document(s2, ")"@);
            assert(s3.rewrite_buffer =~= s.rewrite_buffer + spec_inline_link(url, title));
        },
    }
}

/// Whether each definition begins at or behind the ones that follow it:
/// the first of the source stands last.
pub open spec fn spec_definitions_descend(definitions: Seq<ReferenceLinkDefinitionView>) -> bool {
    forall|i: int, j: int|
        0 <= i <= j < definitions.len() ==> definitions[i].start >= definitions[j].start
}

/// Of definitions that stand in the order of the source, those are
/// written, before an element that opens at `start`, that begin at or before
/// `start`; the ones that are left are those that begin behind `start`, in
/// their order.
pub proof fn lemma_flush_definitions_parts<E: ExternalFormatter>(
    s: StateView<E>,
    definitions: Seq<ReferenceLinkDefinitionView>,
    start: usize,
)
    requires
        spec_definitions_descend(definitions),
    ensures
        ({
            let left = s.flush_definitions(definitions, start).1;
            &&& left.len() <= definitions.len()
            &&& left == definitions.take(left.len() as int)
            &&& forall|i: int| 0 <= i < left.len() ==> (#[trigger] definitions[i]).start > start
            &&& forall|i: int|
                left.len() <= i < definitions.len() ==> (#[trigger] definitions[i]).start <= start
        }),
    decreases definitions.len(),
{
    if definitions.len() == 0 || definitions.last().start > start {
        assert(definitions.take(definitions.len() as int) =~= definitions);
    } else {
        let d = definitions.last();
        let s1 = s.write_newlines(s.count_newlines(d.start, d.end));
        let s2 = s1.write_reference_link_definition_inner(d.label, d.destination, d.title);
        let s3 = StateView { last_position: d.end, needs_indent: true, ..s2 };
        let rest = definitions.drop_last();
        lemma_flush_definitions_parts(s3, rest, start);
        let left = s3.flush_definitions(rest, start).1;
        assert(left =~= definitions.take(left.len() as int));
        assert forall|i: int| left.len() <= i < definitions.len() implies (
        #[trigger] definitions[i]).start <= start by {
            if i < rest.len() {
                assert(rest[i] == definitions[i]);
            }
        }
        assert forall|i: int| 0 <= i < left.len() implies (#[trigger] definitions[i]).start
            > start by {
            assert(rest[i] == definitions[i]);
        }
    }
}

/// Writing all definitions leaves the others of the state as they are.
pub proof fn lemma_flush_all_definitions_keeps<E: ExternalFormatter>(
    s: StateView<E>,
    definitions: Seq<ReferenceLinkDefinitionView>,
)
    ensures
        s.flush_all_definitions(definitions).reference_links == s.reference_links,
        s.flush_all_definitions(definitions).input == s.input,
        s.flush_all_definitions(definitions).events == s.events,
    decreases definitions.len(),
{
    if definitions.len() > 0 {
        let d = definitions.last();
        let s1 = s.write_newlines(s.count_newlines(d.start, d.end));
        lemma_write_newlines_writes_only(s, s.count_newlines(d.start, d.end), false);
        let s2 = s1.write_reference_link_definition_inner(d.label, d.destination, d.title);
        lemma_write_definition_writes_only(s1, d.label, d.destination, d.title);
        lemma_flush_all_definitions_keeps(
            StateView { last_position: d.end, ..s2 },
            definitions.drop_last(),
        );
    }
}

/// Link reference definitions are repositioned: each is written once, in
/// the order of the source. Before an element that opens at `start`, the
/// definitions are written and taken off that begin at or before `start`,
/// and those stay, in their order, that begin behind it; at the end of the
/// document the ones that are left are written, and none stays.
pub proof fn lemma_reference_links_repositioned<E: ExternalFormatter>(s: StateView<E>, start: usize)
    requires
        spec_definitions_descend(s.reference_links),
    ensures
        ({
            let left = s.rewrite_reference_link_definitions(start).reference_links;
            &&& left.len() <= s.reference_links.len()
            &&& left == s.reference_links.take(left.len() as int)
            &&& forall|i: int| 0 <= i < left.len() ==> (#[trigger] s.reference_links[i]).start > start
            &&& forall|i: int|
                left.len() <= i < s.reference_links.len() ==> (#[trigger] s.reference_links[i]).start
                    <= start
        }),
        s.rewrite_final_reference_links().reference_links.len() == 0,
{
    reveal(StateView::<_>::rewrite_reference_link_definitions);
    reveal(StateView::<_>::rewrite_final_reference_links);
    let taken = StateView { reference_links: Seq::empty(), ..s };
    if s.reference_links.len() > 0 {
        lemma_flush_definitions_parts(taken, s.reference_links, start);
    } else {
        assert(s.reference_links.take(0) =~= s.reference_links);
    }
    lemma_flush_all_definitions_keeps(taken, s.reference_links);
}

/// The fence of a fenced code block is preserved, its character and its
/// length: where the source begins at `start` with `n` fence characters and
/// then goes on with something else, or ends at `end`, the marker that is
/// written when the block opens and when it closes is exactly that run.
pub proof fn lemma_fence_preserved(input: Seq<char>, start: usize, end: usize, n: nat)
    requires
        n >= 1,
        start + n <= input.len(),
        forall|i: int| start <= i < start + n ==> input[i] == input[start as int],
        start + n < input.len() ==> input[start + n] != input[start as int],
        start + n == input.len() ==> end == input.len(),
    ensures
        spec_find_marker(input, start, end) == input.subrange(start as int, start + n),
{
    crate::text::lemma_scan_stops(
        input,
        CharSet::Just(input[start as int]),
        false,
        start as int,
        start + n,
    );
}

/// The info string of a fenced code block is preserved: where the source
/// of the block is a fence of backticks or tildes, an info string that
/// neither begins nor ends with white space, a line feed and the rest, the
/// info string that is written is that of the source, with no space in front
/// of it.
pub proof fn lemma_info_string_preserved(
    fence: Seq<char>,
    info: Seq<char>,
    rest: Seq<char>,
    parsed: Seq<char>,
)
    requires
        forall|i: int| 0 <= i < fence.len() ==> #[trigger] fence[i] == '`' || fence[i] == '~',
        info.len() > 0,
        forall|i: int| 0 <= i < info.len() ==> #[trigger] info[i] != '\n',
        info[0] != '`' && info[0] != '~',
        !crate::text::spec_is_whitespace(info[0]),
        !crate::text::spec_is_whitespace(info.last()),
    ensures
        crate::formatter::formatting_states::format::spec_fence_info(
            fence + info + seq!['\n'] + rest,
            parsed,
        ) == (false, info),
{
    reveal(crate::formatter::formatting_states::format::spec_fence_info);
    let source = fence + info + seq!['\n'] + rest;
    let set = CharSet::Either('`', '~');
    assert forall|i: int| 0 <= i < fence.len() implies set.has(#[trigger] source[i]) != false by {
        assert(source[i] == fence[i]);
    }
    assert(source[fence.len() as int] == info[0]);
    crate::text::lemma_scan_stops(source, set, false, 0, fence.len() as int);
    let exclude_fence = source.skip(fence.len() as int);
    assert(exclude_fence =~= info + seq!['\n'] + rest);
    assert(exclude_fence[0] == info[0]);
    let feed = CharSet::Just('\n');
    assert forall|i: int| 0 <= i < info.len() implies feed.has(#[trigger] exclude_fence[i])
        != true by {
        assert(exclude_fence[i] == info[i]);
    }
    assert(exclude_fence[info.len() as int] == '\n');
    crate::text::lemma_scan_stops(exclude_fence, feed, true, 0, info.len() as int);
    assert(exclude_fence.take(info.len() as int) =~= info);
    crate::text::lemma_trim_keeps(info);
}

/// Writing lines changes nothing but what is written to.
pub proof fn lemma_join_lines_writes_only<E: ExternalFormatter>(
    s: StateView<E>,
    text: Seq<char>,
    pos: int,
    start_with_indentation: bool,
    trim_last_newline: bool,
)
    ensures
        spec_written_only(
            s,
            s.join_lines(text, pos, start_with_indentation, trim_last_newline),
        ),
    decreases text.len() - pos,
{
    if !(pos < 0 || pos >= text.len()) {
        let end = crate::text::spec_line_end(text, pos);
        let line = text.subrange(pos, end);
        let is_last = end >= text.len();
        let blank = crate::formatter::formatting_states::helpers::spec_is_blank(line);
        let is_next_empty = !is_last && crate::formatter::formatting_states::helpers::spec_is_blank(
            text.subrange(end, crate::text::spec_line_end(text, end)),
        );
        let s1 = if start_with_indentation {
            s.write_indentation(blank)
        } else {
            s
        };
        if start_with_indentation {
            lemma_write_indentation_writes_only(s, blank);
        }
        let written = if blank {
            crate::text::spec_trim_start_matches(line, CharSet::Just(' '))
        } else if is_last && trim_last_newline {
            crate::text::spec_trim_end_matches(line, CharSet::Just('\n'))
        } else {
            line
        };
        let s2 = s1.write(written);
        lemma_write_writes_only(s1, written);
        let s3 = if !is_last && !start_with_indentation {
            s2.write_indentation(is_next_empty)
        } else {
            s2
        };
        if !is_last && !start_with_indentation {
            lemma_write_indentation_writes_only(s2, is_next_empty);
        }
        lemma_join_lines_writes_only(s3, text, end, start_with_indentation, trim_last_newline);
    }
}

/// A formatter is open only from the start of its content to the end:
/// once its text is written to the document, no formatter is open.
pub proof fn lemma_flush_closes_the_formatter<E: ExternalFormatter>(
    s: StateView<E>,
    trim_last_newline: bool,
)
    ensures
        s.flush_external_formatted(trim_last_newline).external is None,
{
    reveal(StateView::<_>::flush_external_formatted);
    reveal(StateView::<_>::join_with_indentation);
    match s.external {
        None => {},
        Some(f) => {
            let s0 = StateView { external: None, ..s };
            lemma_write_writes_only(s0, seq!['\n']);
            let external = E::spec_context(f)
                != crate::external_formatter::FormattingContext::Paragraph;
            let s1 = if external && s0.rewrite_buffer.len() > 0 && s0.rewrite_buffer.last() != '\n'
                && s0.rewrite_buffer.last() != ' ' && s0.rewrite_buffer.last() != '$' {
                s0.write(seq!['\n'])
            } else {
                s0
            };
            lemma_join_lines_writes_only(
                StateView { force_rewrite_buffer: true, ..s1 },
                E::spec_into_buffer(f),
                0,
                s1.needs_indent && external,
                trim_last_newline,
            );
        },
    }
}

/// A table is open only from its start to its end: once it is written to
/// the document, no table is open.
pub proof fn lemma_end_closes_the_table<E: ExternalFormatter>(s: StateView<E>)
    ensures
        s.end_table().table is None,
{
    reveal(StateView::<_>::end_table);
    reveal(StateView::<_>::pop_context);
    reveal(StateView::<_>::drop_indentation);
    reveal(StateView::<_>::join_with_indentation);
    let s1 = s.pop_context(crate::events::TagKind::Table);
    match s1.table {
        Some(t) => {
            lemma_join_lines_writes_only(
                StateView { force_rewrite_buffer: true, table: None, ..s1 },
                t.render(),
                0,
                false,
                true,
            );
        },
        None => {},
    }
}

/// What a run has written to the document stays: the document only grows.
pub proof fn lemma_document_only_grows<E: ExternalFormatter>(s: StateView<E>, fuel: nat)
    ensures
        crate::formatter::formatting_states::frames::spec_begins_with(
            s.run(fuel).close().rewrite_buffer,
            s.rewrite_buffer,
        ),
{
    lemma_run_follows(s, fuel);
    lemma_close_follows(s.run(fuel));
}

/// A run changes neither the source nor the settings, the definitions
/// that are left only get fewer, and the first failure stays.
pub proof fn lemma_run_follows<E: ExternalFormatter>(s: StateView<E>, fuel: nat)
    ensures
        spec_follows(s, s.run(fuel)),
        s.run(fuel).events == s.events.skip(
            if fuel <= s.events.len() {
                fuel as int
            } else {
                s.events.len() as int
            },
        ),
    decreases fuel,
{
    if fuel > 0 && s.events.len() > 0 {
        let next = s.events[0];
        let taken = StateView { events: s.events.skip(1), ..s };
        lemma_format_one_event_follows(taken, next.event, next.start, next.end);
        let stepped = taken.format_one_event(next.event, next.start, next.end);
        lemma_run_follows(stepped, (fuel - 1) as nat);
        let rest = if fuel - 1 <= stepped.events.len() {
            fuel - 1
        } else {
            stepped.events.len() as int
        };
        assert(s.events.skip(1).skip(rest) =~= s.events.skip(rest + 1));
    } else {
        assert(s.events.skip(0) =~= s.events);
        if s.events.len() == 0 {
            assert(s.events.skip(s.events.len() as int) =~= s.events);
        }
    }
}

/// Closing the document changes neither the source nor the settings, and
/// leaves no definition unwritten.
pub proof fn lemma_close_follows<E: ExternalFormatter>(s: StateView<E>)
    ensures
        spec_follows(s, s.close()),
        s.close().reference_links.len() == 0,
{
    let checked = if s.nested_context.len() > 0 {
        s.fail(FormatError::MismatchedTag)
    } else {
        s
    };
    lemma_fail_follows(s, FormatError::MismatchedTag);
    lemma_rewrite_final_reference_links_follows(checked);
    reveal(StateView::<_>::rewrite_final_reference_links);
    lemma_flush_all_definitions_keeps(
        StateView { reference_links: Seq::empty(), ..checked },
        checked.reference_links,
    );
}

/// From its start to its end a run works on one source with one set of
/// settings, takes in every event when it is given the fuel for them, writes
/// each link reference definition at most once on the way, and has written
/// them all at the end.
pub proof fn lemma_run_keeps_the_source<E: ExternalFormatter>(s: StateView<E>, fuel: nat)
    ensures
        fuel >= s.events.len() ==> s.run(fuel).events.len() == 0,
        s.run(fuel).input == s.input,
        s.run(fuel).config == s.config,
        spec_first_of(s.run(fuel).reference_links, s.reference_links),
        s.run(fuel).close().input == s.input,
        s.run(fuel).close().config == s.config,
        s.run(fuel).close().reference_links.len() == 0,
{
    lemma_run_follows(s, fuel);
    lemma_close_follows(s.run(fuel));
}

/// Formatting succeeds only where every element that was opened was
/// closed: at the end of a run that gives a document no element is open, and
/// no failure was noted on the way.
pub proof fn lemma_success_means_closed<E: ExternalFormatter>(s: StateView<E>)
    requires
        s.format() is Ok,
    ensures
        s.ranges_valid(),
        s.run(s.events.len()).nested_context.len() == 0,
        s.run(s.events.len()).error is None,
        s.error is None,
{
    let done = s.run(s.events.len());
    lemma_run_follows(s, s.events.len());
    let checked = if done.nested_context.len() > 0 {
        done.fail(FormatError::MismatchedTag)
    } else {
        done
    };
    lemma_fail_follows(done, FormatError::MismatchedTag);
    lemma_rewrite_final_reference_links_follows(checked);
}

/// Throughout a run the link reference definitions that are left stand in
/// the order of the source, the first of the source last, in whatever order
/// they were handed in: so each is written before the first element that
/// opens at or behind it, in the order of the source.
pub proof fn lemma_definitions_stay_ordered<E: ExternalFormatter>(
    input: Seq<char>,
    config: crate::config::Config,
    events: Seq<crate::events::SourceEventView>,
    definitions: Seq<ReferenceLinkDefinitionView>,
    fuel: nat,
)
    ensures
        spec_definitions_descend(
            crate::formatter::formatting_states::spec_initial_state::<E>(
                input,
                config,
                events,
                definitions,
            ).run(fuel).reference_links,
        ),
{
    let s = crate::formatter::formatting_states::spec_initial_state::<E>(
        input,
        config,
        events,
        definitions,
    );
    crate::formatter::formatting_states::definitions::lemma_ordered_orders(definitions);
    lemma_run_follows(s, fuel);
    let left = s.run(fuel).reference_links;
    assert forall|i: int, j: int| 0 <= i <= j < left.len() implies left[i].start
        >= left[j].start by {
        assert(left[i] == s.reference_links[i]);
        assert(left[j] == s.reference_links[j]);
    }
}

/// When an element opens at `start`, the link reference definitions that
/// begin at or before `start` are written first, in the order of the source,
/// and then the element is opened. Opening the element leaves the other
/// definitions untouched: afterwards exactly those are left that begin behind
/// `start`, in their order, and the source counts as taken in up to `start`.
pub proof fn lemma_start_repositions_definitions<E: ExternalFormatter>(
    s: StateView<E>,
    tag: crate::events::MdTagView,
    start: usize,
    end: usize,
)
    requires
        spec_definitions_descend(s.reference_links),
    ensures
        s.format_start(tag, start, end) == (StateView {
            last_position: start,
            ..s.rewrite_reference_link_definitions(start).start_tag(tag, start, end)
        }),
        s.format_one_event(crate::events::MdEventView::Start(tag), start, end) == s.format_start(
            tag,
            start,
            end,
        ),
        ({
            let left = s.format_start(tag, start, end).reference_links;
            &&& left == s.rewrite_reference_link_definitions(start).reference_links
            &&& left.len() <= s.reference_links.len()
            &&& left == s.reference_links.take(left.len() as int)
            &&& forall|i: int| 0 <= i < left.len() ==> (#[trigger] s.reference_links[i]).start > start
            &&& forall|i: int|
                left.len() <= i < s.reference_links.len() ==> (#[trigger] s.reference_links[i]).start
                    <= start
        }),
{
    reveal(StateView::<_>::format_start);
    reveal(StateView::<_>::format_one_event);
    lemma_reference_links_repositioned(s, start);
    crate::formatter::formatting_states::frames::lemma_start_tag_follows(
        s.rewrite_reference_link_definitions(start),
        tag,
        start,
        end,
    );
}

/// When a table ends, what goes into the document is the table as it is
/// laid out, each column as wide as `TableView::column_width` says: the rows
/// that `TableView::render` gives are put in line by line, behind the
/// indentation, and the last without its line feed.
pub proof fn lemma_end_writes_the_table<E: ExternalFormatter>(s: StateView<E>)
    requires
        s.pop_context(crate::events::TagKind::Table).table is Some,
    ensures
        s.end_table() == ({
            let closed = s.pop_context(crate::events::TagKind::Table);
            (StateView { table: None, ..closed }).join_with_indentation(
                closed.table->0.render(),
                false,
                true,
            ).drop_indentation()
        }),
        s.end_tag(crate::events::TagKind::Table, 0, 0) == s.end_table(),
{
    reveal(StateView::<_>::end_table);
    reveal(StateView::<_>::end_tag);
}

/// Writing is forced to the document only while a block that was
/// formatted is put into it: between the events of a run it never is.
pub proof fn lemma_writing_is_not_forced_between_events<E: ExternalFormatter>(
    s: StateView<E>,
    fuel: nat,
)
    requires
        !s.force_rewrite_buffer,
    ensures
        !s.run(fuel).force_rewrite_buffer,
{
    lemma_run_follows(s, fuel);
}

/// The content of a code block is passed on untouched: text that comes
/// while a code block is open goes to its formatter as it was read, in one
/// write, without trimming, escaping or indentation. The document and what is
/// due before the next event stay as they are. Where the formatter refuses
/// the text, it stays as it is too and the run fails.
pub proof fn lemma_code_text_goes_to_the_formatter<E: ExternalFormatter>(
    s: StateView<E>,
    text: Seq<char>,
    start: usize,
    end: usize,
)
    requires
        s.external is Some,
        E::spec_context(s.external->0) == crate::external_formatter::FormattingContext::CodeBlock,
        s.in_fenced_code_block() || s.in_indented_code_block(),
        !s.force_rewrite_buffer,
    ensures
        ({
            let after = s.format_one_event(crate::events::MdEventView::Text(text), start, end);
            &&& after.rewrite_buffer == s.rewrite_buffer
            &&& after.needs_indent == s.needs_indent
            &&& after.nested_context == s.nested_context
            &&& after.indentation == s.indentation
            &&& after.external == if E::spec_rejects(s.external->0, text) {
                s.external
            } else {
                Some(E::spec_write(s.external->0, text))
            }
            &&& after.error == if E::spec_rejects(s.external->0, text) && s.error is None {
                Some(FormatError::WriteFailure)
            } else {
                s.error
            }
        }),
{
    reveal(StateView::<_>::format_one_event);
    reveal(StateView::<_>::format_text);
    reveal(StateView::<_>::write);
}

/// The final line feed mirrors that of the source: a formatted document
/// ends with a line feed exactly where the source does.
pub proof fn lemma_final_line_feed_mirrors_the_source<E: ExternalFormatter>(s: StateView<E>)
    requires
        s.format() is Ok,
    ensures
        (s.format()->Ok_0.len() > 0 && s.format()->Ok_0.last() == '\n') <==> (s.input.len() > 0
            && s.input.last() == '\n'),
{
    let done = s.run(s.events.len()).close();
    crate::text::lemma_trim_end_matches_ends(done.rewrite_buffer, CharSet::Just('\n'));
}

/// The first failure of a run is the one that formatting gives: a run
/// that begins with a failure noted ends with it.
pub proof fn lemma_first_failure_stays<E: ExternalFormatter>(s: StateView<E>)
    requires
        s.error is Some,
        s.ranges_valid(),
    ensures
        s.format() == Err::<Seq<char>, FormatError>(s.error->0),
{
    lemma_run_follows(s, s.events.len());
    lemma_close_follows(s.run(s.events.len()));
}

/// Formatting never fails with `WriteFailure` where the formatter takes
/// every text that is written to it.
pub proof fn lemma_no_write_fails<E: ExternalFormatter>(s: StateView<E>)
    requires
        spec_never_rejects::<E>(),
        s.error is None,
    ensures
        s.format() != Err::<Seq<char>, FormatError>(FormatError::WriteFailure),
{
    lemma_run_follows(s, s.events.len());
    lemma_close_follows(s.run(s.events.len()));
}

/// The formatters of `DefaultFormatterCombination` take every text.
pub proof fn lemma_default_formatters_take_all()
    ensures
        spec_never_rejects::<DefaultFormatterCombination>(),
{
}

} // verus!

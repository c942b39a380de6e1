//! Formatting a document: the events it is read as are taken one by one,
//! and the formatted text is written as they go by.
use vstd::prelude::*;
use crate::adapters::loose_list::{all_loose_lists, spec_all_loose_lists};
use crate::adapters::sequential_blocks::{all_sequential_blocks, spec_all_sequential_blocks};
use crate::builder::MarkdownFormatter;
use crate::config::Config;
use crate::events::{
    definition_views, event_views, ReferenceLinkDefinition, ReferenceLinkDefinitionView,
    SourceEvent, SourceEventView,
};
use crate::external_formatter::ExternalFormatter;
use crate::formatter::formatting_states::{
    result_view, spec_initial_state, FormatError, FormatState,
};
use crate::links::{
    recover_escaped_link_destination_and_title, spec_recover_escaped_link_destination_and_title,
    spec_add,
};
use crate::offsets::{
    into_queue, locate_definitions, locate_events, spec_locate_definition,
    spec_locate_definitions, spec_locate_events,
};
use crate::order::{sort_later_first, starts_descend};
use crate::parser::{
    markdown_definitions, markdown_events, parse_definitions, parse_events, raw_views,
    RawDefinition, RawDefinitionView,
};
use crate::text::{
    all, chars_of, find, scan, span, spec_all, spec_find, spec_scan, spec_span, to_vec, CharSet,
};

pub mod formatting_states;

verus! {

/// Whether something else than white space stands in the source between
/// `end` and the end of its line. What was read as the title of a link
/// reference definition is none where that holds.
pub open spec fn spec_is_false_title(input: Seq<char>, end: usize) -> bool {
    let rest = spec_span(input, end as int, input.len() as int);
    !spec_all(rest.take(spec_scan(rest, CharSet::Just('\n'), true, 0)), CharSet::Whitespace)
}

fn is_false_title(input: &[char], end: usize) -> (r: bool)
    ensures
        r == spec_is_false_title(input@, end),
{
    // There can't be any characters besides spaces, tabs, or newlines after the title
    let rest = span(input, end, input.len());
    let line = scan(rest, CharSet::Just('\n'), true, 0);
    let first = vstd::slice::slice_subrange(rest, 0, line);
    assert(first@ =~= rest@.take(line as int));
    !all(first, CharSet::Whitespace)
}

/// The link reference definition as it is written: with the destination
/// and the title as they stand in the source, where they can be found
/// there, and else as they were read. A title that something follows on
/// its line is none, and the definition ends behind its destination.
#[verifier::opaque]
pub open spec fn spec_presort(input: Seq<char>, raw: RawDefinitionView) -> ReferenceLinkDefinitionView {
    let full_link = spec_span(input, raw.start as int, raw.end as int);
    if raw.title is Some && spec_is_false_title(input, raw.end) {
        let at = spec_find(full_link, raw.dest, 0);
        ReferenceLinkDefinitionView {
            label: raw.label,
            destination: raw.dest,
            title: None,
            start: raw.start,
            end: if at < full_link.len() {
                spec_add(spec_add(raw.start, at as usize), raw.dest.len() as usize)
            } else {
                raw.end
            },
        }
    } else {
        match spec_recover_escaped_link_destination_and_title(
            full_link,
            raw.label,
            raw.title is Some,
        ) {
            Some(parts) => ReferenceLinkDefinitionView {
                label: raw.label,
                destination: parts.url,
                title: parts.title,
                start: raw.start,
                end: raw.end,
            },
            // Couldn't recover URL from source, just use what we've been given
            None => ReferenceLinkDefinitionView {
                label: raw.label,
                destination: raw.dest,
                title: match raw.title {
                    Some(text) => Some((text, '"')),
                    None => None,
                },
                start: raw.start,
                end: raw.end,
            },
        }
    }
}

pub fn presort(input: &[char], raw: &RawDefinition) -> (r: ReferenceLinkDefinition)
    ensures
        r@ == spec_presort(input@, raw@),
{
    reveal(spec_presort);
    let full_link = span(input, raw.start, raw.end);
    if raw.title.is_some() && is_false_title(input, raw.end) {
        let at = find(full_link, raw.dest.as_slice(), 0);
        let end = if at < full_link.len() {
            crate::links::add(crate::links::add(raw.start, at), raw.dest.len())
        } else {
            raw.end
        };
        return ReferenceLinkDefinition {
            label: to_vec(raw.label.as_slice()),
            destination: to_vec(raw.dest.as_slice()),
            title: None,
            start: raw.start,
            end,
        };
    }
    match recover_escaped_link_destination_and_title(
        full_link,
        raw.label.as_slice(),
        raw.title.is_some(),
    ) {
        Some(parts) => ReferenceLinkDefinition {
            label: to_vec(raw.label.as_slice()),
            destination: parts.url,
            title: parts.title,
            start: raw.start,
            end: raw.end,
        },
        None => ReferenceLinkDefinition {
            label: to_vec(raw.label.as_slice()),
            destination: to_vec(raw.dest.as_slice()),
            title: match &raw.title {
                Some(text) => Some((to_vec(text.as_slice()), '"')),
                None => None,
            },
            start: raw.start,
            end: raw.end,
        },
    }
}

/// The link reference definitions as they are written, in the order of
/// `definitions`.
pub open spec fn spec_presort_all(input: Seq<char>, definitions: Seq<RawDefinitionView>) -> Seq<
    ReferenceLinkDefinitionView,
> {
    Seq::new(definitions.len(), |i: int| spec_presort(input, definitions[i]))
}

fn presort_all(input: &[char], definitions: &Vec<RawDefinition>) -> (r: Vec<ReferenceLinkDefinition>)
    ensures
        definition_views(r@) == spec_presort_all(input@, raw_views(definitions@)),
{
    let mut out: Vec<ReferenceLinkDefinition> = Vec::new();
    let mut i: usize = 0;
    while i < definitions.len()
        invariant
            i <= definitions@.len(),
            out@.len() == i,
            forall|k: int|
                0 <= k < i ==> (#[trigger] out@[k])@ == spec_presort(
                    input@,
                    raw_views(definitions@)[k],
                ),
        decreases definitions@.len() - i,
    {
        out.push(presort(input, &definitions[i]));
        i += 1;
    }
    assert(definition_views(out@) =~= spec_presort_all(input@, raw_views(definitions@)));
    out
}

/// The definitions go into a run in the order that the run relies on:
/// where they are handed in with the later one first, the run begins with
/// each definition at or behind the ones that follow it.
pub proof fn lemma_definitions_enter_in_order(input: Seq<char>, definitions: Seq<RawDefinitionView>)
    requires
        starts_descend(definitions),
        spec_locate_definitions(input, definitions) is Some,
    ensures
        crate::formatter::formatting_states::laws::spec_definitions_descend(
            spec_presort_all(input, spec_locate_definitions(input, definitions)->0),
        ),
{
    reveal(spec_presort);
    let located = spec_locate_definitions(input, definitions)->0;
    let sorted = spec_presort_all(input, located);
    assert forall|i: int, j: int| 0 <= i <= j < sorted.len() implies sorted[i].start
        >= sorted[j].start by {
        assert(spec_locate_definition(input, definitions[i]) is Some);
        assert(spec_locate_definition(input, definitions[j]) is Some);
        assert(definitions[i].start >= definitions[j].start);
        crate::offsets::lemma_char_index_keeps_order(
            input,
            definitions[j].start,
            definitions[i].start,
        );
        assert(sorted[i].start == located[i].start);
        assert(sorted[j].start == located[j].start);
    }
}

/// What formatting makes of the source `input` that was read as `events`
/// and holds the link reference definitions `definitions`, both with their
/// parts of the source counted in bytes. The run puts the definitions in
/// the order of the source; of those that begin at the same place, the one
/// that is handed in last is taken up first.
///
/// `SourceRange` where a part of the source does not begin and end between
/// characters; `MissingEndTag` where a list never ends, or a block opens
/// inside a block of its family that never ends; else what the run over the
/// repaired events gives.
pub open spec fn spec_format_parsed<E: ExternalFormatter>(
    input: Seq<char>,
    config: Config,
    events: Seq<SourceEventView>,
    definitions: Seq<RawDefinitionView>,
) -> Result<Seq<char>, FormatError> {
    match (spec_locate_events(input, events), spec_locate_definitions(input, definitions)) {
        (Some(located), Some(defined)) => match spec_all_loose_lists(input, located) {
            Ok(loose) => match spec_all_sequential_blocks(loose) {
                Ok(sequential) => spec_initial_state::<E>(
                    input,
                    config,
                    sequential,
                    spec_presort_all(input, defined),
                ).format(),
                Err(e) => Err(e),
            },
            Err(e) => Err(e),
        },
        _ => Err(FormatError::SourceRange),
    }
}

impl<E: ExternalFormatter> MarkdownFormatter<E> {
    /// Format Markdown input that was read already: `events` are its
    /// events and `definitions` its link reference definitions, both with
    /// their parts of the source counted in bytes.
    pub fn format_parsed(
        self,
        input: &str,
        events: Vec<SourceEvent>,
        definitions: Vec<RawDefinition>,
    ) -> (r: Result<String, FormatError>)
        ensures
            result_view(r) == spec_format_parsed::<E>(
                input@,
                self@,
                event_views(events@),
                raw_views(definitions@),
            ),
    {
        let config = self.into_config();
        let chars = chars_of(input);
        let located = locate_events(chars.as_slice(), into_queue(events));
        let defined = locate_definitions(chars.as_slice(), definitions);
        match (located, defined) {
            (Some(located), Some(defined)) => {
                let reference_links = presort_all(chars.as_slice(), &defined);
                let loose = match all_loose_lists(chars.as_slice(), located) {
                    Ok(loose) => loose,
                    Err(e) => {
                        return Err(e);
                    },
                };
                match all_sequential_blocks(loose) {
                    Ok(sequential) => {
                        let fmt_state = FormatState::<E>::from_parts(
                            chars,
                            config,
                            sequential,
                            reference_links,
                        );
                        fmt_state.format()
                    },
                    Err(e) => Err(e),
                }
            },
            _ => Err(FormatError::SourceRange),
        }
    }

    /// Format Markdown input
    ///
    /// The source is read by the parser, and what the parser hands out is
    /// formatted as `format_parsed` does, with the link reference
    /// definitions ordered by where they begin, the later one first.
    pub fn format(self, input: &str) -> (r: Result<String, FormatError>)
        ensures
            exists|definitions: Seq<RawDefinitionView>|
                #![trigger starts_descend(definitions)]
                definitions.to_multiset() == markdown_definitions(input@) && starts_descend(
                    definitions,
                ) && result_view(r) == spec_format_parsed::<E>(
                    input@,
                    self@,
                    markdown_events(input@),
                    definitions,
                ),
    {
        let events = parse_events(input);
        let definitions = sort_later_first(parse_definitions(input));
        self.format_parsed(input, events, definitions)
    }
}

} // verus!

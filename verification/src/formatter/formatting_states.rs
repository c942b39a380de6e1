//! The state of one formatting run.
use std::collections::VecDeque;
use vstd::prelude::*;
use crate::config::Config;
use crate::events::{
    definition_views, event_views, id_view, tag_views, EventKind, ReferenceLinkDefinition,
    ReferenceLinkDefinitionView, SourceEvent, SourceEventView, MdTag, MdTagView,
};
use crate::external_formatter::ExternalFormatter;
use crate::list::ParseListMarkerError;
use crate::table::{TableState, TableView};
use crate::text::texts;

pub mod definitions;
pub mod format;
pub mod frames;
pub mod helpers;
pub mod laws;

verus! {

/// Why a document could not be formatted.
#[derive(Clone, Copy, Debug, PartialEq, Eq, Structural)]
pub enum FormatError {
    /// A formatter refused the text that was written to it.
    WriteFailure,
    /// An element ended that was not the one that was open.
    MismatchedTag,
    /// A block was opened inside another of its family, and that one never
    /// ended.
    MissingEndTag,
    /// The source of a list item does not begin with a list marker.
    ListMarker(ParseListMarkerError),
    /// An event speaks of a part of the source that is not there.
    SourceRange,
}

impl FormatError {
    /// Whether the failure lies with the events: they are not those of a
    /// well-formed document over the source.
    pub open spec fn spec_is_invariant_violation(self) -> bool {
        !(self is WriteFailure)
    }

    pub fn is_invariant_violation(&self) -> (r: bool)
        ensures
            r == self.spec_is_invariant_violation(),
    {
        match self {
            FormatError::WriteFailure => false,
            _ => true,
        }
    }
}

/// The event that comes next: its kind and where its part of the source
/// begins.
#[derive(Clone, Copy, Debug, PartialEq, Eq, Structural)]
pub struct Upcoming {
    pub kind: EventKind,
    pub start: usize,
}

/// Where text that is written goes.
#[derive(Clone, Copy, Debug, PartialEq, Eq, Structural)]
pub enum Route {
    /// To the formatted document.
    Rewrite,
    /// To the formatter that is open.
    External,
    /// To the cell of the table that is open.
    Table,
    /// Nowhere: the text is dropped.
    Nowhere,
}

/// The state of a formatting run as a mathematical value.
pub struct StateView<E: ExternalFormatter> {
    /// The source.
    pub input: Seq<char>,
    /// The events that are still to come.
    pub events: Seq<SourceEventView>,
    pub last_was_softbreak: bool,
    /// The formatted document so far.
    pub rewrite_buffer: Seq<char>,
    /// What the open formatter holds, where one is open.
    pub external: Option<E::State>,
    /// What each open block puts at the start of its lines.
    pub indentation: Seq<Seq<char>>,
    /// The elements that are open, the innermost last.
    pub nested_context: Seq<MdTagView>,
    /// The link reference definitions that are not written yet, the first
    /// of the source last.
    pub reference_links: Seq<ReferenceLinkDefinitionView>,
    /// The underline of the setext heading that is open.
    pub setext_header: Option<Seq<char>>,
    /// The identifier and the classes of the heading that is open.
    pub header_id_and_classes: Option<(Option<Seq<char>>, Seq<Seq<char>>)>,
    /// Whether line feeds and indentation are due before what comes next.
    pub needs_indent: bool,
    /// The table that is open.
    pub table: Option<TableView>,
    /// Up to where the source has been taken in.
    pub last_position: usize,
    pub trim_link_or_image_start: bool,
    pub force_rewrite_buffer: bool,
    pub config: Config,
    /// The first failure of the run.
    pub error: Option<FormatError>,
}

pub struct FormatState<E: ExternalFormatter> {
    /// Raw markdown input
    pub input: Vec<char>,
    /// The events that are still to come.
    pub events: VecDeque<SourceEvent>,
    pub last_was_softbreak: bool,
    pub rewrite_buffer: Vec<char>,
    /// Handles code block, HTML block, and paragraph formatting.
    pub external_formatter: Option<E>,
    /// Stack that keeps track of indentation.
    pub indentation: Vec<Vec<char>>,
    /// Stack that keeps track of whether we're formatting inside of another element.
    pub nested_context: Vec<MdTag>,
    /// The reference link definitions that will be output, the first of the
    /// source last.
    pub reference_links: Vec<ReferenceLinkDefinition>,
    /// keep track of the current setext header.
    pub setext_header: Option<Vec<char>>,
    /// Store the fragment identifier and classes from the header start tag.
    pub header_id_and_classes: Option<(Option<Vec<char>>, Vec<Vec<char>>)>,
    /// next Start event should push indentation
    pub needs_indent: bool,
    pub table_state: Option<TableState>,
    pub last_position: usize,
    pub trim_link_or_image_start: bool,
    /// Force write into rewrite buffer.
    pub force_rewrite_buffer: bool,
    /// Format configurations
    pub config: Config,
    /// The first failure of the run.
    pub error: Option<FormatError>,
}

impl<E: ExternalFormatter> View for FormatState<E> {
    type V = StateView<E>;

    open spec fn view(&self) -> StateView<E> {
        StateView {
            input: self.input@,
            events: event_views(self.events@),
            last_was_softbreak: self.last_was_softbreak,
            rewrite_buffer: self.rewrite_buffer@,
            external: match self.external_formatter {
                Some(f) => Some(f.state()),
                None => None,
            },
            indentation: texts(self.indentation@),
            nested_context: tag_views(self.nested_context@),
            reference_links: definition_views(self.reference_links@),
            setext_header: match self.setext_header {
                Some(marker) => Some(marker@),
                None => None,
            },
            header_id_and_classes: match self.header_id_and_classes {
                Some((id, classes)) => Some((id_view(id), texts(classes@))),
                None => None,
            },
            needs_indent: self.needs_indent,
            table: match self.table_state {
                Some(t) => Some(t@),
                None => None,
            },
            last_position: self.last_position,
            trim_link_or_image_start: self.trim_link_or_image_start,
            force_rewrite_buffer: self.force_rewrite_buffer,
            config: self.config,
            error: self.error,
        }
    }
}

/// The state at the start of a run over `input`: nothing is written,
/// nothing is open, and the link reference definitions stand in the order in
/// which they are taken up from the back, the first of the source last.
pub open spec fn spec_initial_state<E: ExternalFormatter>(
    input: Seq<char>,
    config: Config,
    events: Seq<SourceEventView>,
    reference_links: Seq<ReferenceLinkDefinitionView>,
) -> StateView<E> {
    StateView {
        input,
        events,
        last_was_softbreak: false,
        rewrite_buffer: Seq::empty(),
        external: None,
        indentation: Seq::empty(),
        nested_context: Seq::empty(),
        reference_links: crate::formatter::formatting_states::definitions::spec_ordered(
            reference_links,
        ),
        setext_header: None,
        header_id_and_classes: None,
        needs_indent: false,
        table: None,
        last_position: 0,
        trim_link_or_image_start: false,
        force_rewrite_buffer: false,
        config,
        error: None,
    }
}

impl<E: ExternalFormatter> StateView<E> {
    /// Whether every event and every definition speaks of a part of the
    /// source that is there.
    pub open spec fn ranges_valid(self) -> bool {
        &&& forall|i: int|
            0 <= i < self.events.len() ==> (#[trigger] self.events[i]).spec_within(self.input.len())
        &&& forall|i: int|
            0 <= i < self.reference_links.len() ==> (#[trigger] self.reference_links[i]).start
                <= self.reference_links[i].end <= self.input.len()
    }

    /// The state after the events that are still to come were taken in,
    /// one by one and at most `fuel` of them.
    pub open spec fn run(self, fuel: nat) -> Self
        decreases fuel,
    {
        if fuel == 0 || self.events.len() == 0 {
            self
        } else {
            let next = self.events[0];
            (StateView { events: self.events.skip(1), ..self }).format_one_event(
                next.event,
                next.start,
                next.end,
            ).run((fuel - 1) as nat)
        }
    }

    /// The state at the end of the document: the run fails where an
    /// element is still open, and the link reference definitions that are
    /// left are written.
    pub open spec fn close(self) -> Self {
        let s = if self.nested_context.len() > 0 {
            self.fail(FormatError::MismatchedTag)
        } else {
            self
        };
        s.rewrite_final_reference_links()
    }

    /// What a run gives that ended in this state: the failure that was
    /// noted, or the formatted document. Where `trailing_newline` is set,
    /// that is what was written and one line feed behind it; else it is what
    /// was written without the line feeds at its end.
    pub open spec fn outcome(self, trailing_newline: bool) -> Result<Seq<char>, FormatError> {
        match self.error {
            Some(e) => Err(e),
            None => Ok(
                if trailing_newline {
                    self.rewrite_buffer.push('\n')
                } else {
                    crate::text::spec_trim_end_matches(
                        self.rewrite_buffer,
                        crate::text::CharSet::Just('\n'),
                    )
                },
            ),
        }
    }

    /// What formatting gives from this state on: `SourceRange` where an
    /// event or a definition speaks of a part of the source that is not
    /// there; else the outcome of taking in all events and closing the
    /// document, which ends with a line feed exactly where the source does.
    pub open spec fn format(self) -> Result<Seq<char>, FormatError> {
        if !self.ranges_valid() {
            Err(FormatError::SourceRange)
        } else {
            self.run(self.events.len()).close().outcome(
                self.input.len() > 0 && self.input.last() == '\n',
            )
        }
    }
}

/// The formatted text as a mathematical value.
pub open spec fn result_view(r: Result<String, FormatError>) -> Result<Seq<char>, FormatError> {
    match r {
        Ok(text) => Ok(text@),
        Err(e) => Err(e),
    }
}

impl<E: ExternalFormatter> FormatState<E> {
    fn ranges_valid(&self) -> (r: bool)
        ensures
            r == self@.ranges_valid(),
    {
        let len = self.input.len();
        let mut i: usize = 0;
        while i < self.events.len()
            invariant
                len == self@.input.len(),
                i <= self.events@.len(),
                forall|k: int|
                    0 <= k < i ==> (#[trigger] self@.events[k]).spec_within(self@.input.len()),
            decreases self.events@.len() - i,
        {
            let event: &SourceEvent = &self.events[i];
            if !event.within(len) {
                assert(!self@.events[i as int].spec_within(self@.input.len()));
                return false;
            }
            i += 1;
        }
        let mut j: usize = 0;
        while j < self.reference_links.len()
            invariant
                len == self@.input.len(),
                j <= self.reference_links@.len(),
                forall|k: int|
                    0 <= k < self@.events.len() ==> (#[trigger] self@.events[k]).spec_within(
                        self@.input.len(),
                    ),
                forall|k: int|
                    0 <= k < j ==> (#[trigger] self@.reference_links[k]).start
                        <= self@.reference_links[k].end <= self@.input.len(),
            decreases self.reference_links@.len() - j,
        {
            let definition = &self.reference_links[j];
            if !(definition.start <= definition.end && definition.end <= len) {
                assert(!(self@.reference_links[j as int].start <= self@.reference_links[j as int].end
                    <= self@.input.len()));
                return false;
            }
            j += 1;
        }
        true
    }

    /// The main entry point for markdown formatting.
    pub fn format(self) -> (r: Result<String, FormatError>)
        ensures
            result_view(r) == self@.format(),
    {
        let mut state = self;
        if !state.ranges_valid() {
            return Err(FormatError::SourceRange);
        }
        let trailing_newline = state.input.len() > 0 && state.input[state.input.len() - 1] == '\n';
        let n = state.events.len();
        let ghost initial = state@;
        let mut i: usize = 0;
        while i < n
            invariant
                i <= n,
                initial.run(n as nat) == state@.run((n - i) as nat),
            decreases n - i,
        {
            let ghost before = state.events@;
            match state.events.pop_front() {
                Some(next) => {
                    assert(event_views(state.events@) =~= event_views(before).skip(1));
                    assert(next@ == event_views(before)[0]);
                    state.format_one_event(next.event, next.start, next.end);
                },
                None => {},
            }
            i += 1;
        }
        if state.nested_context.len() > 0 {
            state.fail(FormatError::MismatchedTag);
        }
        state.rewrite_final_reference_links();
        match state.error {
            Some(e) => Err(e),
            None => {
                if trailing_newline {
                    let mut output = crate::text::string_of(state.rewrite_buffer.as_slice());
                    output.push('\n');
                    Ok(output)
                } else {
                    Ok(
                        crate::text::string_of(
                            crate::text::trim_end_matches(
                                state.rewrite_buffer.as_slice(),
                                crate::text::CharSet::Just('\n'),
                            ),
                        ),
                    )
                }
            },
        }
    }

    /// The state at the start of a run over `input`, which `events` were
    /// read from; `reference_links` are its link reference definitions, in
    /// any order. All parts of the source are counted in characters.
    pub fn new(
        input: &str,
        config: Config,
        events: Vec<SourceEvent>,
        reference_links: Vec<ReferenceLinkDefinition>,
    ) -> (r: Self)
        ensures
            r@ == spec_initial_state::<E>(
                input@,
                config,
                event_views(events@),
                definition_views(reference_links@),
            ),
    {
        Self::from_parts(
            crate::text::chars_of(input),
            config,
            crate::offsets::into_queue(events),
            reference_links,
        )
    }

    /// As `new`, from the source as characters and the events as a queue.
    pub fn from_parts(
        input: Vec<char>,
        config: Config,
        events: VecDeque<SourceEvent>,
        reference_links: Vec<ReferenceLinkDefinition>,
    ) -> (r: Self)
        ensures
            r@ == spec_initial_state::<E>(
                input@,
                config,
                event_views(events@),
                definition_views(reference_links@),
            ),
    {
        let reference_links = crate::formatter::formatting_states::definitions::order_definitions(
            reference_links,
        );
        let r = FormatState {
            input,
            events,
            last_was_softbreak: false,
            rewrite_buffer: Vec::new(),
            external_formatter: None,
            indentation: Vec::new(),
            nested_context: Vec::new(),
            reference_links,
            setext_header: None,
            header_id_and_classes: None,
            needs_indent: false,
            table_state: None,
            last_position: 0,
            trim_link_or_image_start: false,
            force_rewrite_buffer: false,
            config,
            error: None,
        };
        assert(r@.indentation =~= Seq::empty());
        assert(r@.nested_context =~= Seq::empty());
        r
    }
}

} // verus!

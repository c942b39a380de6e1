//! Blocks of one family, code blocks, HTML blocks and paragraphs, come one
//! after the other: none begins before the one before it has ended.
use std::collections::VecDeque;
use vstd::prelude::*;
use crate::events::{
    event_views, put_back, take_front, MdEvent, MdEventView, MdTag, MdTagView, SourceEvent,
    SourceEventView, TagKind,
};
use crate::external_formatter::FormattingContext;
use crate::formatter::formatting_states::FormatError;

verus! {

/// The kind of block that `tag` opens, where it opens a code block, an
/// HTML block or a paragraph.
pub open spec fn spec_context_of_tag(tag: MdTagView) -> Option<FormattingContext> {
    match tag {
        MdTagView::CodeBlock(_) => Some(FormattingContext::CodeBlock),
        MdTagView::HtmlBlock => Some(FormattingContext::HtmlBlock),
        MdTagView::Paragraph => Some(FormattingContext::Paragraph),
        _ => None,
    }
}

/// The kind of block that `tag` closes, where it closes a code block, an
/// HTML block or a paragraph.
pub open spec fn spec_context_of_tag_end(tag: TagKind) -> Option<FormattingContext> {
    match tag {
        TagKind::CodeBlock => Some(FormattingContext::CodeBlock),
        TagKind::HtmlBlock => Some(FormattingContext::HtmlBlock),
        TagKind::Paragraph => Some(FormattingContext::Paragraph),
        _ => None,
    }
}

pub fn context_of_tag(tag: &MdTag) -> (r: Option<FormattingContext>)
    ensures
        r == spec_context_of_tag(tag@),
{
    match tag {
        MdTag::CodeBlock(_) => Some(FormattingContext::CodeBlock),
        MdTag::HtmlBlock => Some(FormattingContext::HtmlBlock),
        MdTag::Paragraph => Some(FormattingContext::Paragraph),
        _ => None,
    }
}

pub fn context_of_tag_end(tag: TagKind) -> (r: Option<FormattingContext>)
    ensures
        r == spec_context_of_tag_end(tag),
{
    match tag {
        TagKind::CodeBlock => Some(FormattingContext::CodeBlock),
        TagKind::HtmlBlock => Some(FormattingContext::HtmlBlock),
        TagKind::Paragraph => Some(FormattingContext::Paragraph),
        _ => None,
    }
}

/// Whether `event` ends the block of kind `context`.
pub open spec fn spec_ends_context(event: SourceEventView, context: Option<FormattingContext>) -> bool {
    event.event matches MdEventView::End(tag) && spec_context_of_tag_end(tag) == context
}

/// The index of the first event at or behind `i` that ends the block of
/// kind `context`; the number of events where there is none.
pub open spec fn spec_find_end(
    inner: Seq<SourceEventView>,
    context: Option<FormattingContext>,
    i: int,
) -> int
    decreases inner.len() - i,
{
    if i < 0 || i >= inner.len() {
        inner.len() as int
    } else if spec_ends_context(inner[i], context) {
        i
    } else {
        spec_find_end(inner, context, i + 1)
    }
}

/// An adapter as a mathematical value.
pub struct AdapterView {
    /// The events that are still to be read.
    pub inner: Seq<SourceEventView>,
    /// The kind of block we are in.
    pub context: Option<FormattingContext>,
    /// The events that appeared too early.
    pub out_of_place_events: Seq<SourceEventView>,
}

impl AdapterView {
    /// How many events are still to be handed out.
    pub open spec fn pending(self) -> nat {
        self.inner.len() + self.out_of_place_events.len()
    }

    /// The event that is taken up next: the first that appeared too early,
    /// or, where there is none, the first that is still to be read.
    pub open spec fn first(self) -> SourceEventView {
        if self.out_of_place_events.len() > 0 {
            self.out_of_place_events[0]
        } else {
            self.inner[0]
        }
    }

    /// The adapter without the event that is taken up next.
    pub open spec fn rest(self) -> AdapterView {
        if self.out_of_place_events.len() > 0 {
            AdapterView { out_of_place_events: self.out_of_place_events.skip(1), ..self }
        } else {
            AdapterView { inner: self.inner.skip(1), ..self }
        }
    }

    /// The adapter after the events up to the end of the open block were
    /// put aside behind `event`, and that end: the first event still to be
    /// read that ends the open block. `None` where no such event is left.
    pub open spec fn exhaust_mismatching_context(self, event: SourceEventView) -> Option<
        (AdapterView, SourceEventView),
    > {
        let k = spec_find_end(self.inner, self.context, 0);
        if k < 0 || k >= self.inner.len() {
            None
        } else {
            Some(
                (
                    AdapterView {
                        inner: self.inner.skip(k + 1),
                        context: None,
                        out_of_place_events: self.out_of_place_events.push(event)
                            + self.inner.take(k),
                    },
                    self.inner[k],
                ),
            )
        }
    }

    /// The adapter after its next event was handed out, and that event:
    /// `None` at the end; a failure where a block opens inside an open one
    /// that never ends.
    pub open spec fn next(self) -> (AdapterView, Option<Result<SourceEventView, FormatError>>) {
        if self.pending() == 0 {
            (self, None)
        } else {
            let event = self.first();
            let rest = self.rest();
            match event.event {
                MdEventView::Start(tag) => match spec_context_of_tag(tag) {
                    Some(context) => match rest.context {
                        None => (AdapterView { context: Some(context), ..rest }, Some(Ok(event))),
                        Some(_) => match rest.exhaust_mismatching_context(event) {
                            // Entering a new context without exiting the
                            // current one.
                            Some((after, end)) => (after, Some(Ok(end))),
                            None => (rest, Some(Err(FormatError::MissingEndTag))),
                        },
                    },
                    None => (rest, Some(Ok(event))),
                },
                MdEventView::End(tag) => if spec_context_of_tag_end(tag) is Some {
                    (AdapterView { context: None, ..rest }, Some(Ok(event)))
                } else {
                    (rest, Some(Ok(event)))
                },
                _ => (rest, Some(Ok(event))),
            }
        }
    }

    /// All the events that the adapter hands out, behind `out`.
    pub open spec fn drain(self, out: Seq<SourceEventView>) -> Result<
        Seq<SourceEventView>,
        FormatError,
    >
        decreases self.pending(),
    {
        let (after, event) = self.next();
        match event {
            Some(Ok(event)) => if after.pending() < self.pending() {
                after.drain(out.push(event))
            } else {
                Ok(out)
            },
            Some(Err(e)) => Err(e),
            None => Ok(out),
        }
    }
}

/// The events in the order in which the formatter takes them: where a code
/// block, an HTML block or a paragraph opens inside an open one, the events
/// up to the end of the open one are put aside and follow that end.
pub open spec fn spec_all_sequential_blocks(events: Seq<SourceEventView>) -> Result<
    Seq<SourceEventView>,
    FormatError,
> {
    (AdapterView { inner: events, context: None, out_of_place_events: Seq::empty() }).drain(
        Seq::empty(),
    )
}

/// Whether the events come one block after the other already: no code
/// block, HTML block or paragraph opens among them while `context` says that
/// one is open.
pub open spec fn spec_is_sequential(
    events: Seq<SourceEventView>,
    context: Option<FormattingContext>,
) -> bool
    decreases events.len(),
{
    if events.len() == 0 {
        true
    } else {
        match events[0].event {
            MdEventView::Start(tag) => match spec_context_of_tag(tag) {
                Some(opened) => context is None && spec_is_sequential(events.skip(1), Some(opened)),
                None => spec_is_sequential(events.skip(1), context),
            },
            MdEventView::End(tag) => if spec_context_of_tag_end(tag) is Some {
                spec_is_sequential(events.skip(1), None)
            } else {
                spec_is_sequential(events.skip(1), context)
            },
            _ => spec_is_sequential(events.skip(1), context),
        }
    }
}

/// Events that come one block after the other already are handed out as
/// they are, in their order.
pub proof fn lemma_sequential_events_stay(
    events: Seq<SourceEventView>,
    context: Option<FormattingContext>,
    out: Seq<SourceEventView>,
)
    requires
        spec_is_sequential(events, context),
    ensures
        (AdapterView { inner: events, context, out_of_place_events: Seq::empty() }).drain(out)
            == Ok::<Seq<SourceEventView>, FormatError>(out + events),
    decreases events.len(),
{
    let adapter = AdapterView { inner: events, context, out_of_place_events: Seq::empty() };
    if events.len() == 0 {
        assert(out + events =~= out);
    } else {
        let (after, event) = adapter.next();
        assert(event == Some(Ok::<SourceEventView, FormatError>(events[0])));
        assert(after.inner == events.skip(1));
        assert(after.out_of_place_events == Seq::<SourceEventView>::empty());
        lemma_sequential_events_stay(events.skip(1), after.context, out.push(events[0]));
        assert(out.push(events[0]) + events.skip(1) =~= out + events);
    }
}

/// The adapter leaves events alone that need no repair: what comes one
/// block after the other already comes out as it went in.
pub proof fn lemma_all_sequential_blocks_keeps(events: Seq<SourceEventView>)
    requires
        spec_is_sequential(events, None),
    ensures
        spec_all_sequential_blocks(events) == Ok::<Seq<SourceEventView>, FormatError>(events),
{
    lemma_sequential_events_stay(events, None, Seq::empty());
    assert(Seq::<SourceEventView>::empty() + events =~= events);
}

/// The events of a sequence are its first and the rest.
proof fn lemma_first_and_rest(s: Seq<SourceEventView>)
    requires
        s.len() > 0,
    ensures
        s.to_multiset() == s.skip(1).to_multiset().insert(s[0]),
{
    broadcast use vstd::multiset::group_multiset_axioms;

    let head = Seq::<SourceEventView>::empty().push(s[0]);
    assert(s =~= head + s.skip(1));
    vstd::seq_lib::lemma_multiset_commutative(head, s.skip(1));
    vstd::seq_lib::to_multiset_build(Seq::<SourceEventView>::empty(), s[0]);
    Seq::<SourceEventView>::empty().to_multiset_ensures();
    assert(Seq::<SourceEventView>::empty().to_multiset() =~= vstd::multiset::Multiset::empty());
    assert(s.to_multiset() =~= s.skip(1).to_multiset().insert(s[0]));
}

/// The events of a sequence are those before the index `k`, the one at
/// `k` and those behind it.
proof fn lemma_around(s: Seq<SourceEventView>, k: int)
    requires
        0 <= k < s.len(),
    ensures
        s.to_multiset() == s.take(k).to_multiset().add(s.skip(k + 1).to_multiset()).insert(s[k]),
{
    broadcast use vstd::multiset::group_multiset_axioms;

    assert(s =~= s.take(k) + s.skip(k));
    vstd::seq_lib::lemma_multiset_commutative(s.take(k), s.skip(k));
    lemma_first_and_rest(s.skip(k));
    assert(s.skip(k).skip(1) =~= s.skip(k + 1));
    assert(s.to_multiset() =~= s.take(k).to_multiset().add(s.skip(k + 1).to_multiset()).insert(
        s[k],
    ));
}

/// The events that an adapter still holds: those that appeared too early
/// and those that are still to be read, each as often as it occurs.
pub open spec fn spec_held(a: AdapterView) -> vstd::multiset::Multiset<SourceEventView> {
    a.out_of_place_events.to_multiset().add(a.inner.to_multiset())
}

/// Handing out an event takes exactly that event from what the adapter
/// holds.
pub proof fn lemma_next_takes_one(a: AdapterView)
    ensures
        a.next().1 matches Some(Ok(event)) ==> a.next().0.pending() + 1 == a.pending()
            && spec_held(a) == spec_held(a.next().0).insert(event),
{
    broadcast use vstd::multiset::group_multiset_axioms;

    if a.pending() > 0 {
        let event = a.first();
        let rest = a.rest();
        if a.out_of_place_events.len() > 0 {
            lemma_first_and_rest(a.out_of_place_events);
        } else {
            lemma_first_and_rest(a.inner);
        }
        assert(spec_held(a) =~= spec_held(rest).insert(event));
        match rest.exhaust_mismatching_context(event) {
            Some((after, end)) => {
                let k = spec_find_end(rest.inner, rest.context, 0);
                lemma_around(rest.inner, k);
                vstd::seq_lib::to_multiset_build(rest.out_of_place_events, event);
                vstd::seq_lib::lemma_multiset_commutative(
                    rest.out_of_place_events.push(event),
                    rest.inner.take(k),
                );
                assert(spec_held(rest).insert(event) =~= spec_held(after).insert(end));
            },
            None => {},
        }
    }
}

/// The adapter reorders and nothing else: where it hands all events out,
/// they are the events that went in, each as often as it occurs.
pub proof fn lemma_drain_keeps_the_events(a: AdapterView, out: Seq<SourceEventView>)
    ensures
        a.drain(out) matches Ok(events) ==> events.to_multiset() == out.to_multiset().add(
            spec_held(a),
        ),
    decreases a.pending(),
{
    broadcast use vstd::multiset::group_multiset_axioms;

    let (after, event) = a.next();
    lemma_next_takes_one(a);
    match event {
        Some(Ok(event)) => {
            lemma_drain_keeps_the_events(after, out.push(event));
            vstd::seq_lib::to_multiset_build(out, event);
            assert(out.push(event).to_multiset().add(spec_held(after)) =~= out.to_multiset().add(
                spec_held(a),
            ));
        },
        Some(Err(_)) => {},
        None => {
            a.inner.to_multiset_ensures();
            a.out_of_place_events.to_multiset_ensures();
            assert(spec_held(a) =~= vstd::multiset::Multiset::empty());
            assert(out.to_multiset().add(spec_held(a)) =~= out.to_multiset());
        },
    }
}

/// Putting the events in order loses none and adds none: the events that
/// come out are those that went in, each as often as it occurs.
pub proof fn lemma_all_sequential_blocks_keeps_the_events(events: Seq<SourceEventView>)
    ensures
        spec_all_sequential_blocks(events) matches Ok(sorted) ==> sorted.to_multiset()
            == events.to_multiset(),
{
    broadcast use vstd::multiset::group_multiset_axioms;

    let a = AdapterView { inner: events, context: None, out_of_place_events: Seq::empty() };
    lemma_drain_keeps_the_events(a, Seq::empty());
    Seq::<SourceEventView>::empty().to_multiset_ensures();
    assert(Seq::<SourceEventView>::empty().to_multiset() =~= vstd::multiset::Multiset::empty());
    assert(Seq::<SourceEventView>::empty().to_multiset().add(spec_held(a))
        =~= events.to_multiset());
}

/// Hands the events out so that no block (code, HTML, or paragraph)
/// starts before the previous one ends.
pub struct SequentialBlockAdapter {
    /// Inner queue that returns the events
    inner: VecDeque<SourceEvent>,
    /// The kind of block we are in.
    context: Option<FormattingContext>,
    /// Events that appear too early.
    out_of_place_events: VecDeque<SourceEvent>,
}

impl View for SequentialBlockAdapter {
    type V = AdapterView;

    closed spec fn view(&self) -> AdapterView {
        AdapterView {
            inner: event_views(self.inner@),
            context: self.context,
            out_of_place_events: event_views(self.out_of_place_events@),
        }
    }
}

/// The event as a mathematical value, where there is one.
pub open spec fn next_view(r: Option<Result<SourceEvent, FormatError>>) -> Option<
    Result<SourceEventView, FormatError>,
> {
    match r {
        Some(Ok(event)) => Some(Ok(event@)),
        Some(Err(e)) => Some(Err(e)),
        None => None,
    }
}

impl SequentialBlockAdapter {
    pub fn new(inner: VecDeque<SourceEvent>) -> (r: Self)
        ensures
            r@ == (AdapterView {
                inner: event_views(inner@),
                context: None,
                out_of_place_events: Seq::empty(),
            }),
    {
        let r = Self { inner, context: None, out_of_place_events: VecDeque::new() };
        assert(event_views(r.out_of_place_events@) =~= Seq::empty());
        r
    }

    /// Hands out the next event.
    pub fn next(&mut self) -> (r: Option<Result<SourceEvent, FormatError>>)
        ensures
            (final(self)@, next_view(r)) == old(self)@.next(),
            r matches Some(Ok(_)) ==> final(self)@.pending() < old(self)@.pending(),
    {
        let event = if self.out_of_place_events.len() > 0 {
            take_front(&mut self.out_of_place_events)
        } else if self.inner.len() > 0 {
            take_front(&mut self.inner)
        } else {
            return None;
        };
        let opened = match &event.event {
            MdEvent::Start(tag) => context_of_tag(tag),
            _ => None,
        };
        let closed = match &event.event {
            MdEvent::End(tag) => context_of_tag_end(*tag),
            _ => None,
        };
        match opened {
            Some(context) => {
                match self.context {
                    None => {
                        self.context = Some(context);
                    },
                    Some(_) => {
                        // Entering a new context without exiting the
                        // current one.
                        return match self.exhaust_mismatching_context(event) {
                            Some(end) => Some(Ok(end)),
                            None => Some(Err(FormatError::MissingEndTag)),
                        };
                    },
                }
            },
            None => {
                if closed.is_some() {
                    self.context = None;
                }
            },
        }
        Some(Ok(event))
    }

    /// Whether the event at index `k` of those still to be read ends the
    /// open block.
    fn ends_context(&self, k: usize) -> (r: bool)
        requires
            k < self@.inner.len(),
        ensures
            r == spec_ends_context(self@.inner[k as int], self@.context),
    {
        let candidate: &SourceEvent = &self.inner[k];
        match &candidate.event {
            MdEvent::End(tag) => context_of_tag_end(*tag) == self.context,
            _ => false,
        }
    }

    /// Find and cache all events that are out of place,
    /// and return the next event that is in place.
    fn exhaust_mismatching_context(&mut self, event: SourceEvent) -> (r: Option<SourceEvent>)
        ensures
            match old(self)@.exhaust_mismatching_context(event@) {
                Some((after, end)) => r is Some && r->0@ == end && final(self)@ == after
                    && final(self)@.pending() == old(self)@.pending(),
                None => r is None && final(self)@ == old(self)@,
            },
    {
        let ghost before = self@;
        let mut k: usize = 0;
        // look for the end before anything is moved
        while k < self.inner.len() && !self.ends_context(k)
            invariant
                self@ == before,
                k <= self.inner@.len(),
                spec_find_end(before.inner, before.context, 0) == spec_find_end(
                    before.inner,
                    before.context,
                    k as int,
                ),
            decreases self.inner@.len() - k,
        {
            k += 1;
        }
        if k >= self.inner.len() {
            return None;
        }
        put_back(&mut self.out_of_place_events, event);
        let mut i: usize = 0;
        while i < k
            invariant
                i <= k < before.inner.len(),
                self.context == before.context,
                self.inner@.len() == before.inner.len() - i,
                event_views(self.inner@) == before.inner.skip(i as int),
                event_views(self.out_of_place_events@) == before.out_of_place_events.push(event@)
                    + before.inner.take(i as int),
            decreases k - i,
        {
            let moved = take_front(&mut self.inner);
            put_back(&mut self.out_of_place_events, moved);
            assert(event_views(self.inner@) =~= before.inner.skip(i + 1));
            assert(event_views(self.out_of_place_events@) =~= before.out_of_place_events.push(
                event@,
            ) + before.inner.take(i + 1));
            i += 1;
        }
        let end = take_front(&mut self.inner);
        assert(event_views(self.inner@) =~= before.inner.skip(k + 1));
        self.context = None;
        Some(end)
    }
}

/// Puts the events in the order in which the formatter takes them.
pub fn all_sequential_blocks(events: VecDeque<SourceEvent>) -> (r: Result<
    VecDeque<SourceEvent>,
    FormatError,
>)
    ensures
        match r {
            Ok(sorted) => Ok(event_views(sorted@)),
            Err(e) => Err(e),
        } == spec_all_sequential_blocks(event_views(events@)),
{
    let mut adapter = SequentialBlockAdapter::new(events);
    let ghost start = adapter@;
    let mut out: VecDeque<SourceEvent> = VecDeque::new();
    assert(event_views(out@) =~= Seq::empty());
    loop
        invariant_except_break
            start.drain(Seq::empty()) == adapter@.drain(event_views(out@)),
        invariant
            start == (AdapterView {
                inner: event_views(events@),
                context: None,
                out_of_place_events: Seq::empty(),
            }),
        ensures
            start.drain(Seq::empty()) == Ok::<Seq<SourceEventView>, FormatError>(event_views(out@)),
        decreases adapter@.pending(),
    {
        match adapter.next() {
            Some(Ok(event)) => {
                put_back(&mut out, event);
            },
            Some(Err(e)) => {
                return Err(e);
            },
            None => {
                break ;
            },
        }
    }
    Ok(out)
}

} // verus!

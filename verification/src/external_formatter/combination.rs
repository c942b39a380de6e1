//! One formatter for each kind of content, put together.
use vstd::prelude::*;
use crate::external_formatter::buffers::{PreservingBuffer, TrimTo4Indent};
use crate::external_formatter::paragraph::Paragraph;
use crate::external_formatter::{
    BufferType, BufferTypeView, ExternalFormatter, FormattingContext, WriteError,
};

verus! {

/// A convenience combination of
/// external formatters implementing [`ExternalFormatter`],
/// using one [`ExternalFormatter`] for each of code block (`C`),
/// display math (`D`), HTML block (`H`), and paragraph (`P`) formatting.
pub enum FormatterCombination<C, D, H, P> {
    /// Inner code block formatter.
    CodeBlock(C),
    /// Inner display math formatter.
    DisplayMath(D),
    /// Inner HTML block formatter.
    HtmlBlock(H),
    /// Inner paragraph formatter.
    Paragraph(P),
}

/// What a `FormatterCombination` holds: what the formatter holds that it
/// is made of.
pub enum CombinationState<C, D, H, P> {
    CodeBlock(C),
    DisplayMath(D),
    HtmlBlock(H),
    Paragraph(P),
}

impl<
    C: ExternalFormatter,
    D: ExternalFormatter,
    H: ExternalFormatter,
    P: ExternalFormatter,
> ExternalFormatter for FormatterCombination<C, D, H, P> {
    type State = CombinationState<C::State, D::State, H::State, P::State>;

    open spec fn state(&self) -> Self::State {
        match self {
            FormatterCombination::CodeBlock(c) => CombinationState::CodeBlock(c.state()),
            FormatterCombination::DisplayMath(d) => CombinationState::DisplayMath(d.state()),
            FormatterCombination::HtmlBlock(h) => CombinationState::HtmlBlock(h.state()),
            FormatterCombination::Paragraph(p) => CombinationState::Paragraph(p.state()),
        }
    }

    /// The formatter is the one for the kind of content.
    open spec fn spec_new(buffer_type: BufferTypeView, max_width: Option<usize>) -> Self::State {
        match buffer_type {
            BufferTypeView::CodeBlock { .. } => CombinationState::CodeBlock(
                C::spec_new(buffer_type, max_width),
            ),
            BufferTypeView::DisplayMath => CombinationState::DisplayMath(
                D::spec_new(buffer_type, max_width),
            ),
            BufferTypeView::HtmlBlock => CombinationState::HtmlBlock(
                H::spec_new(buffer_type, max_width),
            ),
            BufferTypeView::Paragraph => CombinationState::Paragraph(
                P::spec_new(buffer_type, max_width),
            ),
        }
    }

    open spec fn spec_rejects(state: Self::State, text: Seq<char>) -> bool {
        match state {
            CombinationState::CodeBlock(c) => C::spec_rejects(c, text),
            CombinationState::DisplayMath(d) => D::spec_rejects(d, text),
            CombinationState::HtmlBlock(h) => H::spec_rejects(h, text),
            CombinationState::Paragraph(p) => P::spec_rejects(p, text),
        }
    }

    open spec fn spec_write(state: Self::State, text: Seq<char>) -> Self::State {
        match state {
            CombinationState::CodeBlock(c) => CombinationState::CodeBlock(C::spec_write(c, text)),
            CombinationState::DisplayMath(d) => CombinationState::DisplayMath(
                D::spec_write(d, text),
            ),
            CombinationState::HtmlBlock(h) => CombinationState::HtmlBlock(H::spec_write(h, text)),
            CombinationState::Paragraph(p) => CombinationState::Paragraph(P::spec_write(p, text)),
        }
    }

    open spec fn spec_is_empty(state: Self::State) -> bool {
        match state {
            CombinationState::CodeBlock(c) => C::spec_is_empty(c),
            CombinationState::DisplayMath(d) => D::spec_is_empty(d),
            CombinationState::HtmlBlock(h) => H::spec_is_empty(h),
            CombinationState::Paragraph(p) => P::spec_is_empty(p),
        }
    }

    open spec fn spec_context(state: Self::State) -> FormattingContext {
        match state {
            CombinationState::CodeBlock(c) => C::spec_context(c),
            CombinationState::DisplayMath(d) => D::spec_context(d),
            CombinationState::HtmlBlock(h) => H::spec_context(h),
            CombinationState::Paragraph(p) => P::spec_context(p),
        }
    }

    open spec fn spec_into_buffer(state: Self::State) -> Seq<char> {
        match state {
            CombinationState::CodeBlock(c) => C::spec_into_buffer(c),
            CombinationState::DisplayMath(d) => D::spec_into_buffer(d),
            CombinationState::HtmlBlock(h) => H::spec_into_buffer(h),
            CombinationState::Paragraph(p) => P::spec_into_buffer(p),
        }
    }

    fn new(buffer_type: BufferType, max_width: Option<usize>, capacity: usize) -> (r: Self) {
        match buffer_type {
            BufferType::CodeBlock { .. } => {
                FormatterCombination::CodeBlock(C::new(buffer_type, max_width, capacity))
            },
            BufferType::DisplayMath => FormatterCombination::DisplayMath(
                D::new(buffer_type, max_width, capacity),
            ),
            BufferType::HtmlBlock => FormatterCombination::HtmlBlock(
                H::new(buffer_type, max_width, capacity),
            ),
            BufferType::Paragraph => FormatterCombination::Paragraph(
                P::new(buffer_type, max_width, capacity),
            ),
        }
    }

    fn is_empty(&self) -> (r: bool) {
        match self {
            FormatterCombination::CodeBlock(c) => c.is_empty(),
            FormatterCombination::DisplayMath(d) => d.is_empty(),
            FormatterCombination::HtmlBlock(h) => h.is_empty(),
            FormatterCombination::Paragraph(p) => p.is_empty(),
        }
    }

    fn context(&self) -> (r: FormattingContext) {
        match self {
            FormatterCombination::CodeBlock(c) => c.context(),
            FormatterCombination::DisplayMath(d) => d.context(),
            FormatterCombination::HtmlBlock(h) => h.context(),
            FormatterCombination::Paragraph(p) => p.context(),
        }
    }

    fn write_str(&mut self, text: &str) -> (r: Result<(), WriteError>) {
        match self {
            FormatterCombination::CodeBlock(c) => c.write_str(text),
            FormatterCombination::DisplayMath(d) => d.write_str(text),
            FormatterCombination::HtmlBlock(h) => h.write_str(text),
            FormatterCombination::Paragraph(p) => p.write_str(text),
        }
    }

    fn into_buffer(self) -> (r: String) {
        match self {
            FormatterCombination::CodeBlock(c) => c.into_buffer(),
            FormatterCombination::DisplayMath(d) => d.into_buffer(),
            FormatterCombination::HtmlBlock(h) => h.into_buffer(),
            FormatterCombination::Paragraph(p) => p.into_buffer(),
        }
    }
}

/// A default [`ExternalFormatter`].
/// Preserve code blocks as is,
/// trim indentation < 4 in display math and HTML blocks,
/// and line-wrap paragraphs.
pub type DefaultFormatterCombination = FormatterCombination<
    PreservingBuffer,
    TrimTo4Indent,
    TrimTo4Indent,
    Paragraph,
>;

} // verus!

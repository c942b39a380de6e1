//! The formatters that text which is no Markdown is handed to: the content of
//! code blocks, HTML blocks, display math and paragraphs.
use vstd::prelude::*;

pub mod buffers;
pub mod combination;
pub mod fn_based;
pub mod paragraph;

verus! {

/// Type of the string being written to an [`ExternalFormatter`].
#[derive(Clone, Debug, Eq, PartialEq)]
pub enum BufferType {
    /// String in a code block.
    CodeBlock {
        /// Optional info string of the code block.
        info: Option<String>,
    },
    /// Display math expression.
    DisplayMath,
    /// String in an HTML block.
    HtmlBlock,
    /// String in a paragraph.
    Paragraph,
}

/// A `BufferType` as a mathematical value.
pub enum BufferTypeView {
    CodeBlock { info: Option<Seq<char>> },
    DisplayMath,
    HtmlBlock,
    Paragraph,
}

impl BufferTypeView {
    pub open spec fn to_formatting_context(self) -> FormattingContext {
        match self {
            BufferTypeView::CodeBlock { .. } => FormattingContext::CodeBlock,
            BufferTypeView::DisplayMath => FormattingContext::DisplayMath,
            BufferTypeView::HtmlBlock => FormattingContext::HtmlBlock,
            BufferTypeView::Paragraph => FormattingContext::Paragraph,
        }
    }
}

impl View for BufferType {
    type V = BufferTypeView;

    open spec fn view(&self) -> BufferTypeView {
        match self {
            BufferType::CodeBlock { info } => BufferTypeView::CodeBlock {
                info: match info {
                    Some(text) => Some(text@),
                    None => None,
                },
            },
            BufferType::DisplayMath => BufferTypeView::DisplayMath,
            BufferType::HtmlBlock => BufferTypeView::HtmlBlock,
            BufferType::Paragraph => BufferTypeView::Paragraph,
        }
    }
}

impl BufferType {
    /// The associated [`FormattingContext`] of this buffer type.
    pub fn to_formatting_context(&self) -> (r: FormattingContext)
        ensures
            r == self@.to_formatting_context(),
    {
        match self {
            BufferType::CodeBlock { .. } => FormattingContext::CodeBlock,
            BufferType::DisplayMath => FormattingContext::DisplayMath,
            BufferType::HtmlBlock => FormattingContext::HtmlBlock,
            BufferType::Paragraph => FormattingContext::Paragraph,
        }
    }
}

/// Type of the formatting context an [`ExternalFormatter`] is in.
#[derive(Copy, Clone, Debug, Eq, PartialEq, Structural)]
pub enum FormattingContext {
    /// A code block.
    CodeBlock,
    /// A display math block.
    DisplayMath,
    /// An HTML block.
    HtmlBlock,
    /// A paragraph.
    Paragraph,
}

/// A formatter refused the text it was handed.
#[derive(Copy, Clone, Debug, Eq, PartialEq, Structural)]
pub struct WriteError;

/// A formatter buffer we write non-Markdown string into.
///
/// What a formatter has been handed so far is its `state`, a mathematical
/// value; the `spec_` functions say, on states, what each method does, and
/// the run of the formatter is described in their terms. A formatter states
/// them together with its methods. One that leaves them as they are here says
/// nothing of what it does.
pub trait ExternalFormatter: Sized {
    type State;

    /// What this formatter holds.
    closed spec fn state(&self) -> Self::State {
        arbitrary()
    }

    /// The state of a formatter that was just made.
    closed spec fn spec_new(buffer_type: BufferTypeView, max_width: Option<usize>) -> Self::State {
        arbitrary()
    }

    /// Whether a formatter in `state` refuses `text`.
    closed spec fn spec_rejects(state: Self::State, text: Seq<char>) -> bool {
        arbitrary()
    }

    /// The state after `text` was written in `state`.
    closed spec fn spec_write(state: Self::State, text: Seq<char>) -> Self::State {
        arbitrary()
    }

    closed spec fn spec_is_empty(state: Self::State) -> bool {
        arbitrary()
    }

    closed spec fn spec_context(state: Self::State) -> FormattingContext {
        arbitrary()
    }

    /// The formatted text of a formatter in `state`.
    closed spec fn spec_into_buffer(state: Self::State) -> Seq<char> {
        arbitrary()
    }

    /// Make a new instance based on the given [`BufferType`], maximum width,
    /// and buffer capacity.
    fn new(buffer_type: BufferType, max_width: Option<usize>, capacity: usize) -> (r: Self)
        ensures
            r.state() == Self::spec_new(buffer_type@, max_width),
    ;

    /// Check if the internal buffer is empty.
    fn is_empty(&self) -> (r: bool)
        ensures
            r == Self::spec_is_empty(self.state()),
    ;

    /// Check what type of context this formatter is in.
    fn context(&self) -> (r: FormattingContext)
        ensures
            r == Self::spec_context(self.state()),
    ;

    /// Hands `text` to the formatter, which takes it or refuses it and stays
    /// as it was.
    fn write_str(&mut self, text: &str) -> (r: Result<(), WriteError>)
        ensures
            r is Err <==> Self::spec_rejects(old(self).state(), text@),
            final(self).state() == if r is Ok {
                Self::spec_write(old(self).state(), text@)
            } else {
                old(self).state()
            },
    ;

    /// Consume Self and return the formatted buffer.
    fn into_buffer(self) -> (r: String)
        ensures
            r@ == Self::spec_into_buffer(self.state()),
    ;
}

} // verus!

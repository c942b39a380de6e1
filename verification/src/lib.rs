//! Reformats Markdown (CommonMark with the GitHub extensions) into one
//! canonical form: consistent heading markers, list markers, indentation,
//! link syntax, table alignment and, on request, wrapped paragraphs.
//!
//! ```text
//! let formatted = MarkdownFormatter::default().format("#  Hello World! ")?;
//! assert_eq!(formatted, "# Hello World!");
//! ```
//!
//! A document is read by the parser of `pulldown_cmark` (`parser`), and the
//! events it hands out are brought into the library's own terms (`events`),
//! with their positions counted in characters (`offsets`). Two adapters
//! repair the stream of events (`adapters`). The run itself
//! (`formatter::formatting_states`) takes the events in one by one and
//! writes the formatted document; text that is no Markdown goes through an
//! `ExternalFormatter` (`external_formatter`), tables through `table`, and
//! links through `links`. What each step does is stated over `StateView`,
//! the state of a run as a mathematical value.
//!
//! The source text is handled as a sequence of `char`s; every position that
//! the run speaks of is an index into that sequence.
pub mod adapters;
pub mod builder;
pub mod config;
pub mod events;
pub mod external_formatter;
pub mod formatter;
pub mod links;
pub mod list;
pub mod offsets;
pub mod order;
pub mod parser;
pub mod table;
pub mod text;
pub mod utils;

pub use crate::builder::MarkdownFormatter;
pub use crate::config::{Config, ConfigParseError};
pub use crate::events::{
    CodeBlockKind, ColumnAlignment, EventKind, HeadingLevel, LinkKind, MdEvent, MdTag,
    MetadataBlockKind, ReferenceLinkDefinition, SourceEvent, TagKind,
};
pub use crate::external_formatter::buffers::{PreservingBuffer, PreservingHtmlBlock, TrimTo4Indent};
pub use crate::external_formatter::combination::{DefaultFormatterCombination, FormatterCombination};
pub use crate::external_formatter::fn_based::{FnFormatter, FormatterFn};
pub use crate::external_formatter::paragraph::Paragraph;
pub use crate::external_formatter::{BufferType, ExternalFormatter, FormattingContext, WriteError};
pub use crate::formatter::formatting_states::{FormatError, FormatState};
pub use crate::list::{
    InvalidMarker, ListMarker, OrderedListMarker, ParseListMarkerError, UnorderedListMarker,
};

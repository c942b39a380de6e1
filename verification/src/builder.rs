//! The formatter and its settings.
use core::marker::PhantomData;
use vstd::prelude::*;
use crate::config::Config;
use crate::external_formatter::combination::DefaultFormatterCombination;
use crate::external_formatter::ExternalFormatter;

verus! {

/// Used to format Markdown inputs.
///
/// Parameter `E` should be an [`ExternalFormatter`] to configure code block,
/// HTML block, and paragraph formatting;
/// default to [`DefaultFormatterCombination`],
/// and partial customization can easily be done using `FormatterCombination`.
pub struct MarkdownFormatter<E: ExternalFormatter> {
    pub(crate) _external_formatter: PhantomData<E>,
    pub(crate) config: Config,
}

impl<E: ExternalFormatter> View for MarkdownFormatter<E> {
    type V = Config;

    /// The settings of the formatter.
    closed spec fn view(&self) -> Config {
        self.config
    }
}

impl MarkdownFormatter<DefaultFormatterCombination> {
    /// Create a [`MarkdownFormatter`] with custom [`Config`] and
    /// default [`ExternalFormatter`].
    pub fn with_config(config: Config) -> (r: Self)
        ensures
            r@ == config,
    {
        Self { _external_formatter: PhantomData, config }
    }
}

impl<E: ExternalFormatter> MarkdownFormatter<E> {
    /// Create a [`MarkdownFormatter`] with custom [`Config`] and
    /// custom [`ExternalFormatter`].
    pub fn with_config_and_external_formatter(config: Config) -> (r: Self)
        ensures
            r@ == config,
    {
        Self { _external_formatter: PhantomData, config }
    }

    /// The settings of the formatter.
    pub fn into_config(self) -> (r: Config)
        ensures
            r == self@,
    {
        self.config
    }

    /// Configure the max width when rewriting paragraphs.
    ///
    /// When set to [None], the default, paragraph width is left unchanged.
    pub fn max_width(&mut self, max_width: Option<usize>) -> (r: &mut Self)
        ensures
            r@ == (Config { max_width, ..old(self)@ }),
            *final(self) == *final(r),
    {
        self.config.max_width = max_width;
        self
    }

    /// Set the configuration based on Steven Hé (Sīchàng)'s opinion.
    pub fn sichanghe_config(&mut self) -> (r: &mut Self)
        ensures
            r@.max_width == Some(80usize),
            r@.fixed_zero_padding == Some(0usize),
            r@.fixed_number == Some(1usize),
            r@.fixed_ordered_list_marker == Some(crate::list::OrderedListMarker::Period),
            r@.fixed_unordered_list_marker == Some(crate::list::UnorderedListMarker::Hyphen),
            r@.fixed_indentation is Some,
            r@.fixed_indentation->0@ == seq![' ', ' ', ' ', ' '],
            r@.fixed_emphasis_marker is None,
            r@.fixed_strong_marker is None,
            *final(self) == *final(r),
    {
        self.config = Config::sichanghe_opinion();
        self
    }
}

impl<E: ExternalFormatter> Clone for MarkdownFormatter<E> {
    fn clone(&self) -> (r: Self)
        ensures
            r@ == self@,
    {
        Self { _external_formatter: PhantomData, config: self.config.clone() }
    }
}

impl Default for MarkdownFormatter<DefaultFormatterCombination> {
    fn default() -> (r: Self)
        ensures
            r@.max_width is None,
            r@.fixed_zero_padding is None,
            r@.fixed_number is None,
            r@.fixed_ordered_list_marker is None,
            r@.fixed_unordered_list_marker is None,
            r@.fixed_indentation is None,
            r@.fixed_emphasis_marker is None,
            r@.fixed_strong_marker is None,
    {
        MarkdownFormatter { _external_formatter: PhantomData, config: Config::default() }
    }
}

} // verus!

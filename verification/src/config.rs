//! The settings of one formatting run.
use vstd::prelude::*;
use crate::list::{
    spec_parse_list_marker, ListMarker, OrderedListMarker, ParseListMarkerError,
    UnorderedListMarker,
};
use crate::text::{chars_of, decimal_value, spec_all, spec_decimal_value, all, CharSet};

verus! {

/// What the formatter is asked to fix. A field that is `None` leaves the
/// source's own form in place.
#[derive(Debug)]
pub struct Config {
    /// The width that paragraphs are wrapped to.
    pub max_width: Option<usize>,
    /// How many zeros stand in front of the number of an ordered list item.
    pub fixed_zero_padding: Option<usize>,
    /// The number of every ordered list item.
    pub fixed_number: Option<usize>,
    pub fixed_ordered_list_marker: Option<OrderedListMarker>,
    pub fixed_unordered_list_marker: Option<UnorderedListMarker>,
    /// The margin of what belongs to a list item.
    pub fixed_indentation: Option<String>,
    /// What opens and closes emphasis.
    pub fixed_emphasis_marker: Option<String>,
    /// What opens and closes strong emphasis.
    pub fixed_strong_marker: Option<String>,
}

/// Why an option could not be set.
#[derive(Debug, PartialEq, Eq, Clone, Copy, Structural)]
pub enum ConfigParseError {
    /// No option has this name.
    UnknownOption,
    /// The value is no number that fits the option.
    InvalidValue,
}

/// The marker `parsed`, with each part that `config` fixes replaced.
pub open spec fn spec_apply_fixed(config: Config, parsed: ListMarker) -> ListMarker {
    match parsed {
        ListMarker::Ordered { zero_padding, number, marker } => ListMarker::Ordered {
            zero_padding: match config.fixed_zero_padding {
                Some(fixed) => fixed,
                None => zero_padding,
            },
            number: match config.fixed_number {
                Some(fixed) => fixed,
                None => number,
            },
            marker: match config.fixed_ordered_list_marker {
                Some(fixed) => fixed,
                None => marker,
            },
        },
        ListMarker::Unordered(marker) => match config.fixed_unordered_list_marker {
            Some(fixed) => ListMarker::Unordered(fixed),
            None => ListMarker::Unordered(marker),
        },
    }
}

/// The marker of the list item whose source text is `source`: the one that
/// stands there, with each part that `config` fixes replaced.
#[verifier::opaque]
pub open spec fn spec_list_marker(config: Config, source: Seq<char>) -> Result<
    ListMarker,
    ParseListMarkerError,
> {
    match spec_parse_list_marker(source) {
        Ok(parsed) => Ok(spec_apply_fixed(config, parsed)),
        Err(e) => Err(e),
    }
}

/// The number that `value` spells: decimal digits, with at most one `+` in
/// front.
pub open spec fn spec_parse_width(value: Seq<char>) -> Option<usize> {
    let digits = if value.len() > 0 && value[0] == '+' {
        value.skip(1)
    } else {
        value
    };
    if digits.len() > 0 && spec_all(digits, CharSet::Digit) && spec_decimal_value(digits)
        <= usize::MAX {
        Some(spec_decimal_value(digits) as usize)
    } else {
        None
    }
}

fn parse_width(value: &[char]) -> (r: Option<usize>)
    ensures
        r == spec_parse_width(value@),
{
    let digits = if value.len() > 0 && value[0] == '+' {
        vstd::slice::slice_subrange(value, 1, value.len())
    } else {
        value
    };
    if digits.len() > 0 && all(digits, CharSet::Digit) {
        decimal_value(digits)
    } else {
        None
    }
}

impl Config {
    /// Steven Hé (Sīchàng)'s opinion on the style.
    pub fn sichanghe_opinion() -> (r: Self)
        ensures
            r.max_width == Some(80usize),
            r.fixed_zero_padding == Some(0usize),
            r.fixed_number == Some(1usize),
            r.fixed_ordered_list_marker == Some(OrderedListMarker::Period),
            r.fixed_unordered_list_marker == Some(UnorderedListMarker::Hyphen),
            r.fixed_indentation is Some,
            r.fixed_indentation->0@ == seq![' ', ' ', ' ', ' '],
            r.fixed_emphasis_marker is None,
            r.fixed_strong_marker is None,
    {
        proof {
            reveal_strlit("    ");
        }
        let indentation = String::from_str("    ");
        assert(indentation@ =~= seq![' ', ' ', ' ', ' ']);
        Self {
            max_width: Some(80),
            fixed_zero_padding: Some(0),
            fixed_number: Some(1),
            fixed_ordered_list_marker: Some(OrderedListMarker::Period),
            fixed_unordered_list_marker: Some(UnorderedListMarker::Hyphen),
            fixed_indentation: Some(indentation),
            fixed_emphasis_marker: None,
            fixed_strong_marker: None,
        }
    }

    pub fn max_width(&self) -> (r: Option<usize>)
        ensures
            r == self.max_width,
    {
        self.max_width
    }

    pub fn set_max_width(&mut self, value: Option<usize>)
        ensures
            *final(self) == (Config { max_width: value, ..*old(self) }),
    {
        self.max_width = value;
    }

    /// The marker of the list item whose source text is `source`.
    pub fn list_marker(&self, source: &str) -> (r: Result<ListMarker, ParseListMarkerError>)
        ensures
            r == spec_list_marker(*self, source@),
    {
        let chars = chars_of(source);
        self.list_marker_of(chars.as_slice())
    }

    /// As `list_marker`, on text that is held as characters.
    pub fn list_marker_of(&self, source: &[char]) -> (r: Result<
        ListMarker,
        ParseListMarkerError,
    >)
        ensures
            r == spec_list_marker(*self, source@),
    {
        reveal(spec_list_marker);
        match ListMarker::from_str(source) {
            Ok(ListMarker::Ordered { zero_padding, number, marker }) => {
                let zero_padding = match self.fixed_zero_padding {
                    Some(fixed_zero_padding) => fixed_zero_padding,
                    None => zero_padding,
                };
                let number = match self.fixed_number {
                    Some(fixed_number) => fixed_number,
                    None => number,
                };
                let marker = match self.fixed_ordered_list_marker {
                    Some(fixed_marker) => fixed_marker,
                    None => marker,
                };
                Ok(ListMarker::Ordered { zero_padding, number, marker })
            },
            Ok(ListMarker::Unordered(marker)) => match self.fixed_unordered_list_marker {
                Some(fixed_marker) => Ok(ListMarker::Unordered(fixed_marker)),
                None => Ok(ListMarker::Unordered(marker)),
            },
            Err(e) => Err(e),
        }
    }

    /// Sets the option named `field` from its written value. The one option
    /// that can be set so is `max_width`.
    pub fn set(&mut self, field: &str, value: &str) -> (r: Result<(), ConfigParseError>)
        ensures
            field@ != "max_width"@ ==> r == Err::<(), ConfigParseError>(
                ConfigParseError::UnknownOption,
            ) && *final(self) == *old(self),
            field@ == "max_width"@ && spec_parse_width(value@) is None ==> r == Err::<
                (),
                ConfigParseError,
            >(ConfigParseError::InvalidValue) && *final(self) == *old(self),
            field@ == "max_width"@ && spec_parse_width(value@) is Some ==> r is Ok && *final(self)
                == (Config { max_width: spec_parse_width(value@), ..*old(self) }),
    {
        let name = chars_of(field);
        let known = chars_of("max_width");
        if name.len() != known.len() || !crate::text::matches_at(
            name.as_slice(),
            known.as_slice(),
            0,
        ) {
            assert(name@ == known@ ==> name@.subrange(0, 0 + known@.len() as int) =~= name@);
            return Err(ConfigParseError::UnknownOption);
        }
        assert(name@.subrange(0, 0 + known@.len() as int) =~= name@);
        let digits = chars_of(value);
        match parse_width(digits.as_slice()) {
            Some(width) => {
                self.max_width = Some(width);
                Ok(())
            },
            None => Err(ConfigParseError::InvalidValue),
        }
    }
}

fn clone_text(text: &Option<String>) -> (r: Option<String>)
    ensures
        r == *text,
{
    match text {
        Some(text) => Some(text.clone()),
        None => None,
    }
}

impl Clone for Config {
    fn clone(&self) -> (r: Self)
        ensures
            r == *self,
    {
        Self {
            max_width: self.max_width,
            fixed_zero_padding: self.fixed_zero_padding,
            fixed_number: self.fixed_number,
            fixed_ordered_list_marker: self.fixed_ordered_list_marker,
            fixed_unordered_list_marker: self.fixed_unordered_list_marker,
            fixed_indentation: clone_text(&self.fixed_indentation),
            fixed_emphasis_marker: clone_text(&self.fixed_emphasis_marker),
            fixed_strong_marker: clone_text(&self.fixed_strong_marker),
        }
    }
}

impl Default for Config {
    fn default() -> (r: Self)
        ensures
            r.max_width is None,
            r.fixed_zero_padding is None,
            r.fixed_number is None,
            r.fixed_ordered_list_marker is None,
            r.fixed_unordered_list_marker is None,
            r.fixed_indentation is None,
            r.fixed_emphasis_marker is None,
            r.fixed_strong_marker is None,
    {
        Self {
            max_width: None,
            fixed_zero_padding: None,
            fixed_number: None,
            fixed_ordered_list_marker: None,
            fixed_unordered_list_marker: None,
            fixed_indentation: None,
            fixed_emphasis_marker: None,
            fixed_strong_marker: None,
        }
    }
}

} // verus!

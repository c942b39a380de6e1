//! The marker of a list item: `1.`, `007)`, `-`, `*` or `+`.
use vstd::prelude::*;
use crate::text::{
    decimal_value, push_decimal, push_repeat, scan, spec_decimal, spec_decimal_value, spec_repeat,
    spec_scan, spec_trim, trim, CharSet,
};

verus! {

/// The longest run of zeros that is written in front of a number.
pub const MAX_ZERO_PADDING: usize = 20;

/// What closes the number of an ordered list item.
#[derive(Debug, PartialEq, Eq, Clone, Copy, Structural)]
pub enum OrderedListMarker {
    Period,
    Parenthesis,
}

/// The bullet of an unordered list item.
#[derive(Debug, PartialEq, Eq, Clone, Copy, Structural)]
pub enum UnorderedListMarker {
    Asterisk,
    Plus,
    Hyphen,
}

/// A character found where a list marker was expected.
#[derive(Debug, PartialEq, Eq, Clone, Copy, Structural)]
pub struct InvalidMarker(pub char);

/// Why a text is no list marker.
#[derive(Debug, PartialEq, Eq, Clone, Copy, Structural)]
pub enum ParseListMarkerError {
    /// Did not contain the correct list markers.
    NoMarkers,
    /// Invalid char where a list marker was expected.
    InvalidMarker(InvalidMarker),
    /// The number of an ordered list item is missing or too large.
    ParseIntError,
}

#[derive(Debug, PartialEq, Eq, Clone, Copy, Structural)]
pub enum ListMarker {
    Ordered { zero_padding: usize, number: usize, marker: OrderedListMarker },
    Unordered(UnorderedListMarker),
}

impl OrderedListMarker {
    pub open spec fn spec_as_char(self) -> char {
        match self {
            OrderedListMarker::Period => '.',
            OrderedListMarker::Parenthesis => ')',
        }
    }

    pub fn as_char(&self) -> (r: char)
        ensures
            r == self.spec_as_char(),
    {
        match self {
            OrderedListMarker::Period => '.',
            OrderedListMarker::Parenthesis => ')',
        }
    }

    pub open spec fn spec_try_from(value: char) -> Result<OrderedListMarker, InvalidMarker> {
        if value == '.' {
            Ok(OrderedListMarker::Period)
        } else if value == ')' {
            Ok(OrderedListMarker::Parenthesis)
        } else {
            Err(InvalidMarker(value))
        }
    }

    pub fn try_from(value: char) -> (r: Result<OrderedListMarker, InvalidMarker>)
        ensures
            r == Self::spec_try_from(value),
    {
        if value == '.' {
            Ok(OrderedListMarker::Period)
        } else if value == ')' {
            Ok(OrderedListMarker::Parenthesis)
        } else {
            Err(InvalidMarker(value))
        }
    }
}

impl UnorderedListMarker {
    pub open spec fn spec_as_char(self) -> char {
        match self {
            UnorderedListMarker::Asterisk => '*',
            UnorderedListMarker::Plus => '+',
            UnorderedListMarker::Hyphen => '-',
        }
    }

    pub fn as_char(&self) -> (r: char)
        ensures
            r == self.spec_as_char(),
    {
        match self {
            UnorderedListMarker::Asterisk => '*',
            UnorderedListMarker::Plus => '+',
            UnorderedListMarker::Hyphen => '-',
        }
    }

    pub open spec fn spec_try_from(value: char) -> Result<UnorderedListMarker, InvalidMarker> {
        if value == '*' {
            Ok(UnorderedListMarker::Asterisk)
        } else if value == '+' {
            Ok(UnorderedListMarker::Plus)
        } else if value == '-' {
            Ok(UnorderedListMarker::Hyphen)
        } else {
            Err(InvalidMarker(value))
        }
    }

    pub fn try_from(value: char) -> (r: Result<UnorderedListMarker, InvalidMarker>)
        ensures
            r == Self::spec_try_from(value),
    {
        if value == '*' {
            Ok(UnorderedListMarker::Asterisk)
        } else if value == '+' {
            Ok(UnorderedListMarker::Plus)
        } else if value == '-' {
            Ok(UnorderedListMarker::Hyphen)
        } else {
            Err(InvalidMarker(value))
        }
    }
}

impl ParseListMarkerError {
    pub fn from(value: InvalidMarker) -> (r: ParseListMarkerError)
        ensures
            r == ParseListMarkerError::InvalidMarker(value),
    {
        ParseListMarkerError::InvalidMarker(value)
    }
}

/// How many zeros stand in front of the number that the digits `digits`
/// spell: all the leading zeros, but for the last digit of a numeral made of
/// zeros alone, which is the number itself.
pub open spec fn spec_leading_zeros(digits: Seq<char>) -> int {
    let z = spec_scan(digits, CharSet::Just('0'), false, 0);
    if z >= digits.len() && digits.len() > 0 {
        digits.len() - 1
    } else {
        z
    }
}

/// The marker that the source text of a list item begins with.
///
/// White space at either end is skipped. A text that begins with `*`, `+`
/// or `-` has that bullet. Any other text must begin with decimal digits
/// and then `.` or `)`.
#[verifier::opaque]
pub open spec fn spec_parse_list_marker(s: Seq<char>) -> Result<ListMarker, ParseListMarkerError> {
    let t = spec_trim(s);
    if t.len() == 0 {
        Err(ParseListMarkerError::NoMarkers)
    } else if UnorderedListMarker::spec_try_from(t[0]) is Ok {
        Ok(ListMarker::Unordered(UnorderedListMarker::spec_try_from(t[0])->Ok_0))
    } else {
        let k = spec_scan(t, CharSet::Digit, false, 0);
        let digits = t.take(k);
        if k >= t.len() {
            Err(ParseListMarkerError::NoMarkers)
        } else if OrderedListMarker::spec_try_from(t[k]) is Err {
            Err(ParseListMarkerError::InvalidMarker(InvalidMarker(t[k])))
        } else if k == 0 || spec_decimal_value(digits) > usize::MAX {
            Err(ParseListMarkerError::ParseIntError)
        } else {
            Ok(
                ListMarker::Ordered {
                    zero_padding: spec_leading_zeros(digits) as usize,
                    number: spec_decimal_value(digits) as usize,
                    marker: OrderedListMarker::spec_try_from(t[k])->Ok_0,
                },
            )
        }
    }
}

impl ListMarker {
    /// Reads the marker at the start of a list item's source text.
    pub fn from_str(s: &[char]) -> (r: Result<ListMarker, ParseListMarkerError>)
        ensures
            r == spec_parse_list_marker(s@),
    {
        reveal(spec_parse_list_marker);
        let t = trim(s);
        if t.len() == 0 {
            return Err(ParseListMarkerError::NoMarkers);
        }
        if let Ok(bullet) = UnorderedListMarker::try_from(t[0]) {
            return Ok(ListMarker::Unordered(bullet));
        }
        let k = scan(t, CharSet::Digit, false, 0);
        if k >= t.len() {
            return Err(ParseListMarkerError::NoMarkers);
        }
        let marker = match OrderedListMarker::try_from(t[k]) {
            Ok(marker) => marker,
            Err(invalid) => {
                return Err(ParseListMarkerError::from(invalid));
            },
        };
        if k == 0 {
            return Err(ParseListMarkerError::ParseIntError);
        }
        let digits = vstd::slice::slice_subrange(t, 0, k);
        assert(digits@ =~= t@.take(k as int));
        let number = match decimal_value(digits) {
            Some(number) => number,
            None => {
                return Err(ParseListMarkerError::ParseIntError);
            },
        };
        let z = scan(digits, CharSet::Just('0'), false, 0);
        let zero_padding = if z >= k {
            k - 1
        } else {
            z
        };
        Ok(ListMarker::Ordered { zero_padding, number, marker })
    }

    pub open spec fn spec_increment_count(self) -> ListMarker {
        match self {
            ListMarker::Ordered { zero_padding, number, marker } => ListMarker::Ordered {
                zero_padding,
                number: if number < usize::MAX {
                    (number + 1) as usize
                } else {
                    number
                },
                marker,
            },
            ListMarker::Unordered(m) => ListMarker::Unordered(m),
        }
    }

    /// The marker of the next item: an ordered marker counts one up, and
    /// stays where the number cannot grow.
    pub fn increment_count(&mut self)
        ensures
            *final(self) == old(self).spec_increment_count(),
    {
        match *self {
            ListMarker::Ordered { zero_padding, number, marker } => {
                if number < usize::MAX {
                    *self = ListMarker::Ordered { zero_padding, number: number + 1, marker };
                }
            },
            ListMarker::Unordered(_) => {},
        }
    }

    pub open spec fn spec_marker_char(self) -> char {
        match self {
            ListMarker::Ordered { marker, .. } => marker.spec_as_char(),
            ListMarker::Unordered(marker) => marker.spec_as_char(),
        }
    }

    pub fn marker_char(&self) -> (r: char)
        ensures
            r == self.spec_marker_char(),
    {
        match self {
            ListMarker::Ordered { marker, .. } => marker.as_char(),
            ListMarker::Unordered(marker) => marker.as_char(),
        }
    }

    /// How many zeros are written in front of the number: those asked for,
    /// up to `MAX_ZERO_PADDING`.
    pub open spec fn spec_zero_padding_len(self) -> nat {
        match self {
            ListMarker::Ordered { zero_padding, .. } => if zero_padding <= MAX_ZERO_PADDING {
                zero_padding as nat
            } else {
                MAX_ZERO_PADDING as nat
            },
            ListMarker::Unordered(_) => 0,
        }
    }

    pub open spec fn spec_zero_padding(self) -> Seq<char> {
        spec_repeat('0', self.spec_zero_padding_len())
    }

    pub fn zero_padding(&self) -> (r: Vec<char>)
        ensures
            r@ == self.spec_zero_padding(),
    {
        let mut out: Vec<char> = Vec::new();
        match self {
            ListMarker::Ordered { zero_padding, .. } => {
                let n = if *zero_padding <= MAX_ZERO_PADDING {
                    *zero_padding
                } else {
                    MAX_ZERO_PADDING
                };
                push_repeat(&mut out, '0', n);
            },
            ListMarker::Unordered(_) => {},
        }
        assert(out@ =~= self.spec_zero_padding());
        out
    }

    /// The marker as it is written, without the space behind it.
    pub open spec fn spec_text(self) -> Seq<char> {
        match self {
            ListMarker::Ordered { number, marker, .. } => self.spec_zero_padding() + spec_decimal(
                number as nat,
            ) + seq![marker.spec_as_char()],
            ListMarker::Unordered(marker) => seq![marker.spec_as_char()],
        }
    }

    pub fn text(&self) -> (r: Vec<char>)
        ensures
            r@ == self.spec_text(),
    {
        let mut out = self.zero_padding();
        match self {
            ListMarker::Ordered { number, .. } => {
                push_decimal(&mut out, *number);
            },
            ListMarker::Unordered(_) => {},
        }
        out.push(self.marker_char());
        assert(out@ =~= self.spec_text());
        out
    }

    /// The margin of what belongs to the item: as many spaces as the marker
    /// and the space behind it are wide.
    pub open spec fn spec_indentation(self) -> Seq<char> {
        spec_repeat(' ', self.spec_text().len() + 1)
    }

    pub fn indentation(&self) -> (r: Vec<char>)
        ensures
            r@ == self.spec_indentation(),
    {
        let text = self.text();
        let mut out: Vec<char> = Vec::new();
        push_repeat(&mut out, ' ', text.len());
        out.push(' ');
        assert(out@ =~= self.spec_indentation());
        out
    }
}

impl Default for ListMarker {
    fn default() -> (r: Self)
        ensures
            r == ListMarker::Unordered(UnorderedListMarker::Asterisk),
    {
        ListMarker::Unordered(UnorderedListMarker::Asterisk)
    }
}

} // verus!

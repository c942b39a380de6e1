use fmtm_ytmimi_markdown_fmt::{
    Config, ConfigParseError, InvalidMarker, ListMarker, OrderedListMarker, ParseListMarkerError,
    UnorderedListMarker,
};

fn chars(s: &str) -> Vec<char> {
    s.chars().collect()
}

fn text(v: Vec<char>) -> String {
    v.into_iter().collect()
}

#[test]
fn unordered_markers_are_read() {
    assert_eq!(
        ListMarker::from_str(&chars("* item")),
        Ok(ListMarker::Unordered(UnorderedListMarker::Asterisk))
    );
    assert_eq!(
        ListMarker::from_str(&chars("  + item")),
        Ok(ListMarker::Unordered(UnorderedListMarker::Plus))
    );
    assert_eq!(
        ListMarker::from_str(&chars("-")),
        Ok(ListMarker::Unordered(UnorderedListMarker::Hyphen))
    );
}

#[test]
fn ordered_markers_are_read() {
    assert_eq!(
        ListMarker::from_str(&chars("1. item")),
        Ok(ListMarker::Ordered { zero_padding: 0, number: 1, marker: OrderedListMarker::Period })
    );
    assert_eq!(
        ListMarker::from_str(&chars("007) item")),
        Ok(ListMarker::Ordered {
            zero_padding: 2,
            number: 7,
            marker: OrderedListMarker::Parenthesis
        })
    );
    assert_eq!(
        ListMarker::from_str(&chars("000.")),
        Ok(ListMarker::Ordered { zero_padding: 2, number: 0, marker: OrderedListMarker::Period })
    );
    assert_eq!(
        ListMarker::from_str(&chars("120.")),
        Ok(ListMarker::Ordered { zero_padding: 0, number: 120, marker: OrderedListMarker::Period })
    );
}

#[test]
fn no_markers_is_reported() {
    assert_eq!(ListMarker::from_str(&chars("")), Err(ParseListMarkerError::NoMarkers));
    assert_eq!(ListMarker::from_str(&chars("   \n")), Err(ParseListMarkerError::NoMarkers));
    assert_eq!(ListMarker::from_str(&chars("123")), Err(ParseListMarkerError::NoMarkers));
}

#[test]
fn invalid_marker_is_reported() {
    assert_eq!(
        ListMarker::from_str(&chars("12: item")),
        Err(ParseListMarkerError::InvalidMarker(InvalidMarker(':')))
    );
    assert_eq!(
        ListMarker::from_str(&chars("item")),
        Err(ParseListMarkerError::InvalidMarker(InvalidMarker('i')))
    );
}

#[test]
fn number_that_cannot_be_read_is_reported() {
    assert_eq!(ListMarker::from_str(&chars(". item")), Err(ParseListMarkerError::ParseIntError));
    assert_eq!(
        ListMarker::from_str(&chars("99999999999999999999999999. item")),
        Err(ParseListMarkerError::ParseIntError)
    );
}

#[test]
fn marker_chars_round_trip() {
    for marker in [OrderedListMarker::Period, OrderedListMarker::Parenthesis] {
        assert_eq!(OrderedListMarker::try_from(marker.as_char()), Ok(marker));
    }
    for marker in
        [UnorderedListMarker::Asterisk, UnorderedListMarker::Plus, UnorderedListMarker::Hyphen]
    {
        assert_eq!(UnorderedListMarker::try_from(marker.as_char()), Ok(marker));
    }
    assert_eq!(OrderedListMarker::try_from('x'), Err(InvalidMarker('x')));
    assert_eq!(UnorderedListMarker::try_from('.'), Err(InvalidMarker('.')));
    assert_eq!(
        ParseListMarkerError::from(InvalidMarker('x')),
        ParseListMarkerError::InvalidMarker(InvalidMarker('x'))
    );
}

#[test]
fn marker_is_written_with_its_padding() {
    let marker =
        ListMarker::Ordered { zero_padding: 2, number: 42, marker: OrderedListMarker::Period };
    assert_eq!(text(marker.zero_padding()), "00");
    assert_eq!(marker.marker_char(), '.');
    assert_eq!(text(marker.text()), "0042.");
    assert_eq!(text(marker.indentation()), "      ");
    let bullet = ListMarker::Unordered(UnorderedListMarker::Plus);
    assert_eq!(text(bullet.zero_padding()), "");
    assert_eq!(bullet.marker_char(), '+');
    assert_eq!(text(bullet.text()), "+");
    assert_eq!(text(bullet.indentation()), "  ");
}

#[test]
fn zero_padding_stops_at_twenty() {
    let marker =
        ListMarker::Ordered { zero_padding: 1000, number: 1, marker: OrderedListMarker::Period };
    assert_eq!(text(marker.zero_padding()), "0".repeat(20));
}

#[test]
fn count_is_incremented() {
    let mut marker =
        ListMarker::Ordered { zero_padding: 0, number: 9, marker: OrderedListMarker::Period };
    marker.increment_count();
    assert_eq!(
        marker,
        ListMarker::Ordered { zero_padding: 0, number: 10, marker: OrderedListMarker::Period }
    );
    let mut last = ListMarker::Ordered {
        zero_padding: 0,
        number: usize::MAX,
        marker: OrderedListMarker::Period,
    };
    last.increment_count();
    assert_eq!(
        last,
        ListMarker::Ordered { zero_padding: 0, number: usize::MAX, marker: OrderedListMarker::Period }
    );
    let mut bullet = ListMarker::Unordered(UnorderedListMarker::Hyphen);
    bullet.increment_count();
    assert_eq!(bullet, ListMarker::Unordered(UnorderedListMarker::Hyphen));
}

#[test]
fn default_marker_is_an_asterisk() {
    assert_eq!(ListMarker::default(), ListMarker::Unordered(UnorderedListMarker::Asterisk));
}

#[test]
fn config_fixes_the_marker() {
    let config = Config::sichanghe_opinion();
    assert_eq!(
        config.list_marker("007) item"),
        Ok(ListMarker::Ordered { zero_padding: 0, number: 1, marker: OrderedListMarker::Period })
    );
    assert_eq!(
        config.list_marker("* item"),
        Ok(ListMarker::Unordered(UnorderedListMarker::Hyphen))
    );
    assert_eq!(config.list_marker(""), Err(ParseListMarkerError::NoMarkers));
}

#[test]
fn config_without_fixed_parts_keeps_the_marker() {
    let config = Config::default();
    assert_eq!(
        config.list_marker("007) item"),
        Ok(ListMarker::Ordered {
            zero_padding: 2,
            number: 7,
            marker: OrderedListMarker::Parenthesis
        })
    );
    assert_eq!(
        config.list_marker("* item"),
        Ok(ListMarker::Unordered(UnorderedListMarker::Asterisk))
    );
}

#[test]
fn opinion_is_as_documented() {
    let config = Config::sichanghe_opinion();
    assert_eq!(config.max_width(), Some(80));
    assert_eq!(config.fixed_zero_padding, Some(0));
    assert_eq!(config.fixed_number, Some(1));
    assert_eq!(config.fixed_ordered_list_marker, Some(OrderedListMarker::Period));
    assert_eq!(config.fixed_unordered_list_marker, Some(UnorderedListMarker::Hyphen));
    assert_eq!(config.fixed_indentation.as_deref(), Some("    "));
}

#[test]
fn max_width_is_set() {
    let mut config = Config::default();
    assert_eq!(config.max_width(), None);
    config.set_max_width(Some(72));
    assert_eq!(config.max_width(), Some(72));
}

#[test]
fn option_is_set_from_text() {
    let mut config = Config::default();
    assert_eq!(config.set("max_width", "50"), Ok(()));
    assert_eq!(config.max_width(), Some(50));
    assert_eq!(config.set("max_width", "+7"), Ok(()));
    assert_eq!(config.max_width(), Some(7));
}

#[test]
fn malformed_option_is_reported() {
    let mut config = Config::default();
    assert_eq!(config.set("max_width", "wide"), Err(ConfigParseError::InvalidValue));
    assert_eq!(config.set("max_width", ""), Err(ConfigParseError::InvalidValue));
    assert_eq!(
        config.set("max_width", "99999999999999999999999999"),
        Err(ConfigParseError::InvalidValue)
    );
    assert_eq!(config.set("min_width", "5"), Err(ConfigParseError::UnknownOption));
    assert_eq!(config.max_width(), None);
}

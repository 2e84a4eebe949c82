use prac::duration::{Duration, MAX_SECS};
use prac::error::ParseError;
use prac::grammar::{parse, parse_terms};
use prac::term::ParsedTerm;
use prac::unit::UnitKind;

fn secs(text: &str) -> u64 {
    parse(text).unwrap().as_secs()
}

#[test]
fn one_day_in_full_and_abbreviated() {
    assert_eq!(secs("1day"), 86_400);
    assert_eq!(secs("1d"), 86_400);
    assert_eq!(parse("1day"), parse("1d"));
}

#[test]
fn plural_is_fine() {
    assert_eq!(secs("2days"), 2 * 86_400);
}

#[test]
fn combined_quantities() {
    assert_eq!(secs("3days15hours"), 3 * 86_400 + 15 * 3_600);
}

#[test]
fn week_and_days() {
    assert_eq!(secs("1w4d"), 11 * 86_400);
}

#[test]
fn month_and_minute_differ_by_case() {
    assert_eq!(secs("4M"), 4 * 30 * 86_400);
    assert_eq!(secs("4m"), 4 * 60);
    assert_ne!(parse("4M"), parse("4m"));
}

#[test]
fn empty_text_is_refused() {
    assert_eq!(parse(""), Err(ParseError::Empty));
    assert_eq!(parse("   \t\n"), Err(ParseError::Empty));
}

#[test]
fn missing_unit_is_refused() {
    assert_eq!(
        parse("5"),
        Err(ParseError::MissingUnit { position: 0, text: "5".to_string() })
    );
    assert_eq!(
        parse("1d 5"),
        Err(ParseError::MissingUnit { position: 3, text: "5".to_string() })
    );
    assert_eq!(
        parse("1.5d"),
        Err(ParseError::MissingUnit { position: 0, text: "1".to_string() })
    );
}

#[test]
fn quantity_in_words_is_refused() {
    assert_eq!(
        parse("five days"),
        Err(ParseError::MalformedInteger { position: 0, text: "five days".to_string() })
    );
}

#[test]
fn the_three_failures_are_distinct() {
    let empty = parse("").unwrap_err();
    let no_unit = parse("5").unwrap_err();
    let words = parse("five days").unwrap_err();
    assert_ne!(empty, no_unit);
    assert_ne!(empty, words);
    assert_ne!(no_unit, words);
}

#[test]
fn signed_quantity_is_refused() {
    assert_eq!(
        parse("-5d"),
        Err(ParseError::MalformedInteger { position: 0, text: "-5d".to_string() })
    );
    assert_eq!(
        parse("  +5d  "),
        Err(ParseError::MalformedInteger { position: 2, text: "+5d".to_string() })
    );
}

#[test]
fn unknown_unit_is_refused_with_its_label() {
    assert_eq!(
        parse("5 parsecs"),
        Err(ParseError::UnknownUnit { position: 2, label: "parsecs".to_string() })
    );
    assert_eq!(
        parse("1d2dd"),
        Err(ParseError::UnknownUnit { position: 3, label: "dd".to_string() })
    );
}

#[test]
fn leftover_is_refused() {
    assert_eq!(
        parse("1d !"),
        Err(ParseError::TrailingContent { position: 3, text: "!".to_string() })
    );
    assert_eq!(
        parse("1d and more  "),
        Err(ParseError::TrailingContent { position: 3, text: "and more".to_string() })
    );
    assert_eq!(
        parse("1h,2m"),
        Err(ParseError::TrailingContent { position: 2, text: ",2m".to_string() })
    );
}

#[test]
fn positions_count_characters() {
    assert_eq!(
        parse("1d \u{e9}t\u{e9}"),
        Err(ParseError::TrailingContent { position: 3, text: "\u{e9}t\u{e9}".to_string() })
    );
    assert_eq!(
        parse("\u{e9}\u{e9} 1d"),
        Err(ParseError::MalformedInteger { position: 0, text: "\u{e9}\u{e9} 1d".to_string() })
    );
    assert_eq!(
        parse("3 \u{e9}"),
        Err(ParseError::MissingUnit { position: 0, text: "3".to_string() })
    );
}

#[test]
fn whitespace_inside_a_label_is_refused() {
    assert_eq!(
        parse("1 d ay"),
        Err(ParseError::TrailingContent { position: 4, text: "ay".to_string() })
    );
}

#[test]
fn whitespace_inside_an_integer_splits_it() {
    assert_eq!(
        parse("1 5d"),
        Err(ParseError::MissingUnit { position: 0, text: "1".to_string() })
    );
}

#[test]
fn whitespace_makes_no_difference() {
    assert_eq!(secs("1 day"), 86_400);
    assert_eq!(secs("1day"), 86_400);
    assert_eq!(secs("1  day"), 86_400);
    assert_eq!(secs("1         day"), 86_400);
    assert_eq!(secs("  1day\n"), 86_400);
    assert_eq!(secs("\t1\tday\r\n"), 86_400);
    assert_eq!(secs("1day 30 min"), 86_400 + 30 * 60);
    assert_eq!(secs("1day30min"), 86_400 + 30 * 60);
}

#[test]
fn every_unit_in_one_phrase() {
    let expected = 365 * 86_400 + 2 * 30 * 86_400 + 3 * 7 * 86_400 + 4 * 86_400 + 5 * 3_600 + 6 * 60 + 7;
    assert_eq!(secs("1Y 2M 3w 4d 5h 6m 7s"), expected);
    assert_eq!(secs("1y2M3w4d5h6m7s"), expected);
}

#[test]
fn many_ways_to_write_a_second() {
    assert_eq!(secs("2seconds"), 2);
    assert_eq!(secs("2second"), 2);
    assert_eq!(secs("2sec"), 2);
    assert_eq!(secs("2s"), 2);
}

#[test]
fn terms_of_one_unit_add_up() {
    assert_eq!(secs("1h1h"), 2 * 3_600);
    assert_ne!(secs("1h1h"), 3_600);
    assert_eq!(secs("1h 2m 1h"), 2 * 3_600 + 2 * 60);
}

#[test]
fn order_of_terms_makes_no_difference() {
    assert_eq!(secs("1d2h3m"), secs("3m1d2h"));
    assert_eq!(secs("1d2h3m"), secs("2h 3m 1d"));
}

#[test]
fn leading_zeros_are_allowed() {
    assert_eq!(secs("007d"), 7 * 86_400);
    assert_eq!(secs("0s"), 0);
    assert_eq!(secs("000h"), 0);
}

#[test]
fn too_many_years_saturate() {
    assert_eq!(parse("999999999999y"), Ok(Duration::max()));
    assert_eq!(secs("999999999999y"), MAX_SECS);
    assert_eq!(secs("99999999999999999999999999999999y"), u64::MAX);
    assert_eq!(secs("99999999999999999999999999999999s"), u64::MAX);
    assert_eq!(secs("18446744073709551615s"), u64::MAX);
    assert_eq!(secs("18446744073709551616s"), u64::MAX);
    assert_eq!(secs("18446744073709551614s"), u64::MAX - 1);
    assert_eq!(secs("18446744073709551615s 1s"), u64::MAX);
    assert_eq!(secs("1s 99999999999999999999y 1s"), u64::MAX);
}

#[test]
fn largest_exact_year_count() {
    let years = u64::MAX / 31_536_000;
    assert_eq!(secs(&format!("{}y", years)), years * 31_536_000);
    assert_eq!(secs(&format!("{}y", years + 1)), u64::MAX);
}

#[test]
fn terms_come_in_written_order() {
    assert_eq!(
        parse_terms("1w 4d 2w").unwrap(),
        vec![
            ParsedTerm { quantity: 1, unit: UnitKind::Week },
            ParsedTerm { quantity: 4, unit: UnitKind::Day },
            ParsedTerm { quantity: 2, unit: UnitKind::Week },
        ]
    );
}

#[test]
fn a_written_quantity_beyond_the_range_is_held_as_the_largest() {
    assert_eq!(
        parse_terms("18446744073709551616m").unwrap(),
        vec![ParsedTerm { quantity: u64::MAX, unit: UnitKind::Minute }]
    );
    assert_eq!(
        parse_terms("18446744073709551615m").unwrap(),
        vec![ParsedTerm { quantity: u64::MAX, unit: UnitKind::Minute }]
    );
    assert_eq!(
        parse_terms("18446744073709551614m").unwrap(),
        vec![ParsedTerm { quantity: u64::MAX - 1, unit: UnitKind::Minute }]
    );
}

#[test]
fn terms_fail_as_the_phrase_fails() {
    assert_eq!(parse_terms(""), Err(ParseError::Empty));
    assert_eq!(
        parse_terms("2 fortnights"),
        Err(ParseError::UnknownUnit { position: 2, label: "fortnights".to_string() })
    );
}

#[test]
fn labels_are_read_without_regard_to_case() {
    assert_eq!(secs("1DAY"), 86_400);
    assert_eq!(secs("1Day"), 86_400);
    assert_eq!(secs("1D"), 86_400);
    assert_eq!(secs("2Min"), 120);
    assert_eq!(secs("2MIN"), 120);
    assert_eq!(secs("1MONTH"), 30 * 86_400);
    assert_eq!(secs("1Y"), 365 * 86_400);
    assert_eq!(secs("1S"), 1);
    assert_eq!(secs("1H"), 3_600);
    assert_eq!(secs("1W"), 7 * 86_400);
}

use prac::decimal::{digit_text, push_decimal, read_decimal};
use prac::duration::{Duration, MAX_SECS};
use prac::error::UnitError;
use prac::scan::{chars_of, scan_run, CharClass};
use prac::term::{accumulate, ParsedTerm};
use prac::unit::{resolve, unit_for, UnitKind};

#[test]
fn seconds_per_unit() {
    assert_eq!(UnitKind::Second.seconds(), 1);
    assert_eq!(UnitKind::Minute.seconds(), 60);
    assert_eq!(UnitKind::Hour.seconds(), 3_600);
    assert_eq!(UnitKind::Day.seconds(), 86_400);
    assert_eq!(UnitKind::Week.seconds(), 7 * 86_400);
    assert_eq!(UnitKind::Month.seconds(), 30 * 86_400);
    assert_eq!(UnitKind::Year.seconds(), 365 * 86_400);
}

#[test]
fn abbreviations() {
    assert_eq!(UnitKind::Second.abbreviation(), "s");
    assert_eq!(UnitKind::Minute.abbreviation(), "m");
    assert_eq!(UnitKind::Hour.abbreviation(), "h");
    assert_eq!(UnitKind::Day.abbreviation(), "d");
    assert_eq!(UnitKind::Week.abbreviation(), "w");
    assert_eq!(UnitKind::Month.abbreviation(), "M");
    assert_eq!(UnitKind::Year.abbreviation(), "y");
}

#[test]
fn every_abbreviation_names_its_unit() {
    let units = [
        UnitKind::Second,
        UnitKind::Minute,
        UnitKind::Hour,
        UnitKind::Day,
        UnitKind::Week,
        UnitKind::Month,
        UnitKind::Year,
    ];
    for unit in units {
        assert_eq!(resolve(unit.abbreviation()), Ok(unit));
    }
}

#[test]
fn every_alias_resolves() {
    for label in ["s", "sec", "second", "seconds"] {
        assert_eq!(resolve(label), Ok(UnitKind::Second));
    }
    for label in ["m", "min", "minute", "minutes"] {
        assert_eq!(resolve(label), Ok(UnitKind::Minute));
    }
    for label in ["h", "hr", "hour", "hours"] {
        assert_eq!(resolve(label), Ok(UnitKind::Hour));
    }
    for label in ["d", "day", "days"] {
        assert_eq!(resolve(label), Ok(UnitKind::Day));
    }
    for label in ["w", "week", "weeks"] {
        assert_eq!(resolve(label), Ok(UnitKind::Week));
    }
    for label in ["M", "month", "months"] {
        assert_eq!(resolve(label), Ok(UnitKind::Month));
    }
    for label in ["y", "Y", "year", "years"] {
        assert_eq!(resolve(label), Ok(UnitKind::Year));
    }
}

#[test]
fn case_is_ignored_except_for_the_single_letter_m() {
    assert_eq!(resolve("m"), Ok(UnitKind::Minute));
    assert_eq!(resolve("M"), Ok(UnitKind::Month));
    assert_eq!(resolve("S"), Ok(UnitKind::Second));
    assert_eq!(resolve("SEC"), Ok(UnitKind::Second));
    assert_eq!(resolve("Seconds"), Ok(UnitKind::Second));
    assert_eq!(resolve("MIN"), Ok(UnitKind::Minute));
    assert_eq!(resolve("Min"), Ok(UnitKind::Minute));
    assert_eq!(resolve("MINUTES"), Ok(UnitKind::Minute));
    assert_eq!(resolve("Hr"), Ok(UnitKind::Hour));
    assert_eq!(resolve("H"), Ok(UnitKind::Hour));
    assert_eq!(resolve("D"), Ok(UnitKind::Day));
    assert_eq!(resolve("dAyS"), Ok(UnitKind::Day));
    assert_eq!(resolve("W"), Ok(UnitKind::Week));
    assert_eq!(resolve("Weeks"), Ok(UnitKind::Week));
    assert_eq!(resolve("MONTH"), Ok(UnitKind::Month));
    assert_eq!(resolve("Months"), Ok(UnitKind::Month));
    assert_eq!(resolve("YEAR"), Ok(UnitKind::Year));
}

#[test]
fn unknown_labels_come_back_in_the_error() {
    assert_eq!(resolve("fortnight"), Err(UnitError { label: "fortnight".to_string() }));
    assert_eq!(resolve(""), Err(UnitError { label: String::new() }));
    assert_eq!(resolve("mi"), Err(UnitError { label: "mi".to_string() }));
    assert_eq!(resolve("mm"), Err(UnitError { label: "mm".to_string() }));
    assert_eq!(resolve("secs"), Err(UnitError { label: "secs".to_string() }));
    assert_eq!(resolve("d "), Err(UnitError { label: "d ".to_string() }));
    assert_eq!(resolve("da\u{ff}"), Err(UnitError { label: "da\u{ff}".to_string() }));
    assert_eq!(resolve("\u{212a}"), Err(UnitError { label: "\u{212a}".to_string() }));
}

#[test]
fn unit_for_reads_a_stretch_of_the_text() {
    let chars = chars_of("12 Hours3");
    assert_eq!(unit_for(&chars, 3, 8), Some(UnitKind::Hour));
    assert_eq!(unit_for(&chars, 3, 7), Some(UnitKind::Hour));
    assert_eq!(unit_for(&chars, 3, 4), Some(UnitKind::Hour));
    assert_eq!(unit_for(&chars, 3, 6), None);
    assert_eq!(unit_for(&chars, 3, 3), None);
    assert_eq!(unit_for(&chars, 0, 2), None);
}

#[test]
fn character_classes() {
    for c in [' ', '\t', '\n', '\r', '\x0C'] {
        assert!(CharClass::Space.holds(c));
        assert!(!CharClass::Digit.holds(c));
        assert!(!CharClass::Letter.holds(c));
    }
    for c in ['0', '5', '9'] {
        assert!(CharClass::Digit.holds(c));
        assert!(!CharClass::Space.holds(c));
        assert!(!CharClass::Letter.holds(c));
    }
    for c in ['a', 'z', 'A', 'Z', 'm'] {
        assert!(CharClass::Letter.holds(c));
        assert!(!CharClass::Digit.holds(c));
    }
    for c in ['/', ':', '@', '[', '`', '{', '\u{e9}', '\u{a0}', '\u{0b}', '\u{660}'] {
        assert!(!CharClass::Letter.holds(c));
        assert!(!CharClass::Digit.holds(c));
        assert!(!CharClass::Space.holds(c));
    }
}

#[test]
fn runs_end_at_the_first_character_outside_the_class() {
    let chars = chars_of("  12ab ");
    assert_eq!(scan_run(&chars, 0, CharClass::Space), 2);
    assert_eq!(scan_run(&chars, 2, CharClass::Digit), 4);
    assert_eq!(scan_run(&chars, 4, CharClass::Letter), 6);
    assert_eq!(scan_run(&chars, 6, CharClass::Space), 7);
    assert_eq!(scan_run(&chars, 7, CharClass::Space), 7);
    assert_eq!(scan_run(&chars, 2, CharClass::Letter), 2);
}

#[test]
fn chars_of_counts_characters_not_bytes() {
    assert_eq!(chars_of("a\u{e9}\u{1f600}"), vec!['a', '\u{e9}', '\u{1f600}']);
    assert_eq!(chars_of(""), Vec::<char>::new());
}

#[test]
fn reading_numerals() {
    let chars = chars_of("x0042y18446744073709551615z18446744073709551616");
    assert_eq!(read_decimal(&chars, 1, 5), 42);
    assert_eq!(read_decimal(&chars, 1, 1), 0);
    assert_eq!(read_decimal(&chars, 6, 26), u64::MAX);
    assert_eq!(read_decimal(&chars, 6, 25), 1_844_674_407_370_955_161);
    assert_eq!(read_decimal(&chars, 27, 47), u64::MAX);
}

#[test]
fn writing_numerals() {
    let mut out = String::from("n=");
    push_decimal(&mut out, 0);
    assert_eq!(out, "n=0");
    push_decimal(&mut out, 907);
    assert_eq!(out, "n=0907");
    let mut out = String::new();
    push_decimal(&mut out, u64::MAX);
    assert_eq!(out, "18446744073709551615");
    for d in 0..10u64 {
        assert_eq!(digit_text(d), d.to_string());
    }
}

#[test]
fn duration_holds_seconds() {
    assert_eq!(Duration::from_secs(90).as_secs(), 90);
    assert_eq!(Duration::zero().as_secs(), 0);
    assert!(Duration::zero().is_zero());
    assert!(!Duration::from_secs(1).is_zero());
    assert_eq!(Duration::max().as_secs(), MAX_SECS);
    assert_eq!(MAX_SECS, u64::MAX);
    assert_eq!(Duration::from_secs(5), Duration::from_secs(5));
}

#[test]
fn duration_of_quantity_and_unit() {
    assert_eq!(Duration::of(3, UnitKind::Day).as_secs(), 3 * 86_400);
    assert_eq!(Duration::of(0, UnitKind::Year).as_secs(), 0);
    assert_eq!(Duration::of(u64::MAX, UnitKind::Second).as_secs(), u64::MAX);
    assert_eq!(Duration::of(u64::MAX, UnitKind::Minute).as_secs(), u64::MAX);
    assert_eq!(Duration::of(u64::MAX / 60, UnitKind::Minute).as_secs(), u64::MAX / 60 * 60);
    assert_eq!(Duration::of(u64::MAX / 60 + 1, UnitKind::Minute).as_secs(), u64::MAX);
}

#[test]
fn duration_sum_saturates() {
    let a = Duration::from_secs(u64::MAX - 5);
    assert_eq!(a.saturating_add(Duration::from_secs(5)).as_secs(), u64::MAX);
    assert_eq!(a.saturating_add(Duration::from_secs(4)).as_secs(), u64::MAX - 1);
    assert_eq!(a.saturating_add(Duration::from_secs(6)).as_secs(), u64::MAX);
    assert_eq!(a.saturating_add(a).as_secs(), u64::MAX);
    assert_eq!(Duration::from_secs(2).saturating_add(Duration::from_secs(3)).as_secs(), 5);
}

#[test]
fn accumulate_sums_the_terms() {
    let terms = vec![
        ParsedTerm { quantity: 3, unit: UnitKind::Day },
        ParsedTerm { quantity: 15, unit: UnitKind::Hour },
    ];
    assert_eq!(accumulate(&terms).as_secs(), 3 * 86_400 + 15 * 3_600);
}

#[test]
fn accumulate_of_nothing_is_zero() {
    assert_eq!(accumulate(&Vec::new()), Duration::zero());
}

#[test]
fn accumulate_ignores_order() {
    let a = vec![
        ParsedTerm { quantity: 1, unit: UnitKind::Week },
        ParsedTerm { quantity: 4, unit: UnitKind::Day },
        ParsedTerm { quantity: 9, unit: UnitKind::Second },
    ];
    let b = vec![a[2], a[0], a[1]];
    assert_eq!(accumulate(&a), accumulate(&b));
    assert_eq!(accumulate(&a).as_secs(), 11 * 86_400 + 9);
}

#[test]
fn accumulate_adds_terms_of_one_unit() {
    let twice = vec![
        ParsedTerm { quantity: 1, unit: UnitKind::Hour },
        ParsedTerm { quantity: 1, unit: UnitKind::Hour },
    ];
    let once = vec![ParsedTerm { quantity: 2, unit: UnitKind::Hour }];
    assert_eq!(accumulate(&twice), accumulate(&once));
    assert_eq!(accumulate(&twice).as_secs(), 7_200);
}

#[test]
fn accumulate_saturates() {
    let terms = vec![
        ParsedTerm { quantity: 1, unit: UnitKind::Second },
        ParsedTerm { quantity: u64::MAX, unit: UnitKind::Year },
        ParsedTerm { quantity: 1, unit: UnitKind::Second },
    ];
    assert_eq!(accumulate(&terms), Duration::max());
    let terms = vec![
        ParsedTerm { quantity: u64::MAX - 1, unit: UnitKind::Second },
        ParsedTerm { quantity: 1, unit: UnitKind::Second },
    ];
    assert_eq!(accumulate(&terms).as_secs(), u64::MAX);
    let terms = vec![
        ParsedTerm { quantity: u64::MAX - 2, unit: UnitKind::Second },
        ParsedTerm { quantity: 1, unit: UnitKind::Second },
    ];
    assert_eq!(accumulate(&terms).as_secs(), u64::MAX - 1);
}

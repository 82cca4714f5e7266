use starred_music::album::{BoundedReleaseYear, BoundedTrackCount, ValidatedText, ValidationError};

#[test]
fn track_count_accepts_bounds() {
    let low = BoundedTrackCount::parse("1").unwrap();
    assert_eq!(low.value(), 1);
    let high = BoundedTrackCount::parse("750").unwrap();
    assert_eq!(high.value(), 750);
    let mid = BoundedTrackCount::parse("17").unwrap();
    assert_eq!(mid.value(), 17);
}

#[test]
fn track_count_trims_and_takes_plus_sign() {
    assert_eq!(BoundedTrackCount::parse("  17  ").unwrap().value(), 17);
    assert_eq!(BoundedTrackCount::parse("+17").unwrap().value(), 17);
    assert_eq!(BoundedTrackCount::parse("0017").unwrap().value(), 17);
}

#[test]
fn track_count_rejects_out_of_range() {
    assert!(matches!(
        BoundedTrackCount::parse("0"),
        Err(ValidationError::OutOfRange(_, 1, 750))
    ));
    assert!(matches!(
        BoundedTrackCount::parse("751"),
        Err(ValidationError::OutOfRange(_, 1, 750))
    ));
    // far beyond the 32-bit accumulator: still reported as out of range
    assert!(matches!(
        BoundedTrackCount::parse("99999999999999999999"),
        Err(ValidationError::OutOfRange(_, 1, 750))
    ));
}

#[test]
fn track_count_rejects_non_numbers() {
    assert!(matches!(
        BoundedTrackCount::parse("abc"),
        Err(ValidationError::NotANumber(_))
    ));
    assert!(matches!(
        BoundedTrackCount::parse(""),
        Err(ValidationError::NotANumber(_))
    ));
    assert!(matches!(
        BoundedTrackCount::parse("17a"),
        Err(ValidationError::NotANumber(_))
    ));
    assert!(matches!(
        BoundedTrackCount::parse("-5"),
        Err(ValidationError::NotANumber(_))
    ));
    assert!(matches!(
        BoundedTrackCount::parse("+"),
        Err(ValidationError::NotANumber(_))
    ));
}

#[test]
fn track_count_out_of_range_message() {
    let err = BoundedTrackCount::parse("0").unwrap_err();
    assert_eq!(err.message(), "input '0' must be between 1 and 750");
}

#[test]
fn release_year_accepts_bounds() {
    assert_eq!(BoundedReleaseYear::parse("1928", 2026).unwrap().value(), 1928);
    assert_eq!(BoundedReleaseYear::parse("2026", 2026).unwrap().value(), 2026);
    assert_eq!(BoundedReleaseYear::parse(" 1969 ", 2026).unwrap().value(), 1969);
    assert_eq!(BoundedReleaseYear::parse("+1969", 2026).unwrap().value(), 1969);
}

#[test]
fn release_year_rejects_out_of_range() {
    assert!(matches!(
        BoundedReleaseYear::parse("1927", 2026),
        Err(ValidationError::OutOfRange(_, 1928, 2026))
    ));
    assert!(matches!(
        BoundedReleaseYear::parse("2027", 2026),
        Err(ValidationError::OutOfRange(_, 1928, 2026))
    ));
    // a well-formed negative number is out of range, not a parse failure
    assert!(matches!(
        BoundedReleaseYear::parse("-5", 2026),
        Err(ValidationError::OutOfRange(_, 1928, 2026))
    ));
}

#[test]
fn release_year_rejects_non_numbers() {
    assert!(matches!(
        BoundedReleaseYear::parse("12a", 2026),
        Err(ValidationError::NotANumber(_))
    ));
    assert!(matches!(
        BoundedReleaseYear::parse("", 2026),
        Err(ValidationError::NotANumber(_))
    ));
    assert!(matches!(
        BoundedReleaseYear::parse("-", 2026),
        Err(ValidationError::NotANumber(_))
    ));
}

#[test]
fn release_year_out_of_range_message() {
    let err = BoundedReleaseYear::parse("1900", 2026).unwrap_err();
    assert_eq!(err.message(), "input '1900' must be between 1928 and 2026");
}

#[test]
fn validated_text_trims() {
    let t = ValidatedText::parse("  Abbey Road  ").unwrap();
    assert_eq!(t.text, "Abbey Road");
}

#[test]
fn validated_text_replaces_tabs() {
    let t = ValidatedText::parse("Abbey\tRoad").unwrap();
    assert_eq!(t.text, "Abbey Road");
    let t = ValidatedText::parse("\ta\t\tb\t").unwrap();
    assert_eq!(t.text, "a  b");
    assert!(!t.text.contains('\t'));
}

#[test]
fn validated_text_rejects_blank_input() {
    assert!(matches!(
        ValidatedText::parse(""),
        Err(ValidationError::EmptyInput(_))
    ));
    assert!(matches!(
        ValidatedText::parse("   "),
        Err(ValidationError::EmptyInput(_))
    ));
    assert!(matches!(
        ValidatedText::parse("\t \t"),
        Err(ValidationError::EmptyInput(_))
    ));
    assert!(matches!(
        ValidatedText::parse("\u{00A0}\u{2003}"),
        Err(ValidationError::EmptyInput(_))
    ));
}

#[test]
fn validated_text_output_has_no_surrounding_whitespace() {
    let t = ValidatedText::parse(" \u{3000} Dark Side \u{2028} ").unwrap();
    assert_eq!(t.text, "Dark Side");
    assert!(!t.text.starts_with(char::is_whitespace));
    assert!(!t.text.ends_with(char::is_whitespace));
}

#[test]
fn empty_input_message_names_the_input() {
    let err = ValidatedText::parse(" ").unwrap_err();
    assert_eq!(
        err.message(),
        "input ' ' must contain at least one non-whitespace character"
    );
}

#[test]
fn not_a_number_message_names_the_input() {
    let err = BoundedTrackCount::parse("abc").unwrap_err();
    assert_eq!(err.message(), "input 'abc' is not a valid number");
}

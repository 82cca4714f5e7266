use starred_music::album::{Timestamp, ValidationError};
use starred_music::user_input::{error_messages, parse_args, ArgsError};

fn ts() -> Timestamp {
    Timestamp::from_parts(2024, 5, 17, 12, 34, 56).unwrap()
}

fn strings(parts: &[&str]) -> Vec<String> {
    parts.iter().map(|p| p.to_string()).collect()
}

#[test]
fn four_args_build_a_record() {
    let args = strings(&["Abbey Road", "The Beatles", "17", "1969"]);
    let record = parse_args(&args, 2026, ts()).unwrap();
    assert_eq!(record.name.text, "Abbey Road");
    assert_eq!(record.artist.text, "The Beatles");
    assert_eq!(record.tracks.value(), 17);
    assert_eq!(record.release_year.value(), 1969);
    assert_eq!(record.added_at, ts());
}

#[test]
fn one_joined_arg_builds_the_same_record() {
    let four = strings(&["Abbey Road", "The Beatles", "17", "1969"]);
    let one = strings(&["Abbey Road;;The Beatles;;17;;1969"]);
    let a = parse_args(&four, 2026, ts()).unwrap();
    let b = parse_args(&one, 2026, ts()).unwrap();
    assert_eq!(a.to_tsv_entry(), b.to_tsv_entry());
    assert_eq!(a.name.text, b.name.text);
    assert_eq!(a.artist.text, b.artist.text);
}

#[test]
fn wrong_argument_count_is_a_usage_error() {
    let two = strings(&["Abbey Road", "The Beatles"]);
    assert!(matches!(parse_args(&two, 2026, ts()), Err(ArgsError::Usage)));
    let none = strings(&[]);
    assert!(matches!(parse_args(&none, 2026, ts()), Err(ArgsError::Usage)));
    let five = strings(&["a", "b", "c", "1", "1999"]);
    assert!(matches!(parse_args(&five, 2026, ts()), Err(ArgsError::Usage)));
}

#[test]
fn one_arg_with_too_few_fields_is_a_usage_error() {
    let args = strings(&["Abbey Road;;The Beatles"]);
    assert!(matches!(parse_args(&args, 2026, ts()), Err(ArgsError::Usage)));
}

#[test]
fn delimiter_inside_an_argument_changes_the_field_count() {
    let args = strings(&["Abbey;;Road", "The Beatles", "17", "1969"]);
    assert!(matches!(parse_args(&args, 2026, ts()), Err(ArgsError::Usage)));
}

#[test]
fn empty_name_collects_exactly_one_error() {
    let args = strings(&["", "The Beatles", "17", "1969"]);
    match parse_args(&args, 2026, ts()) {
        Err(ArgsError::Invalid(errors)) => {
            assert_eq!(errors.len(), 1);
            assert_eq!(errors[0].field, 0);
            assert!(matches!(errors[0].error, ValidationError::EmptyInput(_)));
        }
        _ => panic!("expected a validation failure"),
    }
}

#[test]
fn every_invalid_field_is_reported_in_order() {
    let args = strings(&["", " ", "0", "3000"]);
    match parse_args(&args, 2026, ts()) {
        Err(ArgsError::Invalid(errors)) => {
            assert_eq!(errors.len(), 4);
            let fields: Vec<usize> = errors.iter().map(|e| e.field).collect();
            assert_eq!(fields, vec![0, 1, 2, 3]);
            assert!(matches!(errors[0].error, ValidationError::EmptyInput(_)));
            assert!(matches!(errors[1].error, ValidationError::EmptyInput(_)));
            assert!(matches!(errors[2].error, ValidationError::OutOfRange(_, 1, 750)));
            assert!(matches!(
                errors[3].error,
                ValidationError::OutOfRange(_, 1928, 2026)
            ));
            let lines = error_messages(&errors);
            assert_eq!(lines.len(), 4);
            assert_eq!(lines[2], "2: input '0' must be between 1 and 750");
            assert_eq!(lines[3], "3: input '3000' must be between 1928 and 2026");
        }
        _ => panic!("expected a validation failure"),
    }
}

#[test]
fn fields_are_trimmed_before_validation() {
    let args = strings(&[" Abbey Road ", " The Beatles ", " 17 ", " 1969 "]);
    let record = parse_args(&args, 2026, ts()).unwrap();
    assert_eq!(record.name.text, "Abbey Road");
    assert_eq!(record.tracks.value(), 17);
}

#[test]
fn joined_arg_trims_each_field() {
    let args = strings(&[" Abbey Road ;; The Beatles ;; 17 ;; 1969 "]);
    let record = parse_args(&args, 2026, ts()).unwrap();
    assert_eq!(record.name.text, "Abbey Road");
    assert_eq!(record.artist.text, "The Beatles");
}

use starred_music::album::{
    BoundedReleaseYear, BoundedTrackCount, Record, Timestamp, ValidatedText,
};

fn sample_timestamp() -> Timestamp {
    Timestamp::from_parts(2024, 5, 17, 12, 34, 56).unwrap()
}

fn sample_record() -> Record {
    Record::create(
        ValidatedText::parse("Abbey Road").unwrap(),
        ValidatedText::parse("The Beatles").unwrap(),
        BoundedTrackCount::parse("17").unwrap(),
        BoundedReleaseYear::parse("1969", 2026).unwrap(),
        sample_timestamp(),
    )
}

#[test]
fn entry_joins_fields_with_tabs_in_fixed_order() {
    let entry = sample_record().to_tsv_entry();
    assert_eq!(entry, "The Beatles\tAbbey Road\t17\t1969\t2024-05-17 12:34:56");
}

#[test]
fn entry_has_exactly_four_tabs_and_ends_with_a_timestamp() {
    let entry = sample_record().to_tsv_entry();
    assert_eq!(entry.matches('\t').count(), 4);
    assert_eq!(entry.matches('\n').count(), 0);
    let tail: Vec<char> = entry.chars().rev().take(19).collect();
    let ts: String = tail.into_iter().rev().collect();
    for (k, c) in ts.chars().enumerate() {
        match k {
            4 | 7 => assert_eq!(c, '-'),
            10 => assert_eq!(c, ' '),
            13 | 16 => assert_eq!(c, ':'),
            _ => assert!(c.is_ascii_digit()),
        }
    }
}

#[test]
fn storage_line_is_entry_plus_newline() {
    let record = sample_record();
    let line = record.storage_line();
    let mut expected = record.to_tsv_entry();
    expected.push('\n');
    assert_eq!(line, expected);
    assert!(line.ends_with('\n'));
    assert_eq!(line.matches('\n').count(), 1);
}

#[test]
fn display_shows_every_field_on_its_own_line() {
    let shown = sample_record().display_string();
    let expected = "Album\n{\n    name:       Abbey Road\n    artist:     The Beatles\n    tracks:     17\n    released:   1969\n    added:      2024-05-17 12:34:56\n}";
    assert_eq!(shown, expected);
}

#[test]
fn timestamp_renders_zero_padded() {
    let t = Timestamp::from_parts(980, 1, 2, 3, 4, 5).unwrap();
    assert_eq!(t.render(), "0980-01-02 03:04:05");
    let t = Timestamp::from_parts(0, 12, 31, 23, 59, 59).unwrap();
    assert_eq!(t.render(), "0000-12-31 23:59:59");
}

#[test]
fn timestamp_rejects_out_of_range_parts() {
    assert!(Timestamp::from_parts(2024, 13, 1, 0, 0, 0).is_none());
    assert!(Timestamp::from_parts(2024, 0, 1, 0, 0, 0).is_none());
    assert!(Timestamp::from_parts(2024, 1, 32, 0, 0, 0).is_none());
    assert!(Timestamp::from_parts(2024, 1, 1, 24, 0, 0).is_none());
    assert!(Timestamp::from_parts(2024, 1, 1, 0, 60, 0).is_none());
    assert!(Timestamp::from_parts(2024, 1, 1, 0, 0, 60).is_none());
    assert!(Timestamp::from_parts(10000, 1, 1, 0, 0, 0).is_none());
    assert!(Timestamp::from_parts(-1, 1, 1, 0, 0, 0).is_none());
}

#[test]
fn record_keeps_the_timestamp_it_was_created_with() {
    let record = sample_record();
    assert_eq!(record.added_at, sample_timestamp());
    assert_eq!(record.tracks.value(), 17);
    assert_eq!(record.release_year.value(), 1969);
}

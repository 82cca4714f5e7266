use starred_music::clock::{current_timestamp, current_year};
use starred_music::user_input::{
    get_album_name, get_artist, get_input_string, get_release_year, get_tracks, parse_choice,
    UserChoice,
};

#[test]
fn affirmative_tokens_are_recognized() {
    assert_eq!(parse_choice("y"), Some(UserChoice::Yes));
    assert_eq!(parse_choice("Y"), Some(UserChoice::Yes));
    assert_eq!(parse_choice("yes"), Some(UserChoice::Yes));
    assert_eq!(parse_choice("YES"), Some(UserChoice::Yes));
    assert_eq!(parse_choice(" yEs \n"), Some(UserChoice::Yes));
    assert_eq!(parse_choice("\ty\t"), Some(UserChoice::Yes));
}

#[test]
fn negative_tokens_are_recognized() {
    assert_eq!(parse_choice("n"), Some(UserChoice::No));
    assert_eq!(parse_choice("N"), Some(UserChoice::No));
    assert_eq!(parse_choice("no"), Some(UserChoice::No));
    assert_eq!(parse_choice(" No \n"), Some(UserChoice::No));
}

#[test]
fn anything_else_is_no_answer() {
    assert_eq!(parse_choice("maybe"), None);
    assert_eq!(parse_choice(""), None);
    assert_eq!(parse_choice("yess"), None);
    assert_eq!(parse_choice("nope"), None);
    assert_eq!(parse_choice("ye"), None);
}

#[test]
fn confirmation_retries_until_an_answer() {
    // the inputs of one interactive session: an unrecognized answer keeps
    // the question open, the next answer settles it
    let session = ["maybe", "Y"];
    let mut outcome = None;
    for line in session {
        outcome = parse_choice(line);
        if outcome.is_some() {
            break;
        }
    }
    assert_eq!(outcome, Some(UserChoice::Yes));
    assert_eq!(parse_choice("no"), Some(UserChoice::No));
}

#[test]
fn prompt_helpers_validate_one_line() {
    assert_eq!(get_album_name(" Abbey Road ").unwrap().text, "Abbey Road");
    assert_eq!(get_artist("The Beatles").unwrap().text, "The Beatles");
    assert!(get_input_string("   ").is_err());
    assert_eq!(get_tracks("17").unwrap().value(), 17);
    assert!(get_tracks("0").is_err());
    assert_eq!(get_release_year("1969", 2026).unwrap().value(), 1969);
    assert!(get_release_year("2030", 2026).is_err());
}

#[test]
fn clock_reports_a_plausible_instant() {
    let year = current_year();
    assert!((2020..=9999).contains(&year));
    let now = current_timestamp().expect("the clock is within the storage range");
    assert!((2020..=9999).contains(&now.year));
    assert!((1..=12).contains(&now.month));
    assert!((1..=31).contains(&now.day));
    assert!(now.hour < 24 && now.minute < 60 && now.second < 60);
    assert_eq!(now.render().len(), 19);
}

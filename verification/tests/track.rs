use audiobook_organizer::rules::{check_solo, check_start, check_suffix};
use audiobook_organizer::track::{parse_from_filename, resolve};

#[test]
fn main_test_parse_from_filename() {
    // Tuple format: (input_filename, expected_track_number)
    let inputs = [
        ("02 - book title", Some(2)),
        ("02 - book with number 3 in title", Some(2)),
        ("2 - book with title - book 3", Some(2)),
        ("Book 3 - title - 02", Some(2)),
        ("Book3 - title - 2", Some(2)),
        ("Book 3 - title_2", Some(2)),
        ("Book3 - title with number 4 in it - 2 of 13", Some(2)),
        ("book 3 - title - 2of13", Some(2)),
        ("Author - Title with number 4 in it", None),
        ("Book 3 - title", None),
        ("Title with number 4 in it", None),
        ("Book 3 - section 7 - title", Some(7)),
        ("Book3 - section7 - title", Some(7)),
        ("Book 3 - title - section 7", Some(7)),
        ("BH_19-37 title", Some(19)),
        ("19-37 title", Some(19)),
        ("author - title - 19-37", Some(19)),
        ("The Lady of the Camellias_MP3WRAP", None),
        ("author - title 2025-11-27 with date", None),
        ("author - title 11-27-2025 with date", None),
        ("author - title 11/27/2025 with date", None),
        ("author - title 11/27/25 with date", None),
        ("author - title 11.27.2025 with date", None),
    ];

    for (input, expected) in inputs {
        let result = parse_from_filename(input);
        assert_eq!(
            result, expected,
            "Failed on input: '{}'. Expected {:?}, got {:?}",
            input, expected, result
        );
    }
}

#[test]
fn track_test_parse_from_filename() {
    // Tuple format: (input_filename, expected_track_number)
    let inputs = [
        ("02 - book title", Some(2)),
        ("02 - book with number 3 in title", Some(2)),
        ("2 - book with title - book 3", Some(2)),
        ("Book 3 - title - 02", Some(2)),
        ("Book3 - title - 2", Some(2)),
        ("Book 3 - title_2", Some(2)),
        ("Book3 - title with number 4 in it - 2 of 13", Some(2)),
        ("book 3 - title - 2of13", Some(2)),
        ("Author - Title with number 4 in it", None),
        ("Book 3 - title", None),
        ("Title with number 4 in it", None),
        ("Book 3 - section 7 - title", Some(7)),
        ("Book3 - section7 - title", Some(7)),
        ("Book 3 - title - section 7", Some(7)),
        ("BH_19-37 title", Some(19)),
        ("19-37 title", Some(19)),
        ("author - title - 19-37", Some(19)),
        ("The Lady of the Camellias_MP3WRAP", None),
        ("author - title 2025-11-27 with date", None),
        ("author - title 11-27-2025 with date", None),
        ("author - title 11/27/2025 with date", None),
        ("author - title 11/27/25 with date", None),
        ("author - title 11.27.2025 with date", None),
    ];

    for (input, expected) in inputs {
        let result = parse_from_filename(input);
        assert_eq!(
            result, expected,
            "Failed on input: '{}'. Expected {:?}, got {:?}",
            input, expected, result
        );
    }
}

#[test]
fn solo_number_with_whitespace() {
    assert_eq!(parse_from_filename("  7  "), Some(7));
    assert_eq!(parse_from_filename("7"), Some(7));
}

#[test]
fn bare_embedded_number_is_no_match() {
    assert_eq!(parse_from_filename("Author - Title with number 4 in it"), None);
}

#[test]
fn tag_number_is_authoritative() {
    assert_eq!(resolve(Some(5), "02 - title"), Some(5));
    assert_eq!(resolve(Some(1), "Book 3 - section 7 - title"), Some(1));
}

#[test]
fn tag_sentinel_zero_falls_back_to_filename() {
    assert_eq!(resolve(Some(0), "02 - title"), Some(2));
    assert_eq!(resolve(None, "02 - title"), Some(2));
    assert_eq!(resolve(Some(0), "Book 3 - title"), None);
}

#[test]
fn explicit_context_overrides_ignore_set() {
    assert_eq!(parse_from_filename("Book 3 - section 7 - title"), Some(7));
    // Even a number that the ignore set holds is returned by explicit context.
    assert_eq!(parse_from_filename("Book 3 - chapter 3"), Some(3));
    assert_eq!(parse_from_filename("track #12 more"), Some(12));
    assert_eq!(parse_from_filename("Part 4"), Some(4));
}

#[test]
fn date_components_are_all_ignored() {
    assert_eq!(parse_from_filename("author - title 11/27/25 with date"), None);
    // A candidate that is not a date component still wins.
    assert_eq!(parse_from_filename("05 - title 2025-11-27"), Some(5));
}

#[test]
fn oversized_numbers_do_not_match() {
    // The leading number can be at most three digits long.
    assert_eq!(parse_from_filename("1234 - title"), None);
    // A trailing number beyond the 16-bit range is a non-match.
    assert_eq!(parse_from_filename("title - 99999"), None);
    assert_eq!(parse_from_filename("title - 65535"), Some(65535));
}

#[test]
fn rule_order_is_a_cascade() {
    // `N of M` beats the leading number rule.
    assert_eq!(parse_from_filename("7 - title 2 of 13"), Some(2));
    // The leading number beats a pair further in.
    assert_eq!(parse_from_filename("02 - title 19-37"), Some(2));
    // A pair beats a trailing suffix.
    assert_eq!(parse_from_filename("x_y 19-37 - 5"), Some(19));
}

#[test]
fn individual_rules_are_testable() {
    let s: Vec<char> = "02 - title".chars().collect();
    assert_eq!(check_start(&s), Some((0, 2)));
    let s: Vec<char> = "title".chars().collect();
    assert_eq!(check_start(&s), None);
    let s: Vec<char> = "title - 02".chars().collect();
    assert_eq!(check_suffix(&s), Some((8, 10)));
    let s: Vec<char> = " 42 ".chars().collect();
    assert_eq!(check_solo(&s), Some((1, 3)));
}

use bigbrother::task::names::{season_number, show_identity};
use bigbrother::task::tv::TvProcessor;

#[test]
fn test_parse_tv_name_valid_with_year() {
    let input = "The Office (2005)";
    let expected = ("The Office".to_string(), Some(2005));
    assert_eq!(TvProcessor::parse_tv_name(input), expected);
}

#[test]
fn test_parse_tv_name_valid_without_year() {
    let input = "The Office";
    let expected = ("The Office".to_string(), None);
    assert_eq!(TvProcessor::parse_tv_name(input), expected);
}

#[test]
fn test_parse_tv_name_invalid_format() {
    let input = "The Office 2005";
    let expected = ("The Office 2005".to_string(), None);
    assert_eq!(TvProcessor::parse_tv_name(input), expected);
}

#[test]
fn test_parse_tv_name_multiple_spaces() {
    let input = "The  Office  (2005)";
    let expected = ("The  Office".to_string(), Some(2005));
    assert_eq!(TvProcessor::parse_tv_name(input), expected);
}

#[test]
fn test_parse_tv_name_special_characters() {
    let input = "The Office: US (2005)";
    let expected = ("The Office: US".to_string(), Some(2005));
    assert_eq!(TvProcessor::parse_tv_name(input), expected);
}

#[test]
fn test_parse_tv_name_zh_characters() {
    let input = "The Office: US \u{ff08}2005\u{ff09}";
    let expected = ("The Office: US".to_string(), Some(2005));
    assert_eq!(TvProcessor::parse_tv_name(input), expected);
}

#[test]
fn show_name_in_full_width_brackets_reads_as_in_ascii() {
    assert_eq!(
        TvProcessor::parse_tv_name("The Office\u{ff08}2005\u{ff09}"),
        TvProcessor::parse_tv_name("The Office(2005)")
    );
    assert_eq!(
        TvProcessor::parse_tv_name("The Office (2005)"),
        ("The Office".to_string(), Some(2005))
    );
}

#[test]
fn show_name_edge_cases() {
    // three digits are no year, and the title ends at the bracket
    assert_eq!(TvProcessor::parse_tv_name("Show (205)"), ("Show".to_string(), None));
    // white space around the whole name goes, white space inside stays
    assert_eq!(TvProcessor::parse_tv_name("  A   B  "), ("A   B".to_string(), None));
    // nothing before the bracket: nothing matches at the start, so the
    // first match is what follows the bracket
    assert_eq!(TvProcessor::parse_tv_name("(2005)"), ("2005)".to_string(), None));
    assert_eq!(TvProcessor::parse_tv_name(""), ("".to_string(), None));
    // digits that are not ASCII give no year
    assert_eq!(
        TvProcessor::parse_tv_name("Show (\u{0662}\u{0660}\u{0660}\u{0665})"),
        ("Show".to_string(), None)
    );
}

#[test]
fn season_numbers_from_names() {
    assert_eq!(TvProcessor::parse_season_number("Season 3"), Some(3));
    assert_eq!(TvProcessor::parse_season_number("S03"), Some(3));
    assert_eq!(TvProcessor::parse_season_number("s3"), Some(3));
    assert_eq!(TvProcessor::parse_season_number("Episode 3"), None);
    assert_eq!(TvProcessor::parse_season_number("Seasons 12"), Some(12));
    assert_eq!(TvProcessor::parse_season_number("SEASON   007"), Some(7));
    assert_eq!(TvProcessor::parse_season_number("season1234"), Some(123));
    assert_eq!(TvProcessor::parse_season_number("Specials"), None);
    assert_eq!(TvProcessor::parse_season_number(""), None);
}

#[test]
fn identity_from_groups() {
    let groups = Some(vec![
        Some("A (1999)".to_string()),
        Some(" A ".to_string()),
        Some("(1999)".to_string()),
        Some("1999".to_string()),
    ]);
    assert_eq!(show_identity("ignored", groups), ("A".to_string(), Some(1999)));
    // a year that 32 bits cannot hold is none
    let groups = Some(vec![
        Some("x".to_string()),
        Some("A".to_string()),
        None,
        Some("99999999999".to_string()),
    ]);
    assert_eq!(show_identity("ignored", groups), ("A".to_string(), None));
    // no third group
    let groups = Some(vec![Some("x".to_string()), Some("A".to_string())]);
    assert_eq!(show_identity("ignored", groups), ("A".to_string(), None));
    // no match, or a first group that took no part: the name itself
    assert_eq!(show_identity("  name ", None), ("name".to_string(), None));
    assert_eq!(show_identity(" name", Some(vec![Some("x".to_string()), None])), ("name".to_string(), None));
}

#[test]
fn season_from_groups() {
    let groups = Some(vec![Some("S03".to_string()), None, Some("03".to_string())]);
    assert_eq!(season_number(groups), Some(3));
    assert_eq!(season_number(None), None);
    assert_eq!(season_number(Some(vec![Some("S".to_string())])), None);
    let groups = Some(vec![Some("S".to_string()), None, Some("3a".to_string())]);
    assert_eq!(season_number(groups), None);
}

use bigbrother::task::notify::format_message;
use bigbrother::task::tv::TvProcessor;

#[test]
fn one_episode_is_named_alone() {
    assert_eq!(TvProcessor::format_message("Show", 1, &[5]), "Show season 1 episode 5 ready");
    assert_eq!(format_message("Show", 12, &[5]), "Show season 12 episode 5 ready");
}

#[test]
fn more_episodes_are_named_as_a_range() {
    assert_eq!(
        TvProcessor::format_message("Show", 1, &[3, 4, 5]),
        "Show season 1 episodes 3\u{2013}5 ready"
    );
    assert_eq!(
        TvProcessor::format_message("Show", 1, &[1, 2]),
        "Show season 1 episodes 1\u{2013}2 ready"
    );
}

#[test]
fn a_gap_is_not_told() {
    assert_eq!(
        TvProcessor::format_message("Show", 1, &[1, 2, 5]),
        "Show season 1 episodes 1\u{2013}5 ready"
    );
}

#[test]
fn messages_at_the_edges() {
    assert_eq!(format_message("", 0, &[0]), " season 0 episode 0 ready");
    assert_eq!(format_message("A", -1, &[7, 7]), "A season -1 episodes 7\u{2013}7 ready");
    assert_eq!(
        format_message("A", 2147483647, &[-2147483648, 2147483647]),
        "A season 2147483647 episodes -2147483648\u{2013}2147483647 ready"
    );
}

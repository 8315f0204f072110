use ashell::strutil::truncate_chars;
use ashell::track::track_summary;

fn lines(v: &[&str]) -> Vec<String> {
    v.iter().map(|s| s.to_string()).collect()
}

#[test]
fn artist_and_title_join_with_dash() {
    assert_eq!(track_summary(&lines(&["Artist: A", "Title: T"])), "A - T");
}

#[test]
fn lines_are_arranged_in_lexicographic_order() {
    assert_eq!(track_summary(&lines(&["Title: T", "Artist: A"])), "A - T");
}

#[test]
fn other_lines_are_ignored() {
    assert_eq!(
        track_summary(&lines(&["volume: 3", "Artist: A", "Album: X", "Title: T"])),
        "A - T"
    );
}

#[test]
fn single_fragment_has_no_separator() {
    assert_eq!(track_summary(&lines(&["Artist: A"])), "A");
}

#[test]
fn empty_payload_gives_empty_summary() {
    assert_eq!(track_summary(&lines(&[])), "");
}

#[test]
fn prefix_without_space_still_matches() {
    assert_eq!(track_summary(&lines(&["Artist:X"])), "X");
}

#[test]
fn longer_values_survive_whole() {
    assert_eq!(
        track_summary(&lines(&["Artist: Some Band", "Title: Some Song"])),
        "Some Band - Some Song"
    );
}

#[test]
fn truncation_cuts_at_seven_characters() {
    assert_eq!(truncate_chars("Artist - Title", 7), "Artist ");
}

#[test]
fn truncation_of_short_text_changes_nothing() {
    assert_eq!(truncate_chars("abc", 7), "abc");
}

#[test]
fn truncation_to_zero_is_empty() {
    assert_eq!(truncate_chars("abc", 0), "");
}

#[test]
fn truncation_counts_characters_not_bytes() {
    assert_eq!(truncate_chars("日本語テスト", 2), "日本");
    assert_eq!(truncate_chars("héllo", 2), "hé");
}

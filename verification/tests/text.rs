use lso::text::join_capitalized;

#[test]
fn phrases_are_joined_and_the_sentence_capitalized() {
    let phrases = vec![
        "high on glideslope at 3/4 NM (+0.7°)".to_string(),
        "left of centerline at 3/4 NM (-1.5°)".to_string(),
        "low on glideslope at 1/4 NM (-0.6°)".to_string(),
    ];
    assert_eq!(
        join_capitalized(&phrases, ", "),
        "High on glideslope at 3/4 NM (+0.7°), left of centerline at 3/4 NM (-1.5°), low on glideslope at 1/4 NM (-0.6°)"
    );
}

#[test]
fn no_phrase_gives_an_empty_sentence() {
    assert_eq!(join_capitalized(&Vec::new(), ", "), "");
}

#[test]
fn a_single_phrase_is_only_capitalized() {
    assert_eq!(join_capitalized(&vec!["still off in close".to_string()], ", "), "Still off in close");
}

#[test]
fn a_first_character_that_is_not_a_lower_case_letter_is_kept() {
    assert_eq!(join_capitalized(&vec!["3/4 NM".to_string(), "x".to_string()], "; "), "3/4 NM; x");
    assert_eq!(join_capitalized(&vec!["élan".to_string()], ", "), "élan");
}

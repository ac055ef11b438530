use lso::notation::to_english;

#[test]
fn parses_full_example() {
    assert_eq!(
        to_english("__H__IC (LO)AR FAW __LIG__ WIRE# 3"),
        "Slightly high in close, a little low at the ramp, fast all the way, slightly long in the groove"
    );
}

#[test]
fn parses_standalone_deviation() {
    assert_eq!(to_english("FAW WIRE# 3"), "Fast all the way");
    assert_eq!(to_english("SAW"), "Slow all the way");
}

#[test]
fn parses_underscore_modifier() {
    assert_eq!(to_english("_H_IC"), "Slightly high in close");
    assert_eq!(to_english("_LO_AR"), "Slightly low at the ramp");
}

#[test]
fn parses_plain_deviation_with_position() {
    assert_eq!(to_english("HIC"), "High in close");
    assert_eq!(to_english("LOAR"), "Low at the ramp");
}

#[test]
fn wire_only_returns_empty() {
    assert_eq!(to_english("WIRE# 3"), "");
}

#[test]
fn unknown_token_is_skipped() {
    assert_eq!(
        to_english("_H_IC XYZQ FAW"),
        "Slightly high in close, fast all the way"
    );
}

#[test]
fn strips_vnao_t45_grade_prefix() {
    assert_eq!(
        to_english("LSO: GRADE:--- : (EGIW) WIRE# 4[BC]"),
        "A little energy (AoA), a little glide slope, a little lineup, a little wings not level"
    );
}

#[test]
fn parses_multi_code_parenthetical() {
    assert_eq!(
        to_english("(EGIW)"),
        "A little energy (AoA), a little glide slope, a little lineup, a little wings not level"
    );
}

#[test]
fn strips_prefix_with_ok_grade() {
    assert_eq!(
        to_english("LSO: GRADE:OK : _H_IC WIRE# 2"),
        "Slightly high in close"
    );
}

#[test]
fn prefix_without_grade_keyword_is_kept() {
    // " : " before a prefix that does not mention GRADE is ordinary text.
    assert_eq!(to_english("HIC : LOAR"), "High in close, low at the ramp");
}

#[test]
fn empty_and_whitespace_notation_is_empty() {
    assert_eq!(to_english(""), "");
    assert_eq!(to_english("   \t "), "");
}

#[test]
fn unclosed_parenthesis_falls_back_to_plain_decoding() {
    // No closing parenthesis: the token is decoded as plain concatenated codes.
    assert_eq!(to_english("(H"), "High");
}

#[test]
fn position_code_after_parenthesis_tolerates_underscores() {
    assert_eq!(to_english("(H)_IC_"), "A little high in close");
}

#[test]
fn longest_code_wins_over_its_prefix() {
    assert_eq!(to_english("LULR"), "Lined up left");
    assert_eq!(to_english("LOL"), "Low, low");
}

#[test]
fn a_trailing_wire_callout_never_changes_the_sentence() {
    assert_eq!(to_english("_LUL_ (F)X WIRE# 3"), to_english("_LUL_ (F)X"));
    assert_eq!(to_english("__H__IC WIRE# 4 [BC]"), to_english("__H__IC"));
    assert_eq!(to_english("NSU WIRE# 1"), "Not set up");
}

#[test]
fn every_sentence_starts_with_a_capital_letter() {
    for notation in ["(LO)AR", "_EG_", "AFU", "__H__IC (LO)AR", "(DL)"] {
        let sentence = to_english(notation);
        assert!(sentence.chars().next().unwrap().is_ascii_uppercase(), "{sentence}");
    }
}

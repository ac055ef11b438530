use lso::data::Aoa;
use lso::grading::{
    aoa_severity, assess_episode, assess_post_peak, classify_correction, corrected_level,
    episode_evolution, episode_reason, episode_spans, grade_from_episode_set, maximum_severity,
    persistent_mask, ApproachZone, CorrectionQuality, EpisodeEvolution, EpisodeSeverity,
    GradingAxis, GradingEpisode, PassGrade, SpotGrade,
};

use EpisodeSeverity::{Large as L, Medium as M, Small as S, Zero as Z};

fn episode(
    axis: GradingAxis,
    zone: ApproachZone,
    maximum: EpisodeSeverity,
    effective_tenths: u8,
    correction: CorrectionQuality,
) -> GradingEpisode {
    GradingEpisode {
        axis,
        most_severe_zone: zone,
        zone_weight_tenths: zone.weight_tenths(),
        maximum_severity: maximum,
        corrected_severity: maximum,
        effective_severity_tenths: effective_tenths,
        peak_index: 0,
        peak_zone: zone,
        peak_classification: "high",
        evolution: EpisodeEvolution::TowardTarget,
        returned_to_less_severe_band: false,
        oscillation_reversals: 0,
        first_durable_improvement: None,
        return_to_zero: None,
        stabilized_severity: maximum,
        stabilization_samples: 0,
        post_correction_aggravation: false,
        correction_reason: "",
        correction,
        affects_grade: true,
        diagnostic: None,
    }
}

#[test]
fn grade_labels_follow_the_lso_symbols() {
    assert_eq!(PassGrade::Perfect.label(), "_OK_");
    assert_eq!(PassGrade::Okay.label(), "OK");
    assert_eq!(PassGrade::OkParentheses.label(), "(OK)");
    assert_eq!(PassGrade::NoGrade.label(), "--");
    assert_eq!(PassGrade::Cut.label(), "C");
    assert_eq!(PassGrade::Bolter.label(), "B");
    assert_eq!(PassGrade::WaveoffUnknown.label(), "WO?");
    assert_eq!(PassGrade::Incomplete.label(), "NC");
    assert_eq!(SpotGrade::A.label(), "A");
    assert_eq!(SpotGrade::B.label(), "B");
    assert_eq!(SpotGrade::C.label(), "C");
    assert_eq!(SpotGrade::D.label(), "D");
}

#[test]
fn severity_levels_round_trip() {
    for severity in [Z, S, M, L] {
        assert_eq!(EpisodeSeverity::from_level(severity.level()), severity);
    }
    assert_eq!(EpisodeSeverity::from_level(7), L);
    assert_eq!(L.level(), 3);
}

#[test]
fn zones_weigh_more_closer_to_the_ramp() {
    assert_eq!(ApproachZone::Start.weight_tenths(), 10);
    assert_eq!(ApproachZone::Middle.weight_tenths(), 12);
    assert_eq!(ApproachZone::InClose.weight_tenths(), 15);
    assert_eq!(ApproachZone::Ramp.weight_tenths(), 20);
    assert_eq!(ApproachZone::InClose.label(), "IN CLOSE");
    assert_eq!(ApproachZone::Ramp.label(), "RAMP");
}

#[test]
fn aoa_ratings_map_to_severities() {
    assert_eq!(aoa_severity(Aoa::OnSpeed), Z);
    assert_eq!(aoa_severity(Aoa::SlightlyFast), S);
    assert_eq!(aoa_severity(Aoa::SlightlySlow), S);
    assert_eq!(aoa_severity(Aoa::Fast), M);
    assert_eq!(aoa_severity(Aoa::Slow), M);
}

#[test]
fn persistent_mask_keeps_only_long_enough_runs() {
    let elevated = [false, true, false, true, true, false, true, true, true];
    assert_eq!(
        persistent_mask(&elevated, 2),
        vec![false, false, false, true, true, false, true, true, true]
    );
    assert_eq!(
        persistent_mask(&elevated, 3),
        vec![false, false, false, false, false, false, true, true, true]
    );
    assert_eq!(persistent_mask(&elevated, 0), elevated.to_vec());
    assert!(persistent_mask(&[], 2).is_empty());
}

#[test]
fn two_clean_samples_close_an_episode() {
    assert_eq!(episode_spans(&[Z, S, S, Z, Z, S]), vec![(1, 4)]);
    assert_eq!(episode_spans(&[S, Z, S, Z, Z]), vec![(0, 4)]);
    assert_eq!(episode_spans(&[L, L]), vec![(0, 1)]);
}

#[test]
fn isolated_noise_is_not_an_episode() {
    assert!(episode_spans(&[Z, M, Z, Z, Z]).is_empty());
    assert!(episode_spans(&[M]).is_empty());
    assert!(episode_spans(&[]).is_empty());
    assert_eq!(episode_spans(&[S, S, Z, Z, M, Z, Z, M, M]), vec![(0, 3), (7, 8)]);
}

#[test]
fn maximum_severity_is_the_worst_band() {
    assert_eq!(maximum_severity(&[S, M, Z]), M);
    assert_eq!(maximum_severity(&[]), Z);
    assert_eq!(maximum_severity(&[Z, L, S]), L);
}

#[test]
fn post_peak_settling_is_read_from_the_samples() {
    let facts = assess_post_peak(&[M, S, Z, Z]);
    assert_eq!(facts.durable_improvement, Some(1));
    assert_eq!(facts.return_to_zero, Some(2));
    assert_eq!(facts.stabilized_severity, Z);
    assert_eq!(facts.stabilization_samples, 2);
    assert!(!facts.post_correction_aggravation);

    let relapse = assess_post_peak(&[M, S, S, M, M]);
    assert_eq!(relapse.durable_improvement, Some(1));
    assert_eq!(relapse.return_to_zero, None);
    assert_eq!(relapse.stabilized_severity, S);
    assert_eq!(relapse.stabilization_samples, 2);
    assert!(relapse.post_correction_aggravation);

    let none = assess_post_peak(&[M, M]);
    assert_eq!(none.durable_improvement, None);
    assert_eq!(none.stabilized_severity, M);
    assert_eq!(none.stabilization_samples, 0);
}

#[test]
fn quick_stable_correction_lowers_the_episode_one_level() {
    let graded = assess_episode(
        GradingAxis::Glideslope,
        &[S, M, S, Z, Z],
        1,
        ApproachZone::Middle,
        "high",
        0,
        false,
        &[true, true, true, true],
        true,
        None,
    );
    assert_eq!(graded.maximum_severity, M);
    assert_eq!(graded.correction, CorrectionQuality::Good);
    assert_eq!(
        graded.correction_reason,
        "post_peak_improvement_within_zone_deadline_and_stabilized"
    );
    assert_eq!(graded.corrected_severity, S);
    assert_eq!(graded.effective_severity_tenths, 12);
    assert_eq!(graded.evolution, EpisodeEvolution::TowardTarget);
    assert!(graded.returned_to_less_severe_band);
    let (grade, reason) = grade_from_episode_set(&[graded]);
    assert_eq!(grade, PassGrade::Okay);
    assert_eq!(
        reason,
        "OK: écart de pente moyen en MIDDLE, corrigé rapidement après le pic et stabilisé."
    );
}

#[test]
fn late_correction_keeps_the_peak_level() {
    let graded = assess_episode(
        GradingAxis::Glideslope,
        &[S, M, S, Z, Z],
        1,
        ApproachZone::Middle,
        "high",
        0,
        false,
        &[false, false, false, false],
        true,
        None,
    );
    assert_eq!(graded.correction, CorrectionQuality::Average);
    assert_eq!(graded.effective_severity_tenths, 24);
    let (grade, reason) = grade_from_episode_set(&[graded]);
    assert_eq!(grade, PassGrade::OkParentheses);
    assert_eq!(
        reason,
        "(OK): écart de pente moyen en MIDDLE, correction réelle après le pic, mais tardive ou incomplète."
    );
}

#[test]
fn uncorrected_ramp_episode_is_no_grade() {
    let graded = assess_episode(
        GradingAxis::Glideslope,
        &[M, M],
        0,
        ApproachZone::Ramp,
        "low",
        0,
        false,
        &[false, false],
        true,
        None,
    );
    assert_eq!(graded.correction, CorrectionQuality::Poor);
    assert_eq!(graded.correction_reason, "no_real_post_peak_improvement");
    assert_eq!(graded.evolution, EpisodeEvolution::AwayFromTarget);
    assert_eq!(graded.corrected_severity, L);
    assert_eq!(graded.effective_severity_tenths, 60);
    let (grade, reason) = grade_from_episode_set(&[graded]);
    assert_eq!(grade, PassGrade::NoGrade);
    assert_eq!(
        reason,
        "--: écart de pente moyen en RAMP, sans retour stable vers la cible après le pic."
    );
}

#[test]
fn unreliable_aoa_never_penalizes() {
    let graded = assess_episode(
        GradingAxis::Aoa,
        &[L, L, L],
        0,
        ApproachZone::Ramp,
        "slow",
        0,
        false,
        &[true, true, true],
        false,
        Some("aoa_reference_unavailable_no_grade_effect"),
    );
    assert_eq!(graded.correction, CorrectionQuality::NotAssessed);
    assert_eq!(graded.correction_reason, "aoa_reference_unreliable");
    assert_eq!(graded.effective_severity_tenths, 0);
    assert!(!graded.affects_grade);
    assert_eq!(
        grade_from_episode_set(&[graded]),
        (
            PassGrade::Okay,
            "OK: trajectoire stable, sans épisode significatif.".to_string()
        )
    );
}

#[test]
fn oscillation_is_a_poor_mixed_correction() {
    let graded = assess_episode(
        GradingAxis::Lineup,
        &[S, S, Z, Z],
        0,
        ApproachZone::Start,
        "right",
        2,
        true,
        &[true, true, true, true],
        true,
        None,
    );
    assert_eq!(graded.evolution, EpisodeEvolution::Mixed);
    assert_eq!(graded.correction, CorrectionQuality::Poor);
    assert_eq!(graded.correction_reason, "repeated_significant_inversions");
    assert_eq!(graded.effective_severity_tenths, 20);
}

#[test]
fn no_episode_is_a_stable_ok() {
    assert_eq!(
        grade_from_episode_set(&[]),
        (
            PassGrade::Okay,
            "OK: trajectoire stable, sans épisode significatif.".to_string()
        )
    );
}

#[test]
fn heaviest_episode_decides_and_a_tie_goes_to_the_later_one() {
    let lineup = episode(
        GradingAxis::Lineup,
        ApproachZone::Start,
        M,
        20,
        CorrectionQuality::Average,
    );
    let glideslope = episode(
        GradingAxis::Glideslope,
        ApproachZone::Ramp,
        M,
        20,
        CorrectionQuality::Good,
    );
    let light = episode(
        GradingAxis::Lineup,
        ApproachZone::Middle,
        S,
        12,
        CorrectionQuality::Average,
    );
    let (grade, reason) = grade_from_episode_set(&[lineup, glideslope, light]);
    assert_eq!(grade, PassGrade::OkParentheses);
    assert_eq!(
        reason,
        "(OK): écart de pente moyen en RAMP, corrigé rapidement après le pic et stabilisé."
    );

    let heavier = episode(
        GradingAxis::Lineup,
        ApproachZone::InClose,
        M,
        30,
        CorrectionQuality::Average,
    );
    let (grade, _) = grade_from_episode_set(&[heavier, glideslope]);
    assert_eq!(grade, PassGrade::NoGrade);
}

#[test]
fn effective_severity_thresholds_are_one_and_a_half_and_three() {
    let at = |tenths: u8| {
        grade_from_episode_set(&[episode(
            GradingAxis::Lineup,
            ApproachZone::Start,
            S,
            tenths,
            CorrectionQuality::Average,
        )])
        .0
    };
    assert_eq!(at(14), PassGrade::Okay);
    assert_eq!(at(15), PassGrade::OkParentheses);
    assert_eq!(at(29), PassGrade::OkParentheses);
    assert_eq!(at(30), PassGrade::NoGrade);
}

#[test]
fn aoa_reasons_say_fast_or_slow() {
    let mut fast = episode(
        GradingAxis::Aoa,
        ApproachZone::InClose,
        S,
        15,
        CorrectionQuality::Poor,
    );
    fast.peak_classification = "slightly_fast";
    assert_eq!(
        episode_reason(PassGrade::OkParentheses, &fast),
        "(OK): AoA rapide léger en IN CLOSE, sans retour stable vers la cible après le pic."
    );
    let mut slow = fast;
    slow.peak_classification = "slow";
    slow.maximum_severity = L;
    slow.correction = CorrectionQuality::NotAssessed;
    assert_eq!(
        episode_reason(PassGrade::NoGrade, &slow),
        "--: AoA lent gros en IN CLOSE, conservé à titre diagnostique."
    );
    let mut other = fast;
    other.peak_classification = "on_speed";
    other.maximum_severity = Z;
    assert_eq!(
        episode_reason(PassGrade::Okay, &other),
        "OK: AoA hors vitesse nul en IN CLOSE, sans retour stable vers la cible après le pic."
    );
}

#[test]
fn correction_rules_apply_in_order() {
    assert_eq!(
        classify_correction(true, 0, false, true, ApproachZone::Ramp, 1, true, true, 0, 2),
        (
            CorrectionQuality::Poor,
            "ramp_correction_not_stabilized_before_trajectory_end"
        )
    );
    assert_eq!(
        classify_correction(true, 0, true, true, ApproachZone::Start, 2, true, true, 0, 2),
        (CorrectionQuality::Poor, "aggravation_after_improvement")
    );
    assert_eq!(
        classify_correction(true, 0, false, true, ApproachZone::Start, 2, true, false, 2, 2),
        (
            CorrectionQuality::Average,
            "real_post_peak_improvement_late_incomplete_or_insufficiently_stabilized"
        )
    );
    assert_eq!(corrected_level(CorrectionQuality::Good, 0), 0);
    assert_eq!(corrected_level(CorrectionQuality::Poor, 3), 3);
    assert_eq!(corrected_level(CorrectionQuality::Poor, 1), 2);
    assert_eq!(corrected_level(CorrectionQuality::NotAssessed, 2), 2);
    assert_eq!(episode_evolution(1, false, false), EpisodeEvolution::AwayFromTarget);
    assert_eq!(episode_evolution(0, true, true), EpisodeEvolution::Mixed);
}

use lso::grading::{catobar_grade, pass_grade_with_reason};
use lso::outcome::Grading;

const GATES_UNAVAILABLE: &str = "Grading unavailable: required gate coverage was not captured in valid chronological brackets. A positioning/detection limitation, not a pilot failure.";

fn from_gates(grade: PassGrade, reason: &str) -> (PassGrade, String) {
    (grade, reason.to_string())
}

#[test]
fn test_bolter_outcome() {
    assert_eq!(
        pass_grade_with_reason(&Grading::Bolter, true, from_gates(PassGrade::Okay, "OK: x")),
        (
            PassGrade::Bolter,
            "B: hook touched down but didn't catch a wire; the approach itself was on track."
                .to_string()
        )
    );
}

#[test]
fn test_waveoff_outcome() {
    assert_eq!(
        pass_grade_with_reason(&Grading::WaveoffUnknown, false, from_gates(PassGrade::Okay, "")),
        (
            PassGrade::WaveoffUnknown,
            "WO?: went around; can't tell from the data who or what caused it.".to_string()
        )
    );
}

#[test]
fn touch_and_go_is_capped_below_perfect() {
    let t_and_g = Grading::TouchAndGo {
        cable_estimated: None,
    };
    assert_eq!(
        pass_grade_with_reason(&t_and_g, true, from_gates(PassGrade::Perfect, "_OK_: textbook")),
        (
            PassGrade::Okay,
            "OK: textbook approach, but capped one tier down — a touch-and-go can't receive a perfect pass.".to_string()
        )
    );
    assert_eq!(
        pass_grade_with_reason(&t_and_g, true, from_gates(PassGrade::NoGrade, "--: low")),
        (PassGrade::NoGrade, "--: low".to_string())
    );
    assert_eq!(
        pass_grade_with_reason(&t_and_g, false, from_gates(PassGrade::Okay, "OK")),
        (PassGrade::Incomplete, GATES_UNAVAILABLE.to_string())
    );
}

#[test]
fn approach_only_and_unknown_passes() {
    assert_eq!(
        pass_grade_with_reason(&Grading::ApproachOnly, true, from_gates(PassGrade::OkParentheses, "(OK): drifted")),
        (
            PassGrade::OkParentheses,
            "Approach only (outcome unknown): (OK): drifted".to_string()
        )
    );
    assert_eq!(
        pass_grade_with_reason(&Grading::Unknown, true, from_gates(PassGrade::Okay, "OK")),
        (
            PassGrade::Incomplete,
            "Grading unavailable: no recognisable approach was recorded.".to_string()
        )
    );
    let trap = Grading::Recovered {
        cable: Some(3),
        cable_estimated: Some(3),
    };
    assert_eq!(
        pass_grade_with_reason(&trap, true, from_gates(PassGrade::Cut, "C: low")),
        (PassGrade::Cut, "C: low".to_string())
    );
    assert_eq!(
        pass_grade_with_reason(&trap, false, from_gates(PassGrade::Cut, "C: low")),
        (PassGrade::Incomplete, GATES_UNAVAILABLE.to_string())
    );
}

#[test]
fn catobar_assessment_grades_by_episodes() {
    let trap = Grading::Recovered {
        cable: Some(3),
        cable_estimated: Some(3),
    };
    let heavy = episode(
        GradingAxis::Lineup,
        ApproachZone::InClose,
        M,
        30,
        CorrectionQuality::Average,
    );
    assert_eq!(
        catobar_grade(&trap, true, true, from_gates(PassGrade::Okay, "OK: clean"), &[heavy]),
        (
            PassGrade::NoGrade,
            "--: lineup moyen en IN CLOSE, correction réelle après le pic, mais tardive ou incomplète."
                .to_string()
        )
    );
    assert_eq!(
        catobar_grade(&trap, true, true, from_gates(PassGrade::Perfect, "_OK_: textbook"), &[]),
        (PassGrade::Perfect, "_OK_: textbook".to_string())
    );
    assert_eq!(
        catobar_grade(&trap, true, true, from_gates(PassGrade::Cut, "C: low"), &[heavy]),
        (PassGrade::Cut, "C: low".to_string())
    );
    assert_eq!(
        catobar_grade(&trap, true, false, from_gates(PassGrade::Okay, "OK: gates"), &[heavy]),
        (PassGrade::Okay, "OK: gates".to_string())
    );
    assert_eq!(
        catobar_grade(&Grading::Bolter, true, true, from_gates(PassGrade::Bolter, "B"), &[heavy]),
        (PassGrade::Bolter, "B".to_string())
    );
}

#[test]
fn production_catobar_path_preserves_perfect_tg_bolter_and_waveoff_outcomes() {
    // Gates and trajectory inside the perfect band with a 16 s groove: the gates alone earn `_OK_`.
    let assess = |grading: &Grading| {
        let base = pass_grade_with_reason(
            grading,
            true,
            from_gates(PassGrade::Perfect, "_OK_: textbook pass"),
        );
        catobar_grade(grading, true, true, base, &[]).0
    };
    assert_eq!(
        assess(&Grading::Recovered {
            cable: Some(3),
            cable_estimated: None,
        }),
        PassGrade::Perfect
    );
    assert_eq!(
        assess(&Grading::TouchAndGo {
            cable_estimated: None,
        }),
        PassGrade::Okay
    );
    assert_eq!(assess(&Grading::Bolter), PassGrade::Bolter);
    assert_eq!(assess(&Grading::WaveoffUnknown), PassGrade::WaveoffUnknown);
}

#[test]
fn catobar_caps_a_perfect_touch_and_go_and_prefixes_an_approach_only() {
    let t_and_g = Grading::TouchAndGo {
        cable_estimated: Some(2),
    };
    assert_eq!(
        catobar_grade(&t_and_g, true, true, from_gates(PassGrade::Perfect, "_OK_"), &[]),
        (
            PassGrade::Okay,
            "OK: trajectoire parfaite, plafonnée pour un touch-and-go.".to_string()
        )
    );
    assert_eq!(
        catobar_grade(&Grading::ApproachOnly, true, true, from_gates(PassGrade::Okay, "x"), &[]),
        (
            PassGrade::Okay,
            "Approach only (outcome unknown): OK: trajectoire stable, sans épisode significatif."
                .to_string()
        )
    );
}

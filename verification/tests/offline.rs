use lso::grading::PassGrade;
use lso::offline::{
    default_true, interpolated, normalize_strides, table_header, thinning_mask, Summary,
    VariantOutcome,
};

fn kept(mask: &[bool]) -> usize {
    mask.iter().filter(|keep| **keep).count()
}

#[test]
fn stride_one_keeps_every_sample() {
    let relevant = vec![false; 20];
    assert_eq!(kept(&thinning_mask(&relevant, 1)), relevant.len());
}

#[test]
fn stride_never_thins_the_scoring_relevant_window() {
    let mut relevant = vec![false; 10];
    relevant.extend(vec![true; 10]);
    let mask = thinning_mask(&relevant, 4);
    assert_eq!(kept(&mask), 3 + 10);
    assert!(mask[0] && mask[4] && mask[8]);
}

#[test]
fn a_scoring_relevant_stretch_does_not_shift_the_pattern_thinning_phase() {
    let mut relevant = vec![false; 4];
    relevant.extend(vec![true; 50]);
    relevant.extend(vec![false; 4]);
    let mask = thinning_mask(&relevant, 2);
    assert_eq!(kept(&mask), 2 + 50 + 2);
    assert!(mask[54] && !mask[55] && mask[56] && !mask[57]);
}

#[test]
fn strides_are_sorted_deduplicated_and_defaulted() {
    assert_eq!(normalize_strides(&[4, 1, 2, 4, 0, 8]), vec![2, 4, 8]);
    assert_eq!(normalize_strides(&[1, 0]), vec![2, 4]);
    assert_eq!(normalize_strides(&[]), vec![2, 4]);
    assert_eq!(normalize_strides(&[3]), vec![3]);
}

#[test]
fn summary_counts_changed_grades_and_lost_gates() {
    let mut summary = Summary::new();
    let baseline = VariantOutcome {
        grade: PassGrade::Okay,
        has_three_quarter_gate: true,
    };
    summary.record(
        baseline,
        &[
            (
                2,
                VariantOutcome {
                    grade: PassGrade::Okay,
                    has_three_quarter_gate: true,
                },
            ),
            (
                4,
                VariantOutcome {
                    grade: PassGrade::OkParentheses,
                    has_three_quarter_gate: false,
                },
            ),
        ],
    );
    summary.record(
        VariantOutcome {
            grade: PassGrade::NoGrade,
            has_three_quarter_gate: false,
        },
        &[(
            2,
            VariantOutcome {
                grade: PassGrade::NoGrade,
                has_three_quarter_gate: false,
            },
        )],
    );
    assert_eq!(summary.files_analyzed, 2);
    assert_eq!(summary.grade_changed, vec![(0, 4)]);
    assert_eq!(summary.gate_invalidated, vec![(0, 4)]);
}

#[test]
fn policy_table_header_lists_every_step() {
    assert_eq!(
        table_header(),
        "| report | type | outcome | DCS LSO | recorded | P0 baseline | P1 +touchdown ends correction | P2 +AoA 1 s persistence | P3 +AoA calibrated types only |\n|---|---|---|---|---|---|---|---|---|"
    );
}

#[test]
fn report_field_defaults() {
    assert!(default_true());
    assert_eq!(interpolated(), "interpolated");
}

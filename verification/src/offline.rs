//! Offline analysis of recorded reports: the cadence A/B thinning, its summary, and the header of
//! the policy comparison table.
use vstd::prelude::*;
use crate::grading::PassGrade;
use crate::text::{push_str, string_from_chars};

verus! {

/// Default of a boolean field that is `true` when absent.
pub fn default_true() -> (b: bool)
    ensures
        b,
{
    true
}

/// Default gate capture method of a recorded gate.
pub fn interpolated() -> (s: String)
    ensures
        s@ == "interpolated"@,
{
    let mut out: Vec<char> = Vec::new();
    push_str(&mut out, "interpolated");
    string_from_chars(&out)
}

/// Labels of the four cumulative grading policy steps, in column order.
pub open spec fn policy_step_labels() -> Seq<Seq<char>> {
    seq![
        "P0 baseline"@,
        "P1 +touchdown ends correction"@,
        "P2 +AoA 1 s persistence"@,
        "P3 +AoA calibrated types only"@,
    ]
}

/// The Markdown header of the policy comparison table: the fixed columns, one column per
/// policy step, then the rule line.
pub open spec fn spec_table_header() -> Seq<char> {
    let labels = policy_step_labels();
    "| report | type | outcome | DCS LSO | recorded |"@ + " "@ + labels[0] + " |"@ + " "@ + labels[1]
        + " |"@ + " "@ + labels[2] + " |"@ + " "@ + labels[3] + " |"@ + "\n"@
        + "|---|---|---|---|---|"@ + "---|"@ + "---|"@ + "---|"@ + "---|"@
}

/// The Markdown header of the policy comparison table.
pub fn table_header() -> (s: String)
    ensures
        s@ == spec_table_header(),
{
    let mut out: Vec<char> = Vec::new();
    push_str(&mut out, "| report | type | outcome | DCS LSO | recorded |");
    push_str(&mut out, " ");
    push_str(&mut out, "P0 baseline");
    push_str(&mut out, " |");
    push_str(&mut out, " ");
    push_str(&mut out, "P1 +touchdown ends correction");
    push_str(&mut out, " |");
    push_str(&mut out, " ");
    push_str(&mut out, "P2 +AoA 1 s persistence");
    push_str(&mut out, " |");
    push_str(&mut out, " ");
    push_str(&mut out, "P3 +AoA calibrated types only");
    push_str(&mut out, " |");
    push_str(&mut out, "\n");
    push_str(&mut out, "|---|---|---|---|---|");
    push_str(&mut out, "---|");
    push_str(&mut out, "---|");
    push_str(&mut out, "---|");
    push_str(&mut out, "---|");
    assert(out@ =~= spec_table_header());
    string_from_chars(&out)
}

/// Number of samples before index `i` that are outside the scoring-relevant window.
pub open spec fn pattern_count(relevant: Seq<bool>, i: int) -> nat
    decreases i,
{
    if i <= 0 {
        0
    } else {
        pattern_count(relevant, i - 1) + if relevant[i - 1] { 0nat } else { 1nat }
    }
}

/// Whether a pattern counter value selects a sample: it is a multiple of the stride (for a
/// zero stride, only zero is).
pub open spec fn selects(counter: u32, stride: u32) -> bool {
    if stride == 0 {
        counter == 0
    } else {
        counter % stride == 0
    }
}

/// Whether sample `i` survives thinning: every scoring-relevant sample does; outside the
/// window one in `stride`, counted on those samples alone (with a 32-bit counter).
pub open spec fn survives(relevant: Seq<bool>, stride: u32, i: int) -> bool {
    relevant[i] || selects((pattern_count(relevant, i) % 0x1_0000_0000) as u32, stride)
}

/// At stride 1 every sample survives: the baseline keeps the full recorded cadence.
pub proof fn lemma_stride_one_keeps_everything(relevant: Seq<bool>, i: int)
    ensures
        survives(relevant, 1, i),
{
    let counter = (pattern_count(relevant, i) % 0x1_0000_0000) as u32;
    assert(counter % 1 == 0) by (nonlinear_arith);
}

proof fn lemma_pattern_count_insert(r: Seq<bool>, k: int, j: int)
    requires
        0 <= k <= r.len(),
        0 <= j <= r.len(),
    ensures
        j <= k ==> pattern_count(r.insert(k, true), j) == pattern_count(r, j),
        j >= k ==> pattern_count(r.insert(k, true), j + 1) == pattern_count(r, j),
    decreases j,
{
    let r2 = r.insert(k, true);
    if j > 0 {
        lemma_pattern_count_insert(r, k, j - 1);
    }
    if j <= k && j > 0 {
        assert(r2[j - 1] == r[j - 1]);
        assert(pattern_count(r2, j) == pattern_count(r2, j - 1) + if r2[j - 1] { 0nat } else { 1nat });
        assert(pattern_count(r, j) == pattern_count(r, j - 1) + if r[j - 1] { 0nat } else { 1nat });
    }
    if j == k {
        assert(r2[k] == true);
        assert(pattern_count(r2, k + 1) == pattern_count(r2, k) + if r2[k] { 0nat } else { 1nat });
    }
    if j > k {
        assert(r2[j] == r[j - 1]);
        assert(pattern_count(r2, j + 1) == pattern_count(r2, j) + if r2[j] { 0nat } else { 1nat });
        assert(pattern_count(r, j) == pattern_count(r, j - 1) + if r[j - 1] { 0nat } else { 1nat });
    }
}

/// A scoring-relevant sample never shifts the phase of the thinning: inserting one anywhere
/// leaves every other sample's fate unchanged.
pub proof fn lemma_relevant_sample_keeps_phase(r: Seq<bool>, k: int, stride: u32, j: int)
    requires
        0 <= k <= r.len(),
        0 <= j < r.len(),
    ensures
        j < k ==> survives(r.insert(k, true), stride, j) == survives(r, stride, j),
        j >= k ==> survives(r.insert(k, true), stride, j + 1) == survives(r, stride, j),
{
    let r2 = r.insert(k, true);
    lemma_pattern_count_insert(r, k, j);
    if j < k {
        assert(r2[j] == r[j]);
    } else {
        assert(r2[j + 1] == r[j]);
    }
}

/// Which samples the cadence A/B keeps at `stride`, given which are scoring-relevant. A
/// scoring-relevant stretch never shifts the phase of the pattern samples kept after it.
pub fn thinning_mask(scoring_relevant: &[bool], stride: u32) -> (keep: Vec<bool>)
    ensures
        keep@.len() == scoring_relevant@.len(),
        forall|i: int| 0 <= i < keep@.len() ==> keep@[i] == survives(scoring_relevant@, stride, i),
{
    let mut keep: Vec<bool> = Vec::new();
    let mut counter: u32 = 0;
    let mut i: usize = 0;
    while i < scoring_relevant.len()
        invariant
            i <= scoring_relevant@.len(),
            keep@.len() == i,
            counter == (pattern_count(scoring_relevant@, i as int) % 0x1_0000_0000) as u32,
            forall|j: int| 0 <= j < i ==> keep@[j] == survives(scoring_relevant@, stride, j),
        decreases scoring_relevant@.len() - i,
    {
        if scoring_relevant[i] {
            keep.push(true);
        } else {
            let selected = if stride == 0 { counter == 0 } else { counter % stride == 0 };
            keep.push(selected);
            counter = counter.wrapping_add(1);
        }
        i += 1;
    }
    keep
}

/// Whether a sequence of strides is strictly increasing.
pub open spec fn strictly_increasing(s: Seq<u32>) -> bool {
    forall|i: int, j: int| 0 <= i < j < s.len() ==> s[i] < s[j]
}

/// The strides to test: those above 1, sorted, without duplicates; 2 and 4 when none is left.
pub open spec fn strides_hold(requested: Seq<u32>, r: Seq<u32>) -> bool {
    if exists|i: int| 0 <= i < requested.len() && requested[i] > 1 {
        &&& strictly_increasing(r)
        &&& forall|x: u32| r.contains(x) <==> (requested.contains(x) && x > 1)
    } else {
        r == seq![2u32, 4u32]
    }
}

/// Inserts `x` into the strictly increasing `v`, unless it is already there.
fn insert_sorted(v: &mut Vec<u32>, x: u32)
    requires
        strictly_increasing(old(v)@),
    ensures
        strictly_increasing(final(v)@),
        forall|y: u32| final(v)@.contains(y) <==> (old(v)@.contains(y) || y == x),
{
    let mut i: usize = 0;
    while i < v.len() && v[i] < x
        invariant
            v@ == old(v)@,
            i <= v@.len(),
            forall|j: int| 0 <= j < i ==> v@[j] < x,
        decreases v@.len() - i,
    {
        i += 1;
    }
    if i < v.len() && v[i] == x {
        proof {
            assert(v@[i as int] == x);
            assert(v@.contains(x));
            assert forall|y: u32| v@.contains(y) <==> (v@.contains(y) || y == x) by {
                if y == x {
                    assert(v@.contains(x));
                }
            }
        }
        return;
    }
    let ghost before = v@;
    assert(before =~= old(v)@);
    v.insert(i, x);
    assert(v@ =~= before.subrange(0, i as int).push(x) + before.subrange(i as int, before.len() as int));
    assert forall|a: int, b: int| 0 <= a < b < v@.len() implies v@[a] < v@[b] by {
        if b < i {
        } else if b == i {
        } else if a < i {
            assert(before[a] < x);
            assert(x < before[i as int]);
            assert(before[i as int] <= before[b - 1]);
        } else if a == i {
            assert(x < before[i as int]);
            assert(before[i as int] <= before[b - 1]);
        } else {
        }
    }
    assert forall|y: u32| v@.contains(y) <==> (before.contains(y) || y == x) by {
        if v@.contains(y) {
            let k = choose|k: int| 0 <= k < v@.len() && v@[k] == y;
            if k < i {
                assert(before[k] == y);
            } else if k > i {
                assert(before[k - 1] == y);
            }
        }
        if before.contains(y) {
            let k = choose|k: int| 0 <= k < before.len() && before[k] == y;
            if k < i {
                assert(v@[k] == y);
            } else {
                assert(v@[k + 1] == y);
            }
        }
        if y == x {
            assert(v@[i as int] == x);
        }
    }
    assert(forall|y: u32| v@.contains(y) <==> (old(v)@.contains(y) || y == x));
}

/// The strides the cadence A/B tests for the requested ones (see `strides_hold`).
pub fn normalize_strides(requested: &[u32]) -> (r: Vec<u32>)
    ensures
        strides_hold(requested@, r@),
{
    let mut r: Vec<u32> = Vec::new();
    let mut i: usize = 0;
    while i < requested.len()
        invariant
            i <= requested@.len(),
            strictly_increasing(r@),
            forall|x: u32| r@.contains(x) <==> (requested@.subrange(0, i as int).contains(x) && x > 1),
        decreases requested@.len() - i,
    {
        let x = requested[i];
        let ghost r0 = r@;
        if x > 1 {
            insert_sorted(&mut r, x);
        }
        assert(forall|y: u32| r@.contains(y) <==> (r0.contains(y) || (y == x && x > 1)));
        proof {
            assert forall|y: u32| requested@.subrange(0, i + 1).contains(y) <==> (requested@.subrange(
                0,
                i as int,
            ).contains(y) || y == x) by {
                let s = requested@.subrange(0, i + 1);
                let t = requested@.subrange(0, i as int);
                if s.contains(y) {
                    let k = choose|k: int| 0 <= k < s.len() && s[k] == y;
                    if k < i {
                        assert(t[k] == y);
                    }
                }
                if t.contains(y) {
                    let k = choose|k: int| 0 <= k < t.len() && t[k] == y;
                    assert(s[k] == y);
                }
                if y == x {
                    assert(s[i as int] == x);
                }
            }
            assert forall|y: u32| r@.contains(y) <==> (requested@.subrange(0, i + 1).contains(y) && y
                > 1) by {
                if r@.contains(y) {
                    assert(r0.contains(y) || (y == x && x > 1));
                }
            }
        }
        i += 1;
    }
    assert(requested@.subrange(0, requested@.len() as int) =~= requested@);
    if r.len() == 0 {
        proof {
            assert forall|k: int| 0 <= k < requested@.len() implies !(requested@[k] > 1) by {
                if requested@[k] > 1 {
                    assert(requested@.contains(requested@[k]));
                    assert(r@.contains(requested@[k]));
                }
            }
        }
        let mut d: Vec<u32> = Vec::new();
        d.push(2);
        d.push(4);
        assert(d@ =~= seq![2u32, 4u32]);
        return d;
    }
    proof {
        let x = r@[0];
        assert(r@.contains(x));
        let k = choose|k: int| 0 <= k < requested@.len() && requested@[k] == x;
        assert(requested@[k] > 1);
    }
    r
}

/// What one replay of a report produced, as the summary compares it.
#[derive(Debug, Clone, Copy)]
pub struct VariantOutcome {
    pub grade: PassGrade,
    /// Whether the 3/4 NM gate was available.
    pub has_three_quarter_gate: bool,
}

/// Totals of the cadence A/B over the analysed reports: which (report, stride) pairs changed
/// the grade, and which lost the 3/4 NM gate that the full cadence had.
#[derive(Debug, Clone)]
pub struct Summary {
    pub files_analyzed: usize,
    pub grade_changed: Vec<(usize, u32)>,
    pub gate_invalidated: Vec<(usize, u32)>,
}

/// The pairs `(index, stride)` of the variants whose grade differs from the baseline.
pub open spec fn changed_grades(index: usize, baseline: VariantOutcome, variants: Seq<(u32, VariantOutcome)>) -> Seq<(usize, u32)>
    decreases variants.len(),
{
    if variants.len() == 0 {
        Seq::empty()
    } else {
        let rest = changed_grades(index, baseline, variants.drop_last());
        let (stride, v) = variants.last();
        if v.grade != baseline.grade {
            rest.push((index, stride))
        } else {
            rest
        }
    }
}

/// The pairs `(index, stride)` of the variants that lost the 3/4 NM gate of the baseline.
pub open spec fn lost_gates(index: usize, baseline: VariantOutcome, variants: Seq<(u32, VariantOutcome)>) -> Seq<(usize, u32)>
    decreases variants.len(),
{
    if variants.len() == 0 {
        Seq::empty()
    } else {
        let rest = lost_gates(index, baseline, variants.drop_last());
        let (stride, v) = variants.last();
        if baseline.has_three_quarter_gate && !v.has_three_quarter_gate {
            rest.push((index, stride))
        } else {
            rest
        }
    }
}

impl Summary {
    /// A summary of nothing.
    pub fn new() -> (s: Summary)
        ensures
            s.files_analyzed == 0,
            s.grade_changed@ == Seq::<(usize, u32)>::empty(),
            s.gate_invalidated@ == Seq::<(usize, u32)>::empty(),
    {
        Summary { files_analyzed: 0, grade_changed: Vec::new(), gate_invalidated: Vec::new() }
    }

    /// Accounts for one analysed report: its baseline and its thinned variants, in order.
    pub fn record(&mut self, baseline: VariantOutcome, variants: &[(u32, VariantOutcome)])
        requires
            old(self).files_analyzed < usize::MAX,
        ensures
            final(self).files_analyzed == old(self).files_analyzed + 1,
            final(self).grade_changed@ == old(self).grade_changed@ + changed_grades(
                old(self).files_analyzed,
                baseline,
                variants@,
            ),
            final(self).gate_invalidated@ == old(self).gate_invalidated@ + lost_gates(
                old(self).files_analyzed,
                baseline,
                variants@,
            ),
    {
        let index = self.files_analyzed;
        self.files_analyzed += 1;
        let ghost changed0 = self.grade_changed@;
        let ghost lost0 = self.gate_invalidated@;
        let mut i: usize = 0;
        while i < variants.len()
            invariant
                i <= variants@.len(),
                self.files_analyzed == index + 1,
                self.grade_changed@ == changed0 + changed_grades(index, baseline, variants@.subrange(0, i as int)),
                self.gate_invalidated@ == lost0 + lost_gates(index, baseline, variants@.subrange(0, i as int)),
            decreases variants@.len() - i,
        {
            let (stride, v) = variants[i];
            let ghost prefix = variants@.subrange(0, i + 1);
            assert(prefix.drop_last() =~= variants@.subrange(0, i as int));
            if v.grade != baseline.grade {
                self.grade_changed.push((index, stride));
            }
            if baseline.has_three_quarter_gate && !v.has_three_quarter_gate {
                self.gate_invalidated.push((index, stride));
            }
            i += 1;
            assert(self.grade_changed@ =~= changed0 + changed_grades(index, baseline, prefix));
            assert(self.gate_invalidated@ =~= lost0 + lost_gates(index, baseline, prefix));
        }
        assert(variants@.subrange(0, variants@.len() as int) =~= variants@);
    }
}

} // verus!

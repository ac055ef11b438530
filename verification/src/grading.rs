//! CASE I CATOBAR grading: pass grades, the episode model of the continuous approach and the
//! plain-language reason attached to a grade.
//!
//! Severities, zones and correction rules are discrete; the measurements they are derived from
//! (degrees, metres, seconds) are classified by the caller, which hands this module the
//! resulting severities and the outcome of each timing comparison.
use vstd::prelude::*;
use crate::data::Aoa;
use crate::outcome::Grading;
use crate::text::{push_str, str_equals, string_from_chars};

verus! {

/// Two consecutive samples are needed before an excursion counts as an episode; one isolated
/// sample is telemetry or aim-point noise.
pub const PERSISTENCE_MIN_CONSECUTIVE_SAMPLES: usize = 2;

/// Number of consecutive samples that close an episode, or that make an improvement durable.
pub const EPISODE_STABLE_SAMPLES: usize = 2;

/// Number of direction reversals after the peak that make a correction an oscillation.
pub const OSCILLATION_MIN_REVERSALS: usize = 2;

/// The axis an episode was measured on.
#[derive(Debug, Clone, Copy, PartialEq, Eq)]
pub enum GradingAxis {
    Glideslope,
    Lineup,
    Aoa,
}

/// How far a sample is from the target, in four bands.
#[derive(Debug, Clone, Copy, PartialEq, Eq, Structural, PartialOrd, Ord)]
pub enum EpisodeSeverity {
    /// No deviation worth noting.
    Zero,
    Small,
    Medium,
    Large,
}

/// The numeric level of a severity band: 0 for `Zero` up to 3 for `Large`.
pub open spec fn severity_level(s: EpisodeSeverity) -> u8 {
    match s {
        EpisodeSeverity::Zero => 0,
        EpisodeSeverity::Small => 1,
        EpisodeSeverity::Medium => 2,
        EpisodeSeverity::Large => 3,
    }
}

/// The severity band of a level; every level from 3 up is `Large`.
pub open spec fn severity_of_level(level: u8) -> EpisodeSeverity {
    if level == 0 {
        EpisodeSeverity::Zero
    } else if level == 1 {
        EpisodeSeverity::Small
    } else if level == 2 {
        EpisodeSeverity::Medium
    } else {
        EpisodeSeverity::Large
    }
}

impl EpisodeSeverity {
    /// The numeric level of this band.
    pub fn level(self) -> (l: u8)
        ensures
            l == severity_level(self),
            l <= 3,
    {
        match self {
            EpisodeSeverity::Zero => 0,
            EpisodeSeverity::Small => 1,
            EpisodeSeverity::Medium => 2,
            EpisodeSeverity::Large => 3,
        }
    }

    /// The band of a level.
    pub fn from_level(level: u8) -> (s: EpisodeSeverity)
        ensures
            s == severity_of_level(level),
    {
        match level {
            0 => EpisodeSeverity::Zero,
            1 => EpisodeSeverity::Small,
            2 => EpisodeSeverity::Medium,
            _ => EpisodeSeverity::Large,
        }
    }
}

/// A band and its level determine each other.
pub proof fn lemma_severity_level_round_trip(s: EpisodeSeverity, level: u8)
    ensures
        severity_of_level(severity_level(s)) == s,
        level <= 3 ==> severity_level(severity_of_level(level)) == level,
{
}

/// Where on the approach a sample lies.
#[derive(Debug, Clone, Copy, PartialEq, Eq, Structural)]
pub enum ApproachZone {
    Start,
    Middle,
    InClose,
    Ramp,
}

/// The weight of a zone, in tenths: an error closer to the ramp weighs more.
pub open spec fn zone_weight_tenths(z: ApproachZone) -> u8 {
    match z {
        ApproachZone::Start => 10,
        ApproachZone::Middle => 12,
        ApproachZone::InClose => 15,
        ApproachZone::Ramp => 20,
    }
}

impl ApproachZone {
    /// The weight of this zone, in tenths (1.0, 1.2, 1.5 and 2.0).
    pub fn weight_tenths(self) -> (w: u8)
        ensures
            w == zone_weight_tenths(self),
    {
        match self {
            ApproachZone::Start => 10,
            ApproachZone::Middle => 12,
            ApproachZone::InClose => 15,
            ApproachZone::Ramp => 20,
        }
    }

    /// Display label of this zone.
    pub fn label(self) -> (s: &'static str)
        ensures
            s@ == zone_label(self),
    {
        match self {
            ApproachZone::Start => "START",
            ApproachZone::Middle => "MIDDLE",
            ApproachZone::InClose => "IN CLOSE",
            ApproachZone::Ramp => "RAMP",
        }
    }
}

/// Display label of a zone.
pub open spec fn zone_label(z: ApproachZone) -> Seq<char> {
    match z {
        ApproachZone::Start => "START"@,
        ApproachZone::Middle => "MIDDLE"@,
        ApproachZone::InClose => "IN CLOSE"@,
        ApproachZone::Ramp => "RAMP"@,
    }
}

/// How an episode evolved after its peak.
#[derive(Debug, Clone, Copy, PartialEq, Eq)]
pub enum EpisodeEvolution {
    TowardTarget,
    AwayFromTarget,
    Stagnant,
    Mixed,
}

/// How well the pilot corrected an episode.
#[derive(Debug, Clone, Copy, PartialEq, Eq, Structural)]
pub enum CorrectionQuality {
    Good,
    Average,
    Poor,
    NotAssessed,
}

/// Project pass grade, displayed with the documented LSO symbols.
#[derive(Debug, Clone, Copy, PartialEq, Eq, Structural)]
pub enum PassGrade {
    /// Perfect pass (`_OK_`).
    Perfect,
    /// Okay pass: no significant deviations (`OK`).
    Okay,
    OkParentheses,
    /// No grade: significant deviations (`--`).
    NoGrade,
    /// Cut pass: dangerously low at the ramp, or landed after being waved off.
    Cut,
    Bolter,
    WaveoffUnknown,
    /// Insufficient telemetry (`NC`); never carries points.
    Incomplete,
}

/// Display label of a grade.
pub open spec fn grade_label(g: PassGrade) -> Seq<char> {
    match g {
        PassGrade::Perfect => "_OK_"@,
        PassGrade::Okay => "OK"@,
        PassGrade::OkParentheses => "(OK)"@,
        PassGrade::NoGrade => "--"@,
        PassGrade::Cut => "C"@,
        PassGrade::Bolter => "B"@,
        PassGrade::WaveoffUnknown => "WO?"@,
        PassGrade::Incomplete => "NC"@,
    }
}

impl PassGrade {
    /// Short display label used in charts and the greenie board.
    pub fn label(self) -> (s: &'static str)
        ensures
            s@ == grade_label(self),
    {
        match self {
            PassGrade::Perfect => "_OK_",
            PassGrade::Okay => "OK",
            PassGrade::OkParentheses => "(OK)",
            PassGrade::NoGrade => "--",
            PassGrade::Cut => "C",
            PassGrade::Bolter => "B",
            PassGrade::WaveoffUnknown => "WO?",
            PassGrade::Incomplete => "NC",
        }
    }
}

/// AV-8B touchdown accuracy relative to the calibrated Tarawa spot 7.5.
#[derive(Debug, Clone, Copy, PartialEq, Eq)]
pub enum SpotGrade {
    A,
    B,
    C,
    D,
}

/// Display label of a spot grade.
pub open spec fn spot_label(g: SpotGrade) -> Seq<char> {
    match g {
        SpotGrade::A => "A"@,
        SpotGrade::B => "B"@,
        SpotGrade::C => "C"@,
        SpotGrade::D => "D"@,
    }
}

impl SpotGrade {
    /// Display label of this spot grade.
    pub fn label(self) -> (s: &'static str)
        ensures
            s@ == spot_label(self),
    {
        match self {
            SpotGrade::A => "A",
            SpotGrade::B => "B",
            SpotGrade::C => "C",
            SpotGrade::D => "D",
        }
    }
}

/// The severity band of an AoA rating: on speed is no error, slightly off is small, off is
/// medium.
pub open spec fn spec_aoa_severity(rating: Aoa) -> EpisodeSeverity {
    match rating {
        Aoa::OnSpeed => EpisodeSeverity::Zero,
        Aoa::SlightlyFast | Aoa::SlightlySlow => EpisodeSeverity::Small,
        Aoa::Fast | Aoa::Slow => EpisodeSeverity::Medium,
    }
}

/// The severity band of an AoA rating.
pub fn aoa_severity(rating: Aoa) -> (s: EpisodeSeverity)
    ensures
        s == spec_aoa_severity(rating),
{
    match rating {
        Aoa::OnSpeed => EpisodeSeverity::Zero,
        Aoa::SlightlyFast | Aoa::SlightlySlow => EpisodeSeverity::Small,
        Aoa::Fast | Aoa::Slow => EpisodeSeverity::Medium,
    }
}

// ---------------------------------------------------------------------------
// Runs of elevated samples
// ---------------------------------------------------------------------------

/// Number of consecutive `true` values immediately before index `i`.
pub open spec fn true_before(e: Seq<bool>, i: int) -> nat
    decreases i,
{
    if i <= 0 || i > e.len() || !e[i - 1] {
        0
    } else {
        1 + true_before(e, i - 1)
    }
}

/// Number of consecutive `true` values immediately after index `i`.
pub open spec fn true_after(e: Seq<bool>, i: int) -> nat
    decreases e.len() - i,
{
    if i < -1 || i + 1 >= e.len() || !e[i + 1] {
        0
    } else {
        1 + true_after(e, i + 1)
    }
}

/// Length of the run of `true` values that holds index `i` (`i` itself must be `true`).
pub open spec fn run_length(e: Seq<bool>, i: int) -> nat {
    true_before(e, i) + 1 + true_after(e, i)
}

/// Whether `persistent_mask` keeps index `i`: it is elevated and its run is long enough.
pub open spec fn kept_in_mask(e: Seq<bool>, min_run: nat, i: int) -> bool {
    e[i] && run_length(e, i) >= min_run
}

proof fn lemma_true_before_in_run(e: Seq<bool>, start: int, j: int)
    requires
        0 <= start <= j < e.len(),
        start == 0 || !e[start - 1],
        forall|k: int| start <= k < j ==> e[k],
    ensures
        true_before(e, j) == j - start,
    decreases j - start,
{
    if j > start {
        lemma_true_before_in_run(e, start, j - 1);
    }
}

proof fn lemma_true_after_in_run(e: Seq<bool>, end: int, j: int)
    requires
        0 <= j < end <= e.len(),
        end == e.len() || !e[end],
        forall|k: int| j < k < end ==> e[k],
    ensures
        true_after(e, j) == end - 1 - j,
    decreases end - j,
{
    if j + 1 < end {
        lemma_true_after_in_run(e, end, j + 1);
    }
}

/// For each run of consecutive `true` values in `elevated`, marks the whole run `true` only if
/// it is at least `min_run` samples long; shorter runs (a lone spike) come back `false`.
pub fn persistent_mask(elevated: &[bool], min_run: usize) -> (keep: Vec<bool>)
    ensures
        keep@.len() == elevated@.len(),
        forall|i: int| 0 <= i < keep@.len() ==> keep@[i] == kept_in_mask(elevated@, min_run as nat, i),
{
    let ghost e = elevated@;
    let n = elevated.len();
    let mut keep: Vec<bool> = Vec::new();
    let mut i: usize = 0;
    while i < n
        invariant
            e == elevated@,
            n == e.len(),
            i <= n,
            keep@.len() == i,
            i == 0 || i == n || !e[i - 1] || !e[i as int],
            forall|j: int| 0 <= j < i ==> keep@[j] == kept_in_mask(e, min_run as nat, j),
        decreases n - i,
    {
        if elevated[i] {
            let start = i;
            assert(start == 0 || !e[start - 1]);
            while i < n && elevated[i]
                invariant
                    e == elevated@,
                    n == e.len(),
                    start <= i <= n,
                    start == 0 || !e[start - 1],
                    forall|k: int| start <= k < i ==> e[k],
                decreases n - i,
            {
                i += 1;
            }
            let long_enough = i - start >= min_run;
            let mut j = start;
            while j < i
                invariant
                    e == elevated@,
                    n == e.len(),
                    start <= j <= i <= n,
                    start == 0 || !e[start - 1],
                    i == n || !e[i as int],
                    forall|k: int| start <= k < i ==> e[k],
                    long_enough == (i - start >= min_run),
                    keep@.len() == j,
                    forall|k: int| 0 <= k < start ==> keep@[k] == kept_in_mask(e, min_run as nat, k),
                    forall|k: int| start <= k < j ==> keep@[k] == kept_in_mask(e, min_run as nat, k),
                decreases i - j,
            {
                proof {
                    lemma_true_before_in_run(e, start as int, j as int);
                    lemma_true_after_in_run(e, i as int, j as int);
                }
                keep.push(long_enough);
                j += 1;
            }
        } else {
            assert(!kept_in_mask(e, min_run as nat, i as int));
            keep.push(false);
            i += 1;
        }
    }
    keep
}

/// A kept sample keeps the whole run around it: its elevated neighbours are kept too.
pub proof fn lemma_mask_keeps_whole_runs(e: Seq<bool>, min_run: nat, i: int)
    requires
        0 <= i,
        i + 1 < e.len(),
        e[i],
        e[i + 1],
    ensures
        kept_in_mask(e, min_run, i) == kept_in_mask(e, min_run, i + 1),
{
    assert(true_before(e, i + 1) == 1 + true_before(e, i));
    assert(true_after(e, i) == 1 + true_after(e, i + 1));
}

// ---------------------------------------------------------------------------
// Episodes of one axis
// ---------------------------------------------------------------------------

/// Whether a sample deviates at all.
pub open spec fn is_active(s: EpisodeSeverity) -> bool {
    s != EpisodeSeverity::Zero
}

/// The first index from `i` on whose sample deviates, or the length when none does.
pub open spec fn next_active(s: Seq<EpisodeSeverity>, i: int) -> int
    decreases s.len() - i,
{
    if i >= s.len() {
        s.len() as int
    } else if is_active(s[i]) {
        i
    } else {
        next_active(s, i + 1)
    }
}

/// Whether index `e` closes an episode: it and the sample before it are both clean.
pub open spec fn closes_at(s: Seq<EpisodeSeverity>, e: int) -> bool {
    !is_active(s[e - 1]) && !is_active(s[e])
}

/// The first closing index from `e` on, or the last index when the episode runs to the end.
pub open spec fn end_from(s: Seq<EpisodeSeverity>, e: int) -> int
    decreases s.len() - e,
{
    if e >= s.len() - 1 {
        s.len() - 1
    } else if closes_at(s, e) {
        e
    } else {
        end_from(s, e + 1)
    }
}

/// Last index of the episode that starts at `start`: the first index after `start` that closes
/// it, or the last sample.
pub open spec fn episode_end(s: Seq<EpisodeSeverity>, start: int) -> int {
    end_from(s, start + 1)
}

/// Number of deviating samples among `s[lo..hi]`.
pub open spec fn active_count(s: Seq<EpisodeSeverity>, lo: int, hi: int) -> nat
    decreases hi - lo,
{
    if hi <= lo {
        0
    } else {
        active_count(s, lo, hi - 1) + if is_active(s[hi - 1]) { 1nat } else { 0nat }
    }
}

/// Whether the span `s[start..=end]` is an episode rather than isolated noise.
pub open spec fn is_episode(s: Seq<EpisodeSeverity>, start: int, end: int) -> bool {
    end > start && active_count(s, start, end + 1) >= PERSISTENCE_MIN_CONSECUTIVE_SAMPLES
}

/// Where the next deviating sample from `i` lies.
pub proof fn lemma_next_active_bounds(s: Seq<EpisodeSeverity>, i: int)
    requires
        0 <= i,
    ensures
        i <= s.len() ==> i <= next_active(s, i) <= s.len(),
        i > s.len() ==> next_active(s, i) == s.len(),
        next_active(s, i) < s.len() ==> is_active(s[next_active(s, i)]),
        forall|k: int| i <= k < next_active(s, i) ==> !is_active(#[trigger] s[k]),
    decreases s.len() - i,
{
    if i < s.len() && !is_active(s[i]) {
        lemma_next_active_bounds(s, i + 1);
    }
}

/// Where the end of an episode lies.
pub proof fn lemma_end_from_bounds(s: Seq<EpisodeSeverity>, e: int)
    requires
        1 <= e,
        1 <= s.len(),
    ensures
        e <= s.len() - 1 ==> e <= end_from(s, e) <= s.len() - 1,
        e > s.len() - 1 ==> end_from(s, e) == s.len() - 1,
    decreases s.len() - e,
{
    if e < s.len() - 1 && !closes_at(s, e) {
        lemma_end_from_bounds(s, e + 1);
    }
}

/// The spans `(start, end)` of the episodes of `s` from index `i` on, in order.
pub open spec fn episodes_from(s: Seq<EpisodeSeverity>, i: int) -> Seq<(int, int)>
    decreases s.len() - i,
{
    if i < 0 || i >= s.len() {
        Seq::empty()
    } else {
        let st = next_active(s, i);
        if st >= s.len() {
            Seq::empty()
        } else {
            let e = episode_end(s, st);
            proof {
                lemma_next_active_bounds(s, i);
                lemma_end_from_bounds(s, st + 1);
            }
            let rest = episodes_from(s, e + 1);
            if is_episode(s, st, e) {
                seq![(st, e)] + rest
            } else {
                rest
            }
        }
    }
}

/// Every episode found from index `i` on is a real episode (at least two deviating samples,
/// starting on a deviating one), lies within the samples, and the episodes come in order
/// without overlapping.
pub proof fn lemma_episodes_are_persistent(s: Seq<EpisodeSeverity>, i: int)
    requires
        0 <= i,
    ensures
        forall|k: int| 0 <= k < episodes_from(s, i).len() ==> {
            let (a, b) = #[trigger] episodes_from(s, i)[k];
            &&& i <= a < b < s.len()
            &&& is_active(s[a])
            &&& is_episode(s, a, b)
        },
        forall|k1: int, k2: int| 0 <= k1 < k2 < episodes_from(s, i).len() ==> (
        #[trigger] episodes_from(s, i)[k1]).1 < (#[trigger] episodes_from(s, i)[k2]).0,
    decreases s.len() - i,
{
    if i < s.len() {
        let st = next_active(s, i);
        lemma_next_active_bounds(s, i);
        if st < s.len() {
            let e = episode_end(s, st);
            lemma_end_from_bounds(s, st + 1);
            lemma_episodes_are_persistent(s, e + 1);
            let rest = episodes_from(s, e + 1);
            if is_episode(s, st, e) {
                let all = seq![(st, e)] + rest;
                assert(episodes_from(s, i) == all);
                assert forall|k: int| 0 <= k < all.len() implies {
                    let (a, b) = #[trigger] all[k];
                    &&& i <= a < b < s.len()
                    &&& is_active(s[a])
                    &&& is_episode(s, a, b)
                } by {
                    if k > 0 {
                        assert(all[k] == rest[k - 1]);
                    }
                }
                assert forall|k1: int, k2: int| 0 <= k1 < k2 < all.len() implies (
                #[trigger] all[k1]).1 < (#[trigger] all[k2]).0 by {
                    assert(all[k2] == rest[k2 - 1]);
                    if k1 > 0 {
                        assert(all[k1] == rest[k1 - 1]);
                    }
                }
            }
        }
    }
}

/// A list of index pairs seen as integers.
pub open spec fn spans_view(v: Seq<(usize, usize)>) -> Seq<(int, int)> {
    v.map_values(|p: (usize, usize)| (p.0 as int, p.1 as int))
}

/// Splits one axis into episodes. An episode starts at a deviating sample and runs until two
/// consecutive clean samples (`EPISODE_STABLE_SAMPLES`) close it, or until the last sample. A
/// span with fewer than `PERSISTENCE_MIN_CONSECUTIVE_SAMPLES` deviating samples is noise and is
/// dropped; the next search starts right after the span.
pub fn episode_spans(severities: &[EpisodeSeverity]) -> (spans: Vec<(usize, usize)>)
    ensures
        spans_view(spans@) == episodes_from(severities@, 0),
{
    let ghost s = severities@;
    let n = severities.len();
    let mut spans: Vec<(usize, usize)> = Vec::new();
    let mut start: usize = 0;
    while start < n
        invariant
            s == severities@,
            n == s.len(),
            start <= n,
            spans_view(spans@) + episodes_from(s, start as int) == episodes_from(s, 0),
        decreases n - start,
    {
        let ghost i0 = start as int;
        proof {
            lemma_next_active_bounds(s, i0);
        }
        while start < n && matches!(severities[start], EpisodeSeverity::Zero)
            invariant
                s == severities@,
                n == s.len(),
                i0 <= start <= n,
                next_active(s, i0) == next_active(s, start as int),
            decreases n - start,
        {
            start += 1;
        }
        if start == n {
            assert(episodes_from(s, i0) =~= Seq::<(int, int)>::empty());
            assert(episodes_from(s, start as int) =~= Seq::<(int, int)>::empty());
        } else {
            let mut end = start;
            while end + 1 < n
                invariant_except_break
                    s == severities@,
                    n == s.len(),
                    start <= end < n,
                    end_from(s, end + 1) == episode_end(s, start as int),
                ensures
                    start <= end < n,
                    end == episode_end(s, start as int),
                decreases n - end,
            {
                end += 1;
                if matches!(severities[end], EpisodeSeverity::Zero)
                    && matches!(severities[end - 1], EpisodeSeverity::Zero) {
                    break;
                }
            }
            let mut count: usize = 0;
            let mut j = start;
            while j <= end
                invariant
                    s == severities@,
                    n == s.len(),
                    start <= j <= end + 1,
                    end < n,
                    count <= j - start,
                    count == active_count(s, start as int, j as int),
                decreases end + 1 - j,
            {
                if !matches!(severities[j], EpisodeSeverity::Zero) {
                    count += 1;
                }
                j += 1;
            }
            let ghost before = spans@;
            if end > start && count >= PERSISTENCE_MIN_CONSECUTIVE_SAMPLES {
                spans.push((start, end));
                assert(spans_view(spans@) =~= spans_view(before) + seq![(start as int, end as int)]);
                assert(spans_view(before) + episodes_from(s, i0) =~= spans_view(spans@)
                    + episodes_from(s, end + 1));
            } else {
                assert(spans_view(before) + episodes_from(s, i0) =~= spans_view(spans@)
                    + episodes_from(s, end + 1));
            }
            start = end + 1;
        }
    }
    assert(episodes_from(s, n as int) =~= Seq::<(int, int)>::empty());
    assert(spans_view(spans@) + Seq::<(int, int)>::empty() =~= spans_view(spans@));
    spans
}

// ---------------------------------------------------------------------------
// What happens after the peak of an episode
// ---------------------------------------------------------------------------

/// Highest severity level among `s[0..hi]`.
pub open spec fn max_level_upto(s: Seq<EpisodeSeverity>, hi: int) -> u8
    decreases hi,
{
    if hi <= 0 {
        0
    } else {
        let rest = max_level_upto(s, hi - 1);
        let here = severity_level(s[hi - 1]);
        if here > rest {
            here
        } else {
            rest
        }
    }
}

/// The most severe band of a list of samples (`Zero` for no samples).
pub fn maximum_severity(severities: &[EpisodeSeverity]) -> (m: EpisodeSeverity)
    ensures
        severity_level(m) == max_level_upto(severities@, severities@.len() as int),
        m == severity_of_level(max_level_upto(severities@, severities@.len() as int)),
{
    let mut best: u8 = 0;
    let mut i: usize = 0;
    while i < severities.len()
        invariant
            i <= severities@.len(),
            best == max_level_upto(severities@, i as int),
            best <= 3,
        decreases severities@.len() - i,
    {
        let here = severities[i].level();
        if here > best {
            best = here;
        }
        i += 1;
    }
    EpisodeSeverity::from_level(best)
}

/// Whether samples `k` and `k + 1` after the peak are both below the peak level.
pub open spec fn improves_at(p: Seq<EpisodeSeverity>, peak_level: u8, k: int) -> bool {
    k + 1 < p.len() && severity_level(p[k]) < peak_level && severity_level(p[k + 1]) < peak_level
}

/// Whether samples `k` and `k + 1` after the peak are both clean.
pub open spec fn settles_at(p: Seq<EpisodeSeverity>, k: int) -> bool {
    k + 1 < p.len() && !is_active(p[k]) && !is_active(p[k + 1])
}

/// First index from `k` on where the improvement after the peak becomes durable.
pub open spec fn first_improvement_from(p: Seq<EpisodeSeverity>, peak_level: u8, k: int) -> Option<int>
    decreases p.len() - k,
{
    if k + 1 >= p.len() {
        None
    } else if improves_at(p, peak_level, k) {
        Some(k)
    } else {
        first_improvement_from(p, peak_level, k + 1)
    }
}

/// First index from `k` on where the samples return durably to the clean band.
pub open spec fn first_settle_from(p: Seq<EpisodeSeverity>, k: int) -> Option<int>
    decreases p.len() - k,
{
    if k + 1 >= p.len() {
        None
    } else if settles_at(p, k) {
        Some(k)
    } else {
        first_settle_from(p, k + 1)
    }
}

/// Number of consecutive samples from `k` on that hold the severity `v`.
pub open spec fn same_from(p: Seq<EpisodeSeverity>, v: EpisodeSeverity, k: int) -> nat
    decreases p.len() - k,
{
    if k < 0 || k >= p.len() || p[k] != v {
        0
    } else {
        1 + same_from(p, v, k + 1)
    }
}

/// Whether some sample from `k` on is more severe than level `level`.
pub open spec fn worsens_from(p: Seq<EpisodeSeverity>, level: u8, k: int) -> bool {
    exists|j: int| k <= j < p.len() && severity_level(#[trigger] p[j]) > level
}

/// An optional index seen as an integer.
pub open spec fn opt_index(o: Option<usize>) -> Option<int> {
    match o {
        Some(k) => Some(k as int),
        None => None,
    }
}

/// What the samples from the peak on (the peak first) show of the pilot's correction.
#[derive(Debug, Clone, Copy)]
pub struct PostPeak {
    /// Index (from the peak) where two consecutive samples are first below the peak level.
    pub durable_improvement: Option<usize>,
    /// Index (from the peak) where two consecutive samples are first clean.
    pub return_to_zero: Option<usize>,
    /// Band the samples settled in.
    pub stabilized_severity: EpisodeSeverity,
    /// Number of consecutive samples that stayed in that band.
    pub stabilization_samples: usize,
    /// Whether the samples got worse again after settling.
    pub post_correction_aggravation: bool,
}

/// Where the correction after the peak settles: the return to the clean band when there is
/// one, else the durable improvement.
pub open spec fn stabilization_start(p: Seq<EpisodeSeverity>) -> Option<int> {
    match first_settle_from(p, 1) {
        Some(k) => Some(k),
        None => first_improvement_from(p, severity_level(p[0]), 1),
    }
}

/// The post-peak facts of the samples `p`, `p[0]` being the peak.
pub open spec fn post_peak_holds(p: Seq<EpisodeSeverity>, r: PostPeak) -> bool {
    &&& opt_index(r.durable_improvement) == first_improvement_from(p, severity_level(p[0]), 1)
    &&& opt_index(r.return_to_zero) == first_settle_from(p, 1)
    &&& match stabilization_start(p) {
        Some(k) => {
            &&& r.stabilized_severity == p[k]
            &&& r.stabilization_samples == same_from(p, p[k], k)
            &&& r.post_correction_aggravation == worsens_from(
                p,
                severity_level(p[k]),
                k + same_from(p, p[k], k),
            )
        },
        None => {
            &&& r.stabilized_severity == p[p.len() - 1]
            &&& r.stabilization_samples == 0
            &&& !r.post_correction_aggravation
        },
    }
}

proof fn lemma_first_improvement_scan(p: Seq<EpisodeSeverity>, peak_level: u8, k: int, j: int)
    requires
        1 <= k <= j,
        forall|i: int| k <= i < j ==> !improves_at(p, peak_level, i),
    ensures
        first_improvement_from(p, peak_level, k) == first_improvement_from(p, peak_level, j),
    decreases j - k,
{
    if k < j {
        lemma_first_improvement_scan(p, peak_level, k + 1, j);
    }
}

proof fn lemma_first_settle_scan(p: Seq<EpisodeSeverity>, k: int, j: int)
    requires
        1 <= k <= j,
        forall|i: int| k <= i < j ==> !settles_at(p, i),
    ensures
        first_settle_from(p, k) == first_settle_from(p, j),
    decreases j - k,
{
    if k < j {
        lemma_first_settle_scan(p, k + 1, j);
    }
}

proof fn lemma_same_from_scan(p: Seq<EpisodeSeverity>, v: EpisodeSeverity, k: int, j: int)
    requires
        0 <= k <= j <= p.len(),
        forall|i: int| k <= i < j ==> p[i] == v,
    ensures
        same_from(p, v, k) == (j - k) + same_from(p, v, j),
    decreases j - k,
{
    if k < j {
        lemma_same_from_scan(p, v, k + 1, j);
    }
}

/// First index from 1 on where `improves_at` holds, by a scan.
fn scan_improvement(p: &[EpisodeSeverity], peak_level: u8) -> (r: Option<usize>)
    ensures
        opt_index(r) == first_improvement_from(p@, peak_level, 1),
        r matches Some(k) ==> k + 1 < p@.len(),
{
    let mut k: usize = 1;
    while k < p.len() && k + 1 < p.len()
        invariant
            1 <= k <= p@.len() + 1,
            forall|i: int| 1 <= i < k ==> !improves_at(p@, peak_level, i),
        decreases p@.len() - k,
    {
        if p[k].level() < peak_level && p[k + 1].level() < peak_level {
            proof {
                lemma_first_improvement_scan(p@, peak_level, 1, k as int);
            }
            return Some(k);
        }
        k += 1;
    }
    proof {
        lemma_first_improvement_scan(p@, peak_level, 1, k as int);
    }
    None
}

/// First index from 1 on where `settles_at` holds, by a scan.
fn scan_settle(p: &[EpisodeSeverity]) -> (r: Option<usize>)
    ensures
        opt_index(r) == first_settle_from(p@, 1),
        r matches Some(k) ==> k + 1 < p@.len(),
{
    let mut k: usize = 1;
    while k < p.len() && k + 1 < p.len()
        invariant
            1 <= k <= p@.len() + 1,
            forall|i: int| 1 <= i < k ==> !settles_at(p@, i),
        decreases p@.len() - k,
    {
        if matches!(p[k], EpisodeSeverity::Zero) && matches!(p[k + 1], EpisodeSeverity::Zero) {
            proof {
                lemma_first_settle_scan(p@, 1, k as int);
            }
            return Some(k);
        }
        k += 1;
    }
    proof {
        lemma_first_settle_scan(p@, 1, k as int);
    }
    None
}

/// Reads the correction after the peak from the samples `post_peak`, the peak first: when the
/// improvement became durable, when the samples came back to the clean band, the band they
/// settled in, for how long, and whether they got worse again afterwards.
pub fn assess_post_peak(post_peak: &[EpisodeSeverity]) -> (r: PostPeak)
    requires
        post_peak@.len() >= 1,
    ensures
        post_peak_holds(post_peak@, r),
{
    let ghost p = post_peak@;
    let n = post_peak.len();
    let peak_level = post_peak[0].level();
    let durable = scan_improvement(post_peak, peak_level);
    let settled = scan_settle(post_peak);
    let start = match settled {
        Some(k) => Some(k),
        None => durable,
    };
    match start {
        None => PostPeak {
            durable_improvement: durable,
            return_to_zero: settled,
            stabilized_severity: post_peak[n - 1],
            stabilization_samples: 0,
            post_correction_aggravation: false,
        },
        Some(k) => {
            assert(k < n);
            let severity = post_peak[k];
            let mut j = k;
            while j < n && post_peak[j] == severity
                invariant
                    k <= j <= n,
                    n == p.len(),
                    p == post_peak@,
                    forall|i: int| k <= i < j ==> p[i] == severity,
                decreases n - j,
            {
                j += 1;
            }
            proof {
                lemma_same_from_scan(p, severity, k as int, j as int);
                assert(same_from(p, severity, j as int) == 0);
            }
            let samples = j - k;
            let level = severity.level();
            let mut worse = false;
            let mut i = j;
            while i < n
                invariant
                    j <= i <= n,
                    n == p.len(),
                    p == post_peak@,
                    level == severity_level(severity),
                    worse == exists|m: int| j <= m < i && severity_level(#[trigger] p[m]) > level,
                decreases n - i,
            {
                if post_peak[i].level() > level {
                    worse = true;
                }
                i += 1;
            }
            PostPeak {
                durable_improvement: durable,
                return_to_zero: settled,
                stabilized_severity: severity,
                stabilization_samples: samples,
                post_correction_aggravation: worse,
            }
        },
    }
}

// ---------------------------------------------------------------------------
// Correction quality and the weight of an episode
// ---------------------------------------------------------------------------

/// How an episode evolved: oscillation or a relapse makes it mixed, no improvement leaves it
/// going away from the target, any improvement brings it toward the target.
pub open spec fn spec_evolution(reversals: usize, aggravation: bool, improved: bool) -> EpisodeEvolution {
    if reversals >= OSCILLATION_MIN_REVERSALS || aggravation {
        EpisodeEvolution::Mixed
    } else if !improved {
        EpisodeEvolution::AwayFromTarget
    } else {
        EpisodeEvolution::TowardTarget
    }
}

/// How an episode evolved after its peak.
pub fn episode_evolution(reversals: usize, aggravation: bool, improved: bool) -> (e: EpisodeEvolution)
    ensures
        e == spec_evolution(reversals, aggravation, improved),
{
    if reversals >= OSCILLATION_MIN_REVERSALS || aggravation {
        EpisodeEvolution::Mixed
    } else if !improved {
        EpisodeEvolution::AwayFromTarget
    } else {
        EpisodeEvolution::TowardTarget
    }
}

/// The correction quality of an episode and the reason for it, rule by rule: an axis whose
/// reference is unreliable is not assessed; repeated reversals, a relapse after improving or no
/// real improvement are poor; at the ramp a correction that did not settle before the end is
/// poor; an improvement within the zone's deadline that settled below the peak is good; any
/// other real improvement is average.
pub open spec fn spec_correction(
    affects_grade: bool,
    reversals: usize,
    aggravation: bool,
    improved: bool,
    peak_zone: ApproachZone,
    stabilization_samples: usize,
    improved_in_time: bool,
    returned_to_zero: bool,
    stabilized_level: u8,
    peak_level: u8,
) -> (CorrectionQuality, Seq<char>) {
    if !affects_grade {
        (CorrectionQuality::NotAssessed, "aoa_reference_unreliable"@)
    } else if reversals >= OSCILLATION_MIN_REVERSALS {
        (CorrectionQuality::Poor, "repeated_significant_inversions"@)
    } else if aggravation {
        (CorrectionQuality::Poor, "aggravation_after_improvement"@)
    } else if !improved {
        (CorrectionQuality::Poor, "no_real_post_peak_improvement"@)
    } else if peak_zone == ApproachZone::Ramp && stabilization_samples < EPISODE_STABLE_SAMPLES {
        (CorrectionQuality::Poor, "ramp_correction_not_stabilized_before_trajectory_end"@)
    } else if improved_in_time && stabilization_samples >= EPISODE_STABLE_SAMPLES && (
    returned_to_zero || stabilized_level < peak_level) {
        (CorrectionQuality::Good, "post_peak_improvement_within_zone_deadline_and_stabilized"@)
    } else {
        (
            CorrectionQuality::Average,
            "real_post_peak_improvement_late_incomplete_or_insufficiently_stabilized"@,
        )
    }
}

/// The correction quality of an episode, with the reason for it.
pub fn classify_correction(
    affects_grade: bool,
    reversals: usize,
    aggravation: bool,
    improved: bool,
    peak_zone: ApproachZone,
    stabilization_samples: usize,
    improved_in_time: bool,
    returned_to_zero: bool,
    stabilized_level: u8,
    peak_level: u8,
) -> (r: (CorrectionQuality, &'static str))
    ensures
        (r.0, r.1@) == spec_correction(
            affects_grade,
            reversals,
            aggravation,
            improved,
            peak_zone,
            stabilization_samples,
            improved_in_time,
            returned_to_zero,
            stabilized_level,
            peak_level,
        ),
{
    if !affects_grade {
        (CorrectionQuality::NotAssessed, "aoa_reference_unreliable")
    } else if reversals >= OSCILLATION_MIN_REVERSALS {
        (CorrectionQuality::Poor, "repeated_significant_inversions")
    } else if aggravation {
        (CorrectionQuality::Poor, "aggravation_after_improvement")
    } else if !improved {
        (CorrectionQuality::Poor, "no_real_post_peak_improvement")
    } else if peak_zone == ApproachZone::Ramp && stabilization_samples < EPISODE_STABLE_SAMPLES {
        (CorrectionQuality::Poor, "ramp_correction_not_stabilized_before_trajectory_end")
    } else if improved_in_time && stabilization_samples >= EPISODE_STABLE_SAMPLES && (
    returned_to_zero || stabilized_level < peak_level) {
        (CorrectionQuality::Good, "post_peak_improvement_within_zone_deadline_and_stabilized")
    } else {
        (
            CorrectionQuality::Average,
            "real_post_peak_improvement_late_incomplete_or_insufficiently_stabilized",
        )
    }
}

/// The level after correction: a good correction lowers the peak level by one (not below 0), a
/// poor one raises it by one (not above 3), otherwise it stays.
pub open spec fn spec_corrected_level(correction: CorrectionQuality, peak_level: u8) -> u8 {
    match correction {
        CorrectionQuality::Good => if peak_level == 0 { 0 } else { (peak_level - 1) as u8 },
        CorrectionQuality::Average | CorrectionQuality::NotAssessed => peak_level,
        CorrectionQuality::Poor => if peak_level >= 3 { 3 } else { (peak_level + 1) as u8 },
    }
}

/// The level of an episode after its correction is taken into account.
pub fn corrected_level(correction: CorrectionQuality, peak_level: u8) -> (l: u8)
    ensures
        l == spec_corrected_level(correction, peak_level),
{
    match correction {
        CorrectionQuality::Good => peak_level.saturating_sub(1),
        CorrectionQuality::Average | CorrectionQuality::NotAssessed => peak_level,
        CorrectionQuality::Poor => if peak_level >= 3 { 3 } else { peak_level + 1 },
    }
}

/// A correction never moves the level by more than one band, and stays within the bands.
pub proof fn lemma_correction_moves_one_level(correction: CorrectionQuality, peak_level: u8)
    requires
        peak_level <= 3,
    ensures
        spec_corrected_level(correction, peak_level) <= 3,
        spec_corrected_level(correction, peak_level) <= peak_level + 1,
        spec_corrected_level(correction, peak_level) + 1 >= peak_level,
        correction == CorrectionQuality::Good ==> spec_corrected_level(correction, peak_level) <= peak_level,
        correction == CorrectionQuality::Poor ==> spec_corrected_level(correction, peak_level) >= peak_level,
{
}

/// One graded episode of one axis. Positions in time are indices: `peak_index` into the
/// episode's samples, the improvement and return indices into the samples from the peak on.
#[derive(Debug, Clone, Copy)]
pub struct GradingEpisode {
    pub axis: GradingAxis,
    pub most_severe_zone: ApproachZone,
    /// Weight of the peak's zone, in tenths.
    pub zone_weight_tenths: u8,
    pub maximum_severity: EpisodeSeverity,
    pub corrected_severity: EpisodeSeverity,
    /// Corrected level times the zone weight, in tenths (0 when the episode does not affect
    /// the grade).
    pub effective_severity_tenths: u8,
    pub peak_index: usize,
    pub peak_zone: ApproachZone,
    pub peak_classification: &'static str,
    pub evolution: EpisodeEvolution,
    pub returned_to_less_severe_band: bool,
    pub oscillation_reversals: usize,
    pub first_durable_improvement: Option<usize>,
    pub return_to_zero: Option<usize>,
    pub stabilized_severity: EpisodeSeverity,
    pub stabilization_samples: usize,
    pub post_correction_aggravation: bool,
    pub correction_reason: &'static str,
    pub correction: CorrectionQuality,
    pub affects_grade: bool,
    pub diagnostic: Option<&'static str>,
}

/// The post-peak facts recorded in an episode.
pub open spec fn recorded_post_peak(g: GradingEpisode) -> PostPeak {
    PostPeak {
        durable_improvement: g.first_durable_improvement,
        return_to_zero: g.return_to_zero,
        stabilized_severity: g.stabilized_severity,
        stabilization_samples: g.stabilization_samples,
        post_correction_aggravation: g.post_correction_aggravation,
    }
}

/// Whether the durable improvement of an episode came within its zone's deadline.
pub open spec fn improved_in_time(g: GradingEpisode, within_deadline: Seq<bool>) -> bool {
    match g.first_durable_improvement {
        Some(k) => within_deadline[k as int],
        None => false,
    }
}

/// An episode that does not affect the grade (its reference is unreliable) is never assessed,
/// whatever followed its peak; `assess_episode` then gives it no weight, and keeps its peak,
/// maximum severity, zone and diagnostic as they are.
pub proof fn lemma_non_grading_episode_not_assessed(
    reversals: usize,
    aggravation: bool,
    improved: bool,
    peak_zone: ApproachZone,
    stabilization_samples: usize,
    improved_in_time: bool,
    returned_to_zero: bool,
    stabilized_level: u8,
    peak_level: u8,
)
    ensures
        spec_correction(
            false,
            reversals,
            aggravation,
            improved,
            peak_zone,
            stabilization_samples,
            improved_in_time,
            returned_to_zero,
            stabilized_level,
            peak_level,
        ).0 == CorrectionQuality::NotAssessed,
{
}

/// Grades one episode. `episode` holds the severities of its samples and `peak_index` its
/// peak, a sample of the highest severity; `peak_zone` is the zone of the peak;
/// `reversals` counts the direction reversals after the peak; `improving_by_trend` tells
/// whether the error was shrinking fast enough at the end; `within_deadline[k]` tells whether
/// the sample `k` after the peak came within the zone's deadline for a good correction.
pub fn assess_episode(
    axis: GradingAxis,
    episode: &[EpisodeSeverity],
    peak_index: usize,
    peak_zone: ApproachZone,
    peak_classification: &'static str,
    reversals: usize,
    improving_by_trend: bool,
    within_deadline: &[bool],
    affects_grade: bool,
    diagnostic: Option<&'static str>,
) -> (g: GradingEpisode)
    requires
        peak_index < episode@.len(),
        severity_level(episode@[peak_index as int]) == max_level_upto(episode@, episode@.len() as int),
        within_deadline@.len() == episode@.len() - peak_index,
    ensures
        g.axis == axis,
        g.most_severe_zone == peak_zone,
        g.peak_zone == peak_zone,
        g.zone_weight_tenths == zone_weight_tenths(peak_zone),
        g.maximum_severity == episode@[peak_index as int],
        g.peak_index == peak_index,
        g.peak_classification == peak_classification,
        g.oscillation_reversals == reversals,
        g.affects_grade == affects_grade,
        g.diagnostic == diagnostic,
        post_peak_holds(episode@.subrange(peak_index as int, episode@.len() as int), recorded_post_peak(g)),
        g.returned_to_less_severe_band == g.first_durable_improvement is Some,
        g.evolution == spec_evolution(
            reversals,
            g.post_correction_aggravation,
            g.first_durable_improvement is Some || improving_by_trend,
        ),
        (g.correction, g.correction_reason@) == spec_correction(
            affects_grade,
            reversals,
            g.post_correction_aggravation,
            g.first_durable_improvement is Some || improving_by_trend,
            peak_zone,
            g.stabilization_samples,
            improved_in_time(g, within_deadline@),
            g.return_to_zero is Some,
            severity_level(g.stabilized_severity),
            severity_level(episode@[peak_index as int]),
        ),
        g.corrected_severity == severity_of_level(
            spec_corrected_level(g.correction, severity_level(episode@[peak_index as int])),
        ),
        g.effective_severity_tenths == if affects_grade {
            spec_corrected_level(g.correction, severity_level(episode@[peak_index as int]))
                * zone_weight_tenths(peak_zone)
        } else {
            0
        },
{
    let mut post_peak: Vec<EpisodeSeverity> = Vec::new();
    let mut i = peak_index;
    while i < episode.len()
        invariant
            peak_index <= i <= episode@.len(),
            post_peak@ == episode@.subrange(peak_index as int, i as int),
        decreases episode@.len() - i,
    {
        post_peak.push(episode[i]);
        i += 1;
        assert(post_peak@ =~= episode@.subrange(peak_index as int, i as int));
    }
    let peak = episode[peak_index];
    let peak_level = peak.level();
    let facts = assess_post_peak(post_peak.as_slice());
    let improved = facts.durable_improvement.is_some() || improving_by_trend;
    let evolution = episode_evolution(reversals, facts.post_correction_aggravation, improved);
    let in_time = match facts.durable_improvement {
        Some(k) => {
            proof {
                assert(first_improvement_from(post_peak@, peak_level, 1) == Some(k as int));
                lemma_first_improvement_below(post_peak@, peak_level, 1);
            }
            within_deadline[k]
        },
        None => false,
    };
    let (correction, reason) = classify_correction(
        affects_grade,
        reversals,
        facts.post_correction_aggravation,
        improved,
        peak_zone,
        facts.stabilization_samples,
        in_time,
        facts.return_to_zero.is_some(),
        facts.stabilized_severity.level(),
        peak_level,
    );
    let level = corrected_level(correction, peak_level);
    let weight = peak_zone.weight_tenths();
    proof {
        lemma_correction_moves_one_level(correction, peak_level);
        assert(level * weight <= 60) by (nonlinear_arith)
            requires
                level <= 3,
                weight <= 20,
        ;
    }
    let effective = if affects_grade { level * weight } else { 0 };
    GradingEpisode {
        axis,
        most_severe_zone: peak_zone,
        zone_weight_tenths: weight,
        maximum_severity: peak,
        corrected_severity: EpisodeSeverity::from_level(level),
        effective_severity_tenths: effective,
        peak_index,
        peak_zone,
        peak_classification,
        evolution,
        returned_to_less_severe_band: facts.durable_improvement.is_some(),
        oscillation_reversals: reversals,
        first_durable_improvement: facts.durable_improvement,
        return_to_zero: facts.return_to_zero,
        stabilized_severity: facts.stabilized_severity,
        stabilization_samples: facts.stabilization_samples,
        post_correction_aggravation: facts.post_correction_aggravation,
        correction_reason: reason,
        correction,
        affects_grade,
        diagnostic,
    }
}

/// A durable improvement lies inside the samples.
pub proof fn lemma_first_improvement_below(p: Seq<EpisodeSeverity>, peak_level: u8, k: int)
    ensures
        first_improvement_from(p, peak_level, k) matches Some(j) ==> k <= j && j + 1 < p.len(),
    decreases p.len() - k,
{
    if k + 1 < p.len() && !improves_at(p, peak_level, k) {
        lemma_first_improvement_below(p, peak_level, k + 1);
    }
}

// ---------------------------------------------------------------------------
// The grade of a set of episodes
// ---------------------------------------------------------------------------

/// Whether episode `a` weighs no more than episode `b`: by effective severity, then by peak
/// severity.
pub open spec fn weighs_no_more(a: GradingEpisode, b: GradingEpisode) -> bool {
    a.effective_severity_tenths < b.effective_severity_tenths || (a.effective_severity_tenths
        == b.effective_severity_tenths && severity_level(a.maximum_severity) <= severity_level(
        b.maximum_severity,
    ))
}

/// The episode among `s[0..n]` that decides the grade: the heaviest of those that affect the
/// grade, the later one on a tie.
pub open spec fn worst_upto(s: Seq<GradingEpisode>, n: int) -> Option<int>
    decreases n,
{
    if n <= 0 {
        None
    } else {
        let before = worst_upto(s, n - 1);
        if !s[n - 1].affects_grade {
            before
        } else {
            match before {
                None => Some(n - 1),
                Some(j) => if weighs_no_more(s[j], s[n - 1]) {
                    Some(n - 1)
                } else {
                    Some(j)
                },
            }
        }
    }
}

/// The grade an effective severity earns: below 1.5 is OK, below 3.0 is (OK), the rest is no
/// grade.
pub open spec fn grade_for_tenths(tenths: u8) -> PassGrade {
    if tenths < 15 {
        PassGrade::Okay
    } else if tenths < 30 {
        PassGrade::OkParentheses
    } else {
        PassGrade::NoGrade
    }
}

/// The reason given when no episode affects the grade.
pub open spec fn stable_reason() -> Seq<char> {
    "OK: trajectoire stable, sans épisode significatif."@
}

/// Name of the axis of an episode in a reason; an AoA episode says whether it was fast or slow.
pub open spec fn axis_text(e: GradingEpisode) -> Seq<char> {
    match e.axis {
        GradingAxis::Glideslope => "écart de pente"@,
        GradingAxis::Lineup => "lineup"@,
        GradingAxis::Aoa => "AoA "@ + if e.peak_classification@ == "fast"@
            || e.peak_classification@ == "slightly_fast"@ {
            "rapide"@
        } else if e.peak_classification@ == "slow"@ || e.peak_classification@ == "slightly_slow"@ {
            "lent"@
        } else {
            "hors vitesse"@
        },
    }
}

/// Name of a severity band in a reason.
pub open spec fn severity_text(s: EpisodeSeverity) -> Seq<char> {
    match s {
        EpisodeSeverity::Zero => "nul"@,
        EpisodeSeverity::Small => "léger"@,
        EpisodeSeverity::Medium => "moyen"@,
        EpisodeSeverity::Large => "gros"@,
    }
}

/// Description of a correction quality in a reason.
pub open spec fn correction_text(c: CorrectionQuality) -> Seq<char> {
    match c {
        CorrectionQuality::Good => "corrigé rapidement après le pic et stabilisé"@,
        CorrectionQuality::Average => "correction réelle après le pic, mais tardive ou incomplète"@,
        CorrectionQuality::Poor => "sans retour stable vers la cible après le pic"@,
        CorrectionQuality::NotAssessed => "conservé à titre diagnostique"@,
    }
}

/// The reason of a grade decided by an episode:
/// `{grade}: {axis} {severity} en {zone}, {correction}.`
pub open spec fn reason_text(grade: PassGrade, e: GradingEpisode) -> Seq<char> {
    grade_label(grade) + ": "@ + axis_text(e) + " "@ + severity_text(e.maximum_severity) + " en "@
        + zone_label(e.most_severe_zone) + ", "@ + correction_text(e.correction) + "."@
}

/// The plain-language reason of a grade decided by `episode`.
pub fn episode_reason(grade: PassGrade, episode: &GradingEpisode) -> (r: String)
    ensures
        r@ == reason_text(grade, *episode),
{
    let mut out: Vec<char> = Vec::new();
    push_str(&mut out, grade.label());
    push_str(&mut out, ": ");
    match episode.axis {
        GradingAxis::Glideslope => push_str(&mut out, "écart de pente"),
        GradingAxis::Lineup => push_str(&mut out, "lineup"),
        GradingAxis::Aoa => {
            push_str(&mut out, "AoA ");
            let c = episode.peak_classification;
            if str_equals(c, "fast") || str_equals(c, "slightly_fast") {
                push_str(&mut out, "rapide");
            } else if str_equals(c, "slow") || str_equals(c, "slightly_slow") {
                push_str(&mut out, "lent");
            } else {
                push_str(&mut out, "hors vitesse");
            }
        },
    }
    push_str(&mut out, " ");
    match episode.maximum_severity {
        EpisodeSeverity::Zero => push_str(&mut out, "nul"),
        EpisodeSeverity::Small => push_str(&mut out, "léger"),
        EpisodeSeverity::Medium => push_str(&mut out, "moyen"),
        EpisodeSeverity::Large => push_str(&mut out, "gros"),
    }
    push_str(&mut out, " en ");
    push_str(&mut out, episode.most_severe_zone.label());
    push_str(&mut out, ", ");
    match episode.correction {
        CorrectionQuality::Good => push_str(&mut out, "corrigé rapidement après le pic et stabilisé"),
        CorrectionQuality::Average => push_str(
            &mut out,
            "correction réelle après le pic, mais tardive ou incomplète",
        ),
        CorrectionQuality::Poor => push_str(&mut out, "sans retour stable vers la cible après le pic"),
        CorrectionQuality::NotAssessed => push_str(&mut out, "conservé à titre diagnostique"),
    }
    push_str(&mut out, ".");
    assert(out@ =~= reason_text(grade, *episode));
    string_from_chars(&out)
}

/// The grade of a set of episodes and its reason: the heaviest episode that affects the grade
/// decides it through its effective severity; with none, the pass is OK.
pub fn grade_from_episode_set(episodes: &[GradingEpisode]) -> (r: (PassGrade, String))
    ensures
        match worst_upto(episodes@, episodes@.len() as int) {
            None => r.0 == PassGrade::Okay && r.1@ == stable_reason(),
            Some(j) => {
                &&& r.0 == grade_for_tenths(episodes@[j].effective_severity_tenths)
                &&& r.1@ == reason_text(r.0, episodes@[j])
            },
        },
{
    let mut worst: Option<usize> = None;
    let mut i: usize = 0;
    while i < episodes.len()
        invariant
            i <= episodes@.len(),
            opt_index(worst) == worst_upto(episodes@, i as int),
            worst matches Some(j) ==> j < i,
        decreases episodes@.len() - i,
    {
        if episodes[i].affects_grade {
            match worst {
                None => {
                    worst = Some(i);
                },
                Some(j) => {
                    let a = &episodes[j];
                    let b = &episodes[i];
                    if a.effective_severity_tenths < b.effective_severity_tenths || (
                    a.effective_severity_tenths == b.effective_severity_tenths
                        && a.maximum_severity.level() <= b.maximum_severity.level()) {
                        worst = Some(i);
                    }
                },
            }
        }
        i += 1;
    }
    match worst {
        None => (PassGrade::Okay, string_from_chars(&crate::text::chars_of(
            "OK: trajectoire stable, sans épisode significatif.",
        ))),
        Some(j) => {
            let e = &episodes[j];
            let grade = if e.effective_severity_tenths < 15 {
                PassGrade::Okay
            } else if e.effective_severity_tenths < 30 {
                PassGrade::OkParentheses
            } else {
                PassGrade::NoGrade
            };
            let reason = episode_reason(grade, e);
            (grade, reason)
        },
    }
}

/// The deciding episode affects the grade and weighs at least as much as every other episode
/// that does; with no such episode, none affects the grade.
pub proof fn lemma_worst_is_heaviest(s: Seq<GradingEpisode>, n: int)
    requires
        0 <= n <= s.len(),
    ensures
        worst_upto(s, n) matches Some(j) ==> {
            &&& 0 <= j < n
            &&& s[j].affects_grade
            &&& forall|k: int| 0 <= k < n && s[k].affects_grade ==> weighs_no_more(s[k], s[j])
            &&& forall|k: int| j < k < n && s[k].affects_grade ==> !weighs_no_more(s[j], s[k])
        },
        worst_upto(s, n) is None ==> forall|k: int| 0 <= k < n ==> !s[k].affects_grade,
    decreases n,
{
    if n > 0 {
        lemma_worst_is_heaviest(s, n - 1);
    }
}

// ---------------------------------------------------------------------------
// The grade of a pass
// ---------------------------------------------------------------------------

/// The reason given when the gates were not captured.
pub open spec fn gates_unavailable_reason() -> Seq<char> {
    "Grading unavailable: required gate coverage was not captured in valid chronological brackets. A positioning/detection limitation, not a pilot failure."@
}

/// The prefix of the reason of an approach whose outcome is unknown.
pub open spec fn approach_only_prefix() -> Seq<char> {
    "Approach only (outcome unknown): "@
}

/// The grade of a pass and its reason, from its outcome, whether its gates were captured
/// (`gates_valid`) and the grade its gates and trajectory earn (`from_gates`, used only with
/// valid gates): no approach and incomplete gates are ungradable; a waveoff and a bolter keep
/// their own grade; an approach without outcome and a recovery are graded on the approach; a
/// touch-and-go too, but never as a perfect pass.
pub open spec fn spec_pass_grade(grading: Grading, gates_valid: bool, from_gates: (PassGrade, Seq<char>)) -> (PassGrade, Seq<char>) {
    match grading {
        Grading::Unknown => (
            PassGrade::Incomplete,
            "Grading unavailable: no recognisable approach was recorded."@,
        ),
        Grading::ApproachOnly => if gates_valid {
            (from_gates.0, approach_only_prefix() + from_gates.1)
        } else {
            (PassGrade::Incomplete, gates_unavailable_reason())
        },
        Grading::WaveoffUnknown => (
            PassGrade::WaveoffUnknown,
            "WO?: went around; can't tell from the data who or what caused it."@,
        ),
        Grading::Bolter => if gates_valid {
            (
                PassGrade::Bolter,
                "B: hook touched down but didn't catch a wire; the approach itself was on track."@,
            )
        } else {
            (PassGrade::Incomplete, gates_unavailable_reason())
        },
        Grading::Recovered { .. } => if gates_valid {
            from_gates
        } else {
            (PassGrade::Incomplete, gates_unavailable_reason())
        },
        Grading::TouchAndGo { .. } => if !gates_valid {
            (PassGrade::Incomplete, gates_unavailable_reason())
        } else if from_gates.0 == PassGrade::Perfect {
            (
                PassGrade::Okay,
                "OK: textbook approach, but capped one tier down — a touch-and-go can't receive a perfect pass."@,
            )
        } else {
            from_gates
        },
    }
}

/// A string holding the characters of a literal.
fn owned(s: &str) -> (r: String)
    ensures
        r@ == s@,
{
    String::from_str(s)
}

/// The grade of a pass and its reason (see `spec_pass_grade`).
pub fn pass_grade_with_reason(grading: &Grading, gates_valid: bool, from_gates: (PassGrade, String)) -> (r: (PassGrade, String))
    ensures
        (r.0, r.1@) == spec_pass_grade(*grading, gates_valid, (from_gates.0, from_gates.1@)),
{
    match *grading {
        Grading::Unknown => (
            PassGrade::Incomplete,
            owned("Grading unavailable: no recognisable approach was recorded."),
        ),
        Grading::ApproachOnly => if gates_valid {
            let mut out: Vec<char> = Vec::new();
            push_str(&mut out, "Approach only (outcome unknown): ");
            push_str(&mut out, from_gates.1.as_str());
            (from_gates.0, string_from_chars(&out))
        } else {
            (PassGrade::Incomplete, owned(
                "Grading unavailable: required gate coverage was not captured in valid chronological brackets. A positioning/detection limitation, not a pilot failure.",
            ))
        },
        Grading::WaveoffUnknown => (
            PassGrade::WaveoffUnknown,
            owned("WO?: went around; can't tell from the data who or what caused it."),
        ),
        Grading::Bolter => if gates_valid {
            (
                PassGrade::Bolter,
                owned("B: hook touched down but didn't catch a wire; the approach itself was on track."),
            )
        } else {
            (PassGrade::Incomplete, owned(
                "Grading unavailable: required gate coverage was not captured in valid chronological brackets. A positioning/detection limitation, not a pilot failure.",
            ))
        },
        Grading::Recovered { .. } => if gates_valid {
            from_gates
        } else {
            (PassGrade::Incomplete, owned(
                "Grading unavailable: required gate coverage was not captured in valid chronological brackets. A positioning/detection limitation, not a pilot failure.",
            ))
        },
        Grading::TouchAndGo { .. } => if !gates_valid {
            (PassGrade::Incomplete, owned(
                "Grading unavailable: required gate coverage was not captured in valid chronological brackets. A positioning/detection limitation, not a pilot failure.",
            ))
        } else if from_gates.0 == PassGrade::Perfect {
            (
                PassGrade::Okay,
                owned(
                    "OK: textbook approach, but capped one tier down — a touch-and-go can't receive a perfect pass.",
                ),
            )
        } else {
            from_gates
        },
    }
}

/// Whether any episode affects the grade.
pub open spec fn has_scoring_episode(episodes: Seq<GradingEpisode>) -> bool {
    exists|i: int| 0 <= i < episodes.len() && (#[trigger] episodes[i]).affects_grade
}

/// The grade and reason of a set of episodes, as `grade_from_episode_set` gives them.
pub open spec fn spec_episode_grade(episodes: Seq<GradingEpisode>) -> (PassGrade, Seq<char>) {
    match worst_upto(episodes, episodes.len() as int) {
        None => (PassGrade::Okay, stable_reason()),
        Some(j) => (
            grade_for_tenths(episodes[j].effective_severity_tenths),
            reason_text(grade_for_tenths(episodes[j].effective_severity_tenths), episodes[j]),
        ),
    }
}

/// The CASE I CATOBAR assessment: a pass with a trajectory, valid gates, an approach outcome
/// and no cut is graded by its episodes (a perfect base grade stands when no episode scores, a
/// touch-and-go is capped below perfect, an approach without outcome says so); any other pass
/// keeps its base grade.
pub open spec fn spec_catobar_grade(
    grading: Grading,
    gates_valid: bool,
    has_trajectory: bool,
    base: (PassGrade, Seq<char>),
    episodes: Seq<GradingEpisode>,
) -> (PassGrade, Seq<char>) {
    let eligible = has_trajectory && gates_valid && (grading is Recovered || grading is TouchAndGo
        || grading is ApproachOnly) && base.0 != PassGrade::Cut;
    if !eligible {
        base
    } else {
        let graded = if base.0 == PassGrade::Perfect && !has_scoring_episode(episodes) {
            base
        } else {
            spec_episode_grade(episodes)
        };
        let capped = if grading is TouchAndGo && graded.0 == PassGrade::Perfect {
            (PassGrade::Okay, "OK: trajectoire parfaite, plafonnée pour un touch-and-go."@)
        } else {
            graded
        };
        if grading is ApproachOnly {
            (capped.0, approach_only_prefix() + capped.1)
        } else {
            capped
        }
    }
}

/// The CASE I CATOBAR assessment of a pass (see `spec_catobar_grade`), from its outcome,
/// whether its gates were captured, whether it has a continuous trajectory, its base grade and
/// its episodes.
pub fn catobar_grade(
    grading: &Grading,
    gates_valid: bool,
    has_trajectory: bool,
    base: (PassGrade, String),
    episodes: &[GradingEpisode],
) -> (r: (PassGrade, String))
    ensures
        (r.0, r.1@) == spec_catobar_grade(*grading, gates_valid, has_trajectory, (base.0, base.1@), episodes@),
{
    let outcome_graded = match *grading {
        Grading::Recovered { .. } | Grading::TouchAndGo { .. } | Grading::ApproachOnly => true,
        _ => false,
    };
    if !(has_trajectory && gates_valid && outcome_graded && base.0 != PassGrade::Cut) {
        return base;
    }
    let mut scoring = false;
    let mut i: usize = 0;
    while i < episodes.len()
        invariant
            i <= episodes@.len(),
            scoring == exists|k: int| 0 <= k < i && (#[trigger] episodes@[k]).affects_grade,
        decreases episodes@.len() - i,
    {
        if episodes[i].affects_grade {
            scoring = true;
        }
        i += 1;
    }
    let graded = if base.0 == PassGrade::Perfect && !scoring {
        base
    } else {
        grade_from_episode_set(episodes)
    };
    let is_touch_and_go = match *grading {
        Grading::TouchAndGo { .. } => true,
        _ => false,
    };
    let capped = if is_touch_and_go && graded.0 == PassGrade::Perfect {
        (PassGrade::Okay, owned("OK: trajectoire parfaite, plafonnée pour un touch-and-go."))
    } else {
        graded
    };
    match *grading {
        Grading::ApproachOnly => {
            let mut out: Vec<char> = Vec::new();
            push_str(&mut out, "Approach only (outcome unknown): ");
            push_str(&mut out, capped.1.as_str());
            (capped.0, string_from_chars(&out))
        },
        _ => capped,
    }
}

/// A touch-and-go never receives a perfect pass, on either grading path.
pub proof fn lemma_touch_and_go_never_perfect(
    grading: Grading,
    gates_valid: bool,
    has_trajectory: bool,
    from_gates: (PassGrade, Seq<char>),
    episodes: Seq<GradingEpisode>,
)
    requires
        grading is TouchAndGo,
    ensures
        spec_pass_grade(grading, gates_valid, from_gates).0 != PassGrade::Perfect,
        spec_catobar_grade(
            grading,
            gates_valid,
            has_trajectory,
            spec_pass_grade(grading, gates_valid, from_gates),
            episodes,
        ).0 != PassGrade::Perfect,
{
    let base = spec_pass_grade(grading, gates_valid, from_gates);
    lemma_worst_is_heaviest(episodes, episodes.len() as int);
}


/// Once an episode affects the grade of an eligible pass (a trajectory, valid gates, an outcome
/// of recovery, touch-and-go or approach only, no cut), the grade no longer depends on the base
/// grade from the gates: it is the grade earned by the effective severity of the heaviest such
/// episode, never a perfect pass, whatever the base grade was.
pub proof fn lemma_scoring_episode_decides(
    grading: Grading,
    base: (PassGrade, Seq<char>),
    other_base: (PassGrade, Seq<char>),
    episodes: Seq<GradingEpisode>,
    j: int,
)
    requires
        grading is Recovered || grading is TouchAndGo || grading is ApproachOnly,
        base.0 != PassGrade::Cut,
        other_base.0 != PassGrade::Cut,
        0 <= j < episodes.len(),
        episodes[j].affects_grade,
        forall|k: int|
            0 <= k < episodes.len() && #[trigger] episodes[k].affects_grade
                ==> episodes[k].effective_severity_tenths <= episodes[j].effective_severity_tenths,
    ensures
        spec_catobar_grade(grading, true, true, base, episodes) == spec_catobar_grade(
            grading,
            true,
            true,
            other_base,
            episodes,
        ),
        spec_catobar_grade(grading, true, true, base, episodes).0 == grade_for_tenths(
            episodes[j].effective_severity_tenths,
        ),
        spec_catobar_grade(grading, true, true, base, episodes).0 != PassGrade::Perfect,
{
    assert(has_scoring_episode(episodes));
    lemma_worst_is_heaviest(episodes, episodes.len() as int);
    let w = worst_upto(episodes, episodes.len() as int)->0;
    assert(episodes[j].effective_severity_tenths <= episodes[w].effective_severity_tenths);
}


/// A correction in time that holds at least two samples in a band strictly below the peak is
/// good, whether or not it went all the way back to zero, provided the episode counts, did not
/// oscillate (fewer than two reversals), did not aggravate after improving, really improved and
/// is not an unsettled ramp case; returning to zero is then no further requirement.
pub proof fn lemma_stable_lower_band_is_good(
    reversals: usize,
    peak_zone: ApproachZone,
    stabilization_samples: usize,
    returned_to_zero: bool,
    stabilized_level: u8,
    peak_level: u8,
)
    requires
        reversals < 2,
        stabilization_samples >= 2,
        stabilized_level < peak_level,
    ensures
        spec_correction(
            true,
            reversals,
            false,
            true,
            peak_zone,
            stabilization_samples,
            true,
            returned_to_zero,
            stabilized_level,
            peak_level,
        ).0 == CorrectionQuality::Good,
        spec_correction(
            true,
            reversals,
            false,
            true,
            peak_zone,
            stabilization_samples,
            true,
            returned_to_zero,
            stabilized_level,
            peak_level,
        ) == spec_correction(
            true,
            reversals,
            false,
            true,
            peak_zone,
            stabilization_samples,
            true,
            !returned_to_zero,
            stabilized_level,
            peak_level,
        ),
{
}


/// Without valid gates no pass is graded, whatever its outcome, except a waveoff. A pass with
/// no recognisable approach is incomplete; so is any other outcome (approach only, bolter,
/// recovery, touch-and-go), with the reason that the gates were not captured. A bolter grade is
/// thus only ever given on valid gates.
pub proof fn lemma_no_grade_without_gates(grading: Grading, from_gates: (PassGrade, Seq<char>))
    ensures
        !(grading is WaveoffUnknown) ==> spec_pass_grade(grading, false, from_gates).0
            == PassGrade::Incomplete,
        !(grading is WaveoffUnknown) && !(grading is Unknown) ==> spec_pass_grade(
            grading,
            false,
            from_gates,
        ).1
            == "Grading unavailable: required gate coverage was not captured in valid chronological brackets. A positioning/detection limitation, not a pilot failure."@,
        forall|gates_valid: bool|
            #[trigger] spec_pass_grade(grading, gates_valid, from_gates).0 == PassGrade::Bolter
                && from_gates.0 != PassGrade::Bolter ==> gates_valid && grading is Bolter,
{
}

} // verus!

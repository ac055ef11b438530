//! Plain-English rendering of DCS LSO grading notation.
//!
//! DCS sends grading comments in LSO shorthand, e.g. `__H__IC (LO)AR FAW __LIG__ WIRE# 3`.
//! Some modules add a `LSO: GRADE:xxx :` prefix, which is stripped before parsing; the wire
//! callout is stripped too (the wire is shown separately). Each whitespace-separated token
//! holds an optional modifier, one or more deviation codes and an optional position code:
//! underscores around the deviation mean "slightly", parentheses mean "a little" (for each code
//! inside), and no modifier means a significant deviation.
use vstd::prelude::*;
use crate::text::{
    chars_eq, count_leading, count_trailing, trim_char,
    chars_of, contains_seq, copy_range, ends_with, find, index_of, is_whitespace, matches_at,
    occurs_at, push_range, push_str, starts_with, string_from_chars, trim_end_char, trim_start_char,
    char_is_whitespace, index_of_from, lemma_index_of_from_at, lemma_index_of_from_first,
    lemma_index_of_from_found,
};

verus! {

/// Number of deviation codes.
pub const DEVIATION_COUNT: usize = 27;

/// Number of position codes.
pub const POSITION_COUNT: usize = 4;

/// Deviation code `i`. Multi-character codes come first so that greedy matching tries them
/// before their single-character prefixes (`LO` before `L`).
pub open spec fn dev_code(i: int) -> Seq<char> {
    if i == 0 {
        seq!['F', 'A', 'W']
    } else if i == 1 {
        seq!['S', 'A', 'W']
    } else if i == 2 {
        seq!['L', 'I', 'G']
    } else if i == 3 {
        seq!['S', 'I', 'G']
    } else if i == 4 {
        seq!['L', 'U', 'L', 'R']
    } else if i == 5 {
        seq!['L', 'U', 'R', 'C']
    } else if i == 6 {
        seq!['L', 'U', 'L', 'C']
    } else if i == 7 {
        seq!['N', 'S', 'U']
    } else if i == 8 {
        seq!['N', 'W', 'T']
    } else if i == 9 {
        seq!['A', 'F', 'U']
    } else if i == 10 {
        seq!['E', 'G', 'T']
    } else if i == 11 {
        seq!['L', 'U', 'L']
    } else if i == 12 {
        seq!['L', 'U', 'R']
    } else if i == 13 {
        seq!['S', 'L', 'O']
    } else if i == 14 {
        seq!['H', 'H']
    } else if i == 15 {
        seq!['L', 'O']
    } else if i == 16 {
        seq!['H']
    } else if i == 17 {
        seq!['L']
    } else if i == 18 {
        seq!['F']
    } else if i == 19 {
        seq!['S']
    } else if i == 20 {
        seq!['P']
    } else if i == 21 {
        seq!['D']
    } else if i == 22 {
        seq!['T']
    } else if i == 23 {
        seq!['E']
    } else if i == 24 {
        seq!['G']
    } else if i == 25 {
        seq!['I']
    } else if i == 26 {
        seq!['W']
    } else {
        Seq::empty()
    }
}

/// English phrase of deviation code `i`.
pub open spec fn dev_phrase(i: int) -> Seq<char> {
    if i == 0 {
        "fast all the way"@
    } else if i == 1 {
        "slow all the way"@
    } else if i == 2 {
        "long in the groove"@
    } else if i == 3 {
        "short in the groove"@
    } else if i == 4 {
        "lined up left"@
    } else if i == 5 {
        "lined up right"@
    } else if i == 6 {
        "lined up left of centerline"@
    } else if i == 7 {
        "not set up"@
    } else if i == 8 {
        "wings not level"@
    } else if i == 9 {
        "all fouled up"@
    } else if i == 10 {
        "eased gun"@
    } else if i == 11 {
        "lined up left"@
    } else if i == 12 {
        "lined up right"@
    } else if i == 13 {
        "slow"@
    } else if i == 14 {
        "very high"@
    } else if i == 15 {
        "low"@
    } else if i == 16 {
        "high"@
    } else if i == 17 {
        "low"@
    } else if i == 18 {
        "fast"@
    } else if i == 19 {
        "slow"@
    } else if i == 20 {
        "power"@
    } else if i == 21 {
        "drift"@
    } else if i == 22 {
        "turning"@
    } else if i == 23 {
        "energy (AoA)"@
    } else if i == 24 {
        "glide slope"@
    } else if i == 25 {
        "lineup"@
    } else if i == 26 {
        "wings not level"@
    } else {
        Seq::empty()
    }
}

/// Position code `k`.
pub open spec fn pos_code(i: int) -> Seq<char> {
    if i == 0 {
        seq!['A', 'R']
    } else if i == 1 {
        seq!['I', 'M']
    } else if i == 2 {
        seq!['I', 'C']
    } else if i == 3 {
        seq!['B', 'C']
    } else {
        Seq::empty()
    }
}

/// English phrase of position code `k`.
pub open spec fn pos_phrase(i: int) -> Seq<char> {
    if i == 0 {
        "at the ramp"@
    } else if i == 1 {
        "in the middle"@
    } else if i == 2 {
        "in close"@
    } else if i == 3 {
        "at ball call"@
    } else {
        Seq::empty()
    }
}

/// Every deviation code is non-empty.
pub proof fn lemma_dev_code_nonempty(i: int)
    requires
        0 <= i < DEVIATION_COUNT,
    ensures
        dev_code(i).len() > 0,
{
}

/// The first deviation index at or after `i` whose code equals `code`.
pub open spec fn lookup_dev_from(code: Seq<char>, i: int) -> Option<int>
    decreases DEVIATION_COUNT - i,
{
    if i < 0 || i >= DEVIATION_COUNT {
        None
    } else if dev_code(i) == code {
        Some(i)
    } else {
        lookup_dev_from(code, i + 1)
    }
}

/// The phrase of the first deviation whose code is exactly `code`.
pub open spec fn lookup_deviation(code: Seq<char>) -> Option<Seq<char>> {
    match lookup_dev_from(code, 0) {
        Some(i) => Some(dev_phrase(i)),
        None => None,
    }
}

/// The first position index at or after `k` whose code equals `code`.
pub open spec fn lookup_pos_from(code: Seq<char>, k: int) -> Option<int>
    decreases POSITION_COUNT - k,
{
    if k < 0 || k >= POSITION_COUNT {
        None
    } else if pos_code(k) == code {
        Some(k)
    } else {
        lookup_pos_from(code, k + 1)
    }
}

/// The phrase of the position whose code is `code` (none for the empty code).
pub open spec fn lookup_position(code: Seq<char>) -> Option<Seq<char>> {
    if code.len() == 0 {
        None
    } else {
        match lookup_pos_from(code, 0) {
            Some(k) => Some(pos_phrase(k)),
            None => None,
        }
    }
}

/// The first deviation index at or after `i` whose code is a prefix of `s`.
pub open spec fn prefix_dev_from(s: Seq<char>, i: int) -> Option<int>
    decreases DEVIATION_COUNT - i,
{
    if i < 0 || i >= DEVIATION_COUNT {
        None
    } else if starts_with(s, dev_code(i)) {
        Some(i)
    } else {
        prefix_dev_from(s, i + 1)
    }
}

/// A found prefix index is a valid table index.
pub proof fn lemma_prefix_dev_from_range(s: Seq<char>, i: int)
    ensures
        prefix_dev_from(s, i) matches Some(j) ==> 0 <= j < DEVIATION_COUNT && starts_with(
            s,
            dev_code(j),
        ),
    decreases DEVIATION_COUNT - i,
{
    if 0 <= i < DEVIATION_COUNT && !starts_with(s, dev_code(i)) {
        lemma_prefix_dev_from_range(s, i + 1);
    }
}

/// The deviation phrases found by scanning `s` left to right, taking at each position the
/// first code (in table order) that matches there and skipping a character when none does.
pub open spec fn greedy_devs(s: Seq<char>) -> Seq<Seq<char>>
    decreases s.len(),
{
    if s.len() == 0 {
        Seq::empty()
    } else {
        match prefix_dev_from(s, 0) {
            Some(i) => {
                proof {
                    lemma_prefix_dev_from_range(s, 0);
                    lemma_dev_code_nonempty(i);
                }
                seq![dev_phrase(i)] + greedy_devs(s.skip(dev_code(i).len() as int))
            },
            None => greedy_devs(s.drop_first()),
        }
    }
}

/// `adverb + dev`, followed by a space and `pos` when `pos` is non-empty.
pub open spec fn build_phrase(adverb: Seq<char>, dev: Seq<char>, pos: Seq<char>) -> Seq<char> {
    if pos.len() == 0 {
        adverb + dev
    } else {
        adverb + dev + seq![' '] + pos
    }
}

/// Greedy decoding of concatenated codes: each phrase gets `adverb`, the last one gets `pos`.
pub open spec fn greedy_decode(s: Seq<char>, adverb: Seq<char>, pos: Seq<char>) -> Seq<Seq<char>> {
    let m = greedy_devs(s);
    Seq::new(
        m.len(),
        |j: int| build_phrase(adverb, m[j], if j == m.len() - 1 { pos } else { Seq::empty() }),
    )
}

/// The adverb of an underscore-marked ("slightly") or plain deviation.
pub open spec fn underscore_adverb(marked: bool) -> Seq<char> {
    if marked {
        "slightly "@
    } else {
        ""@
    }
}

/// The phrases of a parenthesised token `(DEV…)POS`, if `t` has that shape.
pub open spec fn paren_phrases(t: Seq<char>) -> Option<Seq<Seq<char>>> {
    if t.len() > 0 && t[0] == '(' {
        let rest = t.drop_first();
        match index_of(rest, seq![')']) {
            Some(close) => {
                let inner = rest.take(close);
                let code = trim_char(rest.skip(close + 1), '_');
                let pos = match lookup_position(code) {
                    Some(p) => p,
                    None => ""@,
                };
                Some(greedy_decode(inner, "a little "@, pos))
            },
            None => None,
        }
    } else {
        None
    }
}

/// The phrase of `ls` read as `DEV_*POS` for the first position code (from `k` on) that ends it
/// and leaves a known deviation code before it.
pub open spec fn positioned_phrase(ls: Seq<char>, had_lead: bool, k: int) -> Option<Seq<char>>
    decreases POSITION_COUNT - k,
{
    if k < 0 || k >= POSITION_COUNT {
        None
    } else {
        let pc = pos_code(k);
        if ends_with(ls, pc) && ls.len() > pc.len() {
            let before = ls.take(ls.len() - pc.len());
            let dev = trim_end_char(before, '_');
            let had_trail = dev.len() < before.len();
            match lookup_deviation(dev) {
                Some(d) => Some(build_phrase(underscore_adverb(had_lead || had_trail), d, pos_phrase(k))),
                None => positioned_phrase(ls, had_lead, k + 1),
            }
        } else {
            positioned_phrase(ls, had_lead, k + 1)
        }
    }
}

/// The phrases of an underscore-form or plain token `_*DEV_*POS?`.
pub open spec fn plain_phrases(t: Seq<char>) -> Seq<Seq<char>> {
    let ls = trim_start_char(t, '_');
    let had_lead = ls.len() < t.len();
    match positioned_phrase(ls, had_lead, 0) {
        Some(p) => seq![p],
        None => {
            let dev = trim_end_char(ls, '_');
            let had_trail = dev.len() < ls.len();
            let adverb = underscore_adverb(had_lead || had_trail);
            match lookup_deviation(dev) {
                Some(d) => seq![build_phrase(adverb, d, ""@)],
                None => greedy_decode(dev, adverb, ""@),
            }
        }
    }
}

/// The plain-English phrases of one notation token.
pub open spec fn token_phrases(t: Seq<char>) -> Seq<Seq<char>> {
    match paren_phrases(t) {
        Some(p) => p,
        None => plain_phrases(t),
    }
}

/// Length of the leading run of non-whitespace characters of `s`.
pub open spec fn word_len(s: Seq<char>) -> nat
    decreases s.len(),
{
    if s.len() == 0 || is_whitespace(s[0]) {
        0
    } else {
        1 + word_len(s.drop_first())
    }
}

/// A word is never longer than the text it starts.
pub proof fn lemma_word_len_bounds(s: Seq<char>)
    ensures
        word_len(s) <= s.len(),
        s.len() > 0 && !is_whitespace(s[0]) ==> word_len(s) > 0,
    decreases s.len(),
{
    if s.len() > 0 && !is_whitespace(s[0]) {
        lemma_word_len_bounds(s.drop_first());
    }
}

/// The maximal runs of non-whitespace characters of `s` (`split_whitespace`).
pub open spec fn words(s: Seq<char>) -> Seq<Seq<char>>
    decreases s.len(),
{
    if s.len() == 0 {
        Seq::empty()
    } else if is_whitespace(s[0]) {
        words(s.drop_first())
    } else {
        let n = word_len(s);
        proof {
            lemma_word_len_bounds(s);
        }
        seq![s.take(n as int)] + words(s.skip(n as int))
    }
}

/// The phrases of every word, in order.
pub open spec fn phrases_of_words(ws: Seq<Seq<char>>) -> Seq<Seq<char>>
    decreases ws.len(),
{
    if ws.len() == 0 {
        Seq::empty()
    } else {
        phrases_of_words(ws.drop_last()) + token_phrases(ws.last())
    }
}

/// The phrases joined by `", "`.
pub open spec fn join_phrases(ps: Seq<Seq<char>>) -> Seq<char>
    decreases ps.len(),
{
    if ps.len() == 0 {
        Seq::empty()
    } else if ps.len() == 1 {
        ps[0]
    } else {
        join_phrases(ps.drop_last()) + seq![',', ' '] + ps.last()
    }
}

/// `s` with its first character upper-cased when it is an ASCII lower-case letter.
pub open spec fn capitalize(s: Seq<char>) -> Seq<char> {
    if s.len() > 0 && 'a' <= s[0] && s[0] <= 'z' {
        s.update(0, ((s[0] as u32) - 32) as char)
    } else {
        s
    }
}

/// The separator between a grade prefix and the notation.
pub open spec fn grade_separator() -> Seq<char> {
    seq![' ', ':', ' ']
}

/// `s` without a `LSO: GRADE:xxx : ` prefix: the text after the first `" : "`, when what comes
/// before it mentions `GRADE`.
pub open spec fn strip_grade_prefix(s: Seq<char>) -> Seq<char> {
    match index_of(s, grade_separator()) {
        Some(i) => if contains_seq(s.take(i), seq!['G', 'R', 'A', 'D', 'E']) {
            s.skip(i + 3)
        } else {
            s
        },
        None => s,
    }
}

/// `s` up to its first `WIRE#` callout.
pub open spec fn before_wire(s: Seq<char>) -> Seq<char> {
    match index_of(s, seq!['W', 'I', 'R', 'E', '#']) {
        Some(i) => s.take(i),
        None => s,
    }
}

/// The plain-English sentence for a notation string: the phrases of every token of the
/// notation (grade prefix and wire callout removed), joined by commas, first letter capitalised.
/// Empty when no token is recognised.
pub open spec fn english(notation: Seq<char>) -> Seq<char> {
    capitalize(join_phrases(phrases_of_words(words(before_wire(strip_grade_prefix(notation))))))
}

// ---------------------------------------------------------------------------------------------
// Executable code
// ---------------------------------------------------------------------------------------------

/// Views of a vector of character vectors.
pub open spec fn views(v: Seq<Vec<char>>) -> Seq<Seq<char>> {
    Seq::new(v.len(), |i: int| v[i]@)
}

fn dev_code_vec(i: usize) -> (v: Vec<char>)
    requires
        i < DEVIATION_COUNT,
    ensures
        v@ == dev_code(i as int),
{
    if i == 0 {
        vec!['F', 'A', 'W']
    } else if i == 1 {
        vec!['S', 'A', 'W']
    } else if i == 2 {
        vec!['L', 'I', 'G']
    } else if i == 3 {
        vec!['S', 'I', 'G']
    } else if i == 4 {
        vec!['L', 'U', 'L', 'R']
    } else if i == 5 {
        vec!['L', 'U', 'R', 'C']
    } else if i == 6 {
        vec!['L', 'U', 'L', 'C']
    } else if i == 7 {
        vec!['N', 'S', 'U']
    } else if i == 8 {
        vec!['N', 'W', 'T']
    } else if i == 9 {
        vec!['A', 'F', 'U']
    } else if i == 10 {
        vec!['E', 'G', 'T']
    } else if i == 11 {
        vec!['L', 'U', 'L']
    } else if i == 12 {
        vec!['L', 'U', 'R']
    } else if i == 13 {
        vec!['S', 'L', 'O']
    } else if i == 14 {
        vec!['H', 'H']
    } else if i == 15 {
        vec!['L', 'O']
    } else if i == 16 {
        vec!['H']
    } else if i == 17 {
        vec!['L']
    } else if i == 18 {
        vec!['F']
    } else if i == 19 {
        vec!['S']
    } else if i == 20 {
        vec!['P']
    } else if i == 21 {
        vec!['D']
    } else if i == 22 {
        vec!['T']
    } else if i == 23 {
        vec!['E']
    } else if i == 24 {
        vec!['G']
    } else if i == 25 {
        vec!['I']
    } else if i == 26 {
        vec!['W']
    } else {
        Vec::new()
    }
}

fn dev_phrase_str(i: usize) -> (s: &'static str)
    requires
        i < DEVIATION_COUNT,
    ensures
        s@ == dev_phrase(i as int),
{
    if i == 0 {
        "fast all the way"
    } else if i == 1 {
        "slow all the way"
    } else if i == 2 {
        "long in the groove"
    } else if i == 3 {
        "short in the groove"
    } else if i == 4 {
        "lined up left"
    } else if i == 5 {
        "lined up right"
    } else if i == 6 {
        "lined up left of centerline"
    } else if i == 7 {
        "not set up"
    } else if i == 8 {
        "wings not level"
    } else if i == 9 {
        "all fouled up"
    } else if i == 10 {
        "eased gun"
    } else if i == 11 {
        "lined up left"
    } else if i == 12 {
        "lined up right"
    } else if i == 13 {
        "slow"
    } else if i == 14 {
        "very high"
    } else if i == 15 {
        "low"
    } else if i == 16 {
        "high"
    } else if i == 17 {
        "low"
    } else if i == 18 {
        "fast"
    } else if i == 19 {
        "slow"
    } else if i == 20 {
        "power"
    } else if i == 21 {
        "drift"
    } else if i == 22 {
        "turning"
    } else if i == 23 {
        "energy (AoA)"
    } else if i == 24 {
        "glide slope"
    } else if i == 25 {
        "lineup"
    } else if i == 26 {
        "wings not level"
    } else {
        ""
    }
}

fn pos_code_vec(i: usize) -> (v: Vec<char>)
    requires
        i < POSITION_COUNT,
    ensures
        v@ == pos_code(i as int),
{
    if i == 0 {
        vec!['A', 'R']
    } else if i == 1 {
        vec!['I', 'M']
    } else if i == 2 {
        vec!['I', 'C']
    } else if i == 3 {
        vec!['B', 'C']
    } else {
        Vec::new()
    }
}

fn pos_phrase_str(i: usize) -> (s: &'static str)
    requires
        i < POSITION_COUNT,
    ensures
        s@ == pos_phrase(i as int),
{
    if i == 0 {
        "at the ramp"
    } else if i == 1 {
        "in the middle"
    } else if i == 2 {
        "in close"
    } else if i == 3 {
        "at ball call"
    } else {
        ""
    }
}

/// The index of the deviation whose code is exactly `code`.
fn lookup_deviation_index(code: &Vec<char>) -> (r: Option<usize>)
    ensures
        r is Some <==> lookup_dev_from(code@, 0) is Some,
        r matches Some(i) ==> lookup_dev_from(code@, 0) == Some(i as int) && i < DEVIATION_COUNT,
{
    let mut i: usize = 0;
    while i < DEVIATION_COUNT
        invariant
            i <= DEVIATION_COUNT,
            lookup_dev_from(code@, 0) == lookup_dev_from(code@, i as int),
        decreases DEVIATION_COUNT - i,
    {
        let c = dev_code_vec(i);
        if chars_eq(code, &c) {
            return Some(i);
        }
        i += 1;
    }
    None
}

/// The phrase of the position whose code is exactly `code`.
fn lookup_position_str(code: &Vec<char>) -> (r: Option<&'static str>)
    ensures
        r is Some <==> lookup_position(code@) is Some,
        r matches Some(s) ==> lookup_position(code@) == Some(s@),
{
    if code.len() == 0 {
        return None;
    }
    let mut k: usize = 0;
    while k < POSITION_COUNT
        invariant
            k <= POSITION_COUNT,
            code@.len() > 0,
            lookup_pos_from(code@, 0) == lookup_pos_from(code@, k as int),
        decreases POSITION_COUNT - k,
    {
        let c = pos_code_vec(k);
        if chars_eq(code, &c) {
            return Some(pos_phrase_str(k));
        }
        k += 1;
    }
    None
}

/// `adverb + dev [+ " " + pos]` as characters.
fn build(adverb: &str, dev: &str, pos: &str) -> (r: Vec<char>)
    ensures
        r@ == build_phrase(adverb@, dev@, pos@),
{
    let mut r: Vec<char> = Vec::new();
    push_str(&mut r, adverb);
    push_str(&mut r, dev);
    if !pos.is_empty() {
        r.push(' ');
        push_str(&mut r, pos);
        assert(r@ =~= adverb@ + dev@ + seq![' '] + pos@);
    } else {
        assert(r@ =~= adverb@ + dev@);
    }
    r
}

/// Matching a code at position `p` of `s` is the same as `s[p..]` starting with it.
proof fn lemma_starts_with_skip(s: Seq<char>, c: Seq<char>, p: int)
    requires
        0 <= p <= s.len(),
    ensures
        starts_with(s.skip(p), c) == occurs_at(s, c, p),
{
    if p + c.len() <= s.len() {
        assert(s.skip(p).subrange(0, c.len() as int) =~= s.subrange(p, p + c.len()));
    }
}

/// The index of the first deviation code that matches `s` at position `p`.
fn prefix_dev_at(s: &Vec<char>, p: usize) -> (r: Option<usize>)
    requires
        p <= s@.len(),
    ensures
        r is Some <==> prefix_dev_from(s@.skip(p as int), 0) is Some,
        r matches Some(i) ==> prefix_dev_from(s@.skip(p as int), 0) == Some(i as int) && i
            < DEVIATION_COUNT,
{
    let ghost rest = s@.skip(p as int);
    let mut i: usize = 0;
    while i < DEVIATION_COUNT
        invariant
            i <= DEVIATION_COUNT,
            p <= s@.len(),
            rest == s@.skip(p as int),
            prefix_dev_from(rest, 0) == prefix_dev_from(rest, i as int),
        decreases DEVIATION_COUNT - i,
    {
        let c = dev_code_vec(i);
        proof {
            lemma_starts_with_skip(s@, c@, p as int);
        }
        if matches_at(s, &c, p) {
            return Some(i);
        }
        i += 1;
    }
    None
}

/// The deviation indices found by greedy decoding of `s`.
fn greedy_indices(s: &Vec<char>) -> (r: Vec<usize>)
    ensures
        Seq::new(r@.len(), |j: int| dev_phrase(r@[j] as int)) == greedy_devs(s@),
        forall|j: int| 0 <= j < r@.len() ==> r@[j] < DEVIATION_COUNT,
{
    let mut r: Vec<usize> = Vec::new();
    let mut p: usize = 0;
    assert(s@.skip(0) =~= s@);
    assert(Seq::new(r@.len(), |j: int| dev_phrase(r@[j] as int)) =~= Seq::<Seq<char>>::empty());
    while p < s.len()
        invariant
            p <= s@.len(),
            forall|j: int| 0 <= j < r@.len() ==> r@[j] < DEVIATION_COUNT,
            greedy_devs(s@) == Seq::new(r@.len(), |j: int| dev_phrase(r@[j] as int))
                + greedy_devs(s@.skip(p as int)),
        decreases s@.len() - p,
    {
        let ghost rest = s@.skip(p as int);
        let ghost before = Seq::new(r@.len(), |j: int| dev_phrase(r@[j] as int));
        match prefix_dev_at(s, p) {
            Some(i) => {
                proof {
                    lemma_prefix_dev_from_range(rest, 0);
                    lemma_dev_code_nonempty(i as int);
                    assert(rest.skip(dev_code(i as int).len() as int) =~= s@.skip(
                        p + dev_code(i as int).len(),
                    ));
                }
                let c = dev_code_vec(i);
                r.push(i);
                p = p + c.len();
                proof {
                    let after = Seq::new(r@.len(), |j: int| dev_phrase(r@[j] as int));
                    assert(after =~= before + seq![dev_phrase(i as int)]);
                }
            },
            None => {
                assert(rest.drop_first() =~= s@.skip(p + 1));
                p = p + 1;
            },
        }
    }
    assert(s@.skip(p as int) =~= Seq::<char>::empty());
    assert(greedy_devs(s@) =~= Seq::new(r@.len(), |j: int| dev_phrase(r@[j] as int)));
    r
}

/// Greedy decoding of concatenated codes.
fn greedy(s: &Vec<char>, adverb: &str, pos: &str) -> (r: Vec<Vec<char>>)
    ensures
        views(r@) == greedy_decode(s@, adverb@, pos@),
{
    let idx = greedy_indices(s);
    let ghost m = greedy_devs(s@);
    let mut r: Vec<Vec<char>> = Vec::new();
    let n = idx.len();
    let mut j: usize = 0;
    while j < n
        invariant
            n == idx@.len() == m.len(),
            j <= n,
            forall|q: int| 0 <= q < n ==> idx@[q] < DEVIATION_COUNT,
            forall|q: int| 0 <= q < n ==> m[q] == dev_phrase(idx@[q] as int),
            r@.len() == j,
            forall|q: int|
                0 <= q < j ==> r@[q]@ == build_phrase(
                    adverb@,
                    m[q],
                    if q == m.len() - 1 {
                        pos@
                    } else {
                        Seq::empty()
                    },
                ),
        decreases n - j,
    {
        let dev = dev_phrase_str(idx[j]);
        let ph = if j + 1 == n {
            build(adverb, dev, pos)
        } else {
            build(adverb, dev, "")
        };
        proof {
            assert(""@.len() == 0) by {
                reveal_strlit("");
            }
            assert(""@ =~= Seq::<char>::empty());
        }
        r.push(ph);
        j += 1;
    }
    assert(views(r@) =~= greedy_decode(s@, adverb@, pos@));
    r
}

/// The phrases of a parenthesised token, if it has that shape.
fn paren_token(t: &Vec<char>) -> (r: Option<Vec<Vec<char>>>)
    ensures
        r is Some <==> paren_phrases(t@) is Some,
        r matches Some(v) ==> paren_phrases(t@) == Some(views(v@)),
{
    if t.len() == 0 || t[0] != '(' {
        return None;
    }
    let rest = copy_range(t, 1, t.len());
    assert(rest@ =~= t@.drop_first());
    let close_pat = vec![')'];
    assert(close_pat@ =~= seq![')']);
    match find(&rest, &close_pat) {
        None => None,
        Some(close) => {
            let inner = copy_range(&rest, 0, close);
            assert(inner@ =~= rest@.take(close as int));
            let after = copy_range(&rest, close + 1, rest.len());
            assert(after@ =~= rest@.skip(close + 1));
            let lead = count_leading(&after, '_');
            let trimmed_start = copy_range(&after, lead, after.len());
            assert(trimmed_start@ =~= after@.skip(lead as int));
            let trail = count_trailing(&trimmed_start, trimmed_start.len(), '_');
            let code = copy_range(&trimmed_start, 0, trimmed_start.len() - trail);
            proof {
                assert(trimmed_start@.take(trimmed_start@.len() as int) =~= trimmed_start@);
                assert(code@ =~= trimmed_start@.take(trimmed_start@.len() - trail));
            }
            let pos = match lookup_position_str(&code) {
                Some(p) => p,
                None => "",
            };
            Some(greedy(&inner, "a little ", pos))
        },
    }
}

/// The phrase for `ls` read as `DEV_*POS`, trying position codes from `k` on.
fn positioned(ls: &Vec<char>, had_lead: bool) -> (r: Option<Vec<char>>)
    ensures
        r is Some <==> positioned_phrase(ls@, had_lead, 0) is Some,
        r matches Some(v) ==> positioned_phrase(ls@, had_lead, 0) == Some(v@),
{
    let mut k: usize = 0;
    while k < POSITION_COUNT
        invariant
            k <= POSITION_COUNT,
            positioned_phrase(ls@, had_lead, 0) == positioned_phrase(ls@, had_lead, k as int),
        decreases POSITION_COUNT - k,
    {
        let pc = pos_code_vec(k);
        if ls.len() > pc.len() && matches_at(ls, &pc, ls.len() - pc.len()) {
            let before_len = ls.len() - pc.len();
            let trail = count_trailing(ls, before_len, '_');
            let dev = copy_range(ls, 0, before_len - trail);
            assert(dev@ =~= ls@.take(before_len - trail));
            let had_trail = trail > 0;
            match lookup_deviation_index(&dev) {
                Some(i) => {
                    let adverb = if had_lead || had_trail {
                        "slightly "
                    } else {
                        ""
                    };
                    let ph = build(adverb, dev_phrase_str(i), pos_phrase_str(k));
                    return Some(ph);
                },
                None => {},
            }
        }
        k += 1;
    }
    None
}

/// The phrases of an underscore-form or plain token.
fn plain_token(t: &Vec<char>) -> (r: Vec<Vec<char>>)
    ensures
        views(r@) == plain_phrases(t@),
{
    let lead = count_leading(t, '_');
    let ls = copy_range(t, lead, t.len());
    assert(ls@ =~= t@.skip(lead as int));
    let had_lead = lead > 0;
    match positioned(&ls, had_lead) {
        Some(p) => {
            let mut r: Vec<Vec<char>> = Vec::new();
            r.push(p);
            assert(views(r@) =~= plain_phrases(t@));
            r
        },
        None => {
            let trail = count_trailing(&ls, ls.len(), '_');
            let dev = copy_range(&ls, 0, ls.len() - trail);
            proof {
                assert(ls@.take(ls@.len() as int) =~= ls@);
                assert(dev@ =~= ls@.take(ls@.len() - trail));
            }
            let adverb = if had_lead || trail > 0 {
                "slightly "
            } else {
                ""
            };
            match lookup_deviation_index(&dev) {
                Some(i) => {
                    let mut r: Vec<Vec<char>> = Vec::new();
                    r.push(build(adverb, dev_phrase_str(i), ""));
                    assert(views(r@) =~= plain_phrases(t@));
                    r
                },
                None => greedy(&dev, adverb, ""),
            }
        },
    }
}

/// The plain-English phrases of one notation token.
fn token_to_phrases(t: &Vec<char>) -> (r: Vec<Vec<char>>)
    ensures
        views(r@) == token_phrases(t@),
{
    match paren_token(t) {
        Some(p) => p,
        None => plain_token(t),
    }
}

/// Appends `ps` to a comma-separated join of `done`.
fn append_joined(out: &mut Vec<char>, started: &mut bool, ps: &Vec<Vec<char>>, Ghost(done): Ghost<Seq<Seq<char>>>)
    requires
        old(out)@ == join_phrases(done),
        *old(started) == (done.len() > 0),
    ensures
        final(out)@ == join_phrases(done + views(ps@)),
        *final(started) == (done.len() + ps@.len() > 0),
{
    let mut j: usize = 0;
    while j < ps.len()
        invariant
            j <= ps@.len(),
            out@ == join_phrases(done + views(ps@).take(j as int)),
            *started == (done.len() + j > 0),
        decreases ps@.len() - j,
    {
        let ghost prev = done + views(ps@).take(j as int);
        assert(done + views(ps@).take(j + 1) =~= prev.push(ps@[j as int]@));
        if *started {
            out.push(',');
            out.push(' ');
        }
        push_range(out, &ps[j], 0, ps[j].len());
        proof {
            assert(ps@[j as int]@.subrange(0, ps@[j as int]@.len() as int) =~= ps@[j as int]@);
            let next = prev.push(ps@[j as int]@);
            assert(next.drop_last() =~= prev);
            assert(out@ =~= join_phrases(next));
        }
        *started = true;
        j += 1;
    }
    assert(views(ps@).take(ps@.len() as int) =~= views(ps@));
}

/// A word of `s` starting at `i` and ending at the first whitespace (or the end) is `j - i`
/// characters long.
proof fn lemma_word_len_run(s: Seq<char>, i: int, j: int)
    requires
        0 <= i <= j <= s.len(),
        forall|k: int| i <= k < j ==> !is_whitespace(#[trigger] s[k]),
        j == s.len() || is_whitespace(s[j]),
    ensures
        word_len(s.skip(i)) == j - i,
    decreases j - i,
{
    if i < j {
        assert(s.skip(i).drop_first() =~= s.skip(i + 1));
        lemma_word_len_run(s, i + 1, j);
    }
}

/// The upper-case form of an ASCII lower-case letter.
fn ascii_upper(c: char) -> (u: char)
    requires
        'a' <= c <= 'z',
    ensures
        u == ((c as u32) - 32) as char,
{
    ((c as u8) - 32) as char
}

/// Converts a DCS LSO notation string to a plain-English sentence.
///
/// The `WIRE#` callout is stripped (the wire number is shown separately), and so is the
/// `LSO: GRADE:xxx :` prefix used by some modules. Returns an empty string when the notation
/// contains no recognisable token.
pub fn to_english(notation: &str) -> (r: String)
    ensures
        r@ == english(notation@),
{
    let chars = chars_of(notation);
    let sep = vec![' ', ':', ' '];
    let grade = vec!['G', 'R', 'A', 'D', 'E'];
    let wire = vec!['W', 'I', 'R', 'E', '#'];
    assert(sep@ =~= grade_separator());
    assert(sep@.len() == 3);
    assert(grade@ =~= seq!['G', 'R', 'A', 'D', 'E']);
    assert(wire@ =~= seq!['W', 'I', 'R', 'E', '#']);
    let stripped = match find(&chars, &sep) {
        Some(i) => {
            let prefix = copy_range(&chars, 0, i);
            assert(prefix@ =~= chars@.take(i as int));
            if find(&prefix, &grade).is_some() {
                let cl = chars.len();
                assert(i + 3 <= cl);
                let rest = copy_range(&chars, i + 3, chars.len());
                assert(rest@ =~= chars@.skip(i + 3));
                rest
            } else {
                let all = copy_range(&chars, 0, chars.len());
                assert(all@ =~= chars@);
                all
            }
        },
        None => {
            let all = copy_range(&chars, 0, chars.len());
            assert(all@ =~= chars@);
            all
        },
    };
    assert(stripped@ == strip_grade_prefix(notation@));
    let body = match find(&stripped, &wire) {
        Some(i) => {
            let before = copy_range(&stripped, 0, i);
            assert(before@ =~= stripped@.take(i as int));
            before
        },
        None => {
            let all = copy_range(&stripped, 0, stripped.len());
            assert(all@ =~= stripped@);
            all
        },
    };
    assert(body@ == before_wire(strip_grade_prefix(notation@)));

    let n = body.len();
    let mut out: Vec<char> = Vec::new();
    let mut started = false;
    let ghost mut seen: Seq<Seq<char>> = Seq::empty();
    let mut i: usize = 0;
    assert(body@.skip(0) =~= body@);
    while i < n
        invariant
            i <= n == body@.len(),
            words(body@) == seen + words(body@.skip(i as int)),
            out@ == join_phrases(phrases_of_words(seen)),
            started == (phrases_of_words(seen).len() > 0),
        decreases n - i,
    {
        if char_is_whitespace(body[i]) {
            assert(body@.skip(i as int).drop_first() =~= body@.skip(i + 1));
            i += 1;
        } else {
            let mut j = i;
            while j < n && !char_is_whitespace(body[j])
                invariant
                    i <= j <= n == body@.len(),
                    forall|k: int| i <= k < j ==> !is_whitespace(#[trigger] body@[k]),
                decreases n - j,
            {
                j += 1;
            }
            proof {
                lemma_word_len_run(body@, i as int, j as int);
            }
            let token = copy_range(&body, i, j);
            assert(body@.skip(i as int).take(j - i) =~= token@);
            assert(body@.skip(i as int).skip(j - i) =~= body@.skip(j as int));
            let ps = token_to_phrases(&token);
            append_joined(&mut out, &mut started, &ps, Ghost(phrases_of_words(seen)));
            proof {
                let next = seen.push(token@);
                assert(next.drop_last() =~= seen);
                assert(seen + words(body@.skip(i as int)) =~= next + words(body@.skip(j as int)));
                seen = next;
            }
            i = j;
        }
    }
    assert(body@.skip(n as int) =~= Seq::<char>::empty());
    assert(seen =~= words(body@));
    if out.len() > 0 && 'a' <= out[0] && out[0] <= 'z' {
        let u = ascii_upper(out[0]);
        out.set(0, u);
    }
    string_from_chars(&out)
}


// ---------------------------------------------------------------------------------------------
// Laws
// ---------------------------------------------------------------------------------------------

/// The wire callout `" WIRE# "`.
pub open spec fn wire_callout() -> Seq<char> {
    seq![' ', 'W', 'I', 'R', 'E', '#', ' ']
}

/// Whether `s` holds no `':'`.
pub open spec fn has_no_colon(s: Seq<char>) -> bool {
    forall|i: int| 0 <= i < s.len() ==> s[i] != ':'
}

/// A text without `':'` has no grade prefix to strip.
proof fn lemma_no_grade_prefix(t: Seq<char>)
    requires
        has_no_colon(t),
    ensures
        strip_grade_prefix(t) == t,
{
    lemma_index_of_from_first(t, grade_separator(), 0);
    if let Some(j) = index_of(t, grade_separator()) {
        assert(t.subrange(j, j + 3)[1] == ':');
        assert(t[j + 1] == ':');
    }
}

/// A trailing space changes no word length.
proof fn lemma_word_len_space(x: Seq<char>)
    ensures
        word_len(x + seq![' ']) == word_len(x),
    decreases x.len(),
{
    let y = x + seq![' '];
    if x.len() == 0 {
        assert(is_whitespace(y[0]));
    } else if !is_whitespace(x[0]) {
        assert(y.drop_first() =~= x.drop_first() + seq![' ']);
        lemma_word_len_space(x.drop_first());
    }
}

/// A trailing space adds no word.
proof fn lemma_words_space(x: Seq<char>)
    ensures
        words(x + seq![' ']) == words(x),
    decreases x.len(),
{
    let y = x + seq![' '];
    if x.len() == 0 {
        assert(is_whitespace(y[0]));
        assert(y.drop_first() =~= Seq::<char>::empty());
        assert(words(y.drop_first()) == Seq::<Seq<char>>::empty());
        assert(words(y) == words(y.drop_first()));
    } else if is_whitespace(x[0]) {
        assert(y.drop_first() =~= x.drop_first() + seq![' ']);
        lemma_words_space(x.drop_first());
        assert(words(y) == words(y.drop_first()));
        assert(words(x) == words(x.drop_first()));
    } else {
        lemma_word_len_space(x);
        lemma_word_len_bounds(x);
        lemma_word_len_bounds(y);
        let n = word_len(x) as int;
        assert(y.take(n) =~= x.take(n));
        assert(y.skip(n) =~= x.skip(n) + seq![' ']);
        lemma_words_space(x.skip(n));
        assert(words(y) == seq![y.take(n)] + words(y.skip(n)));
        assert(words(x) == seq![x.take(n)] + words(x.skip(n)));
    }
}

/// A trailing wire callout never changes the sentence: the wire is reported separately. This
/// holds of every notation without a colon or a `WIRE#` of its own, whatever follows the
/// callout short of a colon.
pub proof fn lemma_wire_callout_ignored(s: Seq<char>, n: Seq<char>)
    requires
        !contains_seq(s, seq!['W', 'I', 'R', 'E', '#']),
        has_no_colon(s),
        has_no_colon(n),
    ensures
        english(s + wire_callout() + n) == english(s),
{
    let w = seq!['W', 'I', 'R', 'E', '#'];
    let t = s + wire_callout() + n;
    let m: int = s.len() as int + 1;
    assert forall|i: int| 0 <= i < t.len() implies t[i] != ':' by {
        if i < s.len() {
            assert(t[i] == s[i]);
        } else if i >= s.len() + 7 {
            assert(t[i] == n[i - s.len() - 7]);
        }
    }
    lemma_no_grade_prefix(t);
    lemma_no_grade_prefix(s);
    assert(t.subrange(m, m + 5) =~= w);
    assert forall|k: int| 0 <= k < m implies !#[trigger] occurs_at(t, w, k) by {
        if occurs_at(t, w, k) {
            if k + 5 <= s.len() {
                assert(s.subrange(k, k + 5) =~= t.subrange(k, k + 5));
                lemma_index_of_from_found(s, w, 0, k);
            } else {
                assert(t.subrange(k, k + 5)[s.len() - k] == t[s.len() as int]);
                assert(t[s.len() as int] == ' ');
            }
        }
    }
    lemma_index_of_from_at(t, w, 0, m);
    assert(before_wire(t) =~= s + seq![' ']);
    assert(before_wire(s) == s);
    lemma_words_space(s);
}


/// Whether `p` starts with a lower-case ASCII letter.
pub open spec fn starts_lower(p: Seq<char>) -> bool {
    p.len() > 0 && 'a' <= p[0] && p[0] <= 'z'
}

/// Whether every phrase of `ps` starts with a lower-case ASCII letter.
pub open spec fn all_start_lower(ps: Seq<Seq<char>>) -> bool {
    forall|i: int| 0 <= i < ps.len() ==> starts_lower(#[trigger] ps[i])
}

/// Every deviation phrase starts with a lower-case letter.
proof fn lemma_dev_phrase_lower(i: int)
    requires
        0 <= i < DEVIATION_COUNT,
    ensures
        starts_lower(dev_phrase(i)),
{
    reveal_strlit("fast all the way");
    reveal_strlit("slow all the way");
    reveal_strlit("long in the groove");
    reveal_strlit("short in the groove");
    reveal_strlit("lined up left");
    reveal_strlit("lined up right");
    reveal_strlit("lined up left of centerline");
    reveal_strlit("not set up");
    reveal_strlit("wings not level");
    reveal_strlit("all fouled up");
    reveal_strlit("eased gun");
    reveal_strlit("slow");
    reveal_strlit("very high");
    reveal_strlit("low");
    reveal_strlit("high");
    reveal_strlit("fast");
    reveal_strlit("power");
    reveal_strlit("drift");
    reveal_strlit("turning");
    reveal_strlit("energy (AoA)");
    reveal_strlit("glide slope");
    reveal_strlit("lineup");
}

/// A found deviation index is a table index.
proof fn lemma_lookup_dev_from_range(code: Seq<char>, i: int)
    ensures
        lookup_dev_from(code, i) matches Some(j) ==> 0 <= j < DEVIATION_COUNT,
    decreases DEVIATION_COUNT - i,
{
    if 0 <= i < DEVIATION_COUNT && dev_code(i) != code {
        lemma_lookup_dev_from_range(code, i + 1);
    }
}

/// A looked-up deviation phrase starts with a lower-case letter.
proof fn lemma_lookup_deviation_lower(code: Seq<char>)
    ensures
        lookup_deviation(code) matches Some(d) ==> starts_lower(d),
{
    lemma_lookup_dev_from_range(code, 0);
    if let Some(j) = lookup_dev_from(code, 0) {
        lemma_dev_phrase_lower(j);
    }
}

/// Whether `a` may open a phrase: empty, or starting with a lower-case letter.
pub open spec fn adverb_ok(a: Seq<char>) -> bool {
    a.len() == 0 || starts_lower(a)
}

/// The adverbs open phrases properly.
proof fn lemma_adverbs_ok()
    ensures
        adverb_ok(underscore_adverb(true)),
        adverb_ok(underscore_adverb(false)),
        adverb_ok("a little "@),
{
    reveal_strlit("slightly ");
    reveal_strlit("");
    reveal_strlit("a little ");
}

/// A phrase built from a proper adverb and a lower-case deviation starts lower-case.
proof fn lemma_build_phrase_lower(adverb: Seq<char>, dev: Seq<char>, pos: Seq<char>)
    requires
        adverb_ok(adverb),
        starts_lower(dev),
    ensures
        starts_lower(build_phrase(adverb, dev, pos)),
{
    if adverb.len() == 0 {
        assert((adverb + dev)[0] == dev[0]);
    } else {
        assert((adverb + dev)[0] == adverb[0]);
    }
    if pos.len() > 0 {
        assert((adverb + dev + seq![' '] + pos)[0] == (adverb + dev)[0]);
    }
}

/// Greedy scanning only finds lower-case deviation phrases.
proof fn lemma_greedy_devs_lower(s: Seq<char>)
    ensures
        all_start_lower(greedy_devs(s)),
    decreases s.len(),
{
    if s.len() > 0 {
        lemma_prefix_dev_from_range(s, 0);
        match prefix_dev_from(s, 0) {
            Some(i) => {
                lemma_dev_code_nonempty(i);
                lemma_dev_phrase_lower(i);
                let rest = s.skip(dev_code(i).len() as int);
                lemma_greedy_devs_lower(rest);
                let r = seq![dev_phrase(i)] + greedy_devs(rest);
                assert forall|k: int| 0 <= k < r.len() implies starts_lower(#[trigger] r[k]) by {
                    if k > 0 {
                        assert(r[k] == greedy_devs(rest)[k - 1]);
                    }
                }
            },
            None => {
                lemma_greedy_devs_lower(s.drop_first());
            },
        }
    }
}

/// Greedy decoding with a proper adverb gives lower-case phrases.
proof fn lemma_greedy_decode_lower(s: Seq<char>, adverb: Seq<char>, pos: Seq<char>)
    requires
        adverb_ok(adverb),
    ensures
        all_start_lower(greedy_decode(s, adverb, pos)),
{
    lemma_greedy_devs_lower(s);
    let m = greedy_devs(s);
    let r = greedy_decode(s, adverb, pos);
    assert forall|k: int| 0 <= k < r.len() implies starts_lower(#[trigger] r[k]) by {
        assert(starts_lower(m[k]));
        lemma_build_phrase_lower(adverb, m[k], if k == m.len() - 1 { pos } else { Seq::empty() });
    }
}

/// A positioned phrase starts lower-case.
proof fn lemma_positioned_phrase_lower(ls: Seq<char>, had_lead: bool, k: int)
    ensures
        positioned_phrase(ls, had_lead, k) matches Some(p) ==> starts_lower(p),
    decreases POSITION_COUNT - k,
{
    if 0 <= k < POSITION_COUNT {
        let pc = pos_code(k);
        if ends_with(ls, pc) && ls.len() > pc.len() {
            let before = ls.take(ls.len() - pc.len());
            let dev = trim_end_char(before, '_');
            let had_trail = dev.len() < before.len();
            lemma_lookup_deviation_lower(dev);
            lemma_adverbs_ok();
            match lookup_deviation(dev) {
                Some(d) => {
                    lemma_build_phrase_lower(underscore_adverb(had_lead || had_trail), d, pos_phrase(k));
                },
                None => {
                    lemma_positioned_phrase_lower(ls, had_lead, k + 1);
                },
            }
        } else {
            lemma_positioned_phrase_lower(ls, had_lead, k + 1);
        }
    }
}

/// Every phrase of a token starts lower-case.
proof fn lemma_token_phrases_lower(t: Seq<char>)
    ensures
        all_start_lower(token_phrases(t)),
{
    lemma_adverbs_ok();
    match paren_phrases(t) {
        Some(p) => {
            let rest = t.drop_first();
            let close = index_of(rest, seq![')']).unwrap();
            let inner = rest.take(close);
            let code = trim_char(rest.skip(close + 1), '_');
            let pos = match lookup_position(code) {
                Some(p) => p,
                None => ""@,
            };
            lemma_greedy_decode_lower(inner, "a little "@, pos);
        },
        None => {
            let ls = trim_start_char(t, '_');
            let had_lead = ls.len() < t.len();
            lemma_positioned_phrase_lower(ls, had_lead, 0);
            match positioned_phrase(ls, had_lead, 0) {
                Some(p) => {
                    assert(seq![p][0] == p);
                },
                None => {
                    let dev = trim_end_char(ls, '_');
                    let had_trail = dev.len() < ls.len();
                    let adverb = underscore_adverb(had_lead || had_trail);
                    lemma_lookup_deviation_lower(dev);
                    match lookup_deviation(dev) {
                        Some(d) => {
                            lemma_build_phrase_lower(adverb, d, ""@);
                            assert(seq![build_phrase(adverb, d, ""@)][0] == build_phrase(adverb, d, ""@));
                        },
                        None => {
                            lemma_greedy_decode_lower(dev, adverb, ""@);
                        },
                    }
                },
            }
        },
    }
}

/// Every phrase of every word starts lower-case.
proof fn lemma_phrases_of_words_lower(ws: Seq<Seq<char>>)
    ensures
        all_start_lower(phrases_of_words(ws)),
    decreases ws.len(),
{
    if ws.len() > 0 {
        lemma_phrases_of_words_lower(ws.drop_last());
        lemma_token_phrases_lower(ws.last());
        let a = phrases_of_words(ws.drop_last());
        let b = token_phrases(ws.last());
        assert forall|k: int| 0 <= k < (a + b).len() implies starts_lower(#[trigger] (a + b)[k]) by {
            if k < a.len() {
                assert((a + b)[k] == a[k]);
            } else {
                assert((a + b)[k] == b[k - a.len()]);
            }
        }
    }
}

/// Joined lower-case phrases start with the first phrase's letter.
proof fn lemma_join_phrases_lower(ps: Seq<Seq<char>>)
    requires
        all_start_lower(ps),
    ensures
        ps.len() == 0 ==> join_phrases(ps).len() == 0,
        ps.len() > 0 ==> starts_lower(join_phrases(ps)) && join_phrases(ps)[0] == ps[0][0],
    decreases ps.len(),
{
    if ps.len() > 1 {
        let init = ps.drop_last();
        assert(starts_lower(ps[0]));
        assert forall|k: int| 0 <= k < init.len() implies starts_lower(#[trigger] init[k]) by {
            assert(init[k] == ps[k]);
        }
        lemma_join_phrases_lower(init);
        let j = join_phrases(init);
        assert((j + seq![',', ' '] + ps.last())[0] == j[0]);
    } else if ps.len() == 1 {
        assert(starts_lower(ps[0]));
    }
}

/// Every non-empty sentence starts with an upper-case ASCII letter.
pub proof fn lemma_english_capitalized(notation: Seq<char>)
    ensures
        english(notation).len() > 0 ==> 'A' <= english(notation)[0] && english(notation)[0] <= 'Z',
{
    let ws = words(before_wire(strip_grade_prefix(notation)));
    let ps = phrases_of_words(ws);
    lemma_phrases_of_words_lower(ws);
    lemma_join_phrases_lower(ps);
    let j = join_phrases(ps);
    if j.len() > 0 {
        let c = j[0];
        assert('a' <= c && c <= 'z');
        assert(capitalize(j)[0] == ((c as u32) - 32) as char);
    }
}


/// Whether `d` is a non-empty run of upper-case ASCII letters, as every shorthand code is.
pub open spec fn upper_letters(d: Seq<char>) -> bool {
    d.len() > 0 && forall|i: int| 0 <= i < d.len() ==> 'A' <= #[trigger] d[i] && d[i] <= 'Z'
}

/// Whether `d` ends with one of the position codes `AR`, `IM`, `IC` or `BC`.
pub open spec fn ends_with_position(d: Seq<char>) -> bool {
    ||| ends_with(d, seq!['A', 'R'])
    ||| ends_with(d, seq!['I', 'M'])
    ||| ends_with(d, seq!['I', 'C'])
    ||| ends_with(d, seq!['B', 'C'])
}

/// A run of upper-case letters is one word.
proof fn lemma_word_len_upper(t: Seq<char>)
    requires
        forall|i: int| 0 <= i < t.len() ==> 'A' <= #[trigger] t[i] && t[i] <= 'Z',
    ensures
        word_len(t) == t.len(),
    decreases t.len(),
{
    if t.len() > 0 {
        assert(!is_whitespace(t[0]));
        let r = t.drop_first();
        assert forall|i: int| 0 <= i < r.len() implies 'A' <= #[trigger] r[i] && r[i] <= 'Z' by {
            assert(r[i] == t[i + 1]);
        }
        lemma_word_len_upper(r);
    }
}

/// The sentence of one token of upper-case letters is made of that token's phrases.
proof fn lemma_english_single_token(t: Seq<char>)
    requires
        upper_letters(t),
    ensures
        english(t) == capitalize(join_phrases(token_phrases(t))),
{
    let w = seq!['W', 'I', 'R', 'E', '#'];
    assert(has_no_colon(t));
    lemma_no_grade_prefix(t);
    lemma_index_of_from_first(t, w, 0);
    if let Some(j) = index_of(t, w) {
        assert(t.subrange(j, j + 5)[4] == t[j + 4]);
    }
    assert(before_wire(t) == t);
    lemma_word_len_upper(t);
    assert(!is_whitespace(t[0]));
    assert(t.take(t.len() as int) =~= t);
    assert(t.skip(t.len() as int) =~= Seq::<char>::empty());
    assert(words(t) == seq![t] + words(Seq::<char>::empty()));
    assert(words(t) =~= seq![t]);
    let ws = seq![t];
    assert(ws.drop_last() =~= Seq::<Seq<char>>::empty());
    assert(ws.last() == t);
    assert(phrases_of_words(ws) == phrases_of_words(ws.drop_last()) + token_phrases(ws.last()));
    assert(phrases_of_words(ws.drop_last()) == Seq::<Seq<char>>::empty());
    assert(phrases_of_words(ws) =~= token_phrases(t));
}

/// The position code `pc` (one of the four) ending a token of upper-case letters `d + pc`
/// whose deviation `d` is known gives that deviation's phrase followed by the position's.
proof fn lemma_positioned_token(d: Seq<char>, k: int)
    requires
        upper_letters(d),
        lookup_deviation(d) is Some,
        0 <= k < POSITION_COUNT,
    ensures
        token_phrases(d + pos_code(k)) == seq![
            lookup_deviation(d)->0 + seq![' '] + pos_phrase(k),
        ],
{
    let t = d + pos_code(k);
    let pc = pos_code(k);
    assert(pc.len() == 2);
    assert(t[0] == d[0]);
    assert(trim_start_char(t, '_') == t);
    assert(t.subrange(t.len() - 2, t.len() as int) =~= pc);
    assert(t.take(t.len() - 2) =~= d);
    assert(d.last() == d[d.len() - 1]);
    assert(trim_end_char(d, '_') == d);
    reveal_strlit("");
    assert(""@ + lookup_deviation(d)->0 =~= lookup_deviation(d)->0);
    reveal_with_fuel(positioned_phrase, 5);
    assert(t[0] != '(');
    assert(paren_phrases(t) is None);
    assert(underscore_adverb(false) == ""@);
    let q = lookup_deviation(d)->0;
    assert(build_phrase(""@, q, pos_phrase(k)) =~= q + seq![' '] + pos_phrase(k)) by {
        reveal_strlit("at the ramp");
        reveal_strlit("in the middle");
        reveal_strlit("in close");
        reveal_strlit("at ball call");
    }
    if k == 0 {
        assert(positioned_phrase(t, false, 0) == Some(build_phrase(""@, lookup_deviation(d)->0, pos_phrase(0))));
    } else if k == 1 {
        assert(!ends_with(t, pos_code(0)));
        assert(positioned_phrase(t, false, 0) == Some(build_phrase(""@, lookup_deviation(d)->0, pos_phrase(1))));
    } else if k == 2 {
        assert(!ends_with(t, pos_code(0)));
        assert(!ends_with(t, pos_code(1)));
        assert(positioned_phrase(t, false, 0) == Some(build_phrase(""@, lookup_deviation(d)->0, pos_phrase(2))));
    } else {
        assert(!ends_with(t, pos_code(0)));
        assert(!ends_with(t, pos_code(1)));
        assert(!ends_with(t, pos_code(2)));
        assert(positioned_phrase(t, false, 0) == Some(build_phrase(""@, lookup_deviation(d)->0, pos_phrase(3))));
    }
}

/// A known deviation of upper-case letters that ends with no position code is its phrase.
proof fn lemma_bare_token(d: Seq<char>)
    requires
        upper_letters(d),
        lookup_deviation(d) is Some,
        !ends_with_position(d),
    ensures
        token_phrases(d) == seq![lookup_deviation(d)->0],
{
    assert(trim_start_char(d, '_') == d);
    assert(d.last() == d[d.len() - 1]);
    assert(trim_end_char(d, '_') == d);
    reveal_strlit("");
    reveal_with_fuel(positioned_phrase, 5);
    assert(positioned_phrase(d, false, 0) is None);
    assert(""@ + lookup_deviation(d)->0 =~= lookup_deviation(d)->0);
}

/// One position code appended to a known deviation appends its phrase to the sentence.
proof fn lemma_position_step(d: Seq<char>, k: int)
    requires
        upper_letters(d),
        lookup_deviation(d) is Some,
        !ends_with_position(d),
        0 <= k < POSITION_COUNT,
    ensures
        english(d + pos_code(k)) == english(d) + seq![' '] + pos_phrase(k),
{
    let p = lookup_deviation(d)->0;
    lemma_lookup_deviation_lower(d);
    lemma_bare_token(d);
    lemma_english_single_token(d);
    assert(join_phrases(seq![p]) == p);
    let t = d + pos_code(k);
    assert(pos_code(k).len() == 2);
    assert forall|i: int| 0 <= i < t.len() implies 'A' <= #[trigger] t[i] && t[i] <= 'Z' by {
        if i < d.len() {
            assert(t[i] == d[i]);
        }
    }
    lemma_positioned_token(d, k);
    lemma_english_single_token(t);
    let x = p + seq![' '] + pos_phrase(k);
    assert(join_phrases(seq![x]) == x);
    assert(capitalize(x) =~= capitalize(p) + seq![' '] + pos_phrase(k));
}

/// Each position code appends its own phrase to the sentence of a known deviation: `AR` "at
/// the ramp", `IM` "in the middle", `IC` "in close", `BC` "at ball call" (so `HIM` reads "High
/// in the middle"), and no two positions read alike.
pub proof fn lemma_position_appends_its_phrase(d: Seq<char>)
    requires
        upper_letters(d),
        lookup_deviation(d) is Some,
        !ends_with_position(d),
    ensures
        english(d + seq!['A', 'R']) == english(d) + " at the ramp"@,
        english(d + seq!['I', 'M']) == english(d) + " in the middle"@,
        english(d + seq!['I', 'C']) == english(d) + " in close"@,
        english(d + seq!['B', 'C']) == english(d) + " at ball call"@,
{
    assert(english(d + seq!['A', 'R']) == english(d) + " at the ramp"@) by {
        lemma_position_step(d, 0);
        reveal_strlit(" at the ramp");
        reveal_strlit("at the ramp");
        assert(pos_code(0) =~= seq!['A', 'R']);
        assert(seq![' '] + pos_phrase(0) =~= " at the ramp"@);
        assert(english(d) + seq![' '] + pos_phrase(0) =~= english(d) + " at the ramp"@);
    }
    assert(english(d + seq!['I', 'M']) == english(d) + " in the middle"@) by {
        lemma_position_step(d, 1);
        reveal_strlit(" in the middle");
        reveal_strlit("in the middle");
        assert(pos_code(1) =~= seq!['I', 'M']);
        assert(seq![' '] + pos_phrase(1) =~= " in the middle"@);
        assert(english(d) + seq![' '] + pos_phrase(1) =~= english(d) + " in the middle"@);
    }
    assert(english(d + seq!['I', 'C']) == english(d) + " in close"@) by {
        lemma_position_step(d, 2);
        reveal_strlit(" in close");
        reveal_strlit("in close");
        assert(pos_code(2) =~= seq!['I', 'C']);
        assert(seq![' '] + pos_phrase(2) =~= " in close"@);
        assert(english(d) + seq![' '] + pos_phrase(2) =~= english(d) + " in close"@);
    }
    assert(english(d + seq!['B', 'C']) == english(d) + " at ball call"@) by {
        lemma_position_step(d, 3);
        reveal_strlit(" at ball call");
        reveal_strlit("at ball call");
        assert(pos_code(3) =~= seq!['B', 'C']);
        assert(seq![' '] + pos_phrase(3) =~= " at ball call"@);
        assert(english(d) + seq![' '] + pos_phrase(3) =~= english(d) + " at ball call"@);
    }
}

} // verus!

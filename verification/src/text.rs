//! Character-level helpers shared by the text-processing modules.
use vstd::prelude::*;

verus! {

/// `char::is_whitespace`: the Unicode `White_Space` property.
pub open spec fn is_whitespace(c: char) -> bool {
    ||| ('\u{9}' <= c && c <= '\u{d}')
    ||| c == ' '
    ||| c == '\u{85}'
    ||| c == '\u{a0}'
    ||| c == '\u{1680}'
    ||| ('\u{2000}' <= c && c <= '\u{200a}')
    ||| c == '\u{2028}'
    ||| c == '\u{2029}'
    ||| c == '\u{202f}'
    ||| c == '\u{205f}'
    ||| c == '\u{3000}'
}

/// Executable form of `is_whitespace`.
pub fn char_is_whitespace(c: char) -> (b: bool)
    ensures
        b == is_whitespace(c),
{
    ('\u{9}' <= c && c <= '\u{d}') || c == ' ' || c == '\u{85}' || c == '\u{a0}' || c
        == '\u{1680}' || ('\u{2000}' <= c && c <= '\u{200a}') || c == '\u{2028}' || c
        == '\u{2029}' || c == '\u{202f}' || c == '\u{205f}' || c == '\u{3000}'
}

/// Whether `p` occurs in `h` starting at index `i`.
pub open spec fn occurs_at(h: Seq<char>, p: Seq<char>, i: int) -> bool {
    0 <= i && i + p.len() <= h.len() && h.subrange(i, i + p.len()) == p
}

/// The first index at or after `i` where `p` occurs in `h`.
pub open spec fn index_of_from(h: Seq<char>, p: Seq<char>, i: int) -> Option<int>
    decreases h.len() + 1 - i,
{
    if i < 0 || i + p.len() > h.len() {
        None
    } else if occurs_at(h, p, i) {
        Some(i)
    } else {
        index_of_from(h, p, i + 1)
    }
}

/// The first index where `p` occurs in `h` (`str::find`).
pub open spec fn index_of(h: Seq<char>, p: Seq<char>) -> Option<int> {
    index_of_from(h, p, 0)
}

/// A found occurrence is the first one from `i` on.
pub proof fn lemma_index_of_from_first(h: Seq<char>, p: Seq<char>, i: int)
    ensures
        index_of_from(h, p, i) matches Some(j) ==> i <= j && occurs_at(h, p, j) && forall|k: int|
            i <= k < j ==> !#[trigger] occurs_at(h, p, k),
    decreases h.len() + 1 - i,
{
    if !(i < 0 || i + p.len() > h.len()) && !occurs_at(h, p, i) {
        lemma_index_of_from_first(h, p, i + 1);
    }
}

/// An occurrence at `m`, with none between `i` and `m`, is the one found from `i`.
pub proof fn lemma_index_of_from_at(h: Seq<char>, p: Seq<char>, i: int, m: int)
    requires
        0 <= i <= m,
        occurs_at(h, p, m),
        forall|k: int| i <= k < m ==> !#[trigger] occurs_at(h, p, k),
    ensures
        index_of_from(h, p, i) == Some(m),
    decreases m - i,
{
    if i < m {
        lemma_index_of_from_at(h, p, i + 1, m);
    }
}

/// An occurrence anywhere from `i` on is found.
pub proof fn lemma_index_of_from_found(h: Seq<char>, p: Seq<char>, i: int, m: int)
    requires
        0 <= i <= m,
        occurs_at(h, p, m),
    ensures
        index_of_from(h, p, i) is Some,
    decreases m - i,
{
    if i < m && !occurs_at(h, p, i) {
        lemma_index_of_from_found(h, p, i + 1, m);
    }
}

/// Whether `p` occurs anywhere in `h` (`str::contains`).
pub open spec fn contains_seq(h: Seq<char>, p: Seq<char>) -> bool {
    index_of(h, p) is Some
}

/// `s` with every leading `c` removed (`trim_start_matches`).
pub open spec fn trim_start_char(s: Seq<char>, c: char) -> Seq<char>
    decreases s.len(),
{
    if s.len() > 0 && s[0] == c {
        trim_start_char(s.drop_first(), c)
    } else {
        s
    }
}

/// `s` with every trailing `c` removed (`trim_end_matches`).
pub open spec fn trim_end_char(s: Seq<char>, c: char) -> Seq<char>
    decreases s.len(),
{
    if s.len() > 0 && s.last() == c {
        trim_end_char(s.drop_last(), c)
    } else {
        s
    }
}

/// `s` without its leading and trailing `c` (`trim_matches`).
pub open spec fn trim_char(s: Seq<char>, c: char) -> Seq<char> {
    trim_end_char(trim_start_char(s, c), c)
}

/// Whether `s` ends with `p`.
pub open spec fn ends_with(s: Seq<char>, p: Seq<char>) -> bool {
    p.len() <= s.len() && s.subrange(s.len() - p.len(), s.len() as int) == p
}

/// Whether `s` starts with `p`.
pub open spec fn starts_with(s: Seq<char>, p: Seq<char>) -> bool {
    p.len() <= s.len() && s.subrange(0, p.len() as int) == p
}

/// `s` without leading whitespace (`trim_start`).
pub open spec fn trim_start_ws(s: Seq<char>) -> Seq<char>
    decreases s.len(),
{
    if s.len() > 0 && is_whitespace(s[0]) {
        trim_start_ws(s.drop_first())
    } else {
        s
    }
}

/// `s` without trailing whitespace (`trim_end`).
pub open spec fn trim_end_ws(s: Seq<char>) -> Seq<char>
    decreases s.len(),
{
    if s.len() > 0 && is_whitespace(s.last()) {
        trim_end_ws(s.drop_last())
    } else {
        s
    }
}

/// `s` without leading and trailing whitespace (`trim`).
pub open spec fn trim_ws(s: Seq<char>) -> Seq<char> {
    trim_end_ws(trim_start_ws(s))
}

/// The first index at or after `i` holding `x`.
pub open spec fn first_index_from<T>(s: Seq<T>, x: T, i: int) -> Option<int>
    decreases s.len() - i,
{
    if i < 0 || i >= s.len() {
        None
    } else if s[i] == x {
        Some(i)
    } else {
        first_index_from(s, x, i + 1)
    }
}

/// A found index is in range and holds `x`.
pub proof fn lemma_first_index_from<T>(s: Seq<T>, x: T, i: int)
    ensures
        first_index_from(s, x, i) matches Some(j) ==> i <= j < s.len() && s[j] == x,
    decreases s.len() - i,
{
    if 0 <= i < s.len() && s[i] != x {
        lemma_first_index_from(s, x, i + 1);
    }
}

/// Scanning from `i` to the first `x` at `j` (or the end) finds it at `j - i` in `s[i..]`.
pub proof fn lemma_first_index_scan<T>(s: Seq<T>, x: T, i: int, j: int)
    requires
        0 <= i <= j <= s.len(),
        forall|k: int| i <= k < j ==> #[trigger] s[k] != x,
        j < s.len() ==> s[j] == x,
    ensures
        first_index_from(s.skip(i), x, 0) == if j < s.len() {
            Some(j - i)
        } else {
            None::<int>
        },
    decreases j - i,
{
    let t = s.skip(i);
    lemma_first_index_shift(s, x, i, 0);
    if i < j {
        lemma_first_index_scan(s, x, i + 1, j);
        lemma_first_index_shift(s, x, i + 1, 0);
        lemma_first_index_shift(s, x, i, 1);
    }
}

/// Searching `s[i..]` from `k` is searching `s` from `i + k`, shifted.
pub proof fn lemma_first_index_shift<T>(s: Seq<T>, x: T, i: int, k: int)
    requires
        0 <= i <= s.len(),
        0 <= k,
    ensures
        first_index_from(s.skip(i), x, k) == match first_index_from(s, x, i + k) {
            Some(j) => Some(j - i),
            None => None::<int>,
        },
    decreases s.len() - i - k,
{
    if i + k < s.len() && s[i + k] != x {
        lemma_first_index_shift(s, x, i, k + 1);
    }
}

/// `s` split at every occurrence of `sep` (`split`): `n` separators give `n + 1` pieces.
pub open spec fn split_on<T>(s: Seq<T>, sep: T) -> Seq<Seq<T>>
    decreases s.len(),
{
    match first_index_from(s, sep, 0) {
        Some(i) => {
            proof {
                lemma_first_index_from(s, sep, 0);
            }
            seq![s.take(i)] + split_on(s.skip(i + 1), sep)
        },
        None => seq![s],
    }
}

/// The characters of `s`, in order.
pub fn chars_of(s: &str) -> (v: Vec<char>)
    ensures
        v@ == s@,
{
    let mut v: Vec<char> = Vec::new();
    for c in it: s.chars()
        invariant
            it.seq() == s@,
            v@ == it.seq().take(it.index() as int),
        ensures
            v@ == s@,
    {
        assert(it.seq().take(it.index() as int + 1) =~= v@.push(c));
        v.push(c);
    }
    v
}

/// Appends the characters of `s` to `out`.
pub fn push_str(out: &mut Vec<char>, s: &str)
    ensures
        final(out)@ == old(out)@ + s@,
{
    let ghost start = out@;
    for c in it: s.chars()
        invariant
            it.seq() == s@,
            out@ == start + it.seq().take(it.index() as int),
        ensures
            out@ == start + s@,
    {
        assert(start + it.seq().take(it.index() as int + 1) =~= out@.push(c));
        out.push(c);
    }
}

/// Appends `v[lo..hi]` to `out`.
pub fn push_range(out: &mut Vec<char>, v: &Vec<char>, lo: usize, hi: usize)
    requires
        lo <= hi <= v@.len(),
    ensures
        final(out)@ == old(out)@ + v@.subrange(lo as int, hi as int),
{
    let ghost start = out@;
    let mut i = lo;
    while i < hi
        invariant
            lo <= i <= hi <= v@.len(),
            out@ == start + v@.subrange(lo as int, i as int),
        decreases hi - i,
    {
        assert(start + v@.subrange(lo as int, i + 1) =~= out@.push(v[i as int]));
        out.push(v[i]);
        i += 1;
    }
}

/// A new vector holding `v[lo..hi]`.
pub fn copy_range(v: &Vec<char>, lo: usize, hi: usize) -> (r: Vec<char>)
    requires
        lo <= hi <= v@.len(),
    ensures
        r@ == v@.subrange(lo as int, hi as int),
{
    let mut r: Vec<char> = Vec::new();
    push_range(&mut r, v, lo, hi);
    assert(r@ =~= v@.subrange(lo as int, hi as int));
    r
}

/// Whether `p` occurs in `h` at index `i`.
pub fn matches_at(h: &Vec<char>, p: &Vec<char>, i: usize) -> (b: bool)
    ensures
        b == occurs_at(h@, p@, i as int),
{
    if i > h.len() || p.len() > h.len() - i {
        return false;
    }
    let hl = h.len();
    let mut k: usize = 0;
    while k < p.len()
        invariant
            hl == h@.len(),
            i + p@.len() <= h@.len(),
            k <= p@.len(),
            forall|j: int| 0 <= j < k ==> h@[i + j] == p@[j],
        decreases p@.len() - k,
    {
        if h[i + k] != p[k] {
            assert(h@.subrange(i as int, i + p@.len())[k as int] != p@[k as int]);
            return false;
        }
        k += 1;
    }
    assert(h@.subrange(i as int, i + p@.len()) =~= p@);
    true
}

/// The first index where `p` occurs in `h`.
pub fn find(h: &Vec<char>, p: &Vec<char>) -> (r: Option<usize>)
    ensures
        r is Some <==> index_of(h@, p@) is Some,
        r matches Some(i) ==> index_of(h@, p@) == Some(i as int) && occurs_at(h@, p@, i as int),
{
    let mut i: usize = 0;
    if p.len() > h.len() {
        return None;
    }
    let last = h.len() - p.len();
    while i <= last
        invariant
            last + p@.len() == h@.len(),
            i <= last,
            index_of(h@, p@) == index_of_from(h@, p@, i as int),
        decreases last - i,
    {
        if matches_at(h, p, i) {
            return Some(i);
        }
        if i == last {
            assert(index_of_from(h@, p@, last + 1) is None);
            return None;
        }
        i += 1;
    }
    None
}

/// Whether two character vectors are equal.
pub fn chars_eq(a: &Vec<char>, b: &Vec<char>) -> (r: bool)
    ensures
        r == (a@ == b@),
{
    if a.len() != b.len() {
        return false;
    }
    let r = matches_at(a, b, 0);
    proof {
        if a@ == b@ {
            assert(a@.subrange(0, b@.len() as int) =~= b@);
        }
        if r {
            assert(a@.subrange(0, b@.len() as int) =~= a@);
        }
    }
    r
}

/// Number of leading `c` in `v`; `trim_start_char(v, c)` is `v` without them.
pub fn count_leading(v: &Vec<char>, c: char) -> (n: usize)
    ensures
        n <= v@.len(),
        trim_start_char(v@, c) == v@.skip(n as int),
{
    let mut n: usize = 0;
    assert(v@.skip(0) =~= v@);
    while n < v.len() && v[n] == c
        invariant
            n <= v@.len(),
            trim_start_char(v@, c) == trim_start_char(v@.skip(n as int), c),
        decreases v@.len() - n,
    {
        assert(v@.skip(n as int).drop_first() =~= v@.skip(n + 1));
        n += 1;
    }
    n
}

/// Number of trailing `c` in `v[..hi]`; `trim_end_char(v[..hi], c)` is `v[..hi - n]`.
pub fn count_trailing(v: &Vec<char>, hi: usize, c: char) -> (n: usize)
    requires
        hi <= v@.len(),
    ensures
        n <= hi,
        trim_end_char(v@.take(hi as int), c) == v@.take(hi - n),
{
    let mut n: usize = 0;
    while n < hi && v[hi - n - 1] == c
        invariant
            n <= hi <= v@.len(),
            trim_end_char(v@.take(hi as int), c) == trim_end_char(v@.take(hi - n), c),
        decreases hi - n,
    {
        assert(v@.take(hi - n).drop_last() =~= v@.take(hi - n - 1));
        n += 1;
    }
    n
}

/// Number of leading whitespace characters of `v`; `trim_start_ws(v)` is `v` without them.
pub fn count_leading_ws(v: &Vec<char>) -> (n: usize)
    ensures
        n <= v@.len(),
        trim_start_ws(v@) == v@.skip(n as int),
{
    let mut n: usize = 0;
    assert(v@.skip(0) =~= v@);
    while n < v.len() && char_is_whitespace(v[n])
        invariant
            n <= v@.len(),
            trim_start_ws(v@) == trim_start_ws(v@.skip(n as int)),
        decreases v@.len() - n,
    {
        assert(v@.skip(n as int).drop_first() =~= v@.skip(n + 1));
        n += 1;
    }
    n
}

/// Number of trailing whitespace characters of `v`; `trim_end_ws(v)` is `v` without them.
pub fn count_trailing_ws(v: &Vec<char>) -> (n: usize)
    ensures
        n <= v@.len(),
        trim_end_ws(v@) == v@.take(v@.len() - n),
{
    let hi = v.len();
    let mut n: usize = 0;
    assert(v@.take(hi as int) =~= v@);
    while n < hi && char_is_whitespace(v[hi - n - 1])
        invariant
            n <= hi == v@.len(),
            trim_end_ws(v@) == trim_end_ws(v@.take(hi - n)),
        decreases hi - n,
    {
        assert(v@.take(hi - n).drop_last() =~= v@.take(hi - n - 1));
        n += 1;
    }
    n
}

/// `trim_ws(v)` as a new vector.
pub fn trimmed(v: &Vec<char>) -> (r: Vec<char>)
    ensures
        r@ == trim_ws(v@),
{
    let lead = count_leading_ws(v);
    let rest = copy_range(v, lead, v.len());
    assert(rest@ =~= v@.skip(lead as int));
    let trail = count_trailing_ws(&rest);
    let r = copy_range(&rest, 0, rest.len() - trail);
    assert(r@ =~= rest@.take(rest@.len() - trail));
    r
}

/// `trim_char(v, c)` as a new vector.
pub fn trimmed_char(v: &Vec<char>, c: char) -> (r: Vec<char>)
    ensures
        r@ == trim_char(v@, c),
{
    let lead = count_leading(v, c);
    let rest = copy_range(v, lead, v.len());
    assert(rest@ =~= v@.skip(lead as int));
    let trail = count_trailing(&rest, rest.len(), c);
    assert(rest@.take(rest@.len() as int) =~= rest@);
    let r = copy_range(&rest, 0, rest.len() - trail);
    assert(r@ =~= rest@.take(rest@.len() - trail));
    r
}

/// Whether two strings hold the same characters.
pub fn str_equals(a: &str, b: &str) -> (r: bool)
    ensures
        r == (a@ == b@),
{
    let x = chars_of(a);
    let y = chars_of(b);
    chars_eq(&x, &y)
}

/// `parts` joined with `sep` between each two (`join` over strings).
pub open spec fn joined(parts: Seq<Seq<char>>, sep: Seq<char>) -> Seq<char>
    decreases parts.len(),
{
    if parts.len() == 0 {
        Seq::empty()
    } else if parts.len() == 1 {
        parts[0]
    } else {
        joined(parts.drop_last(), sep) + sep + parts.last()
    }
}

/// The ASCII upper-case letter of a lower-case one.
pub open spec fn ascii_upper(c: char) -> char {
    ((c as u32) - 32) as char
}

/// `s` with its first character made ASCII upper case, when it is a lower-case ASCII letter.
pub open spec fn ascii_upper_first(s: Seq<char>) -> Seq<char> {
    if s.len() > 0 && 'a' <= s[0] && s[0] <= 'z' {
        s.update(0, ascii_upper(s[0]))
    } else {
        s
    }
}

/// The ASCII upper-case letter of the lower-case letter `c`.
pub fn to_ascii_upper(c: char) -> (r: char)
    requires
        'a' <= c <= 'z',
    ensures
        r == ascii_upper(c),
{
    let u: u32 = c as u32;
    let b: u8 = (u - 32) as u8;
    b as char
}

/// The strings of `parts` joined with `sep`, with the first character made ASCII upper case
/// when it is a lower-case ASCII letter; empty when `parts` is.
pub fn join_capitalized(parts: &Vec<String>, sep: &str) -> (s: String)
    ensures
        s@ == ascii_upper_first(joined(parts@.map_values(|p: String| p@), sep@)),
{
    let ghost views = parts@.map_values(|p: String| p@);
    let mut out: Vec<char> = Vec::new();
    let mut i: usize = 0;
    while i < parts.len()
        invariant
            i <= parts@.len(),
            views == parts@.map_values(|p: String| p@),
            out@ == joined(views.take(i as int), sep@),
        decreases parts@.len() - i,
    {
        assert(views.take(i + 1).drop_last() =~= views.take(i as int));
        if i > 0 {
            push_str(&mut out, sep);
        }
        push_str(&mut out, parts[i].as_str());
        assert(views.take(i + 1).last() == parts@[i as int]@);
        i += 1;
    }
    assert(views.take(parts@.len() as int) =~= views);
    if out.len() > 0 {
        let c = out[0];
        if 'a' <= c && c <= 'z' {
            let u = to_ascii_upper(c);
            out.set(0, u);
        }
    }
    string_from_chars(&out)
}

/// `String: FromIterator<char>` (`collect` over the characters of `v`): the string made of the
/// characters of `v`, in order.
#[verifier::external_body]
pub(crate) fn string_from_chars(v: &Vec<char>) -> (s: String)
    ensures
        s@ == v@,
{
    v.iter().collect()
}

} // verus!

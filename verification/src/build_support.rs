//! Helpers that read the output of `git` and `Cargo.lock` while building.
use vstd::prelude::*;
use vstd::utf8::{decode_utf8, valid_utf8};
use crate::text::{
    chars_eq, chars_of, copy_range, lemma_first_index_scan, matches_at, occurs_at, split_on,
    starts_with, string_from_chars, trim_char, trim_ws, trimmed, trimmed_char,
};

verus! {

/// `str::from_utf8`: the string slice that `bytes` encode, when they are valid UTF-8.
#[verifier::external_body]
fn utf8_str(bytes: &[u8]) -> (r: Option<&str>)
    ensures
        r is Some <==> valid_utf8(bytes@),
        r matches Some(s) ==> s@ == decode_utf8(bytes@),
{
    std::str::from_utf8(bytes).ok()
}

/// A backslash read as a forward slash.
pub open spec fn normalized_separator(c: char) -> char {
    if c == '\\' {
        '/'
    } else {
        c
    }
}

/// The build-output directory prefix.
pub open spec fn target_prefix() -> Seq<char> {
    seq!['t', 'a', 'r', 'g', 'e', 't', '/']
}

/// Whether `path`, with backslashes read as slashes, lies under `target/`.
pub open spec fn is_build_output(path: Seq<char>) -> bool {
    path.len() >= 7 && forall|k: int| 0 <= k < 7 ==> normalized_separator(path[k])
        == target_prefix()[k]
}

/// Whether a NUL-separated piece of `git ls-files -z` output is kept: non-empty, valid UTF-8
/// and not under `target/`.
pub open spec fn is_tracked_piece(piece: Seq<u8>) -> bool {
    piece.len() > 0 && valid_utf8(piece) && !is_build_output(decode_utf8(piece))
}

/// The decoded paths of the kept pieces, in order.
pub open spec fn kept_paths(pieces: Seq<Seq<u8>>) -> Seq<Seq<char>>
    decreases pieces.len(),
{
    if pieces.len() == 0 {
        Seq::empty()
    } else if is_tracked_piece(pieces.last()) {
        kept_paths(pieces.drop_last()).push(decode_utf8(pieces.last()))
    } else {
        kept_paths(pieces.drop_last())
    }
}

/// The paths named by `git ls-files -z` output: every non-empty, valid UTF-8 entry between NUL
/// bytes, except those under `target/`.
pub open spec fn spec_tracked_paths(output: Seq<u8>) -> Seq<Seq<char>> {
    kept_paths(split_on(output, 0u8))
}

/// Views of string slices.
pub open spec fn str_views(v: Seq<&str>) -> Seq<Seq<char>> {
    Seq::new(v.len(), |i: int| v[i]@)
}

fn is_build_output_path(path: &str) -> (b: bool)
    ensures
        b == is_build_output(path@),
{
    let chars = chars_of(path);
    if chars.len() < 7 {
        return false;
    }
    let prefix = vec!['t', 'a', 'r', 'g', 'e', 't', '/'];
    assert(prefix@ =~= target_prefix());
    let mut k: usize = 0;
    while k < 7
        invariant
            k <= 7,
            chars@ == path@,
            chars@.len() >= 7,
            prefix@ == target_prefix(),
            forall|q: int| 0 <= q < k ==> normalized_separator(chars@[q]) == target_prefix()[q],
        decreases 7 - k,
    {
        let c = chars[k];
        let n = if c == '\\' {
            '/'
        } else {
            c
        };
        if n != prefix[k] {
            return false;
        }
        k += 1;
    }
    true
}

/// Splitting after a piece that ends at the first separator.
proof fn lemma_split_step<T>(s: Seq<T>, sep: T, start: int, end: int)
    requires
        0 <= start <= end <= s.len(),
        forall|k: int| start <= k < end ==> #[trigger] s[k] != sep,
        end < s.len() ==> s[end] == sep,
    ensures
        end < s.len() ==> split_on(s.skip(start), sep) == seq![s.subrange(start, end)]
            + split_on(s.skip(end + 1), sep),
        end == s.len() ==> split_on(s.skip(start), sep) == seq![s.subrange(start, end)],
{
    lemma_first_index_scan(s, sep, start, end);
    let t = s.skip(start);
    assert(t.take(end - start) =~= s.subrange(start, end));
    if end < s.len() {
        assert(t.skip(end - start + 1) =~= s.skip(end + 1));
    } else {
        assert(t =~= s.subrange(start, end));
    }
}

/// `kept_paths` over a concatenation.
proof fn lemma_kept_paths_push(done: Seq<Seq<u8>>, piece: Seq<u8>)
    ensures
        kept_paths(done.push(piece)) == if is_tracked_piece(piece) {
            kept_paths(done).push(decode_utf8(piece))
        } else {
            kept_paths(done)
        },
{
    assert(done.push(piece).drop_last() =~= done);
}

/// The paths listed by NUL-separated `git ls-files -z` output, skipping empty entries, entries
/// that are not valid UTF-8 and build output under `target/` (whichever slash it is written
/// with).
pub fn tracked_paths(output: &[u8]) -> (r: Vec<&str>)
    ensures
        str_views(r@) == spec_tracked_paths(output@),
{
    let n = output.len();
    let mut r: Vec<&str> = Vec::new();
    let ghost mut done: Seq<Seq<u8>> = Seq::empty();
    let mut start: usize = 0;
    assert(output@.skip(0) =~= output@);
    loop
        invariant
            n == output@.len(),
            start <= n,
            split_on(output@, 0u8) == done + split_on(output@.skip(start as int), 0u8),
            str_views(r@) == kept_paths(done),
        decreases n - start,
    {
        let mut end = start;
        while end < n && output[end] != 0
            invariant
                start <= end <= n == output@.len(),
                forall|k: int| start <= k < end ==> #[trigger] output@[k] != 0u8,
            decreases n - end,
        {
            end += 1;
        }
        proof {
            lemma_split_step(output@, 0u8, start as int, end as int);
        }
        let piece = vstd::slice::slice_subrange(output, start, end);
        let ghost piece_view = output@.subrange(start as int, end as int);
        if end > start {
            match utf8_str(piece) {
                Some(path) => {
                    if !is_build_output_path(path) {
                        r.push(path);
                    }
                },
                None => {},
            }
        }
        proof {
            lemma_kept_paths_push(done, piece_view);
            assert(str_views(r@) =~= kept_paths(done.push(piece_view)));
            done = done.push(piece_view);
        }
        if end == n {
            assert(split_on(output@, 0u8) =~= done);
            return r;
        }
        start = end + 1;
        proof {
            assert(split_on(output@, 0u8) =~= done + split_on(output@.skip(start as int), 0u8));
        }
    }
}

/// `u8::is_ascii_whitespace`: space, tab, line feed, form feed or carriage return.
pub open spec fn is_ascii_whitespace_byte(b: u8) -> bool {
    b == 0x20u8 || b == 0x09u8 || b == 0x0Au8 || b == 0x0Cu8 || b == 0x0Du8
}

/// Whether `git status --porcelain` output reports any change: some byte that is not ASCII
/// whitespace.
pub fn tracked_status_is_dirty(output: &[u8]) -> (dirty: bool)
    ensures
        dirty == exists|i: int| 0 <= i < output@.len() && !is_ascii_whitespace_byte(#[trigger] output@[i]),
{
    let mut i: usize = 0;
    while i < output.len()
        invariant
            i <= output@.len(),
            forall|k: int| 0 <= k < i ==> is_ascii_whitespace_byte(#[trigger] output@[k]),
        decreases output@.len() - i,
    {
        let b = output[i];
        if !(b == 0x20 || b == 0x09 || b == 0x0A || b == 0x0C || b == 0x0D) {
            return true;
        }
        i += 1;
    }
    false
}

/// The `[[package]]` table header of `Cargo.lock`.
pub open spec fn package_header() -> Seq<char> {
    seq!['[', '[', 'p', 'a', 'c', 'k', 'a', 'g', 'e', ']', ']']
}

/// The `name = ` key prefix.
pub open spec fn name_key() -> Seq<char> {
    seq!['n', 'a', 'm', 'e', ' ', '=', ' ']
}

/// The `version = ` key prefix.
pub open spec fn version_key() -> Seq<char> {
    seq!['v', 'e', 'r', 's', 'i', 'o', 'n', ' ', '=', ' ']
}

/// The package name of the DCS-gRPC stubs.
pub open spec fn stubs_package() -> Seq<char> {
    seq!['d', 'c', 's', '-', 'g', 'r', 'p', 'c', '-', 's', 't', 'u', 'b', 's']
}

/// Scans lock-file lines, `in_stubs` telling whether the current package is the stubs package,
/// for the first `version = ` line of that package.
pub open spec fn lock_scan(lines: Seq<Seq<char>>, in_stubs: bool) -> Option<Seq<char>>
    decreases lines.len(),
{
    if lines.len() == 0 {
        None
    } else {
        let line = trim_ws(lines[0]);
        let rest = lines.drop_first();
        if line == package_header() {
            lock_scan(rest, false)
        } else if starts_with(line, name_key()) {
            lock_scan(rest, trim_char(line.skip(7), '"') == stubs_package())
        } else if in_stubs && starts_with(line, version_key()) {
            Some(trim_char(line.skip(10), '"'))
        } else {
            lock_scan(rest, in_stubs)
        }
    }
}

/// The version recorded in `Cargo.lock` for the `dcs-grpc-stubs` package: the value (quotes
/// removed) of the first `version = ` line after a `name = "dcs-grpc-stubs"` line and before
/// the next `[[package]]` header; lines are compared with surrounding whitespace trimmed.
pub open spec fn spec_stubs_version(lock: Seq<char>) -> Option<Seq<char>> {
    lock_scan(split_on(lock, '\n'), false)
}

/// Whether `v` starts with `p`.
fn has_prefix(v: &Vec<char>, p: &Vec<char>) -> (b: bool)
    ensures
        b == starts_with(v@, p@),
{
    let b = matches_at(v, p, 0);
    proof {
        if p@.len() <= v@.len() {
            assert(v@.subrange(0, p@.len() as int) == v@.subrange(0, 0 + p@.len() as int));
        }
    }
    b
}

/// `lock_scan` over lines given as a first line and the rest.
proof fn lemma_lock_scan_cons(line: Seq<char>, rest: Seq<Seq<char>>, in_stubs: bool)
    ensures
        lock_scan(seq![line] + rest, in_stubs) == {
            let t = trim_ws(line);
            if t == package_header() {
                lock_scan(rest, false)
            } else if starts_with(t, name_key()) {
                lock_scan(rest, trim_char(t.skip(7), '"') == stubs_package())
            } else if in_stubs && starts_with(t, version_key()) {
                Some(trim_char(t.skip(10), '"'))
            } else {
                lock_scan(rest, in_stubs)
            }
        },
{
    assert((seq![line] + rest).drop_first() =~= rest);
}

/// The version that `Cargo.lock` records for the `dcs-grpc-stubs` dependency, if any. The lock
/// file is the only place that records the exact version behind a Git tag pin.
pub fn stubs_version_from_lock(lock: &str) -> (r: Option<String>)
    ensures
        r is Some <==> spec_stubs_version(lock@) is Some,
        r matches Some(v) ==> spec_stubs_version(lock@) == Some(v@),
{
    let chars = chars_of(lock);
    let n = chars.len();
    let header = vec!['[', '[', 'p', 'a', 'c', 'k', 'a', 'g', 'e', ']', ']'];
    let name_prefix = vec!['n', 'a', 'm', 'e', ' ', '=', ' '];
    let version_prefix = vec!['v', 'e', 'r', 's', 'i', 'o', 'n', ' ', '=', ' '];
    let stubs = vec!['d', 'c', 's', '-', 'g', 'r', 'p', 'c', '-', 's', 't', 'u', 'b', 's'];
    assert(header@ =~= package_header());
    assert(name_prefix@ =~= name_key());
    assert(version_prefix@ =~= version_key());
    assert(stubs@ =~= stubs_package());
    let mut in_stubs = false;
    let mut start: usize = 0;
    assert(chars@.skip(0) =~= chars@);
    loop
        invariant
            n == chars@.len(),
            chars@ == lock@,
            start <= n,
            header@ == package_header(),
            name_prefix@ == name_key(),
            version_prefix@ == version_key(),
            stubs@ == stubs_package(),
            spec_stubs_version(lock@) == lock_scan(split_on(chars@.skip(start as int), '\n'), in_stubs),
        decreases n - start,
    {
        let mut end = start;
        while end < n && chars[end] != '\n'
            invariant
                start <= end <= n == chars@.len(),
                forall|k: int| start <= k < end ==> #[trigger] chars@[k] != '\n',
            decreases n - end,
        {
            end += 1;
        }
        proof {
            lemma_split_step(chars@, '\n', start as int, end as int);
        }
        let raw = copy_range(&chars, start, end);
        let line = trimmed(&raw);
        let ghost rest_lines = if end < n {
            split_on(chars@.skip(end + 1), '\n')
        } else {
            Seq::<Seq<char>>::empty()
        };
        proof {
            assert(split_on(chars@.skip(start as int), '\n') =~= seq![raw@] + rest_lines);
            lemma_lock_scan_cons(raw@, rest_lines, in_stubs);
        }
        if chars_eq(&line, &header) {
            in_stubs = false;
        } else if has_prefix(&line, &name_prefix) {
            let value = copy_range(&line, 7, line.len());
            assert(value@ =~= line@.skip(7));
            let name = trimmed_char(&value, '"');
            in_stubs = chars_eq(&name, &stubs);
        } else if in_stubs && has_prefix(&line, &version_prefix) {
            let value = copy_range(&line, 10, line.len());
            assert(value@ =~= line@.skip(10));
            let version = trimmed_char(&value, '"');
            return Some(string_from_chars(&version));
        }
        if end == n {
            return None;
        }
        start = end + 1;
    }
}

} // verus!

//! The grep preview's highlighting: every match of the query in the text
//! `bat` coloured is wrapped in a background colour, yellow where it matches
//! the query up to ASCII case, cyan where it matches only with Unicode case
//! folding. The matching itself is the regex crate's.
use vstd::prelude::*;

use regex::Regex;

use crate::text::{append_str, chars_of, lines, lines_of, string_from_chars, views_of};

verus! {

/// What `Regex::new(pattern)` and then `find_iter(line)` give: the byte
/// ranges `(start, end)` of the successive matches in `line`, or `None` when
/// the pattern does not compile.
pub uninterp spec fn spec_regex_find(pattern: Seq<char>, line: Seq<char>) -> Option<Seq<(usize, usize)>>;

/// The characters that `regex::escape` escapes (regex-syntax's
/// `is_meta_character`).
pub open spec fn is_regex_meta(c: char) -> bool {
    c == '\\' || c == '.' || c == '+' || c == '*' || c == '?' || c == '(' || c == ')' || c == '|' || c == '['
        || c == ']' || c == '{' || c == '}' || c == '^' || c == '$' || c == '#' || c == '&' || c == '-'
        || c == '~'
}

/// What `regex::escape` gives: the text with a backslash put before every
/// regular expression meta character.
pub open spec fn spec_regex_escape(text: Seq<char>) -> Seq<char>
    decreases text.len(),
{
    if text.len() == 0 {
        Seq::empty()
    } else {
        let c = text.last();
        let esc = if is_regex_meta(c) {
            seq!['\\', c]
        } else {
            seq![c]
        };
        spec_regex_escape(text.drop_last()) + esc
    }
}

/// What `String::from_utf8_lossy` gives: the bytes decoded as UTF-8, with
/// each invalid sequence replaced by U+FFFD.
pub uninterp spec fn spec_utf8_lossy(bytes: Seq<u8>) -> Seq<char>;

/// Whether byte ranges lie in a text of `n` bytes, each ending where or
/// after it starts and starting where or after the one before ends.
pub open spec fn ranges_ok(r: Seq<(usize, usize)>, n: int) -> bool {
    &&& forall|i: int| 0 <= i < r.len() ==> (#[trigger] r[i]).0 <= r[i].1 <= n
    &&& forall|i: int| 0 < i < r.len() ==> r[i - 1].1 <= (#[trigger] r[i]).0
}

/// `regex::escape`. Trusted: the result is the text with a backslash put
/// before each meta character.
#[verifier::external_body]
fn regex_escape(text: &str) -> (r: String)
    ensures
        r@ == spec_regex_escape(text@),
{
    regex::escape(text)
}

/// `Regex::new(pattern)` followed by `Regex::find_iter(line)`, each match
/// taken as its byte range. Trusted: the result is named by the pattern and
/// the line; whether it is `None` (the pattern does not compile) does not
/// depend on the line; the ranges are the successive non-overlapping matches
/// of the documentation (`start <= end`, inside the line, each after the one
/// before).
#[verifier::external_body]
fn regex_find(pattern: &str, line: &str) -> (r: Option<Vec<(usize, usize)>>)
    ensures
        match r {
            Some(v) => spec_regex_find(pattern@, line@) == Some(v@) && ranges_ok(v@, crate::text::utf8_of(line@).len() as int),
            None => spec_regex_find(pattern@, line@) is None,
        },
        r is None <==> spec_regex_find(pattern@, Seq::empty()) is None,
{
    let re = Regex::new(pattern).ok()?;
    Some(re.find_iter(line).map(|m| (m.start(), m.end())).collect())
}

/// `String::from_utf8_lossy`. Trusted: the result is the lossy decoding.
#[verifier::external_body]
fn utf8_lossy(bytes: &[u8]) -> (r: String)
    ensures
        r@ == spec_utf8_lossy(bytes@),
{
    String::from_utf8_lossy(bytes).into_owned()
}

pub open spec fn ascii_lower(b: u8) -> u8 {
    if 65 <= b <= 90 {
        (b + 32) as u8
    } else {
        b
    }
}

/// `eq_ignore_ascii_case` of byte strings: same length, and the same bytes
/// once ASCII letters are lowercased.
pub open spec fn eq_ignore_ascii_case(a: Seq<u8>, b: Seq<u8>) -> bool {
    a.len() == b.len() && forall|i: int| 0 <= i < a.len() ==> ascii_lower(#[trigger] a[i]) == ascii_lower(b[i])
}

fn bytes_eq_ignore_ascii_case(a: &[u8], b: &[u8]) -> (r: bool)
    ensures
        r == eq_ignore_ascii_case(a@, b@),
{
    if a.len() != b.len() {
        return false;
    }
    let mut i: usize = 0;
    while i < a.len()
        invariant
            i <= a@.len(),
            a@.len() == b@.len(),
            forall|j: int| 0 <= j < i ==> ascii_lower(#[trigger] a@[j]) == ascii_lower(b@[j]),
        decreases a.len() - i,
    {
        let x = if 65 <= a[i] && a[i] <= 90 {
            a[i] + 32
        } else {
            a[i]
        };
        let y = if 65 <= b[i] && b[i] <= 90 {
            b[i] + 32
        } else {
            b[i]
        };
        if x != y {
            return false;
        }
        i = i + 1;
    }
    true
}

/// `ESC [ 1 ; 4 3 m`: bold on a yellow background.
pub open spec fn exact_code() -> Seq<u8> {
    seq![27u8, 91u8, 49u8, 59u8, 52u8, 51u8, 109u8]
}

/// `ESC [ 1 ; 4 6 m`: bold on a cyan background.
pub open spec fn folded_code() -> Seq<u8> {
    seq![27u8, 91u8, 49u8, 59u8, 52u8, 54u8, 109u8]
}

/// `ESC [ 0 m`: back to plain.
pub open spec fn reset_code() -> Seq<u8> {
    seq![27u8, 91u8, 48u8, 109u8]
}

/// A match `m` as highlighted: in the exact colour when it is the query up
/// to ASCII case, in the folded colour otherwise, then plain again.
pub open spec fn marked(m: Seq<u8>, query: Seq<u8>) -> Seq<u8> {
    (if eq_ignore_ascii_case(m, query) {
        exact_code()
    } else {
        folded_code()
    }) + m + reset_code()
}

pub open spec fn end_of(r: Seq<(usize, usize)>, n: int) -> int {
    if n == 0 {
        0
    } else {
        r[n - 1].1 as int
    }
}

/// The line up to the end of its `n`-th match, with the first `n` matches
/// highlighted.
pub open spec fn highlighted_upto(line: Seq<u8>, r: Seq<(usize, usize)>, n: int, query: Seq<u8>) -> Seq<u8>
    decreases n,
{
    if n <= 0 {
        Seq::empty()
    } else {
        highlighted_upto(line, r, n - 1, query) + line.subrange(end_of(r, n - 1), r[n - 1].0 as int) + marked(
            line.subrange(r[n - 1].0 as int, r[n - 1].1 as int),
            query,
        )
    }
}

/// The line with the matches at the ranges `r` highlighted.
pub open spec fn highlighted_line(line: Seq<u8>, r: Seq<(usize, usize)>, query: Seq<u8>) -> Seq<u8> {
    highlighted_upto(line, r, r.len() as int, query) + line.subrange(end_of(r, r.len() as int), line.len() as int)
}

fn push_range(out: &mut Vec<u8>, src: &[u8], from: usize, to: usize)
    requires
        from <= to <= src@.len(),
    ensures
        final(out)@ == old(out)@ + src@.subrange(from as int, to as int),
{
    let ghost start = out@;
    let mut i = from;
    while i < to
        invariant
            from <= i <= to,
            to <= src@.len(),
            out@ == start + src@.subrange(from as int, i as int),
        decreases to - i,
    {
        out.push(src[i]);
        i = i + 1;
        assert(src@.subrange(from as int, i as int) =~= src@.subrange(from as int, i - 1).push(src@[i - 1]));
    }
}

fn push_code(out: &mut Vec<u8>, exact: bool)
    ensures
        final(out)@ == old(out)@ + if exact {
            exact_code()
        } else {
            folded_code()
        },
{
    let ghost start = out@;
    out.push(27u8);
    out.push(91u8);
    out.push(49u8);
    out.push(59u8);
    out.push(52u8);
    if exact {
        out.push(51u8);
    } else {
        out.push(54u8);
    }
    out.push(109u8);
    assert(out@ =~= start + if exact {
        exact_code()
    } else {
        folded_code()
    });
}

fn push_reset(out: &mut Vec<u8>)
    ensures
        final(out)@ == old(out)@ + reset_code(),
{
    let ghost start = out@;
    out.push(27u8);
    out.push(91u8);
    out.push(48u8);
    out.push(109u8);
    assert(out@ =~= start + reset_code());
}

/// The line `line` with the matches at the byte ranges `ranges` highlighted
/// against the query `query` (see `highlighted_line`).
pub fn highlight_line(line: &[u8], ranges: &Vec<(usize, usize)>, query: &[u8]) -> (r: Vec<u8>)
    requires
        ranges_ok(ranges@, line@.len() as int),
    ensures
        r@ == highlighted_line(line@, ranges@, query@),
{
    let mut out: Vec<u8> = Vec::new();
    let mut last_end: usize = 0;
    let mut k: usize = 0;
    while k < ranges.len()
        invariant
            k <= ranges@.len(),
            ranges_ok(ranges@, line@.len() as int),
            last_end == end_of(ranges@, k as int),
            last_end <= line@.len(),
            out@ == highlighted_upto(line@, ranges@, k as int, query@),
        decreases ranges.len() - k,
    {
        let (s, e) = ranges[k];
        assert(k > 0 ==> ranges@[k - 1].1 <= ranges@[k as int].0);
        push_range(&mut out, line, last_end, s);
        let mut m: Vec<u8> = Vec::new();
        push_range(&mut m, line, s, e);
        let exact = bytes_eq_ignore_ascii_case(m.as_slice(), query);
        push_code(&mut out, exact);
        push_range(&mut out, line, s, e);
        push_reset(&mut out);
        proof {
            assert(m@ =~= line@.subrange(s as int, e as int));
            assert(out@ =~= highlighted_upto(line@, ranges@, k + 1, query@));
        }
        last_end = e;
        k = k + 1;
    }
    let n = line.len();
    push_range(&mut out, line, last_end, n);
    out
}

/// The bytes of the lines of `text`, each highlighted at the ranges `rs`
/// (one list of ranges per line) and ended by a line feed.
pub open spec fn highlighted_text(ls: Seq<Seq<char>>, rs: Seq<Seq<(usize, usize)>>, query: Seq<u8>) -> Seq<u8>
    decreases ls.len(),
{
    if ls.len() == 0 || rs.len() != ls.len() {
        Seq::empty()
    } else {
        highlighted_text(ls.drop_last(), rs.drop_last(), query) + highlighted_line(
            crate::text::utf8_of(ls.last()),
            rs.last(),
            query,
        ) + seq![10u8]
    }
}

/// The output of `bat`, `ansi_bytes`, with the matches of `query` (without
/// regard to case) highlighted: unchanged for an empty query or a pattern
/// that does not compile; otherwise every line of the lossy decoding, each
/// highlighted at the ranges of the matches the regex crate finds there and
/// ended by a line feed.
pub fn highlight_matches(ansi_bytes: &[u8], query: &str) -> (r: Vec<u8>)
    ensures
        query@.len() == 0 ==> r@ == ansi_bytes@,
        query@.len() > 0 ==> {
            let pattern = "(?i)"@ + spec_regex_escape(query@);
            let ls = lines(spec_utf8_lossy(ansi_bytes@));
            if spec_regex_find(pattern, Seq::empty()) is None {
                r@ == ansi_bytes@
            } else {
                exists|rs: Seq<Seq<(usize, usize)>>|
                    rs.len() == ls.len() && (forall|i: int| 0 <= i < ls.len() ==> spec_regex_find(pattern, #[trigger] ls[i]) == Some(rs[i]))
                        && r@ == highlighted_text(ls, rs, crate::text::utf8_of(query@))
            }
        },
{
    if query.is_empty() {
        return crate::text::bytes_of(ansi_bytes);
    }
    let mut p: Vec<char> = Vec::new();
    append_str(&mut p, "(?i)");
    let escaped = regex_escape(query);
    append_str(&mut p, escaped.as_str());
    let pattern = string_from_chars(p.as_slice());
    let probe = regex_find(pattern.as_str(), "");
    proof {
        reveal_strlit("");
        assert(""@ =~= Seq::<char>::empty());
    }
    if probe.is_none() {
        return crate::text::bytes_of(ansi_bytes);
    }
    let content = utf8_lossy(ansi_bytes);
    let ls = lines_of(chars_of(content.as_str()).as_slice());
    let qb = query.as_bytes();
    let ghost lv = views_of(ls@);
    let ghost mut rs: Seq<Seq<(usize, usize)>> = Seq::empty();
    let mut out: Vec<u8> = Vec::new();
    let mut i: usize = 0;
    while i < ls.len()
        invariant
            i <= ls@.len(),
            lv == views_of(ls@),
            lv == lines(spec_utf8_lossy(ansi_bytes@)),
            spec_regex_find(pattern@, Seq::empty()) is Some,
            pattern@ == "(?i)"@ + spec_regex_escape(query@),
            qb@ == crate::text::utf8_of(query@),
            rs.len() == i,
            forall|j: int| 0 <= j < i ==> spec_regex_find(pattern@, #[trigger] lv[j]) == Some(rs[j]),
            out@ == highlighted_text(lv.take(i as int), rs, crate::text::utf8_of(query@)),
        decreases ls.len() - i,
    {
        let line = string_from_chars(ls[i].as_slice());
        assert(lv[i as int] == line@);
        let found = regex_find(pattern.as_str(), line.as_str());
        let ranges = match found {
            Some(v) => v,
            None => {
                assert(false);
                Vec::new()
            },
        };
        let lb = line.as_str().as_bytes();
        assert(lb@ == crate::text::utf8_of(line@));
        let h = highlight_line(lb, &ranges, qb);
        let ghost o0 = out@;
        let mut h = h;
        out.append(&mut h);
        out.push(10u8);
        proof {
            let rs2 = rs.push(ranges@);
            assert(lv.take(i + 1).drop_last() =~= lv.take(i as int));
            assert(rs2.drop_last() =~= rs);
            assert(lv.take(i + 1).last() == line@);
            rs = rs2;
        }
        i = i + 1;
    }
    assert(lv.take(ls@.len() as int) =~= lv);
    out
}

} // verus!

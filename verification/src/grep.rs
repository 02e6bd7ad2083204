//! The content search: the ripgrep command line for a query, and the parse
//! of ripgrep's output (`--vimgrep` lines or `--json` events) into matches.
use vstd::prelude::*;

use crate::config::{strings_view, Config};
use crate::json::{
    as_str, as_u64, get, json_get, json_get_opt, json_str, json_u64, parse_json,
    spec_parse_json, Json,
};
use crate::text::{
    chars_of, find_char_from, first_index, lemma_first_index, lines, lines_from, lines_of, strip_cr, parse_u32,
    parse_u32_spec, string_from_chars, sub_chars, trim_end, trim_end_chars, views_of,
};

verus! {

/// One line that matched: the file, the line number and the line's text.
pub struct GrepMatch {
    pub file_path: String,
    pub line_number: u32,
    pub match_text: String,
}

impl View for GrepMatch {
    type V = (Seq<char>, u32, Seq<char>);

    open spec fn view(&self) -> (Seq<char>, u32, Seq<char>) {
        (self.file_path@, self.line_number, self.match_text@)
    }
}

impl Clone for GrepMatch {
    fn clone(&self) -> (r: Self)
        ensures
            r == *self,
    {
        GrepMatch {
            file_path: self.file_path.clone(),
            line_number: self.line_number,
            match_text: self.match_text.clone(),
        }
    }
}

pub open spec fn matches_view(v: Seq<GrepMatch>) -> Seq<(Seq<char>, u32, Seq<char>)> {
    v.map_values(|m: GrepMatch| m@)
}

// ---------------------------------------------------------------------------
// --vimgrep output
// ---------------------------------------------------------------------------

/// A line number as `str::parse` reads it, 0 when it does not.
pub open spec fn number_or_zero(s: Seq<char>) -> u32 {
    match parse_u32_spec(s) {
        Some(n) => n,
        None => 0,
    }
}

/// The match a `--vimgrep` line (`file:line:column:text`) stands for: the
/// line split at its first three colons (`splitn(4, ':')`); a line with
/// fewer than three colons stands for none.
pub open spec fn vimgrep_entry(line: Seq<char>) -> Option<(Seq<char>, u32, Seq<char>)> {
    let a = first_index(line, ':');
    if a < 0 {
        None
    } else {
        let r1 = line.skip(a + 1);
        let b = first_index(r1, ':');
        if b < 0 {
            None
        } else {
            let r2 = r1.skip(b + 1);
            let c = first_index(r2, ':');
            if c < 0 {
                None
            } else {
                Some((line.take(a), number_or_zero(r1.take(b)), r2.skip(c + 1)))
            }
        }
    }
}

/// Whether `s` holds no colon.
pub open spec fn no_colon(s: Seq<char>) -> bool {
    forall|i: int| 0 <= i < s.len() ==> #[trigger] s[i] != ':'
}

proof fn lemma_first_colon(a: Seq<char>, b: Seq<char>)
    requires
        no_colon(a),
    ensures
        first_index(a + seq![':'] + b, ':') == a.len(),
        (a + seq![':'] + b).take(a.len() as int) == a,
        (a + seq![':'] + b).skip(a.len() as int + 1) == b,
{
    let s = a + seq![':'] + b;
    lemma_first_index(s, ':');
    let p = first_index(s, ':');
    assert(s[a.len() as int] == ':');
    if p >= 0 && p < a.len() {
        assert(s[p] == a[p]);
    }
    assert(s.take(a.len() as int) =~= a);
    assert(s.skip(a.len() as int + 1) =~= b);
}

proof fn lemma_no_colon_found(a: Seq<char>)
    requires
        no_colon(a),
    ensures
        first_index(a, ':') < 0,
{
    lemma_first_index(a, ':');
}

/// A `--vimgrep` line `file:line:column:text`, whose first three fields hold
/// no colon, is the match in `file` at line `line` (0 when it is not a
/// number) with the text `text`, colons in it kept; a line with fewer than
/// three colons is no match.
pub proof fn law_vimgrep_line_fields(f: Seq<char>, n: Seq<char>, c: Seq<char>, t: Seq<char>)
    requires
        no_colon(f),
        no_colon(n),
        no_colon(c),
    ensures
        vimgrep_entry(f + seq![':'] + n + seq![':'] + c + seq![':'] + t) == Some((f, number_or_zero(n), t)),
        no_colon(t) ==> vimgrep_entry(t) is None,
        no_colon(t) ==> vimgrep_entry(f + seq![':'] + t) is None,
        no_colon(t) ==> vimgrep_entry(f + seq![':'] + n + seq![':'] + t) is None,
{
    let p = seq![':'];
    let r2 = c + p + t;
    let r1 = n + p + r2;
    let line = f + p + r1;
    assert(f + p + n + p + c + p + t =~= line);
    lemma_first_colon(f, r1);
    lemma_first_colon(n, r2);
    lemma_first_colon(c, t);
    if no_colon(t) {
        lemma_no_colon_found(t);
        assert(f + p + t =~= f + p + t);
        lemma_first_colon(f, t);
        lemma_first_colon(f, n + p + t);
        lemma_first_colon(n, t);
        assert(f + p + n + p + t =~= f + p + (n + p + t));
    }
}

/// The matches of a run of `--vimgrep` lines, in order.
pub open spec fn vimgrep_matches(ls: Seq<Seq<char>>) -> Seq<(Seq<char>, u32, Seq<char>)>
    decreases ls.len(),
{
    if ls.len() == 0 {
        Seq::empty()
    } else {
        let prev = vimgrep_matches(ls.drop_last());
        match vimgrep_entry(ls.last()) {
            Some(e) => prev.push(e),
            None => prev,
        }
    }
}

proof fn lemma_vimgrep_concat(x: Seq<Seq<char>>, y: Seq<Seq<char>>)
    ensures
        vimgrep_matches(x + y) == vimgrep_matches(x) + vimgrep_matches(y),
    decreases y.len(),
{
    if y.len() == 0 {
        assert(x + y =~= x);
        assert(vimgrep_matches(x) + vimgrep_matches(y) =~= vimgrep_matches(x));
    } else {
        assert((x + y).drop_last() =~= x + y.drop_last());
        assert((x + y).last() == y.last());
        lemma_vimgrep_concat(x, y.drop_last());
        match vimgrep_entry(y.last()) {
            Some(e) => {
                assert((vimgrep_matches(x) + vimgrep_matches(y.drop_last())).push(e) =~= vimgrep_matches(x)
                    + vimgrep_matches(y.drop_last()).push(e));
            },
            None => {},
        }
    }
}

proof fn lemma_vimgrep_one(l: Seq<char>)
    ensures
        vimgrep_matches(seq![l]) == match vimgrep_entry(l) {
            Some(e) => seq![e],
            None => Seq::empty(),
        },
{
    assert(seq![l].drop_last() =~= Seq::<Seq<char>>::empty());
    assert(seq![l].last() == l);
    assert(vimgrep_matches(Seq::<Seq<char>>::empty()) == Seq::<(Seq<char>, u32, Seq<char>)>::empty());
    if vimgrep_entry(l) is Some {
        assert(Seq::<(Seq<char>, u32, Seq<char>)>::empty().push(vimgrep_entry(l)->0) =~= seq![vimgrep_entry(l)->0]);
    }
}

proof fn lemma_vimgrep_join_from(a: Seq<char>, b: Seq<char>, cur: Seq<char>)
    requires
        !((cur + a).len() > 0 && (cur + a).last() == '\r'),
    ensures
        vimgrep_matches(lines_from(a + seq!['\n'] + b, cur)) == vimgrep_matches(lines_from(a, cur))
            + vimgrep_matches(lines_from(b, Seq::empty())),
    decreases a.len(),
{
    let rest = lines_from(b, Seq::empty());
    if a.len() == 0 {
        assert(a + seq!['\n'] + b =~= seq!['\n'] + b);
        assert((seq!['\n'] + b).drop_first() =~= b);
        assert(cur + a =~= cur);
        assert(strip_cr(cur) == cur);
        lemma_vimgrep_concat(seq![cur], rest);
        lemma_vimgrep_one(cur);
        if cur.len() == 0 {
            assert(vimgrep_entry(cur) is None);
            assert(Seq::<(Seq<char>, u32, Seq<char>)>::empty() + vimgrep_matches(rest) =~= vimgrep_matches(rest));
        }
    } else {
        let s = a + seq!['\n'] + b;
        assert(s[0] == a[0]);
        assert(s.drop_first() =~= a.drop_first() + seq!['\n'] + b);
        if a[0] == '\n' {
            assert((cur + a).last() == a.last());
            assert(Seq::<char>::empty() + a.drop_first() =~= a.drop_first());
            if a.drop_first().len() > 0 {
                assert(a.drop_first().last() == a.last());
            }
            lemma_vimgrep_join_from(a.drop_first(), b, Seq::empty());
            let head = seq![strip_cr(cur)];
            lemma_vimgrep_concat(head, lines_from(s.drop_first(), Seq::empty()));
            lemma_vimgrep_concat(head, lines_from(a.drop_first(), Seq::empty()));
            assert(vimgrep_matches(head) + vimgrep_matches(lines_from(a.drop_first(), Seq::empty()))
                + vimgrep_matches(rest) =~= vimgrep_matches(head) + (vimgrep_matches(
                lines_from(a.drop_first(), Seq::empty()),
            ) + vimgrep_matches(rest)));
        } else {
            assert(cur.push(a[0]) + a.drop_first() =~= cur + a);
            lemma_vimgrep_join_from(a.drop_first(), b, cur.push(a[0]));
        }
    }
}

/// The matches of two outputs joined by a line ending are those of the
/// first followed by those of the second (the first not ending in a
/// carriage return, which would join the line ending).
pub proof fn law_vimgrep_of_joined_output(a: Seq<char>, b: Seq<char>)
    requires
        !(a.len() > 0 && a.last() == '\r'),
    ensures
        vimgrep_matches(lines(a + seq!['\n'] + b)) == vimgrep_matches(lines(a)) + vimgrep_matches(lines(b)),
{
    assert(Seq::<char>::empty() + a =~= a);
    lemma_vimgrep_join_from(a, b, Seq::empty());
}

/// The first `c` in `v` from `from` on, as `first_index` of what follows.
fn find_next(v: &[char], from: usize, c: char) -> (r: Option<usize>)
    requires
        from <= v@.len(),
    ensures
        match r {
            Some(i) => from <= i < v@.len() && first_index(v@.skip(from as int), c) == i - from,
            None => first_index(v@.skip(from as int), c) < 0,
        },
{
    let r = find_char_from(v, from, c);
    proof {
        let s = v@.skip(from as int);
        lemma_first_index(s, c);
        let f = first_index(s, c);
        match r {
            Some(i) => {
                assert(s[i - from] == c);
                if f >= 0 && f < i - from {
                    assert(v@[from + f] == c);
                }
            },
            None => {
                if f >= 0 {
                    assert(v@[from + f] == c);
                }
            },
        }
    }
    r
}

/// The match of one `--vimgrep` line, if it has one.
pub fn parse_vimgrep_line(line: &[char]) -> (r: Option<GrepMatch>)
    ensures
        match r {
            Some(m) => vimgrep_entry(line@) == Some(m@),
            None => vimgrep_entry(line@) is None,
        },
{
    assert(line@.skip(0) =~= line@);
    let n = line.len();
    let a = match find_next(line, 0, ':') {
        Some(a) => a,
        None => return None,
    };
    let b = match find_next(line, a + 1, ':') {
        Some(b) => b,
        None => {
            return None;
        },
    };
    let c = match find_next(line, b + 1, ':') {
        Some(c) => c,
        None => {
            proof {
                let r1 = line@.skip(a + 1);
                assert(r1.skip((b - (a + 1)) + 1) =~= line@.skip(b + 1));
            }
            return None;
        },
    };
    proof {
        let r1 = line@.skip(a + 1);
        assert(r1.skip((b - (a + 1)) + 1) =~= line@.skip(b + 1));
        let r2 = line@.skip(b + 1);
        assert(r2.skip((c - (b + 1)) + 1) =~= line@.skip(c + 1));
        assert(r1.take(b - (a + 1)) =~= line@.subrange(a + 1, b as int));
        assert(line@.take(a as int) =~= line@.subrange(0, a as int));
    }
    let file_path = crate::text::substring(line, 0, a);
    let num = sub_chars(line, a + 1, b);
    let line_number = match parse_u32(num.as_slice()) {
        Some(k) => k,
        None => 0,
    };
    let match_text = crate::text::substring(line, c + 1, n);
    assert(line@.subrange(c + 1, n as int) =~= line@.skip(c + 1));
    Some(GrepMatch { file_path, line_number, match_text })
}

/// The matches in ripgrep's `--vimgrep` output, one per line that has the
/// `file:line:column:text` form; the line number is 0 when it does not read
/// as a number.
pub fn parse_rg_vimgrep(stdout: &str) -> (r: Vec<GrepMatch>)
    ensures
        matches_view(r@) == vimgrep_matches(lines(stdout@)),
{
    let text = chars_of(stdout);
    let ls = lines_of(text.as_slice());
    let ghost lv = views_of(ls@);
    let mut out: Vec<GrepMatch> = Vec::new();
    let mut i: usize = 0;
    while i < ls.len()
        invariant
            i <= ls@.len(),
            lv == views_of(ls@),
            lv == lines(text@),
            matches_view(out@) == vimgrep_matches(lv.take(i as int)),
        decreases ls.len() - i,
    {
        let m = parse_vimgrep_line(ls[i].as_slice());
        proof {
            assert(lv.take(i + 1).drop_last() =~= lv.take(i as int));
            assert(lv.take(i + 1).last() == ls@[i as int]@);
        }
        match m {
            Some(m) => {
                proof {
                    assert(matches_view(out@.push(m)) =~= matches_view(out@).push(m@));
                }
                out.push(m);
            },
            None => {},
        }
        i = i + 1;
    }
    assert(lv.take(ls@.len() as int) =~= lv);
    out
}

// ---------------------------------------------------------------------------
// --json output
// ---------------------------------------------------------------------------

/// The match a `--json` line stands for: a JSON object whose `type` is
/// `"match"`, with the file at `data.path.text`, the line number at
/// `data.line_number` (kept to its low 32 bits) and the text at
/// `data.lines.text` without trailing white space. Lines that do not begin
/// with `{`, and events of other types, stand for none.
pub open spec fn json_entry(line: Seq<char>) -> Option<(Seq<char>, u32, Seq<char>)> {
    if line.len() == 0 || line[0] != '{' {
        None
    } else {
        match spec_parse_json(line) {
            None => None,
            Some(v) => {
                let t = json_get(v, "type"@);
                let data = json_get(v, "data"@);
                let path = json_get_opt(json_get_opt(data, "path"@), "text"@);
                let num = json_get_opt(data, "line_number"@);
                let text = json_get_opt(json_get_opt(data, "lines"@), "text"@);
                if t is Some && json_str(t->0) == Some("match"@) && path is Some && json_str(
                    path->0,
                ) is Some && num is Some && json_u64(num->0) is Some && text is Some && json_str(
                    text->0,
                ) is Some {
                    Some(
                        (
                            json_str(path->0)->0,
                            json_u64(num->0)->0 as u32,
                            trim_end(json_str(text->0)->0),
                        ),
                    )
                } else {
                    None
                }
            },
        }
    }
}

/// The matches of a run of `--json` lines, in order.
pub open spec fn json_matches(ls: Seq<Seq<char>>) -> Seq<(Seq<char>, u32, Seq<char>)>
    decreases ls.len(),
{
    if ls.len() == 0 {
        Seq::empty()
    } else {
        let prev = json_matches(ls.drop_last());
        match json_entry(ls.last()) {
            Some(e) => prev.push(e),
            None => prev,
        }
    }
}

fn is_match_type(v: &Json) -> (r: bool)
    ensures
        r == (json_get(*v, "type"@) is Some && json_str(json_get(*v, "type"@)->0) == Some(
            "match"@,
        )),
{
    match get(v, "type") {
        Some(t) => match as_str(t) {
            Some(s) => {
                let m = String::from_str("match");
                *s == m
            },
            None => false,
        },
        None => false,
    }
}

/// The match of one `--json` line, if it has one.
pub fn parse_json_line(line: &[char]) -> (r: Option<GrepMatch>)
    ensures
        match r {
            Some(m) => json_entry(line@) == Some(m@),
            None => json_entry(line@) is None,
        },
{
    if line.len() == 0 || line[0] != '{' {
        return None;
    }
    let text = string_from_chars(line);
    let v = match parse_json(text.as_str()) {
        Some(v) => v,
        None => return None,
    };
    if !is_match_type(&v) {
        return None;
    }
    let data = match get(&v, "data") {
        Some(d) => d,
        None => return None,
    };
    let path = match get(data, "path") {
        Some(p) => match get(p, "text") {
            Some(t) => match as_str(t) {
                Some(s) => s.clone(),
                None => return None,
            },
            None => return None,
        },
        None => return None,
    };
    let num = match get(data, "line_number") {
        Some(n) => match as_u64(n) {
            Some(k) => k,
            None => return None,
        },
        None => return None,
    };
    let body = match get(data, "lines") {
        Some(l) => match get(l, "text") {
            Some(t) => match as_str(t) {
                Some(s) => s,
                None => return None,
            },
            None => return None,
        },
        None => return None,
    };
    let bc = chars_of(body.as_str());
    let trimmed = trim_end_chars(bc.as_slice());
    let match_text = string_from_chars(trimmed.as_slice());
    Some(GrepMatch { file_path: path, line_number: num as u32, match_text })
}

/// The matches in ripgrep's `--json` output: one per `"match"` event.
pub fn parse_rg_json(stdout: &str) -> (r: Vec<GrepMatch>)
    ensures
        matches_view(r@) == json_matches(lines(stdout@)),
{
    let text = chars_of(stdout);
    let ls = lines_of(text.as_slice());
    let ghost lv = views_of(ls@);
    let mut out: Vec<GrepMatch> = Vec::new();
    let mut i: usize = 0;
    while i < ls.len()
        invariant
            i <= ls@.len(),
            lv == views_of(ls@),
            lv == lines(text@),
            matches_view(out@) == json_matches(lv.take(i as int)),
        decreases ls.len() - i,
    {
        let m = parse_json_line(ls[i].as_slice());
        proof {
            assert(lv.take(i + 1).drop_last() =~= lv.take(i as int));
            assert(lv.take(i + 1).last() == ls@[i as int]@);
        }
        match m {
            Some(m) => {
                proof {
                    assert(matches_view(out@.push(m)) =~= matches_view(out@).push(m@));
                }
                out.push(m);
            },
            None => {},
        }
        i = i + 1;
    }
    assert(lv.take(ls@.len() as int) =~= lv);
    out
}

// ---------------------------------------------------------------------------
// The ripgrep command line
// ---------------------------------------------------------------------------

pub open spec fn digit_char(d: nat) -> char {
    ((d + 48) as u8) as char
}

/// The decimal digits of `n`, as `to_string` writes them.
pub open spec fn decimal(n: nat) -> Seq<char>
    decreases n,
{
    if n < 10 {
        seq![digit_char(n)]
    } else {
        decimal(n / 10).push(digit_char(n % 10))
    }
}

/// The decimal digits of `n`.
pub fn decimal_chars(n: u64) -> (r: Vec<char>)
    ensures
        r@ == decimal(n as nat),
    decreases n,
{
    let d: u8 = (n % 10) as u8;
    let c = (d + 48) as char;
    if n < 10 {
        let mut r: Vec<char> = Vec::new();
        r.push(c);
        r
    } else {
        let mut r = decimal_chars(n / 10);
        r.push(c);
        r
    }
}

/// `--glob !<pattern>` for each pattern, in order.
pub open spec fn glob_args(pats: Seq<Seq<char>>) -> Seq<Seq<char>>
    decreases pats.len(),
{
    if pats.len() == 0 {
        Seq::empty()
    } else {
        glob_args(pats.drop_last()) + seq!["--glob"@, seq!['!'] + pats.last()]
    }
}

pub open spec fn args_view(v: Seq<String>) -> Seq<Seq<char>> {
    v.map_values(|s: String| s@)
}

/// Appends `--glob !<pattern>` for each pattern.
pub fn push_glob_args(args: &mut Vec<String>, pats: &Vec<String>)
    ensures
        args_view(final(args)@) == args_view(old(args)@) + glob_args(strings_view(pats@)),
{
    let ghost start = args_view(args@);
    let mut i: usize = 0;
    while i < pats.len()
        invariant
            i <= pats@.len(),
            args_view(args@) == start + glob_args(strings_view(pats@).take(i as int)),
        decreases pats.len() - i,
    {
        let glob = String::from_str("--glob");
        let pc = chars_of(pats[i].as_str());
        let mut neg: Vec<char> = Vec::new();
        neg.push('!');
        let mut j: usize = 0;
        while j < pc.len()
            invariant
                j <= pc@.len(),
                neg@ == seq!['!'] + pc@.take(j as int),
            decreases pc.len() - j,
        {
            neg.push(pc[j]);
            j = j + 1;
            assert(pc@.take(j as int) =~= pc@.take(j - 1).push(pc@[j - 1]));
        }
        assert(pc@.take(pc@.len() as int) =~= pc@);
        let negated = string_from_chars(neg.as_slice());
        proof {
            let sv = strings_view(pats@);
            assert(sv.take(i + 1).drop_last() =~= sv.take(i as int));
            assert(sv.take(i + 1).last() == pats@[i as int]@);
            assert(args_view(args@.push(glob).push(negated)) =~= args_view(args@) + seq![
                "--glob"@,
                seq!['!'] + pats@[i as int]@,
            ]);
        }
        args.push(glob);
        args.push(negated);
        i = i + 1;
    }
    assert(strings_view(pats@).take(pats@.len() as int) =~= strings_view(pats@));
}

/// The arguments ripgrep is run with for a content search of `root`: the
/// output form, smart case, the depth limit, a negated glob for each excluded
/// directory and path pattern, for the Windows system directories unless
/// WinHidden is on and for dotfiles unless they are shown, then the query and
/// the root.
pub open spec fn rg_args_spec(
    cfg: Config,
    root: Seq<char>,
    query: Seq<char>,
    show_winhidden: bool,
    show_dotfiles: bool,
    json: bool,
) -> Seq<Seq<char>> {
    seq![
        if json {
            "--json"@
        } else {
            "--vimgrep"@
        },
        "--smart-case"@,
        "--max-depth"@,
        decimal(cfg.grep_max_depth as nat),
    ] + glob_args(strings_view(cfg.exclude_dirs@)) + glob_args(
        strings_view(cfg.exclude_path_globs@),
    ) + (if !show_winhidden {
        glob_args(strings_view(cfg.exclude_win_dirs@))
    } else {
        Seq::empty()
    }) + (if !show_dotfiles {
        seq!["--glob"@, "!.*"@]
    } else {
        Seq::empty()
    }) + seq![query, root]
}

/// Whether `args` hold `--glob` followed by `!` and `pat`.
pub open spec fn has_glob(args: Seq<Seq<char>>, pat: Seq<char>) -> bool {
    exists|i: int| 0 <= i && i + 1 < args.len() && #[trigger] args[i] == "--glob"@ && args[i + 1] == seq!['!'] + pat
}

proof fn lemma_glob_args_shape(pats: Seq<Seq<char>>)
    ensures
        glob_args(pats).len() == 2 * pats.len(),
        forall|k: int| 0 <= k < pats.len() ==> #[trigger] glob_args(pats)[2 * k] == "--glob"@,
        forall|k: int| 0 <= k < pats.len() ==> #[trigger] glob_args(pats)[2 * k + 1] == seq!['!'] + pats[k],
    decreases pats.len(),
{
    if pats.len() > 0 {
        lemma_glob_args_shape(pats.drop_last());
        let g = glob_args(pats.drop_last());
        let two = seq!["--glob"@, seq!['!'] + pats.last()];
        assert(glob_args(pats) == g + two);
        assert forall|k: int| 0 <= k < pats.len() implies #[trigger] glob_args(pats)[2 * k] == "--glob"@ by {
            if k < pats.len() - 1 {
                assert((g + two)[2 * k] == g[2 * k]);
            } else {
                assert((g + two)[2 * k] == two[0]);
            }
        }
        assert forall|k: int| 0 <= k < pats.len() implies #[trigger] glob_args(pats)[2 * k + 1] == seq!['!'] + pats[k] by {
            if k < pats.len() - 1 {
                assert(pats[k] == pats.drop_last()[k]);
                assert((g + two)[2 * k + 1] == g[2 * k + 1]);
            } else {
                assert((g + two)[2 * k + 1] == two[1]);
            }
        }
    }
}

/// Every pattern given to `glob_args`, with whatever stands before and after
/// it, is excluded.
pub proof fn lemma_globs_held(pre: Seq<Seq<char>>, pats: Seq<Seq<char>>, post: Seq<Seq<char>>)
    ensures
        forall|k: int| 0 <= k < pats.len() ==> has_glob(pre + glob_args(pats) + post, #[trigger] pats[k]),
{
    lemma_glob_args_shape(pats);
    let all = pre + glob_args(pats) + post;
    assert forall|k: int| 0 <= k < pats.len() implies has_glob(all, #[trigger] pats[k]) by {
        let i = pre.len() + 2 * k;
        assert(all[i] == glob_args(pats)[2 * k]);
        assert(all[i + 1] == glob_args(pats)[2 * k + 1]);
        assert(all[i] == "--glob"@);
    }
}

/// The content search leaves out every excluded directory and path pattern,
/// the Windows system directories unless WinHidden is on and dotfiles unless
/// they are shown, each as `--glob !<pattern>`; it searches for the query in
/// the root, the last two arguments.
pub proof fn law_rg_args_exclude(
    cfg: Config,
    root: Seq<char>,
    query: Seq<char>,
    show_winhidden: bool,
    show_dotfiles: bool,
    json: bool,
)
    ensures
        ({
            let a = rg_args_spec(cfg, root, query, show_winhidden, show_dotfiles, json);
            &&& forall|k: int| 0 <= k < cfg.exclude_dirs@.len() ==> has_glob(a, #[trigger] cfg.exclude_dirs@[k]@)
            &&& forall|k: int| 0 <= k < cfg.exclude_path_globs@.len() ==> has_glob(a, #[trigger] cfg.exclude_path_globs@[k]@)
            &&& !show_winhidden ==> forall|k: int|
                0 <= k < cfg.exclude_win_dirs@.len() ==> has_glob(a, #[trigger] cfg.exclude_win_dirs@[k]@)
            &&& !show_dotfiles ==> has_glob(a, ".*"@)
            &&& a.len() >= 2 && a[a.len() - 2] == query && a[a.len() - 1] == root
        }),
{
    let head = seq![
        if json {
            "--json"@
        } else {
            "--vimgrep"@
        },
        "--smart-case"@,
        "--max-depth"@,
        decimal(cfg.grep_max_depth as nat),
    ];
    let gd = glob_args(strings_view(cfg.exclude_dirs@));
    let gp = glob_args(strings_view(cfg.exclude_path_globs@));
    let gw = if !show_winhidden {
        glob_args(strings_view(cfg.exclude_win_dirs@))
    } else {
        Seq::empty()
    };
    let gh = if !show_dotfiles {
        seq!["--glob"@, "!.*"@]
    } else {
        Seq::<Seq<char>>::empty()
    };
    let tail = seq![query, root];
    let a = rg_args_spec(cfg, root, query, show_winhidden, show_dotfiles, json);
    assert(a == head + gd + gp + gw + gh + tail);
    lemma_globs_held(head, strings_view(cfg.exclude_dirs@), gp + gw + gh + tail);
    assert(head + gd + gp + gw + gh + tail =~= head + gd + (gp + gw + gh + tail));
    assert forall|k: int| 0 <= k < cfg.exclude_dirs@.len() implies has_glob(a, #[trigger] cfg.exclude_dirs@[k]@) by {
        assert(strings_view(cfg.exclude_dirs@)[k] == cfg.exclude_dirs@[k]@);
    }
    lemma_globs_held(head + gd, strings_view(cfg.exclude_path_globs@), gw + gh + tail);
    assert(head + gd + gp + gw + gh + tail =~= (head + gd) + gp + (gw + gh + tail));
    assert forall|k: int| 0 <= k < cfg.exclude_path_globs@.len() implies has_glob(a, #[trigger] cfg.exclude_path_globs@[k]@) by {
        assert(strings_view(cfg.exclude_path_globs@)[k] == cfg.exclude_path_globs@[k]@);
    }
    if !show_winhidden {
        lemma_globs_held(head + gd + gp, strings_view(cfg.exclude_win_dirs@), gh + tail);
        assert(head + gd + gp + gw + gh + tail =~= (head + gd + gp) + gw + (gh + tail));
        assert forall|k: int| 0 <= k < cfg.exclude_win_dirs@.len() implies has_glob(a, #[trigger] cfg.exclude_win_dirs@[k]@) by {
            assert(strings_view(cfg.exclude_win_dirs@)[k] == cfg.exclude_win_dirs@[k]@);
        }
    }
    if !show_dotfiles {
        let i: int = (head.len() + gd.len() + gp.len() + gw.len()) as int;
        assert(a[i] == "--glob"@);
        assert(a[i + 1] == "!.*"@);
        assert("!.*"@ =~= seq!['!'] + ".*"@) by {
            reveal_strlit("!.*");
            reveal_strlit(".*");
        }
    }
}

/// The arguments of the ripgrep run for a content search.
pub fn rg_args(
    cfg: &Config,
    root: &str,
    query: &str,
    show_winhidden: bool,
    show_dotfiles: bool,
    json: bool,
) -> (r: Vec<String>)
    ensures
        args_view(r@) == rg_args_spec(*cfg, root@, query@, show_winhidden, show_dotfiles, json),
{
    let mut args: Vec<String> = Vec::new();
    if json {
        args.push(String::from_str("--json"));
    } else {
        args.push(String::from_str("--vimgrep"));
    }
    args.push(String::from_str("--smart-case"));
    args.push(String::from_str("--max-depth"));
    let depth = decimal_chars(cfg.grep_max_depth as u64);
    args.push(string_from_chars(depth.as_slice()));
    let ghost head = args_view(args@);
    push_glob_args(&mut args, &cfg.exclude_dirs);
    push_glob_args(&mut args, &cfg.exclude_path_globs);
    let ghost mid = args_view(args@);
    if !show_winhidden {
        push_glob_args(&mut args, &cfg.exclude_win_dirs);
    } else {
        assert(args_view(args@) =~= mid + Seq::<Seq<char>>::empty());
    }
    let ghost mid2 = args_view(args@);
    if !show_dotfiles {
        args.push(String::from_str("--glob"));
        args.push(String::from_str("!.*"));
        assert(args_view(args@) =~= mid2 + seq!["--glob"@, "!.*"@]);
    } else {
        assert(args_view(args@) =~= mid2 + Seq::<Seq<char>>::empty());
    }
    let ghost mid3 = args_view(args@);
    args.push(String::from_str(query));
    args.push(String::from_str(root));
    assert(args_view(args@) =~= mid3 + seq![query@, root@]);
    assert(head =~= seq![
        if json {
            "--json"@
        } else {
            "--vimgrep"@
        },
        "--smart-case"@,
        "--max-depth"@,
        decimal(cfg.grep_max_depth as nat),
    ]);
    assert(args_view(args@) =~= rg_args_spec(
        *cfg,
        root@,
        query@,
        show_winhidden,
        show_dotfiles,
        json,
    ));
    args
}

} // verus!

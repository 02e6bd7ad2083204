//! What the preview and the info panel show of a git repository, from what
//! `git` printed. Running `git` is the caller's part: each function here
//! takes what a run gave back (`None` where `git` could not be started).
use vstd::prelude::*;

use crate::icons::{bold, plain, Color, Style};
use crate::paths::{display_path_with_home, display_with_home, opt_str_view};
use crate::text::{append_str, chars_of, lines, lines_of, starts_with, string_from_chars, trim, trim_chars};
use crate::tree::{lines_view, PreviewLine};

verus! {

/// The repository a directory lies in: its top directory, the branch checked
/// out (when `git` names one) and whether anything is changed.
pub struct GitInfo {
    pub toplevel: String,
    pub branch: Option<String>,
    pub dirty: bool,
}

/// A run of `git`: whether it succeeded, and what it printed.
pub open spec fn run_view(out: Option<(bool, &str)>) -> Option<(bool, Seq<char>)> {
    match out {
        Some((ok, s)) => Some((ok, s@)),
        None => None,
    }
}

/// What a run gives when it was started and succeeded: its output trimmed.
pub open spec fn trimmed_success(out: Option<(bool, Seq<char>)>) -> Option<Seq<char>> {
    match out {
        Some((true, s)) => Some(trim(s)),
        _ => None,
    }
}

/// The colour of a line of `git status --short`: light red for the
/// untracked, modified, added and deleted, white for the others.
pub open spec fn status_style(line: Seq<char>) -> Style {
    if starts_with(line, "??"@) || starts_with(line, " M"@) || starts_with(line, "A "@) || starts_with(line, "D "@) {
        plain(Color::LightRed)
    } else {
        plain(Color::White)
    }
}

/// The lines shown for `git status --short`: one per line printed; `Clean`
/// when nothing but white space was printed; a note when `git` could not be
/// run.
pub open spec fn status_view(stdout: Option<Seq<char>>) -> Seq<(Seq<char>, Style)> {
    match stdout {
        None => seq![("(not a git repo)"@, plain(Color::DarkGray))],
        Some(s) => if trim(s).len() == 0 {
            seq![("Clean"@, plain(Color::DarkGray))]
        } else {
            lines(s).map_values(|l: Seq<char>| (l, status_style(l)))
        },
    }
}

fn starts_with_str(line: &Vec<char>, p: &str) -> (r: bool)
    ensures
        r == starts_with(line@, p@),
{
    let pc = chars_of(p);
    crate::text::chars_start_with(line.as_slice(), pc.as_slice())
}

fn styled(text: String, style: Style) -> (r: PreviewLine)
    ensures
        r.text == text,
        r.style == style,
{
    PreviewLine { text, style }
}

fn note(text: &str, c: Color) -> (r: PreviewLine)
    ensures
        r.text@ == text@,
        r.style == plain(c),
{
    let v = chars_of(text);
    PreviewLine { text: string_from_chars(v.as_slice()), style: Style { fg: Some(c), bold: false } }
}

/// The lines of the git status section of a directory preview, from what
/// `git status --short` printed (`None`: `git` could not be run).
pub fn git_status_lines(stdout: Option<&str>) -> (r: Vec<PreviewLine>)
    ensures
        lines_view(r@) == status_view(opt_str_view(stdout)),
{
    let mut out: Vec<PreviewLine> = Vec::new();
    match stdout {
        None => {
            out.push(note("(not a git repo)", Color::DarkGray));
            assert(lines_view(out@) =~= status_view(opt_str_view(stdout)));
        },
        Some(s) => {
            let c = chars_of(s);
            let t = trim_chars(c.as_slice());
            if t.len() == 0 {
                out.push(note("Clean", Color::DarkGray));
                assert(lines_view(out@) =~= status_view(opt_str_view(stdout)));
            } else {
                let ls = lines_of(c.as_slice());
                let ghost want = lines(s@).map_values(|l: Seq<char>| (l, status_style(l)));
                let mut i: usize = 0;
                while i < ls.len()
                    invariant
                        i <= ls@.len(),
                        crate::text::views_of(ls@) == lines(s@),
                        want == lines(s@).map_values(|l: Seq<char>| (l, status_style(l))),
                        lines_view(out@) == want.take(i as int),
                    decreases ls.len() - i,
                {
                    let line = &ls[i];
                    assert(crate::text::views_of(ls@)[i as int] == line@);
                    let red = starts_with_str(line, "??") || starts_with_str(line, " M") || starts_with_str(line, "A ")
                        || starts_with_str(line, "D ");
                    let style = if red {
                        Style { fg: Some(Color::LightRed), bold: false }
                    } else {
                        Style { fg: Some(Color::White), bold: false }
                    };
                    let l = styled(string_from_chars(line.as_slice()), style);
                    proof {
                        assert(lines_view(out@.push(l)) =~= lines_view(out@).push((l.text@, l.style)));
                        assert(want.take(i + 1) =~= want.take(i as int).push(want[i as int]));
                    }
                    out.push(l);
                    i = i + 1;
                }
                assert(want.take(ls@.len() as int) =~= want);
            }
        },
    }
    out
}

/// The top directory of the repository, from a run of
/// `git rev-parse --show-toplevel`: its output trimmed when it succeeded.
pub fn git_toplevel(out: Option<(bool, &str)>) -> (r: Option<String>)
    ensures
        opt_string_view(r) == trimmed_success(run_view(out)),
{
    match out {
        Some((true, s)) => {
            let c = chars_of(s);
            let t = trim_chars(c.as_slice());
            Some(string_from_chars(t.as_slice()))
        },
        _ => None,
    }
}

pub open spec fn opt_string_view(o: Option<String>) -> Option<Seq<char>> {
    match o {
        Some(s) => Some(s@),
        None => None,
    }
}

/// The repository whose top directory is `toplevel`, from a run of
/// `git rev-parse --abbrev-ref HEAD` (the branch, when it succeeded) and what
/// `git status --porcelain` printed (changed when it printed anything).
pub fn git_info_from(toplevel: String, branch_out: Option<(bool, &str)>, status_out: Option<&str>) -> (r: GitInfo)
    ensures
        r.toplevel == toplevel,
        opt_string_view(r.branch) == trimmed_success(run_view(branch_out)),
        r.dirty == (match status_out {
            Some(s) => s@.len() > 0,
            None => false,
        }),
{
    let branch = git_toplevel(branch_out);
    let dirty = match status_out {
        Some(s) => !s.is_empty(),
        None => false,
    };
    GitInfo { toplevel, branch, dirty }
}

/// The lines shown of a repository, with `heading` as the colour of the
/// heading: ` git:`, its top directory (with `~` for the home directory
/// `home`), and, when a branch is known, the branch with `(dirty)` in light
/// red or `(clean)` in light green. Nothing when there is no repository.
pub open spec fn git_block(info: Option<(Seq<char>, Option<Seq<char>>, bool)>, home: Option<Seq<char>>, heading: Color) -> Seq<(Seq<char>, Style)> {
    match info {
        None => Seq::empty(),
        Some((top, branch, dirty)) => {
            let head = seq![(" git:"@, bold(heading)), ("  "@ + display_with_home(top, home), plain(Color::Cyan))];
            match branch {
                Some(b) => head.push((
                    "  "@ + b + " ("@ + (if dirty { "dirty"@ } else { "clean"@ }) + ")"@,
                    if dirty { plain(Color::LightRed) } else { plain(Color::LightGreen) },
                )),
                None => head,
            }
        },
    }
}

pub open spec fn info_view(info: Option<GitInfo>) -> Option<(Seq<char>, Option<Seq<char>>, bool)> {
    match info {
        Some(i) => Some((i.toplevel@, opt_string_view(i.branch), i.dirty)),
        None => None,
    }
}

fn block_lines(info: &Option<GitInfo>, home: Option<&str>, heading: Color) -> (r: Vec<PreviewLine>)
    ensures
        lines_view(r@) == git_block(info_view(*info), opt_str_view(home), heading),
{
    let mut out: Vec<PreviewLine> = Vec::new();
    match info {
        None => {
            assert(lines_view(out@) =~= git_block(info_view(*info), opt_str_view(home), heading));
        },
        Some(i) => {
            let head = note(" git:", heading);
            out.push(PreviewLine { text: head.text, style: Style { fg: Some(heading), bold: true } });
            let shown = display_path_with_home(i.toplevel.as_str(), home);
            let mut v: Vec<char> = Vec::new();
            append_str(&mut v, "  ");
            append_str(&mut v, shown.as_str());
            out.push(PreviewLine { text: string_from_chars(v.as_slice()), style: Style { fg: Some(Color::Cyan), bold: false } });
            match &i.branch {
                Some(b) => {
                    let mut w: Vec<char> = Vec::new();
                    append_str(&mut w, "  ");
                    append_str(&mut w, b.as_str());
                    append_str(&mut w, " (");
                    if i.dirty {
                        append_str(&mut w, "dirty");
                    } else {
                        append_str(&mut w, "clean");
                    }
                    append_str(&mut w, ")");
                    let c = if i.dirty {
                        Color::LightRed
                    } else {
                        Color::LightGreen
                    };
                    out.push(PreviewLine { text: string_from_chars(w.as_slice()), style: Style { fg: Some(c), bold: false } });
                },
                None => {},
            }
            assert(lines_view(out@) =~= git_block(info_view(*info), opt_str_view(home), heading));
        },
    }
    out
}

/// The repository section of a directory preview: heading in cyan.
pub fn git_info_lines(info: &Option<GitInfo>, home: Option<&str>) -> (r: Vec<PreviewLine>)
    ensures
        lines_view(r@) == git_block(info_view(*info), opt_str_view(home), Color::Cyan),
{
    block_lines(info, home, Color::Cyan)
}

/// The repository section of the info panel: heading in the header colour.
pub fn info_git_lines(info: &Option<GitInfo>, home: Option<&str>) -> (r: Vec<PreviewLine>)
    ensures
        lines_view(r@) == git_block(info_view(*info), opt_str_view(home), Color::Rgb(100, 200, 255)),
{
    block_lines(info, home, Color::Rgb(100, 200, 255))
}

} // verus!

//! What the preview panel shows of the selected entry, from what the caller
//! read: the tree of a directory with its git status, the first lines of a
//! file, a plain listing of a directory, the matches of the query in a file.
use vstd::prelude::*;

use crate::app::Mode;
use crate::config::Config;
use crate::icons::{bold, icon_by_name, icon_for_name, plain, Color, Style};
use crate::paths::{path_join, spec_path_join};
use crate::text::{append_str, chars_of, lines, lines_of, starts_with, string_from_chars, views_of};
use crate::tree::{
    build_tree_with_entries, entries_view, lines_view, render_tree, HiddenRule, PreviewEntry,
    PreviewLine, TreeNode,
};
use crate::walker::{chars_lt, lemma_lex_total, lex_le, lex_lt, DirEntryItem};

verus! {

broadcast use vstd::seq_lib::group_to_multiset_ensures;

/// The directories the preview of `item` lets the user enter, given the
/// entries `nodes` of the directory it names, read from the path `dir_path`:
/// those of the preview tree (two levels below), none in Grep mode or for a
/// file.
pub fn generate_entries(
    mode: Mode,
    item: &DirEntryItem,
    nodes: &Vec<TreeNode>,
    dir_path: &str,
    show_dotfiles: bool,
    show_winhidden: bool,
    cfg: &Config,
) -> (r: Vec<PreviewEntry>)
    requires
        render_tree(nodes@, dir_path@, 2, 0, Seq::empty(), show_dotfiles, show_winhidden, HiddenRule::Attribute, *cfg, 0).0.len() <= usize::MAX,
    ensures
        mode != Mode::Grep && item.is_dir ==> entries_view(r@) == render_tree(
            nodes@,
            dir_path@,
            2,
            0,
            Seq::empty(),
            show_dotfiles,
            show_winhidden,
            HiddenRule::Attribute,
            *cfg,
            0,
        ).1,
        !(mode != Mode::Grep && item.is_dir) ==> r@.len() == 0,
{
    let mut entries: Vec<PreviewEntry> = Vec::new();
    if mode != Mode::Grep && item.is_dir {
        proof {
            reveal_strlit("");
            assert(""@ =~= Seq::<char>::empty());
        }
        let mut line_counter: usize = 0;
        let _ = build_tree_with_entries(nodes, dir_path, 2, 0, "", show_dotfiles, show_winhidden, cfg, &mut entries, &mut line_counter);
        proof {
            assert(entries_view(Seq::<PreviewEntry>::empty()) =~= Seq::<(Seq<char>, Seq<char>, nat)>::empty());
        }
    }
    entries
}

/// The preview of a directory: its tree (` (empty)` when nothing is shown),
/// a blank line, the heading of the git status and the status lines.
pub open spec fn directory_view(tree: Seq<(Seq<char>, Style)>, status: Seq<(Seq<char>, Style)>) -> Seq<(Seq<char>, Style)> {
    let top = if tree.len() == 0 {
        seq![(" (empty)"@, plain(Color::DarkGray))]
    } else {
        tree
    };
    top + seq![(Seq::<char>::empty(), Style { fg: None, bold: false }), ("=== GIT STATUS ==="@, bold(Color::Cyan))] + status
}

fn line_of(text: &str, style: Style) -> (r: PreviewLine)
    ensures
        r.text@ == text@,
        r.style == style,
{
    PreviewLine { text: string_from_chars(chars_of(text).as_slice()), style }
}

/// The lines of the preview of a directory, from the lines of its tree and
/// of its git status.
pub fn preview_directory(tree: Vec<PreviewLine>, status: Vec<PreviewLine>) -> (r: Vec<PreviewLine>)
    ensures
        lines_view(r@) == directory_view(lines_view(tree@), lines_view(status@)),
{
    let mut out: Vec<PreviewLine> = if tree.len() == 0 {
        let mut v: Vec<PreviewLine> = Vec::new();
        v.push(line_of(" (empty)", Style { fg: Some(Color::DarkGray), bold: false }));
        v
    } else {
        tree
    };
    let ghost top = lines_view(out@);
    proof {
        reveal_strlit("");
    }
    let ghost o0 = out@;
    let blank = line_of("", Style { fg: None, bold: false });
    let head = line_of("=== GIT STATUS ===", Style { fg: Some(Color::Cyan), bold: true });
    out.push(blank);
    out.push(head);
    let ghost mid = out@;
    proof {
        assert(mid =~= o0.push(blank).push(head));
        assert(lines_view(mid) =~= lines_view(o0).push((blank.text@, blank.style)).push((head.text@, head.style)));
        assert(blank.text@ =~= Seq::<char>::empty());
    }
    let mut status = status;
    let ghost st = status@;
    out.append(&mut status);
    proof {
        assert(lines_view(out@) =~= lines_view(mid) + lines_view(st));
        assert(lines_view(mid) =~= top + seq![(Seq::<char>::empty(), Style { fg: None, bold: false }), ("=== GIT STATUS ==="@, bold(Color::Cyan))]);
        if lines_view(tree@).len() == 0 {
            assert(top =~= seq![(" (empty)"@, plain(Color::DarkGray))]);
        }
    }
    out
}

/// At most the first 50 lines of a file, in white.
pub open spec fn file_view(content: Seq<char>) -> Seq<(Seq<char>, Style)> {
    let ls = lines(content);
    let first = if ls.len() > 50 {
        ls.take(50)
    } else {
        ls
    };
    first.map_values(|l: Seq<char>| (l, plain(Color::White)))
}

/// The preview of a file shows its first lines in order, in white: all of
/// them when it has at most 50, else exactly the first 50.
pub proof fn law_file_preview_first_fifty(content: Seq<char>)
    ensures
        ({
            let v = file_view(content);
            let ls = lines(content);
            &&& v.len() <= 50
            &&& v.len() == if ls.len() <= 50 {
                ls.len()
            } else {
                50
            }
            &&& forall|i: int| 0 <= i < v.len() ==> (#[trigger] v[i]).0 == ls[i] && v[i].1 == plain(Color::White)
        }),
{
}

/// The lines of the preview of a file read as text.
pub fn preview_file_lines(content: &str) -> (r: Vec<PreviewLine>)
    ensures
        lines_view(r@) == file_view(content@),
{
    let ls = lines_of(chars_of(content).as_slice());
    let n = if ls.len() > 50 {
        50
    } else {
        ls.len()
    };
    let ghost want = file_view(content@);
    let mut out: Vec<PreviewLine> = Vec::new();
    let mut i: usize = 0;
    while i < n
        invariant
            i <= n,
            n <= ls@.len(),
            n == want.len(),
            views_of(ls@) == lines(content@),
            want == file_view(content@),
            lines_view(out@) == want.take(i as int),
        decreases n - i,
    {
        assert(views_of(ls@)[i as int] == ls@[i as int]@);
        let l = PreviewLine { text: string_from_chars(ls[i].as_slice()), style: Style { fg: Some(Color::White), bold: false } };
        proof {
            assert(lines_view(out@.push(l)) =~= lines_view(out@).push((l.text@, l.style)));
            assert(want.take(i + 1) =~= want.take(i as int).push(want[i as int]));
        }
        out.push(l);
        i = i + 1;
    }
    assert(want.take(n as int) =~= want);
    out
}

/// What `rg --context=2` printed for the query in a file: a note when it
/// printed nothing, otherwise every line, separators (`--`) in dark grey.
pub open spec fn grep_fallback_view(output: Seq<char>, file_path: Seq<char>) -> Seq<(Seq<char>, Style)> {
    if output.len() == 0 {
        seq![(" (no matches in "@ + file_path + ")"@, plain(Color::DarkGray))]
    } else {
        lines(output).map_values(
            |l: Seq<char>|
                (
                    l,
                    if starts_with(l, "--"@) {
                        plain(Color::DarkGray)
                    } else {
                        plain(Color::White)
                    },
                ),
        )
    }
}

/// The lines of the grep preview of a file when it is not highlighted, from
/// what `rg` printed and the path of the file.
pub fn grep_fallback_lines(output: &str, file_path: &str) -> (r: Vec<PreviewLine>)
    ensures
        lines_view(r@) == grep_fallback_view(output@, file_path@),
{
    let oc = chars_of(output);
    let mut out: Vec<PreviewLine> = Vec::new();
    if oc.len() == 0 {
        let mut v: Vec<char> = Vec::new();
        append_str(&mut v, " (no matches in ");
        append_str(&mut v, file_path);
        append_str(&mut v, ")");
        out.push(PreviewLine { text: string_from_chars(v.as_slice()), style: Style { fg: Some(Color::DarkGray), bold: false } });
        assert(lines_view(out@) =~= grep_fallback_view(output@, file_path@));
        return out;
    }
    let ls = lines_of(oc.as_slice());
    let ghost want = grep_fallback_view(output@, file_path@);
    let dashes = chars_of("--");
    let mut i: usize = 0;
    while i < ls.len()
        invariant
            i <= ls@.len(),
            views_of(ls@) == lines(output@),
            output@.len() > 0,
            dashes@ == "--"@,
            want == grep_fallback_view(output@, file_path@),
            want.len() == ls@.len(),
            lines_view(out@) == want.take(i as int),
        decreases ls.len() - i,
    {
        assert(views_of(ls@)[i as int] == ls@[i as int]@);
        let sep = crate::text::chars_start_with(ls[i].as_slice(), dashes.as_slice());
        let c = if sep {
            Color::DarkGray
        } else {
            Color::White
        };
        let l = PreviewLine { text: string_from_chars(ls[i].as_slice()), style: Style { fg: Some(c), bold: false } };
        proof {
            assert(lines_view(out@.push(l)) =~= lines_view(out@).push((l.text@, l.style)));
            assert(want.take(i + 1) =~= want.take(i as int).push(want[i as int]));
        }
        out.push(l);
        i = i + 1;
    }
    assert(want.take(ls@.len() as int) =~= want);
    out
}

// ---------------------------------------------------------------------------
// A plain listing of a directory
// ---------------------------------------------------------------------------

/// Whether the names stand in order.
pub open spec fn names_sorted(s: Seq<String>) -> bool {
    forall|i: int| 0 <= i < s.len() - 1 ==> lex_le(#[trigger] s[i]@, s[i + 1]@)
}

proof fn lemma_insert_names(s: Seq<String>, p: int, x: String)
    requires
        0 <= p <= s.len(),
    ensures
        s.insert(p, x).to_multiset() =~= s.to_multiset().insert(x),
{
    let t = s.insert(p, x);
    assert(t.remove(p) =~= s);
    assert(t[p] == x);
    assert(t.remove(p).to_multiset() =~= t.to_multiset().remove(x));
    assert(t.contains(x));
}

/// The names in order (`sort` of `Vec<String>`).
pub fn sort_names(names: Vec<String>) -> (r: Vec<String>)
    ensures
        names_sorted(r@),
        r@.to_multiset() == names@.to_multiset(),
{
    let mut out: Vec<String> = Vec::new();
    let mut i: usize = 0;
    while i < names.len()
        invariant
            i <= names@.len(),
            names_sorted(out@),
            out@.to_multiset() == names@.take(i as int).to_multiset(),
        decreases names.len() - i,
    {
        let x = names[i].clone();
        let xc = chars_of(x.as_str());
        let mut p = out.len();
        while p > 0 && chars_lt(xc.as_slice(), chars_of(out[p - 1].as_str()).as_slice())
            invariant
                p <= out@.len(),
                xc@ == x@,
                forall|k: int| p <= k < out@.len() ==> lex_lt(x@, #[trigger] out@[k]@),
            decreases p,
        {
            p = p - 1;
        }
        proof {
            if p > 0 {
                lemma_lex_total(x@, out@[p - 1]@);
            }
            let t = out@.insert(p as int, x);
            assert forall|k: int| 0 <= k < t.len() - 1 implies lex_le(#[trigger] t[k]@, t[k + 1]@) by {
                if k < p - 1 {
                    assert(t[k] == out@[k] && t[k + 1] == out@[k + 1]);
                } else if k == p - 1 {
                    assert(t[k] == out@[k] && t[k + 1] == x);
                } else if k == p {
                    assert(t[k] == x && t[k + 1] == out@[k]);
                } else {
                    assert(t[k] == out@[k - 1] && t[k + 1] == out@[k]);
                }
            }
            lemma_insert_names(out@, p as int, x);
            assert(names@.take(i + 1) =~= names@.take(i as int).push(names@[i as int]));
        }
        out.insert(p, x);
        i = i + 1;
    }
    assert(names@.take(names@.len() as int) =~= names@);
    out
}

/// The names of the entries that are directories (or not), dotfiles left
/// out, in the order read.
pub open spec fn names_of_kind(entries: Seq<(String, bool)>, dirs: bool) -> Seq<String>
    decreases entries.len(),
{
    if entries.len() == 0 {
        Seq::empty()
    } else {
        let prev = names_of_kind(entries.drop_last(), dirs);
        let (name, is_dir) = entries.last();
        if is_dir == dirs && !(name@.len() > 0 && name@[0] == '.') {
            prev.push(name)
        } else {
            prev
        }
    }
}

pub open spec fn dir_line(name: Seq<char>) -> (Seq<char>, Style) {
    ("\u{f07b} "@ + name, bold(Color::Cyan))
}

pub open spec fn file_line(name: Seq<char>) -> (Seq<char>, Style) {
    (icon_by_name(name)@ + " "@ + name, plain(Color::White))
}

/// Whether `r` is the plain listing of the entries `entries` (name and
/// whether it is a directory) of a directory: dotfiles left out; the
/// directories in order, each with the folder icon in bold cyan; then the
/// files in order, each with its icon in white.
pub open spec fn is_listing_view(r: Seq<(Seq<char>, Style)>, entries: Seq<(String, bool)>) -> bool {
    exists|ds: Seq<String>, fs: Seq<String>| {
        &&& #[trigger] names_sorted(ds) && ds.to_multiset() == names_of_kind(entries, true).to_multiset()
        &&& #[trigger] names_sorted(fs) && fs.to_multiset() == names_of_kind(entries, false).to_multiset()
        &&& r == ds.map_values(|d: String| dir_line(d@)) + fs.map_values(|f: String| file_line(f@))
    }
}

/// The plain listing of a directory whose entries are `entries` (name, and
/// whether it is a directory), as shown when `eza` cannot be run.
pub fn fallback_read_dir(entries: &Vec<(String, bool)>) -> (r: Vec<PreviewLine>)
    ensures
        is_listing_view(lines_view(r@), entries@),
{
    let mut dirs: Vec<String> = Vec::new();
    let mut files: Vec<String> = Vec::new();
    let mut i: usize = 0;
    while i < entries.len()
        invariant
            i <= entries@.len(),
            dirs@ == names_of_kind(entries@.take(i as int), true),
            files@ == names_of_kind(entries@.take(i as int), false),
        decreases entries.len() - i,
    {
        let name = entries[i].0.clone();
        let is_dir = entries[i].1;
        proof {
            assert(entries@.take(i + 1).drop_last() =~= entries@.take(i as int));
            assert(entries@.take(i + 1).last() == entries@[i as int]);
        }
        let c = chars_of(name.as_str());
        if !(c.len() > 0 && c[0] == '.') {
            if is_dir {
                dirs.push(name);
            } else {
                files.push(name);
            }
        }
        i = i + 1;
    }
    assert(entries@.take(entries@.len() as int) =~= entries@);
    let ds = sort_names(dirs);
    let fs = sort_names(files);
    let mut out: Vec<PreviewLine> = Vec::new();
    let mut k: usize = 0;
    while k < ds.len()
        invariant
            k <= ds@.len(),
            lines_view(out@) == ds@.take(k as int).map_values(|d: String| dir_line(d@)),
        decreases ds.len() - k,
    {
        let mut v: Vec<char> = Vec::new();
        append_str(&mut v, "\u{f07b} ");
        append_str(&mut v, ds[k].as_str());
        let l = PreviewLine { text: string_from_chars(v.as_slice()), style: Style { fg: Some(Color::Cyan), bold: true } };
        proof {
            assert(lines_view(out@.push(l)) =~= lines_view(out@).push((l.text@, l.style)));
            assert(ds@.take(k + 1).map_values(|d: String| dir_line(d@)) =~= ds@.take(k as int).map_values(
                |d: String| dir_line(d@),
            ).push(dir_line(ds@[k as int]@)));
        }
        out.push(l);
        k = k + 1;
    }
    assert(ds@.take(ds@.len() as int) =~= ds@);
    let ghost head = lines_view(out@);
    let mut k: usize = 0;
    while k < fs.len()
        invariant
            k <= fs@.len(),
            head == ds@.map_values(|d: String| dir_line(d@)),
            lines_view(out@) == head + fs@.take(k as int).map_values(|f: String| file_line(f@)),
        decreases fs.len() - k,
    {
        let icon = icon_for_name(fs[k].as_str());
        let mut v: Vec<char> = Vec::new();
        append_str(&mut v, icon);
        append_str(&mut v, " ");
        append_str(&mut v, fs[k].as_str());
        let l = PreviewLine { text: string_from_chars(v.as_slice()), style: Style { fg: Some(Color::White), bold: false } };
        proof {
            assert(lines_view(out@.push(l)) =~= lines_view(out@).push((l.text@, l.style)));
            assert(fs@.take(k + 1).map_values(|f: String| file_line(f@)) =~= fs@.take(k as int).map_values(
                |f: String| file_line(f@),
            ).push(file_line(fs@[k as int]@)));
            assert(head + fs@.take(k + 1).map_values(|f: String| file_line(f@)) =~= (head + fs@.take(k as int).map_values(
                |f: String| file_line(f@),
            )).push(file_line(fs@[k as int]@)));
        }
        out.push(l);
        k = k + 1;
    }
    assert(fs@.take(fs@.len() as int) =~= fs@);
    assert(lines_view(out@) == ds@.map_values(|d: String| dir_line(d@)) + fs@.map_values(|f: String| file_line(f@)));
    assert(names_sorted(ds@) && names_sorted(fs@));
    out
}

/// Where the entry `item` of the list is previewed from: its relative path
/// joined to the current directory `current_dir`.
pub fn preview_path(current_dir: &str, item: &DirEntryItem) -> (r: String)
    ensures
        r@ == spec_path_join(current_dir@, item.rel_path@),
{
    path_join(current_dir, item.rel_path.as_str())
}

/// What the preview of an entry is made from.
pub enum PreviewKind {
    /// The matches of the query in this file.
    Grep(String),
    /// The tree and git status of this directory.
    Directory(String),
    /// The first lines of this file.
    File(String),
}

/// What the preview of `item` is made from: in Grep mode the matches in its
/// file; otherwise the directory or file it names below `current_dir`.
pub fn preview_kind(mode: Mode, current_dir: &str, item: &DirEntryItem) -> (r: PreviewKind)
    ensures
        mode == Mode::Grep ==> (r matches PreviewKind::Grep(p) && p == item.full_path),
        mode != Mode::Grep && item.is_dir ==> (r matches PreviewKind::Directory(p) && p@ == spec_path_join(current_dir@, item.rel_path@)),
        mode != Mode::Grep && !item.is_dir ==> (r matches PreviewKind::File(p) && p@ == spec_path_join(current_dir@, item.rel_path@)),
{
    if mode == Mode::Grep {
        return PreviewKind::Grep(item.full_path.clone());
    }
    let p = preview_path(current_dir, item);
    if item.is_dir {
        PreviewKind::Directory(p)
    } else {
        PreviewKind::File(p)
    }
}

} // verus!

//! The directory tree of the preview panel: which entries of a directory are
//! shown, in which order, how many files are listed before the rest is
//! summed up, and the lines drawn, with the directories that can be entered
//! from the preview.
//!
//! The directory contents are read by the caller into `TreeNode`s; everything
//! decided from them is here.
use vstd::prelude::*;

use crate::config::{strings_view, Config};
use crate::grep::{decimal, decimal_chars};
use crate::icons::{bold, icon_by_name, icon_for_name, plain, Color, Style};
use crate::paths::{path_join, spec_path_join};
use crate::text::{append_chars, append_str, chars_of, string_from_chars};
use crate::walker::{
    chars_lt, excluded, lemma_lex_asym, lemma_lex_total, lemma_lex_trans, lex_lt, should_exclude, strings_contain,
};

verus! {

/// An entry of a directory as read for the tree: its name, whether it is a
/// directory, whether the file system marks it hidden (only Windows does),
/// and (for a directory read further) its own entries.
pub struct TreeNode {
    pub name: String,
    pub is_dir: bool,
    pub hidden: bool,
    pub children: Vec<TreeNode>,
}

/// Which entries a tree leaves out besides the excluded directory names and,
/// while dotfiles are off, the dotfiles. `Listing`: as the lists do, the
/// Windows system directories while WinHidden is off. `Attribute`: the
/// entries marked hidden while WinHidden is off.
#[derive(PartialEq, Eq, Structural, Clone, Copy)]
pub enum HiddenRule {
    Listing,
    Attribute,
}

/// A directory that the preview lets the user enter: its name, its path and
/// the line of the tree it is drawn on.
pub struct PreviewEntry {
    pub name: String,
    pub full_path: String,
    pub is_dir: bool,
    pub line_index: usize,
}

/// A line of the tree and how it is drawn.
pub struct PreviewLine {
    pub text: String,
    pub style: Style,
}

/// What a walk over the tree carries: the visibility switches, the
/// directories drawn so far and the index of the next line.
pub struct TreeContext {
    pub show_dotfiles: bool,
    pub show_winhidden: bool,
    pub out_entries: Vec<PreviewEntry>,
    pub line_counter: usize,
}

// ---------------------------------------------------------------------------
// Which entries, in which order
// ---------------------------------------------------------------------------

/// Whether an entry is shown under `rule`.
pub open spec fn tree_shows(n: TreeNode, show_dotfiles: bool, show_winhidden: bool, rule: HiddenRule, cfg: Config) -> bool {
    match rule {
        HiddenRule::Listing => !excluded(n.name@, show_dotfiles, show_winhidden, cfg),
        HiddenRule::Attribute => {
            &&& !strings_view(cfg.exclude_dirs@).contains(n.name@)
            &&& !(!show_dotfiles && n.name@.len() > 0 && n.name@[0] == '.')
            &&& !(!show_winhidden && n.hidden)
        },
    }
}

/// The entries shown, in the order read.
pub open spec fn shown_nodes(nodes: Seq<TreeNode>, show_dotfiles: bool, show_winhidden: bool, rule: HiddenRule, cfg: Config) -> Seq<TreeNode>
    decreases nodes.len(),
{
    if nodes.len() == 0 {
        Seq::empty()
    } else {
        let prev = shown_nodes(nodes.drop_last(), show_dotfiles, show_winhidden, rule, cfg);
        if tree_shows(nodes.last(), show_dotfiles, show_winhidden, rule, cfg) {
            prev.push(nodes.last())
        } else {
            prev
        }
    }
}

/// The order of the tree: directories before files, each by name.
pub open spec fn node_before(a: TreeNode, b: TreeNode) -> bool {
    (a.is_dir && !b.is_dir) || (a.is_dir == b.is_dir && lex_lt(a.name@, b.name@))
}

/// `x` put into the ordered `s` after every entry it does not come before
/// (a stable insertion).
pub open spec fn insert_node(s: Seq<TreeNode>, x: TreeNode) -> Seq<TreeNode>
    decreases s.len(),
{
    if s.len() == 0 {
        seq![x]
    } else if node_before(x, s.last()) {
        insert_node(s.drop_last(), x).push(s.last())
    } else {
        s.push(x)
    }
}

/// The entries in the order of the tree (a stable sort).
pub open spec fn sort_nodes(s: Seq<TreeNode>) -> Seq<TreeNode>
    decreases s.len(),
{
    if s.len() == 0 {
        Seq::empty()
    } else {
        insert_node(sort_nodes(s.drop_last()), s.last())
    }
}

/// How many of the entries are files.
pub open spec fn files_in(s: Seq<TreeNode>) -> nat
    decreases s.len(),
{
    if s.len() == 0 {
        0
    } else {
        files_in(s.drop_last()) + if s.last().is_dir {
            0nat
        } else {
            1nat
        }
    }
}

/// Every directory and the first three files.
pub open spec fn first_files(s: Seq<TreeNode>) -> Seq<TreeNode>
    decreases s.len(),
{
    if s.len() == 0 {
        Seq::empty()
    } else {
        let prev = first_files(s.drop_last());
        if s.last().is_dir || files_in(s.drop_last()) < 3 {
            prev.push(s.last())
        } else {
            prev
        }
    }
}

/// Whether `a` may stand before `b` on one level of the tree: no file before
/// a directory, and two of a kind in order of their names.
pub open spec fn in_tree_order(a: TreeNode, b: TreeNode) -> bool {
    &&& b.is_dir ==> a.is_dir
    &&& a.is_dir == b.is_dir ==> !lex_lt(b.name@, a.name@)
}

pub open spec fn tree_sorted(s: Seq<TreeNode>) -> bool {
    forall|i: int, j: int| 0 <= i < j < s.len() ==> in_tree_order(#[trigger] s[i], #[trigger] s[j])
}

proof fn lemma_insert_node_from(s: Seq<TreeNode>, x: TreeNode)
    ensures
        insert_node(s, x).len() == s.len() + 1,
        forall|i: int| 0 <= i < insert_node(s, x).len() ==> #[trigger] insert_node(s, x)[i] == x || s.contains(insert_node(s, x)[i]),
    decreases s.len(),
{
    if s.len() > 0 && node_before(x, s.last()) {
        lemma_insert_node_from(s.drop_last(), x);
        let t = insert_node(s.drop_last(), x);
        assert forall|i: int| 0 <= i < insert_node(s, x).len() implies #[trigger] insert_node(s, x)[i] == x || s.contains(
            insert_node(s, x)[i],
        ) by {
            if i < t.len() {
                assert(insert_node(s, x)[i] == t[i]);
                if t[i] != x {
                    let m = choose|m: int| 0 <= m < s.drop_last().len() && s.drop_last()[m] == t[i];
                    assert(s[m] == t[i]);
                }
            } else {
                assert(insert_node(s, x)[i] == s.last());
                assert(s[s.len() - 1] == s.last());
            }
        }
    } else if s.len() > 0 {
        assert forall|i: int| 0 <= i < insert_node(s, x).len() implies #[trigger] insert_node(s, x)[i] == x || s.contains(
            insert_node(s, x)[i],
        ) by {
            if i < s.len() {
                assert(insert_node(s, x)[i] == s[i]);
            }
        }
    }
}

proof fn lemma_order_after(y: TreeNode, l: TreeNode, x: TreeNode)
    requires
        in_tree_order(y, l),
        !node_before(x, l),
    ensures
        in_tree_order(y, x),
{
    lemma_lex_total(x.name@, l.name@);
    lemma_lex_total(y.name@, l.name@);
    lemma_lex_asym(y.name@, x.name@);
    lemma_lex_asym(x.name@, y.name@);
    if y.is_dir == x.is_dir && x.is_dir == l.is_dir {
        if lex_lt(x.name@, y.name@) {
            // y <= l <= x, so not x < y.
            if lex_lt(l.name@, x.name@) {
                if lex_lt(y.name@, l.name@) {
                    lemma_lex_trans(y.name@, l.name@, x.name@);
                }
            } else if lex_lt(y.name@, l.name@) {
                assert(l.name@ == x.name@);
            }
        }
    }
}

proof fn lemma_insert_sorted(s: Seq<TreeNode>, x: TreeNode)
    requires
        tree_sorted(s),
    ensures
        tree_sorted(insert_node(s, x)),
    decreases s.len(),
{
    lemma_insert_node_from(s, x);
    if s.len() == 0 {
    } else if node_before(x, s.last()) {
        let l = s.last();
        let d = s.drop_last();
        assert(tree_sorted(d)) by {
            assert forall|i: int, j: int| 0 <= i < j < d.len() implies in_tree_order(#[trigger] d[i], #[trigger] d[j]) by {
                assert(d[i] == s[i] && d[j] == s[j]);
            }
        }
        lemma_insert_sorted(d, x);
        lemma_insert_node_from(d, x);
        let t = insert_node(d, x);
        let r = insert_node(s, x);
        assert(r == t.push(l));
        lemma_lex_asym(x.name@, l.name@);
        assert forall|i: int, j: int| 0 <= i < j < r.len() implies in_tree_order(#[trigger] r[i], #[trigger] r[j]) by {
            if j < t.len() {
                assert(r[i] == t[i] && r[j] == t[j]);
            } else {
                assert(r[j] == l);
                assert(r[i] == t[i]);
                if t[i] != x {
                    let m = choose|m: int| 0 <= m < d.len() && d[m] == t[i];
                    assert(s[m] == t[i]);
                    assert(s[s.len() - 1] == l);
                }
            }
        }
    } else {
        let l = s.last();
        let r = insert_node(s, x);
        assert(r == s.push(x));
        assert forall|i: int, j: int| 0 <= i < j < r.len() implies in_tree_order(#[trigger] r[i], #[trigger] r[j]) by {
            if j < s.len() {
                assert(r[i] == s[i] && r[j] == s[j]);
            } else {
                assert(r[i] == s[i]);
                assert(r[j] == x);
                assert(s[s.len() - 1] == l);
                if i < s.len() - 1 {
                    assert(in_tree_order(s[i], l));
                } else {
                    lemma_lex_total(x.name@, l.name@);
                    lemma_lex_asym(l.name@, x.name@);
                }
                lemma_order_after_or_self(s[i], l, x);
            }
        }
    }
}

proof fn lemma_order_after_or_self(y: TreeNode, l: TreeNode, x: TreeNode)
    requires
        y == l || in_tree_order(y, l),
        !node_before(x, l),
    ensures
        in_tree_order(y, x),
{
    lemma_lex_total(x.name@, l.name@);
    lemma_lex_asym(l.name@, x.name@);
    if y != l {
        lemma_order_after(y, l, x);
    }
}

proof fn lemma_sort_sorted(s: Seq<TreeNode>)
    ensures
        tree_sorted(sort_nodes(s)),
    decreases s.len(),
{
    if s.len() > 0 {
        lemma_sort_sorted(s.drop_last());
        lemma_insert_sorted(sort_nodes(s.drop_last()), s.last());
    }
}

proof fn lemma_first_files_sorted(s: Seq<TreeNode>)
    requires
        tree_sorted(s),
    ensures
        tree_sorted(first_files(s)),
        forall|i: int| 0 <= i < first_files(s).len() ==> s.contains(#[trigger] first_files(s)[i]),
    decreases s.len(),
{
    if s.len() > 0 {
        let d = s.drop_last();
        assert(tree_sorted(d)) by {
            assert forall|i: int, j: int| 0 <= i < j < d.len() implies in_tree_order(#[trigger] d[i], #[trigger] d[j]) by {
                assert(d[i] == s[i] && d[j] == s[j]);
            }
        }
        lemma_first_files_sorted(d);
        let p = first_files(d);
        let r = first_files(s);
        assert(s[s.len() - 1] == s.last());
        assert forall|i: int| 0 <= i < p.len() implies #[trigger] s.contains(p[i]) && in_tree_order(p[i], s.last()) by {
            let m = choose|m: int| 0 <= m < d.len() && d[m] == p[i];
            assert(s[m] == p[i]);
        }
        if r != p {
            assert(r == p.push(s.last()));
            assert forall|i: int, j: int| 0 <= i < j < r.len() implies in_tree_order(#[trigger] r[i], #[trigger] r[j]) by {
                assert(r[i] == p[i]);
                if j < p.len() {
                    assert(r[j] == p[j]);
                }
            }
            assert forall|i: int| 0 <= i < r.len() implies s.contains(#[trigger] r[i]) by {
                if i < p.len() {
                    assert(r[i] == p[i]);
                }
            }
        }
    }
}

/// One level of the tree lists every directory before every file, the
/// directories in increasing order of their names, and the files in
/// increasing order of their names up to the last line, which, when more than
/// three files are shown, counts the rest.
pub proof fn law_tree_level_order(nodes: Seq<TreeNode>, show_dotfiles: bool, show_winhidden: bool, rule: HiddenRule, cfg: Config)
    ensures
        ({
            let items = arrange(nodes, show_dotfiles, show_winhidden, rule, cfg);
            &&& forall|i: int, j: int| 0 <= i < j < items.len() && (#[trigger] items[j]).1 ==> (#[trigger] items[i]).1
            &&& forall|i: int, j: int|
                0 <= i < j < items.len() && (#[trigger] items[i]).1 && (#[trigger] items[j]).1 ==> !lex_lt(
                    items[j].0,
                    items[i].0,
                )
            &&& forall|i: int, j: int|
                0 <= i < j < items.len() - 1 && !(#[trigger] items[i]).1 && !(#[trigger] items[j]).1 ==> !lex_lt(
                    items[j].0,
                    items[i].0,
                )
        }),
{
    let s = sort_nodes(shown_nodes(nodes, show_dotfiles, show_winhidden, rule, cfg));
    lemma_sort_sorted(shown_nodes(nodes, show_dotfiles, show_winhidden, rule, cfg));
    lemma_first_files_sorted(s);
    let f = first_files(s);
    let base = f.map_values(|n: TreeNode| item_of(n));
    let items = arrange(nodes, show_dotfiles, show_winhidden, rule, cfg);
    assert forall|i: int, j: int| 0 <= i < j < base.len() implies in_tree_order(f[i], f[j]) && #[trigger] base[i] == item_of(f[i])
        && #[trigger] base[j] == item_of(f[j]) by {
    }
    assert forall|i: int, j: int| 0 <= i < j < items.len() && (#[trigger] items[j]).1 implies (#[trigger] items[i]).1 by {
        if j < base.len() {
            assert(items[i] == base[i] && items[j] == base[j]);
            assert(in_tree_order(f[i], f[j]));
        }
    }
    assert forall|i: int, j: int|
        0 <= i < j < items.len() && (#[trigger] items[i]).1 && (#[trigger] items[j]).1 implies !lex_lt(items[j].0, items[i].0) by {
        if j < base.len() {
            assert(items[i] == base[i] && items[j] == base[j]);
            assert(in_tree_order(f[i], f[j]));
        }
    }
    assert forall|i: int, j: int|
        0 <= i < j < items.len() - 1 && !(#[trigger] items[i]).1 && !(#[trigger] items[j]).1 implies !lex_lt(
            items[j].0,
            items[i].0,
        ) by {
        assert(j < base.len());
        assert(items[i] == base[i] && items[j] == base[j]);
        assert(in_tree_order(f[i], f[j]));
    }
}

/// The line that stands for the files left out.
pub open spec fn more_label(n: nat) -> Seq<char> {
    "⋯ ("@ + decimal(n) + " more)"@
}

pub open spec fn item_of(n: TreeNode) -> (Seq<char>, bool, Seq<TreeNode>) {
    (n.name@, n.is_dir, n.children@)
}

/// What one level of the tree lists: the entries shown, in order, with only
/// the first three files when there are more, and then a line saying how
/// many more there are.
pub open spec fn arrange(nodes: Seq<TreeNode>, show_dotfiles: bool, show_winhidden: bool, rule: HiddenRule, cfg: Config) -> Seq<(Seq<char>, bool, Seq<TreeNode>)> {
    let s = sort_nodes(shown_nodes(nodes, show_dotfiles, show_winhidden, rule, cfg));
    let base = first_files(s).map_values(|n: TreeNode| item_of(n));
    if files_in(s) > 3 {
        base.push((more_label((files_in(s) - 3) as nat), false, Seq::empty()))
    } else {
        base
    }
}

// ---------------------------------------------------------------------------
// The lines drawn
// ---------------------------------------------------------------------------

/// The branch drawn before an entry: none for a file at the top level.
pub open spec fn branch(depth: nat, is_dir: bool, is_last: bool) -> Seq<char> {
    if depth == 0 && !is_dir {
        Seq::empty()
    } else if is_last {
        "└── "@
    } else {
        "├── "@
    }
}

pub open spec fn tree_icon(name: Seq<char>, is_dir: bool) -> Seq<char> {
    if is_dir {
        "\u{f07b}"@
    } else {
        icon_by_name(name)@
    }
}

pub open spec fn tree_style(is_dir: bool) -> Style {
    if is_dir {
        bold(Color::Cyan)
    } else {
        plain(Color::White)
    }
}

pub open spec fn child_prefix(prefix: Seq<char>, is_last: bool) -> Seq<char> {
    prefix + if is_last {
        "    "@
    } else {
        "│   "@
    }
}

/// The lines drawn for one item of a level, the directories among them that
/// can be entered, and the line count after them; `counter` is the index of
/// the item's line. A directory is followed by its own level while the depth
/// is below `max_depth`.
pub open spec fn render_one(
    item: (Seq<char>, bool, Seq<TreeNode>),
    is_last: bool,
    path: Seq<char>,
    max_depth: nat,
    depth: nat,
    prefix: Seq<char>,
    show_dotfiles: bool,
    show_winhidden: bool,
    rule: HiddenRule,
    cfg: Config,
    counter: nat,
) -> (Seq<(Seq<char>, Style)>, Seq<(Seq<char>, Seq<char>, nat)>, nat)
    decreases max_depth - depth, 0nat, 0nat,
{
    let name = item.0;
    let is_dir = item.1;
    let line = (
        prefix + branch(depth, is_dir, is_last) + tree_icon(name, is_dir) + seq![' '] + name,
        tree_style(is_dir),
    );
    let entry_path = spec_path_join(path, name);
    let entry: Seq<(Seq<char>, Seq<char>, nat)> = if is_dir {
        seq![(name, entry_path, counter)]
    } else {
        Seq::empty()
    };
    if is_dir && depth < max_depth {
        let below = render_items(
            arrange(item.2, show_dotfiles, show_winhidden, rule, cfg),
            0,
            entry_path,
            max_depth,
            depth + 1,
            child_prefix(prefix, is_last),
            show_dotfiles,
            show_winhidden,
            rule,
            cfg,
            counter + 1,
        );
        (seq![line] + below.0, entry + below.1, below.2)
    } else {
        (seq![line], entry, counter + 1)
    }
}

/// The lines drawn for the items of a level from the `k`-th on, the
/// directories that can be entered, and the line count after them; `counter`
/// is the index of the first line.
pub open spec fn render_items(
    items: Seq<(Seq<char>, bool, Seq<TreeNode>)>,
    k: int,
    path: Seq<char>,
    max_depth: nat,
    depth: nat,
    prefix: Seq<char>,
    show_dotfiles: bool,
    show_winhidden: bool,
    rule: HiddenRule,
    cfg: Config,
    counter: nat,
) -> (Seq<(Seq<char>, Style)>, Seq<(Seq<char>, Seq<char>, nat)>, nat)
    decreases max_depth - depth, items.len() - k, 1nat,
{
    if k < 0 || k >= items.len() {
        (Seq::empty(), Seq::empty(), counter)
    } else {
        let one = render_one(
            items[k],
            k == items.len() - 1,
            path,
            max_depth,
            depth,
            prefix,
            show_dotfiles,
            show_winhidden,
            rule,
            cfg,
            counter,
        );
        let rest = render_items(
            items,
            k + 1,
            path,
            max_depth,
            depth,
            prefix,
            show_dotfiles,
            show_winhidden,
            rule,
            cfg,
            one.2,
        );
        (one.0 + rest.0, one.1 + rest.1, rest.2)
    }
}

/// The lines of the tree of a directory with entries `nodes`, the
/// directories in it that can be entered, and the line count after it.
pub open spec fn render_tree(
    nodes: Seq<TreeNode>,
    path: Seq<char>,
    max_depth: nat,
    depth: nat,
    prefix: Seq<char>,
    show_dotfiles: bool,
    show_winhidden: bool,
    rule: HiddenRule,
    cfg: Config,
    counter: nat,
) -> (Seq<(Seq<char>, Style)>, Seq<(Seq<char>, Seq<char>, nat)>, nat) {
    render_items(
        arrange(nodes, show_dotfiles, show_winhidden, rule, cfg),
        0,
        path,
        max_depth,
        depth,
        prefix,
        show_dotfiles,
        show_winhidden,
        rule,
        cfg,
        counter,
    )
}

/// Each line drawn for an item advances the line count by one.
pub proof fn lemma_render_one_counts(
    item: (Seq<char>, bool, Seq<TreeNode>),
    is_last: bool,
    path: Seq<char>,
    max_depth: nat,
    depth: nat,
    prefix: Seq<char>,
    show_dotfiles: bool,
    show_winhidden: bool,
    rule: HiddenRule,
    cfg: Config,
    counter: nat,
)
    ensures
        ({
            let r = render_one(item, is_last, path, max_depth, depth, prefix, show_dotfiles, show_winhidden, rule, cfg, counter);
            r.2 == counter + r.0.len()
        }),
    decreases max_depth - depth, 0nat, 0nat,
{
    if item.1 && depth < max_depth {
        lemma_render_counts(
            arrange(item.2, show_dotfiles, show_winhidden, rule, cfg),
            0,
            spec_path_join(path, item.0),
            max_depth,
            depth + 1,
            child_prefix(prefix, is_last),
            show_dotfiles,
            show_winhidden,
            rule,
            cfg,
            counter + 1,
        );
    }
}

/// Each line drawn advances the line count by one.
pub proof fn lemma_render_counts(
    items: Seq<(Seq<char>, bool, Seq<TreeNode>)>,
    k: int,
    path: Seq<char>,
    max_depth: nat,
    depth: nat,
    prefix: Seq<char>,
    show_dotfiles: bool,
    show_winhidden: bool,
    rule: HiddenRule,
    cfg: Config,
    counter: nat,
)
    ensures
        ({
            let r = render_items(items, k, path, max_depth, depth, prefix, show_dotfiles, show_winhidden, rule, cfg, counter);
            r.2 == counter + r.0.len()
        }),
    decreases max_depth - depth, items.len() - k, 1nat,
{
    if 0 <= k < items.len() {
        lemma_render_one_counts(items[k], k == items.len() - 1, path, max_depth, depth, prefix, show_dotfiles, show_winhidden, rule, cfg, counter);
        let one = render_one(items[k], k == items.len() - 1, path, max_depth, depth, prefix, show_dotfiles, show_winhidden, rule, cfg, counter);
        lemma_render_counts(items, k + 1, path, max_depth, depth, prefix, show_dotfiles, show_winhidden, rule, cfg, one.2);
    }
}

/// Whether `s` ends with `t`.
pub open spec fn ends_with(s: Seq<char>, t: Seq<char>) -> bool {
    s.len() >= t.len() && s.subrange(s.len() - t.len(), s.len() as int) == t
}

/// Whether every directory recorded, with the line count `counter` at the
/// first line, points at a line of `lines` that ends with its name.
pub open spec fn entries_point_at_lines(
    lines: Seq<(Seq<char>, Style)>,
    entries: Seq<(Seq<char>, Seq<char>, nat)>,
    counter: nat,
) -> bool {
    forall|j: int|
        0 <= j < entries.len() ==> {
            let e = #[trigger] entries[j];
            &&& counter <= e.2 < counter + lines.len()
            &&& ends_with(lines[e.2 - counter].0, " "@ + e.0)
        }
}

proof fn lemma_render_one_entries(
    item: (Seq<char>, bool, Seq<TreeNode>),
    is_last: bool,
    path: Seq<char>,
    max_depth: nat,
    depth: nat,
    prefix: Seq<char>,
    show_dotfiles: bool,
    show_winhidden: bool,
    rule: HiddenRule,
    cfg: Config,
    counter: nat,
)
    ensures
        ({
            let r = render_one(item, is_last, path, max_depth, depth, prefix, show_dotfiles, show_winhidden, rule, cfg, counter);
            entries_point_at_lines(r.0, r.1, counter)
        }),
    decreases max_depth - depth, 0nat, 0nat,
{
    let r = render_one(item, is_last, path, max_depth, depth, prefix, show_dotfiles, show_winhidden, rule, cfg, counter);
    let name = item.0;
    let line = prefix + branch(depth, item.1, is_last) + tree_icon(name, item.1) + seq![' '] + name;
    assert(ends_with(line, " "@ + name)) by {
        reveal_strlit(" ");
        assert(" "@ =~= seq![' ']);
        assert(line.subrange(line.len() - (name.len() + 1), line.len() as int) =~= " "@ + name);
    }
    if item.1 && depth < max_depth {
        let entry_path = spec_path_join(path, name);
        let below = render_items(
            arrange(item.2, show_dotfiles, show_winhidden, rule, cfg),
            0,
            entry_path,
            max_depth,
            depth + 1,
            child_prefix(prefix, is_last),
            show_dotfiles,
            show_winhidden,
            rule,
            cfg,
            counter + 1,
        );
        lemma_render_entries(
            arrange(item.2, show_dotfiles, show_winhidden, rule, cfg),
            0,
            entry_path,
            max_depth,
            depth + 1,
            child_prefix(prefix, is_last),
            show_dotfiles,
            show_winhidden,
            rule,
            cfg,
            counter + 1,
        );
        assert forall|j: int| 0 <= j < r.1.len() implies {
            let e = #[trigger] r.1[j];
            &&& counter <= e.2 < counter + r.0.len()
            &&& ends_with(r.0[e.2 - counter].0, " "@ + e.0)
        } by {
            if j == 0 {
                assert(r.1[j] == (name, entry_path, counter));
                assert(r.0[0] == (line, tree_style(item.1)));
            } else {
                let e = r.1[j];
                assert(e == below.1[j - 1]);
                assert(r.0[e.2 - counter] == below.0[e.2 - (counter + 1)]);
            }
        }
    } else if item.1 {
        assert(r.1[0].2 == counter);
        assert(r.0[0] == (line, tree_style(item.1)));
    }
}

proof fn lemma_render_entries(
    items: Seq<(Seq<char>, bool, Seq<TreeNode>)>,
    k: int,
    path: Seq<char>,
    max_depth: nat,
    depth: nat,
    prefix: Seq<char>,
    show_dotfiles: bool,
    show_winhidden: bool,
    rule: HiddenRule,
    cfg: Config,
    counter: nat,
)
    ensures
        ({
            let r = render_items(items, k, path, max_depth, depth, prefix, show_dotfiles, show_winhidden, rule, cfg, counter);
            entries_point_at_lines(r.0, r.1, counter)
        }),
    decreases max_depth - depth, items.len() - k, 1nat,
{
    if 0 <= k < items.len() {
        let is_last = k == items.len() - 1;
        let one = render_one(items[k], is_last, path, max_depth, depth, prefix, show_dotfiles, show_winhidden, rule, cfg, counter);
        let rest = render_items(items, k + 1, path, max_depth, depth, prefix, show_dotfiles, show_winhidden, rule, cfg, one.2);
        let r = render_items(items, k, path, max_depth, depth, prefix, show_dotfiles, show_winhidden, rule, cfg, counter);
        lemma_render_one_entries(items[k], is_last, path, max_depth, depth, prefix, show_dotfiles, show_winhidden, rule, cfg, counter);
        lemma_render_one_counts(items[k], is_last, path, max_depth, depth, prefix, show_dotfiles, show_winhidden, rule, cfg, counter);
        lemma_render_entries(items, k + 1, path, max_depth, depth, prefix, show_dotfiles, show_winhidden, rule, cfg, one.2);
        assert forall|j: int| 0 <= j < r.1.len() implies {
            let e = #[trigger] r.1[j];
            &&& counter <= e.2 < counter + r.0.len()
            &&& ends_with(r.0[e.2 - counter].0, " "@ + e.0)
        } by {
            if j < one.1.len() {
                let e = one.1[j];
                assert(r.1[j] == e);
                assert(r.0[e.2 - counter] == one.0[e.2 - counter]);
            } else {
                let e = rest.1[j - one.1.len()];
                assert(r.1[j] == e);
                assert(r.0[e.2 - counter] == rest.0[e.2 - one.2]);
            }
        }
    }
}

/// Every directory the preview tree records points at the line drawn for it:
/// its line index lies among the lines drawn, and that line ends with its
/// name.
pub proof fn law_entries_point_at_their_lines(
    nodes: Seq<TreeNode>,
    path: Seq<char>,
    max_depth: nat,
    depth: nat,
    prefix: Seq<char>,
    show_dotfiles: bool,
    show_winhidden: bool,
    rule: HiddenRule,
    cfg: Config,
    counter: nat,
)
    ensures
        ({
            let r = render_tree(nodes, path, max_depth, depth, prefix, show_dotfiles, show_winhidden, rule, cfg, counter);
            entries_point_at_lines(r.0, r.1, counter)
        }),
{
    lemma_render_entries(
        arrange(nodes, show_dotfiles, show_winhidden, rule, cfg),
        0,
        path,
        max_depth,
        depth,
        prefix,
        show_dotfiles,
        show_winhidden,
        rule,
        cfg,
        counter,
    );
}

/// Whether the directories recorded, with the line count `counter` at the
/// first line, come in the order of their lines, each on a line drawn as a
/// directory, and every line drawn as a directory has one of them.
pub open spec fn entries_index_dir_lines(
    lines: Seq<(Seq<char>, Style)>,
    entries: Seq<(Seq<char>, Seq<char>, nat)>,
    counter: nat,
) -> bool {
    &&& forall|i: int, j: int| 0 <= i < j < entries.len() ==> (#[trigger] entries[i]).2 < (#[trigger] entries[j]).2
    &&& forall|j: int|
        0 <= j < entries.len() ==> counter <= (#[trigger] entries[j]).2 < counter + lines.len() && lines[entries[j].2
            - counter].1 == tree_style(true)
    &&& forall|l: int|
        0 <= l < lines.len() && (#[trigger] lines[l]).1 == tree_style(true) ==> exists|j: int|
            0 <= j < entries.len() && entries[j].2 == counter + l
}

proof fn lemma_render_one_dir_lines(
    item: (Seq<char>, bool, Seq<TreeNode>),
    is_last: bool,
    path: Seq<char>,
    max_depth: nat,
    depth: nat,
    prefix: Seq<char>,
    show_dotfiles: bool,
    show_winhidden: bool,
    rule: HiddenRule,
    cfg: Config,
    counter: nat,
)
    ensures
        ({
            let r = render_one(item, is_last, path, max_depth, depth, prefix, show_dotfiles, show_winhidden, rule, cfg, counter);
            entries_index_dir_lines(r.0, r.1, counter)
        }),
    decreases max_depth - depth, 0nat, 0nat,
{
    let r = render_one(item, is_last, path, max_depth, depth, prefix, show_dotfiles, show_winhidden, rule, cfg, counter);
    assert(tree_style(false) != tree_style(true));
    if item.1 && depth < max_depth {
        let entry_path = spec_path_join(path, item.0);
        let items = arrange(item.2, show_dotfiles, show_winhidden, rule, cfg);
        let cp = child_prefix(prefix, is_last);
        let below = render_items(items, 0, entry_path, max_depth, depth + 1, cp, show_dotfiles, show_winhidden, rule, cfg, counter + 1);
        lemma_render_dir_lines(items, 0, entry_path, max_depth, depth + 1, cp, show_dotfiles, show_winhidden, rule, cfg, counter + 1);
        assert(r.0 == seq![r.0[0]] + below.0);
        assert(r.1 == seq![r.1[0]] + below.1);
        assert forall|i: int, j: int| 0 <= i < j < r.1.len() implies (#[trigger] r.1[i]).2 < (#[trigger] r.1[j]).2 by {
            assert(r.1[j] == below.1[j - 1]);
            if i > 0 {
                assert(r.1[i] == below.1[i - 1]);
            }
        }
        assert forall|j: int| 0 <= j < r.1.len() implies counter <= (#[trigger] r.1[j]).2 < counter + r.0.len()
            && r.0[r.1[j].2 - counter].1 == tree_style(true) by {
            if j > 0 {
                let e = below.1[j - 1];
                assert(r.1[j] == e);
                assert(r.0[e.2 - counter] == below.0[e.2 - (counter + 1)]);
            }
        }
        assert forall|l: int| 0 <= l < r.0.len() && (#[trigger] r.0[l]).1 == tree_style(true) implies exists|j: int|
            0 <= j < r.1.len() && r.1[j].2 == counter + l by {
            if l == 0 {
                assert(r.1[0].2 == counter + l);
            } else {
                assert(r.0[l] == below.0[l - 1]);
                let j2 = choose|j2: int| 0 <= j2 < below.1.len() && below.1[j2].2 == counter + 1 + (l - 1);
                assert(r.1[j2 + 1] == below.1[j2]);
            }
        }
    } else if item.1 {
        assert(r.1[0].2 == counter);
    } else {
        assert(r.0.len() == 1);
    }
}

proof fn lemma_render_dir_lines(
    items: Seq<(Seq<char>, bool, Seq<TreeNode>)>,
    k: int,
    path: Seq<char>,
    max_depth: nat,
    depth: nat,
    prefix: Seq<char>,
    show_dotfiles: bool,
    show_winhidden: bool,
    rule: HiddenRule,
    cfg: Config,
    counter: nat,
)
    ensures
        ({
            let r = render_items(items, k, path, max_depth, depth, prefix, show_dotfiles, show_winhidden, rule, cfg, counter);
            entries_index_dir_lines(r.0, r.1, counter)
        }),
    decreases max_depth - depth, items.len() - k, 1nat,
{
    if 0 <= k < items.len() {
        let is_last = k == items.len() - 1;
        let one = render_one(items[k], is_last, path, max_depth, depth, prefix, show_dotfiles, show_winhidden, rule, cfg, counter);
        let rest = render_items(items, k + 1, path, max_depth, depth, prefix, show_dotfiles, show_winhidden, rule, cfg, one.2);
        let r = render_items(items, k, path, max_depth, depth, prefix, show_dotfiles, show_winhidden, rule, cfg, counter);
        lemma_render_one_dir_lines(items[k], is_last, path, max_depth, depth, prefix, show_dotfiles, show_winhidden, rule, cfg, counter);
        lemma_render_one_counts(items[k], is_last, path, max_depth, depth, prefix, show_dotfiles, show_winhidden, rule, cfg, counter);
        lemma_render_dir_lines(items, k + 1, path, max_depth, depth, prefix, show_dotfiles, show_winhidden, rule, cfg, one.2);
        let n1 = one.1.len() as int;
        let m1 = one.0.len() as int;
        assert forall|i: int, j: int| 0 <= i < j < r.1.len() implies (#[trigger] r.1[i]).2 < (#[trigger] r.1[j]).2 by {
            if j < n1 {
                assert(r.1[i] == one.1[i] && r.1[j] == one.1[j]);
            } else if i < n1 {
                assert(r.1[i] == one.1[i] && r.1[j] == rest.1[j - n1]);
            } else {
                assert(r.1[i] == rest.1[i - n1] && r.1[j] == rest.1[j - n1]);
            }
        }
        assert forall|j: int| 0 <= j < r.1.len() implies counter <= (#[trigger] r.1[j]).2 < counter + r.0.len()
            && r.0[r.1[j].2 - counter].1 == tree_style(true) by {
            if j < n1 {
                let e = one.1[j];
                assert(r.1[j] == e);
                assert(r.0[e.2 - counter] == one.0[e.2 - counter]);
            } else {
                let e = rest.1[j - n1];
                assert(r.1[j] == e);
                assert(r.0[e.2 - counter] == rest.0[e.2 - one.2]);
            }
        }
        assert forall|l: int| 0 <= l < r.0.len() && (#[trigger] r.0[l]).1 == tree_style(true) implies exists|j: int|
            0 <= j < r.1.len() && r.1[j].2 == counter + l by {
            if l < m1 {
                assert(r.0[l] == one.0[l]);
                let j2 = choose|j2: int| 0 <= j2 < one.1.len() && one.1[j2].2 == counter + l;
                assert(r.1[j2] == one.1[j2]);
            } else {
                assert(r.0[l] == rest.0[l - m1]);
                let j2 = choose|j2: int| 0 <= j2 < rest.1.len() && rest.1[j2].2 == one.2 + (l - m1);
                assert(r.1[j2 + n1] == rest.1[j2]);
            }
        }
    }
}

/// The directories the preview tree records are one for each line drawn as
/// a directory, in the order of the lines: their line indices strictly
/// increase, each lies among the lines drawn on a directory's line, and each
/// directory's line has one.
pub proof fn law_one_entry_per_directory_line(
    nodes: Seq<TreeNode>,
    path: Seq<char>,
    max_depth: nat,
    depth: nat,
    prefix: Seq<char>,
    show_dotfiles: bool,
    show_winhidden: bool,
    rule: HiddenRule,
    cfg: Config,
    counter: nat,
)
    ensures
        ({
            let r = render_tree(nodes, path, max_depth, depth, prefix, show_dotfiles, show_winhidden, rule, cfg, counter);
            entries_index_dir_lines(r.0, r.1, counter)
        }),
{
    lemma_render_dir_lines(
        arrange(nodes, show_dotfiles, show_winhidden, rule, cfg),
        0,
        path,
        max_depth,
        depth,
        prefix,
        show_dotfiles,
        show_winhidden,
        rule,
        cfg,
        counter,
    );
}

// ---------------------------------------------------------------------------
// Executable
// ---------------------------------------------------------------------------

pub open spec fn derefs(v: Seq<&TreeNode>) -> Seq<TreeNode> {
    v.map_values(|r: &TreeNode| *r)
}

/// Whether an entry is shown.
pub fn tree_entry_shown(n: &TreeNode, show_dotfiles: bool, show_winhidden: bool, rule: HiddenRule, cfg: &Config) -> (r: bool)
    ensures
        r == tree_shows(*n, show_dotfiles, show_winhidden, rule, *cfg),
{
    match rule {
        HiddenRule::Listing => !should_exclude(n.name.as_str(), show_dotfiles, show_winhidden, cfg),
        HiddenRule::Attribute => {
            if strings_contain(&cfg.exclude_dirs, n.name.as_str()) {
                return false;
            }
            if !show_dotfiles {
                let c = chars_of(n.name.as_str());
                if c.len() > 0 && c[0] == '.' {
                    return false;
                }
            }
            !(!show_winhidden && n.hidden)
        },
    }
}

fn before(a: &TreeNode, b: &TreeNode) -> (r: bool)
    ensures
        r == node_before(*a, *b),
{
    if a.is_dir != b.is_dir {
        return a.is_dir;
    }
    let an = chars_of(a.name.as_str());
    let bn = chars_of(b.name.as_str());
    chars_lt(an.as_slice(), bn.as_slice())
}

proof fn lemma_insert_node_at(s: Seq<TreeNode>, x: TreeNode, p: int)
    requires
        0 <= p <= s.len(),
        forall|k: int| p <= k < s.len() ==> node_before(x, #[trigger] s[k]),
        p == 0 || !node_before(x, s[p - 1]),
    ensures
        insert_node(s, x) == s.insert(p, x),
    decreases s.len(),
{
    if s.len() == 0 {
        assert(s.insert(p, x) =~= seq![x]);
    } else if p == s.len() {
        assert(s.insert(p, x) =~= s.push(x));
    } else {
        assert(node_before(x, s.last()));
        lemma_insert_node_at(s.drop_last(), x, p);
        assert(s.drop_last().insert(p, x).push(s.last()) =~= s.insert(p, x));
    }
}

/// The shown entries in the order of the tree.
fn arrange_nodes<'a>(nodes: &'a Vec<TreeNode>, show_dotfiles: bool, show_winhidden: bool, rule: HiddenRule, cfg: &Config) -> (r: Vec<&'a TreeNode>)
    ensures
        derefs(r@) == sort_nodes(shown_nodes(nodes@, show_dotfiles, show_winhidden, rule, *cfg)),
{
    let ghost sh = shown_nodes(nodes@, show_dotfiles, show_winhidden, rule, *cfg);
    let mut out: Vec<&'a TreeNode> = Vec::new();
    let mut i: usize = 0;
    while i < nodes.len()
        invariant
            i <= nodes@.len(),
            derefs(out@) == sort_nodes(shown_nodes(nodes@.take(i as int), show_dotfiles, show_winhidden, rule, *cfg)),
        decreases nodes.len() - i,
    {
        let x = &nodes[i];
        proof {
            assert(nodes@.take(i + 1).drop_last() =~= nodes@.take(i as int));
            assert(nodes@.take(i + 1).last() == nodes@[i as int]);
        }
        if tree_entry_shown(x, show_dotfiles, show_winhidden, rule, cfg) {
            let mut p = out.len();
            while p > 0 && before(x, out[p - 1])
                invariant
                    p <= out@.len(),
                    forall|k: int| p <= k < out@.len() ==> node_before(*x, #[trigger] derefs(out@)[k]),
                decreases p,
            {
                p = p - 1;
            }
            proof {
                let d = derefs(out@);
                lemma_insert_node_at(d, *x, p as int);
                assert(derefs(out@.insert(p as int, x)) =~= d.insert(p as int, *x));
                let sh_i = shown_nodes(nodes@.take(i as int), show_dotfiles, show_winhidden, rule, *cfg);
                assert(shown_nodes(nodes@.take(i + 1), show_dotfiles, show_winhidden, rule, *cfg) == sh_i.push(*x));
                assert(sh_i.push(*x).drop_last() =~= sh_i);
            }
            out.insert(p, x);
        }
        i = i + 1;
    }
    assert(nodes@.take(nodes@.len() as int) =~= nodes@);
    out
}

proof fn lemma_first_files_len(s: Seq<TreeNode>)
    ensures
        files_in(s) <= s.len(),
        files_in(s) > 3 ==> first_files(s).len() == s.len() - (files_in(s) - 3),
        files_in(s) <= 3 ==> first_files(s).len() == s.len(),
    decreases s.len(),
{
    if s.len() > 0 {
        lemma_first_files_len(s.drop_last());
    }
}

/// Every directory and the first three files of the ordered entries, and how
/// many files there are.
fn keep_first_files<'a>(s: &Vec<&'a TreeNode>) -> (r: (Vec<&'a TreeNode>, usize))
    ensures
        derefs(r.0@) == first_files(derefs(s@)),
        r.1 == files_in(derefs(s@)),
{
    let ghost d = derefs(s@);
    let mut out: Vec<&'a TreeNode> = Vec::new();
    let mut files: usize = 0;
    let mut i: usize = 0;
    while i < s.len()
        invariant
            i <= s@.len(),
            d == derefs(s@),
            derefs(out@) == first_files(d.take(i as int)),
            files == files_in(d.take(i as int)),
            files <= i,
        decreases s.len() - i,
    {
        let x = s[i];
        proof {
            assert(d.take(i + 1).drop_last() =~= d.take(i as int));
            assert(d.take(i + 1).last() == *x);
        }
        if x.is_dir || files < 3 {
            proof {
                assert(derefs(out@.push(x)) =~= derefs(out@).push(*x));
            }
            out.push(x);
        }
        if !x.is_dir {
            files = files + 1;
        }
        i = i + 1;
    }
    assert(d.take(s@.len() as int) =~= d);
    (out, files)
}

/// The text of the line that stands for `n` files left out.
fn more_label_text(n: usize) -> (r: String)
    ensures
        r@ == more_label(n as nat),
{
    let mut v: Vec<char> = Vec::new();
    append_str(&mut v, "⋯ (");
    let d = decimal_chars(n as u64);
    append_chars(&mut v, d.as_slice());
    append_str(&mut v, " more)");
    string_from_chars(v.as_slice())
}

/// The line drawn for one item.
fn item_line(prefix: &str, depth: usize, name: &str, is_dir: bool, is_last: bool) -> (r: PreviewLine)
    ensures
        r.text@ == prefix@ + branch(depth as nat, is_dir, is_last) + tree_icon(name@, is_dir) + seq![' '] + name@,
        r.style == tree_style(is_dir),
{
    let mut v: Vec<char> = Vec::new();
    append_str(&mut v, prefix);
    if depth == 0 && !is_dir {
    } else if is_last {
        append_str(&mut v, "└── ");
    } else {
        append_str(&mut v, "├── ");
    }
    let icon = if is_dir {
        "\u{f07b}"
    } else {
        icon_for_name(name)
    };
    append_str(&mut v, icon);
    v.push(' ');
    append_str(&mut v, name);
    proof {
        if depth == 0 && !is_dir {
            assert(prefix@ + branch(depth as nat, is_dir, is_last) =~= prefix@);
        }
    }
    let style = if is_dir {
        Style { fg: Some(Color::Cyan), bold: true }
    } else {
        Style { fg: Some(Color::White), bold: false }
    };
    PreviewLine { text: string_from_chars(v.as_slice()), style }
}

fn prefix_below(prefix: &str, is_last: bool) -> (r: String)
    ensures
        r@ == child_prefix(prefix@, is_last),
{
    let mut v = chars_of(prefix);
    if is_last {
        append_str(&mut v, "    ");
    } else {
        append_str(&mut v, "│   ");
    }
    string_from_chars(v.as_slice())
}

pub open spec fn lines_view(v: Seq<PreviewLine>) -> Seq<(Seq<char>, Style)> {
    v.map_values(|l: PreviewLine| (l.text@, l.style))
}

pub open spec fn entries_view(v: Seq<PreviewEntry>) -> Seq<(Seq<char>, Seq<char>, nat)> {
    v.map_values(|e: PreviewEntry| (e.name@, e.full_path@, e.line_index as nat))
}

/// Whether `after` is `before` with entries added behind it, every added
/// entry a directory.
pub open spec fn keeps_and_adds_dirs(before: Seq<PreviewEntry>, after: Seq<PreviewEntry>) -> bool {
    &&& before.len() <= after.len()
    &&& forall|i: int| 0 <= i < before.len() ==> #[trigger] after[i] == before[i]
    &&& forall|i: int| before.len() <= i < after.len() ==> (#[trigger] after[i]).is_dir
}

proof fn lemma_keeps_trans(a: Seq<PreviewEntry>, b: Seq<PreviewEntry>, c: Seq<PreviewEntry>)
    requires
        keeps_and_adds_dirs(a, b),
        keeps_and_adds_dirs(b, c),
    ensures
        keeps_and_adds_dirs(a, c),
{
    assert forall|i: int| 0 <= i < a.len() implies #[trigger] c[i] == a[i] by {
        assert(c[i] == b[i]);
    }
    assert forall|i: int| a.len() <= i < c.len() implies (#[trigger] c[i]).is_dir by {
        if i < b.len() {
            assert(c[i] == b[i]);
        }
    }
}

/// The lines drawn for one entry of the tree (and, for a directory above
/// `max_depth`, for its own level), adding the directories drawn to the
/// context's entries with the index of their lines.
fn render_node(
    node: &TreeNode,
    is_last: bool,
    path: &str,
    max_depth: usize,
    current_depth: usize,
    prefix: &str,
    cfg: &Config,
    rule: HiddenRule,
    ctx: &mut TreeContext,
) -> (r: Vec<PreviewLine>)
    requires
        old(ctx).line_counter + render_one(item_of(*node), is_last, path@, max_depth as nat, current_depth as nat, prefix@, old(ctx).show_dotfiles, old(ctx).show_winhidden, rule, *cfg, old(ctx).line_counter as nat).0.len() <= usize::MAX,
    ensures
        ({
            let t = render_one(item_of(*node), is_last, path@, max_depth as nat, current_depth as nat, prefix@, old(ctx).show_dotfiles, old(ctx).show_winhidden, rule, *cfg, old(ctx).line_counter as nat);
            &&& lines_view(r@) == t.0
            &&& entries_view(final(ctx).out_entries@) == entries_view(old(ctx).out_entries@) + t.1
            &&& final(ctx).line_counter == t.2
        }),
        final(ctx).show_dotfiles == old(ctx).show_dotfiles,
        final(ctx).show_winhidden == old(ctx).show_winhidden,
        keeps_and_adds_dirs(old(ctx).out_entries@, final(ctx).out_entries@),
    decreases max_depth - current_depth, 0nat, 0nat,
{
    let ghost cnt = ctx.line_counter as nat;
    let ghost e_old = ctx.out_entries@;
    let show_dotfiles = ctx.show_dotfiles;
    let show_winhidden = ctx.show_winhidden;
    let line = item_line(prefix, current_depth, node.name.as_str(), node.is_dir, is_last);
    let entry_path = path_join(path, node.name.as_str());
    let ghost t = render_one(item_of(*node), is_last, path@, max_depth as nat, current_depth as nat, prefix@, show_dotfiles, show_winhidden, rule, *cfg, cnt);
    proof {
        lemma_render_one_counts(item_of(*node), is_last, path@, max_depth as nat, current_depth as nat, prefix@, show_dotfiles, show_winhidden, rule, *cfg, cnt);
    }
    let mut lines: Vec<PreviewLine> = Vec::new();
    lines.push(line);
    assert(lines_view(lines@) =~= seq![(line.text@, line.style)]);
    if node.is_dir {
        let e = PreviewEntry {
            name: node.name.clone(),
            full_path: entry_path.clone(),
            is_dir: true,
            line_index: ctx.line_counter,
        };
        proof {
            assert(entries_view(ctx.out_entries@.push(e)) =~= entries_view(e_old) + seq![(node.name@, entry_path@, cnt)]);
        }
        ctx.out_entries.push(e);
        assert(keeps_and_adds_dirs(e_old, ctx.out_entries@));
    } else {
        assert(entries_view(ctx.out_entries@) =~= entries_view(e_old) + Seq::<(Seq<char>, Seq<char>, nat)>::empty());
    }
    ctx.line_counter = ctx.line_counter + 1;
    if node.is_dir && current_depth < max_depth {
        let cp = prefix_below(prefix, is_last);
        let ghost mid = ctx.out_entries@;
        let mut child_lines: Vec<PreviewLine> = build_level(
            &node.children,
            entry_path.as_str(),
            max_depth,
            current_depth + 1,
            cp.as_str(),
            cfg,
            rule,
            ctx,
        );
        let ghost l0 = lines@;
        let ghost cl = child_lines@;
        lines.append(&mut child_lines);
        assert(lines_view(lines@) =~= lines_view(l0) + lines_view(cl));
        assert(entries_view(ctx.out_entries@) =~= entries_view(e_old) + t.1);
        proof {
            lemma_keeps_trans(e_old, mid, ctx.out_entries@);
        }
    }
    lines
}

/// The lines of one level of a tree and, below its directories, of the
/// levels under them (see `build_tree_lines`).
#[verifier::rlimit(60)]
#[verifier::spinoff_prover]
fn build_level(
    nodes: &Vec<TreeNode>,
    path: &str,
    max_depth: usize,
    current_depth: usize,
    prefix: &str,
    cfg: &Config,
    rule: HiddenRule,
    ctx: &mut TreeContext,
) -> (r: Vec<PreviewLine>)
    requires
        old(ctx).line_counter + render_tree(nodes@, path@, max_depth as nat, current_depth as nat, prefix@, old(ctx).show_dotfiles, old(ctx).show_winhidden, rule, *cfg, old(ctx).line_counter as nat).0.len() <= usize::MAX,
    ensures
        ({
            let t = render_tree(nodes@, path@, max_depth as nat, current_depth as nat, prefix@, old(ctx).show_dotfiles, old(ctx).show_winhidden, rule, *cfg, old(ctx).line_counter as nat);
            &&& lines_view(r@) == t.0
            &&& entries_view(final(ctx).out_entries@) == entries_view(old(ctx).out_entries@) + t.1
            &&& final(ctx).line_counter == t.2
        }),
        final(ctx).show_dotfiles == old(ctx).show_dotfiles,
        final(ctx).show_winhidden == old(ctx).show_winhidden,
        keeps_and_adds_dirs(old(ctx).out_entries@, final(ctx).out_entries@),
    decreases max_depth - current_depth, nodes@.len() + 2, 1nat,
{
    let show_dotfiles = ctx.show_dotfiles;
    let show_winhidden = ctx.show_winhidden;
    let sorted = arrange_nodes(nodes, show_dotfiles, show_winhidden, rule, cfg);
    let (kept, files) = keep_first_files(&sorted);
    let ghost items = arrange(nodes@, show_dotfiles, show_winhidden, rule, *cfg);
    let marker = files > 3;
    let n_sorted = sorted.len();
    proof {
        lemma_first_files_len(derefs(sorted@));
        assert(derefs(sorted@).len() == sorted@.len());
        assert(derefs(kept@).len() == kept@.len());
    }
    let count = if marker {
        kept.len() + 1
    } else {
        kept.len()
    };
    proof {
        assert forall|k: int| 0 <= k < kept@.len() implies #[trigger] items[k] == item_of(*kept@[k]) by {
            assert(derefs(kept@)[k] == *kept@[k]);
        }
    }
    let ghost c0 = ctx.line_counter as nat;
    let ghost e0 = ctx.out_entries@;
    let ghost total = render_items(items, 0, path@, max_depth as nat, current_depth as nat, prefix@, show_dotfiles, show_winhidden, rule, *cfg, c0);
    proof {
        lemma_render_counts(items, 0, path@, max_depth as nat, current_depth as nat, prefix@, show_dotfiles, show_winhidden, rule, *cfg, c0);
    }
    let mut lines: Vec<PreviewLine> = Vec::new();
    let mut k: usize = 0;
    while k < count
        invariant
            k <= count,
            count == items.len(),
            marker == (count == kept@.len() + 1),
            count == kept@.len() || count == kept@.len() + 1,
            forall|j: int| 0 <= j < kept@.len() ==> #[trigger] items[j] == item_of(*kept@[j]),
            marker ==> items[kept@.len() as int] == (more_label((files - 3) as nat), false, Seq::<TreeNode>::empty()),
            marker ==> files > 3,
            ctx.show_dotfiles == show_dotfiles,
            ctx.show_winhidden == show_winhidden,
            total == render_items(items, 0, path@, max_depth as nat, current_depth as nat, prefix@, show_dotfiles, show_winhidden, rule, *cfg, c0),
            total.2 == c0 + total.0.len(),
            c0 + total.0.len() <= usize::MAX,
            ({
                let rest = render_items(items, k as int, path@, max_depth as nat, current_depth as nat, prefix@, show_dotfiles, show_winhidden, rule, *cfg, ctx.line_counter as nat);
                &&& lines_view(lines@) + rest.0 == total.0
                &&& entries_view(ctx.out_entries@) + rest.1 == entries_view(e0) + total.1
                &&& rest.2 == total.2
            }),
            keeps_and_adds_dirs(e0, ctx.out_entries@),
        decreases count - k,
    {
        let is_last = k == count - 1;
        let ghost kk = k as int;
        let ghost cnt = ctx.line_counter as nat;
        let ghost one = render_one(items[kk], is_last, path@, max_depth as nat, current_depth as nat, prefix@, show_dotfiles, show_winhidden, rule, *cfg, cnt);
        proof {
            lemma_render_one_counts(items[kk], is_last, path@, max_depth as nat, current_depth as nat, prefix@, show_dotfiles, show_winhidden, rule, *cfg, cnt);
            lemma_render_counts(items, kk + 1, path@, max_depth as nat, current_depth as nat, prefix@, show_dotfiles, show_winhidden, rule, *cfg, one.2);
        }
        let ghost l0 = lines_view(lines@);
        let ghost before = ctx.out_entries@;
        let mut part: Vec<PreviewLine> = if k < kept.len() {
            render_node(kept[k], is_last, path, max_depth, current_depth, prefix, cfg, rule, ctx)
        } else {
            let label = more_label_text(files - 3);
            let line = item_line(prefix, current_depth, label.as_str(), false, is_last);
            ctx.line_counter = ctx.line_counter + 1;
            let mut v: Vec<PreviewLine> = Vec::new();
            v.push(line);
            proof {
                assert(lines_view(v@) =~= one.0);
                assert(entries_view(ctx.out_entries@) =~= entries_view(ctx.out_entries@) + one.1);
            }
            v
        };
        let ghost pv = part@;
        proof {
            lemma_keeps_trans(e0, before, ctx.out_entries@);
        }
        lines.append(&mut part);
        assert(lines_view(lines@) =~= l0 + lines_view(pv));
        k = k + 1;
    }
    proof {
        assert(lines_view(lines@) + Seq::<(Seq<char>, Style)>::empty() =~= lines_view(lines@));
        assert(entries_view(ctx.out_entries@) + Seq::<(Seq<char>, Seq<char>, nat)>::empty() =~= entries_view(ctx.out_entries@));
    }
    lines
}

proof fn lemma_one_lines_counter_free(
    item: (Seq<char>, bool, Seq<TreeNode>),
    is_last: bool,
    path: Seq<char>,
    max_depth: nat,
    depth: nat,
    prefix: Seq<char>,
    show_dotfiles: bool,
    show_winhidden: bool,
    rule: HiddenRule,
    cfg: Config,
    c1: nat,
    c2: nat,
)
    ensures
        render_one(item, is_last, path, max_depth, depth, prefix, show_dotfiles, show_winhidden, rule, cfg, c1).0
            == render_one(item, is_last, path, max_depth, depth, prefix, show_dotfiles, show_winhidden, rule, cfg, c2).0,
    decreases max_depth - depth, 0nat, 0nat,
{
    if item.1 && depth < max_depth {
        lemma_items_lines_counter_free(
            arrange(item.2, show_dotfiles, show_winhidden, rule, cfg),
            0,
            spec_path_join(path, item.0),
            max_depth,
            depth + 1,
            child_prefix(prefix, is_last),
            show_dotfiles,
            show_winhidden,
            rule,
            cfg,
            c1 + 1,
            c2 + 1,
        );
    }
}

/// The lines drawn do not depend on the line count they start from.
proof fn lemma_items_lines_counter_free(
    items: Seq<(Seq<char>, bool, Seq<TreeNode>)>,
    k: int,
    path: Seq<char>,
    max_depth: nat,
    depth: nat,
    prefix: Seq<char>,
    show_dotfiles: bool,
    show_winhidden: bool,
    rule: HiddenRule,
    cfg: Config,
    c1: nat,
    c2: nat,
)
    ensures
        render_items(items, k, path, max_depth, depth, prefix, show_dotfiles, show_winhidden, rule, cfg, c1).0
            == render_items(items, k, path, max_depth, depth, prefix, show_dotfiles, show_winhidden, rule, cfg, c2).0,
    decreases max_depth - depth, items.len() - k, 1nat,
{
    if 0 <= k < items.len() {
        let is_last = k == items.len() - 1;
        lemma_one_lines_counter_free(items[k], is_last, path, max_depth, depth, prefix, show_dotfiles, show_winhidden, rule, cfg, c1, c2);
        let o1 = render_one(items[k], is_last, path, max_depth, depth, prefix, show_dotfiles, show_winhidden, rule, cfg, c1);
        let o2 = render_one(items[k], is_last, path, max_depth, depth, prefix, show_dotfiles, show_winhidden, rule, cfg, c2);
        lemma_items_lines_counter_free(items, k + 1, path, max_depth, depth, prefix, show_dotfiles, show_winhidden, rule, cfg, o1.2, o2.2);
    }
}

/// How many lines the tree of an entry draws (see `tree_line_count`).
fn count_node(
    node: &TreeNode,
    is_last: bool,
    path: &str,
    max_depth: usize,
    depth: usize,
    prefix: &str,
    show_dotfiles: bool,
    show_winhidden: bool,
    rule: HiddenRule,
    cfg: &Config,
) -> (r: Option<usize>)
    ensures
        ({
            let n = render_one(item_of(*node), is_last, path@, max_depth as nat, depth as nat, prefix@, show_dotfiles, show_winhidden, rule, *cfg, 0).0.len();
            match r {
                Some(x) => x == n,
                None => n > usize::MAX,
            }
        }),
    decreases max_depth - depth, 0nat, 0nat,
{
    if node.is_dir && depth < max_depth {
        let entry_path = path_join(path, node.name.as_str());
        let cp = prefix_below(prefix, is_last);
        proof {
            lemma_items_lines_counter_free(
                arrange(node.children@, show_dotfiles, show_winhidden, rule, *cfg),
                0,
                entry_path@,
                max_depth as nat,
                (depth + 1) as nat,
                cp@,
                show_dotfiles,
                show_winhidden,
                rule,
                *cfg,
                1,
                0,
            );
        }
        match count_level(&node.children, entry_path.as_str(), max_depth, depth + 1, cp.as_str(), show_dotfiles, show_winhidden, rule, cfg) {
            Some(n) => if n < usize::MAX {
                Some(n + 1)
            } else {
                None
            },
            None => None,
        }
    } else {
        Some(1)
    }
}

/// How many lines the tree of a level draws (see `tree_line_count`).
#[verifier::rlimit(40)]
fn count_level(
    nodes: &Vec<TreeNode>,
    path: &str,
    max_depth: usize,
    depth: usize,
    prefix: &str,
    show_dotfiles: bool,
    show_winhidden: bool,
    rule: HiddenRule,
    cfg: &Config,
) -> (r: Option<usize>)
    ensures
        ({
            let n = render_tree(nodes@, path@, max_depth as nat, depth as nat, prefix@, show_dotfiles, show_winhidden, rule, *cfg, 0).0.len();
            match r {
                Some(x) => x == n,
                None => n > usize::MAX,
            }
        }),
    decreases max_depth - depth, nodes@.len() + 2, 1nat,
{
    let sorted = arrange_nodes(nodes, show_dotfiles, show_winhidden, rule, cfg);
    let (kept, files) = keep_first_files(&sorted);
    let ghost items = arrange(nodes@, show_dotfiles, show_winhidden, rule, *cfg);
    let marker = files > 3;
    let n_sorted = sorted.len();
    proof {
        lemma_first_files_len(derefs(sorted@));
        assert(derefs(sorted@).len() == sorted@.len());
        assert(derefs(kept@).len() == kept@.len());
    }
    let count = if marker {
        kept.len() + 1
    } else {
        kept.len()
    };
    proof {
        assert forall|k: int| 0 <= k < kept@.len() implies #[trigger] items[k] == item_of(*kept@[k]) by {
            assert(derefs(kept@)[k] == *kept@[k]);
        }
    }
    let ghost whole = render_items(items, 0, path@, max_depth as nat, depth as nat, prefix@, show_dotfiles, show_winhidden, rule, *cfg, 0).0.len();
    let mut total: usize = 0;
    let mut k: usize = 0;
    while k < count
        invariant
            k <= count,
            count == items.len(),
            marker == (count == kept@.len() + 1),
            count == kept@.len() || count == kept@.len() + 1,
            forall|j: int| 0 <= j < kept@.len() ==> #[trigger] items[j] == item_of(*kept@[j]),
            marker ==> items[kept@.len() as int] == (more_label((files - 3) as nat), false, Seq::<TreeNode>::empty()),
            whole == render_items(items, 0, path@, max_depth as nat, depth as nat, prefix@, show_dotfiles, show_winhidden, rule, *cfg, 0).0.len(),
            whole == render_tree(nodes@, path@, max_depth as nat, depth as nat, prefix@, show_dotfiles, show_winhidden, rule, *cfg, 0).0.len(),
            total + render_items(items, k as int, path@, max_depth as nat, depth as nat, prefix@, show_dotfiles, show_winhidden, rule, *cfg, 0).0.len() == whole,
        decreases count - k,
    {
        let is_last = k == count - 1;
        let ghost kk = k as int;
        let ghost one = render_one(items[kk], is_last, path@, max_depth as nat, depth as nat, prefix@, show_dotfiles, show_winhidden, rule, *cfg, 0);
        proof {
            lemma_render_one_counts(items[kk], is_last, path@, max_depth as nat, depth as nat, prefix@, show_dotfiles, show_winhidden, rule, *cfg, 0);
            lemma_items_lines_counter_free(items, kk + 1, path@, max_depth as nat, depth as nat, prefix@, show_dotfiles, show_winhidden, rule, *cfg, one.2, 0);
            assert(render_items(items, kk, path@, max_depth as nat, depth as nat, prefix@, show_dotfiles, show_winhidden, rule, *cfg, 0).0.len()
                == one.0.len() + render_items(items, kk + 1, path@, max_depth as nat, depth as nat, prefix@, show_dotfiles, show_winhidden, rule, *cfg, 0).0.len());
        }
        let n = if k < kept.len() {
            count_node(kept[k], is_last, path, max_depth, depth, prefix, show_dotfiles, show_winhidden, rule, cfg)
        } else {
            Some(1)
        };
        match n {
            Some(x) => {
                assert(x == one.0.len());
                if x > usize::MAX - total {
                    assert(whole > usize::MAX);
                    return None;
                }
                total = total + x;
            },
            None => {
                assert(one.0.len() > usize::MAX);
                assert(whole > usize::MAX);
                return None;
            },
        }
        k = k + 1;
    }
    Some(total)
}

/// How many lines `build_tree_lines` (rule `Listing`) or
/// `build_tree_with_entries` (rule `Attribute`) draws for the entries
/// `nodes` of the directory `path`; `None` when there are more than
/// `usize::MAX`.
pub fn tree_line_count(
    nodes: &Vec<TreeNode>,
    path: &str,
    max_depth: usize,
    current_depth: usize,
    prefix: &str,
    show_dotfiles: bool,
    show_winhidden: bool,
    rule: HiddenRule,
    cfg: &Config,
) -> (r: Option<usize>)
    ensures
        ({
            let n = render_tree(nodes@, path@, max_depth as nat, current_depth as nat, prefix@, show_dotfiles, show_winhidden, rule, *cfg, 0).0.len();
            match r {
                Some(x) => x == n,
                None => n > usize::MAX,
            }
        }),
        forall|c: nat| #[trigger] render_tree(nodes@, path@, max_depth as nat, current_depth as nat, prefix@, show_dotfiles, show_winhidden, rule, *cfg, c).0
            == render_tree(nodes@, path@, max_depth as nat, current_depth as nat, prefix@, show_dotfiles, show_winhidden, rule, *cfg, 0).0,
{
    proof {
        assert forall|c: nat| #[trigger] render_tree(nodes@, path@, max_depth as nat, current_depth as nat, prefix@, show_dotfiles, show_winhidden, rule, *cfg, c).0
            == render_tree(nodes@, path@, max_depth as nat, current_depth as nat, prefix@, show_dotfiles, show_winhidden, rule, *cfg, 0).0 by {
            lemma_items_lines_counter_free(
                arrange(nodes@, show_dotfiles, show_winhidden, rule, *cfg),
                0,
                path@,
                max_depth as nat,
                current_depth as nat,
                prefix@,
                show_dotfiles,
                show_winhidden,
                rule,
                *cfg,
                c,
                0,
            );
        }
    }
    count_level(nodes, path, max_depth, current_depth, prefix, show_dotfiles, show_winhidden, rule, cfg)
}

/// The lines of the tree of the directory `path`, whose entries are `nodes`,
/// from depth `current_depth` down to `max_depth`: the entries shown (the
/// names the lists leave out are left out here too; directories first, each
/// kind by name; at most three files, then a line counting the rest), each
/// drawn with its branch, icon and name after `prefix`; every directory drawn
/// is added behind the context's entries, which are kept, with the index of
/// its line, counted by the context's line counter, which ends advanced by
/// the number of lines.
pub fn build_tree_lines(
    nodes: &Vec<TreeNode>,
    path: &str,
    max_depth: usize,
    current_depth: usize,
    prefix: &str,
    cfg: &Config,
    ctx: &mut TreeContext,
) -> (r: Vec<PreviewLine>)
    requires
        old(ctx).line_counter + render_tree(nodes@, path@, max_depth as nat, current_depth as nat, prefix@, old(ctx).show_dotfiles, old(ctx).show_winhidden, HiddenRule::Listing, *cfg, old(ctx).line_counter as nat).0.len() <= usize::MAX,
    ensures
        ({
            let t = render_tree(nodes@, path@, max_depth as nat, current_depth as nat, prefix@, old(ctx).show_dotfiles, old(ctx).show_winhidden, HiddenRule::Listing, *cfg, old(ctx).line_counter as nat);
            &&& lines_view(r@) == t.0
            &&& entries_view(final(ctx).out_entries@) == entries_view(old(ctx).out_entries@) + t.1
            &&& final(ctx).line_counter == t.2
        }),
        final(ctx).show_dotfiles == old(ctx).show_dotfiles,
        final(ctx).show_winhidden == old(ctx).show_winhidden,
        keeps_and_adds_dirs(old(ctx).out_entries@, final(ctx).out_entries@),
        final(ctx).line_counter == old(ctx).line_counter + r@.len(),
{
    proof {
        lemma_render_counts(
            arrange(nodes@, ctx.show_dotfiles, ctx.show_winhidden, HiddenRule::Listing, *cfg),
            0,
            path@,
            max_depth as nat,
            current_depth as nat,
            prefix@,
            ctx.show_dotfiles,
            ctx.show_winhidden,
            HiddenRule::Listing,
            *cfg,
            ctx.line_counter as nat,
        );
    }
    build_level(nodes, path, max_depth, current_depth, prefix, cfg, HiddenRule::Listing, ctx)
}

/// The lines of the preview tree of the directory `path`, whose entries are
/// `nodes` (see `build_tree_lines`), leaving out the excluded directory
/// names, the dotfiles while dotfiles are off and the entries marked hidden
/// while WinHidden is off; every directory drawn is added behind the entries
/// already in `out_entries`, which are kept, with the index of its line,
/// counted by `line_counter`, which ends advanced by the number of lines.
pub fn build_tree_with_entries(
    nodes: &Vec<TreeNode>,
    path: &str,
    max_depth: usize,
    current_depth: usize,
    prefix: &str,
    show_dotfiles: bool,
    show_winhidden: bool,
    cfg: &Config,
    out_entries: &mut Vec<PreviewEntry>,
    line_counter: &mut usize,
) -> (r: Vec<PreviewLine>)
    requires
        *old(line_counter) + render_tree(nodes@, path@, max_depth as nat, current_depth as nat, prefix@, show_dotfiles, show_winhidden, HiddenRule::Attribute, *cfg, *old(line_counter) as nat).0.len() <= usize::MAX,
    ensures
        ({
            let t = render_tree(nodes@, path@, max_depth as nat, current_depth as nat, prefix@, show_dotfiles, show_winhidden, HiddenRule::Attribute, *cfg, *old(line_counter) as nat);
            &&& lines_view(r@) == t.0
            &&& entries_view(final(out_entries)@) == entries_view(old(out_entries)@) + t.1
            &&& *final(line_counter) == t.2
        }),
        keeps_and_adds_dirs(old(out_entries)@, final(out_entries)@),
        *final(line_counter) == *old(line_counter) + r@.len(),
{
    proof {
        lemma_render_counts(
            arrange(nodes@, show_dotfiles, show_winhidden, HiddenRule::Attribute, *cfg),
            0,
            path@,
            max_depth as nat,
            current_depth as nat,
            prefix@,
            show_dotfiles,
            show_winhidden,
            HiddenRule::Attribute,
            *cfg,
            *line_counter as nat,
        );
    }
    let mut taken: Vec<PreviewEntry> = Vec::new();
    std::mem::swap(&mut taken, out_entries);
    let mut ctx = TreeContext { show_dotfiles, show_winhidden, out_entries: taken, line_counter: *line_counter };
    let lines = build_level(nodes, path, max_depth, current_depth, prefix, cfg, HiddenRule::Attribute, &mut ctx);
    *out_entries = ctx.out_entries;
    *line_counter = ctx.line_counter;
    lines
}

} // verus!

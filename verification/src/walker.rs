//! Entries of the lists: what the directory walks produce, which names are
//! left out, how an entry is shown relative to the directory it was found
//! from, and the order of a directory listing.
use vstd::prelude::*;

use crate::config::{strings_view, Config};
use crate::text::{
    chars_of, chars_start_with, forward_slashes, forward_slashes_chars, starts_with,
    string_from_chars, sub_chars,
};

verus! {

broadcast use vstd::seq_lib::group_to_multiset_ensures;

/// An entry of the list: a directory or a file, or a frequently used
/// directory that zoxide suggests.
pub struct DirEntryItem {
    pub display: String,
    pub rel_path: String,
    pub full_path: String,
    pub is_zoxide: bool,
    pub is_dir: bool,
}

impl Clone for DirEntryItem {
    fn clone(&self) -> (r: Self)
        ensures
            r == *self,
    {
        DirEntryItem {
            display: self.display.clone(),
            rel_path: self.rel_path.clone(),
            full_path: self.full_path.clone(),
            is_zoxide: self.is_zoxide,
            is_dir: self.is_dir,
        }
    }
}

/// Whether `v` holds a string equal to `s`.
pub fn strings_contain(v: &Vec<String>, s: &str) -> (r: bool)
    ensures
        r == strings_view(v@).contains(s@),
{
    let target = String::from_str(s);
    let mut i: usize = 0;
    while i < v.len()
        invariant
            i <= v@.len(),
            target@ == s@,
            forall|j: int| 0 <= j < i ==> v@[j]@ != s@,
        decreases v.len() - i,
    {
        if v[i] == target {
            assert(strings_view(v@)[i as int] == s@);
            return true;
        }
        i = i + 1;
    }
    assert forall|j: int| 0 <= j < strings_view(v@).len() implies strings_view(v@)[j] != s@ by {
        assert(strings_view(v@)[j] == v@[j]@);
    }
    false
}

/// Whether a name is hidden from the lists: one of the excluded directory
/// names; a Windows system directory while WinHidden is off; a dotfile while
/// dotfiles are off.
pub open spec fn excluded(name: Seq<char>, show_dotfiles: bool, show_winhidden: bool, cfg: Config) -> bool {
    ||| strings_view(cfg.exclude_dirs@).contains(name)
    ||| !show_winhidden && strings_view(cfg.exclude_win_dirs@).contains(name)
    ||| !show_dotfiles && name.len() > 0 && name[0] == '.'
}

/// The exclusion rules: a name in the excluded directories is always left
/// out; a Windows system directory name is left out exactly while WinHidden
/// is off; a name starting with a dot exactly while dotfiles are off; any
/// other name is kept.
pub proof fn law_exclusion_rules(name: Seq<char>, show_dotfiles: bool, show_winhidden: bool, cfg: Config)
    ensures
        forall|k: int| 0 <= k < cfg.exclude_dirs@.len() && name == (#[trigger] cfg.exclude_dirs@[k])@ ==> excluded(
            name,
            show_dotfiles,
            show_winhidden,
            cfg,
        ),
        forall|k: int|
            0 <= k < cfg.exclude_win_dirs@.len() && name == (#[trigger] cfg.exclude_win_dirs@[k])@ && !show_winhidden
                ==> excluded(name, show_dotfiles, show_winhidden, cfg),
        !show_dotfiles && name.len() > 0 && name[0] == '.' ==> excluded(name, show_dotfiles, show_winhidden, cfg),
        (forall|k: int| 0 <= k < cfg.exclude_dirs@.len() ==> name != (#[trigger] cfg.exclude_dirs@[k])@) && (show_winhidden
            || forall|k: int| 0 <= k < cfg.exclude_win_dirs@.len() ==> name != (#[trigger] cfg.exclude_win_dirs@[k])@)
            && (show_dotfiles || name.len() == 0 || name[0] != '.') ==> !excluded(name, show_dotfiles, show_winhidden, cfg),
{
    assert forall|k: int| 0 <= k < cfg.exclude_dirs@.len() && name == (#[trigger] cfg.exclude_dirs@[k])@ implies excluded(
        name,
        show_dotfiles,
        show_winhidden,
        cfg,
    ) by {
        assert(strings_view(cfg.exclude_dirs@)[k] == name);
    }
    assert forall|k: int|
        0 <= k < cfg.exclude_win_dirs@.len() && name == (#[trigger] cfg.exclude_win_dirs@[k])@ && !show_winhidden implies excluded(
        name,
        show_dotfiles,
        show_winhidden,
        cfg,
    ) by {
        assert(strings_view(cfg.exclude_win_dirs@)[k] == name);
    }
    if strings_view(cfg.exclude_dirs@).contains(name) {
        let k = choose|k: int| 0 <= k < strings_view(cfg.exclude_dirs@).len() && strings_view(cfg.exclude_dirs@)[k] == name;
        assert(cfg.exclude_dirs@[k]@ == name);
    }
    if strings_view(cfg.exclude_win_dirs@).contains(name) {
        let k = choose|k: int|
            0 <= k < strings_view(cfg.exclude_win_dirs@).len() && strings_view(cfg.exclude_win_dirs@)[k] == name;
        assert(cfg.exclude_win_dirs@[k]@ == name);
    }
}

/// Whether the name `name` is left out of the lists.
pub fn should_exclude(name: &str, show_dotfiles: bool, show_winhidden: bool, cfg: &Config) -> (r:
    bool)
    ensures
        r == excluded(name@, show_dotfiles, show_winhidden, *cfg),
{
    if strings_contain(&cfg.exclude_dirs, name) {
        return true;
    }
    if !show_winhidden && strings_contain(&cfg.exclude_win_dirs, name) {
        return true;
    }
    if !show_dotfiles {
        let c = chars_of(name);
        if c.len() > 0 && c[0] == '.' {
            return true;
        }
    }
    false
}

// ---------------------------------------------------------------------------
// Paths relative to the directory listed
// ---------------------------------------------------------------------------

/// `s.trim_start_matches('/')`.
pub open spec fn trim_leading_slashes(s: Seq<char>) -> Seq<char>
    decreases s.len(),
{
    if s.len() > 0 && s[0] == '/' {
        trim_leading_slashes(s.drop_first())
    } else {
        s
    }
}

/// How a directory listing shows an entry: its path with forward slashes,
/// the root's path left off the front when it is there, then leading slashes
/// left off.
pub open spec fn listing_display(full: Seq<char>, root: Seq<char>) -> Seq<char> {
    let f = forward_slashes(full);
    let r = forward_slashes(root);
    trim_leading_slashes(if starts_with(f, r) { f.skip(r.len() as int) } else { f })
}

/// How the recursive directory search shows an entry: as in a listing when
/// the root's path is in front, else the whole path with forward slashes.
pub open spec fn walk_display(full: Seq<char>, root: Seq<char>) -> Seq<char> {
    let f = forward_slashes(full);
    let r = forward_slashes(root);
    if starts_with(f, r) {
        trim_leading_slashes(f.skip(r.len() as int))
    } else {
        f
    }
}

fn trim_leading_slashes_chars(v: &[char], from: usize) -> (r: Vec<char>)
    requires
        from <= v@.len(),
    ensures
        r@ == trim_leading_slashes(v@.skip(from as int)),
{
    let mut i = from;
    while i < v.len() && v[i] == '/'
        invariant
            from <= i <= v@.len(),
            trim_leading_slashes(v@.skip(from as int)) == trim_leading_slashes(
                v@.skip(i as int),
            ),
        decreases v.len() - i,
    {
        assert(v@.skip(i as int).drop_first() =~= v@.skip(i + 1));
        i = i + 1;
    }
    let n = v.len();
    let r = sub_chars(v, i, n);
    assert(r@ =~= v@.skip(i as int));
    r
}

/// The text shown for an entry of a directory listing.
pub fn listing_display_of(full: &str, root: &str) -> (r: String)
    ensures
        r@ == listing_display(full@, root@),
{
    let fc = chars_of(full);
    let rc = chars_of(root);
    let f = forward_slashes_chars(fc.as_slice());
    let r = forward_slashes_chars(rc.as_slice());
    let from = if chars_start_with(f.as_slice(), r.as_slice()) {
        r.len()
    } else {
        0
    };
    assert(f@.skip(0) =~= f@);
    let t = trim_leading_slashes_chars(f.as_slice(), from);
    string_from_chars(t.as_slice())
}

/// The text shown for an entry found by the recursive directory search.
pub fn walk_display_of(full: &str, root: &str) -> (r: String)
    ensures
        r@ == walk_display(full@, root@),
{
    let fc = chars_of(full);
    let rc = chars_of(root);
    let f = forward_slashes_chars(fc.as_slice());
    let r = forward_slashes_chars(rc.as_slice());
    if chars_start_with(f.as_slice(), r.as_slice()) {
        let t = trim_leading_slashes_chars(f.as_slice(), r.len());
        string_from_chars(t.as_slice())
    } else {
        string_from_chars(f.as_slice())
    }
}

/// A directory found by the recursive search below `root`, as the list shows
/// it.
pub fn walk_dir_item(root: &str, full_path: String) -> (r: DirEntryItem)
    ensures
        r.display@ == walk_display(full_path@, root@),
        r.rel_path@ == walk_display(full_path@, root@),
        r.full_path == full_path,
        !r.is_zoxide,
        r.is_dir,
{
    let display = walk_display_of(full_path.as_str(), root);
    let rel_path = display.clone();
    DirEntryItem { display, rel_path, full_path, is_zoxide: false, is_dir: true }
}

/// A file found by the recursive file walk below `root`, from its path and
/// its file name, as the list shows it: by its name, with its path relative
/// to `root`. `None` when the path does not lie below `root`.
pub fn walk_file_item(root: &str, full_path: String, file_name: String) -> (r: Option<DirEntryItem>)
    ensures
        r is Some <==> crate::paths::spec_path_starts_with(full_path@, root@),
        r matches Some(item) ==> {
            &&& item.display == file_name
            &&& crate::paths::spec_path_strip_prefix(full_path@, root@) == Some(item.rel_path@)
            &&& item.full_path == full_path
            &&& !item.is_zoxide
            &&& !item.is_dir
        },
{
    match crate::paths::path_strip_prefix(full_path.as_str(), root) {
        Some(rel_path) => Some(DirEntryItem { display: file_name, rel_path, full_path, is_zoxide: false, is_dir: false }),
        None => None,
    }
}

// ---------------------------------------------------------------------------
// Ordering by the text shown
// ---------------------------------------------------------------------------

/// Lexicographic order of character sequences; on strings it is the order of
/// `String`'s `cmp`, since UTF-8 keeps the order of code points.
pub open spec fn lex_lt(a: Seq<char>, b: Seq<char>) -> bool
    decreases a.len(),
{
    if a.len() == 0 {
        b.len() > 0
    } else if b.len() == 0 {
        false
    } else if a[0] != b[0] {
        a[0] < b[0]
    } else {
        lex_lt(a.drop_first(), b.drop_first())
    }
}

pub open spec fn lex_le(a: Seq<char>, b: Seq<char>) -> bool {
    lex_lt(a, b) || a == b
}

/// Lexicographic order is total.
pub proof fn lemma_lex_total(a: Seq<char>, b: Seq<char>)
    ensures
        lex_lt(a, b) || a == b || lex_lt(b, a),
    decreases a.len(),
{
    if a.len() > 0 && b.len() > 0 && a[0] == b[0] {
        lemma_lex_total(a.drop_first(), b.drop_first());
        if a.drop_first() == b.drop_first() {
            assert(a =~= seq![a[0]] + a.drop_first());
            assert(b =~= seq![b[0]] + b.drop_first());
        }
    } else if a.len() == 0 && b.len() == 0 {
        assert(a =~= b);
    }
}

/// Lexicographic order is asymmetric.
pub proof fn lemma_lex_asym(a: Seq<char>, b: Seq<char>)
    ensures
        lex_lt(a, b) ==> !lex_lt(b, a),
    decreases a.len(),
{
    if a.len() > 0 && b.len() > 0 && a[0] == b[0] {
        lemma_lex_asym(a.drop_first(), b.drop_first());
    }
}

/// Lexicographic order is transitive.
pub proof fn lemma_lex_trans(a: Seq<char>, b: Seq<char>, c: Seq<char>)
    requires
        lex_lt(a, b),
        lex_lt(b, c),
    ensures
        lex_lt(a, c),
    decreases a.len(),
{
    if a.len() > 0 && b.len() > 0 && c.len() > 0 && a[0] == b[0] && b[0] == c[0] {
        lemma_lex_trans(a.drop_first(), b.drop_first(), c.drop_first());
    }
}

/// Whether `a` comes strictly before `b`.
pub fn chars_lt(a: &[char], b: &[char]) -> (r: bool)
    ensures
        r == lex_lt(a@, b@),
{
    let mut i: usize = 0;
    assert(a@.skip(0) =~= a@ && b@.skip(0) =~= b@);
    while i < a.len() && i < b.len() && a[i] == b[i]
        invariant
            i <= a@.len(),
            i <= b@.len(),
            lex_lt(a@, b@) == lex_lt(a@.skip(i as int), b@.skip(i as int)),
        decreases a.len() - i,
    {
        assert(a@.skip(i as int).drop_first() =~= a@.skip(i + 1));
        assert(b@.skip(i as int).drop_first() =~= b@.skip(i + 1));
        i = i + 1;
    }
    if i == a.len() {
        i < b.len()
    } else if i == b.len() {
        false
    } else {
        a[i] < b[i]
    }
}

/// Whether the items stand in order of the text shown.
pub open spec fn sorted_by_display(s: Seq<DirEntryItem>) -> bool {
    forall|i: int| 0 <= i < s.len() - 1 ==> lex_le(#[trigger] s[i].display@, s[i + 1].display@)
}

/// Whether the text `xd` comes strictly before the text `item` shows.
fn shows_before(xd: &[char], item: &DirEntryItem) -> (r: bool)
    ensures
        r == lex_lt(xd@, item.display@),
{
    let pd = chars_of(item.display.as_str());
    chars_lt(xd, pd.as_slice())
}

proof fn lemma_insert_multiset(s: Seq<DirEntryItem>, p: int, x: DirEntryItem)
    requires
        0 <= p <= s.len(),
    ensures
        s.insert(p, x).to_multiset() =~= s.to_multiset().insert(x),
{
    let t = s.insert(p, x);
    assert(t.remove(p) =~= s);
    assert(t[p] == x);
    assert(t.remove(p).to_multiset() =~= t.to_multiset().remove(x));
    assert(t.contains(x));
}

/// The items in order of the text shown (stable: items that show the same
/// text keep their order).
pub fn sort_by_display(items: Vec<DirEntryItem>) -> (r: Vec<DirEntryItem>)
    ensures
        sorted_by_display(r@),
        r@.to_multiset() == items@.to_multiset(),
{
    let mut out: Vec<DirEntryItem> = Vec::new();
    let mut i: usize = 0;
    while i < items.len()
        invariant
            i <= items@.len(),
            sorted_by_display(out@),
            out@.to_multiset() == items@.take(i as int).to_multiset(),
        decreases items.len() - i,
    {
        let x = items[i].clone();
        let xd = chars_of(x.display.as_str());
        let mut p = out.len();
        while p > 0 && shows_before(xd.as_slice(), &out[p - 1])
            invariant
                p <= out@.len(),
                xd@ == x.display@,
                forall|k: int| p <= k < out@.len() ==> lex_lt(x.display@, #[trigger] out@[k].display@),
            decreases p,
        {
            p = p - 1;
        }
        proof {
            if p > 0 {
                lemma_lex_total(x.display@, out@[p - 1].display@);
            }
            let t = out@.insert(p as int, x);
            assert forall|k: int| 0 <= k < t.len() - 1 implies lex_le(
                #[trigger] t[k].display@,
                t[k + 1].display@,
            ) by {
                if k < p - 1 {
                    assert(t[k] == out@[k] && t[k + 1] == out@[k + 1]);
                } else if k == p - 1 {
                    assert(t[k] == out@[k] && t[k + 1] == x);
                } else if k == p {
                    assert(t[k] == x && t[k + 1] == out@[k]);
                } else {
                    assert(t[k] == out@[k - 1] && t[k + 1] == out@[k]);
                }
            }
            lemma_insert_multiset(out@, p as int, x);
            assert(items@.take(i + 1) =~= items@.take(i as int).push(items@[i as int]));
        }
        out.insert(p, x);
        i = i + 1;
    }
    assert(items@.take(items@.len() as int) =~= items@);
    out
}

// ---------------------------------------------------------------------------
// A directory listing
// ---------------------------------------------------------------------------

/// An entry as reading a directory gives it: its file name, its full path
/// and whether it is a directory.
pub struct DirListingEntry {
    pub name: String,
    pub full_path: String,
    pub is_dir: bool,
}

/// Whether a read entry belongs to the directory listing: a directory whose
/// name is not left out.
pub open spec fn listed(e: DirListingEntry, show_dotfiles: bool, show_winhidden: bool, cfg: Config) -> bool {
    !excluded(e.name@, show_dotfiles, show_winhidden, cfg) && e.is_dir
}

/// The item a listed entry becomes.
pub open spec fn listing_item_matches(e: DirListingEntry, item: DirEntryItem, root: Seq<char>) -> bool {
    &&& item.display@ == listing_display(e.full_path@, root)
    &&& item.rel_path@ == listing_display(e.full_path@, root)
    &&& item.full_path == e.full_path
    &&& !item.is_zoxide
    &&& item.is_dir
}

/// Whether `items` are the listing's items for `entries`, in read order: each
/// listed entry, shown relative to `root`.
pub open spec fn is_listing_of(
    items: Seq<DirEntryItem>,
    entries: Seq<DirListingEntry>,
    root: Seq<char>,
    show_dotfiles: bool,
    show_winhidden: bool,
    cfg: Config,
) -> bool
    decreases entries.len(),
{
    if entries.len() == 0 {
        items.len() == 0
    } else {
        let e = entries.last();
        if listed(e, show_dotfiles, show_winhidden, cfg) {
            items.len() > 0 && listing_item_matches(e, items.last(), root) && is_listing_of(
                items.drop_last(),
                entries.drop_last(),
                root,
                show_dotfiles,
                show_winhidden,
                cfg,
            )
        } else {
            is_listing_of(items, entries.drop_last(), root, show_dotfiles, show_winhidden, cfg)
        }
    }
}

/// Whether `item` comes from a read entry that is a directory whose name is
/// not left out.
pub open spec fn from_listed_dir(
    item: DirEntryItem,
    entries: Seq<DirListingEntry>,
    show_dotfiles: bool,
    show_winhidden: bool,
    cfg: Config,
) -> bool {
    exists|j: int|
        0 <= j < entries.len() && (#[trigger] entries[j]).is_dir && !excluded(entries[j].name@, show_dotfiles, show_winhidden, cfg)
            && item.full_path@ == entries[j].full_path@
}

proof fn lemma_listing_from_dirs(
    items: Seq<DirEntryItem>,
    entries: Seq<DirListingEntry>,
    root: Seq<char>,
    show_dotfiles: bool,
    show_winhidden: bool,
    cfg: Config,
)
    requires
        is_listing_of(items, entries, root, show_dotfiles, show_winhidden, cfg),
    ensures
        forall|k: int| 0 <= k < items.len() ==> from_listed_dir(#[trigger] items[k], entries, show_dotfiles, show_winhidden, cfg),
    decreases entries.len(),
{
    if entries.len() > 0 {
        let e = entries.last();
        let last = entries.len() - 1;
        assert(entries[last] == e);
        let items2 = if listed(e, show_dotfiles, show_winhidden, cfg) { items.drop_last() } else { items };
        lemma_listing_from_dirs(items2, entries.drop_last(), root, show_dotfiles, show_winhidden, cfg);
        assert forall|k: int| 0 <= k < items.len() implies from_listed_dir(#[trigger] items[k], entries, show_dotfiles, show_winhidden, cfg) by {
            if listed(e, show_dotfiles, show_winhidden, cfg) && k == items.len() - 1 {
                assert(items[k] == items.last());
            } else {
                assert(items[k] == items2[k]);
                assert(from_listed_dir(items2[k], entries.drop_last(), show_dotfiles, show_winhidden, cfg));
                let j = choose|j: int|
                    0 <= j < entries.drop_last().len() && (#[trigger] entries.drop_last()[j]).is_dir
                        && !excluded(entries.drop_last()[j].name@, show_dotfiles, show_winhidden, cfg)
                        && items2[k].full_path@ == entries.drop_last()[j].full_path@;
                assert(entries[j] == entries.drop_last()[j]);
            }
        }
    }
}

/// Every item of a directory listing comes from a read entry that is a
/// directory and whose name is not left out: files never appear in it.
pub proof fn law_listing_holds_directories_only(
    r: Seq<DirEntryItem>,
    entries: Seq<DirListingEntry>,
    root: Seq<char>,
    show_dotfiles: bool,
    show_winhidden: bool,
    cfg: Config,
)
    requires
        exists|unsorted: Seq<DirEntryItem>|
            is_listing_of(unsorted, entries, root, show_dotfiles, show_winhidden, cfg)
                && r.to_multiset() == unsorted.to_multiset(),
    ensures
        forall|k: int| 0 <= k < r.len() ==> from_listed_dir(#[trigger] r[k], entries, show_dotfiles, show_winhidden, cfg),
{
    let unsorted = choose|unsorted: Seq<DirEntryItem>|
        is_listing_of(unsorted, entries, root, show_dotfiles, show_winhidden, cfg)
            && r.to_multiset() == unsorted.to_multiset();
    lemma_listing_from_dirs(unsorted, entries, root, show_dotfiles, show_winhidden, cfg);
    assert forall|k: int| 0 <= k < r.len() implies from_listed_dir(#[trigger] r[k], entries, show_dotfiles, show_winhidden, cfg) by {
        assert(r.contains(r[k]));
        assert(r.to_multiset().count(r[k]) > 0);
        assert(unsorted.contains(r[k]));
        let m = choose|m: int| 0 <= m < unsorted.len() && unsorted[m] == r[k];
        assert(from_listed_dir(unsorted[m], entries, show_dotfiles, show_winhidden, cfg));
    }
}

/// Whether `entry` shows up in `items`.
pub open spec fn listed_in(entry: DirListingEntry, items: Seq<DirEntryItem>) -> bool {
    exists|k: int| 0 <= k < items.len() && (#[trigger] items[k]).full_path@ == entry.full_path@
}

proof fn lemma_listing_has_dirs(
    items: Seq<DirEntryItem>,
    entries: Seq<DirListingEntry>,
    root: Seq<char>,
    show_dotfiles: bool,
    show_winhidden: bool,
    cfg: Config,
)
    requires
        is_listing_of(items, entries, root, show_dotfiles, show_winhidden, cfg),
    ensures
        forall|j: int|
            0 <= j < entries.len() && (#[trigger] entries[j]).is_dir && !excluded(entries[j].name@, show_dotfiles, show_winhidden, cfg)
                ==> listed_in(entries[j], items),
    decreases entries.len(),
{
    if entries.len() > 0 {
        let e = entries.last();
        let last = entries.len() - 1;
        assert(entries[last] == e);
        let items2 = if listed(e, show_dotfiles, show_winhidden, cfg) { items.drop_last() } else { items };
        lemma_listing_has_dirs(items2, entries.drop_last(), root, show_dotfiles, show_winhidden, cfg);
        assert forall|j: int|
            0 <= j < entries.len() && (#[trigger] entries[j]).is_dir && !excluded(entries[j].name@, show_dotfiles, show_winhidden, cfg)
                implies listed_in(entries[j], items) by {
            if j == last {
                assert(items[items.len() - 1] == items.last());
            } else {
                assert(entries[j] == entries.drop_last()[j]);
                assert(listed_in(entries.drop_last()[j], items2));
                let k = choose|k: int| 0 <= k < items2.len() && (#[trigger] items2[k]).full_path@ == entries[j].full_path@;
                assert(items[k] == items2[k]);
            }
        }
    }
}

/// Every read entry that is a directory and whose name is not left out
/// shows up in the directory listing.
pub proof fn law_listing_holds_every_directory(
    r: Seq<DirEntryItem>,
    entries: Seq<DirListingEntry>,
    root: Seq<char>,
    show_dotfiles: bool,
    show_winhidden: bool,
    cfg: Config,
)
    requires
        exists|unsorted: Seq<DirEntryItem>|
            is_listing_of(unsorted, entries, root, show_dotfiles, show_winhidden, cfg)
                && r.to_multiset() == unsorted.to_multiset(),
    ensures
        forall|j: int|
            0 <= j < entries.len() && (#[trigger] entries[j]).is_dir && !excluded(entries[j].name@, show_dotfiles, show_winhidden, cfg)
                ==> listed_in(entries[j], r),
{
    let unsorted = choose|unsorted: Seq<DirEntryItem>|
        is_listing_of(unsorted, entries, root, show_dotfiles, show_winhidden, cfg)
            && r.to_multiset() == unsorted.to_multiset();
    lemma_listing_has_dirs(unsorted, entries, root, show_dotfiles, show_winhidden, cfg);
    assert forall|j: int|
        0 <= j < entries.len() && (#[trigger] entries[j]).is_dir && !excluded(entries[j].name@, show_dotfiles, show_winhidden, cfg)
            implies listed_in(entries[j], r) by {
        let k = choose|k: int| 0 <= k < unsorted.len() && (#[trigger] unsorted[k]).full_path@ == entries[j].full_path@;
        assert(unsorted.contains(unsorted[k]));
        assert(unsorted.to_multiset().count(unsorted[k]) > 0);
        assert(r.contains(unsorted[k]));
        let m = choose|m: int| 0 <= m < r.len() && r[m] == unsorted[k];
        assert(r[m].full_path@ == entries[j].full_path@);
    }
}

/// The directory listing of `root` (as `list_dirs` gives it) from the
/// entries read from it: the directories whose names are not left out, shown
/// relative to `root`, in order of the text shown.
pub fn list_dirs_from_entries(
    root: &str,
    entries: &Vec<DirListingEntry>,
    show_dotfiles: bool,
    show_winhidden: bool,
    cfg: &Config,
) -> (r: Vec<DirEntryItem>)
    ensures
        exists|unsorted: Seq<DirEntryItem>|
            is_listing_of(unsorted, entries@, root@, show_dotfiles, show_winhidden, *cfg)
                && r@.to_multiset() == unsorted.to_multiset(),
        sorted_by_display(r@),
{
    let mut items: Vec<DirEntryItem> = Vec::new();
    let mut i: usize = 0;
    while i < entries.len()
        invariant
            i <= entries@.len(),
            is_listing_of(items@, entries@.take(i as int), root@, show_dotfiles, show_winhidden, *cfg),
        decreases entries.len() - i,
    {
        let e = &entries[i];
        assert(entries@.take(i + 1).drop_last() =~= entries@.take(i as int));
        assert(entries@.take(i + 1).last() == entries@[i as int]);
        let excluded_name = should_exclude(e.name.as_str(), show_dotfiles, show_winhidden, cfg);
        if !excluded_name && e.is_dir {
            let display = listing_display_of(e.full_path.as_str(), root);
            let rel_path = display.clone();
            let item = DirEntryItem {
                display,
                rel_path,
                full_path: e.full_path.clone(),
                is_zoxide: false,
                is_dir: true,
            };
            proof {
                assert(items@.push(item).drop_last() =~= items@);
            }
            items.push(item);
        }
        i = i + 1;
    }
    assert(entries@.take(entries@.len() as int) =~= entries@);
    let ghost unsorted = items@;
    let r = sort_by_display(items);
    assert(is_listing_of(unsorted, entries@, root@, show_dotfiles, show_winhidden, *cfg));
    r
}

} // verus!

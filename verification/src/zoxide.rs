//! zoxide: reading its answers, and merging its most used directories into a
//! directory listing.
use vstd::prelude::*;

use crate::paths::{display_path_with_home, display_with_home, home_dir, paths_equal, spec_paths_equal};
use crate::text::{
    chars_of, chars_start_with, forward_slashes, forward_slashes_chars, lines, lines_of,
    spec_to_lowercase, starts_with, str_to_lowercase, string_from_chars, trim, trim_chars,
    views_of,
};
use crate::walker::DirEntryItem;

verus! {

// ---------------------------------------------------------------------------
// zoxide's answers
// ---------------------------------------------------------------------------

/// The non-empty lines of a text, in order.
pub open spec fn nonempty_lines(ls: Seq<Seq<char>>) -> Seq<Seq<char>>
    decreases ls.len(),
{
    if ls.len() == 0 {
        Seq::empty()
    } else if ls.last().len() == 0 {
        nonempty_lines(ls.drop_last())
    } else {
        nonempty_lines(ls.drop_last()).push(ls.last())
    }
}

pub open spec fn paths_view(v: Seq<String>) -> Seq<Seq<char>> {
    v.map_values(|s: String| s@)
}

/// The directories in the output of `zoxide query --list`: its non-empty
/// lines.
pub fn parse_list(stdout: &str) -> (r: Vec<String>)
    ensures
        paths_view(r@) == nonempty_lines(lines(stdout@)),
{
    let text = chars_of(stdout);
    let ls = lines_of(text.as_slice());
    let ghost lv = views_of(ls@);
    let mut out: Vec<String> = Vec::new();
    let mut i: usize = 0;
    while i < ls.len()
        invariant
            i <= ls@.len(),
            lv == views_of(ls@),
            lv == lines(text@),
            paths_view(out@) == nonempty_lines(lv.take(i as int)),
        decreases ls.len() - i,
    {
        proof {
            assert(lv.take(i + 1).drop_last() =~= lv.take(i as int));
            assert(lv.take(i + 1).last() == ls@[i as int]@);
        }
        if ls[i].len() > 0 {
            let s = string_from_chars(ls[i].as_slice());
            proof {
                assert(paths_view(out@.push(s)) =~= paths_view(out@).push(s@));
            }
            out.push(s);
        }
        i = i + 1;
    }
    assert(lv.take(ls@.len() as int) =~= lv);
    out
}

/// The directory in the output of a successful `zoxide query <name>`: the
/// output trimmed, when anything is left.
pub fn parse_query(stdout: &str) -> (r: Option<String>)
    ensures
        match r {
            Some(p) => p@ == trim(stdout@) && p@.len() > 0,
            None => trim(stdout@).len() == 0,
        },
{
    let text = chars_of(stdout);
    let t = trim_chars(text.as_slice());
    if t.len() == 0 {
        None
    } else {
        Some(string_from_chars(t.as_slice()))
    }
}

// ---------------------------------------------------------------------------
// Merging
// ---------------------------------------------------------------------------

/// Whether a zoxide directory lies in the home directory (compared without
/// case); with no home directory known every directory does.
pub open spec fn in_home(z: Seq<char>, home: Option<Seq<char>>) -> bool {
    match home {
        Some(h) => starts_with(
            spec_to_lowercase(forward_slashes(z)),
            spec_to_lowercase(forward_slashes(h)),
        ),
        None => true,
    }
}

/// Whether some listed entry is the directory `z`.
pub open spec fn listed_already(z: Seq<char>, walker: Seq<DirEntryItem>) -> bool {
    exists|i: int| 0 <= i < walker.len() && spec_paths_equal(#[trigger] walker[i].full_path@, z)
}

/// Whether a zoxide directory is offered: it lies in the home directory, the
/// listing does not hold it already, and it is not the current directory.
pub open spec fn offered(
    z: Seq<char>,
    walker: Seq<DirEntryItem>,
    current: Seq<char>,
    home: Option<Seq<char>>,
) -> bool {
    in_home(z, home) && !listed_already(z, walker) && !spec_paths_equal(z, current)
}

/// The zoxide directories merged in: the offered ones in zoxide's order, at
/// most `cap` of them.
pub open spec fn zoxide_picks(
    cache: Seq<Seq<char>>,
    walker: Seq<DirEntryItem>,
    current: Seq<char>,
    home: Option<Seq<char>>,
    cap: int,
) -> Seq<Seq<char>>
    decreases cache.len(),
{
    if cache.len() == 0 {
        Seq::empty()
    } else {
        let prev = zoxide_picks(cache.drop_last(), walker, current, home, cap);
        if prev.len() < cap && offered(cache.last(), walker, current, home) {
            prev.push(cache.last())
        } else {
            prev
        }
    }
}

/// The entry a merged zoxide directory becomes.
pub open spec fn zoxide_item_matches(item: DirEntryItem, z: Seq<char>, home: Option<Seq<char>>) -> bool {
    &&& item.display@ == display_with_home(z, home)
    &&& item.rel_path@ == forward_slashes(z)
    &&& item.full_path@ == z
    &&& item.is_zoxide
    &&& item.is_dir
}

/// Whether `r` is the merge: the merged zoxide directories first, then all
/// the listed entries, in their order.
pub open spec fn is_merge(
    r: Seq<DirEntryItem>,
    cache: Seq<Seq<char>>,
    walker: Seq<DirEntryItem>,
    current: Seq<char>,
    home: Option<Seq<char>>,
    limit: usize,
) -> bool {
    let picks = zoxide_picks(cache, walker, current, home, limit as int);
    &&& r.len() == picks.len() + walker.len()
    &&& forall|i: int| 0 <= i < picks.len() ==> zoxide_item_matches(#[trigger] r[i], picks[i], home)
    &&& r.skip(picks.len() as int) == walker
}

fn offered_exec(
    z: &str,
    walker: &Vec<DirEntryItem>,
    current: &str,
    home_lower: &Option<Vec<char>>,
    Ghost(hv): Ghost<Option<Seq<char>>>,
) -> (r: bool)
    requires
        match (hv, *home_lower) {
            (Some(h), Some(hl)) => hl@ == spec_to_lowercase(forward_slashes(h)),
            (None, None) => true,
            _ => false,
        },
    ensures
        r == offered(z@, walker@, current@, hv),
{
    let in_home = match home_lower {
        Some(hl) => {
            let zc = chars_of(z);
            let zf = forward_slashes_chars(zc.as_slice());
            let zs = string_from_chars(zf.as_slice());
            let zl = str_to_lowercase(zs.as_str());
            let zlc = chars_of(zl.as_str());
            chars_start_with(zlc.as_slice(), hl.as_slice())
        },
        None => true,
    };
    if !in_home {
        return false;
    }
    let mut i: usize = 0;
    while i < walker.len()
        invariant
            i <= walker@.len(),
            forall|j: int| 0 <= j < i ==> !spec_paths_equal(#[trigger] walker@[j].full_path@, z@),
        decreases walker.len() - i,
    {
        if paths_equal(walker[i].full_path.as_str(), z) {
            return false;
        }
        i = i + 1;
    }
    !paths_equal(z, current)
}

/// Merges zoxide's directories into the listing of the current directory,
/// given the home directory: the first directories zoxide lists that lie in
/// the home directory, are not listed already and are not the current
/// directory, at most `limit` of them (none when `limit` is 0),
/// shown with `~` for the home directory and put first; then every listed
/// entry, in its order.
pub fn merge_with_home(
    home: Option<&str>,
    zoxide_cache: &Vec<String>,
    walker_items: Vec<DirEntryItem>,
    current_dir: &str,
    limit: usize,
) -> (r: Vec<DirEntryItem>)
    ensures
        is_merge(
            r@,
            paths_view(zoxide_cache@),
            walker_items@,
            current_dir@,
            crate::paths::opt_str_view(home),
            limit,
        ),
{
    let ghost hv = crate::paths::opt_str_view(home);
    let ghost cache = paths_view(zoxide_cache@);
    let cap: usize = limit;
    let home_lower: Option<Vec<char>> = match home {
        Some(h) => {
            let hc = chars_of(h);
            let hf = forward_slashes_chars(hc.as_slice());
            let hs = string_from_chars(hf.as_slice());
            let hl = str_to_lowercase(hs.as_str());
            Some(chars_of(hl.as_str()))
        },
        None => None,
    };
    let mut zitems: Vec<DirEntryItem> = Vec::new();
    let ghost mut picks: Seq<Seq<char>> = Seq::empty();
    let mut i: usize = 0;
    while i < zoxide_cache.len()
        invariant
            i <= zoxide_cache@.len(),
            cache == paths_view(zoxide_cache@),
            cap as int == limit as int,
            hv == crate::paths::opt_str_view(home),
            match (hv, home_lower) {
                (Some(h), Some(hl)) => hl@ == spec_to_lowercase(forward_slashes(h)),
                (None, None) => true,
                _ => false,
            },
            picks == zoxide_picks(cache.take(i as int), walker_items@, current_dir@, hv, cap as int),
            zitems@.len() == picks.len(),
            forall|k: int| 0 <= k < picks.len() ==> offered(#[trigger] picks[k], walker_items@, current_dir@, hv),
            forall|k: int| 0 <= k < picks.len() ==> zoxide_item_matches(#[trigger] zitems@[k], picks[k], hv),
        decreases zoxide_cache.len() - i,
    {
        let z = zoxide_cache[i].as_str();
        proof {
            assert(cache.take(i + 1).drop_last() =~= cache.take(i as int));
            assert(cache.take(i + 1).last() == z@);
        }
        if zitems.len() < cap && offered_exec(z, &walker_items, current_dir, &home_lower, Ghost(hv)) {
            let display = display_path_with_home(z, home);
            let zc = chars_of(z);
            let zf = forward_slashes_chars(zc.as_slice());
            let rel_path = string_from_chars(zf.as_slice());
            let item = DirEntryItem {
                display,
                rel_path,
                full_path: zoxide_cache[i].clone(),
                is_zoxide: true,
                is_dir: true,
            };
            proof {
                picks = picks.push(z@);
            }
            zitems.push(item);
        }
        i = i + 1;
    }
    assert(cache.take(zoxide_cache@.len() as int) =~= cache);
    // The listed entries that are none of the merged directories follow.
    let zcount = zitems.len();
    let mut out = zitems;
    let mut j: usize = 0;
    while j < walker_items.len()
        invariant
            j <= walker_items@.len(),
            zcount == picks.len(),
            out@.len() >= zcount,
            forall|k: int| 0 <= k < picks.len() ==> zoxide_item_matches(#[trigger] out@[k], picks[k], hv),
            forall|k: int| 0 <= k < zcount ==> #[trigger] out@[k].full_path@ == picks[k],
            forall|k: int| 0 <= k < picks.len() ==> offered(#[trigger] picks[k], walker_items@, current_dir@, hv),
            out@.skip(zcount as int) == walker_items@.take(j as int),
        decreases walker_items.len() - j,
    {
        let w = &walker_items[j];
        let mut dup = false;
        let mut k: usize = 0;
        while k < zcount
            invariant
                zcount <= out@.len(),
                k <= zcount,
                zcount == picks.len(),
                j < walker_items@.len(),
                w == walker_items@[j as int],
                forall|m: int| 0 <= m < zcount ==> #[trigger] out@[m].full_path@ == picks[m],
                forall|m: int| 0 <= m < picks.len() ==> offered(#[trigger] picks[m], walker_items@, current_dir@, hv),
                !dup,
            decreases zcount - k,
        {
            if paths_equal(out[k].full_path.as_str(), w.full_path.as_str()) {
                // A merged directory is never one listed already.
                assert(offered(picks[k as int], walker_items@, current_dir@, hv));
                assert(spec_paths_equal(walker_items@[j as int].full_path@, picks[k as int]));
                dup = true;
            }
            k = k + 1;
        }
        if !dup {
            let c = w.clone();
            proof {
                assert(out@.push(c).skip(zcount as int) =~= out@.skip(zcount as int).push(c));
                assert(walker_items@.take(j + 1) =~= walker_items@.take(j as int).push(walker_items@[j as int]));
            }
            out.push(c);
        }
        j = j + 1;
    }
    assert(walker_items@.take(walker_items@.len() as int) =~= walker_items@);
    out
}

/// Merges zoxide's directories into the listing of the current directory
/// (see `merge_with_home`), with the home directory of this process.
pub fn merge_with_dirs(
    zoxide_cache: &Vec<String>,
    walker_items: Vec<DirEntryItem>,
    current_dir: &str,
    limit: usize,
) -> (r: Vec<DirEntryItem>)
    ensures
        exists|home: Option<Seq<char>>|
            is_merge(r@, paths_view(zoxide_cache@), walker_items@, current_dir@, home, limit),
{
    let home = home_dir();
    match &home {
        Some(h) => merge_with_home(Some(h.as_str()), zoxide_cache, walker_items, current_dir, limit),
        None => merge_with_home(None, zoxide_cache, walker_items, current_dir, limit),
    }
}

} // verus!

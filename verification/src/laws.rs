//! Properties of the navigator that span several operations.
use vstd::prelude::*;

use crate::app::{
    action_done, double_esc, esc_done, key_done, list_key_done, loaded, nav_down, nav_up, refresh_completed, row,
    search_invalidated, switched, typed, App, Mode,
};
use crate::config::Config;
use crate::keys::{spec_match_action, KeyCode, KeyEvent};
use crate::search_state::{accepts, SearchResult, SearchState};
use crate::tree::{files_in, first_files, TreeNode};
use crate::walker::DirEntryItem;
use crate::zoxide::{is_merge, listed_already, offered, zoxide_picks};

verus! {

/// Tab cycles through the three modes: three switches bring the navigator
/// back to the mode it was in, and each switch changes the mode.
pub proof fn law_mode_cycle(a: App, b: App, c: App, d: App)
    requires
        switched(a, b),
        switched(b, c),
        switched(c, d),
    ensures
        d.mode == a.mode,
        b.mode != a.mode,
        c.mode != b.mode,
        d.mode != c.mode,
{
}

/// Entering Grep mode turns WinHidden off and makes Grep search the current
/// directory.
pub proof fn law_grep_disables_winhidden(a: App, b: App)
    requires
        switched(a, b),
        b.mode == Mode::Grep,
    ensures
        !b.show_winhidden,
        b.grep_search_root@ == a.current_dir@,
{
}

/// Switching the mode starts a new search generation: the running search is
/// cancelled and the cache emptied.
pub proof fn law_switch_invalidates(a: App, b: App)
    requires
        switched(a, b),
    ensures
        b.search.generation == a.search.generation.wrapping_add(1),
        b.search.cancel is None,
        !b.search.find_cache_loaded,
        b.search.find_cache@.len() == 0,
{
}

/// A search started before the search state was invalidated is never taken
/// after: its results carry an older generation.
pub proof fn law_stale_results_dropped(
    a: SearchState,
    b: SearchState,
    r: SearchResult,
    current_dir: Seq<char>,
    query: Seq<char>,
)
    requires
        search_invalidated(a, b),
        r.generation == a.generation,
    ensures
        !accepts(b.generation, r, current_dir, query),
{
}

/// On the focused list, with no popup open and no action bound to the key,
/// Home puts the query cursor at the start and End at the end, and neither
/// changes the query.
pub proof fn law_home_and_end_move_the_cursor(
    a: App,
    b: App,
    key: KeyEvent,
    cfg: Config,
    now_ms: u64,
    home: Option<Seq<char>>,
    ok: bool,
)
    requires
        a.popup is None,
        a.focus == crate::app::Focus::List,
        spec_match_action(cfg.keys, key) is None,
        key.code == KeyCode::Home || key.code == KeyCode::End,
        a.query@.len() <= usize::MAX,
        key_done(a, b, key, cfg, now_ms, home, ok),
    ensures
        b.query == a.query,
        key.code == KeyCode::Home ==> b.cursor_pos == 0,
        key.code == KeyCode::End ==> b.cursor_pos == a.query@.len(),
{
}

/// On the focused list, with no popup open and no action bound to the key,
/// the editing keys edit the query at the cursor: Left and Right move the
/// cursor one place within the query (Right only while the preview shows
/// nothing), Backspace deletes the character before the cursor, and a
/// character typed without Control goes in at the cursor, which moves past
/// it.
pub proof fn law_query_editing(
    a: App,
    b: App,
    key: KeyEvent,
    cfg: Config,
    now_ms: u64,
    home: Option<Seq<char>>,
    ok: bool,
)
    requires
        a.popup is None,
        a.focus == crate::app::Focus::List,
        spec_match_action(cfg.keys, key) is None,
        a.cursor_pos <= a.query@.len(),
        a.query@.len() < usize::MAX,
        key_done(a, b, key, cfg, now_ms, home, ok),
    ensures
        key.code == KeyCode::Left ==> b.query == a.query && b.cursor_pos == if a.cursor_pos > 0 {
            a.cursor_pos - 1
        } else {
            0
        },
        key.code == KeyCode::Right && a.preview.text_lines == 0 && a.preview.contents_lines == 0 ==> b.query == a.query
            && b.cursor_pos == if a.cursor_pos < a.query@.len() {
            a.cursor_pos + 1
        } else {
            a.cursor_pos as int
        },
        key.code == KeyCode::Backspace && a.cursor_pos > 0 ==> b.query@ == a.query@.take(a.cursor_pos - 1) + a.query@.skip(
            a.cursor_pos as int,
        ) && b.cursor_pos == a.cursor_pos - 1,
        key.code == KeyCode::Backspace && a.cursor_pos == 0 ==> b.query == a.query && b.cursor_pos == 0,
        (key.code matches KeyCode::Char(c) && !key.modifiers.control) ==> b.query@ == a.query@.take(a.cursor_pos as int)
            + seq![key.code->Char_0] + a.query@.skip(a.cursor_pos as int) && b.cursor_pos == a.cursor_pos + 1,
{
    if key.code == KeyCode::Backspace && a.cursor_pos > 0 {
        assert(a.query@.remove(a.cursor_pos - 1) =~= a.query@.take(a.cursor_pos - 1) + a.query@.skip(a.cursor_pos as int));
    }
    if key.code is Char && !key.modifiers.control {
        assert(a.query@.insert(a.cursor_pos as int, key.code->Char_0) =~= a.query@.take(a.cursor_pos as int) + seq![
            key.code->Char_0,
        ] + a.query@.skip(a.cursor_pos as int));
    }
}

proof fn lemma_action_quit(a: App, b: App, home: Option<Seq<char>>)
    requires
        action_done(a, b, "quit"@, home),
    ensures
        b.should_quit,
        b.current_dir == a.current_dir,
        b.query == a.query,
{
    reveal_strlit("quit");
    reveal_strlit("toggle_dotfiles");
    reveal_strlit("toggle_winhidden");
    reveal_strlit("open_settings");
    reveal_strlit("switch_mode");
    reveal_strlit("open_explorer");
    reveal_strlit("go_home");
    assert("quit"@.len() != "toggle_dotfiles"@.len());
    assert("quit"@.len() != "toggle_winhidden"@.len());
    assert("quit"@.len() != "open_settings"@.len());
    assert("quit"@.len() != "switch_mode"@.len());
    assert("quit"@.len() != "open_explorer"@.len());
    assert("quit"@.len() != "go_home"@.len());
}

proof fn lemma_action_toggle_dotfiles(a: App, b: App, home: Option<Seq<char>>)
    requires
        action_done(a, b, "toggle_dotfiles"@, home),
    ensures
        b.show_dotfiles == !a.show_dotfiles,
        b.show_winhidden == a.show_winhidden,
        b.current_dir == a.current_dir,
        !b.search.find_cache_loaded,
{
    reveal_strlit("quit");
    reveal_strlit("toggle_dotfiles");
    reveal_strlit("toggle_winhidden");
    reveal_strlit("open_settings");
    reveal_strlit("switch_mode");
    reveal_strlit("open_explorer");
    reveal_strlit("go_home");
    assert("toggle_dotfiles"@.len() != "quit"@.len());
    assert("toggle_dotfiles"@.len() != "toggle_winhidden"@.len());
    assert("toggle_dotfiles"@.len() != "open_settings"@.len());
    assert("toggle_dotfiles"@.len() != "switch_mode"@.len());
    assert("toggle_dotfiles"@.len() != "open_explorer"@.len());
    assert("toggle_dotfiles"@.len() != "go_home"@.len());
}

proof fn lemma_action_toggle_winhidden(a: App, b: App, home: Option<Seq<char>>)
    requires
        action_done(a, b, "toggle_winhidden"@, home),
    ensures
        b.show_winhidden == !a.show_winhidden,
        b.show_dotfiles == a.show_dotfiles,
        b.current_dir == a.current_dir,
{
    reveal_strlit("quit");
    reveal_strlit("toggle_dotfiles");
    reveal_strlit("toggle_winhidden");
    reveal_strlit("open_settings");
    reveal_strlit("switch_mode");
    reveal_strlit("open_explorer");
    reveal_strlit("go_home");
    assert("toggle_winhidden"@.len() != "quit"@.len());
    assert("toggle_winhidden"@.len() != "toggle_dotfiles"@.len());
    assert("toggle_winhidden"@.len() != "open_settings"@.len());
    assert("toggle_winhidden"@.len() != "switch_mode"@.len());
    assert("toggle_winhidden"@.len() != "open_explorer"@.len());
    assert("toggle_winhidden"@.len() != "go_home"@.len());
}

proof fn lemma_action_go_home(a: App, b: App, home: Option<Seq<char>>)
    requires
        action_done(a, b, "go_home"@, home),
    ensures
        home is Some ==> b.current_dir@ == home->0 && b.query@.len() == 0 && b.cursor_pos == 0,
        home is None ==> b == a,
{
    reveal_strlit("quit");
    reveal_strlit("toggle_dotfiles");
    reveal_strlit("toggle_winhidden");
    reveal_strlit("open_settings");
    reveal_strlit("switch_mode");
    reveal_strlit("open_explorer");
    reveal_strlit("go_home");
    assert("go_home"@.len() != "quit"@.len());
    assert("go_home"@.len() != "toggle_dotfiles"@.len());
    assert("go_home"@.len() != "toggle_winhidden"@.len());
    assert("go_home"@.len() != "open_settings"@.len());
    assert("go_home"@.len() != "switch_mode"@.len());
    assert("go_home"@.len() != "open_explorer"@.len());
}

/// What the bound actions do: `quit` asks to quit; `toggle_dotfiles` and
/// `toggle_winhidden` flip their setting and nothing else of the view;
/// `go_home` enters the home directory with an empty query.
pub proof fn law_actions(a: App, b: App, action: Seq<char>, home: Option<Seq<char>>)
    requires
        action_done(a, b, action, home),
    ensures
        action == "quit"@ ==> (b.should_quit),
        action == "quit"@ ==> (b.current_dir == a.current_dir),
        action == "quit"@ ==> (b.query == a.query),
        action == "toggle_dotfiles"@ ==> (b.show_dotfiles == !a.show_dotfiles),
        action == "toggle_dotfiles"@ ==> (b.show_winhidden == a.show_winhidden),
        action == "toggle_dotfiles"@ ==> (b.current_dir == a.current_dir),
        action == "toggle_dotfiles"@ ==> (!b.search.find_cache_loaded),
        action == "toggle_winhidden"@ ==> (b.show_winhidden == !a.show_winhidden),
        action == "toggle_winhidden"@ ==> (b.show_dotfiles == a.show_dotfiles),
        action == "toggle_winhidden"@ ==> (b.current_dir == a.current_dir),
        action == "go_home"@ ==> (home is Some ==> b.current_dir@ == home->0 && b.query@.len() == 0 && b.cursor_pos == 0),
        action == "go_home"@ ==> (home is None ==> b == a),
{
    if action == "quit"@ {
        lemma_action_quit(a, b, home);
    }
    if action == "toggle_dotfiles"@ {
        lemma_action_toggle_dotfiles(a, b, home);
    }
    if action == "toggle_winhidden"@ {
        lemma_action_toggle_winhidden(a, b, home);
    }
    if action == "go_home"@ {
        lemma_action_go_home(a, b, home);
    }
}

/// A character typed and then deleted with Backspace leaves the query and
/// the cursor as they were.
pub proof fn law_type_then_delete(a: App, b: App, c: App, ch: char, key: KeyEvent, now_ms: u64, home: Option<Seq<char>>, ok: bool)
    requires
        a.cursor_pos <= a.query@.len(),
        a.cursor_pos < usize::MAX,
        typed(a, b, ch),
        key.code == KeyCode::Backspace,
        list_key_done(b, c, key, now_ms, home, ok),
    ensures
        c.query@ == a.query@,
        c.cursor_pos == a.cursor_pos,
{
    assert(b.cursor_pos == a.cursor_pos + 1);
    assert(b.query@.remove(a.cursor_pos as int) =~= a.query@);
}

/// A character typed into the query, once the owed refresh is done at
/// `now_ms`, starts a new search generation: outside Grep mode the running
/// search is cancelled and the search falls due `find_debounce_ms` later; in
/// Grep mode a grep is owed.
pub proof fn law_typing_restarts_debounce(
    a: App,
    b: App,
    d: App,
    ch: char,
    listing: Seq<DirEntryItem>,
    limit: usize,
    home: Option<Seq<char>>,
    now_ms: u64,
)
    requires
        a.cursor_pos <= a.query@.len(),
        typed(a, b, ch),
        refresh_completed(b, d, listing, limit, home, now_ms),
    ensures
        d.query@ == a.query@.insert(a.cursor_pos as int, ch),
        a.mode != Mode::Grep ==> d.search.find_deadline == Some((now_ms + a.search.find_debounce_ms) as u64)
            && d.search.cancel is None && d.search.generation == a.search.generation.wrapping_add(1),
        a.mode == Mode::Grep ==> d.grep_pending && d.search.find_deadline is None,
{
    assert(b.query@.len() > 0);
}

/// Moving the selection keeps it on a row of the list, and moving up then
/// down comes back to the row it started from.
pub proof fn law_selection_moves(a: App)
    requires
        row(a) < a.filtered_indices@.len(),
    ensures
        row(nav_up(a)) < a.filtered_indices@.len(),
        row(nav_down(a)) < a.filtered_indices@.len(),
        a.selected is Some && row(a) > 0 ==> nav_down(nav_up(a)).selected == a.selected,
{
}

/// A second Esc within 300 ms of the first goes to the home directory.
pub proof fn law_double_esc_goes_home(
    a: App,
    b: App,
    c: App,
    t1: u64,
    t2: u64,
    h: Seq<char>,
    ok1: bool,
    ok2: bool,
)
    requires
        !double_esc(a, t1),
        esc_done(a, b, t1, Some(h), ok1),
        t1 <= t2 < t1 + 300,
        esc_done(b, c, t2, Some(h), ok2),
    ensures
        c.current_dir@ == h,
        c.last_esc_ms is None,
{
}

/// Zoxide's directories are merged into the list once: the first load shows
/// them, every later load shows the listing alone.
pub proof fn law_zoxide_first_time_only(
    a: App,
    b: App,
    c: App,
    l1: Seq<DirEntryItem>,
    l2: Seq<DirEntryItem>,
    limit: usize,
    home: Option<Seq<char>>,
)
    requires
        loaded(a, b, l1, limit, home),
        loaded(b, c, l2, limit, home),
    ensures
        !b.zoxide_initial_visible,
        c.items@ == l2,
{
}

proof fn lemma_picks(
    cache: Seq<Seq<char>>,
    walker: Seq<DirEntryItem>,
    current: Seq<char>,
    home: Option<Seq<char>>,
    cap: int,
)
    requires
        cap >= 0,
    ensures
        ({
            let p = zoxide_picks(cache, walker, current, home, cap);
            &&& p.len() <= cap
            &&& forall|i: int| 0 <= i < p.len() ==> offered(#[trigger] p[i], walker, current, home)
        }),
    decreases cache.len(),
{
    if cache.len() > 0 {
        lemma_picks(cache.drop_last(), walker, current, home, cap);
    }
}

/// The merge of zoxide's directories into a listing keeps every listed entry
/// in its order after at most `limit` zoxide directories, none
/// of which is listed already or is the current directory.
pub proof fn law_merge_bounded(
    r: Seq<DirEntryItem>,
    cache: Seq<Seq<char>>,
    walker: Seq<DirEntryItem>,
    current: Seq<char>,
    home: Option<Seq<char>>,
    limit: usize,
)
    requires
        is_merge(r, cache, walker, current, home, limit),
    ensures
        walker.len() <= r.len() <= walker.len() + limit as int,
        r.skip(r.len() - walker.len()) == walker,
        forall|i: int|
            0 <= i < r.len() - walker.len() ==> (#[trigger] r[i]).is_zoxide && !listed_already(r[i].full_path@, walker)
                && !crate::paths::spec_paths_equal(r[i].full_path@, current),
{
    let cap = limit as int;
    lemma_picks(cache, walker, current, home, cap);
    let p = zoxide_picks(cache, walker, current, home, cap);
    assert forall|i: int| 0 <= i < r.len() - walker.len() implies (#[trigger] r[i]).is_zoxide && !listed_already(
        r[i].full_path@,
        walker,
    ) && !crate::paths::spec_paths_equal(r[i].full_path@, current) by {
        assert(offered(p[i], walker, current, home));
        assert(r[i].full_path@ == p[i]);
    }
}

proof fn lemma_picks_distinct(
    cache: Seq<Seq<char>>,
    walker: Seq<DirEntryItem>,
    current: Seq<char>,
    home: Option<Seq<char>>,
    cap: int,
)
    requires
        forall|i: int, j: int| 0 <= i < j < cache.len() ==> cache[i] != cache[j],
    ensures
        ({
            let p = zoxide_picks(cache, walker, current, home, cap);
            &&& forall|i: int| 0 <= i < p.len() ==> cache.contains(#[trigger] p[i])
            &&& forall|i: int, j: int| 0 <= i < j < p.len() ==> p[i] != p[j]
        }),
    decreases cache.len(),
{
    if cache.len() > 0 {
        let c0 = cache.drop_last();
        lemma_picks_distinct(c0, walker, current, home, cap);
        let prev = zoxide_picks(c0, walker, current, home, cap);
        let p = zoxide_picks(cache, walker, current, home, cap);
        assert forall|i: int| 0 <= i < prev.len() implies cache.contains(#[trigger] prev[i]) && prev[i] != cache.last() by {
            let k = choose|k: int| 0 <= k < c0.len() && c0[k] == prev[i];
            assert(cache[k] == prev[i]);
            assert(cache[cache.len() - 1] == cache.last());
        }
        assert(cache[cache.len() - 1] == cache.last());
        if p != prev {
            assert(p == prev.push(cache.last()));
            assert forall|i: int| 0 <= i < p.len() implies cache.contains(#[trigger] p[i]) by {
                if i < prev.len() {
                    assert(p[i] == prev[i]);
                }
            }
            assert forall|i: int, j: int| 0 <= i < j < p.len() implies p[i] != p[j] by {
                assert(p[i] == prev[i]);
            }
        }
    }
}

/// No directory appears twice in the merge of a zoxide list without
/// repeats into a listing without repeats: the zoxide directories differ
/// from one another, the listed entries from one another, and no zoxide
/// directory is path-equal to a listed one.
pub proof fn law_merge_distinct(
    r: Seq<DirEntryItem>,
    cache: Seq<Seq<char>>,
    walker: Seq<DirEntryItem>,
    current: Seq<char>,
    home: Option<Seq<char>>,
    limit: usize,
)
    requires
        is_merge(r, cache, walker, current, home, limit),
        forall|i: int, j: int| 0 <= i < j < cache.len() ==> cache[i] != cache[j],
        forall|i: int, j: int| 0 <= i < j < walker.len() ==> walker[i].full_path@ != walker[j].full_path@,
    ensures
        forall|i: int, j: int|
            0 <= i < j < r.len() ==> {
                let n = r.len() - walker.len();
                &&& (j < n || n <= i) ==> (#[trigger] r[i]).full_path@ != (#[trigger] r[j]).full_path@
                &&& (i < n <= j) ==> !crate::paths::spec_paths_equal(r[j].full_path@, r[i].full_path@)
            },
{
    let cap = limit as int;
    lemma_picks(cache, walker, current, home, cap);
    lemma_picks_distinct(cache, walker, current, home, cap);
    let p = zoxide_picks(cache, walker, current, home, cap);
    let n = p.len() as int;
    assert forall|i: int, j: int| 0 <= i < j < r.len() implies {
        &&& (j < n || n <= i) ==> (#[trigger] r[i]).full_path@ != (#[trigger] r[j]).full_path@
        &&& (i < n <= j) ==> !crate::paths::spec_paths_equal(r[j].full_path@, r[i].full_path@)
    } by {
        if j < n {
            assert(r[i].full_path@ == p[i]);
            assert(r[j].full_path@ == p[j]);
        } else if n <= i {
            assert(r[i] == r.skip(n)[i - n]);
            assert(r[j] == r.skip(n)[j - n]);
            assert(r[i] == walker[i - n]);
            assert(r[j] == walker[j - n]);
        } else {
            assert(r[i].full_path@ == p[i]);
            assert(offered(p[i], walker, current, home));
            assert(r[j] == r.skip(n)[j - n]);
            assert(r[j] == walker[j - n]);
        }
    }
}

proof fn lemma_first_files_at_most_three(s: Seq<TreeNode>)
    ensures
        files_in(first_files(s)) <= 3,
        files_in(first_files(s)) <= files_in(s),
        files_in(s) <= 3 ==> files_in(first_files(s)) == files_in(s),
    decreases s.len(),
{
    if s.len() > 0 {
        lemma_first_files_at_most_three(s.drop_last());
        let prev = first_files(s.drop_last());
        if s.last().is_dir || files_in(s.drop_last()) < 3 {
            assert(first_files(s) == prev.push(s.last()));
            assert(prev.push(s.last()).drop_last() =~= prev);
        }
    }
}

/// A level of the preview tree lists at most three files; when it lists
/// fewer than there are, there were more than three.
pub proof fn law_tree_at_most_three_files(s: Seq<TreeNode>)
    ensures
        files_in(first_files(s)) <= 3,
        files_in(first_files(s)) < files_in(s) ==> files_in(s) > 3,
{
    lemma_first_files_at_most_three(s);
}

} // verus!

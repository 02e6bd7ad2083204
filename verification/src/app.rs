//! The state of the navigator and every decision it takes on a key press, a
//! tick of the event loop or a result coming in.
//!
//! The caller does what touches the outside world and hands the library what
//! it found: the time, the home directory, whether a path is a directory,
//! the listing of a directory, the results of a search. A key press that
//! moves to another directory or changes what is listed leaves a refresh
//! owed (`App::pending`); `listing_request` says which listing it needs and
//! `complete_refresh` finishes it with that listing.
use vstd::prelude::*;

use crate::config::{Config, ToolEntry};
use crate::grep::GrepMatch;
use crate::keys::{spec_match_action, KeyCode, KeyEvent};
use crate::paths::{path_join, path_parent, paths_equal, spec_path_join, spec_path_parent, spec_paths_equal};
use crate::score::{is_ranking, name_fits, new_path_matcher, query_fits, score_items, FuzzyMatcher};
use crate::search_state::{accepts, SearchResult, SearchState, SearchTicket};
use crate::text::{
    chars_of, lemma_utf8_concat, lemma_utf8_forward_slashes, lemma_utf8_skip, string_from_chars, utf8_of,
};
use crate::tree::PreviewEntry;
use crate::walker::{walk_display, walk_display_of, DirEntryItem};
use crate::zoxide::{is_merge, merge_with_home, paths_view};

verus! {

/// What the list shows: the directories below the current one (`Find`), the
/// files below it (`Search`), or the lines that match the query (`Grep`).
#[derive(Debug, Clone, Copy, PartialEq, Eq, Structural)]
pub enum Mode {
    Find,
    Search,
    Grep,
}

/// The panel that takes the arrow keys.
#[derive(Debug, Clone, Copy, PartialEq, Eq, Structural)]
pub enum Focus {
    List,
    Preview,
}

/// The popup open over the panels.
#[derive(Debug, Clone, Copy, PartialEq, Eq, Structural)]
pub enum Popup {
    ToolSelector,
}

/// What happens when the navigator ends.
pub enum ExitAction {
    OutputPath(String),
    SpawnTool { command: String, path: String },
    JustExit,
}

/// The refresh a key press has left owed: the list reloaded, then the query
/// applied to it; the list only; the query only; or none.
#[derive(Debug, Clone, Copy, PartialEq, Eq, Structural)]
pub enum Refresh {
    Nothing,
    Items,
    ItemsThenQuery,
    Query,
}

/// What the list is reloaded from: the directories or the files below a
/// directory, with the dotfiles and the Windows system directories shown or
/// not.
#[derive(Debug, Clone, Copy, PartialEq, Eq, Structural)]
pub enum ListKind {
    Dirs,
    Files,
}

pub struct ListingRequest {
    pub dir: String,
    pub kind: ListKind,
    pub show_dotfiles: bool,
    pub show_winhidden: bool,
}

/// The preview panel: how many lines its text and its directory contents
/// have (the caller keeps the text), whether it is to be regenerated, how
/// far it is scrolled, the directories it lets the user enter and which of
/// them is selected.
pub struct PreviewState {
    pub text_lines: usize,
    pub contents_lines: usize,
    pub dirty: bool,
    pub scroll: u64,
    pub entries: Vec<PreviewEntry>,
    pub selection: usize,
}

impl PreviewState {
    /// An empty preview, not to be regenerated.
    pub fn new() -> (r: PreviewState)
        ensures
            r.text_lines == 0,
            r.contents_lines == 0,
            !r.dirty,
            r.scroll == 0,
            r.entries@.len() == 0,
            r.selection == 0,
    {
        PreviewState { text_lines: 0, contents_lines: 0, dirty: false, scroll: 0, entries: Vec::new(), selection: 0 }
    }

    /// Empties the preview; whether it is to be regenerated stays.
    pub fn reset(&mut self)
        ensures
            preview_cleared(*old(self), *final(self)),
    {
        self.text_lines = 0;
        self.contents_lines = 0;
        self.entries.clear();
        self.selection = 0;
        self.scroll = 0;
    }
}

/// `b` is `a` emptied: no text, no contents, no entries, not scrolled.
pub open spec fn preview_cleared(a: PreviewState, b: PreviewState) -> bool {
    &&& b == PreviewState { text_lines: 0, contents_lines: 0, scroll: 0, entries: b.entries, selection: 0, ..a }
    &&& b.entries@.len() == 0
}

/// `b` is `a` with a new generation: the running search cancelled, the cache
/// emptied, no deadline.
pub open spec fn search_invalidated(a: SearchState, b: SearchState) -> bool {
    &&& b == SearchState {
        find_cache: b.find_cache,
        find_cache_root: b.find_cache_root,
        find_cache_loaded: false,
        find_deadline: None,
        generation: a.generation.wrapping_add(1),
        cancel: None,
        ..a
    }
    &&& b.find_cache@.len() == 0
    &&& b.find_cache_root@.len() == 0
}

/// Whether every entry can be scored: the fuzzy matcher takes names of at
/// most `u32::MAX` bytes.
pub open spec fn fits(s: Seq<DirEntryItem>) -> bool {
    forall|k: int| 0 <= k < s.len() ==> name_fits((#[trigger] s[k]).display@)
}

/// The state of the navigator.
pub struct App {
    pub current_dir: String,
    pub items: Vec<DirEntryItem>,
    pub filtered_indices: Vec<usize>,
    pub mode: Mode,
    pub focus: Focus,
    pub popup: Option<Popup>,
    pub popup_index: usize,
    pub show_dotfiles: bool,
    pub show_winhidden: bool,
    /// The selected row of the list.
    pub selected: Option<usize>,
    pub query: String,
    /// The cursor in the query, counted in characters.
    pub cursor_pos: usize,
    pub popup_width_pct: u16,
    pub popup_height_pct: u16,
    pub should_quit: bool,
    pub exit_action: ExitAction,
    pub zoxide_cache: Vec<String>,
    pub zoxide_initial_visible: bool,
    pub preview: PreviewState,
    pub matcher: FuzzyMatcher,
    pub grep_pending: bool,
    pub grep_results: Vec<GrepMatch>,
    pub grep_search_root: String,
    pub grep_debounce_ms: u64,
    pub search: SearchState,
    pub tick: u64,
    /// When Esc was last pressed, in the caller's milliseconds.
    pub last_esc_ms: Option<u64>,
    pub spawn_pending: Option<(String, String)>,
    pub pending: Refresh,
}

/// The list entry on the selected row, if the row and its entry exist.
pub open spec fn selected_item(a: App) -> Option<DirEntryItem> {
    match a.selected {
        Some(s) => if s < a.filtered_indices@.len() && a.filtered_indices@[s as int] < a.items@.len() {
            Some(a.items@[a.filtered_indices@[s as int] as int])
        } else {
            None
        },
        None => None,
    }
}

/// The directory on the selected row, if the selected entry is one.
pub open spec fn selected_dir(a: App) -> Option<Seq<char>> {
    match selected_item(a) {
        Some(item) => if item.is_dir {
            Some(item.full_path@)
        } else {
            None
        },
        None => None,
    }
}

/// The row the list counts from when moving: the selected one, or the first.
pub open spec fn row(a: App) -> usize {
    match a.selected {
        Some(i) => i,
        None => 0,
    }
}

/// `0, 1, ..., n - 1`.
pub open spec fn all_rows(v: Seq<usize>, n: nat) -> bool {
    &&& v.len() == n
    &&& forall|i: int| 0 <= i < n ==> #[trigger] v[i] == i
}

/// The indices `0..n`.
fn indices(n: usize) -> (r: Vec<usize>)
    ensures
        all_rows(r@, n as nat),
{
    let mut v: Vec<usize> = Vec::new();
    let mut i: usize = 0;
    while i < n
        invariant
            i <= n,
            all_rows(v@, i as nat),
        decreases n - i,
    {
        v.push(i);
        i = i + 1;
    }
    v
}

impl App {
    /// The well-formedness the navigator keeps: every entry of the list and
    /// of the search cache can be scored.
    pub open spec fn wf(&self) -> bool {
        &&& fits(self.items@)
        &&& fits(self.search.find_cache@)
        &&& paths_fit(paths_view(self.zoxide_cache@))
        &&& self.cursor_pos <= self.query@.len()
        &&& self.matcher.is_path_matcher()
    }

    /// The navigator as it starts: in the directory `current_dir`, in Find
    /// mode with the list focused, with the settings of `cfg`, the directories
    /// zoxide knows `zoxide_cache` (shown first while no query is typed), the
    /// query `initial_query` with the cursor at its end and, when it is not
    /// empty, the search due `find_debounce_ms` after `now_ms`; Grep searches
    /// the home directory `home`, or `/` when there is none.
    pub fn new(
        initial_query: Option<String>,
        current_dir: String,
        cfg: &Config,
        zoxide_cache: Vec<String>,
        home: Option<String>,
        now_ms: u64,
    ) -> (r: App)
        requires
            now_ms + cfg.find_debounce_ms <= u64::MAX,
            paths_fit(paths_view(zoxide_cache@)),
        ensures
            r.wf(),
            r.current_dir == current_dir,
            r.items@.len() == 0,
            r.filtered_indices@.len() == 0,
            r.mode == Mode::Find,
            r.focus == Focus::List,
            r.popup is None,
            r.popup_index == 0,
            r.show_dotfiles == cfg.show_dotfiles,
            r.show_winhidden == cfg.show_winhidden,
            r.selected is None,
            r.query@ == (match initial_query {
                Some(q) => q@,
                None => Seq::empty(),
            }),
            r.cursor_pos == r.query@.len(),
            r.popup_width_pct == cfg.popup_width_pct,
            r.popup_height_pct == cfg.popup_height_pct,
            !r.should_quit,
            r.exit_action is JustExit,
            r.zoxide_cache == zoxide_cache,
            r.zoxide_initial_visible == (r.query@.len() == 0),
            r.preview.text_lines == 0 && r.preview.contents_lines == 0 && !r.preview.dirty,
            r.preview.scroll == 0 && r.preview.entries@.len() == 0 && r.preview.selection == 0,
            !r.grep_pending,
            r.grep_results@.len() == 0,
            r.grep_search_root@ == (match home {
                Some(h) => h@,
                None => "/"@,
            }),
            r.grep_debounce_ms == cfg.grep_debounce_ms,
            r.search.find_debounce_ms == cfg.find_debounce_ms,
            r.search.find_cache@.len() == 0,
            !r.search.find_cache_loaded,
            r.search.generation == 0,
            r.search.cancel is None,
            r.search.find_deadline == (if r.query@.len() == 0 {
                None
            } else {
                Some((now_ms + cfg.find_debounce_ms) as u64)
            }),
            r.tick == 0,
            r.last_esc_ms is None,
            r.spawn_pending is None,
            r.pending == Refresh::Nothing,
    {
        let query = match initial_query {
            Some(q) => q,
            None => String::new(),
        };
        let qc = chars_of(query.as_str());
        let cursor_pos = qc.len();
        let zoxide_initial_visible = cursor_pos == 0;
        let mut search = SearchState::new(cfg.find_debounce_ms);
        if cursor_pos > 0 {
            search.find_deadline = Some(now_ms + cfg.find_debounce_ms);
        }
        let grep_search_root = match home {
            Some(h) => h,
            None => string_from_chars(chars_of("/").as_slice()),
        };
        App {
            current_dir,
            items: Vec::new(),
            filtered_indices: Vec::new(),
            mode: Mode::Find,
            focus: Focus::List,
            popup: None,
            popup_index: 0,
            show_dotfiles: cfg.show_dotfiles,
            show_winhidden: cfg.show_winhidden,
            selected: None,
            query,
            cursor_pos,
            popup_width_pct: cfg.popup_width_pct,
            popup_height_pct: cfg.popup_height_pct,
            should_quit: false,
            exit_action: ExitAction::JustExit,
            zoxide_cache,
            zoxide_initial_visible,
            preview: PreviewState::new(),
            matcher: new_path_matcher(),
            grep_pending: false,
            grep_results: Vec::new(),
            grep_search_root,
            grep_debounce_ms: cfg.grep_debounce_ms,
            search,
            tick: 0,
            last_esc_ms: None,
            spawn_pending: None,
            pending: Refresh::Nothing,
        }
    }

    /// Moves the selection one row up, unless it is on the first row.
    pub fn list_nav_up(&mut self)
        ensures
            *final(self) == nav_up(*old(self)),
    {
        let i = match self.selected {
            Some(i) => i,
            None => 0,
        };
        if i > 0 {
            self.selected = Some(i - 1);
            self.preview.dirty = true;
        }
    }

    /// Moves the selection one row down, unless it is on the last row.
    pub fn list_nav_down(&mut self)
        ensures
            *final(self) == nav_down(*old(self)),
    {
        let i = match self.selected {
            Some(i) => i,
            None => 0,
        };
        if i < self.filtered_indices.len() && i + 1 < self.filtered_indices.len() {
            self.selected = Some(i + 1);
            self.preview.dirty = true;
        }
    }

    /// The entry on the selected row.
    pub fn selected_entry(&self) -> (r: Option<&DirEntryItem>)
        ensures
            match r {
                Some(item) => selected_item(*self) == Some(*item),
                None => selected_item(*self) is None,
            },
    {
        match self.selected {
            Some(s) => {
                if s < self.filtered_indices.len() {
                    let idx = self.filtered_indices[s];
                    if idx < self.items.len() {
                        return Some(&self.items[idx]);
                    }
                }
                None
            },
            None => None,
        }
    }

    /// The directory on the selected row, if the selected entry is one.
    pub fn get_selected_dir(&self) -> (r: Option<String>)
        ensures
            match r {
                Some(p) => selected_dir(*self) == Some(p@),
                None => selected_dir(*self) is None,
            },
    {
        match self.selected_entry() {
            Some(item) => if item.is_dir {
                Some(item.full_path.clone())
            } else {
                None
            },
            None => None,
        }
    }

    /// Runs the tool chosen in the popup on the selected directory: the popup
    /// closes and the tool is to be spawned on the directory (with no
    /// directory selected, nothing is spawned). With no tool at the popup's
    /// row nothing happens.
    pub fn execute_tool_from_popup(&mut self, cfg: &Config)
        ensures
            tool_chosen(*old(self), *final(self), *cfg),
    {
        let dir = self.get_selected_dir();
        if self.popup_index >= cfg.tool_selector.len() {
            return;
        }
        let tool: &ToolEntry = &cfg.tool_selector[self.popup_index];
        self.popup = None;
        if let Some(path) = dir {
            self.spawn_pending = Some((tool.command.clone(), path));
        }
    }
}


// ---------------------------------------------------------------------------
// Refreshing the list
// ---------------------------------------------------------------------------

/// Whether every directory zoxide knows is short enough to be shown and
/// scored.
pub open spec fn paths_fit(cache: Seq<Seq<char>>) -> bool {
    forall|k: int| 0 <= k < cache.len() ==> utf8_of(#[trigger] cache[k]).len() < u32::MAX
}

proof fn lemma_picks_from_cache(
    cache: Seq<Seq<char>>,
    walker: Seq<DirEntryItem>,
    current: Seq<char>,
    home: Option<Seq<char>>,
    cap: int,
)
    ensures
        ({
            let picks = crate::zoxide::zoxide_picks(cache, walker, current, home, cap);
            forall|i: int| 0 <= i < picks.len() ==> cache.contains(#[trigger] picks[i])
        }),
    decreases cache.len(),
{
    if cache.len() > 0 {
        lemma_picks_from_cache(cache.drop_last(), walker, current, home, cap);
        let prev = crate::zoxide::zoxide_picks(cache.drop_last(), walker, current, home, cap);
        assert forall|i: int| 0 <= i < prev.len() implies cache.contains(#[trigger] prev[i]) by {
            let j = choose|j: int| 0 <= j < cache.drop_last().len() && cache.drop_last()[j] == prev[i];
            assert(cache[j] == prev[i]);
        }
        assert(cache[cache.len() - 1] == cache.last());
    }
}

proof fn lemma_merge_fits(
    r: Seq<DirEntryItem>,
    cache: Seq<Seq<char>>,
    walker: Seq<DirEntryItem>,
    current: Seq<char>,
    home: Option<Seq<char>>,
    limit: usize,
)
    requires
        is_merge(r, cache, walker, current, home, limit),
        fits(walker),
        paths_fit(cache),
    ensures
        fits(r),
{
    let picks = crate::zoxide::zoxide_picks(cache, walker, current, home, limit as int);
    lemma_picks_from_cache(cache, walker, current, home, limit as int);
    assert forall|k: int| 0 <= k < r.len() implies name_fits((#[trigger] r[k]).display@) by {
        reveal(name_fits);
        if k < picks.len() {
            let z = picks[k];
            assert(cache.contains(z));
            let j = choose|j: int| 0 <= j < cache.len() && cache[j] == z;
            assert(utf8_of(cache[j]).len() < u32::MAX);
            lemma_display_with_home_bytes(z, home);
        } else {
            assert(r[k] == r.skip(picks.len() as int)[k - picks.len()]);
            assert(r[k] == walker[k - picks.len()]);
        }
    }
}

/// The path shown for a directory has at most one byte more than the path.
proof fn lemma_display_with_home_bytes(z: Seq<char>, home: Option<Seq<char>>)
    ensures
        utf8_of(crate::paths::display_with_home(z, home)).len() <= utf8_of(z).len() + 1,
{
    let s = crate::text::forward_slashes(z);
    lemma_utf8_forward_slashes(z);
    if let Some(h) = home {
        let hs = crate::text::forward_slashes(h);
        if crate::text::starts_with(s, hs) {
            lemma_utf8_skip(s, hs.len() as int);
            lemma_utf8_concat(seq!['~'], s.skip(hs.len() as int));
            assert(utf8_of(seq!['~']).len() == 1) by {
                let t = seq!['~'];
                assert(t[0] == '~');
                assert(t.drop_first() =~= Seq::<char>::empty());
                assert(('~' as u32) == 126);
                assert(vstd::utf8::encode_scalar(126u32).len() == 1);
                assert(utf8_of(t) == vstd::utf8::encode_scalar(t[0] as u32) + utf8_of(t.drop_first()));
            }
        }
    }
}

/// `b` is `a` after the list is loaded in Find mode from the directories
/// `listing` of the current directory: while zoxide's directories are still
/// to be shown, they come first (at most `limit`, see `is_merge`) and are
/// not shown again; every entry is a row, and a list that is not empty gets
/// its first row selected and the preview regenerated.
pub open spec fn loaded(a: App, b: App, listing: Seq<DirEntryItem>, limit: usize, home: Option<Seq<char>>) -> bool {
    &&& if a.zoxide_initial_visible {
        is_merge(b.items@, paths_view(a.zoxide_cache@), listing, a.current_dir@, home, limit)
    } else {
        b.items@ == listing
    }
    &&& all_rows(b.filtered_indices@, b.items@.len())
    &&& b == App {
        items: b.items,
        filtered_indices: b.filtered_indices,
        zoxide_initial_visible: false,
        selected: if b.items@.len() > 0 {
            Some(0usize)
        } else {
            a.selected
        },
        preview: if b.items@.len() > 0 {
            PreviewState { dirty: true, ..a.preview }
        } else {
            a.preview
        },
        ..a
    }
}

/// `b` is `a` after the query is applied. In Grep mode: the running search
/// cancelled and its deadline dropped, and a grep owed when the query is not
/// empty. Otherwise a new generation; an empty query cancels the search,
/// drops the deadline and reloads the list (Find, from `listing`) or shows
/// every entry (Search); a query restarts the debounce at `now_ms`.
pub open spec fn query_applied(
    a: App,
    b: App,
    listing: Seq<DirEntryItem>,
    limit: usize,
    home: Option<Seq<char>>,
    now_ms: u64,
) -> bool {
    if a.mode == Mode::Grep {
        b == App {
            search: SearchState { cancel: None, find_deadline: None, ..a.search },
            grep_pending: a.grep_pending || a.query@.len() > 0,
            ..a
        }
    } else {
        let next = a.search.generation.wrapping_add(1);
        if a.query@.len() == 0 {
            let a2 = App { search: SearchState { generation: next, cancel: None, find_deadline: None, ..a.search }, ..a };
            if a.mode == Mode::Find {
                loaded(a2, b, listing, limit, home)
            } else {
                &&& all_rows(b.filtered_indices@, a.items@.len())
                &&& b == App { filtered_indices: b.filtered_indices, ..a2 }
            }
        } else {
            b == App {
                search: SearchState {
                    generation: next,
                    cancel: None,
                    find_deadline: Some((now_ms + a.search.find_debounce_ms) as u64),
                    ..a.search
                },
                ..a
            }
        }
    }
}

/// `b` is `a` after the list is reloaded: in Find mode, while no query is
/// typed, from the directories `listing`; in Search mode from the files
/// `listing`, with the query applied then; in Grep mode not at all.
pub open spec fn items_refreshed(
    a: App,
    b: App,
    listing: Seq<DirEntryItem>,
    limit: usize,
    home: Option<Seq<char>>,
    now_ms: u64,
) -> bool {
    match a.mode {
        Mode::Find => if a.query@.len() == 0 {
            loaded(a, b, listing, limit, home)
        } else {
            b == a
        },
        Mode::Search => exists|m: App|
            m == App { items: m.items, ..a } && m.items@ == listing && #[trigger] query_applied(m, b, listing, limit, home, now_ms),
        Mode::Grep => b == a,
    }
}

/// `b` is `a` with the owed refresh done, from the listing `listing` of the
/// current directory, and nothing owed any more.
pub open spec fn refresh_completed(
    a: App,
    b: App,
    listing: Seq<DirEntryItem>,
    limit: usize,
    home: Option<Seq<char>>,
    now_ms: u64,
) -> bool {
    let a0 = App { pending: Refresh::Nothing, ..a };
    match a.pending {
        Refresh::Nothing => b == a0,
        Refresh::Items => items_refreshed(a0, b, listing, limit, home, now_ms),
        Refresh::Query => query_applied(a0, b, listing, limit, home, now_ms),
        Refresh::ItemsThenQuery => exists|m: App|
            items_refreshed(a0, m, listing, limit, home, now_ms) && #[trigger] query_applied(m, b, listing, limit, home, now_ms),
    }
}

/// The listing an owed refresh needs, if any: in Find mode the directories
/// of the current directory while no query is typed; in Search mode its
/// files when the list is reloaded.
pub open spec fn listing_needed(a: App) -> Option<ListKind> {
    match a.pending {
        Refresh::Nothing => None,
        _ => match a.mode {
            Mode::Find => if a.query@.len() == 0 {
                Some(ListKind::Dirs)
            } else {
                None
            },
            Mode::Search => if a.pending == Refresh::Query {
                None
            } else {
                Some(ListKind::Files)
            },
            Mode::Grep => None,
        },
    }
}

impl App {
    fn load_find_items(&mut self, listing: &Vec<DirEntryItem>, limit: usize, home: Option<&str>)
        requires
            fits(listing@),
            paths_fit(paths_view(old(self).zoxide_cache@)),
        ensures
            loaded(*old(self), *final(self), listing@, limit, crate::paths::opt_str_view(home)),
            fits(final(self).items@),
    {
        let walker_items = listing.clone();
        assert(walker_items@ =~= listing@);
        let items = if self.zoxide_initial_visible {
            let merged = merge_with_home(home, &self.zoxide_cache, walker_items, self.current_dir.as_str(), limit);
            proof {
                lemma_merge_fits(merged@, paths_view(self.zoxide_cache@), listing@, self.current_dir@, crate::paths::opt_str_view(home), limit);
            }
            merged
        } else {
            walker_items
        };
        self.zoxide_initial_visible = false;
        self.filtered_indices = indices(items.len());
        self.items = items;
        if self.filtered_indices.len() > 0 {
            self.selected = Some(0);
            self.preview.dirty = true;
        }
    }

    fn apply_query_with(&mut self, listing: &Vec<DirEntryItem>, limit: usize, home: Option<&str>, now_ms: u64)
        requires
            fits(listing@),
            paths_fit(paths_view(old(self).zoxide_cache@)),
            now_ms + old(self).search.find_debounce_ms <= u64::MAX,
        ensures
            query_applied(*old(self), *final(self), listing@, limit, crate::paths::opt_str_view(home), now_ms),
            fits(old(self).items@) ==> fits(final(self).items@),
    {
        if self.mode == Mode::Grep {
            self.search.cancel();
            self.search.find_deadline = None;
            if self.query_len() > 0 {
                self.grep_pending = true;
            }
            return;
        }
        self.search.generation = self.search.generation.wrapping_add(1);
        if self.query_len() == 0 {
            self.search.cancel();
            self.search.find_deadline = None;
            if self.mode == Mode::Find {
                self.load_find_items(listing, limit, home);
            } else {
                self.filtered_indices = indices(self.items.len());
            }
            return;
        }
        self.search.set_deadline(self.query.as_str(), now_ms);
    }

    /// The number of characters of the query.
    pub fn query_len(&self) -> (r: usize)
        ensures
            r == self.query@.len(),
    {
        chars_of(self.query.as_str()).len()
    }

    fn refresh_items_with(&mut self, listing: &Vec<DirEntryItem>, limit: usize, home: Option<&str>, now_ms: u64)
        requires
            fits(listing@),
            paths_fit(paths_view(old(self).zoxide_cache@)),
            now_ms + old(self).search.find_debounce_ms <= u64::MAX,
        ensures
            items_refreshed(*old(self), *final(self), listing@, limit, crate::paths::opt_str_view(home), now_ms),
            fits(old(self).items@) ==> fits(final(self).items@),
    {
        match self.mode {
            Mode::Find => {
                if self.query_len() == 0 {
                    self.load_find_items(listing, limit, home);
                }
            },
            Mode::Search => {
                let l = listing.clone();
                assert(l@ =~= listing@);
                self.items = l;
                let ghost m = *self;
                self.apply_query_with(listing, limit, home, now_ms);
                assert(query_applied(m, *self, listing@, limit, crate::paths::opt_str_view(home), now_ms));
            },
            Mode::Grep => {},
        }
    }

    /// The listing the owed refresh needs, if any (see `listing_needed`).
    pub fn listing_request(&self) -> (r: Option<ListingRequest>)
        ensures
            match r {
                Some(q) => listing_needed(*self) == Some(q.kind) && q.dir@ == self.current_dir@
                    && q.show_dotfiles == self.show_dotfiles && q.show_winhidden == self.show_winhidden,
                None => listing_needed(*self) is None,
            },
    {
        let kind = match self.pending {
            Refresh::Nothing => None,
            _ => match self.mode {
                Mode::Find => if self.query_len() == 0 {
                    Some(ListKind::Dirs)
                } else {
                    None
                },
                Mode::Search => if self.pending == Refresh::Query {
                    None
                } else {
                    Some(ListKind::Files)
                },
                Mode::Grep => None,
            },
        };
        match kind {
            Some(k) => Some(ListingRequest {
                dir: self.current_dir.clone(),
                kind: k,
                show_dotfiles: self.show_dotfiles,
                show_winhidden: self.show_winhidden,
            }),
            None => None,
        }
    }

    /// Does the owed refresh with `listing`, the listing `listing_request`
    /// asked for (any listing where it asked for none: it is not read), the
    /// home directory `home` and the time `now_ms`; nothing is owed after.
    pub fn complete_refresh(&mut self, listing: Vec<DirEntryItem>, cfg: &Config, home: Option<&str>, now_ms: u64)
        requires
            old(self).wf(),
            fits(listing@),
            now_ms + old(self).search.find_debounce_ms <= u64::MAX,
        ensures
            refresh_completed(*old(self), *final(self), listing@, cfg.zoxide_limit, crate::paths::opt_str_view(home), now_ms),
            final(self).wf(),
            final(self).pending == Refresh::Nothing,
    {
        let p = self.pending;
        self.pending = Refresh::Nothing;
        let limit = cfg.zoxide_limit;
        match p {
            Refresh::Nothing => {},
            Refresh::Items => {
                self.refresh_items_with(&listing, limit, home, now_ms);
            },
            Refresh::Query => {
                self.apply_query_with(&listing, limit, home, now_ms);
            },
            Refresh::ItemsThenQuery => {
                self.refresh_items_with(&listing, limit, home, now_ms);
                let ghost m = *self;
                self.apply_query_with(&listing, limit, home, now_ms);
                assert(query_applied(m, *self, listing@, limit, crate::paths::opt_str_view(home), now_ms));
            },
        }
    }
}


// ---------------------------------------------------------------------------
// Moving between directories
// ---------------------------------------------------------------------------

/// `b` is `a` having entered the directory `dir`: the query cleared, the
/// preview emptied and to be regenerated, the search invalidated, and the
/// list reload owed.
pub open spec fn entered(a: App, b: App, dir: Seq<char>) -> bool {
    &&& b.current_dir@ == dir
    &&& b.query@.len() == 0
    &&& preview_cleared(PreviewState { dirty: true, ..a.preview }, b.preview)
    &&& search_invalidated(a.search, b.search)
    &&& b == App {
        current_dir: b.current_dir,
        query: b.query,
        cursor_pos: 0,
        preview: b.preview,
        search: b.search,
        pending: Refresh::Items,
        ..a
    }
}

/// `b` is `a` having moved to the directory `dir` from the keyboard: Grep
/// searches `dir` from now on, the preview is emptied and to be regenerated,
/// the search invalidated, the list and the grep results emptied with no
/// row selected and no grep owed, and the list reload and the query owed.
pub open spec fn navigated(a: App, b: App, dir: Seq<char>) -> bool {
    &&& b.current_dir@ == dir
    &&& if a.mode == Mode::Grep {
        b.grep_search_root@ == dir
    } else {
        b.grep_search_root == a.grep_search_root
    }
    &&& preview_cleared(PreviewState { dirty: true, ..a.preview }, b.preview)
    &&& search_invalidated(a.search, b.search)
    &&& b.items@.len() == 0
    &&& b.filtered_indices@.len() == 0
    &&& b.grep_results@.len() == 0
    &&& b == App {
        current_dir: b.current_dir,
        grep_search_root: b.grep_search_root,
        preview: b.preview,
        search: b.search,
        items: b.items,
        filtered_indices: b.filtered_indices,
        selected: None,
        grep_results: b.grep_results,
        grep_pending: false,
        pending: Refresh::ItemsThenQuery,
        ..a
    }
}

/// A question about the file system that a key press depends on.
pub enum PathCheck {
    /// Whether the path is a directory.
    IsDir(String),
    /// Whether the path exists.
    Exists(String),
}

/// What Enter on the list depends on: in Find mode whether the selected
/// entry is a directory, otherwise whether its parent exists.
pub open spec fn enter_check(a: App) -> Option<(Seq<char>, bool)> {
    match selected_item(a) {
        Some(item) => match a.mode {
            Mode::Find => Some((item.full_path@, true)),
            _ => match spec_path_parent(item.full_path@) {
                Some(p) => Some((p, false)),
                None => None,
            },
        },
        None => None,
    }
}

/// `b` is `a` after Enter on the list, with `target_ok` the answer to
/// `enter_check`: in Find mode the selected directory is entered; in the
/// other modes the parent directory of the selected entry, in Find mode.
pub open spec fn enter_done(a: App, b: App, target_ok: bool) -> bool {
    match selected_item(a) {
        None => b == a,
        Some(item) => match a.mode {
            Mode::Find => if item.is_dir && target_ok {
                entered(a, b, item.full_path@)
            } else {
                b == a
            },
            _ => match spec_path_parent(item.full_path@) {
                Some(p) => if target_ok {
                    entered(App { mode: Mode::Find, ..a }, b, p)
                } else {
                    b == a
                },
                None => b == a,
            },
        },
    }
}

/// Whether Esc at `now_ms` follows the last one by less than 300 ms.
pub open spec fn double_esc(a: App, now_ms: u64) -> bool {
    match a.last_esc_ms {
        Some(t) => now_ms < t + 300,
        None => false,
    }
}

/// What Esc depends on: whether the parent of the current directory exists
/// (not asked on a second Esc, nor when there is no parent).
pub open spec fn esc_check(a: App, now_ms: u64) -> Option<(Seq<char>, bool)> {
    if double_esc(a, now_ms) {
        None
    } else {
        match spec_path_parent(a.current_dir@) {
            Some(p) => if p.len() > 0 {
                Some((p, false))
            } else {
                None
            },
            None => None,
        }
    }
}

/// `b` is `a` after Esc at `now_ms`: a second Esc within 300 ms goes to the
/// home directory `home`; otherwise the time is kept and the navigator goes
/// to the parent directory, or quits when there is none.
pub open spec fn esc_done(a: App, b: App, now_ms: u64, home: Option<Seq<char>>, target_ok: bool) -> bool {
    if double_esc(a, now_ms) {
        let a1 = App { last_esc_ms: None, ..a };
        match home {
            Some(h) => navigated(a1, b, h),
            None => b == a1,
        }
    } else {
        let a1 = App { last_esc_ms: Some(now_ms), ..a };
        match spec_path_parent(a.current_dir@) {
            None => b == App { should_quit: true, ..a1 },
            Some(p) => if p.len() == 0 {
                b == App { should_quit: true, ..a1 }
            } else if target_ok {
                navigated(a1, b, p)
            } else {
                b == a1
            },
        }
    }
}

/// The mode after `m` in the cycle Find, Search, Grep.
pub open spec fn mode_after(m: Mode) -> Mode {
    match m {
        Mode::Find => Mode::Search,
        Mode::Search => Mode::Grep,
        Mode::Grep => Mode::Find,
    }
}

/// `b` is `a` in the next mode: the search invalidated; entering Grep turns
/// WinHidden off, makes Grep search the current directory and owes a grep
/// when a query is typed; the list reload and the query owed, the preview to
/// be regenerated.
pub open spec fn switched(a: App, b: App) -> bool {
    let m = mode_after(a.mode);
    &&& search_invalidated(a.search, b.search)
    &&& if m == Mode::Grep {
        b.grep_search_root@ == a.current_dir@
    } else {
        b.grep_search_root == a.grep_search_root
    }
    &&& b == App {
        search: b.search,
        mode: m,
        show_winhidden: if m == Mode::Grep {
            false
        } else {
            a.show_winhidden
        },
        grep_search_root: b.grep_search_root,
        grep_pending: if m == Mode::Grep && a.query@.len() > 0 {
            true
        } else {
            a.grep_pending
        },
        preview: PreviewState { dirty: true, ..a.preview },
        pending: Refresh::ItemsThenQuery,
        ..a
    }
}

/// The settings file: `.config/cdx/config.toml` in the home directory, or in
/// `.` when there is none.
pub open spec fn settings_path(home: Option<Seq<char>>) -> Seq<char> {
    let base = match home {
        Some(h) => h,
        None => "."@,
    };
    spec_path_join(spec_path_join(spec_path_join(base, ".config"@), "cdx"@), "config.toml"@)
}

/// The names of the configurable actions.
pub open spec fn known_action(action: Seq<char>) -> bool {
    ||| action == "quit"@
    ||| action == "toggle_dotfiles"@
    ||| action == "toggle_winhidden"@
    ||| action == "open_settings"@
    ||| action == "switch_mode"@
    ||| action == "open_explorer"@
    ||| action == "go_home"@
}

/// `b` is `a` after the action named `action`, with the home directory
/// `home`; an unknown name changes nothing.
pub open spec fn action_done(a: App, b: App, action: Seq<char>, home: Option<Seq<char>>) -> bool {
    if action == "quit"@ {
        b == App { should_quit: true, ..a }
    } else if action == "toggle_dotfiles"@ {
        &&& search_invalidated(a.search, b.search)
        &&& b == App { show_dotfiles: !a.show_dotfiles, search: b.search, pending: Refresh::ItemsThenQuery, ..a }
    } else if action == "toggle_winhidden"@ {
        &&& search_invalidated(a.search, b.search)
        &&& b == App {
            show_winhidden: !a.show_winhidden,
            grep_pending: if a.mode == Mode::Grep && a.query@.len() > 0 {
                true
            } else {
                a.grep_pending
            },
            search: b.search,
            pending: Refresh::ItemsThenQuery,
            ..a
        }
    } else if action == "open_settings"@ {
        &&& b == App { spawn_pending: b.spawn_pending, ..a }
        &&& b.spawn_pending matches Some((c, p)) && c@ == "nvim"@ && p@ == settings_path(home)
    } else if action == "switch_mode"@ {
        switched(a, b)
    } else if action == "open_explorer"@ {
        if selected_dir(a) is Some {
            b == App { popup: Some(Popup::ToolSelector), popup_index: 0, ..a }
        } else {
            b == a
        }
    } else if action == "go_home"@ {
        match home {
            Some(h) => entered(a, b, h),
            None => b == a,
        }
    } else {
        b == a
    }
}

/// `b` is `a` after the tool chosen in the popup is run (see
/// `execute_tool_from_popup`).
pub open spec fn tool_chosen(a: App, b: App, cfg: Config) -> bool {
    if a.popup_index >= cfg.tool_selector@.len() {
        b == a
    } else {
        &&& b == App { popup: None, spawn_pending: b.spawn_pending, ..a }
        &&& match selected_dir(a) {
            Some(p) => b.spawn_pending matches Some((c, q)) && c@ == cfg.tool_selector@[a.popup_index as int].command@ && q@ == p,
            None => b.spawn_pending == a.spawn_pending,
        }
    }
}

/// `b` is `a` after a key press while the popup is open: up and down (or
/// `k` and `j`) move through the tools, Enter runs the one chosen, Esc or
/// `q` closes the popup.
pub open spec fn popup_key_done(a: App, b: App, key: KeyEvent, cfg: Config) -> bool {
    match key.code {
        KeyCode::Up | KeyCode::Char('k') => b == if a.popup_index > 0 {
            App { popup_index: (a.popup_index - 1) as usize, ..a }
        } else {
            a
        },
        KeyCode::Down | KeyCode::Char('j') => b == if cfg.tool_selector@.len() > 0 && a.popup_index
            < cfg.tool_selector@.len() - 1 {
            App { popup_index: (a.popup_index + 1) as usize, ..a }
        } else {
            a
        },
        KeyCode::Enter => tool_chosen(a, b, cfg),
        KeyCode::Esc | KeyCode::Char('q') => b == App { popup: None, ..a },
        _ => b == a,
    }
}

/// `b` is `a` with `c` typed at the cursor, and the query owed.
pub open spec fn typed(a: App, b: App, c: char) -> bool {
    &&& b.query@ == a.query@.insert(a.cursor_pos as int, c)
    &&& b == App { query: b.query, cursor_pos: (a.cursor_pos + 1) as usize, pending: Refresh::Query, ..a }
}

/// What Enter on the preview depends on: whether the selected entry of the
/// preview is a directory.
pub open spec fn preview_enter_check(a: App) -> Option<(Seq<char>, bool)> {
    if a.preview.selection < a.preview.entries@.len() && a.preview.entries@[a.preview.selection as int].is_dir {
        Some((a.preview.entries@[a.preview.selection as int].full_path@, true))
    } else {
        None
    }
}

/// `b` is `a` after a key press on the preview: up and down move through its
/// directories; Ctrl+Enter opens the tool popup on a selected directory;
/// Enter enters the preview's selected directory (with the list focused);
/// Left or Esc focus the list; Tab focuses the list and switches the mode; a
/// character is typed into the query.
pub open spec fn preview_key_done(a: App, b: App, key: KeyEvent, target_ok: bool) -> bool {
    let sel = a.preview.selection;
    match key.code {
        KeyCode::Up => b == if sel > 0 {
            App { preview: PreviewState { selection: (sel - 1) as usize, ..a.preview }, ..a }
        } else {
            a
        },
        KeyCode::Down => b == if sel + 1 < a.preview.entries@.len() {
            App { preview: PreviewState { selection: (sel + 1) as usize, ..a.preview }, ..a }
        } else {
            a
        },
        KeyCode::Enter => if key.modifiers.control {
            if selected_item(a) matches Some(item) && item.is_dir {
                b == App { popup: Some(Popup::ToolSelector), popup_index: 0, ..a }
            } else {
                b == a
            }
        } else {
            match preview_enter_check(a) {
                Some((p, _)) => if target_ok {
                    entered(App { focus: Focus::List, ..a }, b, p)
                } else {
                    b == a
                },
                None => b == a,
            }
        },
        KeyCode::Left | KeyCode::Esc => b == App { focus: Focus::List, ..a },
        KeyCode::Tab => switched(App { focus: Focus::List, ..a }, b),
        KeyCode::Char(c) => if key.modifiers.control {
            b == a
        } else {
            typed(a, b, c)
        },
        _ => b == a,
    }
}

/// `b` is `a` after a key press on the list that moves the cursor or edits
/// the query: Left and Right move the cursor (Right focuses a preview that
/// shows something), Home and End jump, Backspace deletes before the cursor,
/// a character is typed, Esc goes up (see `esc_done`).
pub open spec fn list_key_done(a: App, b: App, key: KeyEvent, now_ms: u64, home: Option<Seq<char>>, target_ok: bool) -> bool {
    let cur = a.cursor_pos;
    match key.code {
        KeyCode::Left => b == if cur > 0 {
            App { cursor_pos: (cur - 1) as usize, ..a }
        } else {
            a
        },
        KeyCode::Right => b == if a.preview.text_lines > 0 || a.preview.contents_lines > 0 {
            App { focus: Focus::Preview, ..a }
        } else if cur < a.query@.len() {
            App { cursor_pos: (cur + 1) as usize, ..a }
        } else {
            a
        },
        KeyCode::Home => b == App { cursor_pos: 0, ..a },
        KeyCode::End => b == App { cursor_pos: a.query@.len() as usize, ..a },
        KeyCode::Backspace => if cur > 0 {
            &&& b.query@ == a.query@.remove(cur - 1)
            &&& b == App { query: b.query, cursor_pos: (cur - 1) as usize, pending: Refresh::Query, ..a }
        } else {
            b == a
        },
        KeyCode::Char(c) => if key.modifiers.control {
            b == a
        } else {
            typed(a, b, c)
        },
        KeyCode::Esc => esc_done(a, b, now_ms, home, target_ok),
        _ => b == a,
    }
}

pub open spec fn nav_up(a: App) -> App {
    if row(a) > 0 {
        App { selected: Some((row(a) - 1) as usize), preview: PreviewState { dirty: true, ..a.preview }, ..a }
    } else {
        a
    }
}

pub open spec fn nav_down(a: App) -> App {
    if row(a) + 1 < a.filtered_indices@.len() {
        App { selected: Some((row(a) + 1) as usize), preview: PreviewState { dirty: true, ..a.preview }, ..a }
    } else {
        a
    }
}

/// The check a key press depends on: `(path, true)` asks whether the path is
/// a directory, `(path, false)` whether it exists.
pub open spec fn key_check(a: App, key: KeyEvent, cfg: Config, now_ms: u64) -> Option<(Seq<char>, bool)> {
    if a.popup is Some || spec_match_action(cfg.keys, key) is Some {
        None
    } else {
        match a.focus {
            Focus::List => match key.code {
                KeyCode::Enter => enter_check(a),
                KeyCode::Esc => esc_check(a, now_ms),
                _ => None,
            },
            Focus::Preview => match key.code {
                KeyCode::Enter => if key.modifiers.control {
                    None
                } else {
                    preview_enter_check(a)
                },
                _ => None,
            },
        }
    }
}

/// `b` is `a` after the key press `key` at `now_ms`, with the settings of
/// `cfg`, the home directory `home` and `target_ok` the answer to
/// `key_check`: the popup takes every key while it is open; otherwise a key
/// bound to an action runs it; otherwise the focused panel takes the key
/// (on the list: up and down move the selection, Page Up and Page Down
/// scroll the preview by 10 lines, Enter enters).
pub open spec fn key_done(
    a: App,
    b: App,
    key: KeyEvent,
    cfg: Config,
    now_ms: u64,
    home: Option<Seq<char>>,
    target_ok: bool,
) -> bool {
    if a.popup is Some {
        popup_key_done(a, b, key, cfg)
    } else if spec_match_action(cfg.keys, key) is Some {
        action_done(a, b, spec_match_action(cfg.keys, key)->0@, home)
    } else {
        match a.focus {
            Focus::List => match key.code {
                KeyCode::Up => b == nav_up(a),
                KeyCode::Down => b == nav_down(a),
                KeyCode::PageUp => b == App {
                    preview: PreviewState {
                        scroll: if a.preview.scroll >= 10 {
                            (a.preview.scroll - 10) as u64
                        } else {
                            0
                        },
                        ..a.preview
                    },
                    ..a
                },
                KeyCode::PageDown => b == App {
                    preview: PreviewState {
                        scroll: if a.preview.scroll + 10 <= u64::MAX {
                            (a.preview.scroll + 10) as u64
                        } else {
                            u64::MAX
                        },
                        ..a.preview
                    },
                    ..a
                },
                KeyCode::Enter => enter_done(a, b, target_ok),
                _ => list_key_done(a, b, key, now_ms, home, target_ok),
            },
            Focus::Preview => preview_key_done(a, b, key, target_ok),
        }
    }
}

fn str_is(s: &str, w: &str) -> (r: bool)
    ensures
        r == (s@ == w@),
{
    let a = chars_of(s);
    let b = chars_of(w);
    crate::text::chars_eq(a.as_slice(), b.as_slice())
}

fn opt_home(home: Option<&str>) -> (r: Option<String>)
    ensures
        match r {
            Some(h) => crate::paths::opt_str_view(home) == Some(h@),
            None => home is None,
        },
{
    match home {
        Some(h) => Some(string_from_chars(chars_of(h).as_slice())),
        None => None,
    }
}

impl App {
    fn enter_dir(&mut self, dir: String)
        requires
            old(self).wf(),
        ensures
            entered(*old(self), *final(self), dir@),
            final(self).wf(),
    {
        self.current_dir = dir;
        self.query = String::new();
        self.cursor_pos = 0;
        self.preview.reset();
        self.search.invalidate();
        self.pending = Refresh::Items;
        self.preview.dirty = true;
    }

    /// Moves to the directory `dir` (see `navigated`).
    pub fn navigate_to(&mut self, dir: String)
        requires
            old(self).wf(),
        ensures
            navigated(*old(self), *final(self), dir@),
            final(self).wf(),
    {
        if self.mode == Mode::Grep {
            self.grep_search_root = string_from_chars(chars_of(dir.as_str()).as_slice());
        }
        self.current_dir = dir;
        self.preview.reset();
        self.search.invalidate();
        self.items.clear();
        self.filtered_indices.clear();
        self.selected = None;
        self.grep_results.clear();
        self.grep_pending = false;
        self.pending = Refresh::ItemsThenQuery;
        self.preview.dirty = true;
    }

    /// Enter on the list, with `target_ok` the answer to `enter_check` (see
    /// `enter_done`).
    pub fn handle_enter(&mut self, target_ok: bool)
        requires
            old(self).wf(),
        ensures
            enter_done(*old(self), *final(self), target_ok),
            final(self).wf(),
    {
        let item = match self.selected_entry() {
            Some(item) => item.clone(),
            None => return,
        };
        match self.mode {
            Mode::Find => {
                if item.is_dir && target_ok {
                    self.enter_dir(item.full_path);
                }
            },
            _ => {
                self.navigate_to_parent(&item, target_ok);
            },
        }
    }

    /// Enters the parent directory of `item` in Find mode, when it has one
    /// and `target_ok` says that it exists.
    pub fn navigate_to_parent(&mut self, item: &DirEntryItem, target_ok: bool)
        requires
            old(self).wf(),
        ensures
            match spec_path_parent(item.full_path@) {
                Some(p) => if target_ok {
                    entered(App { mode: Mode::Find, ..*old(self) }, *final(self), p)
                } else {
                    *final(self) == *old(self)
                },
                None => *final(self) == *old(self),
            },
            final(self).wf(),
    {
        match path_parent(item.full_path.as_str()) {
            Some(p) => {
                if target_ok {
                    self.mode = Mode::Find;
                    self.enter_dir(p);
                }
            },
            None => {},
        }
    }

    /// Owes a reload of the list, done by `complete_refresh`.
    pub fn refresh_items(&mut self)
        requires
            old(self).pending == Refresh::Nothing,
        ensures
            *final(self) == (App { pending: Refresh::Items, ..*old(self) }),
    {
        self.pending = Refresh::Items;
    }

    /// Owes the query applied to the list, after the reload owed if there
    /// is one; done by `complete_refresh`.
    pub fn apply_query(&mut self)
        requires
            old(self).pending == Refresh::Nothing || old(self).pending == Refresh::Items,
        ensures
            *final(self) == (App {
                pending: if old(self).pending == Refresh::Items {
                    Refresh::ItemsThenQuery
                } else {
                    Refresh::Query
                },
                ..*old(self)
            }),
    {
        if self.pending == Refresh::Items {
            self.pending = Refresh::ItemsThenQuery;
        } else {
            self.pending = Refresh::Query;
        }
    }

    /// Esc at `now_ms`, with the home directory `home` and `target_ok` the
    /// answer to `esc_check` (see `esc_done`).
    pub fn handle_esc(&mut self, now_ms: u64, home: Option<&str>, target_ok: bool)
        requires
            old(self).wf(),
        ensures
            esc_done(*old(self), *final(self), now_ms, crate::paths::opt_str_view(home), target_ok),
            final(self).wf(),
    {
        let double = match self.last_esc_ms {
            Some(t) => now_ms < t || now_ms - t < 300,
            None => false,
        };
        if double {
            self.last_esc_ms = None;
            match opt_home(home) {
                Some(h) => self.navigate_to(h),
                None => {},
            }
            return;
        }
        self.last_esc_ms = Some(now_ms);
        match path_parent(self.current_dir.as_str()) {
            Some(p) => {
                if chars_of(p.as_str()).len() == 0 {
                    self.should_quit = true;
                } else if target_ok {
                    self.navigate_to(p);
                }
            },
            None => {
                self.should_quit = true;
            },
        }
    }

    /// Switches to the next mode (see `switched`).
    pub fn switch_mode(&mut self)
        requires
            old(self).wf(),
        ensures
            switched(*old(self), *final(self)),
            final(self).wf(),
    {
        self.search.invalidate();
        self.mode = match self.mode {
            Mode::Find => Mode::Search,
            Mode::Search => Mode::Grep,
            Mode::Grep => Mode::Find,
        };
        if self.mode == Mode::Grep {
            self.show_winhidden = false;
            self.grep_search_root = string_from_chars(chars_of(self.current_dir.as_str()).as_slice());
            if self.query_len() > 0 {
                self.grep_pending = true;
            }
        }
        self.pending = Refresh::ItemsThenQuery;
        self.preview.dirty = true;
    }

    /// Turns WinHidden over: in Grep mode with a query a grep is owed; the
    /// list reload is owed.
    pub fn toggle_winhidden(&mut self)
        ensures
            *final(self) == (App {
                show_winhidden: !old(self).show_winhidden,
                grep_pending: if old(self).mode == Mode::Grep && old(self).query@.len() > 0 {
                    true
                } else {
                    old(self).grep_pending
                },
                pending: Refresh::Items,
                ..*old(self)
            }),
    {
        self.show_winhidden = !self.show_winhidden;
        if self.mode == Mode::Grep && self.query_len() > 0 {
            self.grep_pending = true;
        }
        self.pending = Refresh::Items;
    }

    /// Runs the action named `action` with the home directory `home` (see
    /// `action_done`); whether the name is one of an action.
    pub fn execute_action(&mut self, action: &str, home: Option<&str>) -> (r: bool)
        requires
            old(self).wf(),
        ensures
            r == known_action(action@),
            action_done(*old(self), *final(self), action@, crate::paths::opt_str_view(home)),
            final(self).wf(),
    {
        if str_is(action, "quit") {
            self.should_quit = true;
            true
        } else if str_is(action, "toggle_dotfiles") {
            self.show_dotfiles = !self.show_dotfiles;
            self.search.invalidate();
            self.pending = Refresh::ItemsThenQuery;
            true
        } else if str_is(action, "toggle_winhidden") {
            self.search.invalidate();
            self.toggle_winhidden();
            self.pending = Refresh::ItemsThenQuery;
            true
        } else if str_is(action, "open_settings") {
            let base = match home {
                Some(h) => string_from_chars(chars_of(h).as_slice()),
                None => string_from_chars(chars_of(".").as_slice()),
            };
            let p1 = path_join(base.as_str(), ".config");
            let p2 = path_join(p1.as_str(), "cdx");
            let p3 = path_join(p2.as_str(), "config.toml");
            self.spawn_pending = Some((string_from_chars(chars_of("nvim").as_slice()), p3));
            true
        } else if str_is(action, "switch_mode") {
            self.switch_mode();
            true
        } else if str_is(action, "open_explorer") {
            if self.get_selected_dir().is_some() {
                self.popup = Some(Popup::ToolSelector);
                self.popup_index = 0;
            }
            true
        } else if str_is(action, "go_home") {
            match opt_home(home) {
                Some(h) => self.enter_dir(h),
                None => {},
            }
            true
        } else {
            false
        }
    }

    fn handle_popup_key(&mut self, key: &KeyEvent, cfg: &Config)
        ensures
            popup_key_done(*old(self), *final(self), *key, *cfg),
    {
        match key.code {
            KeyCode::Up | KeyCode::Char('k') => {
                if self.popup_index > 0 {
                    self.popup_index = self.popup_index - 1;
                }
            },
            KeyCode::Down | KeyCode::Char('j') => {
                let n = cfg.tool_selector.len();
                if n > 0 && self.popup_index < n - 1 {
                    self.popup_index = self.popup_index + 1;
                }
            },
            KeyCode::Enter => {
                self.execute_tool_from_popup(cfg);
            },
            KeyCode::Esc | KeyCode::Char('q') => {
                self.popup = None;
            },
            _ => {},
        }
    }

    fn insert_char(&mut self, c: char)
        requires
            old(self).wf(),
        ensures
            typed(*old(self), *final(self), c),
            final(self).wf(),
    {
        let mut v = chars_of(self.query.as_str());
        v.insert(self.cursor_pos, c);
        let n = v.len();
        assert(n == old(self).query@.len() + 1);
        self.query = string_from_chars(v.as_slice());
        self.cursor_pos = self.cursor_pos + 1;
        self.pending = Refresh::Query;
    }

    fn handle_preview_key(&mut self, key: &KeyEvent, target_ok: bool)
        requires
            old(self).wf(),
        ensures
            preview_key_done(*old(self), *final(self), *key, target_ok),
            final(self).wf(),
    {
        match key.code {
            KeyCode::Up => {
                if self.preview.selection > 0 {
                    self.preview.selection = self.preview.selection - 1;
                }
            },
            KeyCode::Down => {
                if self.preview.selection < self.preview.entries.len() && self.preview.selection + 1
                    < self.preview.entries.len() {
                    self.preview.selection = self.preview.selection + 1;
                }
            },
            KeyCode::Enter => {
                if key.modifiers.control {
                    let is_dir = match self.selected_entry() {
                        Some(item) => item.is_dir,
                        None => false,
                    };
                    if is_dir {
                        self.popup = Some(Popup::ToolSelector);
                        self.popup_index = 0;
                    }
                } else if self.preview.selection < self.preview.entries.len() {
                    let sel = self.preview.selection;
                    if self.preview.entries[sel].is_dir && target_ok {
                        let p = self.preview.entries[sel].full_path.clone();
                        self.focus = Focus::List;
                        self.enter_dir(p);
                    }
                }
            },
            KeyCode::Left | KeyCode::Esc => {
                self.focus = Focus::List;
            },
            KeyCode::Tab => {
                self.focus = Focus::List;
                self.switch_mode();
            },
            KeyCode::Char(c) => {
                if !key.modifiers.control {
                    self.insert_char(c);
                }
            },
            _ => {},
        }
    }

    fn handle_list_key(&mut self, key: &KeyEvent, now_ms: u64, home: Option<&str>, target_ok: bool)
        requires
            old(self).wf(),
        ensures
            list_key_done(*old(self), *final(self), *key, now_ms, crate::paths::opt_str_view(home), target_ok),
            final(self).wf(),
    {
        match key.code {
            KeyCode::Left => {
                if self.cursor_pos > 0 {
                    self.cursor_pos = self.cursor_pos - 1;
                }
            },
            KeyCode::Right => {
                if self.preview.text_lines > 0 || self.preview.contents_lines > 0 {
                    self.focus = Focus::Preview;
                } else if self.cursor_pos < self.query_len() {
                    self.cursor_pos = self.cursor_pos + 1;
                }
            },
            KeyCode::Home => {
                self.cursor_pos = 0;
            },
            KeyCode::End => {
                self.cursor_pos = self.query_len();
            },
            KeyCode::Backspace => {
                if self.cursor_pos > 0 {
                    let mut v = chars_of(self.query.as_str());
                    v.remove(self.cursor_pos - 1);
                    self.query = string_from_chars(v.as_slice());
                    self.cursor_pos = self.cursor_pos - 1;
                    self.pending = Refresh::Query;
                }
            },
            KeyCode::Char(c) => {
                if !key.modifiers.control {
                    self.insert_char(c);
                }
            },
            KeyCode::Esc => {
                self.handle_esc(now_ms, home, target_ok);
            },
            _ => {},
        }
    }

    /// The check the key press `key` at `now_ms` depends on (see
    /// `key_check`), for the caller to answer before `handle_key`.
    pub fn key_target(&self, key: &KeyEvent, cfg: &Config, now_ms: u64) -> (r: Option<PathCheck>)
        ensures
            match r {
                Some(PathCheck::IsDir(p)) => key_check(*self, *key, *cfg, now_ms) == Some((p@, true)),
                Some(PathCheck::Exists(p)) => key_check(*self, *key, *cfg, now_ms) == Some((p@, false)),
                None => key_check(*self, *key, *cfg, now_ms) is None,
            },
    {
        if self.popup.is_some() || cfg.keys.match_action(key).is_some() {
            return None;
        }
        match self.focus {
            Focus::List => match key.code {
                KeyCode::Enter => match self.selected_entry() {
                    Some(item) => match self.mode {
                        Mode::Find => Some(PathCheck::IsDir(item.full_path.clone())),
                        _ => match path_parent(item.full_path.as_str()) {
                            Some(p) => Some(PathCheck::Exists(p)),
                            None => None,
                        },
                    },
                    None => None,
                },
                KeyCode::Esc => {
                    let double = match self.last_esc_ms {
                        Some(t) => now_ms < t || now_ms - t < 300,
                        None => false,
                    };
                    if double {
                        None
                    } else {
                        match path_parent(self.current_dir.as_str()) {
                            Some(p) => if chars_of(p.as_str()).len() > 0 {
                                Some(PathCheck::Exists(p))
                            } else {
                                None
                            },
                            None => None,
                        }
                    }
                },
                _ => None,
            },
            Focus::Preview => match key.code {
                KeyCode::Enter => {
                    if key.modifiers.control {
                        None
                    } else if self.preview.selection < self.preview.entries.len()
                        && self.preview.entries[self.preview.selection].is_dir {
                        Some(PathCheck::IsDir(self.preview.entries[self.preview.selection].full_path.clone()))
                    } else {
                        None
                    }
                },
                _ => None,
            },
        }
    }

    /// The key press `key` at `now_ms` (see `key_done`), with the settings of
    /// `cfg`, the home directory `home` and `target_ok` the answer to the
    /// check `key_target` asked for (any value where it asked none: it is
    /// not read).
    pub fn handle_key(&mut self, key: &KeyEvent, cfg: &Config, now_ms: u64, home: Option<&str>, target_ok: bool)
        requires
            old(self).wf(),
        ensures
            key_done(*old(self), *final(self), *key, *cfg, now_ms, crate::paths::opt_str_view(home), target_ok),
            final(self).wf(),
    {
        if self.popup.is_some() {
            self.handle_popup_key(key, cfg);
            return;
        }
        match cfg.keys.match_action(key) {
            Some(action) => {
                self.execute_action(action, home);
                return;
            },
            None => {},
        }
        match self.focus {
            Focus::List => match key.code {
                KeyCode::Up => self.list_nav_up(),
                KeyCode::Down => self.list_nav_down(),
                KeyCode::PageUp => {
                    self.preview.scroll = self.preview.scroll.saturating_sub(10);
                },
                KeyCode::PageDown => {
                    self.preview.scroll = self.preview.scroll.saturating_add(10);
                },
                KeyCode::Enter => self.handle_enter(target_ok),
                _ => self.handle_list_key(key, now_ms, home, target_ok),
            },
            Focus::Preview => self.handle_preview_key(key, target_ok),
        }
    }
}


// ---------------------------------------------------------------------------
// Searching
// ---------------------------------------------------------------------------

/// A search of the directories below `root` to be run by the caller, with
/// the visibility switches of the moment; it is to send its result back with
/// `ticket.generation` and stop once `ticket.cancel` is set.
pub struct SearchJob {
    pub ticket: SearchTicket,
    pub root: String,
    pub show_dotfiles: bool,
    pub show_winhidden: bool,
}

/// The ranked indices of a ranking.
pub open spec fn ranked_indices(r: Seq<(usize, u32)>) -> Seq<usize> {
    r.map_values(|p: (usize, u32)| p.0)
}

/// The entries of `cache` at the indices `idx`, in that order.
pub open spec fn picked(idx: Seq<usize>, cache: Seq<DirEntryItem>) -> Seq<DirEntryItem> {
    idx.map_values(|i: usize| cache[i as int])
}

/// The ranking the list gets for the query: the entries that match, best
/// first, when the matcher can take the query (`query_fits`); none when the
/// query is longer.
pub open spec fn ranked_for(r: Seq<(usize, u32)>, query: Seq<char>, items: Seq<DirEntryItem>) -> bool {
    if query_fits(query) {
        is_ranking(r, query, items)
    } else {
        r.len() == 0
    }
}

/// `b` is `a` with the list taken from the search cache: the (at most 200)
/// best entries of the cache for the query, best first, every one a row, the
/// first row selected when there is any.
pub open spec fn cache_filtered(a: App, b: App) -> bool {
    exists|r: Seq<(usize, u32)>| {
        &&& #[trigger] ranked_for(r, a.query@, a.search.find_cache@)
        &&& b.items@ == picked(
            ranked_indices(if r.len() > 200 {
                r.take(200)
            } else {
                r
            }),
            a.search.find_cache@,
        )
        &&& all_rows(b.filtered_indices@, b.items@.len())
        &&& b == App {
            items: b.items,
            filtered_indices: b.filtered_indices,
            selected: if b.items@.len() > 0 {
                Some(0usize)
            } else {
                a.selected
            },
            matcher: b.matcher,
            ..a
        }
    }
}

/// `b` is `a` with the list ranked for the query: the rows are the entries
/// that match, best first, the first selected when there is any.
pub open spec fn items_scored(a: App, b: App) -> bool {
    exists|r: Seq<(usize, u32)>| {
        &&& #[trigger] ranked_for(r, a.query@, a.items@)
        &&& b.filtered_indices@ == ranked_indices(r)
        &&& b == App {
            filtered_indices: b.filtered_indices,
            selected: if r.len() > 0 {
                Some(0usize)
            } else {
                a.selected
            },
            matcher: b.matcher,
            ..a
        }
    }
}

/// Whether the debounced search is due at `now_ms`.
pub open spec fn due(a: App, now_ms: u64) -> bool {
    a.search.find_deadline is Some && now_ms >= a.search.find_deadline->0
}

/// `b` is `a` after the debounced search was looked at, at `now_ms`, with
/// `job` the search it starts. Not due: nothing. Due: the deadline is
/// dropped; with a query, Find mode starts a search of the current
/// directory unless the cache holds that directory's, in which case the list
/// is taken from the cache; Search mode ranks the list.
pub open spec fn find_started(a: App, b: App, now_ms: u64, job: Option<SearchJob>) -> bool {
    if !due(a, now_ms) {
        b == a && job is None
    } else {
        let a1 = App { search: SearchState { find_deadline: None, ..a.search }, ..a };
        if a.query@.len() == 0 {
            b == a1 && job is None
        } else if a.mode == Mode::Find {
            if !spec_paths_equal(a.search.find_cache_root@, a.current_dir@) || !a.search.find_cache_loaded {
                &&& job matches Some(j) && j.ticket.generation == a.search.generation && j.root@ == a.current_dir@
                    && j.show_dotfiles == a.show_dotfiles && j.show_winhidden == a.show_winhidden
                &&& b.search.cancel is Some
                &&& b == App { search: SearchState { cancel: b.search.cancel, ..a1.search }, ..a1 }
            } else {
                job is None && cache_filtered(a1, b)
            }
        } else {
            job is None && items_scored(a1, b)
        }
    }
}

/// What the event loop does when no event came: a grep owed in Grep mode
/// runs; otherwise a search that fell due starts.
#[derive(Debug, Clone, Copy, PartialEq, Eq, Structural)]
pub enum Idle {
    RunGrep,
    StartFind,
    Wait,
}

/// How a match of the grep is listed: its file relative to the directory
/// searched, `root`, and its line number, as `path:line`; it is entered as
/// the file it is in.
pub open spec fn grep_display(m: GrepMatch, root: Seq<char>) -> Seq<char> {
    walk_display(m.file_path@, root) + ":"@ + crate::grep::decimal(m.line_number as nat)
}

pub open spec fn grep_item_of(m: GrepMatch, root: Seq<char>, item: DirEntryItem) -> bool {
    &&& item.display@ == grep_display(m, root)
    &&& item.rel_path@ == walk_display(m.file_path@, root)
    &&& item.full_path@ == m.file_path@
    &&& !item.is_zoxide
    &&& !item.is_dir
}

/// Whether every match below `root` can be listed and scored.
pub open spec fn grep_fits(v: Seq<GrepMatch>, root: Seq<char>) -> bool {
    forall|k: int| 0 <= k < v.len() ==> name_fits(grep_display(#[trigger] v[k], root))
}

fn grep_item(m: &GrepMatch, root: &str) -> (r: DirEntryItem)
    ensures
        grep_item_of(*m, root@, r),
{
    let rel = walk_display_of(m.file_path.as_str(), root);
    let mut v: Vec<char> = Vec::new();
    crate::text::append_str(&mut v, rel.as_str());
    crate::text::append_str(&mut v, ":");
    let d = crate::grep::decimal_chars(m.line_number as u64);
    crate::text::append_chars(&mut v, d.as_slice());
    DirEntryItem {
        display: string_from_chars(v.as_slice()),
        rel_path: rel,
        full_path: m.file_path.clone(),
        is_zoxide: false,
        is_dir: false,
    }
}

/// The preview as the caller regenerated it: the number of lines of its
/// text and of the directory contents, and the directories it lets the user
/// enter.
pub struct PreviewContent {
    pub text_lines: usize,
    pub contents_lines: usize,
    pub entries: Vec<PreviewEntry>,
}

impl App {
    fn filter_find_cache(&mut self)
        requires
            old(self).wf(),
        ensures
            cache_filtered(*old(self), *final(self)),
            final(self).wf(),
    {
        let mut scored = if self.query_len() <= 1024 {
            score_items(self.query.as_str(), &self.search.find_cache, &mut self.matcher)
        } else {
            Vec::new()
        };
        let ghost r = scored@;
        if scored.len() > 200 {
            scored.truncate(200);
        }
        let ghost top = scored@;
        assert(top == if r.len() > 200 { r.take(200) } else { r });
        let mut items: Vec<DirEntryItem> = Vec::new();
        let mut k: usize = 0;
        while k < scored.len()
            invariant
                k <= scored@.len(),
                scored@ == top,
                forall|j: int| 0 <= j < top.len() ==> (#[trigger] top[j]).0 < self.search.find_cache@.len(),
                self.search.find_cache@ == old(self).search.find_cache@,
                items@ == picked(ranked_indices(top).take(k as int), old(self).search.find_cache@),
            decreases scored.len() - k,
        {
            let idx = scored[k].0;
            let it = self.search.find_cache[idx].clone();
            proof {
                assert(ranked_indices(top).take(k + 1) =~= ranked_indices(top).take(k as int).push(idx));
                assert(picked(ranked_indices(top).take(k + 1), old(self).search.find_cache@)
                    =~= picked(ranked_indices(top).take(k as int), old(self).search.find_cache@).push(it));
            }
            items.push(it);
            k = k + 1;
        }
        assert(ranked_indices(top).take(top.len() as int) =~= ranked_indices(top));
        proof {
            assert forall|j: int| 0 <= j < items@.len() implies name_fits((#[trigger] items@[j]).display@) by {
                let i = top[j].0;
                assert(items@[j] == self.search.find_cache@[i as int]);
            }
        }
        self.filtered_indices = indices(items.len());
        self.items = items;
        if self.filtered_indices.len() > 0 {
            self.selected = Some(0);
        }
        assert(ranked_for(r, old(self).query@, old(self).search.find_cache@));
    }

    /// Looks at the debounced search at `now_ms` (see `find_started`); the
    /// search to run, if one is to be started.
    pub fn start_find_search(&mut self, now_ms: u64) -> (job: Option<SearchJob>)
        requires
            old(self).wf(),
        ensures
            find_started(*old(self), *final(self), now_ms, job),
            final(self).wf(),
    {
        if !self.search.is_due(now_ms) {
            return None;
        }
        self.search.find_deadline = None;
        if self.query_len() == 0 {
            return None;
        }
        if self.mode == Mode::Find {
            if !paths_equal(self.search.find_cache_root.as_str(), self.current_dir.as_str()) || !self.search.find_cache_loaded {
                let ticket = self.search.start_search();
                let root = self.current_dir.clone();
                return Some(SearchJob { ticket, root, show_dotfiles: self.show_dotfiles, show_winhidden: self.show_winhidden });
            } else {
                self.filter_find_cache();
            }
            return None;
        }
        let scored = if self.query_len() <= 1024 {
            score_items(self.query.as_str(), &self.items, &mut self.matcher)
        } else {
            Vec::new()
        };
        let ghost r = scored@;
        let mut rows: Vec<usize> = Vec::new();
        let mut k: usize = 0;
        while k < scored.len()
            invariant
                k <= scored@.len(),
                scored@ == r,
                rows@ == ranked_indices(r).take(k as int),
            decreases scored.len() - k,
        {
            rows.push(scored[k].0);
            k = k + 1;
            assert(ranked_indices(r).take(k as int) =~= ranked_indices(r).take(k - 1).push(r[k - 1].0));
        }
        assert(ranked_indices(r).take(r.len() as int) =~= ranked_indices(r));
        self.filtered_indices = rows;
        if scored.len() > 0 {
            self.selected = Some(0);
        }
        assert(ranked_for(r, old(self).query@, old(self).items@));
        None
    }

    /// Takes the search results that came in (see
    /// `SearchState::receive_results`); when one is taken, the list is taken
    /// from the new cache.
    pub fn receive_search_results(&mut self, inbox: &mut Vec<SearchResult>) -> (r: bool)
        requires
            old(self).wf(),
            forall|k: int| 0 <= k < old(inbox)@.len() ==> fits((#[trigger] old(inbox)@[k]).entries@),
        ensures
            r == exists|k: int|
                0 <= k < old(inbox)@.len() && accepts(
                    old(self).search.generation,
                    #[trigger] old(inbox)@[k],
                    old(self).current_dir@,
                    old(self).query@,
                ),
            r ==> exists|k: int|
                0 <= k < old(inbox)@.len()
                && accepts(old(self).search.generation, old(inbox)@[k], old(self).current_dir@, old(self).query@)
                && (forall|j: int| 0 <= j < k ==> !accepts(old(self).search.generation, #[trigger] old(inbox)@[j], old(self).current_dir@, old(self).query@))
                && final(inbox)@ == old(inbox)@.skip(k + 1)
                && final(self).search == (SearchState {
                    find_cache: old(inbox)@[k].entries,
                    find_cache_root: old(inbox)@[k].root,
                    find_cache_loaded: true,
                    cancel: None,
                    ..old(self).search
                })
                && cache_filtered(App { search: final(self).search, ..*old(self) }, *final(self)),
            !r ==> final(inbox)@.len() == 0 && *final(self) == *old(self),
            final(self).wf(),
    {
        let ghost q = inbox@;
        let got = self.search.receive_results(self.current_dir.as_str(), self.query.as_str(), inbox);
        if got {
            proof {
                let k = choose|k: int|
                    0 <= k < q.len()
                    && accepts(old(self).search.generation, q[k], old(self).current_dir@, old(self).query@)
                    && (forall|j: int| 0 <= j < k ==> !accepts(old(self).search.generation, #[trigger] q[j], old(self).current_dir@, old(self).query@))
                    && inbox@ == q.skip(k + 1)
                    && self.search.find_cache == q[k].entries
                    && self.search.find_cache_root == q[k].root
                    && self.search.find_cache_loaded
                    && self.search.cancel is None
                    && self.search.find_debounce_ms == old(self).search.find_debounce_ms
                    && self.search.find_deadline == old(self).search.find_deadline
                    && self.search.generation == old(self).search.generation;
                assert(fits(q[k].entries@));
            }
            self.filter_find_cache();
        }
        got
    }

    /// Runs the grep owed, with `results` the matches found for the query
    /// below the directory Grep searches (see `grep::rg_args` and
    /// `grep::parse_rg_vimgrep`): nothing is owed after; with an empty query
    /// the results and the list are emptied; otherwise every match is a row
    /// (`path:line`, see `grep_item_of`), the first selected when there is
    /// any, and the preview is to be regenerated.
    pub fn run_grep_search(&mut self, results: Vec<GrepMatch>)
        requires
            old(self).wf(),
            grep_fits(results@, old(self).grep_search_root@),
        ensures
            final(self).wf(),
            !final(self).grep_pending,
            old(self).query@.len() == 0 ==> {
                &&& final(self).grep_results@.len() == 0
                &&& final(self).items@.len() == 0
                &&& final(self).filtered_indices@.len() == 0
                &&& *final(self) == (App {
                    grep_pending: false,
                    grep_results: final(self).grep_results,
                    items: final(self).items,
                    filtered_indices: final(self).filtered_indices,
                    ..*old(self)
                })
            },
            old(self).query@.len() > 0 ==> {
                &&& final(self).grep_results@ == results@
                &&& final(self).items@.len() == results@.len()
                &&& forall|k: int| 0 <= k < results@.len() ==> grep_item_of(results@[k], old(self).grep_search_root@, #[trigger] final(self).items@[k])
                &&& all_rows(final(self).filtered_indices@, results@.len())
                &&& *final(self) == (App {
                    grep_pending: false,
                    grep_results: final(self).grep_results,
                    items: final(self).items,
                    filtered_indices: final(self).filtered_indices,
                    selected: if results@.len() > 0 {
                        Some(0usize)
                    } else {
                        old(self).selected
                    },
                    preview: PreviewState { dirty: true, ..old(self).preview },
                    ..*old(self)
                })
            },
    {
        self.grep_pending = false;
        if self.query_len() == 0 {
            self.grep_results.clear();
            self.items.clear();
            self.filtered_indices.clear();
            return;
        }
        let mut items: Vec<DirEntryItem> = Vec::new();
        let mut k: usize = 0;
        while k < results.len()
            invariant
                k <= results@.len(),
                grep_fits(results@, self.grep_search_root@),
                self.grep_search_root == old(self).grep_search_root,
                items@.len() == k,
                forall|j: int| 0 <= j < k ==> grep_item_of(results@[j], self.grep_search_root@, #[trigger] items@[j]),
            decreases results.len() - k,
        {
            let it = grep_item(&results[k], self.grep_search_root.as_str());
            items.push(it);
            k = k + 1;
        }
        proof {
            assert forall|j: int| 0 <= j < items@.len() implies name_fits((#[trigger] items@[j]).display@) by {
                assert(grep_item_of(results@[j], self.grep_search_root@, items@[j]));
            }
        }
        self.grep_results = results;
        self.filtered_indices = indices(items.len());
        self.items = items;
        if self.filtered_indices.len() > 0 {
            self.selected = Some(0);
        }
        self.preview.dirty = true;
    }

    /// Whether the debounced search is due at `now_ms`.
    pub fn search_due(&self, now_ms: u64) -> (r: bool)
        ensures
            r == due(*self, now_ms),
    {
        self.search.is_due(now_ms)
    }

    /// How long the event loop may wait for an event at `now_ms`, in
    /// milliseconds: the search's wait (see `SearchState::poll_timeout`).
    pub fn search_poll_timeout(&self, now_ms: u64) -> (r: u64)
        ensures
            r == match self.search.find_deadline {
                Some(d) => if d > now_ms {
                    if d - now_ms < 50 {
                        (d - now_ms) as u64
                    } else {
                        50
                    }
                } else {
                    0
                },
                None => 50,
            },
    {
        self.search.poll_timeout(now_ms)
    }

    /// How long the event loop waits for an event at `now_ms`: the grep
    /// debounce while a grep is owed in Grep mode, the search's wait
    /// otherwise.
    pub fn poll_timeout(&self, now_ms: u64) -> (r: u64)
        ensures
            self.mode == Mode::Grep && self.grep_pending ==> r == self.grep_debounce_ms,
            !(self.mode == Mode::Grep && self.grep_pending) ==> r == match self.search.find_deadline {
                Some(d) => if d > now_ms {
                    if d - now_ms < 50 {
                        (d - now_ms) as u64
                    } else {
                        50
                    }
                } else {
                    0
                },
                None => 50,
            },
    {
        if self.mode == Mode::Grep && self.grep_pending {
            self.grep_debounce_ms
        } else {
            self.search_poll_timeout(now_ms)
        }
    }

    /// What to do at `now_ms` when no event came.
    pub fn idle_step(&self, now_ms: u64) -> (r: Idle)
        ensures
            r == (if self.grep_pending && self.mode == Mode::Grep {
                Idle::RunGrep
            } else if due(*self, now_ms) {
                Idle::StartFind
            } else {
                Idle::Wait
            }),
    {
        if self.grep_pending && self.mode == Mode::Grep {
            Idle::RunGrep
        } else if self.search_due(now_ms) {
            Idle::StartFind
        } else {
            Idle::Wait
        }
    }

    /// Scrolls the preview by 3 lines (down or up) when it shows text.
    pub fn scroll_preview(&mut self, down: bool)
        ensures
            *final(self) == (if old(self).preview.text_lines == 0 {
                *old(self)
            } else {
                App {
                    preview: PreviewState {
                        scroll: if down {
                            if old(self).preview.scroll + 3 <= u64::MAX {
                                (old(self).preview.scroll + 3) as u64
                            } else {
                                u64::MAX
                            }
                        } else if old(self).preview.scroll >= 3 {
                            (old(self).preview.scroll - 3) as u64
                        } else {
                            0
                        },
                        ..old(self).preview
                    },
                    ..*old(self)
                }
            }),
    {
        if self.preview.text_lines == 0 {
            return;
        }
        if down {
            self.preview.scroll = self.preview.scroll.saturating_add(3);
        } else {
            self.preview.scroll = self.preview.scroll.saturating_sub(3);
        }
    }

    /// The entry the preview is to be regenerated for: the selected one,
    /// while the preview is to be regenerated.
    pub fn preview_target(&self) -> (r: Option<DirEntryItem>)
        ensures
            r == (if self.preview.dirty {
                selected_item(*self)
            } else {
                None
            }),
    {
        if !self.preview.dirty {
            return None;
        }
        match self.selected_entry() {
            Some(item) => Some(item.clone()),
            None => None,
        }
    }

    /// Takes the regenerated preview (`None` when there was no entry to
    /// preview: the text stays): scrolled to the top, its first directory
    /// selected, no longer to be regenerated.
    pub fn apply_preview(&mut self, shown: Option<PreviewContent>)
        ensures
            final(self).preview.scroll == 0,
            final(self).preview.selection == 0,
            !final(self).preview.dirty,
            match shown {
                Some(c) => final(self).preview.text_lines == c.text_lines && final(self).preview.contents_lines
                    == c.contents_lines && final(self).preview.entries == c.entries,
                None => final(self).preview.text_lines == old(self).preview.text_lines
                    && final(self).preview.contents_lines == old(self).preview.contents_lines
                    && final(self).preview.entries@.len() == 0,
            },
            *final(self) == (App { preview: final(self).preview, ..*old(self) }),
    {
        self.preview.scroll = 0;
        self.preview.entries.clear();
        self.preview.selection = 0;
        match shown {
            Some(c) => {
                self.preview.text_lines = c.text_lines;
                self.preview.contents_lines = c.contents_lines;
                self.preview.entries = c.entries;
            },
            None => {},
        }
        self.preview.dirty = false;
    }

    /// Takes the tool to spawn, if any; the preview is to be regenerated
    /// after it ran.
    pub fn take_spawn(&mut self) -> (r: Option<(String, String)>)
        ensures
            r == old(self).spawn_pending,
            *final(self) == (if r is Some {
                App { spawn_pending: None, preview: PreviewState { dirty: true, ..old(self).preview }, ..*old(self) }
            } else {
                *old(self)
            }),
    {
        let r = self.spawn_pending.take();
        if r.is_some() {
            self.preview.dirty = true;
        }
        r
    }

    /// Whether something is being searched: a grep is owed, a directory
    /// search is running, or the debounced search is waiting.
    pub fn is_busy(&self) -> (r: bool)
        ensures
            r == (self.grep_pending || self.search.cancel is Some || self.search.find_deadline is Some),
    {
        self.grep_pending || self.search.cancel.is_some() || self.search.find_deadline.is_some()
    }

    /// Counts a frame drawn.
    pub fn advance_tick(&mut self)
        ensures
            *final(self) == (App { tick: old(self).tick.wrapping_add(1), ..*old(self) }),
    {
        self.tick = self.tick.wrapping_add(1);
    }

    /// The directory the navigator ends in: the one an exit action names,
    /// otherwise the current one.
    pub fn exit_path(&self) -> (r: String)
        ensures
            r@ == match self.exit_action {
                ExitAction::OutputPath(p) => p@,
                _ => self.current_dir@,
            },
    {
        match &self.exit_action {
            ExitAction::OutputPath(p) => p.clone(),
            _ => self.current_dir.clone(),
        }
    }
}

} // verus!

use std::sync::atomic::{AtomicBool, Ordering};
use std::sync::Arc;

use cdx_rs::app::{App, Focus, Mode, Popup, Refresh};
use cdx_rs::config::Config;
use cdx_rs::keys::{KeyCode, KeyEvent, KeyModifiers};
use cdx_rs::walker::{list_dirs_from_entries, DirEntryItem, DirListingEntry};

const ROOT: &str = "/tmp/cdx-app-test";

fn cfg() -> Config {
    Config::defaults()
}

fn new_app(query: Option<&str>) -> App {
    App::new(query.map(|q| q.to_string()), ROOT.to_string(), &cfg(), Vec::new(), Some("/home/user".to_string()), 0)
}

fn dir_item(root: &str, name: &str) -> DirEntryItem {
    DirEntryItem {
        display: name.to_string(),
        rel_path: name.to_string(),
        full_path: format!("{}/{}", root, name),
        is_zoxide: false,
        is_dir: true,
    }
}

fn listing(root: &str, names: &[&str]) -> Vec<DirEntryItem> {
    let entries: Vec<DirListingEntry> = names
        .iter()
        .map(|n| DirListingEntry { name: n.to_string(), full_path: format!("{}/{}", root, n), is_dir: true })
        .collect();
    list_dirs_from_entries(root, &entries, false, false, &cfg())
}

/// Loads the list of `root` as a refresh with the directories `names`.
fn load(app: &mut App, names: &[&str]) {
    app.refresh_items();
    let l = listing(&app.current_dir.clone(), names);
    app.complete_refresh(l, &cfg(), None, 0);
}

#[test]
fn test_app_new_default_state() {
    let app = new_app(None);
    assert_eq!(app.mode, Mode::Find);
    assert_eq!(app.focus, Focus::List);
    assert!(app.popup.is_none());
    assert!(!app.should_quit);
    assert!(app.query.is_empty());
    assert_eq!(app.cursor_pos, 0);
}

#[test]
fn test_app_new_with_initial_query() {
    let app = new_app(Some("hello"));
    assert_eq!(app.query, "hello");
    assert_eq!(app.cursor_pos, 5);
    assert!(!app.zoxide_initial_visible, "query present → zoxide hidden");
}

#[test]
fn test_mode_cycle_find_to_search() {
    let mut app = new_app(None);
    app.zoxide_initial_visible = false;
    load(&mut app, &["sub"]);
    assert_eq!(app.mode, Mode::Find);

    app.switch_mode();
    assert_eq!(app.mode, Mode::Search);
}

#[test]
fn test_mode_cycle_search_to_grep() {
    let mut app = new_app(None);
    app.mode = Mode::Search;
    app.switch_mode();
    assert_eq!(app.mode, Mode::Grep);
}

#[test]
fn test_mode_cycle_grep_to_find() {
    let mut app = new_app(None);
    app.mode = Mode::Grep;
    app.switch_mode();
    assert_eq!(app.mode, Mode::Find);
}

#[test]
fn test_mode_cycle_full_round_trip() {
    let mut app = new_app(None);
    app.switch_mode();
    app.complete_refresh(Vec::new(), &cfg(), None, 0);
    app.switch_mode();
    app.complete_refresh(Vec::new(), &cfg(), None, 0);
    app.switch_mode();
    app.complete_refresh(Vec::new(), &cfg(), None, 0);
    assert_eq!(app.mode, Mode::Find);
}

#[test]
fn test_grep_mode_disables_winhidden() {
    let mut app = new_app(None);
    app.show_winhidden = true;
    app.switch_mode();
    app.switch_mode();
    assert!(!app.show_winhidden, "winhidden should be auto-disabled in grep");
}

#[test]
fn test_switch_mode_cancels_search() {
    let mut app = new_app(None);
    let cancel = Arc::new(AtomicBool::new(false));
    app.search.cancel = Some(Arc::clone(&cancel));
    app.switch_mode();
    assert!(cancel.load(Ordering::Relaxed), "search should be cancelled");
}

#[test]
fn test_switch_mode_invalidates_cache() {
    let mut app = new_app(None);
    app.search.find_cache = vec![dir_item(ROOT, "cached")];
    app.search.find_cache_root = ROOT.to_string();
    app.search.find_cache_loaded = true;
    let gen_before = app.search.generation;

    app.switch_mode();
    assert!(!app.search.find_cache_loaded, "cache should be invalidated");
    assert!(app.search.find_cache.is_empty(), "cache entries should be cleared");
    assert!(app.search.generation > gen_before, "generation should increment");
}

#[test]
fn test_enter_find_mode_navigates_to_dir() {
    let mut app = new_app(None);
    let target = format!("{}/target", ROOT);
    app.items = vec![dir_item(ROOT, "target")];
    app.filtered_indices = vec![0];
    app.selected = Some(0);

    app.handle_enter(true);
    assert_eq!(app.current_dir, target);
    assert!(app.query.is_empty(), "query should be cleared");
}

#[test]
fn test_enter_find_mode_clears_query() {
    let mut app = new_app(None);
    app.query = "sub".to_string();
    app.cursor_pos = 3;
    app.items = vec![dir_item(ROOT, "sub")];
    app.filtered_indices = vec![0];
    app.selected = Some(0);

    app.handle_enter(true);
    assert!(app.query.is_empty());
    assert_eq!(app.cursor_pos, 0);
}

#[test]
fn test_enter_no_selection_does_nothing() {
    let mut app = new_app(None);
    let original_dir = app.current_dir.clone();
    app.handle_enter(true);
    assert_eq!(app.current_dir, original_dir);
}

#[test]
fn test_single_esc_navigates_to_parent() {
    let mut app = new_app(None);
    app.current_dir = format!("{}/child", ROOT);
    app.handle_esc(1_000, Some("/home/user"), true);
    assert_eq!(app.current_dir, ROOT);
}

#[test]
fn test_double_esc_navigates_to_home() {
    let mut app = new_app(None);
    app.current_dir = format!("{}/deep/nested", ROOT);
    app.handle_esc(1_000, Some("/home/user"), true);
    app.handle_esc(1_100, Some("/home/user"), true);
    assert_eq!(app.current_dir, "/home/user");
}

#[test]
fn test_esc_from_root_sets_should_quit() {
    let mut app = new_app(None);
    app.current_dir = "/".to_string();
    app.last_esc_ms = Some(0);
    app.handle_esc(1_000, Some("/home/user"), true);
    assert!(app.should_quit);
}

#[test]
fn test_get_selected_dir_returns_dir() {
    let mut app = new_app(None);
    app.zoxide_initial_visible = false;
    load(&mut app, &["mydir"]);
    app.selected = Some(0);

    let dir = app.get_selected_dir();
    assert!(dir.is_some());
    assert_eq!(dir.unwrap(), format!("{}/mydir", ROOT));
}

#[test]
fn test_get_selected_dir_no_selection() {
    let app = new_app(None);
    assert!(app.get_selected_dir().is_none());
}

#[test]
fn test_execute_tool_from_popup() {
    let mut app = new_app(None);
    app.zoxide_initial_visible = false;
    load(&mut app, &["mydir"]);
    app.selected = Some(0);
    app.popup = Some(Popup::ToolSelector);
    app.popup_index = 0;

    app.execute_tool_from_popup(&cfg());
    assert!(app.popup.is_none(), "popup should close");
    assert!(app.spawn_pending.is_some(), "should have spawn pending");
    let (cmd, path) = app.spawn_pending.unwrap();
    assert_eq!(cmd, "yazi");
    assert_eq!(path, format!("{}/mydir", ROOT));
}

#[test]
fn test_list_nav_up_down() {
    let mut app = new_app(None);
    app.zoxide_initial_visible = false;
    load(&mut app, &["a", "b"]);
    app.selected = Some(1);

    app.list_nav_up();
    assert_eq!(app.selected, Some(0));

    app.list_nav_down();
    assert_eq!(app.selected, Some(1));

    app.list_nav_down();
    assert_eq!(app.selected, Some(1));

    app.selected = Some(0);
    app.list_nav_up();
    assert_eq!(app.selected, Some(0));
}

// ── Further behaviour ──────────────────────────────────────────

fn key(code: KeyCode) -> KeyEvent {
    KeyEvent::new(code, KeyModifiers::none())
}

#[test]
fn typing_and_backspace_edit_the_query_by_characters() {
    let mut app = new_app(None);
    let c = cfg();
    app.handle_key(&key(KeyCode::Char('é')), &c, 0, None, false);
    app.handle_key(&key(KeyCode::Char('a')), &c, 0, None, false);
    assert_eq!(app.query, "éa");
    assert_eq!(app.cursor_pos, 2);
    assert_eq!(app.pending, Refresh::Query);
    app.complete_refresh(Vec::new(), &c, None, 0);
    assert_eq!(app.search.find_deadline, Some(50));
    app.handle_key(&key(KeyCode::Left), &c, 0, None, false);
    app.handle_key(&key(KeyCode::Backspace), &c, 0, None, false);
    assert_eq!(app.query, "a");
    assert_eq!(app.cursor_pos, 0);
    app.handle_key(&key(KeyCode::End), &c, 0, None, false);
    assert_eq!(app.cursor_pos, 1);
}

#[test]
fn empty_query_in_find_mode_reloads_with_zoxide_once() {
    let mut app = App::new(None, "/home/user".to_string(), &cfg(), vec!["/home/user/proj".to_string()], Some("/home/user".to_string()), 0);
    app.refresh_items();
    let l = listing("/home/user", &["a"]);
    app.complete_refresh(l, &cfg(), Some("/home/user"), 0);
    assert_eq!(app.items.len(), 2);
    assert!(app.items[0].is_zoxide);
    assert_eq!(app.items[0].display, "~/proj");
    assert_eq!(app.filtered_indices, vec![0, 1]);
    assert_eq!(app.selected, Some(0));
    assert!(!app.zoxide_initial_visible);
    app.refresh_items();
    let l = listing("/home/user", &["a"]);
    app.complete_refresh(l, &cfg(), Some("/home/user"), 0);
    assert_eq!(app.items.len(), 1);
}

#[test]
fn popup_keys_move_and_close() {
    let mut app = new_app(None);
    let c = cfg();
    app.popup = Some(Popup::ToolSelector);
    app.handle_key(&key(KeyCode::Char('j')), &c, 0, None, false);
    app.handle_key(&key(KeyCode::Down), &c, 0, None, false);
    assert_eq!(app.popup_index, 2);
    app.handle_key(&key(KeyCode::Down), &c, 0, None, false);
    app.handle_key(&key(KeyCode::Down), &c, 0, None, false);
    assert_eq!(app.popup_index, 3);
    app.handle_key(&key(KeyCode::Char('k')), &c, 0, None, false);
    assert_eq!(app.popup_index, 2);
    app.handle_key(&key(KeyCode::Char('q')), &c, 0, None, false);
    assert!(app.popup.is_none());
}

#[test]
fn tab_on_preview_focuses_list_and_switches() {
    let mut app = new_app(None);
    let c = cfg();
    app.focus = Focus::Preview;
    let tab = KeyEvent::new(KeyCode::Tab, KeyModifiers::shift());
    app.handle_key(&tab, &c, 0, None, false);
    assert_eq!(app.focus, Focus::List);
    assert_eq!(app.mode, Mode::Search);
}

#[test]
fn config_keys_take_precedence_over_panels() {
    let mut app = new_app(None);
    let c = cfg();
    app.handle_key(&KeyEvent::new(KeyCode::Char('c'), KeyModifiers::control()), &c, 0, None, false);
    assert!(app.should_quit);
}

#[test]
fn grep_results_become_rows_relative_to_the_root() {
    let mut app = new_app(Some("fn"));
    app.grep_search_root = "/src".to_string();
    app.mode = Mode::Grep;
    let m = cdx_rs::grep::parse_rg_vimgrep("/src/a/main.rs:12:3:fn main() {}\n");
    app.run_grep_search(m);
    assert_eq!(app.items.len(), 1);
    assert_eq!(app.items[0].display, "a/main.rs:12");
    assert_eq!(app.items[0].full_path, "/src/a/main.rs");
    assert!(!app.grep_pending);
    assert_eq!(app.selected, Some(0));
}

#[test]
fn listing_request_follows_mode_and_query() {
    let mut app = new_app(None);
    assert!(app.listing_request().is_none());
    app.refresh_items();
    let r = app.listing_request().unwrap();
    assert_eq!(r.dir, ROOT);
    assert_eq!(r.kind, cdx_rs::app::ListKind::Dirs);
    app.mode = Mode::Search;
    app.pending = Refresh::Query;
    assert!(app.listing_request().is_none());
    app.pending = Refresh::ItemsThenQuery;
    assert_eq!(app.listing_request().unwrap().kind, cdx_rs::app::ListKind::Files);
}

#[test]
fn debounced_find_search_spawns_then_filters_the_cache() {
    let mut app = new_app(Some("pro"));
    assert!(app.start_find_search(10).is_none());
    let job = app.start_find_search(60).expect("a search starts");
    assert_eq!(job.root, ROOT);
    assert_eq!(job.ticket.generation, 0);
    assert!(app.search.cancel.is_some());
    assert!(app.search.find_deadline.is_none());

    let mut inbox = vec![cdx_rs::search_state::SearchResult {
        generation: 0,
        root: ROOT.to_string(),
        entries: vec![dir_item(ROOT, "other"), dir_item(ROOT, "project")],
    }];
    assert!(app.receive_search_results(&mut inbox));
    assert!(inbox.is_empty());
    assert_eq!(app.items.len(), 1);
    assert_eq!(app.items[0].display, "project");
}

#[test]
fn stale_search_results_are_dropped() {
    let mut app = new_app(Some("pro"));
    let mut inbox = vec![cdx_rs::search_state::SearchResult {
        generation: 7,
        root: ROOT.to_string(),
        entries: vec![dir_item(ROOT, "project")],
    }];
    assert!(!app.receive_search_results(&mut inbox));
    assert!(inbox.is_empty());
    assert!(app.items.is_empty());
}

#[test]
fn idle_step_and_timeouts() {
    let mut app = new_app(Some("x"));
    assert_eq!(app.idle_step(10), cdx_rs::app::Idle::Wait);
    assert_eq!(app.poll_timeout(10), 40);
    assert!(app.search_due(50));
    assert_eq!(app.idle_step(50), cdx_rs::app::Idle::StartFind);
    app.mode = Mode::Grep;
    app.grep_pending = true;
    assert_eq!(app.poll_timeout(10), 80);
    assert_eq!(app.idle_step(10), cdx_rs::app::Idle::RunGrep);
}

#[test]
fn exit_path_is_current_dir_by_default() {
    let app = new_app(None);
    assert_eq!(app.exit_path(), ROOT);
}

#[test]
fn busy_while_a_search_waits_or_runs() {
    let mut app = new_app(None);
    assert!(!app.is_busy());
    app.grep_pending = true;
    assert!(app.is_busy());
    let app = new_app(Some("q"));
    assert!(app.is_busy());
}

#[test]
fn a_query_too_long_for_the_matcher_ranks_nothing() {
    let long = "a".repeat(1025);
    let mut app = new_app(Some(&long));
    assert!(app.start_find_search(60).is_some());
    let mut inbox = vec![cdx_rs::search_state::SearchResult {
        generation: 0,
        root: ROOT.to_string(),
        entries: vec![dir_item(ROOT, &"a".repeat(1100))],
    }];
    assert!(app.receive_search_results(&mut inbox));
    assert!(app.items.is_empty());

    let fits = "a".repeat(1024);
    let mut app = new_app(Some(&fits));
    assert!(app.start_find_search(60).is_some());
    let mut inbox = vec![cdx_rs::search_state::SearchResult {
        generation: 0,
        root: ROOT.to_string(),
        entries: vec![dir_item(ROOT, &"a".repeat(1100))],
    }];
    assert!(app.receive_search_results(&mut inbox));
    assert_eq!(app.items.len(), 1);
}

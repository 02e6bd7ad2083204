use cdx_rs::app::{App, Mode, Popup, Refresh};
use cdx_rs::config::Config;
use cdx_rs::walker::{list_dirs_from_entries, DirListingEntry};

const ROOT: &str = "/tmp/cdx-action-test";
const HOME: &str = "/home/user";

fn new_app() -> App {
    App::new(None, ROOT.to_string(), &Config::defaults(), Vec::new(), Some(HOME.to_string()), 0)
}

#[test]
fn test_quit_action() {
    let mut app = new_app();
    assert!(!app.should_quit);
    let result = app.execute_action("quit", Some(HOME));
    assert!(result);
    assert!(app.should_quit);
}

#[test]
fn test_unknown_action_returns_false() {
    let mut app = new_app();
    let result = app.execute_action("nonexistent", Some(HOME));
    assert!(!result);
}

#[test]
fn test_toggle_dotfiles() {
    let mut app = new_app();
    let was = app.show_dotfiles;
    app.execute_action("toggle_dotfiles", Some(HOME));
    assert_ne!(app.show_dotfiles, was);
    app.execute_action("toggle_dotfiles", Some(HOME));
    assert_eq!(app.show_dotfiles, was);
}

#[test]
fn test_toggle_winhidden() {
    let mut app = new_app();
    let was = app.show_winhidden;
    app.execute_action("toggle_winhidden", Some(HOME));
    assert_ne!(app.show_winhidden, was);
}

#[test]
fn test_open_settings() {
    let mut app = new_app();
    let result = app.execute_action("open_settings", Some(HOME));
    assert!(result);
    assert!(app.spawn_pending.is_some());
    let (cmd, path) = app.spawn_pending.unwrap();
    assert_eq!(cmd, "nvim");
    assert!(path.contains("config.toml"));
    assert_eq!(path, "/home/user/.config/cdx/config.toml");
}

#[test]
fn test_switch_mode_action() {
    let mut app = new_app();
    assert_eq!(app.mode, Mode::Find);
    app.execute_action("switch_mode", Some(HOME));
    assert_eq!(app.mode, Mode::Search);
}

#[test]
fn test_open_explorer_with_dir_selected() {
    // zoxide knows one directory of the home directory; "target" itself is
    // an excluded name and is not listed.
    let mut app = App::new(
        None,
        ROOT.to_string(),
        &Config::defaults(),
        vec![format!("{}/projects", HOME)],
        Some(HOME.to_string()),
        0,
    );
    let entries = vec![DirListingEntry {
        name: "target".to_string(),
        full_path: format!("{}/target", ROOT),
        is_dir: true,
    }];
    let listing = list_dirs_from_entries(ROOT, &entries, false, false, &Config::defaults());
    app.refresh_items();
    app.complete_refresh(listing, &Config::defaults(), Some(HOME), 0);
    app.selected = Some(0);

    app.execute_action("open_explorer", Some(HOME));
    assert_eq!(app.popup, Some(Popup::ToolSelector));
    assert_eq!(app.popup_index, 0);
}

#[test]
fn test_open_explorer_no_selection() {
    let mut app = new_app();
    app.execute_action("open_explorer", Some(HOME));
    assert!(app.popup.is_none());
}

#[test]
fn test_go_home() {
    let mut app = new_app();
    app.current_dir = format!("{}/deep", ROOT);
    app.query = "test".to_string();
    app.cursor_pos = 4;

    app.execute_action("go_home", Some(HOME));
    assert_eq!(app.current_dir, HOME);
    assert!(app.query.is_empty());
}

#[test]
fn go_home_without_a_home_directory_stays() {
    let mut app = new_app();
    assert!(app.execute_action("go_home", None));
    assert_eq!(app.current_dir, ROOT);
    assert_eq!(app.pending, Refresh::Nothing);
}

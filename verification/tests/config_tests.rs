use cdx_rs::config::{Config, ConfigRaw};
use cdx_rs::keys::{parse_key, KeyCode, KeyEvent, KeyModifiers, Keybindings, KeybindingsRaw};

fn has(v: &[String], s: &str) -> bool {
    v.iter().any(|x| x == s)
}

#[test]
fn test_config_defaults() {
    let cfg = Config::defaults();
    assert_eq!(cfg.find_debounce_ms, 50);
    assert_eq!(cfg.grep_debounce_ms, 80);
    assert_eq!(cfg.grep_max_depth, 5);
    assert_eq!(cfg.max_secondary_depth, 5);
    assert_eq!(cfg.max_priority_depth, 6);
    assert_eq!(cfg.zoxide_limit, 5);
    assert_eq!(cfg.popup_width_pct, 80);
    assert_eq!(cfg.popup_height_pct, 80);
    assert!(!cfg.show_dotfiles);
    assert!(!cfg.show_winhidden);
}

#[test]
fn test_config_exclude_dirs() {
    let cfg = Config::defaults();
    assert!(has(&cfg.exclude_dirs, "node_modules"));
    assert!(has(&cfg.exclude_dirs, ".git"));
    assert!(has(&cfg.exclude_dirs, ".cache"));
    assert!(has(&cfg.exclude_dirs, "target"));
    assert!(has(&cfg.exclude_dirs, "build"));
    assert!(has(&cfg.exclude_dirs, "dist"));
    assert!(has(&cfg.exclude_dirs, "vendor"));
}

#[test]
fn test_config_exclude_win_dirs() {
    let cfg = Config::defaults();
    assert!(has(&cfg.exclude_win_dirs, "AppData"));
    assert!(has(&cfg.exclude_win_dirs, "ProgramData"));
}

#[test]
fn test_config_exclude_path_globs() {
    let cfg = Config::defaults();
    assert!(has(&cfg.exclude_path_globs, "**/go/pkg/mod"));
}

#[test]
fn test_config_priority_roots() {
    let cfg = Config::defaults();
    assert!(has(&cfg.priority_roots, "dev"));
    assert!(has(&cfg.priority_roots, ".config"));
}

#[test]
fn test_config_keybinding_parsing() {
    let raw = KeybindingsRaw::default();
    let kb = Keybindings::from_raw(&raw);

    assert_eq!(kb.quit.code, KeyCode::Char('c'));
    assert!(kb.quit.modifiers.contains(KeyModifiers::control()));

    assert_eq!(kb.toggle_dotfiles.code, KeyCode::Char('h'));
    assert!(kb.toggle_dotfiles.modifiers.contains(KeyModifiers::control()));

    assert_eq!(kb.toggle_winhidden.code, KeyCode::Char('w'));
    assert!(kb.toggle_winhidden.modifiers.contains(KeyModifiers::control()));

    assert_eq!(kb.open_settings.code, KeyCode::Char('e'));
    assert!(kb.open_settings.modifiers.contains(KeyModifiers::control()));

    assert_eq!(kb.switch_mode.code, KeyCode::Tab);
    assert_eq!(kb.switch_mode.modifiers, KeyModifiers::none());

    assert_eq!(kb.open_explorer.code, KeyCode::Char('o'));
    assert!(kb.open_explorer.modifiers.contains(KeyModifiers::control()));
}

#[test]
fn test_config_custom_keybinding_parsing() {
    let mut raw = KeybindingsRaw::default();
    raw.quit = "ctrl+shift+q".to_string();
    let kb = Keybindings::from_raw(&raw);
    assert_eq!(kb.quit.code, KeyCode::Char('q'));
    assert!(kb.quit.modifiers.contains(KeyModifiers::control()));
    assert!(kb.quit.modifiers.contains(KeyModifiers::shift()));
}

#[test]
fn test_config_special_key_parsing() {
    let mut raw = KeybindingsRaw::default();
    raw.switch_mode = "ctrl+tab".to_string();
    let kb = Keybindings::from_raw(&raw);
    assert_eq!(kb.switch_mode.code, KeyCode::Tab);
    assert!(kb.switch_mode.modifiers.contains(KeyModifiers::control()));
}

#[test]
fn test_config_match_action() {
    let cfg = Config::defaults();
    let quit_key = KeyEvent::new(KeyCode::Char('c'), KeyModifiers::control());
    assert_eq!(cfg.keys.match_action(&quit_key), Some("quit"));

    let tab_key = KeyEvent::new(KeyCode::Tab, KeyModifiers::none());
    assert_eq!(cfg.keys.match_action(&tab_key), Some("switch_mode"));

    let unknown = KeyEvent::new(KeyCode::Char('z'), KeyModifiers::none());
    assert_eq!(cfg.keys.match_action(&unknown), None);
}

#[test]
fn test_tool_selector_defaults() {
    let cfg = Config::defaults();
    assert_eq!(cfg.tool_selector.len(), 4);
    assert_eq!(cfg.tool_selector[0].name, "yazi");
    assert_eq!(cfg.tool_selector[0].command, "yazi");
    assert_eq!(cfg.tool_selector[1].name, "nvim");
    assert_eq!(cfg.tool_selector[2].name, "opencode");
    assert_eq!(cfg.tool_selector[3].name, "lazygit");
}

#[test]
fn test_config_raw_default_values() {
    let raw = ConfigRaw::default();
    assert!(!raw.show_dotfiles);
    assert!(!raw.show_winhidden);
    assert_eq!(raw.popup_width_pct, 80);
    assert_eq!(raw.popup_height_pct, 80);
    assert_eq!(raw.zoxide_limit, 5);
    assert_eq!(raw.grep_debounce_ms, 80);
    assert_eq!(raw.find_debounce_ms, 50);
    assert_eq!(raw.grep_max_depth, 5);
    assert_eq!(raw.max_secondary_depth, 5);
}

#[test]
fn config_from_raw_carries_every_setting() {
    let mut raw = ConfigRaw::default();
    raw.show_dotfiles = true;
    raw.find_debounce_ms = 100;
    raw.zoxide_limit = 3;
    raw.keys.quit = "ctrl+q".to_string();
    let cfg = Config::from_raw(raw);
    assert!(cfg.show_dotfiles);
    assert_eq!(cfg.find_debounce_ms, 100);
    assert_eq!(cfg.zoxide_limit, 3);
    assert_eq!(cfg.keys.quit.code, KeyCode::Char('q'));
    assert!(cfg.keys.quit.modifiers.contains(KeyModifiers::control()));
}

#[test]
fn parse_key_named_keys_and_fallback() {
    assert_eq!(parse_key("enter").code, KeyCode::Enter);
    assert_eq!(parse_key("ESC").code, KeyCode::Esc);
    assert_eq!(parse_key("alt+x").code, KeyCode::Char('x'));
    assert!(parse_key("alt+x").modifiers.alt);
    assert_eq!(parse_key("").code, KeyCode::Null);
    assert_eq!(parse_key("nonsense").code, KeyCode::Null);
}

#[test]
fn match_action_needs_exact_modifiers() {
    let cfg = Config::defaults();
    let plain_c = KeyEvent::new(KeyCode::Char('c'), KeyModifiers::none());
    assert_eq!(cfg.keys.match_action(&plain_c), None);
    let dots = KeyEvent::new(KeyCode::Char('h'), KeyModifiers::control());
    assert_eq!(cfg.keys.match_action(&dots), Some("toggle_dotfiles"));
}

#[test]
fn parse_key_ignores_case_outer_space_and_modifier_order() {
    assert_eq!(parse_key("CTRL+SHIFT+Q"), parse_key("ctrl+shift+q"));
    assert_eq!(parse_key("  ctrl+q  "), parse_key("ctrl+q"));
    assert_eq!(parse_key("\talt+x\n"), parse_key("alt+x"));
    assert_eq!(parse_key("shift+ctrl+q"), parse_key("ctrl+shift+q"));
    assert_eq!(parse_key("meta+cmd+PageUp"), parse_key("cmd+meta+pageup"));
    let kb = parse_key("Shift+Ctrl+Q");
    assert_eq!(kb.code, KeyCode::Char('q'));
    assert!(kb.modifiers.control && kb.modifiers.shift && !kb.modifiers.alt);
}

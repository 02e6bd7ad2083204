use cdx_rs::app::{App, Mode};
use cdx_rs::cli::{join_query, start_plan, Cli, StartPlan};
use cdx_rs::config::Config;
use cdx_rs::view::{
    age_label, autoscroll, legend_lines, list_count_title, list_rows, popup_area, should_use_popup, spinner_frame,
    status_path, status_text,
};
use cdx_rs::walker::DirEntryItem;

#[test]
fn popup_geometry() {
    assert!(should_use_popup(80, 24));
    assert!(!should_use_popup(79, 40));
    assert_eq!(popup_area(100, 30, 80, 80), (10, 3, 80, 24));
    assert_eq!(popup_area(200, 60, 80, 80), (40, 10, 120, 40));
}

#[test]
fn status_and_legend() {
    assert_eq!(status_text(Mode::Grep, true, false), " Grep | dotfiles: ✓ | WinHidden: ✗");
    let l = legend_lines(Mode::Search);
    assert_eq!(l[0], "  Enter (open) | Esc (..) | Esc² (~) | Tab (Grep)");
    assert_eq!(l.len(), 2);
    assert_eq!(list_count_title(3, 12), " 3/12 ");
}

#[test]
fn spinner_advances_every_third_tick() {
    assert_eq!(spinner_frame(false, 7), "");
    assert_eq!(spinner_frame(true, 0), "⠋");
    assert_eq!(spinner_frame(true, 3), "⠙");
    assert_eq!(spinner_frame(true, 29), "⠏");
    assert_eq!(spinner_frame(true, 30), "⠋");
}

#[test]
fn ages_and_scrolling() {
    assert_eq!(age_label(59), "0m ago");
    assert_eq!(age_label(3599), "59m ago");
    assert_eq!(age_label(7200), "2h ago");
    assert_eq!(age_label(90000), "1d ago");
    assert_eq!(autoscroll(0, 30, 10), 21);
    assert_eq!(autoscroll(20, 5, 10), 5);
    assert_eq!(autoscroll(20, 25, 10), 20);
}

#[test]
fn list_rows_and_status_path() {
    let mut app = App::new(None, "/home/u/dev".to_string(), &Config::defaults(), Vec::new(), None, 0);
    app.items = vec![DirEntryItem {
        display: "src".to_string(),
        rel_path: "src".to_string(),
        full_path: "/home/u/dev/src".to_string(),
        is_zoxide: false,
        is_dir: true,
    }];
    app.filtered_indices = vec![0, 5];
    let rows = list_rows(&app);
    assert_eq!(rows.len(), 1);
    assert_eq!(rows[0].0, "\u{f07c} src");
    assert_eq!(status_path(&app, Some("/home/u")), "~/dev");
}

#[test]
fn command_line_plans() {
    let cli = Cli { grep: false, help: (), query: vec!["my".to_string(), "proj".to_string()] };
    assert_eq!(join_query(&cli.query), "my proj");
    assert!(matches!(start_plan(&cli), StartPlan::PathOrZoxide(q) if q == "my proj"));
    let home = Cli { grep: false, help: (), query: vec!["...".to_string()] };
    assert!(matches!(start_plan(&home), StartPlan::Home));
    let g = Cli { grep: true, help: (), query: vec!["todo".to_string()] };
    assert!(matches!(start_plan(&g), StartPlan::GlobalSearch(q) if q == "todo"));
    let none = Cli { grep: false, help: (), query: Vec::new() };
    assert!(matches!(start_plan(&none), StartPlan::Navigator));
}

use cdx_rs::highlight::highlight_matches;
use cdx_rs::app::Mode;
use cdx_rs::config::Config;
use cdx_rs::git::{git_info_from, git_info_lines, git_status_lines, git_toplevel, info_git_lines, GitInfo};
use cdx_rs::icons::Color;
use cdx_rs::preview::{fallback_read_dir, generate_entries, grep_fallback_lines, preview_directory, preview_file_lines, sort_names};
use cdx_rs::tree::{build_tree_lines, build_tree_with_entries, PreviewEntry, PreviewLine, TreeContext, TreeNode};
use cdx_rs::walker::DirEntryItem;

fn file(name: &str) -> TreeNode {
    TreeNode { name: name.to_string(), is_dir: false, hidden: false, children: Vec::new() }
}

fn dir(name: &str, children: Vec<TreeNode>) -> TreeNode {
    TreeNode { name: name.to_string(), is_dir: true, hidden: false, children }
}

fn texts(v: &[PreviewLine]) -> Vec<String> {
    v.iter().map(|l| l.text.clone()).collect()
}

#[test]
fn tree_lists_directories_first_and_three_files() {
    let nodes = vec![
        file("z.txt"),
        file("b.rs"),
        dir("src", vec![file("main.rs")]),
        file("a.md"),
        file("c.toml"),
        file(".hidden"),
        dir("target", vec![]),
    ];
    let mut entries: Vec<PreviewEntry> = Vec::new();
    let mut counter = 0usize;
    let lines = build_tree_with_entries(&nodes, "/p", 2, 0, "", false, false, &Config::defaults(), &mut entries, &mut counter);
    assert_eq!(
        texts(&lines),
        vec![
            "├── \u{f07b} src".to_string(),
            "│   └── \u{eba8} main.rs".to_string(),
            "\u{f15c} a.md".to_string(),
            "\u{eba8} b.rs".to_string(),
            "\u{eb01} c.toml".to_string(),
            "\u{f15b} ⋯ (1 more)".to_string(),
        ]
    );
    assert_eq!(lines[0].style.fg, Some(Color::Cyan));
    assert!(lines[0].style.bold);
    assert_eq!(counter, 6);
    assert_eq!(entries.len(), 1);
    assert_eq!(entries[0].name, "src");
    assert_eq!(entries[0].full_path, "/p/src");
    assert_eq!(entries[0].line_index, 0);
}

#[test]
fn tree_hides_marked_entries_only_under_the_attribute_rule() {
    let mut marked = dir("AppData", vec![]);
    marked.hidden = true;
    let nodes = vec![marked, dir("ProgramData", vec![])];
    let mut entries = Vec::new();
    let mut counter = 0usize;
    let lines = build_tree_with_entries(&nodes, "/p", 0, 0, "", false, false, &Config::defaults(), &mut entries, &mut counter);
    assert_eq!(texts(&lines), vec!["└── \u{f07b} ProgramData".to_string()]);

    let mut ctx = TreeContext { show_dotfiles: false, show_winhidden: false, out_entries: Vec::new(), line_counter: 0 };
    let nodes = vec![dir("AppData", vec![]), dir("docs", vec![])];
    let lines = build_tree_lines(&nodes, "/p", 0, 0, "", &Config::defaults(), &mut ctx);
    assert_eq!(texts(&lines), vec!["└── \u{f07b} docs".to_string()]);
    assert_eq!(ctx.line_counter, 1);
}

#[test]
fn entries_of_a_directory_preview() {
    let item = DirEntryItem {
        display: "p".to_string(),
        rel_path: "p".to_string(),
        full_path: "/p".to_string(),
        is_zoxide: false,
        is_dir: true,
    };
    let nodes = vec![dir("a", vec![dir("b", vec![])])];
    let e = generate_entries(Mode::Find, &item, &nodes, "/p", false, false, &Config::defaults());
    assert_eq!(e.len(), 2);
    assert_eq!(e[1].line_index, 1);
    let e = generate_entries(Mode::Grep, &item, &nodes, "/p", false, false, &Config::defaults());
    assert!(e.is_empty());
}

#[test]
fn directory_preview_sections() {
    let status = git_status_lines(Some(" M src/main.rs\n?? new.txt\nR  x -> y\n"));
    assert_eq!(status.len(), 3);
    assert_eq!(status[0].style.fg, Some(Color::LightRed));
    assert_eq!(status[1].style.fg, Some(Color::LightRed));
    assert_eq!(status[2].style.fg, Some(Color::White));
    let lines = preview_directory(Vec::new(), status);
    assert_eq!(lines[0].text, " (empty)");
    assert_eq!(lines[1].text, "");
    assert_eq!(lines[2].text, "=== GIT STATUS ===");
    assert_eq!(lines.len(), 6);
}

#[test]
fn git_status_clean_and_missing() {
    assert_eq!(texts(&git_status_lines(Some("  \n"))), vec!["Clean".to_string()]);
    assert_eq!(texts(&git_status_lines(None)), vec!["(not a git repo)".to_string()]);
}

#[test]
fn git_info_lines_show_branch_state() {
    let top = git_toplevel(Some((true, "/home/u/repo\n"))).unwrap();
    assert_eq!(top, "/home/u/repo");
    assert!(git_toplevel(Some((false, "fatal"))).is_none());
    let info = git_info_from(top, Some((true, "main\n")), Some(" M a\n"));
    assert_eq!(info.branch.as_deref(), Some("main"));
    assert!(info.dirty);
    let lines = git_info_lines(&Some(info), Some("/home/u"));
    assert_eq!(texts(&lines), vec![" git:".to_string(), "  ~/repo".to_string(), "  main (dirty)".to_string()]);
    assert_eq!(lines[2].style.fg, Some(Color::LightRed));
    let clean = GitInfo { toplevel: "/r".to_string(), branch: Some("dev".to_string()), dirty: false };
    let lines = info_git_lines(&Some(clean), None);
    assert_eq!(lines[2].text, "  dev (clean)");
    assert_eq!(lines[2].style.fg, Some(Color::LightGreen));
    assert_eq!(lines[0].style.fg, Some(Color::Rgb(100, 200, 255)));
    assert!(git_info_lines(&None, None).is_empty());
}

#[test]
fn file_preview_takes_fifty_lines() {
    let content: String = (0..60).map(|i| format!("line {}\n", i)).collect();
    let lines = preview_file_lines(&content);
    assert_eq!(lines.len(), 50);
    assert_eq!(lines[49].text, "line 49");
}

#[test]
fn grep_fallback_marks_separators() {
    let lines = grep_fallback_lines("a:1:x\n--\nb:2:y\n", "/f");
    assert_eq!(lines[1].style.fg, Some(Color::DarkGray));
    assert_eq!(lines[0].style.fg, Some(Color::White));
    let none = grep_fallback_lines("", "/f");
    assert_eq!(none[0].text, " (no matches in /f)");
}

#[test]
fn plain_listing_sorts_and_skips_dotfiles() {
    let entries = vec![
        ("zeta".to_string(), true),
        ("b.rs".to_string(), false),
        (".git".to_string(), true),
        ("alpha".to_string(), true),
        ("a.md".to_string(), false),
    ];
    let lines = fallback_read_dir(&entries);
    assert_eq!(
        texts(&lines),
        vec![
            "\u{f07b} alpha".to_string(),
            "\u{f07b} zeta".to_string(),
            "\u{f15c} a.md".to_string(),
            "\u{eba8} b.rs".to_string(),
        ]
    );
    assert_eq!(sort_names(vec!["b".to_string(), "B".to_string(), "a".to_string()]), vec!["B", "a", "b"]);
}

#[test]
fn grep_highlight_marks_matches_by_case() {
    let out = highlight_matches(b"a Foo foo\nbar\n", "foo");
    let text = String::from_utf8(out).unwrap();
    assert_eq!(
        text,
        "a \x1b[1;43mFoo\x1b[0m \x1b[1;43mfoo\x1b[0m\nbar\n"
    );
    assert_eq!(highlight_matches(b"raw \xff bytes", ""), b"raw \xff bytes".to_vec());
    let folded = String::from_utf8(highlight_matches("STRASSE straße\n".as_bytes(), "ſtrasse")).unwrap();
    assert!(folded.contains("\x1b[1;46m"));
    let special = String::from_utf8(highlight_matches(b"a.b axb\n", "a.b")).unwrap();
    assert_eq!(special, "\x1b[1;43ma.b\x1b[0m axb\n");
}

#[test]
fn grep_highlight_decodes_lossily() {
    let out = highlight_matches(b"x\xffab\n", "ab");
    let text = String::from_utf8(out).unwrap();
    assert_eq!(text, "x\u{fffd}\x1b[1;43mab\x1b[0m\n");
}

#[test]
fn tree_line_count_matches_the_lines_drawn() {
    let nodes = vec![
        dir("a", vec![dir("b", vec![file("x"), file("y"), file("z"), file("w")])]),
        file("f1"),
    ];
    let n = cdx_rs::tree::tree_line_count(&nodes, "/p", 2, 0, "", false, false, cdx_rs::tree::HiddenRule::Attribute, &Config::defaults());
    let mut entries = Vec::new();
    let mut counter = 0usize;
    let lines = build_tree_with_entries(&nodes, "/p", 2, 0, "", false, false, &Config::defaults(), &mut entries, &mut counter);
    assert_eq!(n, Some(lines.len()));
    assert_eq!(lines.len(), 7);
}

#[test]
fn tree_keeps_earlier_entries_and_records_one_per_directory_line() {
    let nodes = vec![dir("a", vec![dir("inner", vec![]), file("x.rs")]), dir("b", vec![]), file("y.md")];
    let mut entries = vec![PreviewEntry { name: "old".to_string(), full_path: "/old".to_string(), is_dir: false, line_index: 9 }];
    let mut counter = 3usize;
    let lines = build_tree_with_entries(&nodes, "/p", 2, 0, "", false, false, &Config::defaults(), &mut entries, &mut counter);
    assert_eq!(counter, 3 + lines.len());
    assert_eq!(entries[0].name, "old");
    assert!(!entries[0].is_dir);
    let added = &entries[1..];
    let dir_lines: Vec<usize> = lines.iter().enumerate().filter(|(_, l)| l.style.bold).map(|(i, _)| 3 + i).collect();
    let indices: Vec<usize> = added.iter().map(|e| e.line_index).collect();
    assert_eq!(indices, dir_lines);
    assert!(added.iter().all(|e| e.is_dir));
    assert_eq!(added.iter().map(|e| e.name.as_str()).collect::<Vec<_>>(), vec!["a", "inner", "b"]);
}

use cdx_rs::config::Config;
use cdx_rs::grep::{parse_rg_json, parse_rg_vimgrep, rg_args};
use cdx_rs::search::{build_exclude_args, content_args, drop_under_priority, file_name_matches, files_args, join_phase, merge_results, name_contains, priority_paths};
use cdx_rs::search_state::SearchState;
use cdx_rs::walker::{list_dirs_from_entries, should_exclude, walk_dir_item, walk_file_item, DirListingEntry};

#[test]
fn list_dirs_does_not_apply_global_ignore_rules() {
    let root = "/tmp/cdx-walker-test";
    let entries = vec![
        DirListingEntry { name: "Dropbox".to_string(), full_path: format!("{}/Dropbox", root), is_dir: true },
        DirListingEntry { name: ".local".to_string(), full_path: format!("{}/.local", root), is_dir: true },
        DirListingEntry { name: ".ignore".to_string(), full_path: format!("{}/.ignore", root), is_dir: false },
    ];
    let listed = list_dirs_from_entries(root, &entries, false, false, &Config::defaults());
    assert!(listed.iter().any(|entry| entry.display == "Dropbox"));
    assert!(!listed.iter().any(|entry| entry.display == ".local"));
}

#[test]
fn exclusion_rules() {
    let cfg = Config::defaults();
    assert!(should_exclude("node_modules", true, true, &cfg));
    assert!(should_exclude("AppData", true, false, &cfg));
    assert!(!should_exclude("AppData", true, true, &cfg));
    assert!(should_exclude(".env", false, true, &cfg));
    assert!(!should_exclude(".env", true, true, &cfg));
}

#[test]
fn walk_items_are_relative_to_the_root() {
    let d = walk_dir_item("C:\\Users\\me", "C:\\Users\\me\\dev\\x".to_string());
    assert_eq!(d.display, "dev/x");
    let f = walk_file_item("/r", "/r/a/b.rs".to_string(), "b.rs".to_string()).unwrap();
    assert_eq!(f.display, "b.rs");
    assert_eq!(f.rel_path, "a/b.rs");
    assert!(walk_file_item("/r", "/elsewhere/b.rs".to_string(), "b.rs".to_string()).is_none());
}

#[test]
fn ripgrep_arguments() {
    let cfg = Config::defaults();
    let args = rg_args(&cfg, "/root", "needle", false, false, true);
    assert_eq!(args[0], "--json");
    assert_eq!(&args[1..4], &["--smart-case".to_string(), "--max-depth".to_string(), "5".to_string()]);
    assert!(args.windows(2).any(|w| w[0] == "--glob" && w[1] == "!AppData"));
    assert!(args.windows(2).any(|w| w[0] == "--glob" && w[1] == "!.*"));
    assert_eq!(args[args.len() - 2], "needle");
    assert_eq!(args[args.len() - 1], "/root");
    let shown = rg_args(&cfg, "/root", "needle", true, true, false);
    assert_eq!(shown[0], "--vimgrep");
    assert!(!shown.iter().any(|a| a == "!AppData" || a == "!.*"));
    let ex = build_exclude_args(&cfg);
    assert_eq!(ex[0], "--glob");
    assert_eq!(ex[1], "!node_modules");
    let c = content_args(&cfg, 6, "q", "/h/dev");
    assert_eq!(&c[0..3], &["--files-with-matches".to_string(), "--smart-case".to_string(), "--hidden".to_string()]);
    assert_eq!(&c[c.len() - 4..], &["--max-depth".to_string(), "6".to_string(), "q".to_string(), "/h/dev".to_string()]);
    let f = files_args(&cfg, "/h");
    assert_eq!(f[0], "--files");
    assert_eq!(f[f.len() - 1], "/h");
}

#[test]
fn ripgrep_output_parsing() {
    let v = parse_rg_vimgrep("a.rs:3:5:let x = 1;\nnot a match\nb.rs:x:1:y:z\n");
    assert_eq!(v.len(), 2);
    assert_eq!(v[0].file_path, "a.rs");
    assert_eq!(v[0].line_number, 3);
    assert_eq!(v[0].match_text, "let x = 1;");
    assert_eq!(v[1].line_number, 0);
    assert_eq!(v[1].match_text, "y:z");
    let j = parse_rg_json(
        "{\"type\":\"begin\",\"data\":{}}\n{\"type\":\"match\",\"data\":{\"path\":{\"text\":\"src/m.rs\"},\"lines\":{\"text\":\"fn main() {}\\n\"},\"line_number\":7}}\n",
    );
    assert_eq!(j.len(), 1);
    assert_eq!(j[0].file_path, "src/m.rs");
    assert_eq!(j[0].line_number, 7);
    assert_eq!(j[0].match_text, "fn main() {}");
}

#[test]
fn global_search_filters_and_merge() {
    assert!(name_contains("MyProject", "proj"));
    assert!(file_name_matches("/a/b/ReadMe.md", "readme"));
    assert!(!file_name_matches("/readme/x.txt", "readme"));
    let roots = priority_paths("/h", &vec!["dev".to_string()]);
    assert_eq!(roots, vec!["/h/dev".to_string()]);
    let kept = drop_under_priority(vec!["/h/dev/x".to_string(), "/h/other".to_string()], &roots);
    assert_eq!(kept, vec!["/h/other".to_string()]);
    let merged = merge_results(vec!["a".to_string(), "b".to_string()], vec!["b".to_string()], vec!["c".to_string(), "a".to_string()]);
    assert_eq!(merged.len(), 3);
    assert!(merged.contains(&"c".to_string()));
}

#[test]
fn debounce_deadline_and_poll() {
    let mut s = SearchState::new(50);
    assert!(!s.is_due(0));
    s.set_deadline("query", 100);
    assert!(!s.is_due(120));
    assert_eq!(s.poll_timeout(120), 30);
    s.set_deadline("ab", 130);
    assert!(!s.is_due(150));
    assert!(s.is_due(180));
    assert_eq!(s.poll_timeout(200), 0);
    s.set_deadline("", 200);
    assert!(s.find_deadline.is_none());
    assert_eq!(s.poll_timeout(200), 50);
    let gen = s.generation;
    s.invalidate();
    assert_eq!(s.generation, gen + 1);
}

#[test]
fn vimgrep_of_joined_output_is_the_concatenation() {
    let a = "/p/a.rs:1:2:fn a() {}\nnot a match";
    let b = "/p/b.rs:7:1:x: y: z\n";
    let joined = format!("{}\n{}", a, b);
    let all = parse_rg_vimgrep(&joined);
    let mut parts = parse_rg_vimgrep(a);
    parts.extend(parse_rg_vimgrep(b));
    assert_eq!(all.len(), 2);
    assert_eq!(all.len(), parts.len());
    for (x, y) in all.iter().zip(parts.iter()) {
        assert_eq!(x.file_path, y.file_path);
        assert_eq!(x.line_number, y.line_number);
        assert_eq!(x.match_text, y.match_text);
    }
    assert_eq!(all[1].match_text, "x: y: z");
    assert_eq!(all[1].line_number, 7);
}

#[test]
fn phase_keeps_priority_matches_and_drops_home_matches_under_roots() {
    let roots = vec!["/h/dev".to_string()];
    let joined = join_phase(
        vec!["/h/dev/cdx".to_string()],
        vec!["/h/dev/cdx".to_string(), "/h/music/cdx".to_string()],
        &roots,
    );
    assert_eq!(joined, vec!["/h/dev/cdx".to_string(), "/h/music/cdx".to_string()]);
}

use cdx_rs::walker::DirEntryItem;
use cdx_rs::zoxide::{merge_with_dirs, merge_with_home, parse_list, parse_query};

fn home_str() -> String {
    dirs::home_dir().unwrap().to_string_lossy().into_owned()
}

fn make_walker_item(name: &str, path: &str) -> DirEntryItem {
    DirEntryItem {
        display: name.to_string(),
        rel_path: name.to_string(),
        full_path: path.to_string(),
        is_zoxide: false,
        is_dir: true,
    }
}

#[test]
fn test_merge_limits_zoxide_entries() {
    let h = home_str();
    let cache = vec![format!("{}/a", h), format!("{}/b", h), format!("{}/c", h)];
    let result = merge_with_dirs(&cache, vec![], &h, 2);
    let zoxide_count = result.iter().filter(|i| i.is_zoxide).count();
    assert!(zoxide_count <= 2, "at most 2 zoxide entries");
}

#[test]
fn test_merge_excludes_current_dir() {
    let current = home_str();
    let cache = vec![current.clone()];
    let result = merge_with_dirs(&cache, vec![], &current, 5);
    assert!(result.is_empty(), "current dir should be excluded from zoxide");
}

#[test]
fn test_merge_excludes_duplicates_with_walker() {
    let h = home_str();
    let cache = vec![format!("{}/projects", h)];
    let walker = vec![make_walker_item("projects", &format!("{}/projects", h))];
    let result = merge_with_dirs(&cache, walker, &h, 5);
    let count = result.iter().filter(|i| i.display == "projects").count();
    assert_eq!(count, 1, "should not duplicate dirs already in walker");
}

#[test]
fn test_merge_zoxide_appears_first() {
    let h = home_str();
    let cache = vec![format!("{}/zz-top", h)];
    let walker = vec![make_walker_item("aaa", &format!("{}/aaa", h))];
    let result = merge_with_dirs(&cache, walker, &h, 5);
    assert_eq!(result.len(), 2);
    assert!(result[0].is_zoxide, "zoxide should come first");
    assert!(!result[1].is_zoxide);
}

#[test]
fn test_merge_empty_cache_only_walker() {
    let h = home_str();
    let walker = vec![
        make_walker_item("a", &format!("{}/a", h)),
        make_walker_item("b", &format!("{}/b", h)),
    ];
    let result = merge_with_dirs(&vec![], walker, &h, 5);
    assert_eq!(result.len(), 2);
    assert!(result.iter().all(|i| !i.is_zoxide));
}

#[test]
fn test_merge_empty_walker_only_zoxide() {
    let h = home_str();
    let cache = vec![format!("{}/config", h)];
    let result = merge_with_dirs(&cache, vec![], &h, 5);
    assert_eq!(result.len(), 1);
    assert!(result[0].is_zoxide);
}

#[test]
fn test_merge_all_empty() {
    let current = home_str();
    let result = merge_with_dirs(&vec![], vec![], &current, 5);
    assert!(result.is_empty());
}

#[test]
fn test_merge_walker_items_always_included() {
    let h = home_str();
    let cache: Vec<String> = vec![];
    let walker = vec![
        make_walker_item("alpha", &format!("{}/alpha", h)),
        make_walker_item("beta", &format!("{}/beta", h)),
    ];
    let result = merge_with_dirs(&cache, walker, &h, 5);
    assert_eq!(result.len(), 2);
    assert!(result.iter().any(|i| i.display == "alpha"));
    assert!(result.iter().any(|i| i.display == "beta"));
}

#[test]
fn test_merge_walker_items_preserved_when_zoxide_exhausts_limit() {
    let h = home_str();
    let cache = vec![format!("{}/z1", h), format!("{}/z2", h)];
    let walker = vec![
        make_walker_item("w1", &format!("{}/w1", h)),
        make_walker_item("w2", &format!("{}/w2", h)),
    ];
    let result = merge_with_dirs(&cache, walker, &h, 1);
    let zoxide_count = result.iter().filter(|i| i.is_zoxide).count();
    let walker_count = result.iter().filter(|i| !i.is_zoxide).count();
    assert_eq!(zoxide_count, 1, "only 1 zoxide due to limit");
    assert_eq!(walker_count, 2, "all walker items preserved");
}

#[test]
fn merge_shows_home_as_tilde_and_skips_outside_home() {
    let cache = vec!["/home/u/dev".to_string(), "/opt/x".to_string(), "/home/u/music".to_string()];
    let result = merge_with_home(Some("/home/u"), &cache, vec![], "/home/u", 5);
    assert_eq!(result.len(), 2, "the directory outside home is skipped");
    assert_eq!(result[0].display, "~/dev");
    assert_eq!(result[0].rel_path, "/home/u/dev");
    assert_eq!(result[1].display, "~/music");
}

#[test]
fn merge_with_limit_zero_adds_no_zoxide_directory() {
    let cache = vec!["/home/u/dev".to_string()];
    let result = merge_with_home(Some("/home/u"), &cache, vec![], "/home/u", 0);
    assert!(result.is_empty(), "a limit of 0 merges nothing");
}

#[test]
fn zoxide_output_parsing() {
    assert_eq!(parse_list("/a\n\n/b\r\n"), vec!["/a".to_string(), "/b".to_string()]);
    assert_eq!(parse_query("  /x/y \n"), Some("/x/y".to_string()));
    assert_eq!(parse_query("   \n"), None);
}

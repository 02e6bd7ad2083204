use cdx_rs::icons::{icon_for, icon_for_item, icon_for_name, style_for, style_for_extension, style_for_item, Color};
use cdx_rs::walker::DirEntryItem;

fn make_item(display: &str, is_zoxide: bool, is_dir: bool) -> DirEntryItem {
    DirEntryItem {
        display: display.to_string(),
        rel_path: display.to_string(),
        full_path: display.to_string(),
        is_zoxide,
        is_dir,
    }
}

#[test]
fn test_icon_zoxide_is_star() {
    let item = make_item("path", true, true);
    assert_eq!(icon_for_item(&item), "★");
}

#[test]
fn test_icon_dir_is_empty_string() {
    let item = make_item("projects", false, true);
    assert_eq!(icon_for_item(&item), "");
}

#[test]
fn test_icon_rs_file() {
    let item = make_item("main.rs", false, false);
    assert_eq!(icon_for_item(&item), "\u{eba8}");
}

#[test]
fn test_icon_toml_file() {
    let item = make_item("config.toml", false, false);
    assert_eq!(icon_for_item(&item), "\u{eb01}");
}

#[test]
fn test_icon_hidden_file() {
    let item = make_item(".gitignore", false, false);
    assert_eq!(icon_for_item(&item), "\u{e65d}");
}

#[test]
fn test_icon_unknown_extension() {
    let item = make_item("unknown.xyz", false, false);
    assert_eq!(icon_for_item(&item), "\u{f15b}");
}

#[test]
fn test_icon_for_name_rs() {
    assert_eq!(icon_for_name("foo.rs"), "\u{eba8}");
}

#[test]
fn test_icon_for_name_hidden() {
    assert_eq!(icon_for_name(".env"), "\u{e65d}");
}

#[test]
fn test_icon_for_name_shell() {
    assert_eq!(icon_for_name("install.sh"), "\u{ebc7}");
}

#[test]
fn test_icon_for_name_image() {
    assert_eq!(icon_for_name("logo.png"), "\u{f03e}");
}

#[test]
fn test_style_zoxide_yellow_bold() {
    let item = make_item("path", true, true);
    let style = style_for_item(&item);
    assert_eq!(style.fg, Some(Color::Yellow));
    assert!(style.bold);
}

#[test]
fn test_style_dir_cyan_bold() {
    let item = make_item("projects", false, true);
    let style = style_for_item(&item);
    assert_eq!(style.fg, Some(Color::Cyan));
    assert!(style.bold);
}

#[test]
fn test_style_rs_file_light_blue() {
    let item = make_item("main.rs", false, false);
    let style = style_for_item(&item);
    assert_eq!(style.fg, Some(Color::LightBlue));
}

#[test]
fn test_style_toml_file_light_red() {
    let item = make_item("config.toml", false, false);
    let style = style_for_item(&item);
    assert_eq!(style.fg, Some(Color::LightRed));
}

#[test]
fn test_style_for_extension_rs() {
    assert_eq!(style_for_extension("x.rs").fg, Some(Color::LightBlue));
}

#[test]
fn test_style_for_extension_md() {
    assert_eq!(style_for_extension("x.md").fg, Some(Color::LightYellow));
}

#[test]
fn test_style_for_extension_sh() {
    assert_eq!(style_for_extension("x.sh").fg, Some(Color::LightGreen));
}

#[test]
fn test_style_for_extension_unknown() {
    assert_eq!(style_for_extension("x.xyz").fg, Some(Color::White));
}

#[test]
fn list_icons_differ_from_name_icons_for_rust_and_dirs() {
    assert_eq!(icon_for(&make_item("main.rs", false, false)), "\u{e7a8}");
    assert_eq!(icon_for(&make_item("src", false, true)), "\u{f07c}");
    assert_eq!(icon_for(&make_item("z", true, true)), "★");
    assert_eq!(style_for(&make_item("a.png", false, false)).fg, Some(Color::LightMagenta));
    assert_eq!(style_for(&make_item("a.ico", false, false)).fg, Some(Color::White));
}

#[test]
fn extensionless_and_dotted_names() {
    assert_eq!(icon_for_name("Makefile"), "\u{f15b}");
    assert_eq!(icon_for_name("archive.tar.json"), "\u{eb01}");
    assert_eq!(style_for_extension(".bashrc").fg, Some(Color::White));
}

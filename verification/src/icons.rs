//! Icons and colours of list entries, chosen by kind and by file extension.
use vstd::prelude::*;

use crate::paths::{path_file_name, spec_file_name};
use crate::text::{chars_of, string_from_chars, sub_chars};
use crate::walker::DirEntryItem;

verus! {

/// The colours the entries are drawn in.
#[derive(Debug, Clone, Copy, PartialEq, Eq, Structural)]
pub enum Color {
    Yellow,
    Cyan,
    LightBlue,
    LightRed,
    LightYellow,
    LightGreen,
    LightCyan,
    LightMagenta,
    White,
    DarkGray,
    Rgb(u8, u8, u8),
}

/// How a piece of text is drawn: its colour, and whether it is bold.
#[derive(Debug, Clone, Copy, PartialEq, Eq, Structural)]
pub struct Style {
    pub fg: Option<Color>,
    pub bold: bool,
}

// ---------------------------------------------------------------------------
// Extensions
// ---------------------------------------------------------------------------

/// The index of the last `c` in `s`, or -1 when there is none.
pub open spec fn last_index(s: Seq<char>, c: char) -> int
    decreases s.len(),
{
    if s.len() == 0 {
        -1
    } else if s.last() == c {
        s.len() - 1
    } else {
        last_index(s.drop_last(), c)
    }
}

/// The extension of a file name, as `Path::extension` documents it: none when
/// there is no `.`, or when the only `.` is the first character; otherwise
/// what follows the last `.`.
pub open spec fn extension_of(name: Seq<char>) -> Option<Seq<char>> {
    let k = last_index(name, '.');
    if k <= 0 {
        None
    } else {
        Some(name.skip(k + 1))
    }
}

/// The extension of a file name.
pub fn extension_of_file_name(name: &str) -> (r: Option<String>)
    ensures
        match r {
            Some(e) => extension_of(name@) == Some(e@),
            None => extension_of(name@) is None,
        },
{
    let v = chars_of(name);
    let mut k = v.len();
    assert(v@.take(k as int) =~= v@);
    while k > 0 && v[k - 1] != '.'
        invariant
            k <= v@.len(),
            last_index(v@, '.') == last_index(v@.take(k as int), '.'),
        decreases k,
    {
        assert(v@.take(k as int).drop_last() =~= v@.take(k - 1));
        k = k - 1;
    }
    if k == 0 {
        assert(last_index(v@.take(0), '.') == -1);
        return None;
    }
    assert(last_index(v@.take(k as int), '.') == k - 1);
    if k == 1 {
        return None;
    }
    let n = v.len();
    let e = sub_chars(v.as_slice(), k, n);
    assert(e@ =~= v@.skip(k as int));
    Some(string_from_chars(e.as_slice()))
}

/// The extension `Path::new(name).extension()` gives, or the empty text.
pub open spec fn extension_or_empty(name: Seq<char>) -> Seq<char> {
    match spec_file_name(name) {
        Some(f) => match extension_of(f) {
            Some(e) => e,
            None => Seq::empty(),
        },
        None => Seq::empty(),
    }
}

/// The extension of the final component of the path `name`, or the empty
/// text when it has none.
pub fn path_extension(name: &str) -> (r: String)
    ensures
        r@ == extension_or_empty(name@),
{
    match path_file_name(name) {
        Some(f) => match extension_of_file_name(f.as_str()) {
            Some(e) => e,
            None => String::new(),
        },
        None => String::new(),
    }
}

fn ext_is(ext: &Vec<char>, w: &str) -> (r: bool)
    ensures
        r == (ext@ == w@),
{
    let wc = chars_of(w);
    crate::text::chars_eq(ext.as_slice(), wc.as_slice())
}

fn ext_in(ext: &Vec<char>, w1: &str, w2: &str, w3: &str) -> (r: bool)
    ensures
        r == (ext@ == w1@ || ext@ == w2@ || ext@ == w3@),
{
    ext_is(ext, w1) || ext_is(ext, w2) || ext_is(ext, w3)
}

// ---------------------------------------------------------------------------
// Icons
// ---------------------------------------------------------------------------

/// The icon of a file by extension.
pub open spec fn icon_by_extension(ext: Seq<char>) -> &'static str {
    if ext == "rs"@ {
        "\u{eba8}"
    } else if ext == "toml"@ || ext == "yml"@ || ext == "yaml"@ || ext == "json"@ {
        "\u{eb01}"
    } else if ext == "md"@ || ext == "txt"@ {
        "\u{f15c}"
    } else if ext == "ps1"@ || ext == "sh"@ || ext == "bat"@ || ext == "cmd"@ {
        "\u{ebc7}"
    } else if ext == "exe"@ || ext == "dll"@ {
        "\u{f17a}"
    } else if ext == "png"@ || ext == "jpg"@ || ext == "jpeg"@ || ext == "gif"@ || ext == "svg"@
        || ext == "ico"@ {
        "\u{f03e}"
    } else if ext == "gitignore"@ || ext == "gitattributes"@ || ext == "gitmodules"@ {
        "\u{e65d}"
    } else {
        "\u{f15b}"
    }
}

/// The icon of a file with extension `ext`.
pub fn icon_for_extension(ext: &str) -> (r: &'static str)
    ensures
        r == icon_by_extension(ext@),
{
    let e = chars_of(ext);
    if ext_is(&e, "rs") {
        "\u{eba8}"
    } else if ext_in(&e, "toml", "yml", "yaml") || ext_is(&e, "json") {
        "\u{eb01}"
    } else if ext_in(&e, "md", "txt", "txt") {
        "\u{f15c}"
    } else if ext_in(&e, "ps1", "sh", "bat") || ext_is(&e, "cmd") {
        "\u{ebc7}"
    } else if ext_in(&e, "exe", "dll", "dll") {
        "\u{f17a}"
    } else if ext_in(&e, "png", "jpg", "jpeg") || ext_in(&e, "gif", "svg", "ico") {
        "\u{f03e}"
    } else if ext_in(&e, "gitignore", "gitattributes", "gitmodules") {
        "\u{e65d}"
    } else {
        "\u{f15b}"
    }
}

/// The icon of a file by name: hidden files share one icon, other files take
/// the icon of their extension.
pub open spec fn icon_by_name(name: Seq<char>) -> &'static str {
    if name.len() > 0 && name[0] == '.' {
        "\u{e65d}"
    } else {
        icon_by_extension(extension_or_empty(name))
    }
}

/// The icon of the file `name`.
pub fn icon_for_name(name: &str) -> (r: &'static str)
    ensures
        r == icon_by_name(name@),
{
    let v = chars_of(name);
    if v.len() > 0 && v[0] == '.' {
        return "\u{e65d}";
    }
    let ext = path_extension(name);
    icon_for_extension(ext.as_str())
}

/// The icon of a list entry: a star for a zoxide suggestion, nothing for a
/// directory, the file icon for a file.
pub open spec fn icon_by_item(item: DirEntryItem) -> &'static str {
    if item.is_zoxide {
        "★"
    } else if item.is_dir {
        ""
    } else {
        icon_by_name(item.display@)
    }
}

/// The icon of a list entry.
pub fn icon_for_item(item: &DirEntryItem) -> (r: &'static str)
    ensures
        r == icon_by_item(*item),
{
    if item.is_zoxide {
        return "★";
    }
    if item.is_dir {
        return "";
    }
    icon_for_name(item.display.as_str())
}

/// The icon the list panel draws for a file by extension.
pub open spec fn list_icon_by_extension(ext: Seq<char>) -> &'static str {
    if ext == "rs"@ {
        "\u{e7a8}"
    } else if ext == "toml"@ || ext == "yml"@ || ext == "yaml"@ || ext == "json"@ {
        "\u{eb01}"
    } else if ext == "md"@ || ext == "txt"@ {
        "\u{f15c}"
    } else if ext == "ps1"@ || ext == "sh"@ || ext == "bat"@ || ext == "cmd"@ {
        "\u{ebc7}"
    } else if ext == "exe"@ || ext == "dll"@ {
        "\u{f17a}"
    } else if ext == "png"@ || ext == "jpg"@ || ext == "jpeg"@ || ext == "gif"@ || ext == "svg"@
        || ext == "ico"@ {
        "\u{f03e}"
    } else if ext == "gitignore"@ || ext == "gitattributes"@ || ext == "gitmodules"@ {
        "\u{e65d}"
    } else {
        "\u{f15b}"
    }
}

/// The icon the list panel draws for an entry: a star for a zoxide
/// suggestion, a folder for a directory, the file icon by extension else.
pub open spec fn list_icon_by_item(item: DirEntryItem) -> &'static str {
    if item.is_zoxide {
        "★"
    } else if item.is_dir {
        "\u{f07c}"
    } else {
        list_icon_by_extension(extension_or_empty(item.display@))
    }
}

/// The icon the list panel draws for an entry.
pub fn icon_for(item: &DirEntryItem) -> (r: &'static str)
    ensures
        r == list_icon_by_item(*item),
{
    if item.is_zoxide {
        return "★";
    }
    if item.is_dir {
        return "\u{f07c}";
    }
    let ext = path_extension(item.display.as_str());
    let e = chars_of(ext.as_str());
    if ext_is(&e, "rs") {
        "\u{e7a8}"
    } else if ext_in(&e, "toml", "yml", "yaml") || ext_is(&e, "json") {
        "\u{eb01}"
    } else if ext_in(&e, "md", "txt", "txt") {
        "\u{f15c}"
    } else if ext_in(&e, "ps1", "sh", "bat") || ext_is(&e, "cmd") {
        "\u{ebc7}"
    } else if ext_in(&e, "exe", "dll", "dll") {
        "\u{f17a}"
    } else if ext_in(&e, "png", "jpg", "jpeg") || ext_in(&e, "gif", "svg", "ico") {
        "\u{f03e}"
    } else if ext_in(&e, "gitignore", "gitattributes", "gitmodules") {
        "\u{e65d}"
    } else {
        "\u{f15b}"
    }
}

// ---------------------------------------------------------------------------
// Colours
// ---------------------------------------------------------------------------

pub open spec fn plain(c: Color) -> Style {
    Style { fg: Some(c), bold: false }
}

pub open spec fn bold(c: Color) -> Style {
    Style { fg: Some(c), bold: true }
}

/// The colour of a file by extension.
pub open spec fn style_by_extension(ext: Seq<char>) -> Style {
    if ext == "rs"@ {
        plain(Color::LightBlue)
    } else if ext == "toml"@ || ext == "yml"@ || ext == "yaml"@ || ext == "json"@ {
        plain(Color::LightRed)
    } else if ext == "md"@ || ext == "txt"@ {
        plain(Color::LightYellow)
    } else if ext == "ps1"@ || ext == "sh"@ || ext == "bat"@ {
        plain(Color::LightGreen)
    } else if ext == "exe"@ || ext == "dll"@ {
        plain(Color::LightCyan)
    } else if ext == "png"@ || ext == "jpg"@ || ext == "jpeg"@ || ext == "gif"@ || ext == "svg"@ {
        plain(Color::LightMagenta)
    } else {
        plain(Color::White)
    }
}

fn style_for_ext_chars(e: &Vec<char>) -> (r: Style)
    ensures
        r == style_by_extension(e@),
{
    if ext_is(e, "rs") {
        Style { fg: Some(Color::LightBlue), bold: false }
    } else if ext_in(e, "toml", "yml", "yaml") || ext_is(e, "json") {
        Style { fg: Some(Color::LightRed), bold: false }
    } else if ext_in(e, "md", "txt", "txt") {
        Style { fg: Some(Color::LightYellow), bold: false }
    } else if ext_in(e, "ps1", "sh", "bat") {
        Style { fg: Some(Color::LightGreen), bold: false }
    } else if ext_in(e, "exe", "dll", "dll") {
        Style { fg: Some(Color::LightCyan), bold: false }
    } else if ext_in(e, "png", "jpg", "jpeg") || ext_in(e, "gif", "svg", "svg") {
        Style { fg: Some(Color::LightMagenta), bold: false }
    } else {
        Style { fg: Some(Color::White), bold: false }
    }
}

/// The colour of the file `name`, by the extension of its final component.
pub fn style_for_extension(name: &str) -> (r: Style)
    ensures
        r == style_by_extension(extension_or_empty(name@)),
{
    let ext = path_extension(name);
    let e = chars_of(ext.as_str());
    style_for_ext_chars(&e)
}

/// The colour of a list entry: yellow and bold for a zoxide suggestion, cyan
/// and bold for a directory, the file colour for a file.
pub open spec fn style_by_item(item: DirEntryItem) -> Style {
    if item.is_zoxide {
        bold(Color::Yellow)
    } else if item.is_dir {
        bold(Color::Cyan)
    } else {
        style_by_extension(extension_or_empty(item.display@))
    }
}

/// The colour of a list entry.
pub fn style_for_item(item: &DirEntryItem) -> (r: Style)
    ensures
        r == style_by_item(*item),
{
    if item.is_zoxide {
        return Style { fg: Some(Color::Yellow), bold: true };
    }
    if item.is_dir {
        return Style { fg: Some(Color::Cyan), bold: true };
    }
    style_for_extension(item.display.as_str())
}

/// The colour the list panel draws an entry in (the same as
/// `style_for_item`).
pub fn style_for(item: &DirEntryItem) -> (r: Style)
    ensures
        r == style_by_item(*item),
{
    style_for_item(item)
}

} // verus!

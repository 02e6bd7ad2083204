//! What the panels show: the decisions of the drawing, apart from the
//! drawing itself (which is the caller's, with a terminal library).
use vstd::prelude::*;

use crate::app::{App, Mode};
use crate::grep::{decimal, decimal_chars};
use crate::icons::{icon_for, list_icon_by_item, style_by_item, style_for, Style};
use crate::paths::{display_path_with_home, display_with_home, opt_str_view};
use crate::text::{append_chars, append_str, string_from_chars};
use crate::walker::DirEntryItem;

verus! {

/// Whether the panels are drawn in a centred popup: on a terminal of at
/// least 80 columns and 24 rows.
pub fn should_use_popup(width: u16, height: u16) -> (r: bool)
    ensures
        r == (width >= 80 && height >= 24),
{
    width >= 80 && height >= 24
}

/// The popup's width and height for a terminal of `width` by `height` and
/// the configured percentages: the percentage of each, at most 120 columns
/// and 40 rows; and its place, centred.
pub open spec fn popup_rect(width: u16, height: u16, width_pct: u16, height_pct: u16) -> (u16, u16, u16, u16) {
    let w = if width * width_pct / 100 < 120 {
        (width * width_pct / 100) as u16
    } else {
        120u16
    };
    let h = if height * height_pct / 100 < 40 {
        (height * height_pct / 100) as u16
    } else {
        40u16
    };
    (((width - w) / 2) as u16, ((height - h) / 2) as u16, w, h)
}

/// The popup's place and size `(x, y, width, height)`. The popup's size is
/// `width_pct` and `height_pct` percent of the terminal, at most 120 by 40,
/// and must fit in the terminal.
pub fn popup_area(width: u16, height: u16, width_pct: u16, height_pct: u16) -> (r: (u16, u16, u16, u16))
    requires
        width * width_pct <= u16::MAX,
        height * height_pct <= u16::MAX,
        popup_rect(width, height, width_pct, height_pct).2 <= width,
        popup_rect(width, height, width_pct, height_pct).3 <= height,
    ensures
        r == popup_rect(width, height, width_pct, height_pct),
{
    let ws = width * width_pct / 100;
    let hs = height * height_pct / 100;
    let w = if ws < 120 {
        ws
    } else {
        120
    };
    let h = if hs < 40 {
        hs
    } else {
        40
    };
    ((width - w) / 2, (height - h) / 2, w, h)
}

/// The name of a mode as the status line shows it.
pub open spec fn mode_name(mode: Mode) -> Seq<char> {
    match mode {
        Mode::Find => "Find"@,
        Mode::Search => "Search"@,
        Mode::Grep => "Grep"@,
    }
}

pub open spec fn check_mark(on: bool) -> Seq<char> {
    if on {
        "✓"@
    } else {
        "✗"@
    }
}

/// The search configuration line: the mode and whether dotfiles and the
/// Windows system directories are shown.
pub open spec fn status_line(mode: Mode, show_dotfiles: bool, show_winhidden: bool) -> Seq<char> {
    " "@ + mode_name(mode) + " | dotfiles: "@ + check_mark(show_dotfiles) + " | WinHidden: "@ + check_mark(show_winhidden)
}

/// The search configuration line of the navigator.
pub fn status_text(mode: Mode, show_dotfiles: bool, show_winhidden: bool) -> (r: String)
    ensures
        r@ == status_line(mode, show_dotfiles, show_winhidden),
{
    let mut v: Vec<char> = Vec::new();
    append_str(&mut v, " ");
    match mode {
        Mode::Find => append_str(&mut v, "Find"),
        Mode::Search => append_str(&mut v, "Search"),
        Mode::Grep => append_str(&mut v, "Grep"),
    }
    append_str(&mut v, " | dotfiles: ");
    if show_dotfiles {
        append_str(&mut v, "✓");
    } else {
        append_str(&mut v, "✗");
    }
    append_str(&mut v, " | WinHidden: ");
    if show_winhidden {
        append_str(&mut v, "✓");
    } else {
        append_str(&mut v, "✗");
    }
    string_from_chars(v.as_slice())
}

/// The frames of the busy spinner.
pub open spec fn spinner_frames() -> Seq<&'static str> {
    seq!["⠋", "⠙", "⠹", "⠸", "⠼", "⠴", "⠦", "⠧", "⠇", "⠏"]
}

/// The spinner shown at frame `tick`: a frame that changes every third tick
/// while something is being searched, nothing otherwise.
pub fn spinner_frame(busy: bool, tick: u64) -> (r: &'static str)
    ensures
        busy ==> r == spinner_frames()[((tick / 3) % 10) as int],
        !busy ==> r == "",
{
    if !busy {
        return "";
    }
    let k = (tick / 3) % 10;
    if k == 0 {
        "⠋"
    } else if k == 1 {
        "⠙"
    } else if k == 2 {
        "⠹"
    } else if k == 3 {
        "⠸"
    } else if k == 4 {
        "⠼"
    } else if k == 5 {
        "⠴"
    } else if k == 6 {
        "⠦"
    } else if k == 7 {
        "⠧"
    } else if k == 8 {
        "⠇"
    } else {
        "⠏"
    }
}

/// The two lines of the key legend of a mode.
pub open spec fn legend_of(mode: Mode) -> Seq<Seq<char>> {
    let keys = "Ctrl+A (.) | Ctrl+W (h) | Ctrl+E (settings) | Ctrl+C (quit)"@;
    match mode {
        Mode::Find => seq!["Enter (cd) | Esc (..) | Esc² (~) | Tab (Search) | Ctrl+Enter (explorer)"@, keys],
        Mode::Search => seq!["Enter (open) | Esc (..) | Esc² (~) | Tab (Grep)"@, keys],
        Mode::Grep => seq!["Enter (cd parent) | Esc (..) | Esc² (~) | Tab (Find)"@, keys],
    }
}

pub open spec fn texts_view(v: Seq<String>) -> Seq<Seq<char>> {
    v.map_values(|s: String| s@)
}

fn indented(s: &str) -> (r: String)
    ensures
        r@ == "  "@ + s@,
{
    let mut v: Vec<char> = Vec::new();
    append_str(&mut v, "  ");
    append_str(&mut v, s);
    string_from_chars(v.as_slice())
}

/// The lines of the key legend, each indented by two spaces.
pub fn legend_lines(mode: Mode) -> (r: Vec<String>)
    ensures
        texts_view(r@) == legend_of(mode).map_values(|l: Seq<char>| "  "@ + l),
{
    let first = match mode {
        Mode::Find => "Enter (cd) | Esc (..) | Esc² (~) | Tab (Search) | Ctrl+Enter (explorer)",
        Mode::Search => "Enter (open) | Esc (..) | Esc² (~) | Tab (Grep)",
        Mode::Grep => "Enter (cd parent) | Esc (..) | Esc² (~) | Tab (Find)",
    };
    let mut v: Vec<String> = Vec::new();
    v.push(indented(first));
    v.push(indented("Ctrl+A (.) | Ctrl+W (h) | Ctrl+E (settings) | Ctrl+C (quit)"));
    assert(texts_view(v@) =~= legend_of(mode).map_values(|l: Seq<char>| "  "@ + l));
    v
}

/// The count in the title of the list: ` shown/total `.
pub fn list_count_title(shown: usize, total: usize) -> (r: String)
    ensures
        r@ == " "@ + decimal(shown as nat) + "/"@ + decimal(total as nat) + " "@,
{
    let mut v: Vec<char> = Vec::new();
    append_str(&mut v, " ");
    append_chars(&mut v, decimal_chars(shown as u64).as_slice());
    append_str(&mut v, "/");
    append_chars(&mut v, decimal_chars(total as u64).as_slice());
    append_str(&mut v, " ");
    string_from_chars(v.as_slice())
}

/// A row of the list: the entry's icon and what it shows, in its colour.
pub fn list_row(item: &DirEntryItem) -> (r: (String, Style))
    ensures
        r.0@ == list_icon_by_item(*item)@ + " "@ + item.display@,
        r.1 == style_by_item(*item),
{
    let mut v: Vec<char> = Vec::new();
    append_str(&mut v, icon_for(item));
    append_str(&mut v, " ");
    append_str(&mut v, item.display.as_str());
    (string_from_chars(v.as_slice()), style_for(item))
}

/// The rows of the list: the entries at the list's indices, in order
/// (indices past the entries are skipped).
pub open spec fn shown_items(filtered: Seq<usize>, items: Seq<DirEntryItem>) -> Seq<DirEntryItem>
    decreases filtered.len(),
{
    if filtered.len() == 0 {
        Seq::empty()
    } else {
        let prev = shown_items(filtered.drop_last(), items);
        if filtered.last() < items.len() {
            prev.push(items[filtered.last() as int])
        } else {
            prev
        }
    }
}

/// The rows of the list of the navigator.
pub fn list_rows(app: &App) -> (r: Vec<(String, Style)>)
    ensures
        r@.len() == shown_items(app.filtered_indices@, app.items@).len(),
        forall|k: int|
            0 <= k < r@.len() ==> {
                let item = #[trigger] shown_items(app.filtered_indices@, app.items@)[k];
                r@[k].0@ == list_icon_by_item(item)@ + " "@ + item.display@ && r@[k].1 == style_by_item(item)
            },
{
    let mut out: Vec<(String, Style)> = Vec::new();
    let mut i: usize = 0;
    while i < app.filtered_indices.len()
        invariant
            i <= app.filtered_indices@.len(),
            out@.len() == shown_items(app.filtered_indices@.take(i as int), app.items@).len(),
            forall|k: int|
                0 <= k < out@.len() ==> {
                    let item = #[trigger] shown_items(app.filtered_indices@.take(i as int), app.items@)[k];
                    out@[k].0@ == list_icon_by_item(item)@ + " "@ + item.display@ && out@[k].1 == style_by_item(item)
                },
        decreases app.filtered_indices.len() - i,
    {
        let idx = app.filtered_indices[i];
        proof {
            assert(app.filtered_indices@.take(i + 1).drop_last() =~= app.filtered_indices@.take(i as int));
        }
        if idx < app.items.len() {
            let row = list_row(&app.items[idx]);
            out.push(row);
        }
        i = i + 1;
    }
    assert(app.filtered_indices@.take(app.filtered_indices@.len() as int) =~= app.filtered_indices@);
    out
}

/// How long ago something was modified, `secs` seconds ago: in minutes
/// below an hour, in hours below a day, in days otherwise.
pub open spec fn age_text(secs: u64) -> Seq<char> {
    if secs < 3600 {
        decimal((secs / 60) as nat) + "m ago"@
    } else if secs < 86400 {
        decimal((secs / 3600) as nat) + "h ago"@
    } else {
        decimal((secs / 86400) as nat) + "d ago"@
    }
}

/// The age shown in the info panel.
pub fn age_label(secs: u64) -> (r: String)
    ensures
        r@ == age_text(secs),
{
    let mut v: Vec<char> = Vec::new();
    if secs < 3600 {
        append_chars(&mut v, decimal_chars(secs / 60).as_slice());
        append_str(&mut v, "m ago");
    } else if secs < 86400 {
        append_chars(&mut v, decimal_chars(secs / 3600).as_slice());
        append_str(&mut v, "h ago");
    } else {
        append_chars(&mut v, decimal_chars(secs / 86400).as_slice());
        append_str(&mut v, "d ago");
    }
    string_from_chars(v.as_slice())
}

/// The scroll of the preview that keeps the selected line `line` in view of
/// `visible` lines: scrolled just far enough down when it is below, up to it
/// when it is above, unchanged when it is in view.
pub fn autoscroll(scroll: u64, line: u64, visible: u64) -> (r: u64)
    requires
        scroll + visible <= u64::MAX,
        line < u64::MAX,
    ensures
        r == (if line >= scroll + visible {
            (if line >= visible {
                line - visible
            } else {
                0
            }) + 1
        } else if line < scroll {
            line as int
        } else {
            scroll as int
        }),
        scroll <= line < scroll + visible ==> r == scroll,
        visible > 0 ==> r <= line < r + visible,
{
    if line >= scroll + visible {
        line.saturating_sub(visible) + 1
    } else if line < scroll {
        line
    } else {
        scroll
    }
}

/// The path the status line shows: the directory Grep searches in Grep
/// mode, the current directory otherwise, with `~` for the home directory
/// `home`.
pub fn status_path(app: &App, home: Option<&str>) -> (r: String)
    ensures
        r@ == display_with_home(
            if app.mode == Mode::Grep {
                app.grep_search_root@
            } else {
                app.current_dir@
            },
            opt_str_view(home),
        ),
{
    if app.mode == Mode::Grep {
        display_path_with_home(app.grep_search_root.as_str(), home)
    } else {
        display_path_with_home(app.current_dir.as_str(), home)
    }
}

} // verus!

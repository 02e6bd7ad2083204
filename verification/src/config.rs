//! The configuration: its raw form as the configuration file holds it, the
//! defaults every missing setting takes, and the resolved form the rest of the
//! library reads.
use vstd::prelude::*;

use crate::keys::{parse_key_spec, Keybindings, KeybindingsRaw};

verus! {

/// An entry of the tool selector: the name shown and the command run.
pub struct ToolEntry {
    pub name: String,
    pub command: String,
}

impl Clone for ToolEntry {
    fn clone(&self) -> (r: Self)
        ensures
            r == *self,
    {
        ToolEntry { name: self.name.clone(), command: self.command.clone() }
    }
}

pub open spec fn strings_view(v: Seq<String>) -> Seq<Seq<char>> {
    v.map_values(|s: String| s@)
}

pub open spec fn tools_view(v: Seq<ToolEntry>) -> Seq<(Seq<char>, Seq<char>)> {
    v.map_values(|t: ToolEntry| (t.name@, t.command@))
}

fn tool(name: &str) -> (t: ToolEntry)
    ensures
        t.name@ == name@,
        t.command@ == name@,
{
    ToolEntry { name: String::from_str(name), command: String::from_str(name) }
}

/// The tools offered by default: yazi, nvim, opencode and lazygit, each run
/// by its own name.
pub fn default_tool_selector() -> (r: Vec<ToolEntry>)
    ensures
        tools_view(r@) == seq![
            ("yazi"@, "yazi"@),
            ("nvim"@, "nvim"@),
            ("opencode"@, "opencode"@),
            ("lazygit"@, "lazygit"@),
        ],
{
    let mut v: Vec<ToolEntry> = Vec::new();
    v.push(tool("yazi"));
    v.push(tool("nvim"));
    v.push(tool("opencode"));
    v.push(tool("lazygit"));
    assert(tools_view(v@) =~= seq![
        ("yazi"@, "yazi"@),
        ("nvim"@, "nvim"@),
        ("opencode"@, "opencode"@),
        ("lazygit"@, "lazygit"@),
    ]);
    v
}

pub fn default_80() -> (r: u16)
    ensures
        r == 80,
{
    80
}

pub fn default_5() -> (r: usize)
    ensures
        r == 5,
{
    5
}

pub fn default_6() -> (r: usize)
    ensures
        r == 6,
{
    6
}

pub fn default_80_grep() -> (r: u64)
    ensures
        r == 80,
{
    80
}

pub fn default_50_find() -> (r: u64)
    ensures
        r == 50,
{
    50
}

fn strings_from(items: &[&str]) -> (r: Vec<String>)
    ensures
        strings_view(r@) == items@.map_values(|s: &str| s@),
{
    let mut r: Vec<String> = Vec::new();
    let mut i: usize = 0;
    while i < items.len()
        invariant
            i <= items@.len(),
            strings_view(r@) == items@.take(i as int).map_values(|s: &str| s@),
        decreases items.len() - i,
    {
        let s = String::from_str(items[i]);
        proof {
            assert(strings_view(r@.push(s)) =~= strings_view(r@).push(s@));
            assert(items@.take(i + 1).map_values(|s: &str| s@) =~= items@.take(i as int).map_values(
                |s: &str| s@,
            ).push(items@[i as int]@));
            assert(strings_view(r@.push(s)) =~= items@.take(i + 1).map_values(|s: &str| s@));
        }
        r.push(s);
        i = i + 1;
    }
    assert(items@.take(items@.len() as int) =~= items@);
    r
}

pub open spec fn default_priority_roots_spec() -> Seq<Seq<char>> {
    seq!["dev"@, ".config"@]
}

pub open spec fn default_exclude_dirs_spec() -> Seq<Seq<char>> {
    seq![
        "node_modules"@,
        ".git"@,
        ".cache"@,
        "cache"@,
        "licenses"@,
        "vendor"@,
        "target"@,
        "build"@,
        "dist"@,
        "Modules"@,
        "modules"@,
        "lib"@,
        "platform"@,
    ]
}

pub open spec fn default_exclude_win_dirs_spec() -> Seq<Seq<char>> {
    seq!["AppData"@, "ProgramData"@]
}

pub open spec fn default_exclude_path_globs_spec() -> Seq<Seq<char>> {
    seq!["**/go/pkg/mod"@]
}

/// The roots searched first by the global search: `dev` and `.config`.
pub fn default_priority_roots() -> (r: Vec<String>)
    ensures
        strings_view(r@) == default_priority_roots_spec(),
{
    let items: [&str; 2] = ["dev", ".config"];
    let r = strings_from(&items);
    assert(items@.map_values(|s: &str| s@) =~= default_priority_roots_spec());
    r
}

/// The directory names never listed or searched.
pub fn default_exclude_dirs() -> (r: Vec<String>)
    ensures
        strings_view(r@) == default_exclude_dirs_spec(),
{
    let items: [&str; 13] = [
        "node_modules",
        ".git",
        ".cache",
        "cache",
        "licenses",
        "vendor",
        "target",
        "build",
        "dist",
        "Modules",
        "modules",
        "lib",
        "platform",
    ];
    let r = strings_from(&items);
    assert(items@.map_values(|s: &str| s@) =~= default_exclude_dirs_spec());
    r
}

/// The Windows directories hidden unless WinHidden is on.
pub fn default_exclude_win_dirs() -> (r: Vec<String>)
    ensures
        strings_view(r@) == default_exclude_win_dirs_spec(),
{
    let items: [&str; 2] = ["AppData", "ProgramData"];
    let r = strings_from(&items);
    assert(items@.map_values(|s: &str| s@) =~= default_exclude_win_dirs_spec());
    r
}

/// The path patterns the content search leaves out.
pub fn default_exclude_path_globs() -> (r: Vec<String>)
    ensures
        strings_view(r@) == default_exclude_path_globs_spec(),
{
    let items: [&str; 1] = ["**/go/pkg/mod"];
    let r = strings_from(&items);
    assert(items@.map_values(|s: &str| s@) =~= default_exclude_path_globs_spec());
    r
}

/// The configuration as the file holds it; a setting missing from the file
/// takes its default.
pub struct ConfigRaw {
    pub show_dotfiles: bool,
    pub show_winhidden: bool,
    pub popup_width_pct: u16,
    pub popup_height_pct: u16,
    pub zoxide_limit: usize,
    pub grep_debounce_ms: u64,
    pub find_debounce_ms: u64,
    pub grep_max_depth: usize,
    pub priority_roots: Vec<String>,
    pub max_priority_depth: usize,
    pub max_secondary_depth: usize,
    pub exclude_dirs: Vec<String>,
    pub exclude_win_dirs: Vec<String>,
    pub exclude_path_globs: Vec<String>,
    pub keys: KeybindingsRaw,
    pub tool_selector: Vec<ToolEntry>,
}

impl ConfigRaw {
    /// Every setting at its default.
    pub open spec fn is_default(self) -> bool {
        &&& !self.show_dotfiles
        &&& !self.show_winhidden
        &&& self.popup_width_pct == 80
        &&& self.popup_height_pct == 80
        &&& self.zoxide_limit == 5
        &&& self.grep_debounce_ms == 80
        &&& self.find_debounce_ms == 50
        &&& self.grep_max_depth == 5
        &&& strings_view(self.priority_roots@) == default_priority_roots_spec()
        &&& self.max_priority_depth == 6
        &&& self.max_secondary_depth == 5
        &&& strings_view(self.exclude_dirs@) == default_exclude_dirs_spec()
        &&& strings_view(self.exclude_win_dirs@) == default_exclude_win_dirs_spec()
        &&& strings_view(self.exclude_path_globs@) == default_exclude_path_globs_spec()
        &&& self.keys.is_default()
        &&& tools_view(self.tool_selector@) == seq![
            ("yazi"@, "yazi"@),
            ("nvim"@, "nvim"@),
            ("opencode"@, "opencode"@),
            ("lazygit"@, "lazygit"@),
        ]
    }
}

impl Default for ConfigRaw {
    fn default() -> (r: Self)
        ensures
            r.is_default(),
    {
        ConfigRaw {
            show_dotfiles: false,
            show_winhidden: false,
            popup_width_pct: 80,
            popup_height_pct: 80,
            zoxide_limit: 5,
            grep_debounce_ms: 80,
            find_debounce_ms: 50,
            grep_max_depth: 5,
            priority_roots: default_priority_roots(),
            max_priority_depth: 6,
            max_secondary_depth: 5,
            exclude_dirs: default_exclude_dirs(),
            exclude_win_dirs: default_exclude_win_dirs(),
            exclude_path_globs: default_exclude_path_globs(),
            keys: KeybindingsRaw::default(),
            tool_selector: default_tool_selector(),
        }
    }
}

/// The resolved configuration: the raw settings with the key bindings parsed.
pub struct Config {
    pub show_dotfiles: bool,
    pub show_winhidden: bool,
    pub popup_width_pct: u16,
    pub popup_height_pct: u16,
    pub zoxide_limit: usize,
    pub grep_debounce_ms: u64,
    pub find_debounce_ms: u64,
    pub grep_max_depth: usize,
    pub priority_roots: Vec<String>,
    pub max_priority_depth: usize,
    pub max_secondary_depth: usize,
    pub exclude_dirs: Vec<String>,
    pub exclude_win_dirs: Vec<String>,
    pub exclude_path_globs: Vec<String>,
    pub keys: Keybindings,
    pub tool_selector: Vec<ToolEntry>,
}

/// The resolved form of a raw configuration: every setting carried over, each
/// key binding parsed.
pub open spec fn resolves_to(r: ConfigRaw, c: Config) -> bool {
    &&& c.show_dotfiles == r.show_dotfiles
    &&& c.show_winhidden == r.show_winhidden
    &&& c.popup_width_pct == r.popup_width_pct
    &&& c.popup_height_pct == r.popup_height_pct
    &&& c.zoxide_limit == r.zoxide_limit
    &&& c.grep_debounce_ms == r.grep_debounce_ms
    &&& c.find_debounce_ms == r.find_debounce_ms
    &&& c.grep_max_depth == r.grep_max_depth
    &&& c.priority_roots == r.priority_roots
    &&& c.max_priority_depth == r.max_priority_depth
    &&& c.max_secondary_depth == r.max_secondary_depth
    &&& c.exclude_dirs == r.exclude_dirs
    &&& c.exclude_win_dirs == r.exclude_win_dirs
    &&& c.exclude_path_globs == r.exclude_path_globs
    &&& c.keys.quit == parse_key_spec(r.keys.quit@)
    &&& c.keys.toggle_dotfiles == parse_key_spec(r.keys.toggle_dotfiles@)
    &&& c.keys.toggle_winhidden == parse_key_spec(r.keys.toggle_winhidden@)
    &&& c.keys.open_settings == parse_key_spec(r.keys.open_settings@)
    &&& c.keys.switch_mode == parse_key_spec(r.keys.switch_mode@)
    &&& c.keys.open_explorer == parse_key_spec(r.keys.open_explorer@)
    &&& c.keys.go_home == parse_key_spec(r.keys.go_home@)
    &&& c.tool_selector == r.tool_selector
}

impl Config {
    /// Resolves a raw configuration.
    pub fn from_raw(r: ConfigRaw) -> (c: Config)
        ensures
            resolves_to(r, c),
    {
        let keys = Keybindings::from_raw(&r.keys);
        Config {
            show_dotfiles: r.show_dotfiles,
            show_winhidden: r.show_winhidden,
            popup_width_pct: r.popup_width_pct,
            popup_height_pct: r.popup_height_pct,
            zoxide_limit: r.zoxide_limit,
            grep_debounce_ms: r.grep_debounce_ms,
            find_debounce_ms: r.find_debounce_ms,
            grep_max_depth: r.grep_max_depth,
            priority_roots: r.priority_roots,
            max_priority_depth: r.max_priority_depth,
            max_secondary_depth: r.max_secondary_depth,
            exclude_dirs: r.exclude_dirs,
            exclude_win_dirs: r.exclude_win_dirs,
            exclude_path_globs: r.exclude_path_globs,
            keys,
            tool_selector: r.tool_selector,
        }
    }

    /// The configuration with every setting at its default.
    pub fn defaults() -> (c: Config)
        ensures
            exists|r: ConfigRaw| r.is_default() && resolves_to(r, c),
    {
        let r = ConfigRaw::default();
        let ghost rg = r;
        let c = Config::from_raw(r);
        assert(rg.is_default() && resolves_to(rg, c));
        c
    }
}

} // verus!

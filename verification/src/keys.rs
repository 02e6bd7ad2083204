//! Keybindings: the textual form used in the configuration (`"ctrl+shift+q"`),
//! its parse into a key and modifiers, and the lookup of the action bound to a
//! key press.
use vstd::prelude::*;

use crate::text::{
    all_ascii, all_white_space, ascii_lower, ascii_upper, chars_eq, chars_of, is_ascii_char,
    lemma_lower_of_upper, lemma_trim_ascii, lemma_trim_end_after, lemma_trim_start_after_white,
    lemma_trim_upper, lemma_trim_with_white_after, lemma_upper_ascii, no_white_space,
    spec_is_whitespace, spec_to_lowercase, str_to_lowercase, string_from_chars, trim, trim_chars,
    trim_end, trim_start, views_of,
};

verus! {

/// A key, as the bindings and the input handling tell keys apart. `Other`
/// stands for every key that neither names.
#[derive(Debug, Clone, Copy, PartialEq, Eq, Structural)]
pub enum KeyCode {
    Tab,
    Enter,
    Esc,
    Char(char),
    Backspace,
    Home,
    End,
    PageUp,
    PageDown,
    Insert,
    Delete,
    Up,
    Down,
    Left,
    Right,
    Null,
    Other,
}

/// The modifier keys held with a key.
#[derive(Debug, Clone, Copy, PartialEq, Eq, Structural)]
pub struct KeyModifiers {
    pub shift: bool,
    pub control: bool,
    pub alt: bool,
    pub super_key: bool,
    pub hyper: bool,
    pub meta: bool,
}

impl KeyModifiers {
    pub open spec fn spec_none() -> KeyModifiers {
        KeyModifiers {
            shift: false,
            control: false,
            alt: false,
            super_key: false,
            hyper: false,
            meta: false,
        }
    }

    /// No modifier held.
    pub fn none() -> (r: KeyModifiers)
        ensures
            r == Self::spec_none(),
    {
        KeyModifiers {
            shift: false,
            control: false,
            alt: false,
            super_key: false,
            hyper: false,
            meta: false,
        }
    }

    /// Control alone.
    pub fn control() -> (r: KeyModifiers)
        ensures
            r == (KeyModifiers { control: true, ..Self::spec_none() }),
    {
        KeyModifiers { control: true, ..Self::none() }
    }

    /// Shift alone.
    pub fn shift() -> (r: KeyModifiers)
        ensures
            r == (KeyModifiers { shift: true, ..Self::spec_none() }),
    {
        KeyModifiers { shift: true, ..Self::none() }
    }

    pub open spec fn spec_contains(self, other: KeyModifiers) -> bool {
        &&& other.shift ==> self.shift
        &&& other.control ==> self.control
        &&& other.alt ==> self.alt
        &&& other.super_key ==> self.super_key
        &&& other.hyper ==> self.hyper
        &&& other.meta ==> self.meta
    }

    /// Whether every modifier of `other` is held in `self`.
    pub fn contains(&self, other: KeyModifiers) -> (r: bool)
        ensures
            r == self.spec_contains(other),
    {
        (!other.shift || self.shift) && (!other.control || self.control) && (!other.alt
            || self.alt) && (!other.super_key || self.super_key) && (!other.hyper || self.hyper)
            && (!other.meta || self.meta)
    }
}

/// A key together with the modifiers that must be held with it.
#[derive(Debug, Clone, Copy, PartialEq, Eq, Structural)]
pub struct KeyBind {
    pub code: KeyCode,
    pub modifiers: KeyModifiers,
}

/// A key press.
#[derive(Debug, Clone, Copy, PartialEq, Eq, Structural)]
pub struct KeyEvent {
    pub code: KeyCode,
    pub modifiers: KeyModifiers,
}

impl KeyEvent {
    pub fn new(code: KeyCode, modifiers: KeyModifiers) -> (r: KeyEvent)
        ensures
            r.code == code,
            r.modifiers == modifiers,
    {
        KeyEvent { code, modifiers }
    }
}

/// The keys bound to the configurable actions.
#[derive(Debug, Clone, Copy, PartialEq, Eq, Structural)]
pub struct Keybindings {
    pub quit: KeyBind,
    pub toggle_dotfiles: KeyBind,
    pub toggle_winhidden: KeyBind,
    pub open_settings: KeyBind,
    pub switch_mode: KeyBind,
    pub open_explorer: KeyBind,
    pub go_home: KeyBind,
}

/// The bindings in the textual form of the configuration file.
pub struct KeybindingsRaw {
    pub quit: String,
    pub toggle_dotfiles: String,
    pub toggle_winhidden: String,
    pub open_settings: String,
    pub switch_mode: String,
    pub open_explorer: String,
    pub go_home: String,
}

pub fn default_k_quit() -> (r: String)
    ensures
        r@ == "ctrl+c"@,
{
    String::from_str("ctrl+c")
}

pub fn default_k_toggle_dotfiles() -> (r: String)
    ensures
        r@ == "ctrl+h"@,
{
    String::from_str("ctrl+h")
}

pub fn default_k_toggle_winhidden() -> (r: String)
    ensures
        r@ == "ctrl+w"@,
{
    String::from_str("ctrl+w")
}

pub fn default_k_open_settings() -> (r: String)
    ensures
        r@ == "ctrl+e"@,
{
    String::from_str("ctrl+e")
}

pub fn default_k_switch_mode() -> (r: String)
    ensures
        r@ == "tab"@,
{
    String::from_str("tab")
}

pub fn default_k_open_explorer() -> (r: String)
    ensures
        r@ == "ctrl+o"@,
{
    String::from_str("ctrl+o")
}

pub fn default_k_go_home() -> (r: String)
    ensures
        r@ == Seq::<char>::empty(),
{
    String::new()
}

impl KeybindingsRaw {
    pub open spec fn is_default(self) -> bool {
        &&& self.quit@ == "ctrl+c"@
        &&& self.toggle_dotfiles@ == "ctrl+h"@
        &&& self.toggle_winhidden@ == "ctrl+w"@
        &&& self.open_settings@ == "ctrl+e"@
        &&& self.switch_mode@ == "tab"@
        &&& self.open_explorer@ == "ctrl+o"@
        &&& self.go_home@ == Seq::<char>::empty()
    }
}

impl Default for KeybindingsRaw {
    fn default() -> (r: Self)
        ensures
            r.is_default(),
    {
        KeybindingsRaw {
            quit: default_k_quit(),
            toggle_dotfiles: default_k_toggle_dotfiles(),
            toggle_winhidden: default_k_toggle_winhidden(),
            open_settings: default_k_open_settings(),
            switch_mode: default_k_switch_mode(),
            open_explorer: default_k_open_explorer(),
            go_home: default_k_go_home(),
        }
    }
}

// ---------------------------------------------------------------------------
// Parsing a binding
// ---------------------------------------------------------------------------

/// `str::split('+')`, continued from the partial piece `cur`.
pub open spec fn split_plus_from(s: Seq<char>, cur: Seq<char>) -> Seq<Seq<char>>
    decreases s.len(),
{
    if s.len() == 0 {
        seq![cur]
    } else if s[0] == '+' {
        seq![cur] + split_plus_from(s.drop_first(), Seq::empty())
    } else {
        split_plus_from(s.drop_first(), cur.push(s[0]))
    }
}

/// The pieces of `s` between `+` signs (`str::split('+')`): never empty.
pub open spec fn split_plus(s: Seq<char>) -> Seq<Seq<char>> {
    split_plus_from(s, Seq::empty())
}

proof fn lemma_split_plus_nonempty(s: Seq<char>, cur: Seq<char>)
    ensures
        split_plus_from(s, cur).len() >= 1,
    decreases s.len(),
{
    if s.len() > 0 {
        lemma_split_plus_nonempty(s.drop_first(), if s[0] == '+' { Seq::empty() } else { cur.push(s[0]) });
    }
}

/// The pieces of `v` between `+` signs.
pub fn split_plus_chars(v: &[char]) -> (r: Vec<Vec<char>>)
    ensures
        views_of(r@) == split_plus(v@),
        r@.len() >= 1,
{
    let mut out: Vec<Vec<char>> = Vec::new();
    let mut cur: Vec<char> = Vec::new();
    let mut i: usize = 0;
    assert(v@.skip(0) =~= v@);
    assert(views_of(out@) + split_plus(v@) =~= split_plus(v@));
    while i < v.len()
        invariant
            i <= v@.len(),
            views_of(out@) + split_plus_from(v@.skip(i as int), cur@) == split_plus(v@),
        decreases v.len() - i,
    {
        assert(v@.skip(i as int).drop_first() =~= v@.skip(i + 1));
        assert(v@.skip(i as int)[0] == v@[i as int]);
        if v[i] == '+' {
            proof {
                assert(views_of(out@.push(cur)) =~= views_of(out@) + seq![cur@]);
            }
            out.push(cur);
            cur = Vec::new();
        } else {
            cur.push(v[i]);
        }
        i = i + 1;
    }
    assert(v@.skip(i as int) =~= Seq::<char>::empty());
    proof {
        assert(views_of(out@.push(cur)) =~= views_of(out@) + seq![cur@]);
        lemma_split_plus_nonempty(v@, Seq::empty());
    }
    out.push(cur);
    out
}

/// The key that a named key word stands for, if it is one.
pub open spec fn named_key(k: Seq<char>) -> Option<KeyCode> {
    if k == "tab"@ {
        Some(KeyCode::Tab)
    } else if k == "enter"@ {
        Some(KeyCode::Enter)
    } else if k == "esc"@ || k == "escape"@ {
        Some(KeyCode::Esc)
    } else if k == "space"@ {
        Some(KeyCode::Char(' '))
    } else if k == "backspace"@ || k == "bs"@ {
        Some(KeyCode::Backspace)
    } else if k == "home"@ {
        Some(KeyCode::Home)
    } else if k == "end"@ {
        Some(KeyCode::End)
    } else if k == "pageup"@ || k == "pgup"@ {
        Some(KeyCode::PageUp)
    } else if k == "pagedown"@ || k == "pgdn"@ {
        Some(KeyCode::PageDown)
    } else if k == "insert"@ || k == "ins"@ {
        Some(KeyCode::Insert)
    } else if k == "delete"@ || k == "del"@ {
        Some(KeyCode::Delete)
    } else if k == "up"@ {
        Some(KeyCode::Up)
    } else if k == "down"@ {
        Some(KeyCode::Down)
    } else if k == "left"@ {
        Some(KeyCode::Left)
    } else if k == "right"@ {
        Some(KeyCode::Right)
    } else if k == "null"@ {
        Some(KeyCode::Null)
    } else {
        None
    }
}

/// The key a (lowercased, trimmed) key word stands for: a named key, a
/// single one-byte character, or `Null` for anything else.
pub open spec fn key_code_of(k: Seq<char>) -> KeyCode {
    match named_key(k) {
        Some(c) => c,
        None => if k.len() == 1 && is_ascii_char(k[0]) {
            KeyCode::Char(k[0])
        } else {
            KeyCode::Null
        },
    }
}

/// Whether one of the first `n` words is `w1` or `w2`.
pub open spec fn has_word(parts: Seq<Seq<char>>, n: int, w1: Seq<char>, w2: Seq<char>) -> bool {
    exists|i: int| 0 <= i < n && (parts[i] == w1 || parts[i] == w2)
}

/// The modifiers that the words before the key word name; unknown words are
/// ignored.
pub open spec fn modifiers_of(parts: Seq<Seq<char>>) -> KeyModifiers {
    let n = parts.len() - 1;
    KeyModifiers {
        shift: has_word(parts, n, "shift"@, "shift"@),
        control: has_word(parts, n, "ctrl"@, "control"@),
        alt: has_word(parts, n, "alt"@, "alt"@),
        super_key: has_word(parts, n, "super"@, "win"@) || has_word(parts, n, "cmd"@, "cmd"@),
        hyper: has_word(parts, n, "hyper"@, "hyper"@),
        meta: has_word(parts, n, "meta"@, "meta"@),
    }
}

/// The binding that the words of a binding stand for: the last word is the
/// key, the words before it the modifiers.
pub open spec fn keybind_of_parts(parts: Seq<Seq<char>>) -> KeyBind {
    KeyBind {
        code: key_code_of(if parts.len() > 0 { parts.last() } else { Seq::empty() }),
        modifiers: modifiers_of(parts),
    }
}

/// What `parse_key` makes of a binding's text: trimmed and lowercased, split
/// at `+`, each word trimmed.
pub open spec fn parse_key_spec(s: Seq<char>) -> KeyBind {
    keybind_of_parts(
        split_plus(spec_to_lowercase(trim(s))).map_values(|p: Seq<char>| trim(p)),
    )
}

/// What `parse_key` makes of a binding's text made of ASCII characters
/// alone, whose lowercase is its ASCII lowercase.
pub open spec fn parse_key_ascii(s: Seq<char>) -> KeyBind {
    keybind_of_parts(split_plus(ascii_lower(trim(s))).map_values(|p: Seq<char>| trim(p)))
}

/// Whether `part` is the word `w`.
fn is_word(part: &[char], w: &str) -> (r: bool)
    ensures
        r == (part@ == w@),
{
    let wc = chars_of(w);
    chars_eq(part, wc.as_slice())
}

/// Whether `part` is `w1` or `w2`.
fn is_either(part: &[char], w1: &str, w2: &str) -> (r: bool)
    ensures
        r == (part@ == w1@ || part@ == w2@),
{
    is_word(part, w1) || is_word(part, w2)
}

/// The key a key word stands for.
pub fn key_code_of_word(k: &[char]) -> (r: KeyCode)
    ensures
        r == key_code_of(k@),
{
    if is_word(k, "tab") {
        KeyCode::Tab
    } else if is_word(k, "enter") {
        KeyCode::Enter
    } else if is_either(k, "esc", "escape") {
        KeyCode::Esc
    } else if is_word(k, "space") {
        KeyCode::Char(' ')
    } else if is_either(k, "backspace", "bs") {
        KeyCode::Backspace
    } else if is_word(k, "home") {
        KeyCode::Home
    } else if is_word(k, "end") {
        KeyCode::End
    } else if is_either(k, "pageup", "pgup") {
        KeyCode::PageUp
    } else if is_either(k, "pagedown", "pgdn") {
        KeyCode::PageDown
    } else if is_either(k, "insert", "ins") {
        KeyCode::Insert
    } else if is_either(k, "delete", "del") {
        KeyCode::Delete
    } else if is_word(k, "up") {
        KeyCode::Up
    } else if is_word(k, "down") {
        KeyCode::Down
    } else if is_word(k, "left") {
        KeyCode::Left
    } else if is_word(k, "right") {
        KeyCode::Right
    } else if is_word(k, "null") {
        KeyCode::Null
    } else if k.len() == 1 && (k[0] as u32) < 128 {
        KeyCode::Char(k[0])
    } else {
        KeyCode::Null
    }
}

/// The binding that already trimmed, lowercased words stand for.
pub fn keybind_from_parts(parts: &Vec<Vec<char>>) -> (r: KeyBind)
    ensures
        r == keybind_of_parts(views_of(parts@)),
{
    let ghost ps = views_of(parts@);
    let mut m = KeyModifiers::none();
    if parts.len() == 0 {
        let empty: Vec<char> = Vec::new();
        assert(views_of(parts@) =~= Seq::<Seq<char>>::empty());
        return KeyBind { code: key_code_of_word(empty.as_slice()), modifiers: m };
    }
    let n = parts.len() - 1;
    let mut i: usize = 0;
    while i < n
        invariant
            n + 1 == parts@.len(),
            ps == views_of(parts@),
            i <= n,
            m.shift == has_word(ps, i as int, "shift"@, "shift"@),
            m.control == has_word(ps, i as int, "ctrl"@, "control"@),
            m.alt == has_word(ps, i as int, "alt"@, "alt"@),
            m.super_key == (has_word(ps, i as int, "super"@, "win"@) || has_word(
                ps,
                i as int,
                "cmd"@,
                "cmd"@,
            )),
            m.hyper == has_word(ps, i as int, "hyper"@, "hyper"@),
            m.meta == has_word(ps, i as int, "meta"@, "meta"@),
        decreases n - i,
    {
        let p = parts[i].as_slice();
        assert(ps[i as int] == p@);
        if is_word(p, "shift") {
            m.shift = true;
        }
        if is_either(p, "ctrl", "control") {
            m.control = true;
        }
        if is_word(p, "alt") {
            m.alt = true;
        }
        if is_either(p, "super", "win") || is_word(p, "cmd") {
            m.super_key = true;
        }
        if is_word(p, "hyper") {
            m.hyper = true;
        }
        if is_word(p, "meta") {
            m.meta = true;
        }
        proof {
            let j = i as int;
            assert forall|w1: Seq<char>, w2: Seq<char>|
                has_word(ps, j + 1, w1, w2) == (has_word(ps, j, w1, w2) || ps[j] == w1 || ps[j]
                    == w2) by {
                if has_word(ps, j + 1, w1, w2) && !has_word(ps, j, w1, w2) {
                    let k = choose|k: int| 0 <= k < j + 1 && (ps[k] == w1 || ps[k] == w2);
                    assert(k == j);
                }
            }
        }
        i = i + 1;
    }
    let code = key_code_of_word(parts[n].as_slice());
    KeyBind { code, modifiers: m }
}

/// Parses a binding such as `"ctrl+shift+q"` or `"tab"`: the text is trimmed
/// and lowercased and split at `+`; the last word is the key and the words
/// before it name modifiers.
pub fn parse_key(s: &str) -> (r: KeyBind)
    ensures
        r == parse_key_spec(s@),
        all_ascii(s@) ==> r == parse_key_ascii(s@),
{
    let chars = chars_of(s);
    let trimmed = trim_chars(chars.as_slice());
    let trimmed_str = string_from_chars(trimmed.as_slice());
    proof {
        if all_ascii(s@) {
            lemma_trim_ascii(s@);
        }
    }
    let lowered = str_to_lowercase(trimmed_str.as_str());
    let lowered_chars = chars_of(lowered.as_str());
    let pieces = split_plus_chars(lowered_chars.as_slice());
    let mut parts: Vec<Vec<char>> = Vec::new();
    let mut i: usize = 0;
    while i < pieces.len()
        invariant
            i <= pieces@.len(),
            views_of(parts@) == views_of(pieces@).take(i as int).map_values(
                |p: Seq<char>| trim(p),
            ),
        decreases pieces.len() - i,
    {
        let t = trim_chars(pieces[i].as_slice());
        proof {
            assert(views_of(pieces@)[i as int] == pieces@[i as int]@);
            assert(views_of(parts@.push(t)) =~= views_of(parts@).push(t@));
            assert(views_of(pieces@).take(i + 1).map_values(|p: Seq<char>| trim(p)) =~= views_of(
                pieces@,
            ).take(i as int).map_values(|p: Seq<char>| trim(p)).push(trim(pieces@[i as int]@)));
            assert(views_of(parts@.push(t)) =~= views_of(pieces@).take(i + 1).map_values(
                |p: Seq<char>| trim(p),
            ));
        }
        parts.push(t);
        i = i + 1;
    }
    assert(views_of(pieces@).take(pieces@.len() as int) =~= views_of(pieces@));
    keybind_from_parts(&parts)
}

// ---------------------------------------------------------------------------
// Laws of the parse
// ---------------------------------------------------------------------------

/// White space around a binding's text changes nothing: `"  ctrl+q  "`
/// binds what `"ctrl+q"` binds.
pub proof fn law_parse_key_ignores_outer_space(s: Seq<char>, w1: Seq<char>, w2: Seq<char>)
    requires
        all_white_space(w1),
        all_white_space(w2),
    ensures
        parse_key_spec(w1 + s + w2) == parse_key_spec(s),
{
    assert(w1 + s + w2 =~= w1 + (s + w2));
    lemma_trim_start_after_white(w1, s + w2);
    lemma_trim_with_white_after(s, w2);
}

/// Case does not matter in a binding made of ASCII characters: its upper
/// case binds what it binds.
pub proof fn law_parse_key_ignores_case(s: Seq<char>)
    requires
        all_ascii(s),
    ensures
        all_ascii(ascii_upper(s)),
        parse_key_ascii(ascii_upper(s)) == parse_key_ascii(s),
{
    lemma_upper_ascii(s);
    lemma_trim_upper(s);
    lemma_lower_of_upper(trim(s));
}

/// Whether `s` holds no `+`.
pub open spec fn no_plus(s: Seq<char>) -> bool {
    forall|i: int| 0 <= i < s.len() ==> #[trigger] s[i] != '+'
}

proof fn lemma_split_no_plus(a: Seq<char>, cur: Seq<char>)
    requires
        no_plus(a),
    ensures
        split_plus_from(a, cur) == seq![cur + a],
    decreases a.len(),
{
    if a.len() > 0 {
        lemma_split_no_plus(a.drop_first(), cur.push(a[0]));
        assert(cur.push(a[0]) + a.drop_first() =~= cur + a);
    } else {
        assert(cur + a =~= cur);
    }
}

proof fn lemma_split_plus_then(a: Seq<char>, b: Seq<char>, cur: Seq<char>)
    requires
        no_plus(a),
    ensures
        split_plus_from(a + seq!['+'] + b, cur) == seq![cur + a] + split_plus_from(b, Seq::empty()),
    decreases a.len(),
{
    if a.len() > 0 {
        assert((a + seq!['+'] + b).drop_first() =~= a.drop_first() + seq!['+'] + b);
        assert((a + seq!['+'] + b)[0] == a[0]);
        lemma_split_plus_then(a.drop_first(), b, cur.push(a[0]));
        assert(cur.push(a[0]) + a.drop_first() =~= cur + a);
    } else {
        assert((a + seq!['+'] + b).drop_first() =~= b);
        assert((a + seq!['+'] + b)[0] == '+');
        assert(cur + a =~= cur);
    }
}

/// The words of `m1+m2+k`, once lowercased, are the three texts lowercased.
proof fn lemma_three_words(m1: Seq<char>, m2: Seq<char>, k: Seq<char>)
    requires
        no_plus(m1),
        no_plus(m2),
        no_plus(k),
        no_white_space(m1),
    ensures
        split_plus(ascii_lower(trim(m1 + seq!['+'] + m2 + seq!['+'] + k))) == seq![
            ascii_lower(m1),
            ascii_lower(m2),
            ascii_lower(trim_end(k)),
        ],
{
    let p = seq!['+'];
    let whole = m1 + p + m2 + p + k;
    let front = m1 + p + m2 + p;
    assert(whole =~= front + k);
    assert(whole.len() > 0);
    if m1.len() > 0 {
        assert(whole[0] == m1[0]);
    } else {
        assert(whole[0] == '+');
    }
    assert(trim_start(whole) == whole);
    assert(front.last() == '+');
    lemma_trim_end_after(front, k);
    let kk = trim_end(k);
    let lk = ascii_lower(kk);
    assert(trim(whole) == front + kk);
    assert(ascii_lower(front + kk) =~= ascii_lower(m1) + p + (ascii_lower(m2) + p + lk));
    assert(no_plus(ascii_lower(m1)));
    assert(no_plus(ascii_lower(m2)));
    assert forall|i: int| 0 <= i < kk.len() implies #[trigger] kk[i] != '+' by {
        lemma_trim_end_prefix(k);
        assert(kk[i] == k[i]);
    }
    assert(no_plus(lk));
    lemma_split_plus_then(ascii_lower(m1), ascii_lower(m2) + p + lk, Seq::empty());
    lemma_split_plus_then(ascii_lower(m2), lk, Seq::empty());
    lemma_split_no_plus(lk, Seq::empty());
    assert(Seq::<char>::empty() + ascii_lower(m1) =~= ascii_lower(m1));
    assert(Seq::<char>::empty() + ascii_lower(m2) =~= ascii_lower(m2));
    assert(Seq::<char>::empty() + lk =~= lk);
    assert(seq![ascii_lower(m1)] + (seq![ascii_lower(m2)] + seq![lk]) =~= seq![
        ascii_lower(m1),
        ascii_lower(m2),
        lk,
    ]);
}

proof fn lemma_trim_end_prefix(k: Seq<char>)
    ensures
        trim_end(k).len() <= k.len(),
        trim_end(k) == k.take(trim_end(k).len() as int),
    decreases k.len(),
{
    if k.len() > 0 && spec_is_whitespace(k.last()) {
        lemma_trim_end_prefix(k.drop_last());
        assert(k.drop_last().take(trim_end(k).len() as int) =~= k.take(trim_end(k).len() as int));
    } else {
        assert(k.take(k.len() as int) =~= k);
    }
}

/// The order of the modifier words does not matter: `m1+m2+k` binds what
/// `m2+m1+k` binds, for modifier words without white space and a key word,
/// none of them holding `+`.
pub proof fn law_parse_key_modifier_order(m1: Seq<char>, m2: Seq<char>, k: Seq<char>)
    requires
        no_plus(m1),
        no_plus(m2),
        no_plus(k),
        no_white_space(m1),
        no_white_space(m2),
    ensures
        parse_key_ascii(m1 + seq!['+'] + m2 + seq!['+'] + k) == parse_key_ascii(
            m2 + seq!['+'] + m1 + seq!['+'] + k,
        ),
{
    lemma_three_words(m1, m2, k);
    lemma_three_words(m2, m1, k);
    let a = trim(ascii_lower(m1));
    let b = trim(ascii_lower(m2));
    let c = trim(ascii_lower(trim_end(k)));
    let p1 = seq![ascii_lower(m1), ascii_lower(m2), ascii_lower(trim_end(k))].map_values(|p: Seq<char>| trim(p));
    let p2 = seq![ascii_lower(m2), ascii_lower(m1), ascii_lower(trim_end(k))].map_values(|p: Seq<char>| trim(p));
    assert(p1 =~= seq![a, b, c]);
    assert(p2 =~= seq![b, a, c]);
    lemma_has_word_swap(p1, p2);
}

proof fn lemma_has_word_swap(s1: Seq<Seq<char>>, s2: Seq<Seq<char>>)
    requires
        s1.len() == 3,
        s2.len() == 3,
        s1[0] == s2[1],
        s1[1] == s2[0],
    ensures
        forall|w1: Seq<char>, w2: Seq<char>| #[trigger] has_word(s1, 2, w1, w2) == has_word(s2, 2, w1, w2),
{
    assert forall|w1: Seq<char>, w2: Seq<char>| #[trigger] has_word(s1, 2, w1, w2) == has_word(s2, 2, w1, w2) by {
        if has_word(s1, 2, w1, w2) {
            let i = choose|i: int| 0 <= i < 2 && (s1[i] == w1 || s1[i] == w2);
            assert(s2[1 - i] == s1[i]);
        }
        if has_word(s2, 2, w1, w2) {
            let i = choose|i: int| 0 <= i < 2 && (s2[i] == w1 || s2[i] == w2);
            assert(s1[1 - i] == s2[i]);
        }
    }
}

proof fn lemma_trim_start_before(a: Seq<char>, b: Seq<char>)
    requires
        b.len() > 0,
        !spec_is_whitespace(b[0]),
    ensures
        trim_start(a + b) == trim_start(a) + b,
    decreases a.len(),
{
    if a.len() == 0 {
        assert(a + b =~= b);
        assert(trim_start(a) + b =~= b);
    } else {
        assert((a + b)[0] == a[0]);
        assert((a + b).drop_first() =~= a.drop_first() + b);
        if spec_is_whitespace(a[0]) {
            lemma_trim_start_before(a.drop_first(), b);
        }
    }
}

proof fn lemma_split_last_word(a: Seq<char>, k: Seq<char>, cur: Seq<char>)
    requires
        no_plus(k),
    ensures
        split_plus_from(a + seq!['+'] + k, cur).len() > 0,
        split_plus_from(a + seq!['+'] + k, cur).last() == k,
    decreases a.len(),
{
    let s = a + seq!['+'] + k;
    lemma_split_no_plus(k, Seq::empty());
    assert(Seq::<char>::empty() + k =~= k);
    if a.len() == 0 {
        assert(s[0] == '+');
        assert(s.drop_first() =~= k);
    } else {
        assert(s[0] == a[0]);
        assert(s.drop_first() =~= a.drop_first() + seq!['+'] + k);
        if a[0] == '+' {
            lemma_split_last_word(a.drop_first(), k, Seq::empty());
        } else {
            lemma_split_last_word(a.drop_first(), k, cur.push(a[0]));
        }
    }
}

/// The key of a binding is its last word: for a key word without `+` or
/// white space and in lower case, after any modifiers.
proof fn lemma_key_is_last_word(pre: Seq<char>, k: Seq<char>)
    requires
        k.len() > 0,
        no_plus(k),
        no_white_space(k),
        ascii_lower(k) == k,
    ensures
        parse_key_ascii(pre + seq!['+'] + k).code == key_code_of(k),
        parse_key_ascii(k).code == key_code_of(k),
{
    let p = seq!['+'];
    let b = p + k;
    assert(pre + p + k =~= pre + b);
    assert(b[0] == '+');
    lemma_trim_start_before(pre, b);
    let t = trim_start(pre);
    assert(t + b =~= (t + p) + k);
    assert((t + p).last() == '+');
    lemma_trim_end_after(t + p, k);
    crate::text::lemma_trim_no_white(k);
    assert(trim(pre + p + k) == t + p + k);
    assert(ascii_lower(t + p + k) =~= ascii_lower(t) + p + k);
    lemma_split_last_word(ascii_lower(t), k, Seq::empty());
    let parts = split_plus(ascii_lower(t) + p + k);
    let tp = parts.map_values(|q: Seq<char>| trim(q));
    assert(tp.last() == trim(parts.last()));
    // The key word alone.
    assert(trim(k) == k);
    lemma_split_no_plus(k, Seq::empty());
    assert(Seq::<char>::empty() + k =~= k);
    let parts1 = split_plus(ascii_lower(k));
    assert(parts1 == seq![k]);
    let tp1 = parts1.map_values(|q: Seq<char>| trim(q));
    assert(tp1.last() == trim(parts1.last()));
}

proof fn lemma_key_tab()
    ensures
        key_code_of("tab"@) == KeyCode::Tab,
{
    reveal_strlit("tab");
}

proof fn lemma_key_enter()
    ensures
        key_code_of("enter"@) == KeyCode::Enter,
{
    reveal_strlit("tab");
    reveal_strlit("enter");
    assert("enter"@.len() != "tab"@.len());
}

proof fn lemma_key_esc()
    ensures
        key_code_of("esc"@) == KeyCode::Esc,
{
    reveal_strlit("tab");
    reveal_strlit("enter");
    reveal_strlit("esc");
    assert("esc"@[0] != "tab"@[0]);
    assert("esc"@.len() != "enter"@.len());
}

proof fn lemma_key_escape()
    ensures
        key_code_of("escape"@) == KeyCode::Esc,
{
    reveal_strlit("tab");
    reveal_strlit("enter");
    reveal_strlit("esc");
    reveal_strlit("escape");
    assert("escape"@.len() != "tab"@.len());
    assert("escape"@.len() != "enter"@.len());
    assert("escape"@.len() != "esc"@.len());
}

proof fn lemma_key_space()
    ensures
        key_code_of("space"@) == KeyCode::Char(' '),
{
    reveal_strlit("tab");
    reveal_strlit("enter");
    reveal_strlit("esc");
    reveal_strlit("escape");
    reveal_strlit("space");
    assert("space"@.len() != "tab"@.len());
    assert("space"@[0] != "enter"@[0]);
    assert("space"@.len() != "esc"@.len());
    assert("space"@.len() != "escape"@.len());
}

proof fn lemma_key_backspace()
    ensures
        key_code_of("backspace"@) == KeyCode::Backspace,
{
    reveal_strlit("tab");
    reveal_strlit("enter");
    reveal_strlit("esc");
    reveal_strlit("escape");
    reveal_strlit("space");
    reveal_strlit("backspace");
    assert("backspace"@.len() != "tab"@.len());
    assert("backspace"@.len() != "enter"@.len());
    assert("backspace"@.len() != "esc"@.len());
    assert("backspace"@.len() != "escape"@.len());
    assert("backspace"@.len() != "space"@.len());
}

proof fn lemma_key_bs()
    ensures
        key_code_of("bs"@) == KeyCode::Backspace,
{
    reveal_strlit("tab");
    reveal_strlit("enter");
    reveal_strlit("esc");
    reveal_strlit("escape");
    reveal_strlit("space");
    reveal_strlit("backspace");
    reveal_strlit("bs");
    assert("bs"@.len() != "tab"@.len());
    assert("bs"@.len() != "enter"@.len());
    assert("bs"@.len() != "esc"@.len());
    assert("bs"@.len() != "escape"@.len());
    assert("bs"@.len() != "space"@.len());
    assert("bs"@.len() != "backspace"@.len());
}

proof fn lemma_key_home()
    ensures
        key_code_of("home"@) == KeyCode::Home,
{
    reveal_strlit("tab");
    reveal_strlit("enter");
    reveal_strlit("esc");
    reveal_strlit("escape");
    reveal_strlit("space");
    reveal_strlit("backspace");
    reveal_strlit("bs");
    reveal_strlit("home");
    assert("home"@.len() != "tab"@.len());
    assert("home"@.len() != "enter"@.len());
    assert("home"@.len() != "esc"@.len());
    assert("home"@.len() != "escape"@.len());
    assert("home"@.len() != "space"@.len());
    assert("home"@.len() != "backspace"@.len());
    assert("home"@.len() != "bs"@.len());
}

proof fn lemma_key_end()
    ensures
        key_code_of("end"@) == KeyCode::End,
{
    reveal_strlit("tab");
    reveal_strlit("enter");
    reveal_strlit("esc");
    reveal_strlit("escape");
    reveal_strlit("space");
    reveal_strlit("backspace");
    reveal_strlit("bs");
    reveal_strlit("home");
    reveal_strlit("end");
    assert("end"@[0] != "tab"@[0]);
    assert("end"@.len() != "enter"@.len());
    assert("end"@[1] != "esc"@[1]);
    assert("end"@.len() != "escape"@.len());
    assert("end"@.len() != "space"@.len());
    assert("end"@.len() != "backspace"@.len());
    assert("end"@.len() != "bs"@.len());
    assert("end"@.len() != "home"@.len());
}

proof fn lemma_key_pageup()
    ensures
        key_code_of("pageup"@) == KeyCode::PageUp,
{
    reveal_strlit("tab");
    reveal_strlit("enter");
    reveal_strlit("esc");
    reveal_strlit("escape");
    reveal_strlit("space");
    reveal_strlit("backspace");
    reveal_strlit("bs");
    reveal_strlit("home");
    reveal_strlit("end");
    reveal_strlit("pageup");
    assert("pageup"@.len() != "tab"@.len());
    assert("pageup"@.len() != "enter"@.len());
    assert("pageup"@.len() != "esc"@.len());
    assert("pageup"@[0] != "escape"@[0]);
    assert("pageup"@.len() != "space"@.len());
    assert("pageup"@.len() != "backspace"@.len());
    assert("pageup"@.len() != "bs"@.len());
    assert("pageup"@.len() != "home"@.len());
    assert("pageup"@.len() != "end"@.len());
}

proof fn lemma_key_pgup()
    ensures
        key_code_of("pgup"@) == KeyCode::PageUp,
{
    reveal_strlit("tab");
    reveal_strlit("enter");
    reveal_strlit("esc");
    reveal_strlit("escape");
    reveal_strlit("space");
    reveal_strlit("backspace");
    reveal_strlit("bs");
    reveal_strlit("home");
    reveal_strlit("end");
    reveal_strlit("pageup");
    reveal_strlit("pgup");
    assert("pgup"@.len() != "tab"@.len());
    assert("pgup"@.len() != "enter"@.len());
    assert("pgup"@.len() != "esc"@.len());
    assert("pgup"@.len() != "escape"@.len());
    assert("pgup"@.len() != "space"@.len());
    assert("pgup"@.len() != "backspace"@.len());
    assert("pgup"@.len() != "bs"@.len());
    assert("pgup"@[0] != "home"@[0]);
    assert("pgup"@.len() != "end"@.len());
    assert("pgup"@.len() != "pageup"@.len());
}

proof fn lemma_key_pagedown()
    ensures
        key_code_of("pagedown"@) == KeyCode::PageDown,
{
    reveal_strlit("tab");
    reveal_strlit("enter");
    reveal_strlit("esc");
    reveal_strlit("escape");
    reveal_strlit("space");
    reveal_strlit("backspace");
    reveal_strlit("bs");
    reveal_strlit("home");
    reveal_strlit("end");
    reveal_strlit("pageup");
    reveal_strlit("pgup");
    reveal_strlit("pagedown");
    assert("pagedown"@.len() != "tab"@.len());
    assert("pagedown"@.len() != "enter"@.len());
    assert("pagedown"@.len() != "esc"@.len());
    assert("pagedown"@.len() != "escape"@.len());
    assert("pagedown"@.len() != "space"@.len());
    assert("pagedown"@.len() != "backspace"@.len());
    assert("pagedown"@.len() != "bs"@.len());
    assert("pagedown"@.len() != "home"@.len());
    assert("pagedown"@.len() != "end"@.len());
    assert("pagedown"@.len() != "pageup"@.len());
    assert("pagedown"@.len() != "pgup"@.len());
}

proof fn lemma_key_pgdn()
    ensures
        key_code_of("pgdn"@) == KeyCode::PageDown,
{
    reveal_strlit("tab");
    reveal_strlit("enter");
    reveal_strlit("esc");
    reveal_strlit("escape");
    reveal_strlit("space");
    reveal_strlit("backspace");
    reveal_strlit("bs");
    reveal_strlit("home");
    reveal_strlit("end");
    reveal_strlit("pageup");
    reveal_strlit("pgup");
    reveal_strlit("pagedown");
    reveal_strlit("pgdn");
    assert("pgdn"@.len() != "tab"@.len());
    assert("pgdn"@.len() != "enter"@.len());
    assert("pgdn"@.len() != "esc"@.len());
    assert("pgdn"@.len() != "escape"@.len());
    assert("pgdn"@.len() != "space"@.len());
    assert("pgdn"@.len() != "backspace"@.len());
    assert("pgdn"@.len() != "bs"@.len());
    assert("pgdn"@[0] != "home"@[0]);
    assert("pgdn"@.len() != "end"@.len());
    assert("pgdn"@.len() != "pageup"@.len());
    assert("pgdn"@[2] != "pgup"@[2]);
    assert("pgdn"@.len() != "pagedown"@.len());
}

proof fn lemma_key_insert()
    ensures
        key_code_of("insert"@) == KeyCode::Insert,
{
    reveal_strlit("tab");
    reveal_strlit("enter");
    reveal_strlit("esc");
    reveal_strlit("escape");
    reveal_strlit("space");
    reveal_strlit("backspace");
    reveal_strlit("bs");
    reveal_strlit("home");
    reveal_strlit("end");
    reveal_strlit("pageup");
    reveal_strlit("pgup");
    reveal_strlit("pagedown");
    reveal_strlit("pgdn");
    reveal_strlit("insert");
    assert("insert"@.len() != "tab"@.len());
    assert("insert"@.len() != "enter"@.len());
    assert("insert"@.len() != "esc"@.len());
    assert("insert"@[0] != "escape"@[0]);
    assert("insert"@.len() != "space"@.len());
    assert("insert"@.len() != "backspace"@.len());
    assert("insert"@.len() != "bs"@.len());
    assert("insert"@.len() != "home"@.len());
    assert("insert"@.len() != "end"@.len());
    assert("insert"@[0] != "pageup"@[0]);
    assert("insert"@.len() != "pgup"@.len());
    assert("insert"@.len() != "pagedown"@.len());
    assert("insert"@.len() != "pgdn"@.len());
}

proof fn lemma_key_ins()
    ensures
        key_code_of("ins"@) == KeyCode::Insert,
{
    reveal_strlit("tab");
    reveal_strlit("enter");
    reveal_strlit("esc");
    reveal_strlit("escape");
    reveal_strlit("space");
    reveal_strlit("backspace");
    reveal_strlit("bs");
    reveal_strlit("home");
    reveal_strlit("end");
    reveal_strlit("pageup");
    reveal_strlit("pgup");
    reveal_strlit("pagedown");
    reveal_strlit("pgdn");
    reveal_strlit("insert");
    reveal_strlit("ins");
    assert("ins"@[0] != "tab"@[0]);
    assert("ins"@.len() != "enter"@.len());
    assert("ins"@[0] != "esc"@[0]);
    assert("ins"@.len() != "escape"@.len());
    assert("ins"@.len() != "space"@.len());
    assert("ins"@.len() != "backspace"@.len());
    assert("ins"@.len() != "bs"@.len());
    assert("ins"@.len() != "home"@.len());
    assert("ins"@[0] != "end"@[0]);
    assert("ins"@.len() != "pageup"@.len());
    assert("ins"@.len() != "pgup"@.len());
    assert("ins"@.len() != "pagedown"@.len());
    assert("ins"@.len() != "pgdn"@.len());
    assert("ins"@.len() != "insert"@.len());
}

proof fn lemma_key_delete()
    ensures
        key_code_of("delete"@) == KeyCode::Delete,
{
    reveal_strlit("tab");
    reveal_strlit("enter");
    reveal_strlit("esc");
    reveal_strlit("escape");
    reveal_strlit("space");
    reveal_strlit("backspace");
    reveal_strlit("bs");
    reveal_strlit("home");
    reveal_strlit("end");
    reveal_strlit("pageup");
    reveal_strlit("pgup");
    reveal_strlit("pagedown");
    reveal_strlit("pgdn");
    reveal_strlit("insert");
    reveal_strlit("ins");
    reveal_strlit("delete");
    assert("delete"@.len() != "tab"@.len());
    assert("delete"@.len() != "enter"@.len());
    assert("delete"@.len() != "esc"@.len());
    assert("delete"@[0] != "escape"@[0]);
    assert("delete"@.len() != "space"@.len());
    assert("delete"@.len() != "backspace"@.len());
    assert("delete"@.len() != "bs"@.len());
    assert("delete"@.len() != "home"@.len());
    assert("delete"@.len() != "end"@.len());
    assert("delete"@[0] != "pageup"@[0]);
    assert("delete"@.len() != "pgup"@.len());
    assert("delete"@.len() != "pagedown"@.len());
    assert("delete"@.len() != "pgdn"@.len());
    assert("delete"@[0] != "insert"@[0]);
    assert("delete"@.len() != "ins"@.len());
}

proof fn lemma_key_del()
    ensures
        key_code_of("del"@) == KeyCode::Delete,
{
    reveal_strlit("tab");
    reveal_strlit("enter");
    reveal_strlit("esc");
    reveal_strlit("escape");
    reveal_strlit("space");
    reveal_strlit("backspace");
    reveal_strlit("bs");
    reveal_strlit("home");
    reveal_strlit("end");
    reveal_strlit("pageup");
    reveal_strlit("pgup");
    reveal_strlit("pagedown");
    reveal_strlit("pgdn");
    reveal_strlit("insert");
    reveal_strlit("ins");
    reveal_strlit("delete");
    reveal_strlit("del");
    assert("del"@[0] != "tab"@[0]);
    assert("del"@.len() != "enter"@.len());
    assert("del"@[0] != "esc"@[0]);
    assert("del"@.len() != "escape"@.len());
    assert("del"@.len() != "space"@.len());
    assert("del"@.len() != "backspace"@.len());
    assert("del"@.len() != "bs"@.len());
    assert("del"@.len() != "home"@.len());
    assert("del"@[0] != "end"@[0]);
    assert("del"@.len() != "pageup"@.len());
    assert("del"@.len() != "pgup"@.len());
    assert("del"@.len() != "pagedown"@.len());
    assert("del"@.len() != "pgdn"@.len());
    assert("del"@.len() != "insert"@.len());
    assert("del"@[0] != "ins"@[0]);
    assert("del"@.len() != "delete"@.len());
}

proof fn lemma_key_up()
    ensures
        key_code_of("up"@) == KeyCode::Up,
{
    reveal_strlit("tab");
    reveal_strlit("enter");
    reveal_strlit("esc");
    reveal_strlit("escape");
    reveal_strlit("space");
    reveal_strlit("backspace");
    reveal_strlit("bs");
    reveal_strlit("home");
    reveal_strlit("end");
    reveal_strlit("pageup");
    reveal_strlit("pgup");
    reveal_strlit("pagedown");
    reveal_strlit("pgdn");
    reveal_strlit("insert");
    reveal_strlit("ins");
    reveal_strlit("delete");
    reveal_strlit("del");
    reveal_strlit("up");
    assert("up"@.len() != "tab"@.len());
    assert("up"@.len() != "enter"@.len());
    assert("up"@.len() != "esc"@.len());
    assert("up"@.len() != "escape"@.len());
    assert("up"@.len() != "space"@.len());
    assert("up"@.len() != "backspace"@.len());
    assert("up"@[0] != "bs"@[0]);
    assert("up"@.len() != "home"@.len());
    assert("up"@.len() != "end"@.len());
    assert("up"@.len() != "pageup"@.len());
    assert("up"@.len() != "pgup"@.len());
    assert("up"@.len() != "pagedown"@.len());
    assert("up"@.len() != "pgdn"@.len());
    assert("up"@.len() != "insert"@.len());
    assert("up"@.len() != "ins"@.len());
    assert("up"@.len() != "delete"@.len());
    assert("up"@.len() != "del"@.len());
}

proof fn lemma_key_down()
    ensures
        key_code_of("down"@) == KeyCode::Down,
{
    reveal_strlit("tab");
    reveal_strlit("enter");
    reveal_strlit("esc");
    reveal_strlit("escape");
    reveal_strlit("space");
    reveal_strlit("backspace");
    reveal_strlit("bs");
    reveal_strlit("home");
    reveal_strlit("end");
    reveal_strlit("pageup");
    reveal_strlit("pgup");
    reveal_strlit("pagedown");
    reveal_strlit("pgdn");
    reveal_strlit("insert");
    reveal_strlit("ins");
    reveal_strlit("delete");
    reveal_strlit("del");
    reveal_strlit("up");
    reveal_strlit("down");
    assert("down"@.len() != "tab"@.len());
    assert("down"@.len() != "enter"@.len());
    assert("down"@.len() != "esc"@.len());
    assert("down"@.len() != "escape"@.len());
    assert("down"@.len() != "space"@.len());
    assert("down"@.len() != "backspace"@.len());
    assert("down"@.len() != "bs"@.len());
    assert("down"@[0] != "home"@[0]);
    assert("down"@.len() != "end"@.len());
    assert("down"@.len() != "pageup"@.len());
    assert("down"@[0] != "pgup"@[0]);
    assert("down"@.len() != "pagedown"@.len());
    assert("down"@[0] != "pgdn"@[0]);
    assert("down"@.len() != "insert"@.len());
    assert("down"@.len() != "ins"@.len());
    assert("down"@.len() != "delete"@.len());
    assert("down"@.len() != "del"@.len());
    assert("down"@.len() != "up"@.len());
}

proof fn lemma_key_left()
    ensures
        key_code_of("left"@) == KeyCode::Left,
{
    reveal_strlit("tab");
    reveal_strlit("enter");
    reveal_strlit("esc");
    reveal_strlit("escape");
    reveal_strlit("space");
    reveal_strlit("backspace");
    reveal_strlit("bs");
    reveal_strlit("home");
    reveal_strlit("end");
    reveal_strlit("pageup");
    reveal_strlit("pgup");
    reveal_strlit("pagedown");
    reveal_strlit("pgdn");
    reveal_strlit("insert");
    reveal_strlit("ins");
    reveal_strlit("delete");
    reveal_strlit("del");
    reveal_strlit("up");
    reveal_strlit("down");
    reveal_strlit("left");
    assert("left"@.len() != "tab"@.len());
    assert("left"@.len() != "enter"@.len());
    assert("left"@.len() != "esc"@.len());
    assert("left"@.len() != "escape"@.len());
    assert("left"@.len() != "space"@.len());
    assert("left"@.len() != "backspace"@.len());
    assert("left"@.len() != "bs"@.len());
    assert("left"@[0] != "home"@[0]);
    assert("left"@.len() != "end"@.len());
    assert("left"@.len() != "pageup"@.len());
    assert("left"@[0] != "pgup"@[0]);
    assert("left"@.len() != "pagedown"@.len());
    assert("left"@[0] != "pgdn"@[0]);
    assert("left"@.len() != "insert"@.len());
    assert("left"@.len() != "ins"@.len());
    assert("left"@.len() != "delete"@.len());
    assert("left"@.len() != "del"@.len());
    assert("left"@.len() != "up"@.len());
    assert("left"@[0] != "down"@[0]);
}

proof fn lemma_key_right()
    ensures
        key_code_of("right"@) == KeyCode::Right,
{
    reveal_strlit("tab");
    reveal_strlit("enter");
    reveal_strlit("esc");
    reveal_strlit("escape");
    reveal_strlit("space");
    reveal_strlit("backspace");
    reveal_strlit("bs");
    reveal_strlit("home");
    reveal_strlit("end");
    reveal_strlit("pageup");
    reveal_strlit("pgup");
    reveal_strlit("pagedown");
    reveal_strlit("pgdn");
    reveal_strlit("insert");
    reveal_strlit("ins");
    reveal_strlit("delete");
    reveal_strlit("del");
    reveal_strlit("up");
    reveal_strlit("down");
    reveal_strlit("left");
    reveal_strlit("right");
    assert("right"@.len() != "tab"@.len());
    assert("right"@[0] != "enter"@[0]);
    assert("right"@.len() != "esc"@.len());
    assert("right"@.len() != "escape"@.len());
    assert("right"@[0] != "space"@[0]);
    assert("right"@.len() != "backspace"@.len());
    assert("right"@.len() != "bs"@.len());
    assert("right"@.len() != "home"@.len());
    assert("right"@.len() != "end"@.len());
    assert("right"@.len() != "pageup"@.len());
    assert("right"@.len() != "pgup"@.len());
    assert("right"@.len() != "pagedown"@.len());
    assert("right"@.len() != "pgdn"@.len());
    assert("right"@.len() != "insert"@.len());
    assert("right"@.len() != "ins"@.len());
    assert("right"@.len() != "delete"@.len());
    assert("right"@.len() != "del"@.len());
    assert("right"@.len() != "up"@.len());
    assert("right"@.len() != "down"@.len());
    assert("right"@.len() != "left"@.len());
}

proof fn lemma_key_null()
    ensures
        key_code_of("null"@) == KeyCode::Null,
{
    reveal_strlit("tab");
    reveal_strlit("enter");
    reveal_strlit("esc");
    reveal_strlit("escape");
    reveal_strlit("space");
    reveal_strlit("backspace");
    reveal_strlit("bs");
    reveal_strlit("home");
    reveal_strlit("end");
    reveal_strlit("pageup");
    reveal_strlit("pgup");
    reveal_strlit("pagedown");
    reveal_strlit("pgdn");
    reveal_strlit("insert");
    reveal_strlit("ins");
    reveal_strlit("delete");
    reveal_strlit("del");
    reveal_strlit("up");
    reveal_strlit("down");
    reveal_strlit("left");
    reveal_strlit("right");
    reveal_strlit("null");
    assert("null"@.len() != "tab"@.len());
    assert("null"@.len() != "enter"@.len());
    assert("null"@.len() != "esc"@.len());
    assert("null"@.len() != "escape"@.len());
    assert("null"@.len() != "space"@.len());
    assert("null"@.len() != "backspace"@.len());
    assert("null"@.len() != "bs"@.len());
    assert("null"@[0] != "home"@[0]);
    assert("null"@.len() != "end"@.len());
    assert("null"@.len() != "pageup"@.len());
    assert("null"@[0] != "pgup"@[0]);
    assert("null"@.len() != "pagedown"@.len());
    assert("null"@[0] != "pgdn"@[0]);
    assert("null"@.len() != "insert"@.len());
    assert("null"@.len() != "ins"@.len());
    assert("null"@.len() != "delete"@.len());
    assert("null"@.len() != "del"@.len());
    assert("null"@.len() != "up"@.len());
    assert("null"@[0] != "down"@[0]);
    assert("null"@[0] != "left"@[0]);
    assert("null"@.len() != "right"@.len());
}

proof fn lemma_binds_tab(pre: Seq<char>)
    ensures
        parse_key_ascii(pre + "+tab"@).code == KeyCode::Tab,
        parse_key_ascii("tab"@).code == KeyCode::Tab,
{
    lemma_key_tab();
    reveal_strlit("tab");
    reveal_strlit("+tab");
    assert("+tab"@ =~= seq!['+'] + "tab"@);
    lemma_named(pre, "tab"@, "+tab"@);
}

proof fn lemma_binds_enter(pre: Seq<char>)
    ensures
        parse_key_ascii(pre + "+enter"@).code == KeyCode::Enter,
        parse_key_ascii("enter"@).code == KeyCode::Enter,
{
    lemma_key_enter();
    reveal_strlit("enter");
    reveal_strlit("+enter");
    assert("+enter"@ =~= seq!['+'] + "enter"@);
    lemma_named(pre, "enter"@, "+enter"@);
}

proof fn lemma_binds_esc(pre: Seq<char>)
    ensures
        parse_key_ascii(pre + "+esc"@).code == KeyCode::Esc,
        parse_key_ascii("esc"@).code == KeyCode::Esc,
{
    lemma_key_esc();
    reveal_strlit("esc");
    reveal_strlit("+esc");
    assert("+esc"@ =~= seq!['+'] + "esc"@);
    lemma_named(pre, "esc"@, "+esc"@);
}

proof fn lemma_binds_escape(pre: Seq<char>)
    ensures
        parse_key_ascii(pre + "+escape"@).code == KeyCode::Esc,
        parse_key_ascii("escape"@).code == KeyCode::Esc,
{
    lemma_key_escape();
    reveal_strlit("escape");
    reveal_strlit("+escape");
    assert("+escape"@ =~= seq!['+'] + "escape"@);
    lemma_named(pre, "escape"@, "+escape"@);
}

proof fn lemma_binds_space(pre: Seq<char>)
    ensures
        parse_key_ascii(pre + "+space"@).code == KeyCode::Char(' '),
        parse_key_ascii("space"@).code == KeyCode::Char(' '),
{
    lemma_key_space();
    reveal_strlit("space");
    reveal_strlit("+space");
    assert("+space"@ =~= seq!['+'] + "space"@);
    lemma_named(pre, "space"@, "+space"@);
}

proof fn lemma_binds_backspace(pre: Seq<char>)
    ensures
        parse_key_ascii(pre + "+backspace"@).code == KeyCode::Backspace,
        parse_key_ascii("backspace"@).code == KeyCode::Backspace,
{
    lemma_key_backspace();
    reveal_strlit("backspace");
    reveal_strlit("+backspace");
    assert("+backspace"@ =~= seq!['+'] + "backspace"@);
    lemma_named(pre, "backspace"@, "+backspace"@);
}

proof fn lemma_binds_bs(pre: Seq<char>)
    ensures
        parse_key_ascii(pre + "+bs"@).code == KeyCode::Backspace,
        parse_key_ascii("bs"@).code == KeyCode::Backspace,
{
    lemma_key_bs();
    reveal_strlit("bs");
    reveal_strlit("+bs");
    assert("+bs"@ =~= seq!['+'] + "bs"@);
    lemma_named(pre, "bs"@, "+bs"@);
}

proof fn lemma_binds_home(pre: Seq<char>)
    ensures
        parse_key_ascii(pre + "+home"@).code == KeyCode::Home,
        parse_key_ascii("home"@).code == KeyCode::Home,
{
    lemma_key_home();
    reveal_strlit("home");
    reveal_strlit("+home");
    assert("+home"@ =~= seq!['+'] + "home"@);
    lemma_named(pre, "home"@, "+home"@);
}

proof fn lemma_binds_end(pre: Seq<char>)
    ensures
        parse_key_ascii(pre + "+end"@).code == KeyCode::End,
        parse_key_ascii("end"@).code == KeyCode::End,
{
    lemma_key_end();
    reveal_strlit("end");
    reveal_strlit("+end");
    assert("+end"@ =~= seq!['+'] + "end"@);
    lemma_named(pre, "end"@, "+end"@);
}

proof fn lemma_binds_pageup(pre: Seq<char>)
    ensures
        parse_key_ascii(pre + "+pageup"@).code == KeyCode::PageUp,
        parse_key_ascii("pageup"@).code == KeyCode::PageUp,
{
    lemma_key_pageup();
    reveal_strlit("pageup");
    reveal_strlit("+pageup");
    assert("+pageup"@ =~= seq!['+'] + "pageup"@);
    lemma_named(pre, "pageup"@, "+pageup"@);
}

proof fn lemma_binds_pgup(pre: Seq<char>)
    ensures
        parse_key_ascii(pre + "+pgup"@).code == KeyCode::PageUp,
        parse_key_ascii("pgup"@).code == KeyCode::PageUp,
{
    lemma_key_pgup();
    reveal_strlit("pgup");
    reveal_strlit("+pgup");
    assert("+pgup"@ =~= seq!['+'] + "pgup"@);
    lemma_named(pre, "pgup"@, "+pgup"@);
}

proof fn lemma_binds_pagedown(pre: Seq<char>)
    ensures
        parse_key_ascii(pre + "+pagedown"@).code == KeyCode::PageDown,
        parse_key_ascii("pagedown"@).code == KeyCode::PageDown,
{
    lemma_key_pagedown();
    reveal_strlit("pagedown");
    reveal_strlit("+pagedown");
    assert("+pagedown"@ =~= seq!['+'] + "pagedown"@);
    lemma_named(pre, "pagedown"@, "+pagedown"@);
}

proof fn lemma_binds_pgdn(pre: Seq<char>)
    ensures
        parse_key_ascii(pre + "+pgdn"@).code == KeyCode::PageDown,
        parse_key_ascii("pgdn"@).code == KeyCode::PageDown,
{
    lemma_key_pgdn();
    reveal_strlit("pgdn");
    reveal_strlit("+pgdn");
    assert("+pgdn"@ =~= seq!['+'] + "pgdn"@);
    lemma_named(pre, "pgdn"@, "+pgdn"@);
}

proof fn lemma_binds_insert(pre: Seq<char>)
    ensures
        parse_key_ascii(pre + "+insert"@).code == KeyCode::Insert,
        parse_key_ascii("insert"@).code == KeyCode::Insert,
{
    lemma_key_insert();
    reveal_strlit("insert");
    reveal_strlit("+insert");
    assert("+insert"@ =~= seq!['+'] + "insert"@);
    lemma_named(pre, "insert"@, "+insert"@);
}

proof fn lemma_binds_ins(pre: Seq<char>)
    ensures
        parse_key_ascii(pre + "+ins"@).code == KeyCode::Insert,
        parse_key_ascii("ins"@).code == KeyCode::Insert,
{
    lemma_key_ins();
    reveal_strlit("ins");
    reveal_strlit("+ins");
    assert("+ins"@ =~= seq!['+'] + "ins"@);
    lemma_named(pre, "ins"@, "+ins"@);
}

proof fn lemma_binds_delete(pre: Seq<char>)
    ensures
        parse_key_ascii(pre + "+delete"@).code == KeyCode::Delete,
        parse_key_ascii("delete"@).code == KeyCode::Delete,
{
    lemma_key_delete();
    reveal_strlit("delete");
    reveal_strlit("+delete");
    assert("+delete"@ =~= seq!['+'] + "delete"@);
    lemma_named(pre, "delete"@, "+delete"@);
}

proof fn lemma_binds_del(pre: Seq<char>)
    ensures
        parse_key_ascii(pre + "+del"@).code == KeyCode::Delete,
        parse_key_ascii("del"@).code == KeyCode::Delete,
{
    lemma_key_del();
    reveal_strlit("del");
    reveal_strlit("+del");
    assert("+del"@ =~= seq!['+'] + "del"@);
    lemma_named(pre, "del"@, "+del"@);
}

proof fn lemma_binds_up(pre: Seq<char>)
    ensures
        parse_key_ascii(pre + "+up"@).code == KeyCode::Up,
        parse_key_ascii("up"@).code == KeyCode::Up,
{
    lemma_key_up();
    reveal_strlit("up");
    reveal_strlit("+up");
    assert("+up"@ =~= seq!['+'] + "up"@);
    lemma_named(pre, "up"@, "+up"@);
}

proof fn lemma_binds_down(pre: Seq<char>)
    ensures
        parse_key_ascii(pre + "+down"@).code == KeyCode::Down,
        parse_key_ascii("down"@).code == KeyCode::Down,
{
    lemma_key_down();
    reveal_strlit("down");
    reveal_strlit("+down");
    assert("+down"@ =~= seq!['+'] + "down"@);
    lemma_named(pre, "down"@, "+down"@);
}

proof fn lemma_binds_left(pre: Seq<char>)
    ensures
        parse_key_ascii(pre + "+left"@).code == KeyCode::Left,
        parse_key_ascii("left"@).code == KeyCode::Left,
{
    lemma_key_left();
    reveal_strlit("left");
    reveal_strlit("+left");
    assert("+left"@ =~= seq!['+'] + "left"@);
    lemma_named(pre, "left"@, "+left"@);
}

proof fn lemma_binds_right(pre: Seq<char>)
    ensures
        parse_key_ascii(pre + "+right"@).code == KeyCode::Right,
        parse_key_ascii("right"@).code == KeyCode::Right,
{
    lemma_key_right();
    reveal_strlit("right");
    reveal_strlit("+right");
    assert("+right"@ =~= seq!['+'] + "right"@);
    lemma_named(pre, "right"@, "+right"@);
}

proof fn lemma_binds_null(pre: Seq<char>)
    ensures
        parse_key_ascii(pre + "+null"@).code == KeyCode::Null,
        parse_key_ascii("null"@).code == KeyCode::Null,
{
    lemma_key_null();
    reveal_strlit("null");
    reveal_strlit("+null");
    assert("+null"@ =~= seq!['+'] + "null"@);
    lemma_named(pre, "null"@, "+null"@);
}

/// The named keys: a binding whose key word is one of the names, alone or
/// after modifiers, binds that key (`"space"` the space character, `"esc"`
/// and `"escape"` Escape, and so on).
pub proof fn law_named_keys(pre: Seq<char>)
    ensures
        parse_key_ascii(pre + "+tab"@).code == KeyCode::Tab,
        parse_key_ascii(pre + "+enter"@).code == KeyCode::Enter,
        parse_key_ascii(pre + "+esc"@).code == KeyCode::Esc,
        parse_key_ascii(pre + "+escape"@).code == KeyCode::Esc,
        parse_key_ascii(pre + "+space"@).code == KeyCode::Char(' '),
        parse_key_ascii(pre + "+backspace"@).code == KeyCode::Backspace,
        parse_key_ascii(pre + "+bs"@).code == KeyCode::Backspace,
        parse_key_ascii(pre + "+home"@).code == KeyCode::Home,
        parse_key_ascii(pre + "+end"@).code == KeyCode::End,
        parse_key_ascii(pre + "+pageup"@).code == KeyCode::PageUp,
        parse_key_ascii(pre + "+pgup"@).code == KeyCode::PageUp,
        parse_key_ascii(pre + "+pagedown"@).code == KeyCode::PageDown,
        parse_key_ascii(pre + "+pgdn"@).code == KeyCode::PageDown,
        parse_key_ascii(pre + "+insert"@).code == KeyCode::Insert,
        parse_key_ascii(pre + "+ins"@).code == KeyCode::Insert,
        parse_key_ascii(pre + "+delete"@).code == KeyCode::Delete,
        parse_key_ascii(pre + "+del"@).code == KeyCode::Delete,
        parse_key_ascii(pre + "+up"@).code == KeyCode::Up,
        parse_key_ascii(pre + "+down"@).code == KeyCode::Down,
        parse_key_ascii(pre + "+left"@).code == KeyCode::Left,
        parse_key_ascii(pre + "+right"@).code == KeyCode::Right,
        parse_key_ascii(pre + "+null"@).code == KeyCode::Null,
        parse_key_ascii("tab"@).code == KeyCode::Tab,
        parse_key_ascii("enter"@).code == KeyCode::Enter,
        parse_key_ascii("esc"@).code == KeyCode::Esc,
        parse_key_ascii("escape"@).code == KeyCode::Esc,
        parse_key_ascii("space"@).code == KeyCode::Char(' '),
        parse_key_ascii("backspace"@).code == KeyCode::Backspace,
        parse_key_ascii("bs"@).code == KeyCode::Backspace,
        parse_key_ascii("home"@).code == KeyCode::Home,
        parse_key_ascii("end"@).code == KeyCode::End,
        parse_key_ascii("pageup"@).code == KeyCode::PageUp,
        parse_key_ascii("pgup"@).code == KeyCode::PageUp,
        parse_key_ascii("pagedown"@).code == KeyCode::PageDown,
        parse_key_ascii("pgdn"@).code == KeyCode::PageDown,
        parse_key_ascii("insert"@).code == KeyCode::Insert,
        parse_key_ascii("ins"@).code == KeyCode::Insert,
        parse_key_ascii("delete"@).code == KeyCode::Delete,
        parse_key_ascii("del"@).code == KeyCode::Delete,
        parse_key_ascii("up"@).code == KeyCode::Up,
        parse_key_ascii("down"@).code == KeyCode::Down,
        parse_key_ascii("left"@).code == KeyCode::Left,
        parse_key_ascii("right"@).code == KeyCode::Right,
        parse_key_ascii("null"@).code == KeyCode::Null,
{
    lemma_binds_tab(pre);
    lemma_binds_enter(pre);
    lemma_binds_esc(pre);
    lemma_binds_escape(pre);
    lemma_binds_space(pre);
    lemma_binds_backspace(pre);
    lemma_binds_bs(pre);
    lemma_binds_home(pre);
    lemma_binds_end(pre);
    lemma_binds_pageup(pre);
    lemma_binds_pgup(pre);
    lemma_binds_pagedown(pre);
    lemma_binds_pgdn(pre);
    lemma_binds_insert(pre);
    lemma_binds_ins(pre);
    lemma_binds_delete(pre);
    lemma_binds_del(pre);
    lemma_binds_up(pre);
    lemma_binds_down(pre);
    lemma_binds_left(pre);
    lemma_binds_right(pre);
    lemma_binds_null(pre);
}

/// A lower-case ASCII letter word with `+` before it.
proof fn lemma_named(pre: Seq<char>, k: Seq<char>, pk: Seq<char>)
    requires
        k.len() > 0,
        forall|i: int| 0 <= i < k.len() ==> 'a' <= #[trigger] k[i] <= 'z',
        pk == seq!['+'] + k,
    ensures
        parse_key_ascii(pre + pk).code == key_code_of(k),
        parse_key_ascii(k).code == key_code_of(k),
{
    assert(ascii_lower(k) =~= k);
    assert(pre + pk =~= pre + seq!['+'] + k);
    lemma_key_is_last_word(pre, k);
}

/// The words of `m+k`, once lowercased, for a modifier word `m` and a key
/// word `k`, both without `+` or white space and in lower case.
proof fn lemma_two_words(m: Seq<char>, k: Seq<char>)
    requires
        m.len() > 0,
        k.len() > 0,
        no_plus(m),
        no_plus(k),
        no_white_space(m),
        no_white_space(k),
        ascii_lower(m) == m,
        ascii_lower(k) == k,
    ensures
        parse_key_ascii(m + seq!['+'] + k) == keybind_of_parts(seq![m, k]),
{
    let p = seq!['+'];
    let s = m + p + k;
    assert(s[0] == m[0]);
    assert(trim_start(s) == s);
    assert(s =~= (m + p) + k);
    assert((m + p).last() == '+');
    lemma_trim_end_after(m + p, k);
    crate::text::lemma_trim_no_white(k);
    crate::text::lemma_trim_no_white(m);
    assert(trim(s) == s);
    assert(ascii_lower(s) =~= ascii_lower(m) + p + ascii_lower(k));
    lemma_split_plus_then(m, k, Seq::empty());
    lemma_split_no_plus(k, Seq::empty());
    assert(Seq::<char>::empty() + m =~= m);
    assert(Seq::<char>::empty() + k =~= k);
    let parts = split_plus(s);
    assert(parts =~= seq![m, k]);
    assert(parts.map_values(|q: Seq<char>| trim(q)) =~= seq![m, k]);
}

proof fn lemma_modifier_ctrl(k: Seq<char>)
    requires
        k.len() > 0,
        no_plus(k),
        no_white_space(k),
        ascii_lower(k) == k,
    ensures
        parse_key_ascii("ctrl+"@ + k) == (KeyBind { code: key_code_of(k), modifiers: KeyModifiers { shift: false, control: true, alt: false, super_key: false, hyper: false, meta: false } }),
{
    reveal_strlit("shift");
    reveal_strlit("ctrl");
    reveal_strlit("control");
    reveal_strlit("alt");
    reveal_strlit("super");
    reveal_strlit("win");
    reveal_strlit("cmd");
    reveal_strlit("hyper");
    reveal_strlit("meta");
    reveal_strlit("ctrl+");
    assert("ctrl"@.len() != "shift"@.len());
    assert("ctrl"@.len() != "control"@.len());
    assert("ctrl"@.len() != "alt"@.len());
    assert("ctrl"@.len() != "super"@.len());
    assert("ctrl"@.len() != "win"@.len());
    assert("ctrl"@.len() != "cmd"@.len());
    assert("ctrl"@.len() != "hyper"@.len());
    assert("ctrl"@[0] != "meta"@[0]);
    let m = "ctrl"@;
    assert("ctrl+"@ + k =~= m + seq!['+'] + k);
    assert(ascii_lower(m) =~= m);
    lemma_two_words(m, k);
    let parts = seq![m, k];
    assert(parts[0] == m);
    assert(parts.last() == k);
}

proof fn lemma_modifier_control(k: Seq<char>)
    requires
        k.len() > 0,
        no_plus(k),
        no_white_space(k),
        ascii_lower(k) == k,
    ensures
        parse_key_ascii("control+"@ + k) == (KeyBind { code: key_code_of(k), modifiers: KeyModifiers { shift: false, control: true, alt: false, super_key: false, hyper: false, meta: false } }),
{
    reveal_strlit("shift");
    reveal_strlit("ctrl");
    reveal_strlit("control");
    reveal_strlit("alt");
    reveal_strlit("super");
    reveal_strlit("win");
    reveal_strlit("cmd");
    reveal_strlit("hyper");
    reveal_strlit("meta");
    reveal_strlit("control+");
    assert("control"@.len() != "shift"@.len());
    assert("control"@.len() != "ctrl"@.len());
    assert("control"@.len() != "alt"@.len());
    assert("control"@.len() != "super"@.len());
    assert("control"@.len() != "win"@.len());
    assert("control"@.len() != "cmd"@.len());
    assert("control"@.len() != "hyper"@.len());
    assert("control"@.len() != "meta"@.len());
    let m = "control"@;
    assert("control+"@ + k =~= m + seq!['+'] + k);
    assert(ascii_lower(m) =~= m);
    lemma_two_words(m, k);
    let parts = seq![m, k];
    assert(parts[0] == m);
    assert(parts.last() == k);
}

proof fn lemma_modifier_alt(k: Seq<char>)
    requires
        k.len() > 0,
        no_plus(k),
        no_white_space(k),
        ascii_lower(k) == k,
    ensures
        parse_key_ascii("alt+"@ + k) == (KeyBind { code: key_code_of(k), modifiers: KeyModifiers { shift: false, control: false, alt: true, super_key: false, hyper: false, meta: false } }),
{
    reveal_strlit("shift");
    reveal_strlit("ctrl");
    reveal_strlit("control");
    reveal_strlit("alt");
    reveal_strlit("super");
    reveal_strlit("win");
    reveal_strlit("cmd");
    reveal_strlit("hyper");
    reveal_strlit("meta");
    reveal_strlit("alt+");
    assert("alt"@.len() != "shift"@.len());
    assert("alt"@.len() != "ctrl"@.len());
    assert("alt"@.len() != "control"@.len());
    assert("alt"@.len() != "super"@.len());
    assert("alt"@[0] != "win"@[0]);
    assert("alt"@[0] != "cmd"@[0]);
    assert("alt"@.len() != "hyper"@.len());
    assert("alt"@.len() != "meta"@.len());
    let m = "alt"@;
    assert("alt+"@ + k =~= m + seq!['+'] + k);
    assert(ascii_lower(m) =~= m);
    lemma_two_words(m, k);
    let parts = seq![m, k];
    assert(parts[0] == m);
    assert(parts.last() == k);
}

proof fn lemma_modifier_shift(k: Seq<char>)
    requires
        k.len() > 0,
        no_plus(k),
        no_white_space(k),
        ascii_lower(k) == k,
    ensures
        parse_key_ascii("shift+"@ + k) == (KeyBind { code: key_code_of(k), modifiers: KeyModifiers { shift: true, control: false, alt: false, super_key: false, hyper: false, meta: false } }),
{
    reveal_strlit("shift");
    reveal_strlit("ctrl");
    reveal_strlit("control");
    reveal_strlit("alt");
    reveal_strlit("super");
    reveal_strlit("win");
    reveal_strlit("cmd");
    reveal_strlit("hyper");
    reveal_strlit("meta");
    reveal_strlit("shift+");
    assert("shift"@.len() != "ctrl"@.len());
    assert("shift"@.len() != "control"@.len());
    assert("shift"@.len() != "alt"@.len());
    assert("shift"@[1] != "super"@[1]);
    assert("shift"@.len() != "win"@.len());
    assert("shift"@.len() != "cmd"@.len());
    assert("shift"@[0] != "hyper"@[0]);
    assert("shift"@.len() != "meta"@.len());
    let m = "shift"@;
    assert("shift+"@ + k =~= m + seq!['+'] + k);
    assert(ascii_lower(m) =~= m);
    lemma_two_words(m, k);
    let parts = seq![m, k];
    assert(parts[0] == m);
    assert(parts.last() == k);
}

proof fn lemma_modifier_super(k: Seq<char>)
    requires
        k.len() > 0,
        no_plus(k),
        no_white_space(k),
        ascii_lower(k) == k,
    ensures
        parse_key_ascii("super+"@ + k) == (KeyBind { code: key_code_of(k), modifiers: KeyModifiers { shift: false, control: false, alt: false, super_key: true, hyper: false, meta: false } }),
{
    reveal_strlit("shift");
    reveal_strlit("ctrl");
    reveal_strlit("control");
    reveal_strlit("alt");
    reveal_strlit("super");
    reveal_strlit("win");
    reveal_strlit("cmd");
    reveal_strlit("hyper");
    reveal_strlit("meta");
    reveal_strlit("super+");
    assert("super"@[1] != "shift"@[1]);
    assert("super"@.len() != "ctrl"@.len());
    assert("super"@.len() != "control"@.len());
    assert("super"@.len() != "alt"@.len());
    assert("super"@.len() != "win"@.len());
    assert("super"@.len() != "cmd"@.len());
    assert("super"@[0] != "hyper"@[0]);
    assert("super"@.len() != "meta"@.len());
    let m = "super"@;
    assert("super+"@ + k =~= m + seq!['+'] + k);
    assert(ascii_lower(m) =~= m);
    lemma_two_words(m, k);
    let parts = seq![m, k];
    assert(parts[0] == m);
    assert(parts.last() == k);
}

proof fn lemma_modifier_win(k: Seq<char>)
    requires
        k.len() > 0,
        no_plus(k),
        no_white_space(k),
        ascii_lower(k) == k,
    ensures
        parse_key_ascii("win+"@ + k) == (KeyBind { code: key_code_of(k), modifiers: KeyModifiers { shift: false, control: false, alt: false, super_key: true, hyper: false, meta: false } }),
{
    reveal_strlit("shift");
    reveal_strlit("ctrl");
    reveal_strlit("control");
    reveal_strlit("alt");
    reveal_strlit("super");
    reveal_strlit("win");
    reveal_strlit("cmd");
    reveal_strlit("hyper");
    reveal_strlit("meta");
    reveal_strlit("win+");
    assert("win"@.len() != "shift"@.len());
    assert("win"@.len() != "ctrl"@.len());
    assert("win"@.len() != "control"@.len());
    assert("win"@[0] != "alt"@[0]);
    assert("win"@.len() != "super"@.len());
    assert("win"@[0] != "cmd"@[0]);
    assert("win"@.len() != "hyper"@.len());
    assert("win"@.len() != "meta"@.len());
    let m = "win"@;
    assert("win+"@ + k =~= m + seq!['+'] + k);
    assert(ascii_lower(m) =~= m);
    lemma_two_words(m, k);
    let parts = seq![m, k];
    assert(parts[0] == m);
    assert(parts.last() == k);
}

proof fn lemma_modifier_cmd(k: Seq<char>)
    requires
        k.len() > 0,
        no_plus(k),
        no_white_space(k),
        ascii_lower(k) == k,
    ensures
        parse_key_ascii("cmd+"@ + k) == (KeyBind { code: key_code_of(k), modifiers: KeyModifiers { shift: false, control: false, alt: false, super_key: true, hyper: false, meta: false } }),
{
    reveal_strlit("shift");
    reveal_strlit("ctrl");
    reveal_strlit("control");
    reveal_strlit("alt");
    reveal_strlit("super");
    reveal_strlit("win");
    reveal_strlit("cmd");
    reveal_strlit("hyper");
    reveal_strlit("meta");
    reveal_strlit("cmd+");
    assert("cmd"@.len() != "shift"@.len());
    assert("cmd"@.len() != "ctrl"@.len());
    assert("cmd"@.len() != "control"@.len());
    assert("cmd"@[0] != "alt"@[0]);
    assert("cmd"@.len() != "super"@.len());
    assert("cmd"@[0] != "win"@[0]);
    assert("cmd"@.len() != "hyper"@.len());
    assert("cmd"@.len() != "meta"@.len());
    let m = "cmd"@;
    assert("cmd+"@ + k =~= m + seq!['+'] + k);
    assert(ascii_lower(m) =~= m);
    lemma_two_words(m, k);
    let parts = seq![m, k];
    assert(parts[0] == m);
    assert(parts.last() == k);
}

proof fn lemma_modifier_hyper(k: Seq<char>)
    requires
        k.len() > 0,
        no_plus(k),
        no_white_space(k),
        ascii_lower(k) == k,
    ensures
        parse_key_ascii("hyper+"@ + k) == (KeyBind { code: key_code_of(k), modifiers: KeyModifiers { shift: false, control: false, alt: false, super_key: false, hyper: true, meta: false } }),
{
    reveal_strlit("shift");
    reveal_strlit("ctrl");
    reveal_strlit("control");
    reveal_strlit("alt");
    reveal_strlit("super");
    reveal_strlit("win");
    reveal_strlit("cmd");
    reveal_strlit("hyper");
    reveal_strlit("meta");
    reveal_strlit("hyper+");
    assert("hyper"@[0] != "shift"@[0]);
    assert("hyper"@.len() != "ctrl"@.len());
    assert("hyper"@.len() != "control"@.len());
    assert("hyper"@.len() != "alt"@.len());
    assert("hyper"@[0] != "super"@[0]);
    assert("hyper"@.len() != "win"@.len());
    assert("hyper"@.len() != "cmd"@.len());
    assert("hyper"@.len() != "meta"@.len());
    let m = "hyper"@;
    assert("hyper+"@ + k =~= m + seq!['+'] + k);
    assert(ascii_lower(m) =~= m);
    lemma_two_words(m, k);
    let parts = seq![m, k];
    assert(parts[0] == m);
    assert(parts.last() == k);
}

proof fn lemma_modifier_meta(k: Seq<char>)
    requires
        k.len() > 0,
        no_plus(k),
        no_white_space(k),
        ascii_lower(k) == k,
    ensures
        parse_key_ascii("meta+"@ + k) == (KeyBind { code: key_code_of(k), modifiers: KeyModifiers { shift: false, control: false, alt: false, super_key: false, hyper: false, meta: true } }),
{
    reveal_strlit("shift");
    reveal_strlit("ctrl");
    reveal_strlit("control");
    reveal_strlit("alt");
    reveal_strlit("super");
    reveal_strlit("win");
    reveal_strlit("cmd");
    reveal_strlit("hyper");
    reveal_strlit("meta");
    reveal_strlit("meta+");
    assert("meta"@.len() != "shift"@.len());
    assert("meta"@[0] != "ctrl"@[0]);
    assert("meta"@.len() != "control"@.len());
    assert("meta"@.len() != "alt"@.len());
    assert("meta"@.len() != "super"@.len());
    assert("meta"@.len() != "win"@.len());
    assert("meta"@.len() != "cmd"@.len());
    assert("meta"@.len() != "hyper"@.len());
    let m = "meta"@;
    assert("meta+"@ + k =~= m + seq!['+'] + k);
    assert(ascii_lower(m) =~= m);
    lemma_two_words(m, k);
    let parts = seq![m, k];
    assert(parts[0] == m);
    assert(parts.last() == k);
}

/// Each modifier word, written before a key word, holds exactly its
/// modifier: `ctrl` and `control` Control, `alt` Alt, `shift` Shift, `super`,
/// `win` and `cmd` Super, `hyper` Hyper and `meta` Meta.
pub proof fn law_modifier_words(k: Seq<char>)
    requires
        k.len() > 0,
        no_plus(k),
        no_white_space(k),
        ascii_lower(k) == k,
    ensures
        parse_key_ascii("ctrl+"@ + k) == (KeyBind { code: key_code_of(k), modifiers: KeyModifiers { shift: false, control: true, alt: false, super_key: false, hyper: false, meta: false } }),
        parse_key_ascii("control+"@ + k) == (KeyBind { code: key_code_of(k), modifiers: KeyModifiers { shift: false, control: true, alt: false, super_key: false, hyper: false, meta: false } }),
        parse_key_ascii("alt+"@ + k) == (KeyBind { code: key_code_of(k), modifiers: KeyModifiers { shift: false, control: false, alt: true, super_key: false, hyper: false, meta: false } }),
        parse_key_ascii("shift+"@ + k) == (KeyBind { code: key_code_of(k), modifiers: KeyModifiers { shift: true, control: false, alt: false, super_key: false, hyper: false, meta: false } }),
        parse_key_ascii("super+"@ + k) == (KeyBind { code: key_code_of(k), modifiers: KeyModifiers { shift: false, control: false, alt: false, super_key: true, hyper: false, meta: false } }),
        parse_key_ascii("win+"@ + k) == (KeyBind { code: key_code_of(k), modifiers: KeyModifiers { shift: false, control: false, alt: false, super_key: true, hyper: false, meta: false } }),
        parse_key_ascii("cmd+"@ + k) == (KeyBind { code: key_code_of(k), modifiers: KeyModifiers { shift: false, control: false, alt: false, super_key: true, hyper: false, meta: false } }),
        parse_key_ascii("hyper+"@ + k) == (KeyBind { code: key_code_of(k), modifiers: KeyModifiers { shift: false, control: false, alt: false, super_key: false, hyper: true, meta: false } }),
        parse_key_ascii("meta+"@ + k) == (KeyBind { code: key_code_of(k), modifiers: KeyModifiers { shift: false, control: false, alt: false, super_key: false, hyper: false, meta: true } }),
{
    lemma_modifier_ctrl(k);
    lemma_modifier_control(k);
    lemma_modifier_alt(k);
    lemma_modifier_shift(k);
    lemma_modifier_super(k);
    lemma_modifier_win(k);
    lemma_modifier_cmd(k);
    lemma_modifier_hyper(k);
    lemma_modifier_meta(k);
}

impl KeyBind {
    pub open spec fn spec_matches(self, key: KeyEvent) -> bool {
        key.code == self.code && key.modifiers == self.modifiers
    }

    /// Whether a key press is exactly this binding: same key, same modifiers.
    pub fn matches(&self, key: &KeyEvent) -> (r: bool)
        ensures
            r == self.spec_matches(*key),
    {
        key.code == self.code && key.modifiers == self.modifiers
    }
}

/// The name of the first action, in the order quit, toggle_dotfiles,
/// toggle_winhidden, open_settings, switch_mode, open_explorer, go_home,
/// whose binding the key press is.
pub open spec fn spec_match_action(kb: Keybindings, key: KeyEvent) -> Option<&'static str> {
    if kb.quit.spec_matches(key) {
        Some("quit")
    } else if kb.toggle_dotfiles.spec_matches(key) {
        Some("toggle_dotfiles")
    } else if kb.toggle_winhidden.spec_matches(key) {
        Some("toggle_winhidden")
    } else if kb.open_settings.spec_matches(key) {
        Some("open_settings")
    } else if kb.switch_mode.spec_matches(key) {
        Some("switch_mode")
    } else if kb.open_explorer.spec_matches(key) {
        Some("open_explorer")
    } else if kb.go_home.spec_matches(key) {
        Some("go_home")
    } else {
        None
    }
}

impl Keybindings {
    /// The action bound to a key press, if any.
    pub fn match_action(&self, key: &KeyEvent) -> (r: Option<&'static str>)
        ensures
            r == spec_match_action(*self, *key),
    {
        if self.quit.matches(key) {
            Some("quit")
        } else if self.toggle_dotfiles.matches(key) {
            Some("toggle_dotfiles")
        } else if self.toggle_winhidden.matches(key) {
            Some("toggle_winhidden")
        } else if self.open_settings.matches(key) {
            Some("open_settings")
        } else if self.switch_mode.matches(key) {
            Some("switch_mode")
        } else if self.open_explorer.matches(key) {
            Some("open_explorer")
        } else if self.go_home.matches(key) {
            Some("go_home")
        } else {
            None
        }
    }

    /// Each binding parsed from its text.
    pub fn from_raw(raw: &KeybindingsRaw) -> (r: Keybindings)
        ensures
            r.quit == parse_key_spec(raw.quit@),
            r.toggle_dotfiles == parse_key_spec(raw.toggle_dotfiles@),
            r.toggle_winhidden == parse_key_spec(raw.toggle_winhidden@),
            r.open_settings == parse_key_spec(raw.open_settings@),
            r.switch_mode == parse_key_spec(raw.switch_mode@),
            r.open_explorer == parse_key_spec(raw.open_explorer@),
            r.go_home == parse_key_spec(raw.go_home@),
    {
        Keybindings {
            quit: parse_key(raw.quit.as_str()),
            toggle_dotfiles: parse_key(raw.toggle_dotfiles.as_str()),
            toggle_winhidden: parse_key(raw.toggle_winhidden.as_str()),
            open_settings: parse_key(raw.open_settings.as_str()),
            switch_mode: parse_key(raw.switch_mode.as_str()),
            open_explorer: parse_key(raw.open_explorer.as_str()),
            go_home: parse_key(raw.go_home.as_str()),
        }
    }
}

} // verus!

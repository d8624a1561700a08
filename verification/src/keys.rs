//! Key chords, the default keymap, user overrides and the help listing.

use vstd::prelude::*;
use crate::config::TuiConfig;
use crate::text::{
    dec, dec_string, push_all, push_char,
    all_digits, ascii_lower, char_ascii_lower, chars_of, parse_unsigned, parse_unsigned_exec,
    split_char, split_on, trim_bounds, trim_seq, vec_eq_str, lemma_split_len,
};

verus! {

/// A key, as the terminal reports it.
#[derive(Clone, Copy, Debug, PartialEq, Eq, Structural)]
pub enum KeyCode {
    Char(char),
    Enter,
    Esc,
    Backspace,
    Delete,
    Up,
    Down,
    Left,
    Right,
    Tab,
    F(u8),
    /// Any other key (home, end, page keys, media keys, ...).
    Other,
}

/// Modifier keys held with a key. `extra` stands for super, hyper and meta.
#[derive(Clone, Copy, Debug, PartialEq, Eq, Structural)]
pub struct KeyModifiers {
    pub shift: bool,
    pub control: bool,
    pub alt: bool,
    pub extra: bool,
}

/// A key together with the modifiers that must accompany it.
#[derive(Clone, Copy, Debug, PartialEq, Eq, Structural)]
pub struct KeyChord {
    pub code: KeyCode,
    pub mods: KeyModifiers,
}

/// A key press event.
#[derive(Clone, Copy, Debug, PartialEq, Eq, Structural)]
pub struct KeyEvent {
    pub code: KeyCode,
    pub modifiers: KeyModifiers,
}

pub open spec fn no_mods() -> KeyModifiers {
    KeyModifiers { shift: false, control: false, alt: false, extra: false }
}

pub open spec fn ctrl_mods() -> KeyModifiers {
    KeyModifiers { shift: false, control: true, alt: false, extra: false }
}

pub open spec fn shift_mods() -> KeyModifiers {
    KeyModifiers { shift: true, control: false, alt: false, extra: false }
}

impl KeyModifiers {
    pub fn none() -> (m: KeyModifiers)
        ensures
            m == no_mods(),
    {
        KeyModifiers { shift: false, control: false, alt: false, extra: false }
    }

    pub fn ctrl() -> (m: KeyModifiers)
        ensures
            m == ctrl_mods(),
    {
        KeyModifiers { shift: false, control: true, alt: false, extra: false }
    }

    pub fn shift_only() -> (m: KeyModifiers)
        ensures
            m == shift_mods(),
    {
        KeyModifiers { shift: true, control: false, alt: false, extra: false }
    }

    pub open spec fn spec_is_empty(self) -> bool {
        !self.shift && !self.control && !self.alt && !self.extra
    }

    /// Every modifier of `other` is held in `self` (`KeyModifiers::contains`).
    pub open spec fn spec_contains(self, other: KeyModifiers) -> bool {
        &&& other.shift ==> self.shift
        &&& other.control ==> self.control
        &&& other.alt ==> self.alt
        &&& other.extra ==> self.extra
    }

    pub fn is_empty(&self) -> (r: bool)
        ensures
            r == self.spec_is_empty(),
    {
        !self.shift && !self.control && !self.alt && !self.extra
    }

    pub fn contains(&self, other: &KeyModifiers) -> (r: bool)
        ensures
            r == self.spec_contains(*other),
    {
        (!other.shift || self.shift) && (!other.control || self.control) && (!other.alt
            || self.alt) && (!other.extra || self.extra)
    }
}

pub open spec fn chord(code: KeyCode, mods: KeyModifiers) -> KeyChord {
    KeyChord { code, mods }
}

// ───────────────────────── default keymap ─────────────────────────

/// The overridable actions and their default chords, in presentation order.
pub open spec fn default_bindings() -> Seq<(Seq<char>, KeyChord)> {
    seq![
        ("quit"@, chord(KeyCode::Char('q'), no_mods())),
        ("add"@, chord(KeyCode::Char('n'), no_mods())),
        ("edit"@, chord(KeyCode::Char('e'), no_mods())),
        ("delete"@, chord(KeyCode::Char('d'), no_mods())),
        ("bulk_delete"@, chord(KeyCode::Char('D'), no_mods())),
        ("bulk_append"@, chord(KeyCode::Char('T'), no_mods())),
        ("toggle_done"@, chord(KeyCode::Char('x'), no_mods())),
        ("filter_open"@, chord(KeyCode::Char('f'), no_mods())),
        ("filter_define"@, chord(KeyCode::Char('F'), no_mods())),
        ("filter_toggle"@, chord(KeyCode::Char('f'), ctrl_mods())),
        ("sort_cycle"@, chord(KeyCode::Char('o'), no_mods())),
        ("group_toggle"@, chord(KeyCode::Char('G'), no_mods())),
        ("group_by_cycle"@, chord(KeyCode::Char('g'), no_mods())),
        ("deferred_toggle"@, chord(KeyCode::Char('h'), no_mods())),
        ("theme_cycle"@, chord(KeyCode::Char('t'), no_mods())),
        ("disjoint_select"@, chord(KeyCode::Char('v'), no_mods())),
        ("disjoint_mark"@, chord(KeyCode::Char(' '), no_mods())),
        ("help"@, chord(KeyCode::Char('?'), no_mods())),
        ("clear_filter"@, chord(KeyCode::Char('0'), no_mods())),
        ("reload"@, chord(KeyCode::Char('.'), no_mods())),
        ("quick_context"@, chord(KeyCode::Char('@'), no_mods())),
        ("quick_project"@, chord(KeyCode::Char('+'), no_mods())),
        ("pane_add"@, chord(KeyCode::Char('n'), ctrl_mods())),
        ("pane_delete"@, chord(KeyCode::Char('w'), ctrl_mods())),
        ("pane_hide_toggle"@, chord(KeyCode::Char('p'), ctrl_mods())),
        ("pane_move_left"@, chord(KeyCode::Left, ctrl_mods())),
        ("pane_move_right"@, chord(KeyCode::Right, ctrl_mods())),
    ]
}

/// A keymap: action names with their chords.
pub type Keymap = Vec<(String, KeyChord)>;

pub open spec fn keymap_view(m: Keymap) -> Seq<(Seq<char>, KeyChord)> {
    m@.map_values(|e: (String, KeyChord)| (e.0@, e.1))
}

fn push_binding(m: &mut Keymap, name: &str, code: KeyCode, mods: KeyModifiers)
    ensures
        keymap_view(*final(m)) == keymap_view(*old(m)).push((name@, chord(code, mods))),
{
    let ghost before = keymap_view(*m);
    m.push((String::from_str(name), KeyChord { code, mods }));
    assert(keymap_view(*m) =~= before.push((name@, chord(code, mods))));
}

/// The default bindings of every overridable Normal-mode action.
pub fn default_keymap() -> (m: Keymap)
    ensures
        keymap_view(m) == default_bindings(),
{
    let mut m: Keymap = Vec::new();
    let n = KeyModifiers::none();
    let c = KeyModifiers::ctrl();
    assert(keymap_view(m) =~= Seq::<(Seq<char>, KeyChord)>::empty());
    push_binding(&mut m, "quit", KeyCode::Char('q'), n);
    push_binding(&mut m, "add", KeyCode::Char('n'), n);
    push_binding(&mut m, "edit", KeyCode::Char('e'), n);
    push_binding(&mut m, "delete", KeyCode::Char('d'), n);
    push_binding(&mut m, "bulk_delete", KeyCode::Char('D'), n);
    push_binding(&mut m, "bulk_append", KeyCode::Char('T'), n);
    push_binding(&mut m, "toggle_done", KeyCode::Char('x'), n);
    push_binding(&mut m, "filter_open", KeyCode::Char('f'), n);
    push_binding(&mut m, "filter_define", KeyCode::Char('F'), n);
    push_binding(&mut m, "filter_toggle", KeyCode::Char('f'), c);
    push_binding(&mut m, "sort_cycle", KeyCode::Char('o'), n);
    push_binding(&mut m, "group_toggle", KeyCode::Char('G'), n);
    push_binding(&mut m, "group_by_cycle", KeyCode::Char('g'), n);
    push_binding(&mut m, "deferred_toggle", KeyCode::Char('h'), n);
    push_binding(&mut m, "theme_cycle", KeyCode::Char('t'), n);
    push_binding(&mut m, "disjoint_select", KeyCode::Char('v'), n);
    push_binding(&mut m, "disjoint_mark", KeyCode::Char(' '), n);
    push_binding(&mut m, "help", KeyCode::Char('?'), n);
    push_binding(&mut m, "clear_filter", KeyCode::Char('0'), n);
    push_binding(&mut m, "reload", KeyCode::Char('.'), n);
    push_binding(&mut m, "quick_context", KeyCode::Char('@'), n);
    push_binding(&mut m, "quick_project", KeyCode::Char('+'), n);
    push_binding(&mut m, "pane_add", KeyCode::Char('n'), c);
    push_binding(&mut m, "pane_delete", KeyCode::Char('w'), c);
    push_binding(&mut m, "pane_hide_toggle", KeyCode::Char('p'), c);
    push_binding(&mut m, "pane_move_left", KeyCode::Left, c);
    push_binding(&mut m, "pane_move_right", KeyCode::Right, c);
    assert(keymap_view(m) =~= default_bindings());
    m
}

// ───────────────────────── chord parsing ─────────────────────────

pub open spec fn ascii_lower_seq(s: Seq<char>) -> Seq<char> {
    s.map_values(|c: char| ascii_lower(c))
}

/// The modifiers named by `toks` ("ctrl", "shift", "alt"), or `None` if one is unknown.
pub open spec fn mods_of(toks: Seq<Seq<char>>) -> Option<KeyModifiers>
    decreases toks.len(),
{
    if toks.len() == 0 {
        Some(no_mods())
    } else {
        match mods_of(toks.drop_last()) {
            None => None,
            Some(m) => {
                let t = toks.last();
                if t == "ctrl"@ {
                    Some(KeyModifiers { control: true, ..m })
                } else if t == "shift"@ {
                    Some(KeyModifiers { shift: true, ..m })
                } else if t == "alt"@ {
                    Some(KeyModifiers { alt: true, ..m })
                } else {
                    None
                }
            },
        }
    }
}

/// The key named by a lower-cased token.
pub open spec fn key_of_token(t: Seq<char>) -> Option<KeyCode> {
    if t == "enter"@ {
        Some(KeyCode::Enter)
    } else if t == "esc"@ {
        Some(KeyCode::Esc)
    } else if t == "backspace"@ {
        Some(KeyCode::Backspace)
    } else if t == "delete"@ || t == "del"@ {
        Some(KeyCode::Delete)
    } else if t == "up"@ {
        Some(KeyCode::Up)
    } else if t == "down"@ {
        Some(KeyCode::Down)
    } else if t == "left"@ {
        Some(KeyCode::Left)
    } else if t == "right"@ {
        Some(KeyCode::Right)
    } else if t == "tab"@ {
        Some(KeyCode::Tab)
    } else if t == "space"@ {
        Some(KeyCode::Char(' '))
    } else if t.len() > 1 && t[0] == 'f' {
        match parse_unsigned(t.drop_first(), 255) {
            Some(n) => if 1 <= n <= 12 {
                Some(KeyCode::F(n as u8))
            } else {
                None
            },
            None => None,
        }
    } else if t.len() == 1 {
        Some(KeyCode::Char(t[0]))
    } else {
        None
    }
}

/// What a chord string such as `"ctrl+d"`, `"f5"`, `"?"` or `"space"` denotes:
/// trimmed and ASCII-lower-cased, split on `+` into modifier tokens and a final key
/// token.
pub open spec fn chord_of(s: Seq<char>) -> Option<KeyChord> {
    let n = ascii_lower_seq(trim_seq(s));
    if n.len() == 0 {
        None
    } else {
        let parts = split_on(n, '+');
        let key = parts.last();
        if key.len() == 0 {
            None
        } else {
            match mods_of(parts.drop_last()) {
                None => None,
                Some(m) => match key_of_token(key) {
                    None => None,
                    Some(code) => Some(chord(code, m)),
                },
            }
        }
    }
}

fn key_of_token_exec(t: &Vec<char>) -> (r: Option<KeyCode>)
    ensures
        r == key_of_token(t@),
{
    if vec_eq_str(t, "enter") {
        Some(KeyCode::Enter)
    } else if vec_eq_str(t, "esc") {
        Some(KeyCode::Esc)
    } else if vec_eq_str(t, "backspace") {
        Some(KeyCode::Backspace)
    } else if vec_eq_str(t, "delete") || vec_eq_str(t, "del") {
        Some(KeyCode::Delete)
    } else if vec_eq_str(t, "up") {
        Some(KeyCode::Up)
    } else if vec_eq_str(t, "down") {
        Some(KeyCode::Down)
    } else if vec_eq_str(t, "left") {
        Some(KeyCode::Left)
    } else if vec_eq_str(t, "right") {
        Some(KeyCode::Right)
    } else if vec_eq_str(t, "tab") {
        Some(KeyCode::Tab)
    } else if vec_eq_str(t, "space") {
        Some(KeyCode::Char(' '))
    } else if t.len() > 1 && t[0] == 'f' {
        let mut rest: Vec<char> = Vec::new();
        let mut i: usize = 1;
        while i < t.len()
            invariant
                1 <= i <= t.len(),
                rest@ == t@.subrange(1, i as int),
            decreases t.len() - i,
        {
            rest.push(t[i]);
            i += 1;
            assert(rest@ =~= t@.subrange(1, i as int));
        }
        assert(rest@ =~= t@.drop_first());
        match parse_unsigned_exec(&rest, 255) {
            Some(n) => if 1 <= n && n <= 12 {
                Some(KeyCode::F(n as u8))
            } else {
                None
            },
            None => None,
        }
    } else if t.len() == 1 {
        Some(KeyCode::Char(t[0]))
    } else {
        None
    }
}

/// Parses a human-readable key chord such as `"ctrl+d"`, `"backspace"`, `"f5"`, `"?"`.
/// Returns `None` for empty input or unrecognized tokens.
pub fn parse_key_chord(s: &str) -> (r: Option<KeyChord>)
    ensures
        r == chord_of(s@),
{
    let raw = chars_of(s);
    let (a, b) = trim_bounds(&raw);
    let mut n: Vec<char> = Vec::new();
    let mut i = a;
    while i < b
        invariant
            a <= i <= b <= raw.len(),
            n@ == ascii_lower_seq(raw@.subrange(a as int, i as int)),
        decreases b - i,
    {
        n.push(char_ascii_lower(raw[i]));
        i += 1;
        assert(n@ =~= ascii_lower_seq(raw@.subrange(a as int, i as int)));
    }
    assert(raw@.subrange(a as int, b as int) == trim_seq(s@));
    assert(n@ == ascii_lower_seq(trim_seq(s@)));
    if n.len() == 0 {
        return None;
    }
    let parts = split_char(&n, '+');
    proof {
        lemma_split_len(n@, '+');
    }
    let last = parts.len() - 1;
    if parts[last].len() == 0 {
        return None;
    }
    let ghost toks = split_on(n@, '+');
    let mut m = KeyModifiers::none();
    let mut k: usize = 0;
    while k < last
        invariant
            last + 1 == parts@.len(),
            parts@.len() == toks.len(),
            forall|j: int| 0 <= j < parts@.len() ==> (#[trigger] parts@[j])@ == toks[j],
            k <= last,
            mods_of(toks.take(k as int)) == Some(m),
            toks == split_on(n@, '+'),
            n@ == ascii_lower_seq(trim_seq(s@)),
            n@.len() > 0,
            parts@[last as int]@.len() > 0,
        decreases last - k,
    {
        let t = &parts[k];
        proof {
            assert(toks.take(k + 1).drop_last() =~= toks.take(k as int));
            assert(toks.take(k + 1).last() == toks[k as int]);
        }
        if vec_eq_str(t, "ctrl") {
            m = KeyModifiers { control: true, ..m };
        } else if vec_eq_str(t, "shift") {
            m = KeyModifiers { shift: true, ..m };
        } else if vec_eq_str(t, "alt") {
            m = KeyModifiers { alt: true, ..m };
        } else {
            proof {
                assert(t@ == toks[k as int]);
                assert(mods_of(toks.take(k + 1)) is None);
                assert(toks.drop_last().take(k + 1) =~= toks.take(k + 1));
                lemma_mods_none_prefix(toks.drop_last(), k as int + 1);
                assert(mods_of(toks.drop_last()) is None);
                assert(n@ == ascii_lower_seq(trim_seq(s@)));
                assert(toks.last() == parts@[last as int]@);
                assert(chord_of(s@) is None);
            }
            return None;
        }
        k += 1;
    }
    assert(toks.take(last as int) =~= toks.drop_last());
    match key_of_token_exec(&parts[last]) {
        Some(code) => Some(KeyChord { code, mods: m }),
        None => None,
    }
}

/// Once a prefix of the modifier tokens is invalid, the whole list is.
pub proof fn lemma_mods_none_prefix(toks: Seq<Seq<char>>, k: int)
    requires
        0 <= k <= toks.len(),
        mods_of(toks.take(k)) is None,
    ensures
        mods_of(toks) is None,
    decreases toks.len() - k,
{
    if k < toks.len() {
        assert(toks.take(k + 1).drop_last() =~= toks.take(k));
        lemma_mods_none_prefix(toks, k + 1);
    } else {
        assert(toks.take(k) =~= toks);
    }
}

// ───────────────────────── overrides ─────────────────────────

pub open spec fn binding_names(m: Seq<(Seq<char>, KeyChord)>) -> Seq<Seq<char>> {
    m.map_values(|e: (Seq<char>, KeyChord)| e.0)
}

/// `name` is one of the overridable actions.
pub open spec fn known_action(name: Seq<char>) -> bool {
    exists|i: int| 0 <= i < default_bindings().len() && (#[trigger] default_bindings()[i]).0 == name
}

/// `m` with every binding of `name` set to `c`.
pub open spec fn rebind(m: Seq<(Seq<char>, KeyChord)>, name: Seq<char>, c: KeyChord) -> Seq<
    (Seq<char>, KeyChord),
> {
    m.map_values(|e: (Seq<char>, KeyChord)| if e.0 == name { (e.0, c) } else { e })
}

pub open spec fn entries_view(v: Vec<(String, String)>) -> Seq<(Seq<char>, Seq<char>)> {
    v@.map_values(|e: (String, String)| (e.0@, e.1@))
}

/// The defaults after applying, in order, every override whose action is known
/// and whose chord parses.
pub open spec fn overrides_applied(entries: Seq<(Seq<char>, Seq<char>)>) -> Seq<
    (Seq<char>, KeyChord),
>
    decreases entries.len(),
{
    if entries.len() == 0 {
        default_bindings()
    } else {
        let prev = overrides_applied(entries.drop_last());
        let e = entries.last();
        if known_action(e.0) && chord_of(e.1) is Some {
            rebind(prev, e.0, chord_of(e.1).unwrap())
        } else {
            prev
        }
    }
}

/// The names of the actions in `p` bound to `c`, in order.
pub open spec fn names_bound_to(p: Seq<(Seq<char>, KeyChord)>, c: KeyChord) -> Seq<Seq<char>>
    decreases p.len(),
{
    if p.len() == 0 {
        Seq::empty()
    } else {
        let r = names_bound_to(p.drop_last(), c);
        if p.last().1 == c {
            r.push(p.last().0)
        } else {
            r
        }
    }
}

/// The effective bindings: overrides applied, and every action whose chord is
/// shared with another action put back to its default.
pub open spec fn resolved_bindings(entries: Seq<(Seq<char>, Seq<char>)>) -> Seq<
    (Seq<char>, KeyChord),
> {
    let p = overrides_applied(entries);
    Seq::new(
        p.len(),
        |i: int|
            if names_bound_to(p, p[i].1).len() > 1 {
                default_bindings()[i]
            } else {
                p[i]
            },
    )
}

pub open spec fn unknown_msg(a: Seq<char>) -> Seq<char> {
    "unknown action '"@ + a + "' in [keymap] \u{2014} ignored"@
}

pub open spec fn invalid_msg(c: Seq<char>, a: Seq<char>) -> Seq<char> {
    "invalid key chord '"@ + c + "' for action '"@ + a + "' in [keymap] \u{2014} default used"@
}

/// Warnings for the override entries, in order: unknown actions and unparseable chords.
pub open spec fn entry_warnings(entries: Seq<(Seq<char>, Seq<char>)>) -> Seq<Seq<char>>
    decreases entries.len(),
{
    if entries.len() == 0 {
        Seq::empty()
    } else {
        let w = entry_warnings(entries.drop_last());
        let e = entries.last();
        if !known_action(e.0) {
            w.push(unknown_msg(e.0))
        } else if chord_of(e.1) is None {
            w.push(invalid_msg(e.1, e.0))
        } else {
            w
        }
    }
}

/// `parts` joined with `sep` between them.
pub open spec fn join(parts: Seq<Seq<char>>, sep: Seq<char>) -> Seq<char>
    decreases parts.len(),
{
    if parts.len() == 0 {
        Seq::empty()
    } else if parts.len() == 1 {
        parts[0]
    } else {
        join(parts.drop_last(), sep) + sep + parts.last()
    }
}

pub open spec fn char_debug(c: char) -> Seq<char> {
    if c == '\'' {
        "\\'"@
    } else if c == '\\' {
        "\\\\"@
    } else {
        seq![c]
    }
}

/// The debug form of a key (`Char('x')`, `Enter`, `F(5)`, ...).
pub open spec fn code_debug(k: KeyCode) -> Seq<char> {
    match k {
        KeyCode::Char(c) => "Char('"@ + char_debug(c) + "')"@,
        KeyCode::Enter => "Enter"@,
        KeyCode::Esc => "Esc"@,
        KeyCode::Backspace => "Backspace"@,
        KeyCode::Delete => "Delete"@,
        KeyCode::Up => "Up"@,
        KeyCode::Down => "Down"@,
        KeyCode::Left => "Left"@,
        KeyCode::Right => "Right"@,
        KeyCode::Tab => "Tab"@,
        KeyCode::F(n) => "F("@ + dec(n as nat) + ")"@,
        KeyCode::Other => "Other"@,
    }
}

pub open spec fn mod_names(m: KeyModifiers) -> Seq<Seq<char>> {
    let a = if m.shift { seq!["SHIFT"@] } else { Seq::empty() };
    let b = if m.control { a.push("CONTROL"@) } else { a };
    let c = if m.alt { b.push("ALT"@) } else { b };
    if m.extra { c.push("SUPER"@) } else { c }
}

/// The debug form of a set of modifiers (`KeyModifiers(0x0)`, `KeyModifiers(CONTROL)`).
pub open spec fn mods_debug(m: KeyModifiers) -> Seq<char> {
    let n = mod_names(m);
    if n.len() == 0 {
        "KeyModifiers(0x0)"@
    } else {
        "KeyModifiers("@ + join(n, " | "@) + ")"@
    }
}

pub open spec fn chord_debug(c: KeyChord) -> Seq<char> {
    code_debug(c.code) + "+"@ + mods_debug(c.mods)
}

pub open spec fn conflict_msg(names: Seq<Seq<char>>, c: KeyChord) -> Seq<char> {
    "conflict: actions ["@ + join(names, ", "@) + "] all bound to "@ + chord_debug(c)
        + " \u{2014} all reverted to defaults"@
}

pub open spec fn first_with_chord(p: Seq<(Seq<char>, KeyChord)>, k: int) -> bool {
    forall|j: int| 0 <= j < k ==> (#[trigger] p[j]).1 != p[k].1
}

/// One warning per chord shared by several actions, in order of first binding.
pub open spec fn conflict_warnings(p: Seq<(Seq<char>, KeyChord)>, i: int) -> Seq<Seq<char>>
    decreases i,
{
    if i <= 0 {
        Seq::empty()
    } else {
        let w = conflict_warnings(p, i - 1);
        let k = i - 1;
        let names = names_bound_to(p, p[k].1);
        if first_with_chord(p, k) && names.len() > 1 {
            w.push(conflict_msg(names, p[k].1))
        } else {
            w
        }
    }
}

pub open spec fn strings_view(v: Vec<String>) -> Seq<Seq<char>> {
    v@.map_values(|s: String| s@)
}

pub proof fn lemma_overrides_shape(entries: Seq<(Seq<char>, Seq<char>)>)
    ensures
        binding_names(overrides_applied(entries)) == binding_names(default_bindings()),
        overrides_applied(entries).len() == default_bindings().len(),
    decreases entries.len(),
{
    if entries.len() > 0 {
        lemma_overrides_shape(entries.drop_last());
        let prev = overrides_applied(entries.drop_last());
        let e = entries.last();
        if known_action(e.0) && chord_of(e.1) is Some {
            assert(binding_names(rebind(prev, e.0, chord_of(e.1).unwrap())) =~= binding_names(
                prev,
            ));
        }
    }
}

fn is_known_action(name: &String) -> (r: bool)
    ensures
        r == known_action(name@),
{
    let d = default_keymap();
    let mut i: usize = 0;
    while i < d.len()
        invariant
            keymap_view(d) == default_bindings(),
            i <= d.len(),
            forall|j: int| 0 <= j < i ==> (#[trigger] default_bindings()[j]).0 != name@,
        decreases d.len() - i,
    {
        assert(keymap_view(d)[i as int] == (d@[i as int].0@, d@[i as int].1));
        if d[i].0 == *name {
            return true;
        }
        i += 1;
    }
    false
}

fn set_binding(m: &mut Keymap, name: &String, c: KeyChord)
    ensures
        keymap_view(*final(m)) == rebind(keymap_view(*old(m)), name@, c),
{
    let ghost before = keymap_view(*m);
    let mut i: usize = 0;
    while i < m.len()
        invariant
            i <= m.len(),
            m@.len() == before.len(),
            forall|j: int| 0 <= j < i ==> keymap_view(*m)[j] == rebind(before, name@, c)[j],
            forall|j: int| i <= j < m@.len() ==> keymap_view(*m)[j] == before[j],
        decreases m.len() - i,
    {
        let ghost mi = keymap_view(*m);
        if m[i].0 == *name {
            let n = m[i].0.clone();
            m.set(i, (n, c));
        }
        assert(keymap_view(*m)[i as int] == rebind(before, name@, c)[i as int]);
        assert forall|j: int| 0 <= j < i + 1 implies keymap_view(*m)[j] == rebind(
            before,
            name@,
            c,
        )[j] by {
            if j < i {
                assert(keymap_view(*m)[j] == mi[j]);
            }
        }
        i += 1;
    }
    assert(keymap_view(*m) =~= rebind(before, name@, c));
}

fn names_bound_to_exec(p: &Keymap, c: KeyChord) -> (r: Vec<String>)
    ensures
        strings_view(r) == names_bound_to(keymap_view(*p), c),
{
    let mut r: Vec<String> = Vec::new();
    let mut i: usize = 0;
    while i < p.len()
        invariant
            i <= p.len(),
            strings_view(r) == names_bound_to(keymap_view(*p).take(i as int), c),
        decreases p.len() - i,
    {
        let ghost pv = keymap_view(*p);
        proof {
            assert(pv.take(i + 1).drop_last() =~= pv.take(i as int));
        }
        if p[i].1 == c {
            r.push(p[i].0.clone());
        }
        i += 1;
        assert(strings_view(r) =~= names_bound_to(pv.take(i as int), c));
    }
    assert(keymap_view(*p).take(p.len() as int) =~= keymap_view(*p));
    r
}

/// The parts joined with `sep` between them.
pub fn join_exec(parts: &Vec<String>, sep: &str) -> (r: String)
    ensures
        r@ == join(strings_view(*parts), sep@),
{
    let mut r = String::new();
    let mut i: usize = 0;
    while i < parts.len()
        invariant
            i <= parts.len(),
            r@ == join(strings_view(*parts).take(i as int), sep@),
        decreases parts.len() - i,
    {
        let ghost pv = strings_view(*parts);
        proof {
            assert(pv.take(i + 1).drop_last() =~= pv.take(i as int));
        }
        if i > 0 {
            push_all(&mut r, sep);
        }
        push_all(&mut r, parts[i].as_str());
        i += 1;
        proof {
            if i == 1 {
                assert(r@ =~= join(pv.take(1), sep@));
            } else {
                assert(r@ =~= join(pv.take(i as int), sep@));
            }
        }
    }
    assert(strings_view(*parts).take(parts.len() as int) =~= strings_view(*parts));
    r
}

fn push_char_debug(s: &mut String, c: char)
    ensures
        final(s)@ == old(s)@ + char_debug(c),
{
    if c == '\'' {
        push_all(s, "\\'");
    } else if c == '\\' {
        push_all(s, "\\\\");
    } else {
        push_char(s, c);
        assert(old(s)@.push(c) =~= old(s)@ + seq![c]);
    }
}

fn code_debug_exec(k: KeyCode) -> (r: String)
    ensures
        r@ == code_debug(k),
{
    match k {
        KeyCode::Char(c) => {
            let mut s = String::from_str("Char('");
            push_char_debug(&mut s, c);
            push_all(&mut s, "')");
            s
        },
        KeyCode::Enter => String::from_str("Enter"),
        KeyCode::Esc => String::from_str("Esc"),
        KeyCode::Backspace => String::from_str("Backspace"),
        KeyCode::Delete => String::from_str("Delete"),
        KeyCode::Up => String::from_str("Up"),
        KeyCode::Down => String::from_str("Down"),
        KeyCode::Left => String::from_str("Left"),
        KeyCode::Right => String::from_str("Right"),
        KeyCode::Tab => String::from_str("Tab"),
        KeyCode::F(n) => {
            let mut s = String::from_str("F(");
            let d = dec_string(n as u64);
            push_all(&mut s, d.as_str());
            push_all(&mut s, ")");
            s
        },
        KeyCode::Other => String::from_str("Other"),
    }
}

fn mods_debug_exec(m: KeyModifiers) -> (r: String)
    ensures
        r@ == mods_debug(m),
{
    let mut names: Vec<String> = Vec::new();
    if m.shift {
        names.push(String::from_str("SHIFT"));
    }
    if m.control {
        names.push(String::from_str("CONTROL"));
    }
    if m.alt {
        names.push(String::from_str("ALT"));
    }
    if m.extra {
        names.push(String::from_str("SUPER"));
    }
    assert(strings_view(names) =~= mod_names(m));
    if names.len() == 0 {
        String::from_str("KeyModifiers(0x0)")
    } else {
        let mut s = String::from_str("KeyModifiers(");
        let j = join_exec(&names, " | ");
        push_all(&mut s, j.as_str());
        push_all(&mut s, ")");
        s
    }
}

fn conflict_msg_exec(names: &Vec<String>, c: KeyChord) -> (r: String)
    ensures
        r@ == conflict_msg(strings_view(*names), c),
{
    let mut s = String::from_str("conflict: actions [");
    let j = join_exec(names, ", ");
    push_all(&mut s, j.as_str());
    push_all(&mut s, "] all bound to ");
    let cd = code_debug_exec(c.code);
    push_all(&mut s, cd.as_str());
    push_all(&mut s, "+");
    let md = mods_debug_exec(c.mods);
    push_all(&mut s, md.as_str());
    push_all(&mut s, " \u{2014} all reverted to defaults");
    s
}

/// Builds the session's key bindings: the defaults with the valid overrides of
/// `config.keymap` applied, every action whose chord is then shared with another
/// action reverted to its default; with one warning per unknown action, per
/// unparseable chord, and per shared chord.
pub fn resolve_keymap(config: &TuiConfig) -> (r: (Keymap, Vec<String>))
    ensures
        keymap_view(r.0) == resolved_bindings(entries_view(config.keymap)),
        strings_view(r.1) == entry_warnings(entries_view(config.keymap)) + conflict_warnings(
            overrides_applied(entries_view(config.keymap)),
            default_bindings().len() as int,
        ),
{
    let ghost entries = entries_view(config.keymap);
    let mut effective = default_keymap();
    let mut warnings: Vec<String> = Vec::new();
    let mut i: usize = 0;
    while i < config.keymap.len()
        invariant
            i <= config.keymap.len(),
            entries == entries_view(config.keymap),
            keymap_view(effective) == overrides_applied(entries.take(i as int)),
            strings_view(warnings) == entry_warnings(entries.take(i as int)),
        decreases config.keymap.len() - i,
    {
        proof {
            assert(entries.take(i + 1).drop_last() =~= entries.take(i as int));
            assert(entries.take(i + 1).last() == (config.keymap@[i as int].0@, config.keymap@[
                i as int
            ].1@));
        }
        let action = &config.keymap[i].0;
        let chord_str = &config.keymap[i].1;
        if !is_known_action(action) {
            let mut w = String::from_str("unknown action '");
            push_all(&mut w, action.as_str());
            push_all(&mut w, "' in [keymap] \u{2014} ignored");
            warnings.push(w);
        } else {
            match parse_key_chord(chord_str.as_str()) {
                Some(b) => {
                    set_binding(&mut effective, action, b);
                },
                None => {
                    let mut w = String::from_str("invalid key chord '");
                    push_all(&mut w, chord_str.as_str());
                    push_all(&mut w, "' for action '");
                    push_all(&mut w, action.as_str());
                    push_all(&mut w, "' in [keymap] \u{2014} default used");
                    warnings.push(w);
                },
            }
        }
        i += 1;
        assert(strings_view(warnings) =~= entry_warnings(entries.take(i as int)));
    }
    assert(entries.take(config.keymap.len() as int) =~= entries);
    let ghost p = keymap_view(effective);
    proof {
        lemma_overrides_shape(entries);
    }
    let defaults = default_keymap();
    let ghost w0 = strings_view(warnings);
    let mut resolved: Keymap = Vec::new();
    let mut k: usize = 0;
    while k < effective.len()
        invariant
            p == keymap_view(effective),
            p == overrides_applied(entries),
            p.len() == default_bindings().len(),
            keymap_view(defaults) == default_bindings(),
            k <= effective.len(),
            keymap_view(resolved) == resolved_bindings(entries).take(k as int),
            strings_view(warnings) == w0 + conflict_warnings(p, k as int),
        decreases effective.len() - k,
    {
        let c = effective[k].1;
        assert(p[k as int].1 == c);
        let names = names_bound_to_exec(&effective, c);
        let mut first = true;
        let mut j: usize = 0;
        while j < k
            invariant
                j <= k < effective.len(),
                p == keymap_view(effective),
                c == p[k as int].1,
                first == (forall|x: int| 0 <= x < j ==> (#[trigger] p[x]).1 != c),
            decreases k - j,
        {
            assert(p[j as int].1 == effective@[j as int].1);
            if effective[j].1 == c {
                first = false;
            }
            j += 1;
        }
        let ghost wprev = strings_view(warnings);
        let ghost rprev = keymap_view(resolved);
        assert(keymap_view(defaults)[k as int] == (defaults@[k as int].0@, defaults@[k as int].1));
        assert(p[k as int] == (effective@[k as int].0@, effective@[k as int].1));
        assert(first == first_with_chord(p, k as int));
        if names.len() > 1 {
            let d = &defaults[k];
            resolved.push((d.0.clone(), d.1));
            if first {
                let msg = conflict_msg_exec(&names, c);
                warnings.push(msg);
                assert(strings_view(warnings) =~= wprev.push(msg@));
            } else {
                assert(strings_view(warnings) =~= wprev);
            }
        } else {
            let e = &effective[k];
            resolved.push((e.0.clone(), e.1));
            assert(strings_view(warnings) =~= wprev);
        }
        proof {
            let rb = resolved_bindings(entries);
            assert(keymap_view(resolved) =~= rprev.push(rb[k as int]));
            let cw = conflict_warnings(p, k as int + 1);
            assert(cw == (if first_with_chord(p, k as int) && names_bound_to(p, p[k as int].1).len() > 1 {
                conflict_warnings(p, k as int).push(conflict_msg(names_bound_to(p, p[k as int].1), p[k as int].1))
            } else {
                conflict_warnings(p, k as int)
            }));
        }
        k += 1;
        assert(keymap_view(resolved) =~= resolved_bindings(entries).take(k as int));
        assert(strings_view(warnings) =~= w0 + conflict_warnings(p, k as int));
    }
    assert(resolved_bindings(entries).take(k as int) =~= resolved_bindings(entries));
    (resolved, warnings)
}

// ───────────────────────── matching keys ─────────────────────────

/// The chord bound to `name` (the first binding with that name).
pub open spec fn lookup_binding(m: Seq<(Seq<char>, KeyChord)>, name: Seq<char>) -> Option<KeyChord>
    decreases m.len(),
{
    if m.len() == 0 {
        None
    } else if m[0].0 == name {
        Some(m[0].1)
    } else {
        lookup_binding(m.drop_first(), name)
    }
}

/// A key press matches a chord: same key; for a chord without modifiers, no
/// modifier held (an upper-case letter may also come with shift alone); for a chord
/// with modifiers, at least those held.
pub open spec fn key_matches(key: KeyEvent, c: KeyChord) -> bool {
    if c.mods.spec_is_empty() {
        key.code == c.code && match c.code {
            KeyCode::Char(ch) => if 'A' <= ch && ch <= 'Z' {
                key.modifiers.spec_is_empty() || key.modifiers == shift_mods()
            } else {
                key.modifiers.spec_is_empty()
            },
            _ => key.modifiers.spec_is_empty(),
        }
    } else {
        key.code == c.code && key.modifiers.spec_contains(c.mods)
    }
}

/// The key press triggers `action` under keymap `m`.
pub open spec fn key_is_action_spec(m: Seq<(Seq<char>, KeyChord)>, key: KeyEvent, action: Seq<
    char,
>) -> bool {
    match lookup_binding(m, action) {
        Some(c) => key_matches(key, c),
        None => false,
    }
}

pub fn lookup_binding_exec(m: &Keymap, name: &str) -> (r: Option<KeyChord>)
    ensures
        r == lookup_binding(keymap_view(*m), name@),
{
    let n = String::from_str(name);
    let mut i: usize = 0;
    assert(keymap_view(*m).skip(0) =~= keymap_view(*m));
    while i < m.len()
        invariant
            i <= m.len(),
            n@ == name@,
            lookup_binding(keymap_view(*m), name@) == lookup_binding(
                keymap_view(*m).skip(i as int),
                name@,
            ),
        decreases m.len() - i,
    {
        let ghost v = keymap_view(*m).skip(i as int);
        assert(v[0] == (m@[i as int].0@, m@[i as int].1));
        if m[i].0 == n {
            return Some(m[i].1);
        }
        assert(v.drop_first() =~= keymap_view(*m).skip(i + 1));
        i += 1;
    }
    None
}

/// Whether `key` triggers `action` under the keymap `m`.
pub fn key_is_action(m: &Keymap, key: &KeyEvent, action: &str) -> (r: bool)
    ensures
        r == key_is_action_spec(keymap_view(*m), *key, action@),
{
    match lookup_binding_exec(m, action) {
        None => false,
        Some(c) => {
            if c.mods.is_empty() {
                if key.code != c.code {
                    return false;
                }
                match c.code {
                    KeyCode::Char(ch) => if 'A' <= ch && ch <= 'Z' {
                        key.modifiers.is_empty() || key.modifiers == KeyModifiers::shift_only()
                    } else {
                        key.modifiers.is_empty()
                    },
                    _ => key.modifiers.is_empty(),
                }
            } else {
                key.code == c.code && key.modifiers.contains(&c.mods)
            }
        },
    }
}

// ───────────────────────── help listing ─────────────────────────

/// The name a chord is shown with in the help overlay (`ctrl+f`, `space`, `f5`).
pub open spec fn chord_description(c: KeyChord) -> Seq<char> {
    let key = match c.code {
        KeyCode::Char(ch) => if ch == ' ' {
            "space"@
        } else {
            seq![ch]
        },
        KeyCode::Backspace => "backspace"@,
        KeyCode::Enter => "enter"@,
        KeyCode::Left => "left"@,
        KeyCode::Right => "right"@,
        KeyCode::Up => "up"@,
        KeyCode::Down => "down"@,
        KeyCode::Tab => "tab"@,
        KeyCode::Delete => "delete"@,
        KeyCode::Esc => "esc"@,
        KeyCode::F(n) => "f"@ + dec(n as nat),
        KeyCode::Other => "other"@,
    };
    if c.mods.control {
        "ctrl+"@ + key
    } else if c.mods.alt {
        "alt+"@ + key
    } else if c.mods.shift {
        "shift+"@ + key
    } else {
        key
    }
}

pub fn chord_description_exec(c: KeyChord) -> (r: String)
    ensures
        r@ == chord_description(c),
{
    let key: String = match c.code {
        KeyCode::Char(ch) => if ch == ' ' {
            String::from_str("space")
        } else {
            let mut s = String::new();
            push_char(&mut s, ch);
            assert(s@ =~= seq![ch]);
            s
        },
        KeyCode::Backspace => String::from_str("backspace"),
        KeyCode::Enter => String::from_str("enter"),
        KeyCode::Left => String::from_str("left"),
        KeyCode::Right => String::from_str("right"),
        KeyCode::Up => String::from_str("up"),
        KeyCode::Down => String::from_str("down"),
        KeyCode::Tab => String::from_str("tab"),
        KeyCode::Delete => String::from_str("delete"),
        KeyCode::Esc => String::from_str("esc"),
        KeyCode::F(n) => {
            let mut s = String::from_str("f");
            let d = dec_string(n as u64);
            push_all(&mut s, d.as_str());
            s
        },
        KeyCode::Other => String::from_str("other"),
    };
    let mut out = if c.mods.control {
        String::from_str("ctrl+")
    } else if c.mods.alt {
        String::from_str("alt+")
    } else if c.mods.shift {
        String::from_str("shift+")
    } else {
        String::new()
    };
    push_all(&mut out, key.as_str());
    out
}

/// The label an action is listed with in the help overlay.
pub open spec fn action_label(a: Seq<char>) -> Seq<char> {
    if a == "add"@ { "Add task"@ }
    else if a == "edit"@ { "Edit task"@ }
    else if a == "delete"@ { "Delete task"@ }
    else if a == "bulk_delete"@ { "Bulk delete"@ }
    else if a == "bulk_append"@ { "Bulk append"@ }
    else if a == "toggle_done"@ { "Toggle done"@ }
    else if a == "filter_open"@ { "Open filter"@ }
    else if a == "filter_define"@ { "Define presets"@ }
    else if a == "filter_toggle"@ { "Toggle filter on/off"@ }
    else if a == "clear_filter"@ { "Clear filter"@ }
    else if a == "sort_cycle"@ { "Cycle sort"@ }
    else if a == "group_toggle"@ { "Toggle grouping"@ }
    else if a == "group_by_cycle"@ { "Cycle group-by"@ }
    else if a == "deferred_toggle"@ { "Toggle deferred"@ }
    else if a == "theme_cycle"@ { "Cycle theme"@ }
    else if a == "reload"@ { "Reload file"@ }
    else if a == "disjoint_select"@ { "Disjoint select"@ }
    else if a == "disjoint_mark"@ { "Mark selection"@ }
    else if a == "quick_context"@ { "Quick context setter"@ }
    else if a == "quick_project"@ { "Quick project setter"@ }
    else if a == "pane_add"@ { "Create pane"@ }
    else if a == "pane_delete"@ { "Delete pane"@ }
    else if a == "pane_hide_toggle"@ { "Toggle panes"@ }
    else if a == "pane_move_left"@ { "Move task to left pane"@ }
    else if a == "pane_move_right"@ { "Move task to right pane"@ }
    else if a == "help"@ { "Show help"@ }
    else if a == "quit"@ { "Quit"@ }
    else { a }
}

fn action_label_exec(a: &str) -> (r: String)
    ensures
        r@ == action_label(a@),
{
    let v = chars_of(a);
    let l = if vec_eq_str(&v, "add") { "Add task" }
    else if vec_eq_str(&v, "edit") { "Edit task" }
    else if vec_eq_str(&v, "delete") { "Delete task" }
    else if vec_eq_str(&v, "bulk_delete") { "Bulk delete" }
    else if vec_eq_str(&v, "bulk_append") { "Bulk append" }
    else if vec_eq_str(&v, "toggle_done") { "Toggle done" }
    else if vec_eq_str(&v, "filter_open") { "Open filter" }
    else if vec_eq_str(&v, "filter_define") { "Define presets" }
    else if vec_eq_str(&v, "filter_toggle") { "Toggle filter on/off" }
    else if vec_eq_str(&v, "clear_filter") { "Clear filter" }
    else if vec_eq_str(&v, "sort_cycle") { "Cycle sort" }
    else if vec_eq_str(&v, "group_toggle") { "Toggle grouping" }
    else if vec_eq_str(&v, "group_by_cycle") { "Cycle group-by" }
    else if vec_eq_str(&v, "deferred_toggle") { "Toggle deferred" }
    else if vec_eq_str(&v, "theme_cycle") { "Cycle theme" }
    else if vec_eq_str(&v, "reload") { "Reload file" }
    else if vec_eq_str(&v, "disjoint_select") { "Disjoint select" }
    else if vec_eq_str(&v, "disjoint_mark") { "Mark selection" }
    else if vec_eq_str(&v, "quick_context") { "Quick context setter" }
    else if vec_eq_str(&v, "quick_project") { "Quick project setter" }
    else if vec_eq_str(&v, "pane_add") { "Create pane" }
    else if vec_eq_str(&v, "pane_delete") { "Delete pane" }
    else if vec_eq_str(&v, "pane_hide_toggle") { "Toggle panes" }
    else if vec_eq_str(&v, "pane_move_left") { "Move task to left pane" }
    else if vec_eq_str(&v, "pane_move_right") { "Move task to right pane" }
    else if vec_eq_str(&v, "help") { "Show help" }
    else if vec_eq_str(&v, "quit") { "Quit" }
    else { a };
    String::from_str(l)
}

/// `s` right-aligned in a field of `w` characters (`{:>w}`).
pub open spec fn pad_left(s: Seq<char>, w: nat) -> Seq<char> {
    if s.len() >= w {
        s
    } else {
        Seq::new((w - s.len()) as nat, |i: int| ' ') + s
    }
}

pub fn pad_left_exec(s: &str, w: usize) -> (r: String)
    ensures
        r@ == pad_left(s@, w as nat),
{
    let v = chars_of(s);
    let mut r = String::new();
    if v.len() < w {
        let pad = w - v.len();
        let mut i: usize = 0;
        while i < pad
            invariant
                i <= pad,
                r@ == Seq::new(i as nat, |j: int| ' '),
            decreases pad - i,
        {
            push_char(&mut r, ' ');
            i += 1;
            assert(r@ =~= Seq::new(i as nat, |j: int| ' '));
        }
    }
    push_all(&mut r, s);
    assert(v.len() >= w ==> r@ =~= s@);
    r
}

/// One help line for an action bound to `c`.
pub open spec fn help_line(c: KeyChord, action: Seq<char>) -> Seq<char> {
    "    "@ + pad_left(chord_description(c), 12) + "  "@ + action_label(action)
}

/// Help lines of the bound actions among `acts`, in order.
pub open spec fn action_lines(m: Seq<(Seq<char>, KeyChord)>, acts: Seq<Seq<char>>) -> Seq<
    Seq<char>,
>
    decreases acts.len(),
{
    if acts.len() == 0 {
        Seq::empty()
    } else {
        let r = action_lines(m, acts.drop_last());
        match lookup_binding(m, acts.last()) {
            Some(c) => r.push(help_line(c, acts.last())),
            None => r,
        }
    }
}

pub open spec fn section_header(title: Seq<char>) -> Seq<char> {
    "  \u{2500}\u{2500} "@ + title + " \u{2500}\u{2500}"@
}

/// The sections of the help overlay: a title and its actions.
pub open spec fn help_sections() -> Seq<(Seq<char>, Seq<Seq<char>>)> {
    seq![
        ("Tasks"@, seq!["add"@, "edit"@, "delete"@, "bulk_delete"@, "bulk_append"@, "toggle_done"@]),
        ("Quick Edits"@, seq!["quick_context"@, "quick_project"@]),
        ("Filter"@, seq!["filter_open"@, "filter_define"@, "filter_toggle"@, "clear_filter"@]),
        ("View"@, seq!["sort_cycle"@, "group_toggle"@, "group_by_cycle"@, "deferred_toggle"@, "theme_cycle"@, "reload"@]),
        ("Select"@, seq!["disjoint_select"@, "disjoint_mark"@]),
        ("Panes"@, seq!["pane_add"@, "pane_delete"@, "pane_hide_toggle"@]),
        ("App"@, seq!["help"@, "quit"@]),
    ]
}

pub open spec fn sections_lines(m: Seq<(Seq<char>, KeyChord)>, secs: Seq<(Seq<char>, Seq<Seq<char>>)>) -> Seq<Seq<char>>
    decreases secs.len(),
{
    if secs.len() == 0 {
        Seq::empty()
    } else {
        sections_lines(m, secs.drop_last()) + seq![section_header(secs.last().0)] + action_lines(m, secs.last().1)
    }
}

/// The fixed lines for keys that cannot be rebound.
pub open spec fn fixed_help_lines() -> Seq<Seq<char>> {
    seq![
        section_header("Navigation"@),
        "    j / down  Move down"@,
        "    k / up    Move up"@,
        "    ctrl+d    Page down"@,
        "    ctrl+u    Page up"@,
        "    shift+j   Extend selection down"@,
        "    shift+k   Extend selection up"@,
        "  shift+ctrl+d  Extend selection half-page down"@,
        "  shift+ctrl+u  Extend selection half-page up"@,
        section_header("Presets"@),
        "         1-9  Apply filter preset"@,
        section_header("Pane label"@),
        "      up @ top  Select pane header"@,
        "         enter  Edit pane label"@,
        "     enter/esc  Save / cancel label edit"@,
        section_header("Errors"@),
        "           !  Show error log"@,
    ]
}

/// Every line of the help overlay for keymap `m`.
pub open spec fn help_text(m: Seq<(Seq<char>, KeyChord)>) -> Seq<Seq<char>> {
    sections_lines(m, help_sections()) + fixed_help_lines()
}

fn push_line(lines: &mut Vec<String>, s: String)
    ensures
        strings_view(*final(lines)) == strings_view(*old(lines)).push(s@),
{
    let ghost before = strings_view(*lines);
    lines.push(s);
    assert(strings_view(*lines) =~= before.push(s@));
}

fn header_exec(title: &str) -> (r: String)
    ensures
        r@ == section_header(title@),
{
    let mut s = String::from_str("  \u{2500}\u{2500} ");
    push_all(&mut s, title);
    push_all(&mut s, " \u{2500}\u{2500}");
    s
}

fn push_action_lines(lines: &mut Vec<String>, m: &Keymap, acts: &Vec<&str>)
    ensures
        strings_view(*final(lines)) == strings_view(*old(lines)) + action_lines(
            keymap_view(*m),
            acts@.map_values(|a: &str| a@),
        ),
{
    let ghost av = acts@.map_values(|a: &str| a@);
    let ghost before = strings_view(*lines);
    let mut i: usize = 0;
    while i < acts.len()
        invariant
            i <= acts.len(),
            av == acts@.map_values(|a: &str| a@),
            strings_view(*lines) == before + action_lines(keymap_view(*m), av.take(i as int)),
        decreases acts.len() - i,
    {
        proof {
            assert(av.take(i + 1).drop_last() =~= av.take(i as int));
            assert(av.take(i + 1).last() == acts@[i as int]@);
        }
        let a = acts[i];
        match lookup_binding_exec(m, a) {
            Some(c) => {
                let mut line = String::from_str("    ");
                let cd = chord_description_exec(c);
                let padded = pad_left_exec(cd.as_str(), 12);
                push_all(&mut line, padded.as_str());
                push_all(&mut line, "  ");
                let label = action_label_exec(a);
                push_all(&mut line, label.as_str());
                push_line(lines, line);
            },
            None => {},
        }
        i += 1;
        assert(strings_view(*lines) =~= before + action_lines(keymap_view(*m), av.take(i as int)));
    }
    assert(av.take(acts.len() as int) =~= av);
}

fn push_section(lines: &mut Vec<String>, m: &Keymap, title: &str, acts: &Vec<&str>)
    ensures
        strings_view(*final(lines)) == strings_view(*old(lines)) + seq![section_header(title@)]
            + action_lines(keymap_view(*m), acts@.map_values(|a: &str| a@)),
{
    let h = header_exec(title);
    push_line(lines, h);
    push_action_lines(lines, m, acts);
    assert(strings_view(*old(lines)).push(section_header(title@)) =~= strings_view(*old(lines))
        + seq![section_header(title@)]);
}

/// The lines of the help overlay: every bound overridable action under its section,
/// then the fixed navigation, preset, pane-label and error-log keys.
pub fn help_lines(m: &Keymap) -> (r: Vec<String>)
    ensures
        strings_view(r) == help_text(keymap_view(*m)),
{
    let ghost mv = keymap_view(*m);
    let ghost secs = help_sections();
    let mut lines: Vec<String> = Vec::new();
    assert(strings_view(lines) =~= sections_lines(mv, secs.take(0)));
    let a1 = vec!["add", "edit", "delete", "bulk_delete", "bulk_append", "toggle_done"];
    assert(a1@.map_values(|a: &str| a@) =~= secs[0].1);
    push_section(&mut lines, m, "Tasks", &a1);
    assert(secs.take(1).drop_last() =~= secs.take(0));
    assert(strings_view(lines) =~= sections_lines(mv, secs.take(1)));
    let a2 = vec!["quick_context", "quick_project"];
    assert(a2@.map_values(|a: &str| a@) =~= secs[1].1);
    push_section(&mut lines, m, "Quick Edits", &a2);
    assert(secs.take(2).drop_last() =~= secs.take(1));
    assert(strings_view(lines) =~= sections_lines(mv, secs.take(2)));
    let a3 = vec!["filter_open", "filter_define", "filter_toggle", "clear_filter"];
    assert(a3@.map_values(|a: &str| a@) =~= secs[2].1);
    push_section(&mut lines, m, "Filter", &a3);
    assert(secs.take(3).drop_last() =~= secs.take(2));
    assert(strings_view(lines) =~= sections_lines(mv, secs.take(3)));
    let a4 = vec!["sort_cycle", "group_toggle", "group_by_cycle", "deferred_toggle", "theme_cycle", "reload"];
    assert(a4@.map_values(|a: &str| a@) =~= secs[3].1);
    push_section(&mut lines, m, "View", &a4);
    assert(secs.take(4).drop_last() =~= secs.take(3));
    assert(strings_view(lines) =~= sections_lines(mv, secs.take(4)));
    let a5 = vec!["disjoint_select", "disjoint_mark"];
    assert(a5@.map_values(|a: &str| a@) =~= secs[4].1);
    push_section(&mut lines, m, "Select", &a5);
    assert(secs.take(5).drop_last() =~= secs.take(4));
    assert(strings_view(lines) =~= sections_lines(mv, secs.take(5)));
    let a6 = vec!["pane_add", "pane_delete", "pane_hide_toggle"];
    assert(a6@.map_values(|a: &str| a@) =~= secs[5].1);
    push_section(&mut lines, m, "Panes", &a6);
    assert(secs.take(6).drop_last() =~= secs.take(5));
    assert(strings_view(lines) =~= sections_lines(mv, secs.take(6)));
    let a7 = vec!["help", "quit"];
    assert(a7@.map_values(|a: &str| a@) =~= secs[6].1);
    push_section(&mut lines, m, "App", &a7);
    assert(secs.take(7).drop_last() =~= secs.take(6));
    assert(strings_view(lines) =~= sections_lines(mv, secs.take(7)));
    assert(secs.take(7) =~= secs);
    let ghost mid = strings_view(lines);
    push_line(&mut lines, header_exec("Navigation"));
    push_line(&mut lines, String::from_str("    j / down  Move down"));
    push_line(&mut lines, String::from_str("    k / up    Move up"));
    push_line(&mut lines, String::from_str("    ctrl+d    Page down"));
    push_line(&mut lines, String::from_str("    ctrl+u    Page up"));
    push_line(&mut lines, String::from_str("    shift+j   Extend selection down"));
    push_line(&mut lines, String::from_str("    shift+k   Extend selection up"));
    push_line(&mut lines, String::from_str("  shift+ctrl+d  Extend selection half-page down"));
    push_line(&mut lines, String::from_str("  shift+ctrl+u  Extend selection half-page up"));
    push_line(&mut lines, header_exec("Presets"));
    push_line(&mut lines, String::from_str("         1-9  Apply filter preset"));
    push_line(&mut lines, header_exec("Pane label"));
    push_line(&mut lines, String::from_str("      up @ top  Select pane header"));
    push_line(&mut lines, String::from_str("         enter  Edit pane label"));
    push_line(&mut lines, String::from_str("     enter/esc  Save / cancel label edit"));
    push_line(&mut lines, header_exec("Errors"));
    push_line(&mut lines, String::from_str("           !  Show error log"));
    assert(strings_view(lines) =~= mid + fixed_help_lines());
    lines
}

} // verus!

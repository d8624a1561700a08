//! The filter panel: typing an expression with tag and history suggestions,
//! presets, history recall, applying and cancelling.
//!
//! The editor's cursor column is used as a byte offset into the line, as the
//! line is sliced by it.

use vstd::prelude::*;
use crate::app::{App, AppMode, FilteringState};
use crate::history::pushed_history;
use crate::keys::{KeyCode, KeyEvent, KeyModifiers, ctrl_mods};
use crate::order::{sort_strings, sorted_by_le};
use crate::pane_list::{byte_len, chars_before, lemma_byte_len_push, lemma_byte_len_take_mono, on_char_boundary, utf8_width, char_width};
use crate::state::{
    AutocompleteMode, AutocompleteState, all_contexts, all_projects, clone_strings, deduped,
    get_existing_contexts, get_existing_projects,
};
use crate::text::{
    char_is_ws, chars_of, is_prefix, is_ws, lowercase_of, push_all, push_char, starts_with, string_of,
    string_of_range, strs, to_lowercase, trim, trim_seq, deque_strs, deque_to_vec,
};

verus! {

/// Where the cursor cuts the line: the cursor, at most the line's length (bytes).
pub open spec fn cut_point(line: Seq<char>, cursor: nat) -> nat {
    if cursor < byte_len(line) {
        cursor
    } else {
        byte_len(line)
    }
}

/// The characters before the cursor.
pub open spec fn before_cursor(line: Seq<char>, cursor: nat) -> Seq<char> {
    line.take(chars_before(line, cut_point(line, cursor)))
}

/// Index of the last whitespace character.
pub open spec fn last_ws(s: Seq<char>) -> Option<int>
    decreases s.len(),
{
    if s.len() == 0 {
        None
    } else if is_ws(s.last()) {
        Some(s.len() - 1)
    } else {
        last_ws(s.drop_last())
    }
}

/// Where the word before the cursor starts: after the last whitespace.
pub open spec fn word_start(b: Seq<char>) -> int {
    match last_ws(b) {
        Some(p) => p + 1,
        None => 0,
    }
}

/// The cursor and the word start fall between characters, so the slicing of
/// the line is defined.
pub open spec fn cursor_ok(line: Seq<char>, cursor: nat) -> bool {
    &&& on_char_boundary(line, cut_point(line, cursor))
    &&& match last_ws(before_cursor(line, cursor)) {
        Some(p) => utf8_width(before_cursor(line, cursor)[p]) == 1,
        None => true,
    }
}

/// The word the cursor ends.
pub open spec fn cursor_word(line: Seq<char>, cursor: nat) -> Seq<char> {
    let b = before_cursor(line, cursor);
    b.skip(word_start(b))
}

/// The tags whose lower-cased form starts with the lower-cased prefix.
pub open spec fn tag_matches(tags: Seq<Seq<char>>, prefix: Seq<char>) -> Seq<Seq<char>> {
    tags.filter(|t: Seq<char>| is_prefix(lowercase_of(prefix), lowercase_of(t)))
}

/// The tags in use for a trigger: contexts for `@`, projects otherwise.
pub open spec fn tags_for(tasks: Seq<crate::task::TaskRecord>, trigger: char) -> Seq<Seq<char>> {
    if trigger == '@' {
        deduped(all_contexts(tasks))
    } else {
        deduped(all_projects(tasks))
    }
}

/// `a` is the filter popup for a line whose cursor word starts with a
/// trigger: the trigger's tags matching the rest of the word, sorted.
pub open spec fn token_popup(a: AutocompleteState, trigger: char, prefix: Seq<char>, m: Seq<Seq<char>>) -> bool {
    &&& a.mode == AutocompleteMode::TokenAutocomplete(trigger)
    &&& a.trigger == trigger
    &&& a.prefix@ == prefix
    &&& strs(a.items).to_multiset() == m.to_multiset()
    &&& sorted_by_le(strs(a.items))
    &&& strs(a.all_items) == strs(a.items)
    &&& a.selected == 0
    &&& !a.focused
}

/// What `compute_filter_autocomplete` yields.
pub open spec fn filter_popup_ok(
    r: Option<AutocompleteState>,
    line: Seq<char>,
    cursor: nat,
    tasks: Seq<crate::task::TaskRecord>,
    history: Seq<Seq<char>>,
) -> bool {
    let w = cursor_word(line, cursor);
    if w.len() > 0 && (w[0] == '@' || w[0] == '+') {
        let m = tag_matches(tags_for(tasks, w[0]), w.drop_first());
        match r {
            Some(a) => m.len() > 0 && token_popup(a, w[0], w.drop_first(), m),
            None => m.len() == 0,
        }
    } else if history.len() > 0 {
        r matches Some(a) && a.mode == AutocompleteMode::FilterHistory && a.trigger == '\0' && a.prefix@
            == line && strs(a.items) == history && strs(a.all_items) == history && a.selected == 0
            && !a.focused
    } else {
        r is None
    }
}

proof fn lemma_chars_before_unique(s: Seq<char>, k: int)
    requires
        0 <= k <= s.len(),
    ensures
        on_char_boundary(s, byte_len(s.take(k))),
        chars_before(s, byte_len(s.take(k))) == k,
{
    let b = byte_len(s.take(k));
    assert(on_char_boundary(s, b));
    let c = chars_before(s, b);
    if c < k {
        lemma_byte_len_take_mono(s, c, k);
    } else if c > k {
        lemma_byte_len_take_mono(s, k, c);
    }
}

/// The character index at byte offset `b`, when `b` falls between characters.
pub fn char_index_at(cs: &Vec<char>, b: usize) -> (r: Option<usize>)
    ensures
        r matches Some(k) ==> k <= cs@.len() && byte_len(cs@.take(k as int)) == b && on_char_boundary(cs@, b as nat)
            && chars_before(cs@, b as nat) == k,
        r is None ==> !on_char_boundary(cs@, b as nat),
{
    let mut k: usize = 0;
    let mut acc: usize = 0;
    assert(cs@.take(0) =~= Seq::<char>::empty());
    assert(byte_len(Seq::<char>::empty()) == 0) by {
        assert(vstd::utf8::encode_utf8(Seq::<char>::empty()) =~= Seq::<u8>::empty());
    }
    while k < cs.len() && acc < b
        invariant
            k <= cs@.len(),
            acc == byte_len(cs@.take(k as int)),
            acc <= b,
            forall|j: int| 0 <= j < k ==> byte_len(#[trigger] cs@.take(j)) < b,
        decreases cs.len() - k,
    {
        let w = char_width(cs[k]);
        proof {
            assert(cs@.take(k + 1) =~= cs@.take(k as int).push(cs@[k as int]));
            lemma_byte_len_push(cs@.take(k as int), cs@[k as int]);
        }
        if w > b - acc {
            proof {
                assert forall|j: int| 0 <= j <= cs@.len() implies byte_len(#[trigger] cs@.take(j)) != b by {
                    if j <= k {
                        if j < k {
                        }
                    } else {
                        lemma_byte_len_take_mono(cs@, k + 1, j);
                    }
                }
            }
            return None;
        }
        acc = acc + w;
        k += 1;
    }
    if acc == b {
        proof {
            lemma_chars_before_unique(cs@, k as int);
        }
        Some(k)
    } else {
        proof {
            assert forall|j: int| 0 <= j <= cs@.len() implies byte_len(#[trigger] cs@.take(j)) != b by {
                if j < k {
                } else if j == k {
                } else {
                    lemma_byte_len_take_mono(cs@, k as int, j);
                }
            }
        }
        None
    }
}

fn last_ws_exec(cs: &Vec<char>, n: usize) -> (r: Option<usize>)
    requires
        n <= cs@.len(),
    ensures
        r matches Some(p) ==> last_ws(cs@.take(n as int)) == Some(p as int) && p < n,
        r is None ==> last_ws(cs@.take(n as int)) is None,
{
    let mut k = n;
    while k > 0
        invariant
            k <= n <= cs@.len(),
            last_ws(cs@.take(n as int)) == last_ws(cs@.take(k as int)),
        decreases k,
    {
        assert(cs@.take(k as int).drop_last() =~= cs@.take(k - 1));
        assert(cs@.take(k as int).last() == cs@[k - 1]);
        if char_is_ws(cs[k - 1]) {
            return Some(k - 1);
        }
        k -= 1;
    }
    None
}

proof fn lemma_last_ws_bounds(s: Seq<char>)
    ensures
        last_ws(s) matches Some(p) ==> 0 <= p < s.len() && is_ws(s[p]),
    decreases s.len(),
{
    if s.len() > 0 && !is_ws(s.last()) {
        lemma_last_ws_bounds(s.drop_last());
    }
}

/// The character range of the cursor word: (word start, cursor) as character
/// indices.
fn cursor_word_range(cs: &Vec<char>, cursor: usize) -> (r: (usize, usize))
    requires
        cursor_ok(cs@, cursor as nat),
    ensures
        r.1 == chars_before(cs@, cut_point(cs@, cursor as nat)),
        r.1 <= cs@.len(),
        r.0 == word_start(before_cursor(cs@, cursor as nat)),
        r.0 <= r.1,
{
    let len = crate::pane_list::str_byte_len(string_of(cs).as_str());
    let cut = if cursor < len {
        cursor
    } else {
        len
    };
    let k = match char_index_at(cs, cut) {
        Some(k) => k,
        None => {
            assert(false);
            0
        },
    };
    let ws = last_ws_exec(cs, k);
    proof {
        lemma_last_ws_bounds(cs@.take(k as int));
    }
    let start = match ws {
        Some(p) => p + 1,
        None => 0,
    };
    (start, k)
}

/// The tags of `tags` whose lower-cased form starts with the lower-cased `prefix`.
fn matching_tags(tags: &Vec<String>, prefix: &str) -> (r: Vec<String>)
    ensures
        strs(r) == tag_matches(strs(*tags), prefix@),
{
    let pl = to_lowercase(prefix);
    let plc = chars_of(pl.as_str());
    let ghost pm = |t: Seq<char>| is_prefix(lowercase_of(prefix@), lowercase_of(t));
    let mut out: Vec<String> = Vec::new();
    let mut i: usize = 0;
    assert(strs(out) =~= strs(*tags).take(0).filter(pm)) by {
        reveal_with_fuel(Seq::filter, 1);
    }
    while i < tags.len()
        invariant
            i <= tags@.len(),
            plc@ == lowercase_of(prefix@),
            pm == (|t: Seq<char>| is_prefix(lowercase_of(prefix@), lowercase_of(t))),
            strs(out) == strs(*tags).take(i as int).filter(pm),
        decreases tags.len() - i,
    {
        let tl = to_lowercase(tags[i].as_str());
        let tlc = chars_of(tl.as_str());
        let keep = starts_with(&tlc, &plc);
        let ghost before = strs(out);
        if keep {
            out.push(tags[i].clone());
            assert(strs(out) =~= before.push(tags@[i as int]@));
        }
        proof {
            reveal_with_fuel(Seq::filter, 1);
            let t1 = strs(*tags).take(i + 1);
            assert(t1.drop_last() =~= strs(*tags).take(i as int));
            assert(t1.last() == tags@[i as int]@);
            assert(keep == pm(tags@[i as int]@));
        }
        i += 1;
    }
    assert(strs(*tags).take(tags@.len() as int) =~= strs(*tags));
    out
}

/// The tags of `tags` whose lower-cased form starts with the lower-cased `prefix`.
pub fn matching_tags_pub(tags: &Vec<String>, prefix: &str) -> (r: Vec<String>)
    ensures
        strs(r) == tag_matches(strs(*tags), prefix@),
{
    matching_tags(tags, prefix)
}

/// The popup for the filter line: tags when the word before the cursor starts
/// with `@` or `+`, else the filter history (when there is one).
pub fn compute_filter_autocomplete(
    line: &str,
    cursor_col: usize,
    tasks: &Vec<crate::task::TaskRecord>,
    history: &std::collections::VecDeque<String>,
) -> (r: Option<AutocompleteState>)
    requires
        cursor_ok(line@, cursor_col as nat),
    ensures
        filter_popup_ok(r, line@, cursor_col as nat, tasks@, deque_strs(*history)),
{
    let cs = chars_of(line);
    let (start, k) = cursor_word_range(&cs, cursor_col);
    let ghost w = cursor_word(line@, cursor_col as nat);
    assert(w =~= cs@.subrange(start as int, k as int));
    if start < k && (cs[start] == '@' || cs[start] == '+') {
        let trigger = cs[start];
        let prefix = string_of_range(&cs, start + 1, k);
        assert(prefix@ =~= w.drop_first());
        let tags = if trigger == '@' {
            get_existing_contexts(tasks)
        } else {
            get_existing_projects(tasks)
        };
        let m = matching_tags(&tags, prefix.as_str());
        if m.len() == 0 {
            return None;
        }
        let sorted = sort_strings(m);
        let a = AutocompleteState::new(trigger, prefix, sorted);
        assert(trigger != '#');
        Some(a)
    } else if history.len() > 0 {
        let items = deque_to_vec(history);
        Some(AutocompleteState::new_filter_history(String::from_str(line), items))
    } else {
        None
    }
}

/// The filter line after accepting a tag: the text before the cursor word,
/// the trigger and the tag, then the text after the cursor.
pub open spec fn accepted_tag_line(line: Seq<char>, cursor: nat, trigger: char, token: Seq<char>) -> Seq<char> {
    let b = before_cursor(line, cursor);
    let after = if cursor <= byte_len(line) {
        line.skip(chars_before(line, cursor))
    } else {
        Seq::<char>::empty()
    };
    line.take(word_start(b)) + seq![trigger] + token + after
}

fn accepted_tag_line_exec(line: &str, cursor: usize, trigger: char, token: &str) -> (r: String)
    requires
        cursor_ok(line@, cursor as nat),
    ensures
        r@ == accepted_tag_line(line@, cursor as nat, trigger, token@),
{
    let cs = chars_of(line);
    let (start, k) = cursor_word_range(&cs, cursor);
    let len = crate::pane_list::str_byte_len(line);
    let mut s = string_of_range(&cs, 0, start);
    push_char(&mut s, trigger);
    push_all(&mut s, token);
    if cursor <= len {
        let after = string_of_range(&cs, k, cs.len());
        push_all(&mut s, after.as_str());
        assert(after@ =~= line@.skip(chars_before(line@, cursor as nat)));
    }
    assert(cs@.subrange(0, start as int) =~= line@.take(start as int));
    proof {
        if cursor > len {
            assert(s@ =~= accepted_tag_line(line@, cursor as nat, trigger, token@));
        } else {
            assert(s@ =~= accepted_tag_line(line@, cursor as nat, trigger, token@));
        }
    }
    s
}

/// What a key in the filter panel asks of the caller.
pub enum FilterOutcome {
    Nothing,
    /// Rebuild the views from the new filter.
    Rebuild,
    /// Rebuild, then apply a pending reload (the panel closed).
    RebuildAndReload,
    /// Give the key to the editor, then report the line with `filter_text_edited`.
    EditText,
}

/// Whether `cursor` can be used on `line` (the slicing it leads to is defined).
pub fn cursor_valid(line: &str, cursor: usize) -> (r: bool)
    ensures
        r == cursor_ok(line@, cursor as nat),
{
    let cs = chars_of(line);
    let len = crate::pane_list::str_byte_len(line);
    let cut = if cursor < len {
        cursor
    } else {
        len
    };
    match char_index_at(&cs, cut) {
        Some(k) => {
            let ws = last_ws_exec(&cs, k);
            proof {
                lemma_last_ws_bounds(cs@.take(k as int));
            }
            match ws {
                Some(p) => char_width(cs[p]) == 1,
                None => true,
            }
        },
        None => false,
    }
}

/// `b` is `a` after accepting the highlighted filter suggestion (`cursor` on
/// the panel's line), `r` telling whether the line changed: a tag replaces
/// the cursor word, a history entry the whole line; the active pane's filter
/// becomes the trimmed line and the popup closes. Without a usable
/// suggestion the popup just closes; without a panel nothing changes.
pub open spec fn completion_accepted(a: App, b: App, cursor: nat, r: bool) -> bool {
    match a.filter_state {
        None => !r && b == a,
        Some(st) => match a.autocomplete {
            Some(p) => if p.selected < p.items@.len() && (p.mode is TokenAutocomplete || p.mode is FilterHistory) {
                let item = p.items@[p.selected as int]@;
                let nl = match p.mode {
                    AutocompleteMode::TokenAutocomplete(t) => accepted_tag_line(st.text@, cursor, t, item),
                    _ => item,
                };
                &&& r
                &&& b.filter_state matches Some(s2) && s2.text@ == nl && s2.selected_preset == st.selected_preset
                    && s2.snapshot == st.snapshot
                &&& pane_filter_set(a, b, trim_seq(nl))
                &&& b == (App { filter_state: b.filter_state, panes: b.panes, autocomplete: None, ..a })
            } else {
                !r && b == (App { autocomplete: None, ..a })
            },
            None => !r && b == a,
        },
    }
}

impl App {
    /// Accepts the focused filter suggestion (`cursor` is the editor's cursor
    /// on the panel's line): a tag replaces the cursor word, a history entry
    /// the whole line; the pane's filter becomes the trimmed line and the popup
    /// closes. True when the views need a rebuild.
    pub fn accept_filter_completion(&mut self, cursor: usize) -> (r: bool)
        requires
            old(self).wf(),
            old(self).filter_state matches Some(s) ==> cursor_ok(s.text@, cursor as nat),
        ensures
            final(self).wf(),
            final(self).tasks == old(self).tasks,
            final(self).mode == old(self).mode,
            completion_accepted(*old(self), *final(self), cursor as nat, r),
    {
        let mut st = match &self.filter_state {
            Some(s) => FilteringState {
                text: s.text.clone(),
                selected_preset: s.selected_preset,
                snapshot: s.snapshot.clone(),
            },
            None => {
                return false;
            },
        };
        let nl: String = match &self.autocomplete {
            None => {
                return false;
            },
            Some(a) => {
                if a.selected < a.items.len() {
                    match a.mode {
                        AutocompleteMode::TokenAutocomplete(t) => accepted_tag_line_exec(
                            st.text.as_str(),
                            cursor,
                            t,
                            a.items[a.selected].as_str(),
                        ),
                        AutocompleteMode::FilterHistory => a.items[a.selected].clone(),
                        _ => {
                            self.autocomplete = None;
                            return false;
                        },
                    }
                } else {
                    self.autocomplete = None;
                    return false;
                }
            },
        };
        let q = trim(nl.as_str());
        st.text = nl;
        self.filter_state = Some(st);
        let a = self.active_pane;
        self.panes[a].filter_query = q;
        self.autocomplete = None;
        true
    }
}

} // verus!

verus! {

/// The popup highlight one row down (kept on the last row) or up (kept on 0).
pub open spec fn moved_highlight(sel: usize, n: nat, down: bool) -> usize {
    if down {
        if sel + 1 < n {
            (sel + 1) as usize
        } else if n > 0 {
            (n - 1) as usize
        } else {
            0
        }
    } else if sel > 0 {
        (sel - 1) as usize
    } else {
        0
    }
}

/// `b` is `a` with the active pane's filter set to `f`.
pub open spec fn pane_filter_set(a: App, b: App, f: Seq<char>) -> bool {
    let k = a.active_pane as int;
    &&& b.panes@.len() == a.panes@.len()
    &&& b.panes@[k].filter_query@ == f
    &&& b.panes@[k] == (crate::state::Pane { filter_query: b.panes@[k].filter_query, ..a.panes@[k] })
    &&& forall|i: int| 0 <= i < a.panes@.len() && i != k ==> b.panes@[i] == a.panes@[i]
}

impl App {
    pub(crate) fn set_active_filter(&mut self, f: String)
        requires
            old(self).wf(),
        ensures
            final(self).wf(),
            pane_filter_set(*old(self), *final(self), f@),
            *final(self) == (App { panes: final(self).panes, ..*old(self) }),
    {
        let a = self.active_pane;
        self.panes[a].filter_query = f;
    }

    /// Keys of the filter panel (`cursor` is the editor's cursor on the panel's
    /// line). Esc restores the filter the pane had when the panel opened; Enter
    /// applies the trimmed line (recording it in the history) unless a focused
    /// popup takes it; Ctrl+r recalls the next history entry; Down/Up move the
    /// popup highlight or step through the presets; a digit applies that
    /// preset; Tab accepts a focused suggestion; other keys edit the line.
    pub fn handle_filtering_key(&mut self, key: &KeyEvent, cursor: usize) -> (r: FilterOutcome)
        requires
            old(self).wf(),
            old(self).filter_state matches Some(s) ==> cursor_ok(s.text@, cursor as nat)
                && s.selected_preset <= old(self).presets@.len(),
        ensures
            final(self).wf(),
            final(self).tasks == old(self).tasks,
            ({
                let focused = old(self).autocomplete matches Some(a) && a.focused;
                let k = key.code;
                if k == KeyCode::Esc {
                    &&& r is RebuildAndReload
                    &&& pane_filter_set(*old(self), *final(self), match old(self).filter_state {
                        Some(s) => s.snapshot@,
                        None => Seq::<char>::empty(),
                    })
                    &&& *final(self) == (App {
                        panes: final(self).panes,
                        filter_state: None,
                        autocomplete: None,
                        filter_history_cursor: None,
                        mode: AppMode::Normal,
                        ..*old(self)
                    })
                } else if k == KeyCode::Enter && !focused {
                    &&& r is RebuildAndReload
                    &&& *final(self) == (App {
                        filter_state: None,
                        panes: final(self).panes,
                        filter_history: final(self).filter_history,
                        autocomplete: None,
                        filter_history_cursor: None,
                        mode: AppMode::Normal,
                        toggled_filter_query: None,
                        ..*old(self)
                    })
                    &&& match old(self).filter_state {
                        Some(s) => pane_filter_set(*old(self), *final(self), trim_seq(s.text@)) && (if trim_seq(
                            s.text@,
                        ).len() > 0 {
                            deque_strs(final(self).filter_history) == pushed_history(
                                deque_strs(old(self).filter_history),
                                trim_seq(s.text@),
                            )
                        } else {
                            final(self).filter_history == old(self).filter_history
                        }),
                        None => final(self).panes == old(self).panes && final(self).filter_history
                            == old(self).filter_history,
                    }
                } else if (k == KeyCode::Enter || k == KeyCode::Tab) && focused {
                    &&& (r is Rebuild || r is Nothing)
                    &&& completion_accepted(*old(self), *final(self), cursor as nat, r is Rebuild)
                } else if k == KeyCode::Char('r') && key.modifiers == ctrl_mods() {
                    let h = old(self).filter_history@;
                    if h.len() > 0 {
                        let next: int = match old(self).filter_history_cursor {
                            None => 0,
                            Some(c) => (c + 1) % (h.len() as int),
                        };
                        &&& r is Rebuild
                        &&& *final(self) == (App {
                            filter_history_cursor: Some(next as usize),
                            filter_state: final(self).filter_state,
                            panes: final(self).panes,
                            ..*old(self)
                        })
                        &&& pane_filter_set(*old(self), *final(self), h[next]@)
                        &&& (old(self).filter_state matches Some(s) ==> final(self).filter_state matches Some(s2)
                            && s2.text@ == h[next]@ && s2.selected_preset == s.selected_preset
                            && s2.snapshot == s.snapshot)
                        &&& old(self).filter_state is None ==> final(self).filter_state is None
                    } else {
                        r is Nothing && *final(self) == *old(self)
                    }
                } else if (k == KeyCode::Down && old(self).autocomplete is Some) || (k == KeyCode::Up && focused) {
                    let a = old(self).autocomplete->0;
                    &&& r is Nothing
                    &&& *final(self) == (App {
                        autocomplete: Some(
                            AutocompleteState {
                                focused: k == KeyCode::Down || a.focused,
                                selected: moved_highlight(a.selected, a.items@.len(), k == KeyCode::Down),
                                ..a
                            },
                        ),
                        ..*old(self)
                    })
                } else if k == KeyCode::Down || k == KeyCode::Up {
                    let n = old(self).presets@.len();
                    &&& r is Rebuild
                    &&& *final(self) == (App {
                        filter_state: final(self).filter_state,
                        panes: final(self).panes,
                        ..*old(self)
                    })
                    &&& match old(self).filter_state {
                        Some(s) => {
                            let moves = if k == KeyCode::Down {
                                n > 0
                            } else {
                                s.selected_preset > 0
                            };
                            let sel: int = if k == KeyCode::Down {
                                if s.selected_preset + 1 < n {
                                    s.selected_preset + 1
                                } else {
                                    n - 1
                                }
                            } else {
                                s.selected_preset - 1
                            };
                            if moves {
                                &&& final(self).filter_state matches Some(s2) && s2.selected_preset == sel
                                    && s2.text@ == old(self).presets@[sel].1@ && s2.snapshot == s.snapshot
                                &&& pane_filter_set(*old(self), *final(self), old(self).presets@[sel].1@)
                            } else {
                                final(self).panes == old(self).panes
                            }
                        },
                        None => final(self).panes == old(self).panes,
                    }
                } else if k matches KeyCode::Char(c) && '1' <= c <= '9' {
                    let idx = (k->Char_0 as u32 - '1' as u32) as int;
                    if idx < old(self).presets@.len() {
                        let q = old(self).presets@[idx].1@;
                        &&& r is Rebuild
                        &&& *final(self) == (App {
                            filter_state: final(self).filter_state,
                            panes: final(self).panes,
                            ..*old(self)
                        })
                        &&& pane_filter_set(*old(self), *final(self), q)
                        &&& (old(self).filter_state matches Some(s) ==> final(self).filter_state matches Some(
                            s2,
                        ) && s2.text@ == q && s2.selected_preset == idx && s2.snapshot == s.snapshot)
                    } else {
                        r is Nothing && *final(self) == *old(self)
                    }
                } else if k == KeyCode::Tab {
                    r is Nothing && *final(self) == *old(self)
                } else {
                    r is EditText && *final(self) == *old(self)
                }
            }),
    {
        let focused = match &self.autocomplete {
            Some(a) => a.focused,
            None => false,
        };
        if key.code == KeyCode::Esc {
            self.filter_escape();
            return FilterOutcome::RebuildAndReload;
        }
        if (key.code == KeyCode::Enter || key.code == KeyCode::Tab) && focused {
            if self.accept_filter_completion(cursor) {
                return FilterOutcome::Rebuild;
            }
            return FilterOutcome::Nothing;
        }
        if key.code == KeyCode::Enter {
            self.filter_enter();
            return FilterOutcome::RebuildAndReload;
        }
        if key.code == KeyCode::Char('r') && key.modifiers == KeyModifiers::ctrl() {
            return self.filter_recall();
        }
        if key.code == KeyCode::Down || key.code == KeyCode::Up {
            return self.filter_arrow(key.code == KeyCode::Down);
        }
        let digit: Option<usize> = match key.code {
            KeyCode::Char(c) => if '1' <= c && c <= '9' {
                Some(((c as u32) - ('1' as u32)) as usize)
            } else {
                None
            },
            _ => None,
        };
        match digit {
            Some(idx) => {
                return self.filter_digit(idx);
            },
            None => {},
        }
        if key.code == KeyCode::Tab {
            return FilterOutcome::Nothing;
        }
        FilterOutcome::EditText
    }

    fn filter_escape(&mut self)
        requires
            old(self).wf(),
        ensures
            final(self).wf(),
            pane_filter_set(*old(self), *final(self), match old(self).filter_state {
                Some(s) => s.snapshot@,
                None => Seq::<char>::empty(),
            }),
            *final(self) == (App {
                panes: final(self).panes,
                filter_state: None,
                autocomplete: None,
                filter_history_cursor: None,
                mode: AppMode::Normal,
                ..*old(self)
            }),
    {
        let snapshot = match &self.filter_state {
            Some(s) => s.snapshot.clone(),
            None => String::new(),
        };
        self.set_active_filter(snapshot);
        self.filter_state = None;
        self.autocomplete = None;
        self.filter_history_cursor = None;
        self.mode = AppMode::Normal;
    }

    fn filter_enter(&mut self)
        requires
            old(self).wf(),
        ensures
            final(self).wf(),
            *final(self) == (App {
                filter_state: None,
                panes: final(self).panes,
                filter_history: final(self).filter_history,
                autocomplete: None,
                filter_history_cursor: None,
                mode: AppMode::Normal,
                toggled_filter_query: None,
                ..*old(self)
            }),
            match old(self).filter_state {
                Some(s) => pane_filter_set(*old(self), *final(self), trim_seq(s.text@)) && (if trim_seq(
                    s.text@,
                ).len() > 0 {
                    deque_strs(final(self).filter_history) == pushed_history(
                        deque_strs(old(self).filter_history),
                        trim_seq(s.text@),
                    )
                } else {
                    final(self).filter_history == old(self).filter_history
                }),
                None => final(self).panes == old(self).panes && final(self).filter_history
                    == old(self).filter_history,
            },
    {
        let mut taken: Option<FilteringState> = None;
        std::mem::swap(&mut taken, &mut self.filter_state);
        match taken {
            Some(s) => {
                let t = trim(s.text.as_str());
                self.push_filter_history(t.as_str());
                self.set_active_filter(t);
            },
            None => {},
        }
        self.autocomplete = None;
        self.filter_history_cursor = None;
        self.mode = AppMode::Normal;
        self.toggled_filter_query = None;
    }

    fn filter_recall(&mut self) -> (r: FilterOutcome)
        requires
            old(self).wf(),
        ensures
            final(self).wf(),
            *final(self) == (App {
                filter_history_cursor: final(self).filter_history_cursor,
                filter_state: final(self).filter_state,
                panes: final(self).panes,
                ..*old(self)
            }),
            ({
                let h = old(self).filter_history@;
                if h.len() > 0 {
                    let next: int = match old(self).filter_history_cursor {
                        None => 0,
                        Some(c) => (c + 1) % (h.len() as int),
                    };
                    &&& r is Rebuild
                    &&& final(self).filter_history_cursor == Some(next as usize)
                    &&& pane_filter_set(*old(self), *final(self), h[next]@)
                    &&& (old(self).filter_state matches Some(s) ==> final(self).filter_state matches Some(s2)
                        && s2.text@ == h[next]@ && s2.selected_preset == s.selected_preset
                        && s2.snapshot == s.snapshot)
                    &&& old(self).filter_state is None ==> final(self).filter_state is None
                    &&& final(self).mode == old(self).mode
                } else {
                    r is Nothing && *final(self) == *old(self)
                }
            }),
    {
        let n = self.filter_history.len();
        if n == 0 {
            return FilterOutcome::Nothing;
        }
        let next = match self.filter_history_cursor {
            None => 0,
            Some(c) => (c % n + 1) % n,
        };
        proof {
            if let Some(c) = old(self).filter_history_cursor {
                let ci = c as int;
                let ni = n as int;
                assert((ci % ni + 1) % ni == (ci + 1) % ni) by {
                    vstd::arithmetic::div_mod::lemma_add_mod_noop(ci, 1, ni);
                    vstd::arithmetic::div_mod::lemma_mod_twice(ci, ni);
                    vstd::arithmetic::div_mod::lemma_add_mod_noop(ci % ni, 1, ni);
                    vstd::arithmetic::div_mod::lemma_mod_twice(1, ni);
                }
            }
        }
        self.filter_history_cursor = Some(next);
        let entry = self.filter_history[next].clone();
        match &self.filter_state {
            Some(s) => {
                let s2 = FilteringState {
                    text: entry.clone(),
                    selected_preset: s.selected_preset,
                    snapshot: s.snapshot.clone(),
                };
                self.filter_state = Some(s2);
            },
            None => {},
        }
        self.set_active_filter(entry);
        FilterOutcome::Rebuild
    }

    fn filter_arrow(&mut self, down: bool) -> (r: FilterOutcome)
        requires
            old(self).wf(),
            old(self).filter_state matches Some(s) ==> s.selected_preset <= old(self).presets@.len(),
        ensures
            final(self).wf(),
            final(self).tasks == old(self).tasks,
            final(self).mode == old(self).mode,
            ({
                let focused = old(self).autocomplete matches Some(a) && a.focused;
                if old(self).autocomplete is Some && (down || focused) {
                    let a = old(self).autocomplete->0;
                    &&& r is Nothing
                    &&& *final(self) == (App {
                        autocomplete: Some(
                            AutocompleteState {
                                focused: down || a.focused,
                                selected: moved_highlight(a.selected, a.items@.len(), down),
                                ..a
                            },
                        ),
                        ..*old(self)
                    })
                } else {
                    let n = old(self).presets@.len();
                    &&& r is Rebuild
                    &&& *final(self) == (App {
                        filter_state: final(self).filter_state,
                        panes: final(self).panes,
                        ..*old(self)
                    })
                    &&& match old(self).filter_state {
                        Some(s) => {
                            let moves = if down {
                                n > 0
                            } else {
                                s.selected_preset > 0
                            };
                            let sel: int = if down {
                                if s.selected_preset + 1 < n {
                                    s.selected_preset + 1
                                } else {
                                    n - 1
                                }
                            } else {
                                s.selected_preset - 1
                            };
                            if moves {
                                &&& final(self).filter_state matches Some(s2) && s2.selected_preset == sel
                                    && s2.text@ == old(self).presets@[sel].1@ && s2.snapshot == s.snapshot
                                &&& pane_filter_set(*old(self), *final(self), old(self).presets@[sel].1@)
                            } else {
                                final(self).panes == old(self).panes
                            }
                        },
                        None => final(self).panes == old(self).panes,
                    }
                }
            }),
    {
        let mut taken: Option<AutocompleteState> = None;
        std::mem::swap(&mut taken, &mut self.autocomplete);
        match taken {
            Some(mut a) => if down || a.focused {
                if down {
                    a.focused = true;
                }
                let n = a.items.len();
                a.selected = if down {
                    if a.selected < usize::MAX && a.selected + 1 < n {
                        a.selected + 1
                    } else if n > 0 {
                        n - 1
                    } else {
                        0
                    }
                } else if a.selected > 0 {
                    a.selected - 1
                } else {
                    0
                };
                self.autocomplete = Some(a);
                return FilterOutcome::Nothing;
            } else {
                self.autocomplete = Some(a);
            },
            None => {},
        }
        let n = self.presets.len();
        let choice: Option<(usize, String, String)> = match &self.filter_state {
            Some(s) => {
                let moves = if down {
                    n > 0
                } else {
                    s.selected_preset > 0
                };
                if moves {
                    let sel = if down {
                        if s.selected_preset < usize::MAX && s.selected_preset + 1 < n {
                            s.selected_preset + 1
                        } else {
                            n - 1
                        }
                    } else {
                        s.selected_preset - 1
                    };
                    Some((sel, self.presets[sel].1.clone(), s.snapshot.clone()))
                } else {
                    None
                }
            },
            None => None,
        };
        match choice {
            Some((sel, q, snap)) => {
                self.filter_state = Some(FilteringState { text: q.clone(), selected_preset: sel, snapshot: snap });
                self.set_active_filter(q);
            },
            None => {},
        }
        FilterOutcome::Rebuild
    }

    fn filter_digit(&mut self, idx: usize) -> (r: FilterOutcome)
        requires
            old(self).wf(),
        ensures
            final(self).wf(),
            *final(self) == (App { filter_state: final(self).filter_state, panes: final(self).panes, ..*old(self) }),
            if idx < old(self).presets@.len() {
                let q = old(self).presets@[idx as int].1@;
                &&& r is Rebuild
                &&& pane_filter_set(*old(self), *final(self), q)
                &&& (old(self).filter_state matches Some(s) ==> final(self).filter_state matches Some(s2)
                    && s2.text@ == q && s2.selected_preset == idx && s2.snapshot == s.snapshot)
            } else {
                r is Nothing && *final(self) == *old(self)
            },
    {
        if idx < self.presets.len() {
            let q = self.presets[idx].1.clone();
            match &self.filter_state {
                Some(s) => {
                    let s2 = FilteringState { text: q.clone(), selected_preset: idx, snapshot: s.snapshot.clone() };
                    self.filter_state = Some(s2);
                },
                None => {},
            }
            self.set_active_filter(q);
            return FilterOutcome::Rebuild;
        }
        FilterOutcome::Nothing
    }

    /// The panel's line after the editor took a key (`cursor` its new cursor):
    /// the line becomes the pane's filter, history recall ends and the popup is
    /// recomputed. Without an open panel nothing changes. The caller rebuilds.
    pub fn filter_text_edited(&mut self, text: &str, cursor: usize)
        requires
            old(self).wf(),
            cursor_ok(text@, cursor as nat),
        ensures
            final(self).wf(),
            old(self).filter_state is None ==> *final(self) == *old(self),
            old(self).filter_state matches Some(s) ==> {
                &&& final(self).filter_state matches Some(s2) && s2.text@ == text@ && s2.selected_preset
                    == s.selected_preset && s2.snapshot == s.snapshot
                &&& pane_filter_set(*old(self), *final(self), text@)
                &&& filter_popup_ok(final(self).autocomplete, text@, cursor as nat, old(self).tasks@, deque_strs(old(self).filter_history))
                &&& *final(self) == (App {
                    filter_state: final(self).filter_state,
                    panes: final(self).panes,
                    autocomplete: final(self).autocomplete,
                    filter_history_cursor: None,
                    ..*old(self)
                })
            },
    {
        let s2 = match &self.filter_state {
            Some(s) => FilteringState {
                text: String::from_str(text),
                selected_preset: s.selected_preset,
                snapshot: s.snapshot.clone(),
            },
            None => {
                return;
            },
        };
        self.filter_state = Some(s2);
        self.filter_history_cursor = None;
        self.set_active_filter(String::from_str(text));
        let ac = compute_filter_autocomplete(text, cursor, &self.tasks, &self.filter_history);
        self.autocomplete = ac;
    }
}

} // verus!

//! Keys in the overlays: help, the warnings log, pane label editing, and the
//! priority and date pickers.

use vstd::prelude::*;
use crate::app::{App, AppMode};
use crate::keys::{KeyCode, KeyEvent, KeyModifiers, ctrl_mods, no_mods};
use crate::pane_list::{byte_len, str_byte_len};
use crate::pickers::strictly_descending;
use crate::state::{
    DatePickerState, PriorityPickerState, day_position, day_position_exec, first_day, first_day_exec,
    first_index_of, stepped_day, suggestions_for, suggestions_or_empty,
};
use crate::task::tasks_view;
use crate::text::{
    alphabetic, ascii_upper, char_is_alphabetic, chars_of, dec2, dec2_string, parse_unsigned,
    parse_unsigned_exec, push_all, push_char, string_of, strs, trim, trim_seq,
};

verus! {

/// A `u16` plus `d`, at most `u16::MAX`.
pub open spec fn sat_add(a: u16, d: u16) -> u16 {
    if a + d > u16::MAX {
        u16::MAX
    } else {
        (a + d) as u16
    }
}

/// A `u16` minus `d`, at least 0.
pub open spec fn sat_sub(a: u16, d: u16) -> u16 {
    if a >= d {
        (a - d) as u16
    } else {
        0
    }
}

impl App {
    /// Esc or `q` closes the warnings log.
    pub fn handle_keymap_errors_key(&mut self, key: &KeyEvent)
        ensures
            key.code == KeyCode::Esc || key.code == KeyCode::Char('q') ==> *final(self) == (App {
                mode: AppMode::Normal,
                ..*old(self)
            }),
            !(key.code == KeyCode::Esc || key.code == KeyCode::Char('q')) ==> *final(self) == *old(self),
    {
        if key.code == KeyCode::Esc || key.code == KeyCode::Char('q') {
            self.mode = AppMode::Normal;
        }
    }

    /// Keys of the help overlay: Esc or `q` close it (scroll reset); `j`/Down
    /// and `k`/Up scroll by a line; Ctrl+d and Ctrl+u by half the list height.
    pub fn handle_help_key(&mut self, key: &KeyEvent)
        ensures
            ({
                let half = (old(self).list_height / 2) as u16;
                let s = old(self).help_scroll;
                if key.code == KeyCode::Esc || key.code == KeyCode::Char('q') {
                    *final(self) == (App { mode: AppMode::Normal, help_scroll: 0, ..*old(self) })
                } else if key.code == KeyCode::Char('j') || key.code == KeyCode::Down {
                    *final(self) == (App { help_scroll: sat_add(s, 1), ..*old(self) })
                } else if key.code == KeyCode::Char('k') || key.code == KeyCode::Up {
                    *final(self) == (App { help_scroll: sat_sub(s, 1), ..*old(self) })
                } else if key.code == KeyCode::Char('d') && key.modifiers == ctrl_mods() {
                    *final(self) == (App { help_scroll: sat_add(s, half), ..*old(self) })
                } else if key.code == KeyCode::Char('u') && key.modifiers == ctrl_mods() {
                    *final(self) == (App { help_scroll: sat_sub(s, half), ..*old(self) })
                } else {
                    *final(self) == *old(self)
                }
            }),
    {
        let half = self.list_height / 2;
        if key.code == KeyCode::Esc || key.code == KeyCode::Char('q') {
            self.mode = AppMode::Normal;
            self.help_scroll = 0;
        } else if key.code == KeyCode::Char('j') || key.code == KeyCode::Down {
            self.help_scroll = self.help_scroll.saturating_add(1);
        } else if key.code == KeyCode::Char('k') || key.code == KeyCode::Up {
            self.help_scroll = self.help_scroll.saturating_sub(1);
        } else if key.code == KeyCode::Char('d') && key.modifiers == KeyModifiers::ctrl() {
            self.help_scroll = self.help_scroll.saturating_add(half);
        } else if key.code == KeyCode::Char('u') && key.modifiers == KeyModifiers::ctrl() {
            self.help_scroll = self.help_scroll.saturating_sub(half);
        }
    }

    /// Starts editing the active pane's label; the caller puts the label in
    /// the editor.
    pub fn start_pane_label_edit(&mut self)
        ensures
            *final(self) == (App {
                mode: AppMode::PaneLabelEditing { pane_idx: old(self).active_pane },
                ..*old(self)
            }),
    {
        self.mode = AppMode::PaneLabelEditing { pane_idx: self.active_pane };
    }

    /// Leaves label editing: with `text`, the pane `pane_idx` (if it exists)
    /// takes the trimmed text as its label; without, nothing changes. Normal
    /// mode either way.
    pub fn finish_pane_label_edit(&mut self, pane_idx: usize, text: Option<&str>)
        requires
            old(self).wf(),
        ensures
            final(self).wf(),
            match text {
                Some(t) => if pane_idx < old(self).panes@.len() {
                    &&& final(self).panes@ == old(self).panes@.update(
                        pane_idx as int,
                        crate::state::Pane { label: final(self).panes@[pane_idx as int].label, ..old(self).panes@[pane_idx as int] },
                    )
                    &&& final(self).panes@[pane_idx as int].label@ == trim_seq(t@)
                    &&& *final(self) == (App { panes: final(self).panes, mode: AppMode::Normal, ..*old(self) })
                } else {
                    *final(self) == (App { mode: AppMode::Normal, ..*old(self) })
                },
                None => *final(self) == (App { mode: AppMode::Normal, ..*old(self) }),
            },
    {
        match text {
            Some(t) => if pane_idx < self.panes.len() {
                self.panes[pane_idx].label = trim(t);
            },
            None => {},
        }
        self.mode = AppMode::Normal;
    }
}

/// What a key in the priority or date picker asks of the caller.
pub enum PickerOutcome {
    /// Nothing further.
    Nothing,
    /// Give these tasks this priority (`None` clears it), then save and rebuild.
    SetPriority { priority: Option<char>, targets: Vec<usize> },
    /// Give these tasks this due date, then save and rebuild.
    SetDue { year: i32, month: u32, day: u32, targets: Vec<usize> },
    /// The typed date was refused; the message says why.
    InvalidDate(String),
}

/// The date a `YYYY-MM-DD` string denotes, as the date library reads it.
pub uninterp spec fn parsed_ymd(s: Seq<char>) -> Option<(i32, u32, u32)>;

/// The message of the error the date library reports for a `YYYY-MM-DD` string
/// it refuses.
pub uninterp spec fn parse_error_text(s: Seq<char>) -> Seq<char>;

/// `chrono::NaiveDate::parse_from_str(s, "%Y-%m-%d")`, as year, month and day,
/// or the parse error's message. The contract only ties the result to the
/// string through the names `parsed_ymd` and `parse_error_text`; which strings
/// chrono accepts, and the wording of its messages, are not stated here.
#[verifier::external_body]
fn parse_ymd(s: &str) -> (r: Result<(i32, u32, u32), String>)
    ensures
        r matches Ok(d) ==> parsed_ymd(s@) == Some(d),
        r is Err ==> parsed_ymd(s@) is None,
        r matches Err(e) ==> e@ == parse_error_text(s@),
{
    match chrono::NaiveDate::parse_from_str(s, "%Y-%m-%d") {
        Ok(d) => Ok(
            (chrono::Datelike::year(&d), chrono::Datelike::month(&d), chrono::Datelike::day(&d)),
        ),
        Err(e) => Err(e.to_string()),
    }
}

/// The date text a picker forms: the month, a dash, the day on two digits.
pub open spec fn picked_date_text(month_year: Seq<char>, day: u32) -> Seq<char> {
    month_year + seq!['-'] + dec2(day as nat)
}

/// `s` holds a dash.
pub open spec fn has_dash(s: Seq<char>) -> bool {
    s.contains('-')
}

fn has_dash_exec(s: &str) -> (r: bool)
    ensures
        r == has_dash(s@),
{
    let cs = chars_of(s);
    let mut i: usize = 0;
    while i < cs.len()
        invariant
            i <= cs@.len(),
            cs@ == s@,
            forall|k: int| 0 <= k < i ==> cs@[k] != '-',
        decreases cs.len() - i,
    {
        if cs[i] == '-' {
            assert(s@[i as int] == '-');
            return true;
        }
        i += 1;
    }
    false
}

/// `s` without its last character.
pub fn drop_last_char(s: &String) -> (r: String)
    ensures
        r@ == (if s@.len() > 0 {
            s@.drop_last()
        } else {
            s@
        }),
{
    let cs = chars_of(s.as_str());
    if cs.len() == 0 {
        return String::new();
    }
    let mut out: Vec<char> = Vec::new();
    let mut i: usize = 0;
    while i + 1 < cs.len()
        invariant
            i + 1 <= cs@.len(),
            out@ == cs@.take(i as int),
        decreases cs.len() - i,
    {
        out.push(cs[i]);
        i += 1;
        assert(out@ =~= cs@.take(i as int));
    }
    assert(out@ =~= s@.drop_last());
    string_of(&out)
}

/// The day typed, as a number.
pub open spec fn typed_day(s: Seq<char>) -> Option<u32> {
    match parse_unsigned(s, u32::MAX as nat) {
        Some(d) => Some(d as u32),
        None => None,
    }
}

fn typed_day_exec(s: &String) -> (r: Option<u32>)
    ensures
        r == typed_day(s@),
{
    let cs = chars_of(s.as_str());
    match parse_unsigned_exec(&cs, 0xffff_ffff) {
        Some(d) => Some(d as u32),
        None => None,
    }
}

/// Picker fields after typing `ch` (a digit, `-` or `/`): month and day text.
pub open spec fn typed_fields(p: DatePickerState, ch: char) -> (Seq<char>, Seq<char>) {
    let my0 = if !p.focused && p.day_input@.len() == 0 {
        Seq::<char>::empty()
    } else {
        p.month_year@
    };
    let typed = if ch == '/' {
        '-'
    } else {
        ch
    };
    if typed == '-' {
        if byte_len(my0) == 4 && !has_dash(my0) {
            (my0.push('-'), Seq::empty())
        } else {
            (my0, p.day_input@)
        }
    } else if byte_len(my0) < 7 {
        let my1 = if byte_len(my0) == 4 && !has_dash(my0) {
            my0.push('-')
        } else {
            my0
        };
        (if byte_len(my1) < 7 {
            my1.push(typed)
        } else {
            my1
        }, Seq::empty())
    } else if byte_len(p.day_input@) < 2 {
        (my0, p.day_input@.push(typed))
    } else {
        (my0, p.day_input@)
    }
}

/// The highlighted day after typing: the typed day when the month has it,
/// else unchanged; with no day typed, the first day when none was highlighted.
pub open spec fn typed_selection(sugs: Seq<Seq<char>>, day_input: Seq<char>, sel: Option<u32>) -> Option<u32> {
    if day_input.len() > 0 {
        match typed_day(day_input) {
            Some(d) => if day_position(sugs, d) is Some {
                Some(d)
            } else {
                sel
            },
            None => sel,
        }
    } else if sel is None {
        first_day(sugs)
    } else {
        sel
    }
}

fn push_str_char(s: &String, c: char) -> (r: String)
    ensures
        r@ == s@.push(c),
{
    let mut t = s.clone();
    push_char(&mut t, c);
    t
}

/// `q` is the date picker `p` after typing `ch` (a digit, `-` or `/`).
pub open spec fn date_typed(p: DatePickerState, q: DatePickerState, ch: char) -> bool {
    let (my, di) = typed_fields(p, ch);
    let sugs = suggestions_or_empty(my);
    &&& q.month_year@ == my
    &&& q.day_input@ == di
    &&& strs(q.suggestions) == sugs
    &&& q.selected_day == typed_selection(sugs, di, p.selected_day)
    &&& q.focused
}

/// `q` is the date picker `p` after Backspace: the last typed day digit goes,
/// else the last character of the month.
pub open spec fn date_erased(p: DatePickerState, q: DatePickerState) -> bool {
    let di = p.day_input@;
    let my = if di.len() > 0 {
        p.month_year@
    } else if p.month_year@.len() > 0 {
        p.month_year@.drop_last()
    } else {
        p.month_year@
    };
    let sugs = suggestions_or_empty(my);
    &&& q.month_year@ == my
    &&& q.day_input@ == (if di.len() > 0 {
        di.drop_last()
    } else {
        di
    })
    &&& strs(q.suggestions) == sugs
    &&& q.selected_day == (match p.selected_day {
        Some(d) => if day_position(sugs, d) is Some {
            Some(d)
        } else {
            first_day(sugs)
        },
        None => None,
    })
    &&& q.focused
}

/// `q` is the date picker `p` after a key other than Esc, Tab and Enter:
/// Down and Up step the highlighted day (Up also forgets the typed day),
/// Backspace erases, plain digits, `-` and `/` type; other keys change
/// nothing.
pub open spec fn date_picker_moved(p: DatePickerState, q: DatePickerState, key: KeyEvent) -> bool {
    if key.code == KeyCode::Down || key.code == KeyCode::Up {
        let down = key.code == KeyCode::Down;
        &&& q.focused
        &&& q.suggestions == p.suggestions
        &&& q.month_year == p.month_year
        &&& q.selected_day == stepped_day(strs(p.suggestions), p.selected_day, down)
        &&& (down ==> q.day_input == p.day_input)
        &&& (!down ==> q.day_input@.len() == 0)
    } else if key.code == KeyCode::Backspace {
        date_erased(p, q)
    } else if key.code matches KeyCode::Char(ch) && key.modifiers == no_mods() && (('0' <= ch && ch <= '9')
        || ch == '-' || ch == '/') {
        date_typed(p, q, key.code->Char_0)
    } else {
        q == p
    }
}

impl DatePickerState {
    /// Types `ch` (a digit, `-` or `/`, which counts as `-`): the first
    /// character typed before any navigation starts the date afresh; a dash is
    /// added after four year digits; month digits go to the month until it has
    /// seven bytes, then up to two day digits. Suggestions follow the month.
    pub fn type_date_char(&mut self, ch: char)
        ensures
            date_typed(*old(self), *final(self), ch),
    {
        if !self.focused && self.day_input.as_str().is_empty() {
            self.month_year = String::new();
        }
        let typed = if ch == '/' {
            '-'
        } else {
            ch
        };
        let mlen = str_byte_len(self.month_year.as_str());
        let dash = has_dash_exec(self.month_year.as_str());
        if typed == '-' {
            if mlen == 4 && !dash {
                self.month_year = push_str_char(&self.month_year, '-');
                self.day_input = String::new();
            }
        } else if mlen < 7 {
            if mlen == 4 && !dash {
                self.month_year = push_str_char(&self.month_year, '-');
            }
            let mlen2 = str_byte_len(self.month_year.as_str());
            if mlen2 < 7 {
                self.month_year = push_str_char(&self.month_year, typed);
            }
            self.day_input = String::new();
        } else if str_byte_len(self.day_input.as_str()) < 2 {
            self.day_input = push_str_char(&self.day_input, typed);
        }
        self.suggestions = suggestions_for(self.month_year.as_str());
        if !self.day_input.as_str().is_empty() {
            match typed_day_exec(&self.day_input) {
                Some(d) => if day_position_exec(&self.suggestions, d).is_some() {
                    self.selected_day = Some(d);
                },
                None => {},
            }
        } else if self.selected_day.is_none() {
            self.selected_day = first_day_exec(&self.suggestions);
        }
        self.focused = true;
    }

    /// Deletes the last day digit, or else the last month character; a
    /// highlighted day the month no longer has gives way to the first day.
    pub fn erase_date_char(&mut self)
        ensures
            date_erased(*old(self), *final(self)),
    {
        if !self.day_input.as_str().is_empty() {
            self.day_input = drop_last_char(&self.day_input);
        } else {
            self.month_year = drop_last_char(&self.month_year);
        }
        self.suggestions = suggestions_for(self.month_year.as_str());
        match self.selected_day {
            Some(d) => if day_position_exec(&self.suggestions, d).is_none() {
                self.selected_day = first_day_exec(&self.suggestions);
            },
            None => {},
        }
        self.focused = true;
    }
}

/// The day an accepted picker chooses: the typed day, else the highlighted one.
pub open spec fn chosen_day(p: DatePickerState) -> Option<u32> {
    if p.day_input@.len() > 0 {
        typed_day(p.day_input@)
    } else {
        p.selected_day
    }
}

/// `q` is the priority picker `p` after a key other than Esc, Tab and Enter:
/// Down and Up move the highlight (kept in the list) and focus it; a letter
/// focuses it and jumps to that priority (when there is one); other keys
/// change nothing.
pub open spec fn picker_moved(p: PriorityPickerState, q: PriorityPickerState, code: KeyCode) -> bool {
    &&& q.items == p.items
    &&& if code == KeyCode::Down {
        &&& q.focused
        &&& q.type_char == p.type_char
        &&& q.selected_idx == (if p.selected_idx + 1 < p.items@.len() {
            p.selected_idx + 1
        } else {
            p.selected_idx as int
        })
    } else if code == KeyCode::Up {
        &&& q.focused
        &&& q.type_char == p.type_char
        &&& q.selected_idx == (if p.selected_idx > 0 {
            p.selected_idx - 1
        } else {
            p.selected_idx as int
        })
    } else if code matches KeyCode::Char(ch) && alphabetic(ch) {
        let target = seq![ascii_upper(code->Char_0)];
        &&& q.focused
        &&& match first_index_of(strs(p.items), target) {
            Some(i) => q.selected_idx == i && q.type_char == Some(ascii_upper(code->Char_0)),
            None => q.selected_idx == p.selected_idx && q.type_char == p.type_char,
        }
    } else {
        q == p
    }
}

impl App {
    /// Keys of the priority picker: Esc closes it; Down/Up move; a letter
    /// jumps to its priority; Tab/Enter choose: the target tasks get the
    /// priority (an undo snapshot first), the marks and anchor are cleared and
    /// the mode is Normal.
    pub fn handle_priority_picker_key(&mut self, key: &KeyEvent) -> (r: PickerOutcome)
        requires
            old(self).wf(),
        ensures
            final(self).wf(),
            final(self).tasks == old(self).tasks,
            final(self).panes == old(self).panes,
            key.code == KeyCode::Esc ==> r is Nothing && *final(self) == (App {
                priority_picker: None,
                mode: AppMode::Normal,
                ..*old(self)
            }),
            (key.code == KeyCode::Tab || key.code == KeyCode::Enter) ==> {
                &&& *final(self) == (App {
                    priority_picker: None,
                    mode: AppMode::Normal,
                    selected_tasks: final(self).selected_tasks,
                    selection_anchor: None,
                    undo_entry: final(self).undo_entry,
                    ..*old(self)
                })
                &&& final(self).selected_tasks@ == Set::<usize>::empty()
                &&& match old(self).priority_picker {
                    Some(p) => {
                        let prio = if p.selected_idx < p.items@.len() && p.items@[p.selected_idx as int]@.len() > 0
                            && 'A' <= p.items@[p.selected_idx as int]@[0] <= 'Z' {
                            Some(p.items@[p.selected_idx as int]@[0])
                        } else {
                            None
                        };
                        match r {
                            PickerOutcome::SetPriority { priority, targets } => priority == prio
                                && targets@.len() > 0 && quick_targets_ok(*old(self), targets@)
                                && (final(self).undo_entry matches Some(e) && tasks_view(e.tasks@) == tasks_view(old(self).tasks@)),
                            PickerOutcome::Nothing => quick_targets_ok(*old(self), Seq::empty())
                                && final(self).undo_entry == old(self).undo_entry,
                            _ => false,
                        }
                    },
                    None => r is Nothing && final(self).undo_entry == old(self).undo_entry,
                }
            },
            !(key.code == KeyCode::Esc || key.code == KeyCode::Tab || key.code == KeyCode::Enter) ==> {
                &&& r is Nothing
                &&& *final(self) == (App { priority_picker: final(self).priority_picker, ..*old(self) })
                &&& match old(self).priority_picker {
                    Some(p) => final(self).priority_picker matches Some(q) && picker_moved(p, q, key.code),
                    None => final(self).priority_picker is None,
                }
            },
    {
        if key.code == KeyCode::Esc {
            self.priority_picker = None;
            self.mode = AppMode::Normal;
            return PickerOutcome::Nothing;
        }
        if key.code == KeyCode::Tab || key.code == KeyCode::Enter {
            let targets = self.quick_setter_targets();
            assert(quick_targets_ok(*old(self), targets@));
            if targets.len() == 0 {
                assert(targets@ =~= Seq::<usize>::empty());
            }
            let mut taken: Option<PriorityPickerState> = None;
            std::mem::swap(&mut taken, &mut self.priority_picker);
            let mut out = PickerOutcome::Nothing;
            match taken {
                Some(p) => {
                    let prio = p.selected_priority();
                    if targets.len() > 0 {
                        self.push_undo_entry();
                        out = PickerOutcome::SetPriority { priority: prio, targets };
                    }
                },
                None => {},
            }
            self.selected_tasks.clear();
            self.selection_anchor = None;
            self.mode = AppMode::Normal;
            return out;
        }
        let mut taken: Option<PriorityPickerState> = None;
        std::mem::swap(&mut taken, &mut self.priority_picker);
        match taken {
            Some(mut p) => {
                if key.code == KeyCode::Down {
                    p.focused = true;
                    p.select_next();
                } else if key.code == KeyCode::Up {
                    p.focused = true;
                    p.select_prev();
                } else {
                    match key.code {
                        KeyCode::Char(ch) => if char_is_alphabetic(ch) {
                            p.focused = true;
                            p.jump_to(ch);
                        },
                        _ => {},
                    }
                }
                self.priority_picker = Some(p);
            },
            None => {},
        }
        PickerOutcome::Nothing
    }
}

/// `targets` are the quick-setter targets of `a`.
pub open spec fn quick_targets_ok(a: App, targets: Seq<usize>) -> bool {
    if a.selected_tasks@ != Set::<usize>::empty() {
        targets.to_set() == a.selected_tasks@.filter(|t: usize| t < a.tasks@.len()) && strictly_descending(targets)
    } else {
        targets == (match a.active_canonical_of() {
            Some(t) => seq![t],
            None => Seq::<usize>::empty(),
        })
    }
}

impl App {
    /// Keys of the date picker: Esc closes it; Down/Up move (Up also drops the
    /// typed day); Backspace erases; a digit, `-` or `/` without modifiers types;
    /// Tab/Enter accept: the chosen day with the month must form a date, and
    /// then the target tasks get it as due date (an undo snapshot first); a
    /// missing day is reported. After accepting, the marks and anchor are
    /// cleared and the mode is Normal (not after a refused date).
    #[verifier::rlimit(60)]
    pub fn handle_date_picker_key(&mut self, key: &KeyEvent) -> (r: PickerOutcome)
        requires
            old(self).wf(),
        ensures
            final(self).wf(),
            final(self).tasks == old(self).tasks,
            final(self).panes == old(self).panes,
            key.code == KeyCode::Esc ==> r is Nothing && *final(self) == (App {
                date_picker: None,
                mode: AppMode::Normal,
                ..*old(self)
            }),
            (key.code == KeyCode::Tab || key.code == KeyCode::Enter) ==> final(self).date_picker is None
                && match old(self).date_picker {
                Some(p) => match chosen_day(p) {
                    Some(d) => match parsed_ymd(picked_date_text(p.month_year@, d)) {
                        Some((y, m, dd)) => {
                            &&& *final(self) == (App {
                                date_picker: None,
                                mode: AppMode::Normal,
                                selected_tasks: final(self).selected_tasks,
                                selection_anchor: None,
                                undo_entry: final(self).undo_entry,
                                ..*old(self)
                            })
                            &&& final(self).selected_tasks@ == Set::<usize>::empty()
                            &&& match r {
                                PickerOutcome::SetDue { year, month, day, targets } => year == y && month == m
                                    && day == dd && targets@.len() > 0 && quick_targets_ok(*old(self), targets@)
                                    && (final(self).undo_entry matches Some(e) && tasks_view(e.tasks@) == tasks_view(old(self).tasks@)),
                                PickerOutcome::Nothing => quick_targets_ok(*old(self), Seq::empty())
                                    && final(self).undo_entry == old(self).undo_entry,
                                _ => false,
                            }
                        },
                        None => (r matches PickerOutcome::InvalidDate(msg) && msg@ == "Invalid date: "@
                            + parse_error_text(picked_date_text(p.month_year@, d)))
                            && *final(self) == (App { date_picker: None, ..*old(self) }),
                    },
                    None => r is Nothing && *final(self) == (App {
                        date_picker: None,
                        mode: AppMode::Normal,
                        selected_tasks: final(self).selected_tasks,
                        selection_anchor: None,
                        runtime_warnings: final(self).runtime_warnings,
                        ..*old(self)
                    }) && final(self).selected_tasks@ == Set::<usize>::empty()
                        && strs(final(self).runtime_warnings) == strs(old(self).runtime_warnings).push(
                        "invalid day for selected month"@,
                    ),
                },
                None => r is Nothing && *final(self) == (App {
                    mode: AppMode::Normal,
                    selected_tasks: final(self).selected_tasks,
                    selection_anchor: None,
                    ..*old(self)
                }) && final(self).selected_tasks@ == Set::<usize>::empty(),
            },
            !(key.code == KeyCode::Esc || key.code == KeyCode::Tab || key.code == KeyCode::Enter) ==> {
                &&& r is Nothing
                &&& *final(self) == (App { date_picker: final(self).date_picker, ..*old(self) })
                &&& match old(self).date_picker {
                    Some(p) => final(self).date_picker matches Some(q) && date_picker_moved(p, q, *key),
                    None => final(self).date_picker is None,
                }
            },
    {
        if key.code == KeyCode::Esc {
            self.date_picker = None;
            self.mode = AppMode::Normal;
            return PickerOutcome::Nothing;
        }
        let targets = self.quick_setter_targets();
        assert(quick_targets_ok(*old(self), targets@));
        if targets.len() == 0 {
            assert(targets@ =~= Seq::<usize>::empty());
        }
        let mut taken: Option<DatePickerState> = None;
        std::mem::swap(&mut taken, &mut self.date_picker);
        if key.code == KeyCode::Tab || key.code == KeyCode::Enter {
            let mut out = PickerOutcome::Nothing;
            match taken {
                Some(p) => {
                    let chosen = if !p.day_input.as_str().is_empty() {
                        typed_day_exec(&p.day_input)
                    } else {
                        p.selected_day
                    };
                    match chosen {
                        Some(d) => {
                            let mut text = p.month_year.clone();
                            push_char(&mut text, '-');
                            let dd = dec2_string(d as u64);
                            push_all(&mut text, dd.as_str());
                            assert(text@ =~= picked_date_text(p.month_year@, d));
                            match parse_ymd(text.as_str()) {
                                Ok((y, m, day)) => {
                                    if targets.len() > 0 {
                                        self.push_undo_entry();
                                        out = PickerOutcome::SetDue { year: y, month: m, day, targets };
                                    }
                                },
                                Err(e) => {
                                    let mut msg = String::from_str("Invalid date: ");
                                    push_all(&mut msg, e.as_str());
                                    return PickerOutcome::InvalidDate(msg);
                                },
                            }
                        },
                        None => {
                            let ghost w0 = strs(self.runtime_warnings);
                            self.runtime_warnings.push(String::from_str("invalid day for selected month"));
                            assert(strs(self.runtime_warnings) =~= w0.push("invalid day for selected month"@));
                        },
                    }
                },
                None => {},
            }
            self.selected_tasks.clear();
            self.selection_anchor = None;
            self.mode = AppMode::Normal;
            return out;
        }
        match taken {
            Some(mut p) => {
                if key.code == KeyCode::Down {
                    p.focused = true;
                    p.select_next();
                } else if key.code == KeyCode::Up {
                    p.focused = true;
                    p.select_prev();
                    p.day_input = String::new();
                } else if key.code == KeyCode::Backspace {
                    p.erase_date_char();
                } else {
                    match key.code {
                        KeyCode::Char(ch) => if key.modifiers == KeyModifiers::none() && (('0' <= ch
                            && ch <= '9') || ch == '-' || ch == '/') {
                            p.type_date_char(ch);
                        },
                        _ => {},
                    }
                }
                self.date_picker = Some(p);
            },
            None => {},
        }
        PickerOutcome::Nothing
    }
}

} // verus!

//! What the Normal-mode commands do to the application state. Where a command
//! also needs outside work (saving, the clipboard, rebuilding the views from a
//! new filter), the caller does that after the state change.

use vstd::prelude::*;
use crate::app::{App, AppMode, FilterDefiningState, FilteringState, UndoEntry};
use crate::config::{TuiPreset, GroupByCategory};
use crate::state::{AutocompleteState, DatePickerState, PriorityPickerState, get_existing_contexts,
    get_existing_projects, all_contexts, all_projects, priority_items, suggestions_or_empty, first_day};
use crate::order::{sort_strings, sorted_by_le};
use crate::task::{SortOrder, next_sort, cycle_sort, next_group_by, cycle_group_by};
use crate::text::{
    chars_of, dec, dec_string, parse_unsigned, parse_unsigned_exec, push_all, push_char, strs, trim,
    trim_seq, unsigned_body, all_digits, digits_value,
};
use crate::theme::{StyleSheet, next_theme, cycle_theme, sheet_of, theme_name, theme_name_exec};

verus! {

/// The slot of a preset named `f1` to `f9`.
pub open spec fn preset_slot(name: Seq<char>) -> Option<nat> {
    if name.len() > 0 && name[0] == 'f' {
        match parse_unsigned(name.drop_first(), usize::MAX as nat) {
            Some(v) => if 1 <= v <= 9 {
                Some(v)
            } else {
                None
            },
            None => None,
        }
    } else {
        None
    }
}

/// The slot number of a preset name `f1` to `f9`.
pub fn parse_preset_slot(name: &str) -> (r: Option<usize>)
    ensures
        r matches Some(v) ==> preset_slot(name@) == Some(v as nat),
        r is None ==> preset_slot(name@) is None,
{
    let cs = chars_of(name);
    if cs.len() == 0 || cs[0] != 'f' {
        return None;
    }
    let mut rest: Vec<char> = Vec::new();
    let mut i: usize = 1;
    while i < cs.len()
        invariant
            1 <= i <= cs@.len(),
            rest@ == cs@.subrange(1, i as int),
        decreases cs.len() - i,
    {
        rest.push(cs[i]);
        i += 1;
        assert(rest@ =~= cs@.subrange(1, i as int));
    }
    assert(rest@ =~= name@.drop_first());
    match parse_unsigned_exec(&rest, 9) {
        Some(v) => if v >= 1 {
            Some(v as usize)
        } else {
            None
        },
        None => None,
    }
}

/// The first entry named `name`, if any.
pub open spec fn preset_named(f: Seq<(String, TuiPreset)>, name: Seq<char>) -> Option<TuiPreset>
    decreases f.len(),
{
    if f.len() == 0 {
        None
    } else if f[0].0@ == name {
        Some(f[0].1)
    } else {
        preset_named(f.drop_first(), name)
    }
}

/// The expression of the filter preset named `name`, if it holds one.
pub open spec fn preset_filter(f: Seq<(String, TuiPreset)>, name: Seq<char>) -> Option<Seq<char>> {
    match preset_named(f, name) {
        Some(p) => match p.filter {
            Some(x) => Some(x@),
            None => None,
        },
        None => None,
    }
}

fn preset_filter_exec(f: &Vec<(String, TuiPreset)>, name: &str) -> (r: Option<String>)
    ensures
        r matches Some(x) ==> preset_filter(f@, name@) == Some(x@),
        r is None ==> preset_filter(f@, name@) is None,
{
    let n = String::from_str(name);
    let mut i: usize = 0;
    assert(f@.skip(0) =~= f@);
    while i < f.len()
        invariant
            i <= f@.len(),
            n@ == name@,
            preset_named(f@, name@) == preset_named(f@.skip(i as int), name@),
        decreases f.len() - i,
    {
        let ghost s = f@.skip(i as int);
        assert(s[0] == f@[i as int]);
        if f[i].0 == n {
            return match &f[i].1.filter {
                Some(x) => Some(x.clone()),
                None => None,
            };
        }
        assert(s.drop_first() =~= f@.skip(i + 1));
        i += 1;
    }
    None
}

/// The highest preset slot among the names of `f`, 0 when none.
pub open spec fn highest_slot(f: Seq<(String, TuiPreset)>) -> nat
    decreases f.len(),
{
    if f.len() == 0 {
        0
    } else {
        let rest = highest_slot(f.drop_last());
        match preset_slot(f.last().0@) {
            Some(v) => if v > rest {
                v
            } else {
                rest
            },
            None => rest,
        }
    }
}

/// Number of preset rows in the definition panel: the highest slot in use,
/// at least 5 and at most 9.
pub open spec fn slot_count(f: Seq<(String, TuiPreset)>) -> nat {
    let h = highest_slot(f);
    if h < 5 {
        5
    } else if h > 9 {
        9
    } else {
        h
    }
}

/// The name of preset slot `k`: `f` and the number.
pub open spec fn slot_name(k: nat) -> Seq<char> {
    seq!['f'] + dec(k)
}

fn slot_name_exec(k: usize) -> (r: String)
    ensures
        r@ == slot_name(k as nat),
{
    let mut s = String::new();
    push_char(&mut s, 'f');
    let d = dec_string(k as u64);
    push_all(&mut s, d.as_str());
    s
}

/// A copy of an optional string.
fn copy_opt(o: &Option<String>) -> (r: Option<String>)
    ensures
        r == *o,
{
    match o {
        Some(s) => Some(s.clone()),
        None => None,
    }
}

/// `b` is `a` after Ctrl+F: the active pane's filter put aside (and
/// emptied), or, when the pane has no filter, the one put aside brought back.
pub open spec fn filter_toggled(a: App, b: App) -> bool {
    let k = a.active_pane as int;
    let p = a.panes@[k];
    if trim_seq(p.filter_query@).len() == 0 {
        match a.toggled_filter_query {
            Some(prev) => b.panes@ == a.panes@.update(k, crate::state::Pane { filter_query: prev, ..p })
                && b == (App { panes: b.panes, toggled_filter_query: None, ..a }),
            None => b == a,
        }
    } else {
        &&& b.panes@.len() == a.panes@.len()
        &&& b.panes@[k].filter_query@.len() == 0
        &&& b.panes@[k] == (crate::state::Pane { filter_query: b.panes@[k].filter_query, ..p })
        &&& forall|i: int| 0 <= i < a.panes@.len() && i != k ==> b.panes@[i] == a.panes@[i]
        &&& b == (App { panes: b.panes, toggled_filter_query: Some(p.filter_query), ..a })
    }
}

impl App {
    /// Puts the active pane's filter aside, or brings back the one put aside
    /// when the pane has no filter.
    #[verifier::rlimit(50)]
    pub fn filter_toggle(&mut self)
        requires
            old(self).wf(),
        ensures
            final(self).wf(),
            filter_toggled(*old(self), *final(self)),
    {
        let a = self.active_pane;
        let ghost before = *self;
        let current = self.panes[a].filter_query.clone();
        let t = trim(current.as_str());
        if t.as_str().is_empty() {
            let mut prev: Option<String> = None;
            std::mem::swap(&mut prev, &mut self.toggled_filter_query);
            match prev {
                Some(p) => {
                    self.panes[a].filter_query = p;
                    assert(self.panes@ =~= before.panes@.update(
                        a as int,
                        crate::state::Pane { filter_query: before.toggled_filter_query->0, ..before.panes@[a as int] },
                    ));
                },
                None => {},
            }
        } else {
            self.toggled_filter_query = Some(current);
            self.panes[a].filter_query = String::new();
        }
        assert(filter_toggled(before, *self));
    }

    /// Advances the active pane's sort order.
    pub fn cycle_active_sort(&mut self)
        requires
            old(self).wf(),
        ensures
            final(self).wf(),
            ({
                let a = old(self).active_pane as int;
                let p = old(self).panes@[a];
                &&& final(self).panes@ == old(self).panes@.update(
                    a,
                    crate::state::Pane { sort_order: next_sort(p.sort_order), ..p },
                )
                &&& *final(self) == (App { panes: final(self).panes, ..*old(self) })
            }),
    {
        let a = self.active_pane;
        self.panes[a].sort_order = cycle_sort(self.panes[a].sort_order);
    }

    /// Turns grouping of the active pane on or off.
    pub fn toggle_active_grouping(&mut self)
        requires
            old(self).wf(),
        ensures
            final(self).wf(),
            ({
                let a = old(self).active_pane as int;
                let p = old(self).panes@[a];
                &&& final(self).panes@ == old(self).panes@.update(
                    a,
                    crate::state::Pane { grouping: !p.grouping, ..p },
                )
                &&& *final(self) == (App { panes: final(self).panes, ..*old(self) })
            }),
    {
        let a = self.active_pane;
        self.panes[a].grouping = !self.panes[a].grouping;
    }

    /// Advances the active pane's grouping category.
    pub fn cycle_active_group_by(&mut self)
        requires
            old(self).wf(),
        ensures
            final(self).wf(),
            ({
                let a = old(self).active_pane as int;
                let p = old(self).panes@[a];
                &&& final(self).panes@ == old(self).panes@.update(
                    a,
                    crate::state::Pane { group_by: next_group_by(p.group_by), ..p },
                )
                &&& *final(self) == (App { panes: final(self).panes, ..*old(self) })
            }),
    {
        let a = self.active_pane;
        self.panes[a].group_by = cycle_group_by(self.panes[a].group_by);
    }

    /// Clears the active pane's filter and forgets any filter put aside.
    pub fn clear_active_filter(&mut self)
        requires
            old(self).wf(),
        ensures
            final(self).wf(),
            ({
                let a = old(self).active_pane as int;
                let p = old(self).panes@[a];
                &&& final(self).panes@.len() == old(self).panes@.len()
                &&& final(self).panes@[a].filter_query@.len() == 0
                &&& final(self).panes@[a] == (crate::state::Pane {
                    filter_query: final(self).panes@[a].filter_query,
                    ..p
                })
                &&& forall|i: int| 0 <= i < old(self).panes@.len() && i != a ==> final(self).panes@[i]
                    == old(self).panes@[i]
                &&& *final(self) == (App {
                    panes: final(self).panes,
                    toggled_filter_query: None,
                    ..*old(self)
                })
            }),
    {
        let a = self.active_pane;
        self.panes[a].filter_query = String::new();
        self.toggled_filter_query = None;
    }

    /// Applies the filter preset named by the digit `c` to the active pane;
    /// true when such a preset with an expression exists (else nothing changes).
    pub fn apply_preset_filter(&mut self, c: char) -> (r: bool)
        requires
            old(self).wf(),
        ensures
            final(self).wf(),
            r == preset_filter(old(self).config.presets.filter@, seq![c]) is Some,
            !r ==> *final(self) == *old(self),
            r ==> {
                let a = old(self).active_pane as int;
                let p = old(self).panes@[a];
                &&& final(self).panes@.len() == old(self).panes@.len()
                &&& Some(final(self).panes@[a].filter_query@) == preset_filter(
                    old(self).config.presets.filter@,
                    seq![c],
                )
                &&& final(self).panes@[a] == (crate::state::Pane {
                    filter_query: final(self).panes@[a].filter_query,
                    ..p
                })
                &&& forall|i: int| 0 <= i < old(self).panes@.len() && i != a ==> final(self).panes@[i]
                    == old(self).panes@[i]
                &&& *final(self) == (App {
                    panes: final(self).panes,
                    toggled_filter_query: None,
                    ..*old(self)
                })
            },
    {
        let mut name = String::new();
        push_char(&mut name, c);
        assert(name@ =~= seq![c]);
        match preset_filter_exec(&self.config.presets.filter, name.as_str()) {
            Some(f) => {
                let a = self.active_pane;
                self.panes[a].filter_query = f;
                self.toggled_filter_query = None;
                true
            },
            None => false,
        }
    }

    /// Shows or hides deferred tasks in the global view.
    pub fn toggle_deferred(&mut self)
        ensures
            *final(self) == (App { show_deferred: !old(self).show_deferred, ..*old(self) }),
    {
        self.show_deferred = !self.show_deferred;
    }

    /// Number of completed tasks.
    pub fn completed_count(&self) -> (r: usize)
        ensures
            r == self.tasks@.filter(|t: crate::task::TaskRecord| t.completed).len(),
    {
        let mut n: usize = 0;
        let mut i: usize = 0;
        let ghost pc = |t: crate::task::TaskRecord| t.completed;
        assert(self.tasks@.take(0).filter(pc) =~= Seq::<crate::task::TaskRecord>::empty()) by {
            reveal_with_fuel(Seq::filter, 1);
        }
        while i < self.tasks.len()
            invariant
                i <= self.tasks@.len(),
                pc == (|t: crate::task::TaskRecord| t.completed),
                n == self.tasks@.take(i as int).filter(pc).len(),
                n <= i,
            decreases self.tasks.len() - i,
        {
            proof {
                reveal_with_fuel(Seq::filter, 1);
                assert(self.tasks@.take(i + 1).drop_last() =~= self.tasks@.take(i as int));
            }
            if self.tasks[i].completed {
                n += 1;
            }
            i += 1;
        }
        assert(self.tasks@.take(self.tasks@.len() as int) =~= self.tasks@);
        n
    }

    /// Opens the archive confirmation when some task is completed; warns
    /// otherwise.
    pub fn request_archive(&mut self)
        ensures
            old(self).tasks@.filter(|t: crate::task::TaskRecord| t.completed).len() > 0 ==> *final(self)
                == (App { mode: AppMode::ArchiveConfirm, ..*old(self) }),
            old(self).tasks@.filter(|t: crate::task::TaskRecord| t.completed).len() == 0 ==> *final(self) == (App { runtime_warnings: final(self).runtime_warnings, ..*old(self) })
                && final(self).runtime_warnings@ == old(self).runtime_warnings@.push(
                final(self).runtime_warnings@.last(),
            ) && final(self).runtime_warnings@.last()@ == "No completed tasks to archive."@,
    {
        if self.completed_count() > 0 {
            self.mode = AppMode::ArchiveConfirm;
        } else {
            let ghost before = self.runtime_warnings@;
            let m = String::from_str("No completed tasks to archive.");
            proof {
                reveal_strlit("No completed tasks to archive.");
            }
            self.runtime_warnings.push(m);
        }
    }

    /// Starts a new task line.
    pub fn start_add(&mut self)
        ensures
            *final(self) == (App { mode: AppMode::Adding, ..*old(self) }),
    {
        self.mode = AppMode::Adding;
    }

    /// Starts editing the task under the cursor; returns its index (the caller
    /// puts its line in the editor), or none and no change.
    pub fn start_edit(&mut self) -> (r: Option<usize>)
        requires
            old(self).wf(),
        ensures
            r == old(self).active_canonical_of(),
            r matches Some(t) ==> *final(self) == (App {
                mode: AppMode::Editing { original_idx: t },
                ..*old(self)
            }),
            r is None ==> *final(self) == *old(self),
    {
        let c = self.active_canonical_selected();
        match c {
            Some(t) => {
                self.mode = AppMode::Editing { original_idx: t };
            },
            None => {},
        }
        c
    }

    /// The task a single delete removes: the only marked task (if it exists),
    /// else the task under the cursor.
    pub open spec fn delete_target_of(self) -> Option<usize> {
        if self.selected_tasks@.len() == 1 {
            let t = self.selected_tasks@.choose();
            if t < self.tasks@.len() {
                Some(t)
            } else {
                None
            }
        } else {
            self.active_canonical_of()
        }
    }

    pub fn delete_target(&self) -> (r: Option<usize>)
        requires
            self.wf(),
        ensures
            r == self.delete_target_of(),
    {
        if self.selected_tasks.len() == 1 {
            let v = self.selected_tasks.to_vec();
            proof {
                v@.unique_seq_to_set();
                assert(v@.len() == 1);
                assert(v@.to_set() =~= Set::<usize>::empty().insert(v@[0])) by {
                    assert forall|x: usize| v@.to_set().contains(x) <==> x == v@[0] by {
                        if v@.contains(x) {
                            let k = choose|k: int| 0 <= k < v@.len() && v@[k] == x;
                            assert(k == 0);
                        }
                        assert(v@.contains(v@[0]));
                    }
                }
                let s = self.selected_tasks@;
                assert(s.contains(s.choose())) by {
                    assert(s.contains(v@[0]));
                }
            }
            let t = v[0];
            if t < self.tasks.len() {
                Some(t)
            } else {
                None
            }
        } else {
            self.active_canonical_selected()
        }
    }

    /// Deleting with more than one task marked asks for confirmation; true
    /// when the confirmation opened, false when the caller deletes
    /// `delete_target()` at once (and then calls `finish_delete`).
    pub fn request_delete(&mut self) -> (r: bool)
        ensures
            r == (old(self).selected_tasks@.len() > 1),
            r ==> *final(self) == (App { mode: AppMode::DeleteConfirm, ..*old(self) }),
            !r ==> *final(self) == *old(self),
    {
        if self.selected_tasks.len() > 1 {
            self.mode = AppMode::DeleteConfirm;
            true
        } else {
            false
        }
    }

    /// After a delete: no marks, no anchor, disjoint mode off, Normal mode.
    pub fn finish_delete(&mut self)
        ensures
            *final(self) == (App {
                selected_tasks: final(self).selected_tasks,
                selection_anchor: None,
                disjoint_select: false,
                mode: AppMode::Normal,
                ..*old(self)
            }),
            final(self).selected_tasks@ == Set::<usize>::empty(),
    {
        self.clear_selection();
        self.mode = AppMode::Normal;
    }

    /// Bulk append: shows the count first when several tasks are marked.
    pub fn start_bulk_append(&mut self)
        ensures
            old(self).selected_tasks@.len() > 1 ==> *final(self) == (App {
                append_confirm_count: old(self).selected_tasks@.len() as usize,
                mode: AppMode::AppendTextConfirm,
                ..*old(self)
            }),
            old(self).selected_tasks@.len() <= 1 ==> *final(self) == (App {
                mode: AppMode::AppendText,
                ..*old(self)
            }),
    {
        let n = self.selected_tasks.len();
        if n > 1 {
            self.append_confirm_count = n;
            self.mode = AppMode::AppendTextConfirm;
        } else {
            self.mode = AppMode::AppendText;
        }
    }

    /// Switches to the next theme and records it in the configuration; the
    /// caller saves the configuration when it has a path.
    pub fn cycle_theme_setting(&mut self)
        ensures
            final(self).palette == next_theme(old(self).palette),
            final(self).styles == sheet_of(next_theme(old(self).palette), old(self).no_color),
            final(self).config.tui.theme@ == theme_name(next_theme(old(self).palette)),
            final(self).config == (crate::config::TuiConfig {
                tui: final(self).config.tui,
                ..old(self).config
            }),
            *final(self) == (App {
                palette: final(self).palette,
                styles: final(self).styles,
                config: final(self).config,
                ..*old(self)
            }),
    {
        self.palette = cycle_theme(self.palette);
        self.styles = StyleSheet::from_theme(self.palette, self.no_color);
        self.config.tui.theme = theme_name_exec(self.palette);
    }

    /// Opens the filter panel on the active pane's filter.
    pub fn open_filter_panel(&mut self)
        requires
            old(self).wf(),
        ensures
            ({
                let f = old(self).panes@[old(self).active_pane as int].filter_query;
                &&& final(self).filter_state matches Some(s) && s.text@ == f@
                    && s.selected_preset == 0 && s.snapshot@ == f@
                &&& *final(self) == (App {
                    filter_state: final(self).filter_state,
                    mode: AppMode::Filtering,
                    ..*old(self)
                })
            }),
    {
        let f = self.panes[self.active_pane].filter_query.clone();
        let snapshot = f.clone();
        self.filter_state = Some(FilteringState { text: f, selected_preset: 0, snapshot });
        self.mode = AppMode::Filtering;
    }

    /// Opens the preset definition panel: row 0 holds the active pane's
    /// filter; then slots `f1` up to the highest slot in use (at least 5, at
    /// most 9) with their configured expressions (empty when none).
    pub fn open_filter_define(&mut self)
        requires
            old(self).wf(),
        ensures
            ({
                let f = old(self).config.presets.filter@;
                let n = slot_count(f);
                &&& final(self).filter_defining_state matches Some(s) && {
                    &&& s.active_text@ == old(self).panes@[old(self).active_pane as int].filter_query@
                    &&& s.selected_row == 0
                    &&& strs(s.preset_names) == Seq::new(n, |k: int| slot_name((k + 1) as nat))
                    &&& strs(s.preset_texts) == Seq::new(
                        n,
                        |k: int| match preset_filter(f, slot_name((k + 1) as nat)) {
                            Some(x) => x,
                            None => Seq::<char>::empty(),
                        },
                    )
                }
                &&& *final(self) == (App {
                    filter_defining_state: final(self).filter_defining_state,
                    mode: AppMode::FilterDefining,
                    ..*old(self)
                })
            }),
    {
        let f = &self.config.presets.filter;
        let mut highest: usize = 0;
        let mut i: usize = 0;
        while i < f.len()
            invariant
                i <= f@.len(),
                highest == highest_slot(f@.take(i as int)),
                highest <= 9,
            decreases f.len() - i,
        {
            proof {
                assert(f@.take(i + 1).drop_last() =~= f@.take(i as int));
                assert(f@.take(i + 1).last() == f@[i as int]);
            }
            match parse_preset_slot(f[i].0.as_str()) {
                Some(v) => if v > highest {
                    highest = v;
                },
                None => {},
            }
            i += 1;
        }
        assert(f@.take(f@.len() as int) =~= f@);
        let n: usize = if highest < 5 {
            5
        } else {
            highest
        };
        let mut names: Vec<String> = Vec::new();
        let mut texts: Vec<String> = Vec::new();
        let mut k: usize = 0;
        while k < n
            invariant
                k <= n,
                n == slot_count(f@),
                names@.len() == k,
                texts@.len() == k,
                forall|j: int| 0 <= j < k ==> (#[trigger] names@[j])@ == slot_name((j + 1) as nat),
                forall|j: int| 0 <= j < k ==> (#[trigger] texts@[j])@ == match preset_filter(
                    f@,
                    slot_name((j + 1) as nat),
                ) {
                    Some(x) => x,
                    None => Seq::<char>::empty(),
                },
            decreases n - k,
        {
            let name = slot_name_exec(k + 1);
            let text = match preset_filter_exec(f, name.as_str()) {
                Some(x) => x,
                None => String::new(),
            };
            names.push(name);
            texts.push(text);
            k += 1;
        }
        proof {
            assert(strs(names) =~= Seq::new(n as nat, |j: int| slot_name((j + 1) as nat)));
            assert(strs(texts) =~= Seq::new(
                n as nat,
                |j: int| match preset_filter(f@, slot_name((j + 1) as nat)) {
                    Some(x) => x,
                    None => Seq::<char>::empty(),
                },
            ));
        }
        let active_text = self.panes[self.active_pane].filter_query.clone();
        self.filter_defining_state = Some(
            FilterDefiningState { active_text, preset_names: names, preset_texts: texts, selected_row: 0 },
        );
        self.mode = AppMode::FilterDefining;
    }
}

} // verus!

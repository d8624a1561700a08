//! Opening the quick setters, the date picker and the priority picker, and
//! installing a pane layout preset.

use vstd::prelude::*;
use crate::app::{App, AppMode, configured_pane, cursors_ok};
use crate::config::PaneLayoutPreset;
use crate::order::{sort_strings, sorted_by_le};
use crate::state::{
    AutocompleteMode, AutocompleteState, DatePickerState, Pane, PriorityPickerState, all_contexts,
    all_projects, deduped, first_day, get_existing_contexts, get_existing_projects, priority_items,
    suggestions_or_empty,
};
use crate::text::strs;

verus! {

/// `s` is strictly decreasing.
pub open spec fn strictly_descending(s: Seq<usize>) -> bool {
    forall|i: int, j: int| 0 <= i < j < s.len() ==> s[i] > s[j]
}

/// The indices of `v` (below `bound` when `bounded`), each once, highest first.
pub fn below_descending(v: &Vec<usize>, bound: usize, bounded: bool) -> (r: Vec<usize>)
    ensures
        r@.to_set() == v@.to_set().filter(|t: usize| !bounded || t < bound),
        strictly_descending(r@),
{
    let mut out: Vec<usize> = Vec::new();
    let mut i: usize = 0;
    while i < v.len()
        invariant
            i <= v@.len(),
            strictly_descending(out@),
            forall|t: usize| out@.contains(t) <==> (v@.take(i as int).contains(t) && (!bounded || t < bound)),
        decreases v.len() - i,
    {
        let x = v[i];
        let ghost before = out@;
        let ghost mut inserted = false;
        let ghost mut pos: int = 0;
        if !bounded || x < bound {
            let mut p: usize = 0;
            while p < out.len() && out[p] > x
                invariant
                    p <= out@.len(),
                    forall|k: int| 0 <= k < p ==> out@[k] > x,
                decreases out.len() - p,
            {
                p += 1;
            }
            if p < out.len() && out[p] == x {
                assert(before.contains(x));
            } else {
                out.insert(p, x);
                proof {
                    inserted = true;
                    pos = p as int;
                    assert forall|a: int, b: int| 0 <= a < b < out@.len() implies out@[a] > out@[b] by {
                        if b < p {
                            assert(out@[a] == before[a] && out@[b] == before[b]);
                        } else if b == p {
                            assert(out@[a] == before[a]);
                        } else if a == p {
                            assert(out@[b] == before[b - 1]);
                            assert(before[p as int] <= x);
                            assert(before[p as int] != x);
                            if b - 1 > p {
                                assert(before[p as int] > before[b - 1]);
                            }
                        } else if a < p {
                            assert(out@[a] == before[a] && out@[b] == before[b - 1]);
                        } else {
                            assert(out@[a] == before[a - 1] && out@[b] == before[b - 1]);
                        }
                    }
                }
            }
        }
        proof {
            assert(v@.take(i + 1) =~= v@.take(i as int).push(x));
            if inserted {
                assert(out@ =~= before.insert(pos, x));
            } else {
                assert(out@ =~= before);
            }
            assert forall|t: usize| out@.contains(t) <==> (v@.take(i + 1).contains(t) && (!bounded || t < bound)) by {
                if out@.contains(t) {
                    let k = choose|k: int| 0 <= k < out@.len() && #[trigger] out@[k] == t;
                    if inserted {
                        if k < pos {
                            assert(before[k] == t);
                        } else if k > pos {
                            assert(before[k - 1] == t);
                        }
                    }
                }
                if before.contains(t) {
                    let k = choose|k: int| 0 <= k < before.len() && #[trigger] before[k] == t;
                    if inserted {
                        if k < pos {
                            assert(out@[k] == t);
                        } else {
                            assert(out@[k + 1] == t);
                        }
                    }
                }
                if inserted {
                    assert(out@[pos] == x);
                }
                let ti = v@.take(i as int);
                if ti.push(x).contains(t) {
                    let k = choose|k: int| 0 <= k < i + 1 && #[trigger] ti.push(x)[k] == t;
                    if k < i {
                        assert(ti[k] == t);
                    }
                }
                if ti.contains(t) {
                    let k = choose|k: int| 0 <= k < i && #[trigger] ti[k] == t;
                    assert(ti.push(x)[k] == t);
                }
                assert(ti.push(x)[i as int] == x);
            }
        }
        i += 1;
    }
    assert(v@.take(v@.len() as int) =~= v@);
    assert(out@.to_set() =~= v@.to_set().filter(|t: usize| !bounded || t < bound));
    out
}

/// The indices of `v`, each once, highest first.
pub fn descending_unique(v: &Vec<usize>) -> (r: Vec<usize>)
    ensures
        forall|t: usize| r@.contains(t) <==> v@.contains(t),
        strictly_descending(r@),
{
    let r = below_descending(v, 0, false);
    proof {
        assert forall|t: usize| r@.contains(t) <==> v@.contains(t) by {
            assert(r@.to_set().contains(t) == r@.contains(t));
            assert(v@.to_set().contains(t) == v@.contains(t));
        }
    }
    r
}

impl App {
    /// Some marked task exists, or the cursor designates a task.
    pub open spec fn has_targets(self) -> bool {
        (exists|t: usize| self.selected_tasks@.contains(t) && t < self.tasks@.len())
            || self.active_canonical_of() is Some
    }

    pub fn has_quick_setter_targets(&self) -> (r: bool)
        requires
            self.wf(),
        ensures
            r == self.has_targets(),
    {
        let v = self.selected_tasks.to_vec();
        let mut i: usize = 0;
        while i < v.len()
            invariant
                i <= v@.len(),
                v@.to_set() == self.selected_tasks@,
                forall|k: int| 0 <= k < i ==> v@[k] >= self.tasks@.len(),
            decreases v.len() - i,
        {
            if v[i] < self.tasks.len() {
                assert(self.selected_tasks@.contains(v@[i as int]));
                return true;
            }
            i += 1;
        }
        proof {
            assert forall|t: usize| self.selected_tasks@.contains(t) implies t >= self.tasks@.len() by {
                assert(v@.contains(t));
            }
        }
        self.active_canonical_selected().is_some()
    }

    /// The tasks a quick setter or picker changes: the marked tasks that exist,
    /// highest index first; without marks, the task under the cursor.
    pub fn quick_setter_targets(&self) -> (r: Vec<usize>)
        requires
            self.wf(),
        ensures
            self.selected_tasks@ != Set::<usize>::empty() ==> r@.to_set() == self.selected_tasks@.filter(
                |t: usize| t < self.tasks@.len(),
            ) && strictly_descending(r@),
            self.selected_tasks@ == Set::<usize>::empty() ==> r@ == (match self.active_canonical_of() {
                Some(t) => seq![t],
                None => Seq::<usize>::empty(),
            }),
    {
        if !self.selected_tasks.is_empty() {
            let v = self.selected_tasks.to_vec();
            let r = below_descending(&v, self.tasks.len(), true);
            assert(r@.to_set() =~= self.selected_tasks@.filter(|t: usize| t < self.tasks@.len()));
            return r;
        }
        let mut r: Vec<usize> = Vec::new();
        match self.active_canonical_selected() {
            Some(t) => {
                r.push(t);
                assert(r@ =~= seq![t]);
            },
            None => {},
        }
        r
    }

    /// Opens the quick setter for `@` contexts (`trigger` `@`) or `+` projects:
    /// all tags in use, sorted, no prefix typed. Without a target task, warns.
    pub fn open_quick_setter(&mut self, trigger: char) -> (r: bool)
        requires
            old(self).wf(),
            trigger == '@' || trigger == '+',
        ensures
            r == old(self).has_targets(),
            r ==> {
                let tags = if trigger == '@' {
                    deduped(all_contexts(old(self).tasks@))
                } else {
                    deduped(all_projects(old(self).tasks@))
                };
                &&& final(self).autocomplete matches Some(a) && {
                    &&& a.mode == AutocompleteMode::QuickSetter(trigger)
                    &&& a.trigger == trigger
                    &&& a.prefix@.len() == 0
                    &&& strs(a.items).to_multiset() == tags.to_multiset()
                    &&& sorted_by_le(strs(a.items))
                    &&& strs(a.all_items) == strs(a.items)
                    &&& a.selected == 0
                    &&& !a.focused
                }
                &&& *final(self) == (App {
                    autocomplete: final(self).autocomplete,
                    mode: AppMode::QuickSetter(trigger),
                    ..*old(self)
                })
            },
            !r ==> *final(self) == (App { runtime_warnings: final(self).runtime_warnings, ..*old(self) })
                && strs(final(self).runtime_warnings) == strs(old(self).runtime_warnings).push(
                if trigger == '@' {
                    "quick context setter requires an active task or selection"@
                } else {
                    "quick project setter requires an active task or selection"@
                },
            ),
    {
        if !self.has_quick_setter_targets() {
            let msg = if trigger == '@' {
                String::from_str("quick context setter requires an active task or selection")
            } else {
                String::from_str("quick project setter requires an active task or selection")
            };
            let ghost w0 = strs(self.runtime_warnings);
            let ghost m = msg@;
            self.runtime_warnings.push(msg);
            assert(strs(self.runtime_warnings) =~= w0.push(m));
            return false;
        }
        let tags = if trigger == '@' {
            get_existing_contexts(&self.tasks)
        } else {
            get_existing_projects(&self.tasks)
        };
        let items = sort_strings(tags);
        self.autocomplete = Some(AutocompleteState::new_quick_setter(trigger, String::new(), items));
        self.mode = AppMode::QuickSetter(trigger);
        true
    }

    /// Opens the date picker on `month_year` (`YYYY-MM`, the current month as
    /// the caller reads the clock). Without a target task, warns.
    pub fn open_date_picker(&mut self, month_year: &str) -> (r: bool)
        requires
            old(self).wf(),
        ensures
            r == old(self).has_targets(),
            r ==> {
                &&& final(self).date_picker matches Some(p) && {
                    &&& p.month_year@ == month_year@
                    &&& strs(p.suggestions) == suggestions_or_empty(month_year@)
                    &&& p.selected_day == first_day(suggestions_or_empty(month_year@))
                    &&& p.day_input@.len() == 0
                    &&& !p.focused
                }
                &&& *final(self) == (App {
                    date_picker: final(self).date_picker,
                    mode: AppMode::DatePicker,
                    ..*old(self)
                })
            },
            !r ==> *final(self) == (App { runtime_warnings: final(self).runtime_warnings, ..*old(self) })
                && strs(final(self).runtime_warnings) == strs(old(self).runtime_warnings).push(
                "date picker requires an active task or selection"@,
            ),
    {
        if self.has_quick_setter_targets() {
            self.date_picker = Some(DatePickerState::new(month_year));
            self.mode = AppMode::DatePicker;
            true
        } else {
            let ghost w0 = strs(self.runtime_warnings);
            self.runtime_warnings.push(String::from_str("date picker requires an active task or selection"));
            assert(strs(self.runtime_warnings) =~= w0.push("date picker requires an active task or selection"@));
            false
        }
    }

    /// Opens the priority picker. Without a target task, warns.
    pub fn open_priority_picker(&mut self) -> (r: bool)
        requires
            old(self).wf(),
        ensures
            r == old(self).has_targets(),
            r ==> {
                &&& final(self).priority_picker matches Some(p) && strs(p.items) == priority_items()
                    && p.selected_idx == 0 && p.type_char is None && !p.focused
                &&& *final(self) == (App {
                    priority_picker: final(self).priority_picker,
                    mode: AppMode::PriorityPicker,
                    ..*old(self)
                })
            },
            !r ==> *final(self) == (App { runtime_warnings: final(self).runtime_warnings, ..*old(self) })
                && strs(final(self).runtime_warnings) == strs(old(self).runtime_warnings).push(
                "priority picker requires an active task or selection"@,
            ),
    {
        if self.has_quick_setter_targets() {
            self.priority_picker = Some(PriorityPickerState::new());
            self.mode = AppMode::PriorityPicker;
            true
        } else {
            let ghost w0 = strs(self.runtime_warnings);
            self.runtime_warnings.push(
                String::from_str("priority picker requires an active task or selection"),
            );
            assert(strs(self.runtime_warnings) =~= w0.push("priority picker requires an active task or selection"@));
            false
        }
    }

    /// Replaces the panes by those of the layout preset at `idx` (when it
    /// exists and lists panes): focus on the first, no marks, no anchor; the
    /// caller rebuilds the views. True when the layout was installed.
    pub fn apply_pane_layout_preset(&mut self, idx: usize) -> (r: bool)
        requires
            old(self).wf(),
        ensures
            final(self).wf(),
            r == (idx < old(self).pane_presets@.len() && old(self).pane_presets@[idx as int].1.panes@.len()
                > 0),
            !r ==> *final(self) == *old(self),
            r ==> {
                let cfgs = old(self).pane_presets@[idx as int].1.panes@;
                &&& final(self).panes@.len() == cfgs.len()
                &&& forall|i: int| 0 <= i < cfgs.len() ==> configured_pane(
                    #[trigger] final(self).panes@[i],
                    cfgs[i],
                    i,
                )
                &&& final(self).selected_tasks@ == Set::<usize>::empty()
                &&& *final(self) == (App {
                    panes: final(self).panes,
                    active_pane: 0,
                    selected_tasks: final(self).selected_tasks,
                    selection_anchor: None,
                    ..*old(self)
                })
            },
    {
        if idx >= self.pane_presets.len() || self.pane_presets[idx].1.panes.len() == 0 {
            return false;
        }
        let panes = crate::app::panes_from_configs(&self.pane_presets[idx].1.panes);
        self.panes = panes;
        self.active_pane = 0;
        self.selected_tasks.clear();
        self.selection_anchor = None;
        true
    }

    /// After the task list was read again from disk: no pending reload, and
    /// marks and anchor that name no task dropped. The caller rebuilds.
    pub fn after_reload(&mut self)
        ensures
            *final(self) == (App {
                pending_reload: false,
                selected_tasks: final(self).selected_tasks,
                selection_anchor: final(self).selection_anchor,
                ..*old(self)
            }),
            final(self).selected_tasks@ == old(self).selected_tasks@.filter(
                |t: usize| t < old(self).tasks@.len(),
            ),
            final(self).selection_anchor == (match old(self).selection_anchor {
                Some(a) => if a < old(self).tasks@.len() {
                    Some(a)
                } else {
                    None
                },
                None => None,
            }),
    {
        self.pending_reload = false;
        self.prune_stale_selections();
    }
}

} // verus!

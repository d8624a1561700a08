//! The cursor and the multi-selection: which task the cursor is on, moving it
//! past group headers, marking tasks and range selection.

use vstd::prelude::*;
use crate::app::{App, single_view, cursors_ok};
use crate::state::{DisplayRow, Pane};

verus! {

/// The marks after a range selection on `a`: the tasks on the rows from the
/// anchor's row to the cursor's row, or the marks unchanged when the anchor or
/// the cursor is on no task row.
pub open spec fn range_selected(a: App) -> Set<usize> {
    let rows = a.cursor_rows();
    match (a.selection_anchor, row_task(rows, a.cursor_row())) {
        (Some(x), Some(c)) => match (task_pos(rows, x), task_pos(rows, c)) {
            (Some(ar), Some(cr)) => tasks_in_rows(
                rows,
                if ar <= cr {
                    ar
                } else {
                    cr
                },
                if ar <= cr {
                    cr
                } else {
                    ar
                },
            ),
            _ => a.selected_tasks@,
        },
        _ => a.selected_tasks@,
    }
}

/// `s` with `t` taken out when present, put in otherwise.
pub open spec fn toggled(s: Set<usize>, t: usize) -> Set<usize> {
    if s.contains(t) {
        s.remove(t)
    } else {
        s.insert(t)
    }
}

/// The task index shown on row `i`, if that row exists and shows a task.
pub open spec fn row_task(rows: Seq<DisplayRow>, i: int) -> Option<usize> {
    if 0 <= i < rows.len() {
        match rows[i] {
            DisplayRow::Task(t) => Some(t),
            DisplayRow::GroupHeader(_) => None,
        }
    } else {
        None
    }
}

pub open spec fn is_header(r: DisplayRow) -> bool {
    r is GroupHeader
}

/// The first row at or after `i` that shows a task, or `rows.len()`.
pub open spec fn next_task_row(rows: Seq<DisplayRow>, i: int) -> int
    decreases rows.len() - i,
{
    if i < 0 || i >= rows.len() {
        rows.len() as int
    } else if is_header(rows[i]) {
        next_task_row(rows, i + 1)
    } else {
        i
    }
}

/// Scanning up from `p`: the last row at or before `p` that shows a task, or row 0.
pub open spec fn back_scan(rows: Seq<DisplayRow>, p: int) -> int
    decreases p,
{
    if p <= 0 {
        0
    } else if p < rows.len() && is_header(rows[p]) {
        back_scan(rows, p - 1)
    } else {
        p
    }
}

/// First position of a row showing task `t`.
pub open spec fn task_pos(rows: Seq<DisplayRow>, t: usize) -> Option<int>
    decreases rows.len(),
{
    if rows.len() == 0 {
        None
    } else if rows[0] == DisplayRow::Task(t) {
        Some(0)
    } else {
        match task_pos(rows.drop_first(), t) {
            Some(k) => Some(k + 1),
            None => None,
        }
    }
}

/// The tasks shown on rows `lo` to `hi`.
pub open spec fn tasks_in_rows(rows: Seq<DisplayRow>, lo: int, hi: int) -> Set<usize> {
    Set::new(|t: usize| exists|r: int| lo <= r <= hi && r < rows.len() && #[trigger] rows[r] == DisplayRow::Task(t))
}

impl App {
    /// Several panes are shown, each with its own cursor.
    pub open spec fn multi_view(self) -> bool {
        !single_view(self.panes@) && self.panes@.len() > 1 && !self.panes_hidden
    }

    /// The rows the cursor moves over: the active pane's in the multi-pane view,
    /// the global view's otherwise.
    pub open spec fn cursor_rows(self) -> Seq<DisplayRow> {
        if self.multi_view() {
            self.panes@[self.active_pane as int].display_rows@
        } else {
            self.display_rows@
        }
    }

    pub open spec fn cursor_row(self) -> int {
        if self.multi_view() {
            self.panes@[self.active_pane as int].selected as int
        } else {
            self.selected as int
        }
    }

    /// The task under the global cursor, else the first task of the global view.
    pub open spec fn canonical_of(self) -> Option<usize> {
        match row_task(self.display_rows@, self.selected as int) {
            Some(t) => Some(t),
            None => if self.display_indices@.len() > 0 {
                Some(self.display_indices@[0])
            } else {
                None
            },
        }
    }

    /// The task under the active pane's cursor, else its first row's task;
    /// none while the pane's title is selected.
    pub open spec fn pane_canonical_of(self) -> Option<usize> {
        let p = self.panes@[self.active_pane as int];
        if p.label_selected {
            None
        } else {
            match row_task(p.display_rows@, p.selected as int) {
                Some(t) => Some(t),
                None => row_task(p.display_rows@, 0),
            }
        }
    }

    /// The task the cursor designates in the current view, if it exists.
    pub open spec fn active_canonical_of(self) -> Option<usize> {
        let s = if self.multi_view() {
            self.pane_canonical_of()
        } else {
            self.canonical_of()
        };
        match s {
            Some(t) => if t < self.tasks@.len() {
                Some(t)
            } else {
                None
            },
            None => None,
        }
    }

    /// The task of the global cursor row, else the first of the global view.
    pub fn canonical_selected(&self) -> (r: Option<usize>)
        ensures
            r == self.canonical_of(),
    {
        if self.selected < self.display_rows.len() {
            match &self.display_rows[self.selected] {
                DisplayRow::Task(i) => {
                    return Some(*i);
                },
                DisplayRow::GroupHeader(_) => {},
            }
        }
        if self.display_indices.len() > 0 {
            Some(self.display_indices[0])
        } else {
            None
        }
    }

    /// The task of the active pane's cursor row, else of its first row.
    pub fn pane_canonical_selected(&self) -> (r: Option<usize>)
        requires
            self.wf(),
        ensures
            r == self.pane_canonical_of(),
    {
        let pane = &self.panes[self.active_pane];
        if pane.label_selected {
            return None;
        }
        if pane.selected < pane.display_rows.len() {
            match &pane.display_rows[pane.selected] {
                DisplayRow::Task(i) => {
                    return Some(*i);
                },
                DisplayRow::GroupHeader(_) => {},
            }
        }
        if pane.display_rows.len() > 0 {
            match &pane.display_rows[0] {
                DisplayRow::Task(i) => Some(*i),
                DisplayRow::GroupHeader(_) => None,
            }
        } else {
            None
        }
    }

    /// Several panes are shown, each with its own cursor.
    pub fn is_multi_view(&self) -> (r: bool)
        ensures
            r == self.multi_view(),
    {
        !self.should_show_single_pane() && self.panes.len() > 1 && !self.panes_hidden
    }

    /// The task the cursor designates in the current view, when that index is
    /// a task of the list.
    pub fn active_canonical_selected(&self) -> (r: Option<usize>)
        requires
            self.wf(),
        ensures
            r == self.active_canonical_of(),
    {
        let s = if self.is_multi_view() {
            self.pane_canonical_selected()
        } else {
            self.canonical_selected()
        };
        match s {
            Some(t) => if t < self.tasks.len() {
                Some(t)
            } else {
                None
            },
            None => None,
        }
    }

    /// Marks or unmarks the task under the global cursor; nothing on a header.
    pub fn toggle_task_selection(&mut self)
        ensures
            *final(self) == (App { selected_tasks: final(self).selected_tasks, ..*old(self) }),
            match row_task(old(self).display_rows@, old(self).selected as int) {
                Some(t) => final(self).selected_tasks@ == toggled(old(self).selected_tasks@, t),
                None => final(self).selected_tasks@ == old(self).selected_tasks@,
            },
    {
        if self.selected < self.display_rows.len() {
            let idx = match &self.display_rows[self.selected] {
                DisplayRow::Task(i) => *i,
                DisplayRow::GroupHeader(_) => {
                    return;
                },
            };
            if self.selected_tasks.contains(&idx) {
                self.selected_tasks.remove(&idx);
            } else {
                self.selected_tasks.insert(idx);
            }
        }
    }

    /// Marks or unmarks the task under the active pane's cursor.
    pub fn pane_toggle_task_selection(&mut self)
        requires
            old(self).wf(),
        ensures
            *final(self) == (App { selected_tasks: final(self).selected_tasks, ..*old(self) }),
            ({
                let p = old(self).panes@[old(self).active_pane as int];
                match row_task(p.display_rows@, p.selected as int) {
                    Some(t) => final(self).selected_tasks@ == toggled(old(self).selected_tasks@, t),
                    None => final(self).selected_tasks@ == old(self).selected_tasks@,
                }
            }),
    {
        let pane = &self.panes[self.active_pane];
        if pane.selected < pane.display_rows.len() {
            let idx = match &pane.display_rows[pane.selected] {
                DisplayRow::Task(i) => *i,
                DisplayRow::GroupHeader(_) => {
                    return;
                },
            };
            if self.selected_tasks.contains(&idx) {
                self.selected_tasks.remove(&idx);
            } else {
                self.selected_tasks.insert(idx);
            }
        }
    }

    /// Empties the selection, forgets the anchor and leaves disjoint mode.
    pub fn clear_selection(&mut self)
        ensures
            *final(self) == (App {
                selected_tasks: final(self).selected_tasks,
                selection_anchor: None,
                disjoint_select: false,
                ..*old(self)
            }),
            final(self).selected_tasks@ == Set::<usize>::empty(),
    {
        self.selected_tasks.clear();
        self.selection_anchor = None;
        self.disjoint_select = false;
    }

    /// Turns the disjoint selection mode on or off.
    pub fn toggle_disjoint_select(&mut self)
        ensures
            *final(self) == (App { disjoint_select: !old(self).disjoint_select, ..*old(self) }),
    {
        self.disjoint_select = !self.disjoint_select;
    }

    /// Sets the anchor to the cursor's task unless an anchor is set.
    pub fn ensure_anchor(&mut self)
        requires
            old(self).wf(),
        ensures
            *final(self) == (App { selection_anchor: final(self).selection_anchor, ..*old(self) }),
            final(self).selection_anchor == (match old(self).selection_anchor {
                Some(a) => Some(a),
                None => old(self).active_canonical_of(),
            }),
    {
        if self.selection_anchor.is_none() {
            self.selection_anchor = self.active_canonical_selected();
        }
    }

    /// Replaces the selection by the tasks on the rows from the anchor's row to
    /// the cursor's row; nothing when the anchor or the cursor is on no task row.
    pub fn apply_range_selection(&mut self)
        requires
            old(self).wf(),
        ensures
            *final(self) == (App { selected_tasks: final(self).selected_tasks, ..*old(self) }),
            final(self).selected_tasks@ == range_selected(*old(self)),
    {
        let anchor = match self.selection_anchor {
            Some(a) => a,
            None => {
                return;
            },
        };
        let multi = self.is_multi_view();
        let picked: Option<Vec<usize>> = if multi {
            let pane = &self.panes[self.active_pane];
            range_of(&pane.display_rows, pane.selected, anchor)
        } else {
            range_of(&self.display_rows, self.selected, anchor)
        };
        match picked {
            Some(v) => {
                let mut sel = crate::selection::TaskSelection::new();
                let mut i: usize = 0;
                assert(v@.take(0).to_set() =~= Set::<usize>::empty());
                while i < v.len()
                    invariant
                        i <= v@.len(),
                        sel@ == v@.take(i as int).to_set(),
                    decreases v.len() - i,
                {
                    sel.insert(v[i]);
                    proof {
                        assert(v@.take(i + 1) =~= v@.take(i as int).push(v@[i as int]));
                        v@.take(i as int).lemma_push_to_set_commute(v@[i as int]);
                    }
                    i += 1;
                }
                assert(v@.take(v@.len() as int) =~= v@);
                self.selected_tasks = sel;
            },
            None => {},
        }
    }

    /// Drops marks and the anchor that name no task of the list.
    pub fn prune_stale_selections(&mut self)
        ensures
            *final(self) == (App {
                selected_tasks: final(self).selected_tasks,
                selection_anchor: final(self).selection_anchor,
                ..*old(self)
            }),
            final(self).selected_tasks@ == old(self).selected_tasks@.filter(
                |t: usize| t < old(self).tasks@.len(),
            ),
            final(self).selection_anchor == (match old(self).selection_anchor {
                Some(a) => if a < old(self).tasks@.len() {
                    Some(a)
                } else {
                    None
                },
                None => None,
            }),
    {
        let len = self.tasks.len();
        self.selected_tasks.retain_below(len);
        match self.selection_anchor {
            Some(a) => if a >= len {
                self.selection_anchor = None;
            },
            None => {},
        }
    }

    /// Keeps the global cursor on a row of the global view (0 when empty).
    pub fn clamp_selection(&mut self)
        ensures
            *final(self) == (App { selected: final(self).selected, ..*old(self) }),
            final(self).selected == (if old(self).display_rows@.len() == 0 {
                0
            } else if old(self).selected < old(self).display_rows@.len() {
                old(self).selected as int
            } else {
                old(self).display_rows@.len() - 1
            }),
    {
        let count = self.display_rows.len();
        if count == 0 {
            self.selected = 0;
        } else if self.selected >= count {
            self.selected = count - 1;
        }
    }
}

/// The task on row `sel` and the tasks on the rows between the first rows of
/// `anchor` and of that task, when both are found.
fn range_of(rows: &Vec<DisplayRow>, sel: usize, anchor: usize) -> (r: Option<Vec<usize>>)
    ensures
        match (row_task(rows@, sel as int)) {
            Some(c) => match (task_pos(rows@, anchor), task_pos(rows@, c)) {
                (Some(ar), Some(cr)) => r is Some && r->0@.to_set() == tasks_in_rows(
                    rows@,
                    if ar <= cr {
                        ar
                    } else {
                        cr
                    },
                    if ar <= cr {
                        cr
                    } else {
                        ar
                    },
                ),
                _ => r is None,
            },
            None => r is None,
        },
{
    if sel >= rows.len() {
        return None;
    }
    let cursor = match &rows[sel] {
        DisplayRow::Task(i) => *i,
        DisplayRow::GroupHeader(_) => {
            return None;
        },
    };
    let ar = match find_task_row(rows, anchor) {
        Some(x) => x,
        None => {
            return None;
        },
    };
    let cr = match find_task_row(rows, cursor) {
        Some(x) => x,
        None => {
            return None;
        },
    };
    let (lo, hi) = if ar <= cr {
        (ar, cr)
    } else {
        (cr, ar)
    };
    let mut v: Vec<usize> = Vec::new();
    let mut row = lo;
    while row <= hi
        invariant
            lo <= row <= hi + 1,
            hi < rows.len(),
            forall|t: usize| v@.contains(t) <==> (exists|q: int| lo <= q < row && #[trigger] rows@[q]
                == DisplayRow::Task(t)),
        decreases hi + 1 - row,
    {
        let ghost before = v@;
        match &rows[row] {
            DisplayRow::Task(i) => {
                v.push(*i);
            },
            DisplayRow::GroupHeader(_) => {},
        }
        proof {
            assert forall|t: usize| v@.contains(t) <==> (exists|q: int| lo <= q < row + 1
                && #[trigger] rows@[q] == DisplayRow::Task(t)) by {
                if v@.contains(t) && !before.contains(t) {
                    let k = choose|k: int| 0 <= k < v@.len() && v@[k] == t;
                    if k < before.len() {
                        assert(before[k] == t);
                    }
                    assert(rows@[row as int] == DisplayRow::Task(t));
                }
                if before.contains(t) {
                    let k = choose|k: int| 0 <= k < before.len() && before[k] == t;
                    assert(v@[k] == t);
                }
                if exists|q: int| lo <= q < row + 1 && #[trigger] rows@[q] == DisplayRow::Task(t) {
                    let q = choose|q: int| lo <= q < row + 1 && #[trigger] rows@[q]
                        == DisplayRow::Task(t);
                    if q == row {
                        assert(v@[v@.len() - 1] == t);
                    }
                }
            }
        }
        row += 1;
    }
    proof {
        assert(v@.to_set() =~= tasks_in_rows(rows@, lo as int, hi as int));
    }
    Some(v)
}

/// The first row showing task `t`.
fn find_task_row(rows: &Vec<DisplayRow>, t: usize) -> (r: Option<usize>)
    ensures
        r matches Some(k) ==> task_pos(rows@, t) == Some(k as int) && k < rows@.len(),
        r is None ==> task_pos(rows@, t) is None,
{
    let mut i: usize = 0;
    assert(rows@.skip(0) =~= rows@);
    while i < rows.len()
        invariant
            i <= rows@.len(),
            task_pos(rows@, t) == (match task_pos(rows@.skip(i as int), t) {
                Some(k) => Some(k + i),
                None => None::<int>,
            }),
        decreases rows.len() - i,
    {
        let ghost s = rows@.skip(i as int);
        assert(s[0] == rows@[i as int]);
        let hit = match &rows[i] {
            DisplayRow::Task(x) => *x == t,
            DisplayRow::GroupHeader(_) => false,
        };
        if hit {
            return Some(i);
        }
        assert(s.drop_first() =~= rows@.skip(i + 1));
        i += 1;
    }
    None
}

} // verus!

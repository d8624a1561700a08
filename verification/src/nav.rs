//! Cursor movement: row by row past group headers, onto a pane's title, and by
//! half pages.

use vstd::prelude::*;
use crate::app::{App, single_view};
use crate::select::{back_scan, is_header, next_task_row, range_selected, row_task};
use crate::state::{DisplayRow, Pane};

verus! {

/// Row count minus one, or 0.
pub open spec fn last_row(len: int) -> int {
    if len == 0 {
        0
    } else {
        len - 1
    }
}

/// Cursor and title selection after moving down from row `start`.
pub open spec fn moved_down(rows: Seq<DisplayRow>, start: int, on_title: bool) -> (int, bool) {
    if on_title {
        let f = next_task_row(rows, 0);
        (if f < rows.len() {
            f
        } else {
            0
        }, false)
    } else if rows.len() > 0 {
        let n = next_task_row(rows, start + 1);
        (if n < rows.len() {
            n
        } else {
            start
        }, false)
    } else {
        (start, false)
    }
}

/// Cursor and title selection after moving up from row `start`: onto the
/// previous task row, or onto the pane's title from the first task.
pub open spec fn moved_up(rows: Seq<DisplayRow>, start: int, on_title: bool) -> (int, bool) {
    if on_title {
        (start, true)
    } else if start == 0 {
        (start, true)
    } else {
        let prev = back_scan(rows, start - 1);
        if row_task(rows, prev) is Some {
            (prev, false)
        } else {
            (start, true)
        }
    }
}

/// The first row at or after `s` below `bound` that is no header of `rows`.
pub open spec fn skip_headers(rows: Seq<DisplayRow>, s: int, bound: int) -> int
    decreases bound - s,
{
    if s < bound && s < rows.len() && is_header(rows[s]) {
        skip_headers(rows, s + 1, bound)
    } else {
        s
    }
}

proof fn lemma_next_task_row_bounds(rows: Seq<DisplayRow>, i: int)
    requires
        0 <= i,
    ensures
        i <= rows.len() ==> next_task_row(rows, i) >= i,
        next_task_row(rows, i) <= rows.len(),
        next_task_row(rows, i) < rows.len() ==> !is_header(rows[next_task_row(rows, i)]),
    decreases rows.len() - i,
{
    if i < rows.len() && is_header(rows[i]) {
        lemma_next_task_row_bounds(rows, i + 1);
    }
}

proof fn lemma_back_scan_bounds(rows: Seq<DisplayRow>, p: int)
    requires
        0 <= p,
    ensures
        0 <= back_scan(rows, p) <= p,
    decreases p,
{
    if p > 0 && p < rows.len() && is_header(rows[p]) {
        lemma_back_scan_bounds(rows, p - 1);
    }
}

proof fn lemma_skip_headers_bounds(rows: Seq<DisplayRow>, s: int, bound: int)
    ensures
        skip_headers(rows, s, bound) >= s,
        s <= bound ==> skip_headers(rows, s, bound) <= bound,
    decreases bound - s,
{
    if s < bound && s < rows.len() && is_header(rows[s]) {
        lemma_skip_headers_bounds(rows, s + 1, bound);
    }
}

fn next_task_row_exec(rows: &Vec<DisplayRow>, i: usize) -> (r: usize)
    ensures
        r == next_task_row(rows@, i as int),
{
    let mut k = i;
    while k < rows.len() && matches!(rows[k], DisplayRow::GroupHeader(_))
        invariant
            i <= k,
            next_task_row(rows@, i as int) == next_task_row(rows@, k as int),
        decreases rows.len() - k,
    {
        k += 1;
    }
    if k >= rows.len() {
        rows.len()
    } else {
        k
    }
}

fn back_scan_exec(rows: &Vec<DisplayRow>, p: usize) -> (r: usize)
    requires
        p < rows@.len(),
    ensures
        r == back_scan(rows@, p as int),
{
    let mut k = p;
    while k > 0 && matches!(rows[k], DisplayRow::GroupHeader(_))
        invariant
            k <= p,
            p < rows@.len(),
            back_scan(rows@, p as int) == back_scan(rows@, k as int),
        decreases k,
    {
        k -= 1;
    }
    k
}

fn down_target(rows: &Vec<DisplayRow>, start: usize, on_title: bool) -> (r: (usize, bool))
    requires
        start == 0 || start < rows@.len(),
    ensures
        r.0 as int == moved_down(rows@, start as int, on_title).0,
        r.1 == moved_down(rows@, start as int, on_title).1,
        r.0 == 0 || r.0 < rows@.len(),
{
    let len = rows.len();
    proof {
        lemma_next_task_row_bounds(rows@, 0);
        lemma_next_task_row_bounds(rows@, start + 1);
    }
    if on_title {
        let f = next_task_row_exec(rows, 0);
        (if f < len {
            f
        } else {
            0
        }, false)
    } else if len > 0 {
        let n = next_task_row_exec(rows, start + 1);
        (if n < len {
            n
        } else {
            start
        }, false)
    } else {
        (start, false)
    }
}

fn up_target(rows: &Vec<DisplayRow>, start: usize, on_title: bool) -> (r: (usize, bool))
    requires
        start == 0 || start < rows@.len(),
    ensures
        r.0 as int == moved_up(rows@, start as int, on_title).0,
        r.1 == moved_up(rows@, start as int, on_title).1,
        r.0 == 0 || r.0 < rows@.len(),
{
    if on_title {
        (start, true)
    } else if start == 0 {
        (start, true)
    } else {
        let prev = back_scan_exec(rows, start - 1);
        proof {
            lemma_back_scan_bounds(rows@, start - 1);
        }
        if matches!(rows[prev], DisplayRow::Task(_)) {
            (prev, false)
        } else {
            (start, true)
        }
    }
}

/// The pane `p` with cursor `sel` and title selection `on_title`.
pub open spec fn with_cursor(p: Pane, sel: int, on_title: bool) -> Pane {
    Pane { selected: sel as usize, label_selected: on_title, ..p }
}

/// `b` is `a` with the active pane's cursor moved one task row down (or up),
/// the global cursor following in the single view.
pub open spec fn cursor_moved(a: App, b: App, down: bool) -> bool {
    let k = a.active_pane as int;
    let p = a.panes@[k];
    let m = if down {
        moved_down(p.display_rows@, a.move_start(), p.label_selected)
    } else {
        moved_up(p.display_rows@, a.move_start(), p.label_selected)
    };
    &&& b.panes@ == a.panes@.update(k, with_cursor(p, m.0, m.1))
    &&& b == (App {
        panes: b.panes,
        selected: if a.global_cursor() {
            m.0 as usize
        } else {
            a.selected
        },
        ..a
    })
}

impl App {
    /// The global cursor is the cursor of the active pane (single view, or
    /// panes hidden).
    pub open spec fn global_cursor(self) -> bool {
        single_view(self.panes@) || self.panes_hidden
    }

    /// Where a pane move starts: the global cursor, kept on the pane's rows,
    /// or the pane's own cursor.
    pub open spec fn move_start(self) -> int {
        let p = self.panes@[self.active_pane as int];
        if self.global_cursor() {
            if self.selected < last_row(p.display_rows@.len() as int) {
                self.selected as int
            } else {
                last_row(p.display_rows@.len() as int)
            }
        } else {
            p.selected as int
        }
    }

    fn move_start_exec(&self) -> (r: usize)
        requires
            self.wf(),
        ensures
            r == self.move_start(),
            r == 0 || r < self.panes@[self.active_pane as int].display_rows@.len(),
    {
        let a = self.active_pane;
        let len = self.panes[a].display_rows.len();
        if self.should_show_single_pane() || self.panes_hidden {
            let lr = if len == 0 {
                0
            } else {
                len - 1
            };
            if self.selected < lr {
                self.selected
            } else {
                lr
            }
        } else {
            self.panes[a].selected
        }
    }

    /// Moves the active pane's cursor down to the next task row (from the
    /// title, to the first task row).
    pub fn pane_move_down(&mut self)
        requires
            old(self).wf(),
        ensures
            final(self).wf(),
            cursor_moved(*old(self), *final(self), true),
    {
        let use_global = self.should_show_single_pane() || self.panes_hidden;
        let a = self.active_pane;
        let start = self.move_start_exec();
        let ghost before = *self;
        let (sel, on_title) = down_target(&self.panes[a].display_rows, start, self.panes[a].label_selected);
        self.panes[a].selected = sel;
        self.panes[a].label_selected = on_title;
        if use_global {
            self.selected = sel;
        }
        assert(self.panes@ =~= before.panes@.update(
            a as int,
            with_cursor(before.panes@[a as int], sel as int, on_title),
        ));
    }

    /// Moves the active pane's cursor up to the previous task row; from the
    /// first task row (or past the last header) onto the pane's title.
    pub fn pane_move_up(&mut self)
        requires
            old(self).wf(),
        ensures
            final(self).wf(),
            cursor_moved(*old(self), *final(self), false),
    {
        let use_global = self.should_show_single_pane() || self.panes_hidden;
        let a = self.active_pane;
        let start = self.move_start_exec();
        let ghost before = *self;
        let (sel, on_title) = up_target(&self.panes[a].display_rows, start, self.panes[a].label_selected);
        self.panes[a].selected = sel;
        self.panes[a].label_selected = on_title;
        if use_global {
            self.selected = sel;
        }
        assert(self.panes@ =~= before.panes@.update(
            a as int,
            with_cursor(before.panes@[a as int], sel as int, on_title),
        ));
    }

    /// j/k and the arrows: moves the cursor one task row. Without `extend` the
    /// anchor is forgotten; with it the anchor is set first (if unset) and the
    /// range from the anchor to the new cursor becomes the selection.
    pub fn move_cursor(&mut self, down: bool, extend: bool)
        requires
            old(self).wf(),
        ensures
            final(self).wf(),
            !extend ==> cursor_moved(App { selection_anchor: None, ..*old(self) }, *final(self), down),
            extend ==> ({
                let start = App {
                    selection_anchor: match old(self).selection_anchor {
                        Some(x) => Some(x),
                        None => old(self).active_canonical_of(),
                    },
                    ..*old(self)
                };
                let moved = App { selected_tasks: old(self).selected_tasks, ..*final(self) };
                &&& cursor_moved(start, moved, down)
                &&& final(self).selected_tasks@ == crate::select::range_selected(moved)
            }),
    {
        if extend {
            self.ensure_anchor();
        } else {
            self.selection_anchor = None;
        }
        if down {
            self.pane_move_down();
        } else {
            self.pane_move_up();
        }
        if extend {
            let ghost moved = *self;
            self.apply_range_selection();
            assert(moved == App { selected_tasks: moved.selected_tasks, ..*self });
        }
    }

    /// Half a page of the list area, at least one row.
    pub open spec fn half_page(self) -> int {
        if self.list_height / 2 >= 1 {
            (self.list_height / 2) as int
        } else {
            1
        }
    }

    /// Number of rows the cursor moves over in the current view.
    pub open spec fn view_row_count(self) -> int {
        if !single_view(self.panes@) && self.panes@.len() > 1 && !self.panes_hidden {
            self.panes@[self.active_pane as int].display_rows@.len() as int
        } else {
            self.display_rows@.len() as int
        }
    }

    /// Where a half-page move puts the global cursor before clamping: moved by
    /// half a page (up to row 0, down to the last row), then past headers.
    pub open spec fn half_page_target(self, down: bool) -> int {
        let n = self.view_row_count();
        let s = if down {
            if self.selected + self.half_page() < last_row(n) {
                self.selected + self.half_page()
            } else {
                last_row(n)
            }
        } else {
            if self.selected >= self.half_page() {
                self.selected - self.half_page()
            } else {
                0
            }
        };
        skip_headers(self.display_rows@, s, n)
    }

    /// Moves the global cursor half a page down or up, past group headers,
    /// keeping it on a row. With `extend`, sets the anchor first (if unset) and
    /// then selects the range from the anchor; without, forgets the anchor.
    pub fn half_page_move(&mut self, down: bool, extend: bool)
        requires
            old(self).wf(),
        ensures
            final(self).wf(),
            final(self).panes == old(self).panes,
            final(self).tasks == old(self).tasks,
            final(self).display_rows == old(self).display_rows,
            final(self).mode == old(self).mode,
            ({
                let t = old(self).half_page_target(down);
                let c = if old(self).display_rows@.len() == 0 {
                    0
                } else if t < old(self).display_rows@.len() {
                    t
                } else {
                    old(self).display_rows@.len() - 1
                };
                &&& final(self).selected == c
                &&& !extend ==> final(self).selection_anchor is None && final(self).selected_tasks
                    == old(self).selected_tasks
                &&& extend ==> final(self).selection_anchor == (match old(self).selection_anchor {
                    Some(a) => Some(a),
                    None => old(self).active_canonical_of(),
                }) && final(self).selected_tasks@ == range_selected(
                    App { selected: c as usize, selection_anchor: final(self).selection_anchor, ..*old(self) },
                )
            }),
            *final(self) == (App {
                selected: final(self).selected,
                selection_anchor: final(self).selection_anchor,
                selected_tasks: final(self).selected_tasks,
                ..*old(self)
            }),
    {
        if extend {
            self.ensure_anchor();
        } else {
            self.selection_anchor = None;
        }
        let half: usize = if self.list_height / 2 >= 1 {
            (self.list_height / 2) as usize
        } else {
            1
        };
        let n = if self.is_multi_view() {
            self.panes[self.active_pane].display_rows.len()
        } else {
            self.display_rows.len()
        };
        let lr = if n == 0 {
            0
        } else {
            n - 1
        };
        let s = if down {
            if self.selected < lr && half < lr - self.selected {
                self.selected + half
            } else {
                lr
            }
        } else {
            if self.selected >= half {
                self.selected - half
            } else {
                0
            }
        };
        let mut k = s;
        proof {
            lemma_skip_headers_bounds(self.display_rows@, s as int, n as int);
        }
        while k < n && k < self.display_rows.len() && matches!(
            self.display_rows[k],
            DisplayRow::GroupHeader(_),
        )
            invariant
                s <= k,
                skip_headers(self.display_rows@, s as int, n as int) == skip_headers(
                    self.display_rows@,
                    k as int,
                    n as int,
                ),
            decreases n - k,
        {
            k += 1;
        }
        self.selected = k;
        self.clamp_selection();
        if extend {
            self.apply_range_selection();
        }
    }
}

} // verus!

//! Pane focus, creation, deletion and visibility.

use vstd::prelude::*;
use crate::app::{App, MAX_PANES, cursors_ok, fresh_pane, renumbered, saved_config, single_view};
use crate::config::{PaneConfig, PaneSort};
use crate::state::{DisplayRow, Pane};
use crate::text::dec;

verus! {

/// `b` is `a` with only the panes, the active pane and the pane counter
/// possibly changed.
pub open spec fn same_but_panes(a: App, b: App) -> bool {
    b == (App { panes: b.panes, active_pane: b.active_pane, pane_counter: b.pane_counter, ..a })
}

/// The panes after deleting pane `k` of `old`: the rest, renumbered from 0,
/// or one fresh unlabelled pane when none is left.
pub open spec fn panes_after_delete(old: Seq<Pane>, k: int, new: Seq<Pane>) -> bool {
    if old.len() == 1 {
        new.len() == 1 && fresh_pane(new[0], 0, Seq::empty())
    } else {
        &&& new.len() == old.len() - 1
        &&& forall|i: int| 0 <= i < new.len() ==> renumbered(
            if i < k {
                old[i]
            } else {
                old[i + 1]
            },
            #[trigger] new[i],
            i,
        )
    }
}

/// The active pane `i` among `n` panes brought into range: the last pane when
/// it lies beyond, 0 when there is none (a fresh pane is then added).
pub open spec fn reconciled_active(n: int, i: int) -> int {
    if n == 0 {
        0
    } else if i < n {
        i
    } else {
        n - 1
    }
}

/// The pane after `i` among `n`, wrapping around; `i` itself when there is
/// only one.
pub open spec fn next_pane(n: int, i: int) -> int {
    if n > 1 {
        (i + 1) % n
    } else {
        i
    }
}

/// The pane before `i` among `n`, wrapping around; `i` itself when there is
/// only one.
pub open spec fn prev_pane(n: int, i: int) -> int {
    if n > 1 {
        if i == 0 {
            n - 1
        } else {
            i - 1
        }
    } else {
        i
    }
}

/// `b` is `a` after adding a pane: below the cap, a fresh pane `Pane <counter>`
/// is appended and focused; at the cap nothing changes.
pub open spec fn pane_added(a: App, b: App) -> bool {
    &&& same_but_panes(a, b)
    &&& a.panes@.len() >= MAX_PANES ==> b == a
    &&& a.panes@.len() < MAX_PANES ==> {
        &&& b.panes@.len() == a.panes@.len() + 1
        &&& b.panes@.take(a.panes@.len() as int) == a.panes@
        &&& fresh_pane(b.panes@.last(), a.panes@.len() as int, "Pane "@ + dec(a.pane_counter as nat))
        &&& b.pane_counter == a.pane_counter + 1
        &&& b.active_pane == a.panes@.len()
    }
}

/// `b` is `a` after deleting the active pane: the others keep their order and
/// are renumbered, the focus moves to the pane before (the first when the
/// first was deleted); the last pane is replaced by a fresh one.
pub open spec fn pane_deleted(a: App, b: App) -> bool {
    &&& same_but_panes(a, b)
    &&& b.pane_counter == a.pane_counter
    &&& panes_after_delete(a.panes@, a.active_pane as int, b.panes@)
    &&& b.active_pane == (if a.panes@.len() == 1 {
        0
    } else if a.active_pane > 0 {
        a.active_pane - 1
    } else {
        0
    })
}

impl App {
    /// Makes the pane state index-safe: adds an unlabelled pane when there is
    /// none and moves the active pane onto the last pane when it lies beyond.
    pub fn reconcile_active_pane(&mut self)
        ensures
            final(self).panes@.len() >= 1,
            final(self).active_pane < final(self).panes@.len(),
            cursors_ok(old(self).panes@) ==> final(self).wf(),
            same_but_panes(*old(self), *final(self)),
            final(self).pane_counter == old(self).pane_counter,
            old(self).panes@.len() == 0 ==> final(self).panes@.len() == 1 && fresh_pane(
                final(self).panes@[0],
                0,
                Seq::empty(),
            ) && final(self).active_pane == 0,
            old(self).panes@.len() > 0 ==> final(self).panes == old(self).panes
                && final(self).active_pane == (if old(self).active_pane < old(self).panes@.len() {
                old(self).active_pane as int
            } else {
                old(self).panes@.len() - 1
            }),
    {
        if self.panes.len() == 0 {
            self.panes.push(Pane::new(0, String::new()));
            self.active_pane = 0;
            return;
        }
        if self.active_pane >= self.panes.len() {
            self.active_pane = self.panes.len() - 1;
        }
    }

    /// Moves the focus to the next pane, wrapping around.
    pub fn focus_next_pane(&mut self)
        ensures
            old(self).wf() ==> final(self).wf(),
            same_but_panes(*old(self), *final(self)),
            old(self).panes@.len() > 0 ==> final(self).panes == old(self).panes,
            old(self).panes@.len() == 0 ==> final(self).panes@.len() == 1 && fresh_pane(
                final(self).panes@[0],
                0,
                Seq::empty(),
            ),
            final(self).pane_counter == old(self).pane_counter,
            final(self).active_pane == next_pane(
                final(self).panes@.len() as int,
                reconciled_active(old(self).panes@.len() as int, old(self).active_pane as int),
            ),
    {
        self.reconcile_active_pane();
        if self.panes.len() > 1 {
            self.active_pane = (self.active_pane + 1) % self.panes.len();
        }
    }

    /// Moves the focus to the previous pane, wrapping around.
    pub fn focus_prev_pane(&mut self)
        ensures
            old(self).wf() ==> final(self).wf(),
            same_but_panes(*old(self), *final(self)),
            old(self).panes@.len() > 0 ==> final(self).panes == old(self).panes,
            old(self).panes@.len() == 0 ==> final(self).panes@.len() == 1 && fresh_pane(
                final(self).panes@[0],
                0,
                Seq::empty(),
            ),
            final(self).pane_counter == old(self).pane_counter,
            final(self).active_pane == prev_pane(
                final(self).panes@.len() as int,
                reconciled_active(old(self).panes@.len() as int, old(self).active_pane as int),
            ),
    {
        self.reconcile_active_pane();
        if self.panes.len() > 1 {
            self.active_pane = if self.active_pane == 0 {
                self.panes.len() - 1
            } else {
                self.active_pane - 1
            };
        }
    }

    /// Appends a pane labelled `Pane N` (N the pane counter) and focuses it;
    /// nothing happens when the maximum number of panes is open.
    pub fn pane_add(&mut self)
        requires
            old(self).wf(),
            old(self).pane_counter < usize::MAX,
        ensures
            final(self).wf(),
            pane_added(*old(self), *final(self)),
    {
        if self.panes.len() >= MAX_PANES {
            return;
        }
        let pane_id = self.panes.len();
        let label = crate::app::pane_number_label(self.pane_counter);
        let ghost before = self.panes@;
        self.panes.push(Pane::new(pane_id, label));
        assert(self.panes@.take(before.len() as int) =~= before);
        self.pane_counter = self.pane_counter + 1;
        self.active_pane = pane_id;
    }

    /// Deletes the active pane, renumbers the rest and focuses the pane to its
    /// left (or the first one).
    pub fn pane_delete(&mut self)
        requires
            old(self).wf(),
        ensures
            final(self).wf(),
            pane_deleted(*old(self), *final(self)),
    {
        let focus_index = if self.active_pane > 0 {
            self.active_pane - 1
        } else {
            0
        };
        let ghost old_panes = self.panes@;
        let ghost k = self.active_pane as int;
        let mut panes: Vec<Pane> = Vec::new();
        std::mem::swap(&mut panes, &mut self.panes);
        panes.remove(self.active_pane);
        let ghost removed = panes@;
        let mut idx: usize = 0;
        while idx < panes.len()
            invariant
                idx <= panes@.len(),
                panes@.len() == removed.len(),
                forall|i: int| 0 <= i < idx ==> renumbered(
                    removed[i],
                    #[trigger] panes@[i],
                    i,
                ),
                forall|i: int| idx <= i < removed.len() ==> #[trigger] panes@[i] == removed[i],
            decreases panes.len() - idx,
        {
            panes[idx].id = idx;
            idx += 1;
        }
        self.panes = panes;
        self.active_pane = focus_index;
        self.reconcile_active_pane();
    }

    /// Hides the panes behind the single list, or shows them again.
    pub fn pane_hide_toggle(&mut self)
        ensures
            *final(self) == (App { panes_hidden: !old(self).panes_hidden, ..*old(self) }),
    {
        self.panes_hidden = !self.panes_hidden;
    }

    /// The panes as they are saved, and whether they differ from the panes
    /// the session started with (only then is the view state written).
    pub fn view_state(&self) -> (r: (Vec<PaneConfig>, bool))
        ensures
            r.0@.len() == self.panes@.len(),
            forall|i: int| 0 <= i < self.panes@.len() ==> saved_config(#[trigger] self.panes@[i], r.0@[i]),
            r.1 == !(r.0@.len() == self.startup_pane_snapshot@.len() && forall|i: int|
                0 <= i < r.0@.len() ==> (#[trigger] r.0@[i]).same(self.startup_pane_snapshot@[i])),
    {
        let mut current: Vec<PaneConfig> = Vec::new();
        let mut k: usize = 0;
        while k < self.panes.len()
            invariant
                k <= self.panes@.len(),
                current@.len() == k,
                forall|m: int| 0 <= m < k ==> saved_config(#[trigger] self.panes@[m], current@[m]),
            decreases self.panes.len() - k,
        {
            let p = &self.panes[k];
            current.push(PaneConfig {
                label: p.label.clone(),
                filter: p.filter_query.clone(),
                sort: PaneSort::from_sort_order(p.sort_order),
                group: p.grouping,
                group_by: Some(p.group_by),
            });
            k += 1;
        }
        let snap = &self.startup_pane_snapshot;
        if current.len() != snap.len() {
            return (current, true);
        }
        let mut i: usize = 0;
        while i < current.len()
            invariant
                i <= current@.len(),
                current@.len() == snap@.len(),
                current@.len() == self.panes@.len(),
                snap == &self.startup_pane_snapshot,
                forall|m: int| 0 <= m < self.panes@.len() ==> saved_config(#[trigger] self.panes@[m], current@[m]),
                forall|m: int| 0 <= m < i ==> (#[trigger] current@[m]).same(snap@[m]),
            decreases current.len() - i,
        {
            if !current[i].equals(&snap[i]) {
                return (current, true);
            }
            i += 1;
        }
        (current, false)
    }

    /// The active pane, for changing it in place, after bringing the active
    /// pane into range (a fresh pane is added when there is none).
    pub fn active_pane_mut(&mut self) -> (r: &mut Pane)
        ensures
            ({
                let k = reconciled_active(old(self).panes@.len() as int, old(self).active_pane as int);
                let before = if old(self).panes@.len() > 0 {
                    old(self).panes@
                } else {
                    seq![*r]
                };
                &&& final(self).active_pane == k
                &&& old(self).panes@.len() > 0 ==> *r == old(self).panes@[k]
                &&& old(self).panes@.len() == 0 ==> fresh_pane(*r, 0, Seq::empty())
                &&& final(self).panes@ == before.update(k, *final(r))
            }),
            *final(self) == (App { panes: final(self).panes, active_pane: final(self).active_pane, ..*old(self) }),
    {
        self.reconcile_active_pane();
        let k = self.active_pane;
        &mut self.panes[k]
    }

    /// The rows of the view the cursor works on, for changing them in place,
    /// after bringing the active pane into range (a fresh pane is added when
    /// there is none): the first pane's in the single view, the active pane's
    /// otherwise.
    pub fn display_rows_mut(&mut self) -> (r: &mut Vec<DisplayRow>)
        ensures
            ({
                let n = old(self).panes@.len() as int;
                let k = reconciled_active(n, old(self).active_pane as int);
                &&& final(self).active_pane == k
                &&& n > 0 ==> {
                    let j = if single_view(old(self).panes@) {
                        0
                    } else {
                        k
                    };
                    let p = old(self).panes@[j];
                    &&& *r == p.display_rows
                    &&& final(self).panes@ == old(self).panes@.update(j, Pane { display_rows: *final(r), ..p })
                }
                &&& n == 0 ==> {
                    &&& final(self).panes@.len() == 1
                    &&& fresh_pane(Pane { display_rows: *r, ..final(self).panes@[0] }, 0, Seq::empty())
                    &&& final(self).panes@[0].display_rows == *final(r)
                }
            }),
            *final(self) == (App { panes: final(self).panes, active_pane: final(self).active_pane, ..*old(self) }),
    {
        self.reconcile_active_pane();
        let j = if self.should_show_single_pane() {
            0
        } else {
            self.active_pane
        };
        &mut self.panes[j].display_rows
    }

    /// The active pane.
    pub fn active_pane(&self) -> (r: &Pane)
        requires
            self.active_pane < self.panes@.len(),
        ensures
            *r == self.panes@[self.active_pane as int],
    {
        &self.panes[self.active_pane]
    }

    /// The list is drawn as a single view.
    pub fn should_show_single_pane(&self) -> (r: bool)
        ensures
            r == single_view(self.panes@),
    {
        if self.panes.len() <= 1 {
            return true;
        }
        let mut i: usize = 0;
        while i < self.panes.len()
            invariant
                i <= self.panes@.len(),
                self.panes@.len() > 1,
                forall|k: int| 0 <= k < i ==> (#[trigger] self.panes@[k]).display_rows@.len() == 0,
            decreases self.panes.len() - i,
        {
            if self.panes[i].display_rows.len() > 0 {
                assert(self.panes@[i as int].display_rows@.len() > 0);
                return false;
            }
            i += 1;
        }
        true
    }

    /// The rows of the view the cursor works on: the first pane's in the single
    /// view, the active pane's otherwise; none when there is no such pane.
    pub fn display_rows(&self) -> (r: &[DisplayRow])
        ensures
            r@ == (if single_view(self.panes@) {
                if self.panes@.len() > 0 {
                    self.panes@[0].display_rows@
                } else {
                    Seq::empty()
                }
            } else if self.active_pane < self.panes@.len() {
                self.panes@[self.active_pane as int].display_rows@
            } else {
                Seq::empty()
            }),
    {
        if self.should_show_single_pane() {
            if self.panes.len() > 0 {
                self.panes[0].display_rows.as_slice()
            } else {
                &[]
            }
        } else if self.active_pane < self.panes.len() {
            self.panes[self.active_pane].display_rows.as_slice()
        } else {
            &[]
        }
    }
}

} // verus!

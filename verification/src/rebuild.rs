//! Turning a filtered, sorted order of tasks into display rows, with group
//! headers, and keeping the cursors on the same task across a rebuild.
//!
//! The order itself (which tasks a query keeps and how a sort order arranges
//! them) is handed in by the caller as a list of task indices.

use vstd::prelude::*;
use crate::app::{App, single_view, cursors_ok};
use crate::config::GroupByCategory;
use crate::order::{lemma_seq_le_total, lemma_seq_le_trans, seq_le, str_le};
use crate::select::{row_task, task_pos};
use crate::state::{DisplayRow, Pane, RowView, row_view, rows_view};
use crate::task::{SortOrder, TaskRecord, group_key, group_key_for};
use crate::text::chars_of;

verus! {

/// Every index of `s` names a task of a list of `n` tasks.
pub open spec fn indices_in(s: Seq<usize>, n: nat) -> bool {
    forall|i: int| 0 <= i < s.len() ==> (#[trigger] s[i]) < n
}

pub open spec fn key_of(tasks: Seq<TaskRecord>, g: GroupByCategory, t: usize) -> Seq<char> {
    group_key(tasks[t as int], g)
}

/// The rows of an order with group headers: a header before the first task and
/// before each task whose group differs from the previous task's.
pub open spec fn grouped_rows(tasks: Seq<TaskRecord>, order: Seq<usize>, g: GroupByCategory) -> Seq<
    RowView,
>
    decreases order.len(),
{
    if order.len() == 0 {
        Seq::empty()
    } else {
        let prev = grouped_rows(tasks, order.drop_last(), g);
        let k = key_of(tasks, g, order.last());
        if order.len() == 1 || key_of(tasks, g, order[order.len() - 2]) != k {
            prev.push(RowView::Header(k)).push(RowView::Task(order.last() as nat))
        } else {
            prev.push(RowView::Task(order.last() as nat))
        }
    }
}

/// The rows of an order without headers.
pub open spec fn plain_rows(order: Seq<usize>) -> Seq<RowView> {
    order.map_values(|t: usize| RowView::Task(t as nat))
}

/// The rows of a view of `order`, grouped or not.
pub open spec fn view_rows(tasks: Seq<TaskRecord>, order: Seq<usize>, grouping: bool, g: GroupByCategory) -> Seq<
    RowView,
> {
    if grouping && order.len() > 0 {
        grouped_rows(tasks, order, g)
    } else {
        plain_rows(order)
    }
}

/// The tasks of `s` in group `k`, in the order of `s`.
pub open spec fn key_run(tasks: Seq<TaskRecord>, g: GroupByCategory, s: Seq<usize>, k: Seq<char>) -> Seq<
    usize,
> {
    s.filter(|t: usize| key_of(tasks, g, t) == k)
}

/// `r` is `order` stably sorted by group: the same indices, groups in
/// ascending order, and inside each group the order of `order`.
pub open spec fn group_sorted(tasks: Seq<TaskRecord>, g: GroupByCategory, order: Seq<usize>, r: Seq<
    usize,
>) -> bool {
    &&& r.to_multiset() == order.to_multiset()
    &&& r.len() == order.len()
    &&& forall|i: int, j: int| 0 <= i < j < r.len() ==> seq_le(
        key_of(tasks, g, #[trigger] r[i]),
        key_of(tasks, g, #[trigger] r[j]),
    )
    &&& forall|k: Seq<char>| #[trigger] key_run(tasks, g, r, k) == key_run(tasks, g, order, k)
}

/// The cursor kept on a list of `len` rows: the last row when beyond, 0 when
/// there is none.
pub open spec fn clamped(sel: int, len: int) -> int {
    if len == 0 {
        0
    } else if sel >= len {
        len - 1
    } else {
        sel
    }
}

/// The rows of a view of `order`.
pub fn build_rows(tasks: &Vec<TaskRecord>, order: &Vec<usize>, grouping: bool, g: GroupByCategory) -> (r:
    Vec<DisplayRow>)
    requires
        indices_in(order@, tasks@.len()),
    ensures
        rows_view(r) == view_rows(tasks@, order@, grouping, g),
{
    let mut out: Vec<DisplayRow> = Vec::new();
    if !grouping || order.len() == 0 {
        let mut i: usize = 0;
        while i < order.len()
            invariant
                i <= order@.len(),
                rows_view(out) =~= plain_rows(order@.take(i as int)),
            decreases order.len() - i,
        {
            let ghost before = out@;
            out.push(DisplayRow::Task(order[i]));
            proof {
                assert(out@ =~= before.push(DisplayRow::Task(order@[i as int])));
                assert(plain_rows(order@.take(i + 1)) =~= plain_rows(order@.take(i as int)).push(
                    RowView::Task(order@[i as int] as nat),
                ));
            }
            i += 1;
        }
        assert(order@.take(order@.len() as int) =~= order@);
        return out;
    }
    let mut last_key: Option<String> = None;
    let mut i: usize = 0;
    while i < order.len()
        invariant
            i <= order@.len(),
            indices_in(order@, tasks@.len()),
            rows_view(out) =~= grouped_rows(tasks@, order@.take(i as int), g),
            i == 0 ==> last_key is None,
            i > 0 ==> (last_key matches Some(k) && k@ == key_of(tasks@, g, order@[i - 1])),
        decreases order.len() - i,
    {
        let t = order[i];
        let key = group_key_for(&tasks[t], g);
        let ghost before = out@;
        let ghost pre = order@.take(i as int);
        let ghost cur = order@.take(i + 1);
        proof {
            assert(cur.drop_last() =~= pre);
            assert(cur.last() == t);
            if i > 0 {
                assert(cur[cur.len() - 2] == order@[i - 1]);
            }
        }
        let new_group = match &last_key {
            Some(k) => *k != key,
            None => true,
        };
        if new_group {
            out.push(DisplayRow::GroupHeader(key.clone()));
            out.push(DisplayRow::Task(t));
            proof {
                assert(rows_view(out) =~= before.map_values(|r: DisplayRow| row_view(r)).push(
                    RowView::Header(key@),
                ).push(RowView::Task(t as nat)));
            }
        } else {
            out.push(DisplayRow::Task(t));
            proof {
                assert(rows_view(out) =~= before.map_values(|r: DisplayRow| row_view(r)).push(
                    RowView::Task(t as nat),
                ));
            }
        }
        last_key = Some(key);
        i += 1;
    }
    assert(order@.take(order@.len() as int) =~= order@);
    out
}

proof fn lemma_filter_empty(s: Seq<usize>, p: spec_fn(usize) -> bool)
    requires
        forall|i: int| 0 <= i < s.len() ==> !p(#[trigger] s[i]),
    ensures
        s.filter(p) == Seq::<usize>::empty(),
{
    s.lemma_all_neg_filter_empty(p);
}

proof fn lemma_filter_single(x: usize, p: spec_fn(usize) -> bool)
    ensures
        seq![x].filter(p) == (if p(x) {
            seq![x]
        } else {
            Seq::<usize>::empty()
        }),
{
    reveal_with_fuel(Seq::filter, 2);
    assert(seq![x].drop_last() =~= Seq::<usize>::empty());
}

/// `order` stably sorted by the group of each task.
pub fn group_sort(tasks: &Vec<TaskRecord>, order: &Vec<usize>, g: GroupByCategory) -> (r: Vec<usize>)
    requires
        indices_in(order@, tasks@.len()),
    ensures
        group_sorted(tasks@, g, order@, r@),
        indices_in(r@, tasks@.len()),
{
    broadcast use vstd::seq_lib::group_to_multiset_ensures;
    broadcast use vstd::seq::group_seq_axioms;
    let mut out: Vec<usize> = Vec::new();
    let mut keys: Vec<Vec<char>> = Vec::new();
    let mut i: usize = 0;
    proof {
        assert(order@.take(0) =~= Seq::<usize>::empty());
        assert forall|k: Seq<char>| #[trigger] key_run(tasks@, g, out@, k) == key_run(
            tasks@,
            g,
            order@.take(0),
            k,
        ) by {
            assert(out@ =~= order@.take(0));
        }
    }
    while i < order.len()
        invariant
            i <= order@.len(),
            indices_in(order@, tasks@.len()),
            indices_in(out@, tasks@.len()),
            keys@.len() == out@.len(),
            forall|k: int| 0 <= k < keys@.len() ==> (#[trigger] keys@[k])@ == key_of(
                tasks@,
                g,
                out@[k],
            ),
            out@.to_multiset() == order@.take(i as int).to_multiset(),
            out@.len() == i,
            forall|a: int, b: int| 0 <= a < b < out@.len() ==> seq_le(
                key_of(tasks@, g, #[trigger] out@[a]),
                key_of(tasks@, g, #[trigger] out@[b]),
            ),
            forall|k: Seq<char>| #[trigger] key_run(tasks@, g, out@, k) == key_run(
                tasks@,
                g,
                order@.take(i as int),
                k,
            ),
        decreases order.len() - i,
    {
        let x = order[i];
        let xs = group_key_for(&tasks[x], g);
        let xk = chars_of(xs.as_str());
        let mut p: usize = 0;
        while p < out.len() && str_le(&keys[p], &xk)
            invariant
                p <= out@.len(),
                keys@.len() == out@.len(),
                forall|k: int| 0 <= k < keys@.len() ==> (#[trigger] keys@[k])@ == key_of(
                    tasks@,
                    g,
                    out@[k],
                ),
                forall|k: int| 0 <= k < p ==> seq_le(key_of(tasks@, g, #[trigger] out@[k]), xk@),
            decreases out.len() - p,
        {
            p += 1;
        }
        let ghost so = out@;
        proof {
            assert forall|k: int| p <= k < so.len() implies seq_le(
                xk@,
                key_of(tasks@, g, #[trigger] so[k]),
            ) && key_of(tasks@, g, so[k]) != xk@ by {
                lemma_seq_le_total(key_of(tasks@, g, so[p as int]), xk@);
                if k > p {
                    lemma_seq_le_trans(xk@, key_of(tasks@, g, so[p as int]), key_of(tasks@, g, so[k]));
                }
                if key_of(tasks@, g, so[k]) == xk@ {
                    if k > p {
                        assert(seq_le(key_of(tasks@, g, so[p as int]), key_of(tasks@, g, so[k])));
                    }
                }
            }
        }
        out.insert(p, x);
        keys.insert(p, xk);
        proof {
            let sn = out@;
            let pre = order@.take(i as int);
            let cur = order@.take(i + 1);
            assert(sn =~= so.insert(p as int, x));
            assert(cur =~= pre.push(x));
            vstd::seq_lib::to_multiset_insert(so, p as int, x);
            vstd::seq_lib::to_multiset_build(pre, x);
            assert forall|a: int, b: int| 0 <= a < b < sn.len() implies seq_le(
                key_of(tasks@, g, #[trigger] sn[a]),
                key_of(tasks@, g, #[trigger] sn[b]),
            ) by {
                if b < p {
                } else if a < p && b == p {
                } else if a < p && b > p {
                    lemma_seq_le_trans(
                        key_of(tasks@, g, so[a]),
                        xk@,
                        key_of(tasks@, g, so[b - 1]),
                    );
                } else if a == p {
                } else {
                }
            }
            assert forall|k: int| 0 <= k < keys@.len() implies (#[trigger] keys@[k])@ == key_of(
                tasks@,
                g,
                out@[k],
            ) by {
                if k < p {
                } else if k == p {
                } else {
                }
            }
            let front = so.take(p as int);
            let back = so.skip(p as int);
            assert(so =~= front + back);
            assert(sn =~= front + seq![x] + back);
            assert forall|k: Seq<char>| #[trigger] key_run(tasks@, g, sn, k) == key_run(
                tasks@,
                g,
                cur,
                k,
            ) by {
                let pk = |t: usize| key_of(tasks@, g, t) == k;
                Seq::filter_distributes_over_add(front, back, pk);
                Seq::filter_distributes_over_add(front + seq![x], back, pk);
                Seq::filter_distributes_over_add(front, seq![x], pk);
                lemma_filter_single(x, pk);
                reveal_with_fuel(Seq::filter, 1);
                assert(cur.drop_last() =~= pre);
                assert(cur.last() == x);
                assert(key_run(tasks@, g, cur, k) == (if pk(x) {
                    key_run(tasks@, g, pre, k).push(x)
                } else {
                    key_run(tasks@, g, pre, k)
                }));
                if pk(x) {
                    assert forall|q: int| 0 <= q < back.len() implies !pk(#[trigger] back[q]) by {
                        assert(back[q] == so[p + q]);
                    }
                    lemma_filter_empty(back, pk);
                    assert(front.filter(pk) + seq![x] + Seq::<usize>::empty() =~= front.filter(pk)
                        + Seq::<usize>::empty() + seq![x]);
                    assert(key_run(tasks@, g, sn, k) =~= key_run(tasks@, g, so, k).push(x));
                } else {
                    assert(front.filter(pk) + Seq::<usize>::empty() =~= front.filter(pk));
                    assert(key_run(tasks@, g, sn, k) =~= key_run(tasks@, g, so, k));
                }
            }
            assert forall|q: int| 0 <= q < sn.len() implies (#[trigger] sn[q]) < tasks@.len() by {
                if q < p {
                } else if q == p {
                } else {
                    assert(sn[q] == so[q - 1]);
                }
            }
        }
        i += 1;
    }
    assert(order@.take(order@.len() as int) =~= order@);
    out
}

/// A copy of an index list.
pub fn copy_indices(v: &Vec<usize>) -> (r: Vec<usize>)
    ensures
        r@ == v@,
{
    let mut r: Vec<usize> = Vec::new();
    let mut i: usize = 0;
    while i < v.len()
        invariant
            i <= v@.len(),
            r@ == v@.take(i as int),
        decreases v.len() - i,
    {
        r.push(v[i]);
        i += 1;
        assert(r@ =~= v@.take(i as int));
    }
    assert(v@.take(v@.len() as int) =~= v@);
    r
}

} // verus!

verus! {

/// `q` is `p` with new rows for `view` (and possibly another cursor).
pub open spec fn pane_rebuilt(p: Pane, q: Pane, tasks: Seq<TaskRecord>, view: Seq<usize>) -> bool {
    &&& rows_view(q.display_rows) == view_rows(tasks, view, p.grouping, p.group_by)
    &&& q.id == p.id
    &&& q.filter_query == p.filter_query
    &&& q.sort_order == p.sort_order
    &&& q.grouping == p.grouping
    &&& q.group_by == p.group_by
    &&& q.label == p.label
    &&& q.label_selected == p.label_selected
}

/// Row of the first occurrence of task `c` in `rows`, or row 0.
pub open spec fn reanchored(rows: Seq<DisplayRow>, c: Option<usize>) -> int {
    match c {
        Some(t) => match task_pos(rows, t) {
            Some(k) => k,
            None => 0,
        },
        None => 0,
    }
}

proof fn lemma_task_pos_bounds(rows: Seq<DisplayRow>, t: usize)
    ensures
        task_pos(rows, t) matches Some(k) ==> 0 <= k < rows.len() && rows[k] == DisplayRow::Task(t),
    decreases rows.len(),
{
    if rows.len() > 0 && rows[0] != DisplayRow::Task(t) {
        lemma_task_pos_bounds(rows.drop_first(), t);
    }
}

pub fn find_row(rows: &Vec<DisplayRow>, t: usize) -> (r: Option<usize>)
    ensures
        r matches Some(k) ==> task_pos(rows@, t) == Some(k as int),
        r is None ==> task_pos(rows@, t) is None,
{
    let mut i: usize = 0;
    assert(rows@.skip(0) =~= rows@);
    while i < rows.len()
        invariant
            i <= rows@.len(),
            task_pos(rows@, t) == (match task_pos(rows@.skip(i as int), t) {
                Some(k) => Some(k + i),
                None => None::<int>,
            }),
        decreases rows.len() - i,
    {
        let ghost s = rows@.skip(i as int);
        assert(s[0] == rows@[i as int]);
        let hit = match &rows[i] {
            DisplayRow::Task(x) => *x == t,
            DisplayRow::GroupHeader(_) => false,
        };
        if hit {
            return Some(i);
        }
        assert(s.drop_first() =~= rows@.skip(i + 1));
        i += 1;
    }
    None
}

fn reanchor_exec(rows: &Vec<DisplayRow>, c: Option<usize>) -> (r: usize)
    ensures
        r == reanchored(rows@, c),
        r == 0 || r < rows@.len(),
{
    proof {
        if let Some(t) = c {
            lemma_task_pos_bounds(rows@, t);
        }
    }
    match c {
        Some(t) => match find_row(rows, t) {
            Some(k) => k,
            None => 0,
        },
        None => 0,
    }
}

fn refresh_pane(p: &mut Pane, tasks: &Vec<TaskRecord>, view: &Vec<usize>)
    requires
        indices_in(view@, tasks@.len()),
    ensures
        pane_rebuilt(*old(p), *final(p), tasks@, view@),
        final(p).selected == clamped(old(p).selected as int, final(p).display_rows@.len() as int),
{
    let rows = build_rows(tasks, view, p.grouping, p.group_by);
    let n = rows.len();
    p.display_rows = rows;
    if n == 0 {
        p.selected = 0;
    } else if p.selected >= n {
        p.selected = n - 1;
    }
}

impl App {
    /// The global view follows the active pane's settings (single view, or
    /// panes hidden).
    pub open spec fn follows_active(self) -> bool {
        single_view(self.panes@) || self.panes_hidden
    }

    /// Filter expression, sort order and the deferred flag the global view is
    /// rebuilt with.
    pub open spec fn global_settings(self) -> (Seq<char>, SortOrder, bool) {
        if self.follows_active() {
            let p = self.panes@[self.active_pane as int];
            (p.filter_query@, p.sort_order, self.show_deferred)
        } else {
            (self.filter_query@, self.sort_order, self.show_deferred)
        }
    }

    /// Filter expression, sort order and deferred flag for the global view: the
    /// order the caller computes from them goes to `rebuild_and_reanchor`.
    pub fn global_view_settings(&self) -> (r: (String, SortOrder, bool))
        requires
            self.wf(),
        ensures
            (r.0@, r.1, r.2) == self.global_settings(),
    {
        if self.should_show_single_pane() || self.panes_hidden {
            let p = &self.panes[self.active_pane];
            (p.filter_query.clone(), p.sort_order, self.show_deferred)
        } else {
            (self.filter_query.clone(), self.sort_order, self.show_deferred)
        }
    }

    /// Rebuilds the global view from `view` (the filtered, sorted task
    /// indices): with grouping, the indices are stably sorted by group and
    /// headers are added.
    pub fn rebuild_display_indices(&mut self, view: &Vec<usize>)
        requires
            indices_in(view@, old(self).tasks@.len()),
        ensures
            *final(self) == (App {
                display_indices: final(self).display_indices,
                display_rows: final(self).display_rows,
                ..*old(self)
            }),
            if old(self).grouping && view@.len() > 0 {
                group_sorted(old(self).tasks@, old(self).group_by, view@, final(self).display_indices@)
            } else {
                final(self).display_indices@ == view@
            },
            rows_view(final(self).display_rows) == view_rows(
                old(self).tasks@,
                final(self).display_indices@,
                old(self).grouping,
                old(self).group_by,
            ),
            indices_in(final(self).display_indices@, old(self).tasks@.len()),
    {
        let indices = if self.grouping && view.len() > 0 {
            group_sort(&self.tasks, view, self.group_by)
        } else {
            copy_indices(view)
        };
        let rows = build_rows(&self.tasks, &indices, self.grouping, self.group_by);
        self.display_indices = indices;
        self.display_rows = rows;
    }

    /// Rebuilds the rows of the pane on screen (the first pane in the single
    /// view, the active pane otherwise) from `view`, keeping its cursor on a row.
    pub fn rebuild_visible_rows(&mut self, view: &Vec<usize>)
        requires
            old(self).wf(),
            indices_in(view@, old(self).tasks@.len()),
        ensures
            final(self).wf(),
            *final(self) == (App { panes: final(self).panes, ..*old(self) }),
            ({
                let k = if single_view(old(self).panes@) {
                    0
                } else {
                    old(self).active_pane as int
                };
                let p = old(self).panes@[k];
                let q = final(self).panes@[k];
                &&& final(self).panes@.len() == old(self).panes@.len()
                &&& forall|i: int| 0 <= i < old(self).panes@.len() && i != k ==> final(self).panes@[i]
                    == old(self).panes@[i]
                &&& pane_rebuilt(p, q, old(self).tasks@, view@)
                &&& q.selected == clamped(p.selected as int, q.display_rows@.len() as int)
            }),
    {
        let k = if self.should_show_single_pane() {
            0
        } else {
            self.active_pane
        };
        let mut panes: Vec<Pane> = Vec::new();
        std::mem::swap(&mut panes, &mut self.panes);
        refresh_pane(&mut panes[k], &self.tasks, view);
        self.panes = panes;
    }

    /// Rebuilds every pane from its own order: `views[i]` is the filtered,
    /// sorted task indices of pane `i`. Cursors are kept on a row.
    pub fn rebuild_all_panes(&mut self, views: &Vec<Vec<usize>>)
        requires
            old(self).wf(),
            views@.len() == old(self).panes@.len(),
            forall|i: int| 0 <= i < views@.len() ==> indices_in(
                (#[trigger] views@[i])@,
                old(self).tasks@.len(),
            ),
        ensures
            final(self).wf(),
            *final(self) == (App { panes: final(self).panes, ..*old(self) }),
            final(self).panes@.len() == old(self).panes@.len(),
            forall|i: int| 0 <= i < old(self).panes@.len() ==> {
                &&& pane_rebuilt(
                    old(self).panes@[i],
                    #[trigger] final(self).panes@[i],
                    old(self).tasks@,
                    views@[i]@,
                )
                &&& final(self).panes@[i].selected == clamped(
                    old(self).panes@[i].selected as int,
                    final(self).panes@[i].display_rows@.len() as int,
                )
            },
    {
        let mut panes: Vec<Pane> = Vec::new();
        std::mem::swap(&mut panes, &mut self.panes);
        let ghost before = panes@;
        let mut i: usize = 0;
        while i < panes.len()
            invariant
                i <= panes@.len(),
                panes@.len() == before.len(),
                views@.len() == before.len(),
                forall|j: int| 0 <= j < views@.len() ==> indices_in(
                    (#[trigger] views@[j])@,
                    self.tasks@.len(),
                ),
                forall|j: int| i <= j < before.len() ==> #[trigger] panes@[j] == before[j],
                forall|j: int| 0 <= j < i ==> {
                    &&& pane_rebuilt(before[j], #[trigger] panes@[j], self.tasks@, views@[j]@)
                    &&& panes@[j].selected == clamped(
                        before[j].selected as int,
                        panes@[j].display_rows@.len() as int,
                    )
                },
            decreases panes.len() - i,
        {
            refresh_pane(&mut panes[i], &self.tasks, &views[i]);
            i += 1;
        }
        self.panes = panes;
    }

    /// The task the cursor is on before a rebuild: the active pane's cursor
    /// task in the multi-pane view (else the global one), the global cursor's
    /// task otherwise.
    pub open spec fn anchor_task(self) -> Option<usize> {
        if !single_view(self.panes@) && self.panes@.len() > 1 {
            let p = self.panes@[self.active_pane as int];
            match row_task(p.display_rows@, p.selected as int) {
                Some(t) => Some(t),
                None => self.canonical_of(),
            }
        } else {
            self.canonical_of()
        }
    }

    fn anchor_task_exec(&self) -> (r: Option<usize>)
        requires
            self.wf(),
        ensures
            r == self.anchor_task(),
    {
        if !self.should_show_single_pane() && self.panes.len() > 1 {
            let p = &self.panes[self.active_pane];
            if p.selected < p.display_rows.len() {
                match &p.display_rows[p.selected] {
                    DisplayRow::Task(t) => {
                        return Some(*t);
                    },
                    DisplayRow::GroupHeader(_) => {},
                }
            }
        }
        self.canonical_selected()
    }

    /// Takes the active pane's filter, sort order and grouping into the global
    /// view when the global view follows the active pane.
    fn sync_global_settings(&mut self)
        requires
            old(self).wf(),
        ensures
            final(self).wf(),
            old(self).follows_active() ==> *final(self) == (App {
                filter_query: final(self).filter_query,
                sort_order: old(self).panes@[old(self).active_pane as int].sort_order,
                grouping: old(self).panes@[old(self).active_pane as int].grouping,
                ..*old(self)
            }) && final(self).filter_query@ == old(self).panes@[old(self).active_pane as int].filter_query@,
            !old(self).follows_active() ==> *final(self) == *old(self),
    {
        if self.should_show_single_pane() || self.panes_hidden {
            let a = self.active_pane;
            self.filter_query = self.panes[a].filter_query.clone();
            self.sort_order = self.panes[a].sort_order;
            self.grouping = self.panes[a].grouping;
        }
    }

    /// Rebuilds after a change of the task list or of the view settings and
    /// puts the cursors back on the task they were on (else on row 0).
    /// `global_view` is the order for `global_settings()`; `pane_view` the
    /// order for the active pane's own filter and sort order.
    pub fn rebuild_and_reanchor(&mut self, global_view: &Vec<usize>, pane_view: &Vec<usize>)
        requires
            old(self).wf(),
            indices_in(global_view@, old(self).tasks@.len()),
            indices_in(pane_view@, old(self).tasks@.len()),
        ensures
            final(self).wf(),
            *final(self) == (App {
                grouping: final(self).grouping,
                filter_query: final(self).filter_query,
                sort_order: final(self).sort_order,
                display_indices: final(self).display_indices,
                display_rows: final(self).display_rows,
                selected: final(self).selected,
                panes: final(self).panes,
                ..*old(self)
            }),
            ({
                let a = old(self).active_pane as int;
                let p = old(self).panes@[a];
                let grouping = if old(self).follows_active() {
                    p.grouping
                } else {
                    old(self).grouping
                };
                &&& final(self).grouping == grouping
                &&& final(self).filter_query@ == old(self).global_settings().0
                &&& final(self).sort_order == old(self).global_settings().1
                &&& (if grouping && global_view@.len() > 0 {
                    group_sorted(
                        old(self).tasks@,
                        old(self).group_by,
                        global_view@,
                        final(self).display_indices@,
                    )
                } else {
                    final(self).display_indices@ == global_view@
                })
                &&& rows_view(final(self).display_rows) == view_rows(
                    old(self).tasks@,
                    final(self).display_indices@,
                    grouping,
                    old(self).group_by,
                )
                &&& final(self).selected == reanchored(
                    final(self).display_rows@,
                    old(self).anchor_task(),
                )
                &&& final(self).panes@.len() == old(self).panes@.len()
                &&& if !single_view(old(self).panes@) && old(self).panes@.len() > 1 {
                    &&& pane_rebuilt(p, final(self).panes@[a], old(self).tasks@, pane_view@)
                    &&& final(self).panes@[a].selected == reanchored(
                        final(self).panes@[a].display_rows@,
                        old(self).anchor_task(),
                    )
                    &&& forall|i: int| 0 <= i < old(self).panes@.len() && i != a ==> final(self).panes@[i] == old(self).panes@[i]
                } else {
                    final(self).panes == old(self).panes
                }
            }),
    {
        let old_canonical = self.anchor_task_exec();
        let multi = !self.should_show_single_pane() && self.panes.len() > 1;
        self.sync_global_settings();
        self.rebuild_display_indices(global_view);
        if multi {
            self.rebuild_visible_rows(pane_view);
            let a = self.active_pane;
            let sel = reanchor_exec(&self.panes[a].display_rows, old_canonical);
            self.panes[a].selected = sel;
        }
        let s = reanchor_exec(&self.display_rows, old_canonical);
        self.selected = s;
    }
}

} // verus!

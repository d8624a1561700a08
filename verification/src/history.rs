//! The filter history, the undo entry, and moving tasks between panes by
//! rewriting their tags.

use vstd::prelude::*;
use crate::app::{App, UndoEntry};
use crate::keys::{join, join_exec};
use crate::state::{DisplayRow, clone_strings};
use crate::task::{TaskRecord, duplicate_tasks, tasks_view};
use crate::text::{
    char_is_ws, chars_of, has_ws, is_ws, split_ws, strs, trim, trim_seq, ws_tokens, push_all, deque_strs,
    deque_to_vec, vec_to_deque,
};

verus! {

/// The most filters the history keeps.
pub const HISTORY_CAP: usize = 50;

/// The history after applying `expr`: `expr` first, then the earlier entries
/// other than `expr`, at most `HISTORY_CAP` in all.
pub open spec fn pushed_history(h: Seq<Seq<char>>, expr: Seq<char>) -> Seq<Seq<char>> {
    let full = seq![expr] + h.filter(other_than(expr));
    if full.len() > HISTORY_CAP {
        full.take(HISTORY_CAP as int)
    } else {
        full
    }
}

/// `b` is `a` with a one-step undo entry holding a copy of its tasks and its
/// cursor, the previous entry dropped.
pub open spec fn undo_saved(a: App, b: App) -> bool {
    &&& b == (App { undo_entry: b.undo_entry, ..a })
    &&& b.undo_entry matches Some(e) && tasks_view(e.tasks@) == tasks_view(a.tasks@) && e.selected
        == a.selected
}

/// `b` is `a` after an undo, `r` telling whether there was an entry: the entry's
/// tasks and cursor restored and the entry dropped, or nothing changed.
pub open spec fn undo_restored(a: App, b: App, r: bool) -> bool {
    &&& r == a.undo_entry is Some
    &&& !r ==> b == a
    &&& r ==> b == (App {
        tasks: a.undo_entry->0.tasks,
        selected: a.undo_entry->0.selected,
        undo_entry: None,
        ..a
    })
}

/// Holds of every entry but `e`.
pub open spec fn other_than(e: Seq<char>) -> spec_fn(Seq<char>) -> bool {
    |x: Seq<char>| x != e
}

/// A filter that is one `@context` or `+project` word.
pub open spec fn single_tag(filter: Seq<char>) -> bool {
    let t = trim_seq(filter);
    &&& filter.len() > 0
    &&& t.len() > 0
    &&& (t[0] == '@' || t[0] == '+')
    &&& !has_ws(t)
}

/// Whether a word differs from `word`.
pub open spec fn differs_from(word: Seq<char>) -> spec_fn(Seq<char>) -> bool {
    |w: Seq<char>| w != word
}

/// The words of `raw` other than `word`, in order.
pub open spec fn words_without(raw: Seq<char>, word: Seq<char>) -> Seq<Seq<char>> {
    ws_tokens(raw).filter(differs_from(word))
}

/// A task line moved from the pane of tag `src` to the pane of tag `dest`: its
/// words without `src`, joined by spaces, then `dest` unless already there.
pub open spec fn moved_line(raw: Seq<char>, src: Seq<char>, dest: Seq<char>) -> Seq<char> {
    let kept = words_without(raw, src);
    let base = join(kept, " "@);
    if kept.contains(dest) {
        base
    } else if base.len() == 0 {
        dest
    } else {
        base + " "@ + dest
    }
}

/// The warning a declined move posts.
pub open spec fn move_warning(r: PaneMove) -> Seq<char> {
    match r {
        PaneMove::NeedTwoPanes => "Need at least 2 panes to move tasks."@,
        PaneMove::SourceNotTag(f) => "Cannot move: source pane filter '"@ + f@ + "' is not a single @/+ tag."@,
        PaneMove::DestNotTag(f) => "Cannot move: destination pane filter '"@ + f@
            + "' is not a single @/+ tag."@,
        PaneMove::NoTask => "No task selected to move."@,
        PaneMove::Move { .. } => Seq::empty(),
    }
}

/// What moving tasks to the next or previous pane decides.
pub enum PaneMove {
    /// Fewer than two panes.
    NeedTwoPanes,
    /// The source pane's filter (trimmed) is no single tag.
    SourceNotTag(String),
    /// The destination pane's filter (trimmed) is no single tag.
    DestNotTag(String),
    /// No selection and no task under the cursor.
    NoTask,
    /// Rewrite these tasks (index and new line) and focus pane `dest`.
    Move { dest: usize, edits: Vec<(usize, String)> },
}

/// Pane index one step right (`direction` 1) or left (-1) of `src`, wrapping
/// around among `n` panes.
pub open spec fn wrapped(src: int, direction: int, n: int) -> int {
    if direction > 0 {
        if src + 1 < n {
            src + 1
        } else {
            0
        }
    } else if src == 0 {
        n - 1
    } else {
        src - 1
    }
}

/// A filter history with `expr` applied.
fn history_with(h: &Vec<String>, expr: &str) -> (r: Vec<String>)
    ensures
        strs(r) == pushed_history(strs(*h), expr@),
{
    let e = String::from_str(expr);
    let mut r: Vec<String> = Vec::new();
    r.push(String::from_str(expr));
    let ghost hv = strs(*h);
    let ghost pe = other_than(expr@);
    let mut i: usize = 0;
    assert(strs(r) =~= seq![expr@] + hv.take(0).filter(pe)) by {
        reveal_with_fuel(Seq::filter, 1);
    }
    while i < h.len()
        invariant
            i <= h@.len(),
            hv == strs(*h),
            e@ == expr@,
            pe == other_than(expr@),
            strs(r) == seq![expr@] + hv.take(i as int).filter(pe),
        decreases h.len() - i,
    {
        let ghost before = strs(r);
        let differs = !(h[i] == e);
        if differs {
            let ghost rv = r@;
            r.push(h[i].clone());
            assert(r@ =~= rv.push(h@[i as int]));
            assert(strs(r) =~= before.push(h@[i as int]@));
        }
        proof {
            reveal_with_fuel(Seq::filter, 1);
            let t1 = hv.take(i + 1);
            assert(t1.drop_last() =~= hv.take(i as int));
            assert(t1.last() == h@[i as int]@);
            assert(differs == pe(h@[i as int]@));
            if pe(h@[i as int]@) {
                assert(t1.filter(pe) == hv.take(i as int).filter(pe).push(h@[i as int]@));
                assert(strs(r) =~= seq![expr@] + t1.filter(pe));
            } else {
                assert(strs(r) =~= before);
                assert(t1.filter(pe) == hv.take(i as int).filter(pe));
            }
        }
        i += 1;
    }
    assert(hv.take(h@.len() as int) =~= hv);
    if r.len() > HISTORY_CAP {
        r.truncate(HISTORY_CAP);
        assert(strs(r) =~= (seq![expr@] + hv.filter(pe)).take(HISTORY_CAP as int));
    }
    r
}

impl App {
    /// Puts `expr` at the front of the filter history (dropping its earlier
    /// occurrences and entries beyond the cap) and ends any history recall.
    /// An empty expression changes nothing.
    pub fn push_filter_history(&mut self, expr: &str)
        ensures
            expr@.len() == 0 ==> *final(self) == *old(self),
            expr@.len() > 0 ==> *final(self) == (App {
                filter_history: final(self).filter_history,
                filter_history_cursor: None,
                ..*old(self)
            }) && deque_strs(final(self).filter_history) == pushed_history(
                deque_strs(old(self).filter_history),
                expr@,
            ),
    {
        if expr.is_empty() {
            return;
        }
        let current = deque_to_vec(&self.filter_history);
        let h = history_with(&current, expr);
        self.filter_history = vec_to_deque(h);
        self.filter_history_cursor = None;
    }

    /// The filter is one `@` or `+` word.
    pub fn is_single_tag_token(filter: &str) -> (r: bool)
        ensures
            r == single_tag(filter@),
    {
        if filter.is_empty() {
            return false;
        }
        let t = trim(filter);
        let cs = chars_of(t.as_str());
        if cs.len() == 0 {
            return false;
        }
        if cs[0] != '@' && cs[0] != '+' {
            return false;
        }
        let mut i: usize = 0;
        while i < cs.len()
            invariant
                i <= cs@.len(),
                cs@ == trim_seq(filter@),
                forall|k: int| 0 <= k < i ==> !is_ws(#[trigger] cs@[k]),
            decreases cs.len() - i,
        {
            if char_is_ws(cs[i]) {
                assert(has_ws(cs@));
                return false;
            }
            i += 1;
        }
        true
    }

    /// A snapshot of the tasks and the cursor, replacing any earlier one.
    pub fn push_undo_entry(&mut self)
        ensures
            undo_saved(*old(self), *final(self)),
    {
        self.undo_entry = Some(UndoEntry { tasks: duplicate_tasks(&self.tasks), selected: self.selected });
    }

    /// Restores the tasks and the cursor of the undo entry and drops it; false
    /// (and nothing changed) when there is none. The caller then saves the
    /// tasks and rebuilds the views.
    pub fn apply_undo(&mut self) -> (r: bool)
        ensures
            undo_restored(*old(self), *final(self), r),
    {
        let mut entry: Option<UndoEntry> = None;
        std::mem::swap(&mut entry, &mut self.undo_entry);
        match entry {
            Some(e) => {
                self.tasks = e.tasks;
                self.selected = e.selected;
                true
            },
            None => false,
        }
    }
}

/// The line of a task moved from the pane of tag `src` to that of `dest`.
pub fn move_line(raw: &str, src: &str, dest: &str) -> (r: String)
    ensures
        r@ == moved_line(raw@, src@, dest@),
{
    let words = split_ws(raw);
    let src_s = String::from_str(src);
    let dest_s = String::from_str(dest);
    let ghost pw = |w: Seq<char>| w != src@;
    let mut kept: Vec<String> = Vec::new();
    let mut has_dest = false;
    let mut i: usize = 0;
    assert(strs(kept) =~= strs(words).take(0).filter(pw)) by {
        reveal_with_fuel(Seq::filter, 1);
    }
    while i < words.len()
        invariant
            i <= words@.len(),
            strs(kept) == strs(words).take(i as int).filter(pw),
            has_dest == strs(kept).contains(dest@),
            src_s@ == src@,
            dest_s@ == dest@,
            pw == (|w: Seq<char>| w != src@),
        decreases words.len() - i,
    {
        let ghost before = strs(kept);
        let keep = !(words[i] == src_s);
        if keep {
            if words[i] == dest_s {
                has_dest = true;
            }
            let ghost kv = kept@;
            kept.push(words[i].clone());
            assert(kept@ =~= kv.push(words@[i as int]));
            assert(strs(kept) =~= before.push(words@[i as int]@));
        }
        proof {
            reveal_with_fuel(Seq::filter, 1);
            let w = words@[i as int]@;
            let t1 = strs(words).take(i + 1);
            assert(t1.drop_last() =~= strs(words).take(i as int));
            assert(t1.last() == w);
            assert(keep == pw(w));
            if pw(w) {
                assert(t1.filter(pw) == strs(words).take(i as int).filter(pw).push(w));
                assert(has_dest == strs(kept).contains(dest@)) by {
                    if strs(kept).contains(dest@) && !before.contains(dest@) {
                        let k = choose|k: int| 0 <= k < strs(kept).len() && strs(kept)[k] == dest@;
                        if k < before.len() {
                            assert(before[k] == dest@);
                        }
                    }
                    if before.contains(dest@) {
                        let k = choose|k: int| 0 <= k < before.len() && before[k] == dest@;
                        assert(strs(kept)[k] == dest@);
                    }
                    if w == dest@ {
                        assert(strs(kept)[before.len() as int] == dest@);
                    }
                }
            } else {
                assert(strs(kept) =~= before);
                assert(t1.filter(pw) == strs(words).take(i as int).filter(pw));
            }
        }
        i += 1;
    }
    assert(strs(words).take(words@.len() as int) =~= strs(words));
    let mut line = join_exec(&kept, " ");
    proof {
        reveal_strlit(" ");
    }
    if !has_dest {
        if line.as_str().is_empty() {
            line = String::from_str(dest);
        } else {
            push_all(&mut line, " ");
            push_all(&mut line, dest);
        }
    }
    line
}

impl App {
    /// Moves the marked tasks (or the task under the active pane's cursor) from
    /// the active pane to the pane `direction` steps away (wrapping), when both
    /// panes filter on a single tag: each task loses the source tag and gains
    /// the destination tag. Takes an undo snapshot, clears the selection and
    /// focuses the destination; the caller parses and saves the new lines and
    /// rebuilds the views. Refusals add a warning.
    #[verifier::rlimit(60)]
    pub fn pane_move_task(&mut self, direction: isize) -> (r: PaneMove)
        requires
            old(self).wf(),
            direction == 1 || direction == -1,
        ensures
            final(self).wf(),
            final(self).tasks == old(self).tasks,
            final(self).panes == old(self).panes,
            ({
                let n = old(self).panes@.len() as int;
                let src = old(self).active_pane as int;
                let dest = wrapped(src, direction as int, n);
                let sf = trim_seq(old(self).panes@[src].filter_query@);
                let df = trim_seq(old(self).panes@[dest].filter_query@);
                let p = old(self).panes@[src];
                match r {
                    PaneMove::NeedTwoPanes => n < 2,
                    PaneMove::SourceNotTag(f) => n >= 2 && !single_tag(sf) && f@ == sf,
                    PaneMove::DestNotTag(f) => n >= 2 && single_tag(sf) && !single_tag(df) && f@ == df,
                    PaneMove::NoTask => n >= 2 && single_tag(sf) && single_tag(df)
                        && old(self).selected_tasks@ == Set::<usize>::empty() && row_task_of(p) is None,
                    PaneMove::Move { dest: d, edits } => {
                        &&& n >= 2 && single_tag(sf) && single_tag(df)
                        &&& d == dest
                        &&& final(self).active_pane == dest
                        &&& final(self).selected_tasks@ == Set::<usize>::empty()
                        &&& final(self).selection_anchor is None
                        &&& final(self).undo_entry matches Some(e) && tasks_view(e.tasks@) == tasks_view(
                            old(self).tasks@,
                        )
                        &&& forall|k: int| 0 <= k < edits@.len() ==> {
                            let (t, line) = #[trigger] edits@[k];
                            &&& t < old(self).tasks@.len()
                            &&& line@ == moved_line(old(self).tasks@[t as int].raw@, sf, df)
                        }
                        &&& (if old(self).selected_tasks@ == Set::<usize>::empty() {
                            row_task_of(p) matches Some(t) && (if t < old(self).tasks@.len() {
                                edits@.len() == 1 && edits@[0].0 == t
                            } else {
                                edits@.len() == 0
                            })
                        } else {
                            edits@.map_values(|e: (usize, String)| e.0).to_set() == old(
                                self,
                            ).selected_tasks@.filter(|t: usize| t < old(self).tasks@.len())
                        })
                    },
                }
            }),
            !(r is Move) ==> *final(self) == (App { runtime_warnings: final(self).runtime_warnings, ..*old(self) })
                && strs(final(self).runtime_warnings) == strs(old(self).runtime_warnings).push(
                move_warning(r),
            ),
            r is Move ==> *final(self) == (App {
                undo_entry: final(self).undo_entry,
                selected_tasks: final(self).selected_tasks,
                selection_anchor: final(self).selection_anchor,
                active_pane: final(self).active_pane,
                ..*old(self)
            }),
    {
        let n = self.panes.len();
        if n < 2 {
            let ghost w0 = strs(self.runtime_warnings);
            self.runtime_warnings.push(String::from_str("Need at least 2 panes to move tasks."));
            assert(strs(self.runtime_warnings) =~= w0.push("Need at least 2 panes to move tasks."@));
            return PaneMove::NeedTwoPanes;
        }
        let src = self.active_pane;
        let dest = if direction > 0 {
            if src + 1 < n {
                src + 1
            } else {
                0
            }
        } else if src == 0 {
            n - 1
        } else {
            src - 1
        };
        assert(dest == wrapped(src as int, direction as int, n as int));
        let sf = trim(self.panes[src].filter_query.as_str());
        let df = trim(self.panes[dest].filter_query.as_str());
        if !App::is_single_tag_token(sf.as_str()) {
            let mut msg = String::from_str("Cannot move: source pane filter '");
            push_all(&mut msg, sf.as_str());
            push_all(&mut msg, "' is not a single @/+ tag.");
            let ghost w0 = strs(self.runtime_warnings);
            let ghost m = msg@;
            self.runtime_warnings.push(msg);
            assert(strs(self.runtime_warnings) =~= w0.push(m));
            return PaneMove::SourceNotTag(sf);
        }
        if !App::is_single_tag_token(df.as_str()) {
            let mut msg = String::from_str("Cannot move: destination pane filter '");
            push_all(&mut msg, df.as_str());
            push_all(&mut msg, "' is not a single @/+ tag.");
            let ghost w0 = strs(self.runtime_warnings);
            let ghost m = msg@;
            self.runtime_warnings.push(msg);
            assert(strs(self.runtime_warnings) =~= w0.push(m));
            return PaneMove::DestNotTag(df);
        }
        let ghost mut single: Option<usize> = None;
        let targets: Vec<usize> = if !self.selected_tasks.is_empty() {
            self.selected_tasks.to_vec()
        } else {
            match pane_row_task(&self.panes[src]) {
                Some(t) => {
                    let mut v = Vec::new();
                    v.push(t);
                    proof {
                        single = Some(t);
                    }
                    v
                },
                None => {
                    let ghost w0 = strs(self.runtime_warnings);
                    self.runtime_warnings.push(String::from_str("No task selected to move."));
                    assert(strs(self.runtime_warnings) =~= w0.push("No task selected to move."@));
                    return PaneMove::NoTask;
                },
            }
        };
        self.push_undo_entry();
        let edits = moved_edits(&self.tasks, &targets, &sf, &df);
        proof {
            if let Some(t) = single {
                assert(targets@ =~= seq![t]);
            }
        }
        self.selected_tasks.clear();
        self.selection_anchor = None;
        self.active_pane = dest;
        PaneMove::Move { dest, edits }
    }
}

/// The edits of a move: for each target that names a task, in order, the
/// task's line with `sf` swapped for `df`.
fn moved_edits(tasks: &Vec<TaskRecord>, targets: &Vec<usize>, sf: &String, df: &String) -> (edits: Vec<
    (usize, String),
>)
    ensures
        forall|k: int| 0 <= k < edits@.len() ==> {
            let (t, line) = #[trigger] edits@[k];
            &&& t < tasks@.len()
            &&& line@ == moved_line(tasks@[t as int].raw@, sf@, df@)
        },
        edits@.map_values(|e: (usize, String)| e.0).to_set() == targets@.to_set().filter(
            |t: usize| t < tasks@.len(),
        ),
        targets@.len() == 1 ==> if targets@[0] < tasks@.len() {
            edits@.len() == 1 && edits@[0].0 == targets@[0]
        } else {
            edits@.len() == 0
        },
{
    let mut edits: Vec<(usize, String)> = Vec::new();
    let mut i: usize = 0;
    while i < targets.len()
        invariant
            i <= targets@.len(),
            forall|k: int| 0 <= k < edits@.len() ==> {
                let (t, line) = #[trigger] edits@[k];
                &&& t < tasks@.len()
                &&& line@ == moved_line(tasks@[t as int].raw@, sf@, df@)
            },
            edits@.map_values(|e: (usize, String)| e.0) == targets@.take(i as int).filter(
                |t: usize| t < tasks@.len(),
            ),
        decreases targets.len() - i,
    {
        let t = targets[i];
        proof {
            reveal_with_fuel(Seq::filter, 1);
            assert(targets@.take(i + 1).drop_last() =~= targets@.take(i as int));
            assert(targets@.take(i + 1).last() == t);
        }
        if t < tasks.len() {
            let line = move_line(tasks[t].raw.as_str(), sf.as_str(), df.as_str());
            let ghost before = edits@;
            edits.push((t, line));
            assert(edits@.map_values(|e: (usize, String)| e.0) =~= before.map_values(
                |e: (usize, String)| e.0,
            ).push(t));
        }
        i += 1;
    }
    proof {
        assert(targets@.take(targets@.len() as int) =~= targets@);
        let ids = edits@.map_values(|e: (usize, String)| e.0);
        let lim = |t: usize| t < tasks@.len();
        assert forall|t: usize| ids.to_set().contains(t) <==> targets@.to_set().filter(
            lim,
        ).contains(t) by {
            if ids.contains(t) {
                let k = choose|k: int| 0 <= k < ids.len() && ids[k] == t;
                targets@.lemma_filter_pred(lim, k);
                assert(targets@.filter(lim).contains(t));
                targets@.lemma_filter_contains_rev(lim, t);
            }
            if targets@.contains(t) && lim(t) {
                let k = choose|k: int| 0 <= k < targets@.len() && targets@[k] == t;
                targets@.lemma_filter_contains(lim, k);
            }
        }
        assert(ids.to_set() =~= targets@.to_set().filter(lim));
        if targets@.len() == 1 {
            reveal_with_fuel(Seq::filter, 2);
            assert(targets@.drop_last() =~= Seq::<usize>::empty());
            assert(ids.len() == edits@.len());
            if ids.len() > 0 {
                assert(ids[0] == edits@[0].0);
            }
        }
    }
    edits
}

/// The task under a pane's cursor.
pub open spec fn row_task_of(p: crate::state::Pane) -> Option<usize> {
    crate::select::row_task(p.display_rows@, p.selected as int)
}

fn pane_row_task(p: &crate::state::Pane) -> (r: Option<usize>)
    ensures
        r == row_task_of(*p),
{
    if p.selected < p.display_rows.len() {
        match &p.display_rows[p.selected] {
            DisplayRow::Task(t) => Some(*t),
            DisplayRow::GroupHeader(_) => None,
        }
    } else {
        None
    }
}

} // verus!

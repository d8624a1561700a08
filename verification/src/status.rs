//! The status bar text and the warnings log.

use vstd::prelude::*;
use crate::app::App;
use crate::config::GroupByCategory;
use crate::editor::last_occurrence;
use crate::pane_list::{byte_len, chars_before, on_char_boundary, str_byte_len};
use crate::rebuild::indices_in;
use crate::selection::TaskSelection;
use crate::state::DisplayRow;
use crate::task::{DueStatus, SortOrder, TaskRecord, group_by_label, group_by_name, sort_label, sort_name};
use crate::text::{chars_of, dec, dec_string, push_all, string_of, string_of_range, strs, trim, trim_seq};

verus! {

/// The task indices of a list of rows, headers left out.
pub open spec fn row_tasks(rows: Seq<DisplayRow>) -> Seq<usize>
    decreases rows.len(),
{
    if rows.len() == 0 {
        Seq::empty()
    } else {
        let rest = row_tasks(rows.drop_last());
        match rows.last() {
            DisplayRow::Task(t) => rest.push(t),
            DisplayRow::GroupHeader(_) => rest,
        }
    }
}

/// The tasks the status bar counts: the active pane's in the multi-pane view,
/// the global view's otherwise.
pub open spec fn status_scope(a: App) -> Seq<usize> {
    if a.multi_view() {
        row_tasks(a.panes@[a.active_pane as int].display_rows@)
    } else {
        a.display_indices@
    }
}

/// Open tasks of `scope` with due status `st`.
pub open spec fn count_due(tasks: Seq<TaskRecord>, scope: Seq<usize>, st: DueStatus) -> nat
    decreases scope.len(),
{
    if scope.len() == 0 {
        0
    } else {
        let t = tasks[scope.last() as int];
        count_due(tasks, scope.drop_last(), st) + (if !t.completed && t.due_status == st {
            1nat
        } else {
            0
        })
    }
}

/// `filter: <f>`, cut to 27 bytes and `…` when longer than 30 bytes; none for
/// an empty filter.
pub open spec fn status_filter(f: Seq<char>) -> Option<Seq<char>> {
    if f.len() == 0 {
        None
    } else if byte_len(f) > 30 {
        Some("filter: "@ + f.take(chars_before(f, 27)) + "\u{2026}"@)
    } else {
        Some("filter: "@ + f)
    }
}

/// Cutting a long filter at byte 27 falls between characters.
pub open spec fn status_filter_ok(f: Seq<char>) -> bool {
    byte_len(f) > 30 ==> on_char_boundary(f, 27)
}

/// The filter shown in the status bar.
pub fn format_status_filter(trimmed_filter: &str) -> (r: Option<String>)
    requires
        status_filter_ok(trimmed_filter@),
    ensures
        match status_filter(trimmed_filter@) {
            Some(s) => r matches Some(x) && x@ == s,
            None => r is None,
        },
{
    if trimmed_filter.is_empty() {
        return None;
    }
    let mut s = String::from_str("filter: ");
    proof {
        reveal_strlit("filter: ");
        reveal_strlit("\u{2026}");
    }
    if str_byte_len(trimmed_filter) > 30 {
        let cs = chars_of(trimmed_filter);
        let k = match crate::filtering::char_index_at(&cs, 27) {
            Some(k) => k,
            None => {
                assert(false);
                0
            },
        };
        let head = string_of_range(&cs, 0, k);
        push_all(&mut s, head.as_str());
        push_all(&mut s, "\u{2026}");
        assert(head@ =~= trimmed_filter@.take(chars_before(trimmed_filter@, 27)));
    } else {
        push_all(&mut s, trimmed_filter);
    }
    Some(s)
}

/// The keys listed at the right of the status bar.
pub open spec fn status_hints() -> Seq<char> {
    "  q quit | n add | u edit | d/Del/Bksp del | D bulk del (confirm) | T bulk app | @ context | + project | v sel | Shift+nav range | x done | j/k nav | f filter | ^f filt on/off | F define | o sort | G group | g grp-by | h deferred | t theme | 0 clear filter | 1-9 preset | . reload | ? help"@
}

/// The key hints shown at the right of the status bar when they fit.
pub fn status_hints_text() -> (r: String)
    ensures
        r@ == status_hints(),
{
    String::from_str(
        "  q quit | n add | u edit | d/Del/Bksp del | D bulk del (confirm) | T bulk app | @ context | + project | v sel | Shift+nav range | x done | j/k nav | f filter | ^f filt on/off | F define | o sort | G group | g grp-by | h deferred | t theme | 0 clear filter | 1-9 preset | . reload | ? help",
    )
}

/// ` | <today> due today | <overdue> overdue`, when either count is nonzero.
pub open spec fn due_part(today: nat, overdue: nat) -> Seq<char> {
    if today > 0 || overdue > 0 {
        " | "@ + dec(today) + " due today | "@ + dec(overdue) + " overdue"@
    } else {
        Seq::empty()
    }
}

/// ` | <n> selected`, when tasks are marked.
pub open spec fn selected_part(marked: Set<usize>) -> Seq<char> {
    if marked != Set::<usize>::empty() {
        " | "@ + dec(marked.len()) + " selected"@
    } else {
        Seq::empty()
    }
}

/// The selection-mode notice, in the disjoint selection mode.
pub open spec fn mode_part(disjoint: bool) -> Seq<char> {
    if disjoint {
        " | SELECT mode (space=mark, v=exit)"@
    } else {
        Seq::empty()
    }
}

/// ` | ⚠ errors: <n> ('!' for log)`, when the warnings log is not empty.
pub open spec fn errors_part(errors: nat) -> Seq<char> {
    if errors > 0 {
        " | \u{26a0} errors: "@ + dec(errors) + " ('!' for log)"@
    } else {
        Seq::empty()
    }
}

/// The left part: file, counts, marks, selection mode, warnings.
pub open spec fn status_left(a: App, file_name: Seq<char>) -> Seq<char> {
    let scope = status_scope(a);
    let today = count_due(a.tasks@, scope, DueStatus::Today);
    let overdue = count_due(a.tasks@, scope, DueStatus::Overdue);
    let errors = a.keymap_warnings@.len() + a.runtime_warnings@.len();
    file_name + " | "@ + dec(scope.len()) + "/"@ + dec(a.tasks@.len()) + " tasks"@ + due_part(
        today,
        overdue,
    ) + selected_part(a.selected_tasks@) + mode_part(a.disjoint_select) + errors_part(errors)
}

/// The settings shown: the active pane's in the multi-pane view, the global
/// view's otherwise.
pub open spec fn shown_settings(a: App) -> (Seq<char>, SortOrder, bool, GroupByCategory) {
    if a.multi_view() {
        let p = a.panes@[a.active_pane as int];
        (p.filter_query@, p.sort_order, p.grouping, p.group_by)
    } else {
        (a.filter_query@, a.sort_order, a.grouping, a.group_by)
    }
}

/// The middle part: filter, sort order, grouping, deferred flag.
pub open spec fn status_middle(a: App) -> Seq<char> {
    let (f, sort, grouping, g) = shown_settings(a);
    (match status_filter(trim_seq(f)) {
        Some(x) => " | "@ + x,
        None => Seq::empty(),
    }) + (if sort != SortOrder::FileOrder {
        " | sort: "@ + sort_label(sort)
    } else {
        Seq::empty()
    }) + (if grouping {
        " | grp:"@ + group_by_label(g)
    } else {
        Seq::empty()
    }) + (if a.show_deferred {
        " [+deferred]"@
    } else {
        Seq::empty()
    })
}

/// The middle part fitted into what `width` leaves after `left` (bytes): whole
/// when it fits, nothing under 3 bytes, else cut to `available - 1`
/// characters, back to the last ` | ` (unless at the start), with `…`.
pub open spec fn fitted_middle(left: Seq<char>, middle: Seq<char>, width: nat) -> Seq<char> {
    let show_hints = byte_len(left) + byte_len(middle) + byte_len(status_hints()) <= width;
    if show_hints || byte_len(left) + byte_len(middle) <= width {
        middle
    } else {
        let available: int = if width >= byte_len(left) {
            width - byte_len(left)
        } else {
            0
        };
        if available < 3 {
            Seq::empty()
        } else {
            let t = middle.take(if available - 1 < middle.len() {
                available - 1
            } else {
                middle.len() as int
            });
            match last_occurrence(t, " | "@) {
                Some(q) => if q > 0 {
                    t.take(q) + "\u{2026}"@
                } else {
                    t + "\u{2026}"@
                },
                None => t + "\u{2026}"@,
            }
        }
    }
}

/// The status bar in a `width` of `width` bytes: the left part, the fitted
/// middle part, and the key hints when everything fits.
pub open spec fn status_bar(a: App, file_name: Seq<char>, width: nat) -> (Seq<char>, Seq<char>, bool) {
    let left = status_left(a, file_name);
    let middle = status_middle(a);
    (
        left,
        fitted_middle(left, middle, width),
        byte_len(left) + byte_len(middle) + byte_len(status_hints()) <= width,
    )
}

impl App {
    /// The status bar counts are defined: every counted index names a task,
    /// and a long filter is cut between characters.
    pub open spec fn status_ok(self) -> bool {
        &&& indices_in(status_scope(self), self.tasks@.len())
        &&& status_filter_ok(trim_seq(shown_settings(self).0))
        &&& self.keymap_warnings@.len() + self.runtime_warnings@.len() <= usize::MAX
    }

    /// Number of entries of the warnings log.
    pub fn error_log_count(&self) -> (r: usize)
        requires
            self.keymap_warnings@.len() + self.runtime_warnings@.len() <= usize::MAX,
        ensures
            r == self.keymap_warnings@.len() + self.runtime_warnings@.len(),
    {
        self.keymap_warnings.len() + self.runtime_warnings.len()
    }

    /// The warnings log: each keymap warning after `keymap: `, then the
    /// runtime warnings.
    pub fn error_log_lines(&self) -> (r: Vec<String>)
        ensures
            strs(r) == strs(self.keymap_warnings).map_values(|w: Seq<char>| "keymap: "@ + w) + strs(
                self.runtime_warnings,
            ),
    {
        let mut out: Vec<String> = Vec::new();
        let mut i: usize = 0;
        proof {
            reveal_strlit("keymap: ");
        }
        while i < self.keymap_warnings.len()
            invariant
                i <= self.keymap_warnings@.len(),
                strs(out) == strs(self.keymap_warnings).take(i as int).map_values(|w: Seq<char>| "keymap: "@ + w),
            decreases self.keymap_warnings.len() - i,
        {
            let mut s = String::from_str("keymap: ");
            push_all(&mut s, self.keymap_warnings[i].as_str());
            let ghost before = strs(out);
            out.push(s);
            assert(strs(out) =~= before.push("keymap: "@ + self.keymap_warnings@[i as int]@));
            assert(strs(self.keymap_warnings).take(i + 1) =~= strs(self.keymap_warnings).take(i as int).push(self.keymap_warnings@[i as int]@));
            assert(strs(out) =~= strs(self.keymap_warnings).take(i + 1).map_values(|w: Seq<char>| "keymap: "@ + w));
            i += 1;
        }
        assert(strs(self.keymap_warnings).take(self.keymap_warnings@.len() as int) =~= strs(self.keymap_warnings));
        let ghost head = strs(out);
        let mut j: usize = 0;
        while j < self.runtime_warnings.len()
            invariant
                j <= self.runtime_warnings@.len(),
                strs(out) == head + strs(self.runtime_warnings).take(j as int),
            decreases self.runtime_warnings.len() - j,
        {
            let ghost before = strs(out);
            out.push(self.runtime_warnings[j].clone());
            assert(strs(out) =~= before.push(self.runtime_warnings@[j as int]@));
            j += 1;
            assert(strs(out) =~= head + strs(self.runtime_warnings).take(j as int));
        }
        assert(strs(self.runtime_warnings).take(self.runtime_warnings@.len() as int) =~= strs(self.runtime_warnings));
        out
    }

    /// The task indices the status bar counts.
    pub fn status_scope_task_indices(&self) -> (r: Vec<usize>)
        requires
            self.wf(),
        ensures
            r@ == status_scope(*self),
    {
        if self.is_multi_view() {
            let rows = &self.panes[self.active_pane].display_rows;
            let mut out: Vec<usize> = Vec::new();
            let mut i: usize = 0;
            while i < rows.len()
                invariant
                    i <= rows@.len(),
                    out@ == row_tasks(rows@.take(i as int)),
                decreases rows.len() - i,
            {
                proof {
                    assert(rows@.take(i + 1).drop_last() =~= rows@.take(i as int));
                    assert(rows@.take(i + 1).last() == rows@[i as int]);
                }
                match &rows[i] {
                    DisplayRow::Task(t) => {
                        out.push(*t);
                    },
                    DisplayRow::GroupHeader(_) => {},
                }
                i += 1;
            }
            assert(rows@.take(rows@.len() as int) =~= rows@);
            out
        } else {
            crate::rebuild::copy_indices(&self.display_indices)
        }
    }
}

} // verus!

verus! {

fn count_due_exec(tasks: &Vec<TaskRecord>, scope: &Vec<usize>, st: DueStatus) -> (r: usize)
    requires
        indices_in(scope@, tasks@.len()),
    ensures
        r == count_due(tasks@, scope@, st),
{
    let mut n: usize = 0;
    let mut i: usize = 0;
    while i < scope.len()
        invariant
            i <= scope@.len(),
            indices_in(scope@, tasks@.len()),
            n == count_due(tasks@, scope@.take(i as int), st),
            n <= i,
        decreases scope.len() - i,
    {
        proof {
            assert(scope@.take(i + 1).drop_last() =~= scope@.take(i as int));
            assert(scope@.take(i + 1).last() == scope@[i as int]);
        }
        let t = &tasks[scope[i]];
        if !t.completed && t.due_status == st {
            n += 1;
        }
        i += 1;
    }
    assert(scope@.take(scope@.len() as int) =~= scope@);
    n
}

fn push_dec(s: &mut String, n: usize)
    ensures
        final(s)@ == old(s)@ + dec(n as nat),
{
    let d = dec_string(n as u64);
    push_all(s, d.as_str());
}

/// `a + b <= w` without overflow.
fn sum_fits(a: usize, b: usize, w: usize) -> (r: bool)
    ensures
        r == (a + b <= w),
{
    a <= w && b <= w - a
}

fn fit_middle(left: &String, middle: String, width: usize) -> (r: (String, bool))
    ensures
        r.0@ == fitted_middle(left@, middle@, width as nat),
        r.1 == (byte_len(left@) + byte_len(middle@) + byte_len(status_hints()) <= width),
{
    proof {
        reveal_strlit("\u{2026}");
        reveal_strlit(" | ");
    }
    let hints = "  q quit | n add | u edit | d/Del/Bksp del | D bulk del (confirm) | T bulk app | @ context | + project | v sel | Shift+nav range | x done | j/k nav | f filter | ^f filt on/off | F define | o sort | G group | g grp-by | h deferred | t theme | 0 clear filter | 1-9 preset | . reload | ? help";
    proof {
        reveal_strlit("  q quit | n add | u edit | d/Del/Bksp del | D bulk del (confirm) | T bulk app | @ context | + project | v sel | Shift+nav range | x done | j/k nav | f filter | ^f filt on/off | F define | o sort | G group | g grp-by | h deferred | t theme | 0 clear filter | 1-9 preset | . reload | ? help");
    }
    let ll = str_byte_len(left.as_str());
    let ml = str_byte_len(middle.as_str());
    let rl = str_byte_len(hints);
    let lm_fits = sum_fits(ll, ml, width);
    let show_hints = lm_fits && rl <= width - ll - ml;
    if show_hints || lm_fits {
        return (middle, show_hints);
    }
    let available = if width >= ll {
        width - ll
    } else {
        0
    };
    if available < 3 {
        return (String::new(), show_hints);
    }
    let mc = chars_of(middle.as_str());
    let take = if available - 1 < mc.len() {
        available - 1
    } else {
        mc.len()
    };
    let t = string_of_range(&mc, 0, take);
    let tc = chars_of(t.as_str());
    let sep = chars_of(" | ");
    assert(tc@ =~= middle@.take(take as int));
    let found = crate::editor::last_occurrence_pub(&tc, &sep);
    proof {
        crate::editor::lemma_last_occurrence_bounds(tc@, sep@);
    }
    let mut out = match found {
        Some(q) => if q > 0 {
            string_of_range(&tc, 0, q)
        } else {
            t
        },
        None => t,
    };
    push_all(&mut out, "\u{2026}");
    (out, show_hints)
}

fn push_due_part(s: &mut String, today: usize, overdue: usize)
    ensures
        final(s)@ == old(s)@ + due_part(today as nat, overdue as nat),
{
    proof {
        reveal_strlit(" | ");
        reveal_strlit(" due today | ");
        reveal_strlit(" overdue");
    }
    if today > 0 || overdue > 0 {
        push_all(s, " | ");
        push_dec(s, today);
        push_all(s, " due today | ");
        push_dec(s, overdue);
        push_all(s, " overdue");
        assert(s@ =~= old(s)@ + due_part(today as nat, overdue as nat));
    } else {
        assert(s@ =~= old(s)@ + due_part(today as nat, overdue as nat));
    }
}

fn push_selected_part(s: &mut String, marked: &TaskSelection)
    ensures
        final(s)@ == old(s)@ + selected_part(marked@),
{
    proof {
        reveal_strlit(" | ");
        reveal_strlit(" selected");
    }
    if !marked.is_empty() {
        push_all(s, " | ");
        push_dec(s, marked.len());
        push_all(s, " selected");
        assert(s@ =~= old(s)@ + selected_part(marked@));
    } else {
        assert(s@ =~= old(s)@ + selected_part(marked@));
    }
}

fn push_mode_and_errors(s: &mut String, disjoint: bool, errors: usize)
    ensures
        final(s)@ == old(s)@ + mode_part(disjoint) + errors_part(errors as nat),
{
    proof {
        reveal_strlit(" | SELECT mode (space=mark, v=exit)");
        reveal_strlit(" | \u{26a0} errors: ");
        reveal_strlit(" ('!' for log)");
    }
    let ghost start = s@;
    if disjoint {
        push_all(s, " | SELECT mode (space=mark, v=exit)");
    }
    assert(s@ =~= start + mode_part(disjoint));
    let ghost mid = s@;
    if errors > 0 {
        push_all(s, " | \u{26a0} errors: ");
        push_dec(s, errors);
        push_all(s, " ('!' for log)");
    }
    assert(s@ =~= mid + errors_part(errors as nat));
}

impl App {
    fn status_left_text(&self, file_name: &str) -> (r: String)
        requires
            self.wf(),
            self.status_ok(),
        ensures
            r@ == status_left(*self, file_name@),
    {
        proof {
            reveal_strlit(" | ");
            reveal_strlit("/");
            reveal_strlit(" tasks");
        }
        let scope = self.status_scope_task_indices();
        let today = count_due_exec(&self.tasks, &scope, DueStatus::Today);
        let overdue = count_due_exec(&self.tasks, &scope, DueStatus::Overdue);
        let errors = self.error_log_count();
        let mut left = String::from_str(file_name);
        push_all(&mut left, " | ");
        push_dec(&mut left, scope.len());
        push_all(&mut left, "/");
        push_dec(&mut left, self.tasks.len());
        push_all(&mut left, " tasks");
        let ghost head = left@;
        push_due_part(&mut left, today, overdue);
        push_selected_part(&mut left, &self.selected_tasks);
        push_mode_and_errors(&mut left, self.disjoint_select, errors);
        assert(left@ =~= status_left(*self, file_name@));
        left
    }

    fn status_middle_text(&self) -> (r: String)
        requires
            self.wf(),
            self.status_ok(),
        ensures
            r@ == status_middle(*self),
    {
        proof {
            reveal_strlit(" | ");
            reveal_strlit(" | sort: ");
            reveal_strlit(" | grp:");
            reveal_strlit(" [+deferred]");
        }
        let (f, sort, grouping, g) = if self.is_multi_view() {
            let p = &self.panes[self.active_pane];
            (p.filter_query.clone(), p.sort_order, p.grouping, p.group_by)
        } else {
            (self.filter_query.clone(), self.sort_order, self.grouping, self.group_by)
        };
        let mut middle = String::new();
        let tf = trim(f.as_str());
        match format_status_filter(tf.as_str()) {
            Some(x) => {
                push_all(&mut middle, " | ");
                push_all(&mut middle, x.as_str());
            },
            None => {},
        }
        if sort != SortOrder::FileOrder {
            push_all(&mut middle, " | sort: ");
            push_all(&mut middle, sort_name(sort));
        }
        if grouping {
            push_all(&mut middle, " | grp:");
            push_all(&mut middle, group_by_name(g));
        }
        if self.show_deferred {
            push_all(&mut middle, " [+deferred]");
        }
        assert(middle@ =~= status_middle(*self));
        middle
    }

    /// Whether the status bar can be drawn (`status_ok`): the counted
    /// indices name tasks, a long filter is cut between characters, and the
    /// warnings can be counted.
    pub fn status_valid(&self) -> (r: bool)
        requires
            self.wf(),
        ensures
            r == self.status_ok(),
    {
        let scope = self.status_scope_task_indices();
        let n = self.tasks.len();
        let mut i: usize = 0;
        while i < scope.len()
            invariant
                i <= scope@.len(),
                n == self.tasks@.len(),
                scope@ == status_scope(*self),
                forall|k: int| 0 <= k < i ==> scope@[k] < n,
            decreases scope.len() - i,
        {
            if scope[i] >= n {
                assert(!indices_in(scope@, self.tasks@.len()));
                return false;
            }
            i += 1;
        }
        assert(indices_in(scope@, self.tasks@.len()));
        let f = if self.is_multi_view() {
            self.panes[self.active_pane].filter_query.clone()
        } else {
            self.filter_query.clone()
        };
        let t = trim(f.as_str());
        let cut_ok = if str_byte_len(t.as_str()) > 30 {
            let cs = chars_of(t.as_str());
            crate::filtering::char_index_at(&cs, 27).is_some()
        } else {
            true
        };
        let counts_ok = self.keymap_warnings.len() <= usize::MAX - self.runtime_warnings.len();
        cut_ok && counts_ok
    }

    /// The status bar for a list area `width` bytes wide, `file_name` being the
    /// todo file's name: left part, middle part, and whether the key hints fit.
    pub fn status_bar_text(&self, file_name: &str, width: usize) -> (r: (String, String, bool))
        requires
            self.wf(),
            self.status_ok(),
        ensures
            (r.0@, r.1@, r.2) == status_bar(*self, file_name@, width as nat),
    {
        let left = self.status_left_text(file_name);
        let middle = self.status_middle_text();
        let (shown, hints) = fit_middle(&left, middle, width);
        (left, shown, hints)
    }
}

} // verus!

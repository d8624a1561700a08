//! Properties that hold across calls: cycles, round trips and what the keymap,
//! the filter history and the ranking promise for every input.

use vstd::prelude::*;
use crate::actions::filter_toggled;
use crate::app::{App, MAX_PANES, renumbered};
use crate::config::GroupByCategory;
use crate::keys::{
    KeyChord, ascii_lower_seq, chord_of, join, conflict_warnings, default_bindings, entry_warnings, first_with_chord, names_bound_to,
    overrides_applied, resolved_bindings,
};
use crate::history::{HISTORY_CAP, differs_from, moved_line, other_than, words_without, pushed_history, undo_restored, undo_saved};
use crate::panes::{next_pane, pane_added, pane_deleted, prev_pane};
use crate::select::toggled;
use crate::state::{
    day_position, lemma_day_position_bounds, lemma_day_position_of_line, lemma_suggestions_increasing,
    match_class, of_class, ranked, stepped_day, suggestions_or_empty,
};
use crate::task::{SortOrder, next_group_by, next_sort, tasks_view};
use crate::text::{
    ascii_lower, has_ws, is_ws, lemma_trim_ends, lemma_trim_fixed, lemma_ws_split_space, lemma_ws_split_word, lemma_ws_tokens_words, lowercase_of, trim_seq,
    ws_split, ws_tokens,
};
use crate::theme::{Theme, next_theme};

verus! {

/// `s` advanced `k` times through the sort cycle.
pub open spec fn sort_steps(s: SortOrder, k: nat) -> SortOrder
    decreases k,
{
    if k == 0 {
        s
    } else {
        next_sort(sort_steps(s, (k - 1) as nat))
    }
}

/// `g` advanced `k` times through the grouping cycle.
pub open spec fn group_by_steps(g: GroupByCategory, k: nat) -> GroupByCategory
    decreases k,
{
    if k == 0 {
        g
    } else {
        next_group_by(group_by_steps(g, (k - 1) as nat))
    }
}

/// The place of `s` in the sort cycle.
pub open spec fn sort_pos(s: SortOrder) -> int {
    match s {
        SortOrder::FileOrder => 0,
        SortOrder::Alphabetical => 1,
        SortOrder::CompletedDate => 2,
        SortOrder::Context => 3,
        SortOrder::DueDate => 4,
        SortOrder::CreationDate => 5,
        SortOrder::Priority => 6,
        SortOrder::Project => 7,
    }
}

/// The place of `g` in the grouping cycle.
pub open spec fn group_by_pos(g: GroupByCategory) -> int {
    match g {
        GroupByCategory::Priority => 0,
        GroupByCategory::Project => 1,
        GroupByCategory::Context => 2,
        GroupByCategory::DueDate => 3,
    }
}

proof fn lemma_sort_steps_pos(s: SortOrder, k: nat)
    ensures
        sort_pos(sort_steps(s, k)) == (sort_pos(s) + k) % 8,
    decreases k,
{
    if k > 0 {
        lemma_sort_steps_pos(s, (k - 1) as nat);
        let p = sort_pos(sort_steps(s, (k - 1) as nat));
        assert(sort_pos(next_sort(sort_steps(s, (k - 1) as nat))) == (p + 1) % 8);
        assert((((sort_pos(s) + k - 1) % 8) + 1) % 8 == (sort_pos(s) + k) % 8) by (nonlinear_arith);
    }
}

proof fn lemma_group_by_steps_pos(g: GroupByCategory, k: nat)
    ensures
        group_by_pos(group_by_steps(g, k)) == (group_by_pos(g) + k) % 4,
    decreases k,
{
    if k > 0 {
        lemma_group_by_steps_pos(g, (k - 1) as nat);
        let p = group_by_pos(group_by_steps(g, (k - 1) as nat));
        assert(group_by_pos(next_group_by(group_by_steps(g, (k - 1) as nat))) == (p + 1) % 4);
        assert((((group_by_pos(g) + k - 1) % 4) + 1) % 4 == (group_by_pos(g) + k) % 4) by (nonlinear_arith);
    }
}

/// Cycling the sort order eight times comes back to where it started, and not
/// before: each of the eight orders comes once per round.
pub proof fn law_sort_cycle(s: SortOrder)
    ensures
        sort_steps(s, 8) == s,
        forall|k: nat| 0 < k < 8 ==> #[trigger] sort_steps(s, k) != s,
{
    lemma_sort_steps_pos(s, 8);
    assert((sort_pos(s) + 8) % 8 == sort_pos(s)) by (nonlinear_arith)
        requires
            0 <= sort_pos(s) < 8,
    ;
    assert forall|k: nat| 0 < k < 8 implies #[trigger] sort_steps(s, k) != s by {
        lemma_sort_steps_pos(s, k);
        assert((sort_pos(s) + k) % 8 != sort_pos(s)) by (nonlinear_arith)
            requires
                0 <= sort_pos(s) < 8,
                0 < k < 8,
        ;
    }
}

/// Cycling the grouping category four times comes back to where it started,
/// and not before.
pub proof fn law_group_by_cycle(g: GroupByCategory)
    ensures
        group_by_steps(g, 4) == g,
        forall|k: nat| 0 < k < 4 ==> #[trigger] group_by_steps(g, k) != g,
{
    lemma_group_by_steps_pos(g, 4);
    assert((group_by_pos(g) + 4) % 4 == group_by_pos(g)) by (nonlinear_arith)
        requires
            0 <= group_by_pos(g) < 4,
    ;
    assert forall|k: nat| 0 < k < 4 implies #[trigger] group_by_steps(g, k) != g by {
        lemma_group_by_steps_pos(g, k);
        assert((group_by_pos(g) + k) % 4 != group_by_pos(g)) by (nonlinear_arith)
            requires
                0 <= group_by_pos(g) < 4,
                0 < k < 4,
        ;
    }
}

/// Cycling the theme twice comes back to where it started, and never stays.
pub proof fn law_theme_cycle(t: Theme)
    ensures
        next_theme(next_theme(t)) == t,
        next_theme(t) != t,
{
}

/// Moving the focus to the next pane and then to the previous one comes back
/// to the pane started from, and so does the other way round.
pub proof fn law_focus_round_trip(n: int, i: int)
    requires
        0 <= i < n,
    ensures
        prev_pane(n, next_pane(n, i)) == i,
        next_pane(n, prev_pane(n, i)) == i,
        0 <= next_pane(n, i) < n,
        0 <= prev_pane(n, i) < n,
{
    if n > 1 {
        if i + 1 < n {
            vstd::arithmetic::div_mod::lemma_small_mod((i + 1) as nat, n as nat);
        } else {
            vstd::arithmetic::div_mod::lemma_mod_self_0(n);
        }
        if i > 0 {
            vstd::arithmetic::div_mod::lemma_small_mod(i as nat, n as nat);
        } else {
            vstd::arithmetic::div_mod::lemma_mod_self_0(n);
        }
    }
}

/// Toggling the mark of a task twice leaves the marked set as it was.
pub proof fn law_toggle_mark_twice(s: Set<usize>, t: usize)
    ensures
        toggled(toggled(s, t), t) == s,
        toggled(s, t).contains(t) != s.contains(t),
{
    assert(toggled(toggled(s, t), t) =~= s);
}

/// Saving an undo entry, changing anything but the entry, and undoing gives
/// back the tasks and the cursor as they were when the entry was saved.
pub proof fn law_undo_round_trip(a: App, b: App, c: App, d: App, r: bool)
    requires
        undo_saved(a, b),
        c.undo_entry == b.undo_entry,
        undo_restored(c, d, r),
    ensures
        r,
        tasks_view(d.tasks@) == tasks_view(a.tasks@),
        d.selected == a.selected,
        d.undo_entry is None,
{
}

/// Adding a pane and deleting it again (the new pane has the focus) gives back
/// the panes as they were, renumbered, with the focus on the last of them.
pub proof fn law_pane_add_then_delete(a: App, b: App, c: App)
    requires
        a.wf(),
        a.panes@.len() < MAX_PANES,
        pane_added(a, b),
        pane_deleted(b, c),
    ensures
        c.panes@.len() == a.panes@.len(),
        forall|i: int| 0 <= i < a.panes@.len() ==> renumbered(a.panes@[i], #[trigger] c.panes@[i], i),
        c.active_pane == a.panes@.len() - 1,
        c.pane_counter == a.pane_counter + 1,
{
    let n = a.panes@.len() as int;
    assert forall|i: int| 0 <= i < n implies renumbered(a.panes@[i], #[trigger] c.panes@[i], i) by {
        assert(b.panes@.take(n)[i] == b.panes@[i]);
    }
}

/// Putting a filter aside with Ctrl+F and bringing it back with Ctrl+F gives
/// back the panes as they were.
pub proof fn law_filter_toggle_round_trip(a: App, b: App, c: App)
    requires
        a.wf(),
        trim_seq(a.panes@[a.active_pane as int].filter_query@).len() > 0,
        filter_toggled(a, b),
        filter_toggled(b, c),
    ensures
        c.panes@ == a.panes@,
        c.toggled_filter_query is None,
        c.active_pane == a.active_pane,
{
    let k = a.active_pane as int;
    assert(b.panes@[k].filter_query@ =~= Seq::<char>::empty());
    assert(trim_seq(b.panes@[k].filter_query@).len() == 0);
    assert(c.panes@ =~= a.panes@);
}

/// The filter just pushed heads the history, and the history never holds more
/// than `HISTORY_CAP` entries.
pub proof fn law_history_head_and_cap(h: Seq<Seq<char>>, e: Seq<char>)
    ensures
        pushed_history(h, e).len() > 0,
        pushed_history(h, e)[0] == e,
        pushed_history(h, e).len() <= HISTORY_CAP,
{
}

proof fn lemma_filter_no_duplicates(s: Seq<Seq<char>>, e: Seq<char>)
    requires
        s.no_duplicates(),
    ensures
        s.filter(other_than(e)).no_duplicates(),
    decreases s.len(),
{
    reveal_with_fuel(Seq::filter, 1);
    if s.len() > 0 {
        let rest = s.drop_last();
        lemma_filter_no_duplicates(rest, e);
        let f = rest.filter(other_than(e));
        if s.last() != e {
            assert forall|i: int| 0 <= i < f.len() implies f[i] != s.last() by {
                assert(f.contains(f[i]));
                rest.lemma_filter_contains_rev(other_than(e), f[i]);
                let j = choose|j: int| 0 <= j < rest.len() && rest[j] == f[i];
                assert(s[j] == rest[j]);
            }
            assert(s.filter(other_than(e)) =~= f.push(s.last()));
        }
    }
}

/// Pushing a filter whose history held no repeats gives a history without
/// repeats again.
pub proof fn law_history_no_repeats(h: Seq<Seq<char>>, e: Seq<char>)
    requires
        h.no_duplicates(),
    ensures
        pushed_history(h, e).no_duplicates(),
{
    broadcast use vstd::seq_lib::group_filter_ensures;

    let f = h.filter(other_than(e));
    lemma_filter_no_duplicates(h, e);
    assert forall|j: int| 0 <= j < f.len() implies seq![e][0] != f[j] by {
        assert(other_than(e)(f[j]));
    }
    vstd::seq_lib::lemma_no_dup_in_concat(seq![e], f);
    let full = seq![e] + f;
    if full.len() > HISTORY_CAP {
        assert forall|i: int, j: int| 0 <= i < j < HISTORY_CAP implies full.take(HISTORY_CAP as int)[i]
            != full.take(HISTORY_CAP as int)[j] by {
            assert(full[i] != full[j]);
        }
    }
}

/// Pushing the filter that already heads the history changes nothing: entering
/// the same filter twice keeps one entry.
pub proof fn law_history_push_twice(h: Seq<Seq<char>>, e: Seq<char>)
    ensures
        pushed_history(pushed_history(h, e), e) == pushed_history(h, e),
{
    broadcast use vstd::seq_lib::group_filter_ensures;

    let r = pushed_history(h, e);
    let f = h.filter(other_than(e));
    let full = seq![e] + f;
    let t = r.drop_first();
    assert forall|i: int| 0 <= i < t.len() implies t[i] != e by {
        assert(t[i] == full[i + 1]);
        assert(full[i + 1] == f[i]);
        assert(other_than(e)(f[i]));
    }
    assert(r =~= seq![e] + t);
    t.lemma_filter_prepend(e, other_than(e));
    assert(t.filter(other_than(e)) =~= t) by {
        lemma_filter_keeps_all(t, e);
    }
    assert((seq![e] + t).filter(other_than(e)) =~= t);
    assert(seq![e] + r.filter(other_than(e)) =~= r);
}

proof fn lemma_filter_keeps_all(t: Seq<Seq<char>>, e: Seq<char>)
    requires
        forall|i: int| 0 <= i < t.len() ==> t[i] != e,
    ensures
        t.filter(other_than(e)) == t,
    decreases t.len(),
{
    reveal_with_fuel(Seq::filter, 1);
    if t.len() > 0 {
        lemma_filter_keeps_all(t.drop_last(), e);
        assert(t.drop_last().push(t.last()) =~= t);
    }
}

/// No binding among the first `n` of `p` uses `c`.
pub open spec fn chord_unused(p: Seq<(Seq<char>, KeyChord)>, c: KeyChord, n: int) -> bool
    decreases n,
{
    n <= 0 || (p[n - 1].1 != c && chord_unused(p, c, n - 1))
}

/// No two of the first `n` bindings of `p` share a chord.
pub open spec fn chords_distinct(p: Seq<(Seq<char>, KeyChord)>, n: int) -> bool
    decreases n,
{
    n <= 0 || (chord_unused(p, p[n - 1].1, n - 1) && chords_distinct(p, n - 1))
}

proof fn lemma_chord_unused(p: Seq<(Seq<char>, KeyChord)>, c: KeyChord, n: int)
    requires
        chord_unused(p, c, n),
        0 <= n <= p.len(),
    ensures
        forall|j: int| 0 <= j < n ==> (#[trigger] p[j]).1 != c,
    decreases n,
{
    if n > 0 {
        lemma_chord_unused(p, c, n - 1);
    }
}

proof fn lemma_distinct_pairs(p: Seq<(Seq<char>, KeyChord)>, n: int)
    requires
        chords_distinct(p, n),
        0 <= n <= p.len(),
    ensures
        forall|i: int, j: int| 0 <= i < j < n ==> (#[trigger] p[i]).1 != (#[trigger] p[j]).1,
    decreases n,
{
    if n > 0 {
        lemma_distinct_pairs(p, n - 1);
        lemma_chord_unused(p, p[n - 1].1, n - 1);
    }
}

proof fn lemma_names_distinct(p: Seq<(Seq<char>, KeyChord)>, c: KeyChord, k: int)
    requires
        forall|i: int, j: int| 0 <= i < j < p.len() ==> (#[trigger] p[i]).1 != (#[trigger] p[j]).1,
        0 <= k < p.len(),
        p[k].1 == c,
    ensures
        names_bound_to(p, c).len() == 1,
    decreases p.len(),
{
    let q = p.drop_last();
    if k == p.len() - 1 {
        lemma_names_absent(q, c);
    } else {
        assert(q[k] == p[k]);
        assert(p[k].1 != p[p.len() - 1].1);
        lemma_names_distinct(q, c, k);
    }
}

proof fn lemma_names_absent(p: Seq<(Seq<char>, KeyChord)>, c: KeyChord)
    requires
        forall|j: int| 0 <= j < p.len() ==> (#[trigger] p[j]).1 != c,
    ensures
        names_bound_to(p, c).len() == 0,
    decreases p.len(),
{
    if p.len() > 0 {
        let q = p.drop_last();
        assert forall|j: int| 0 <= j < q.len() implies (#[trigger] q[j]).1 != c by {
            assert(q[j] == p[j]);
        }
        lemma_names_absent(q, c);
    }
}

proof fn lemma_no_conflict_warnings(p: Seq<(Seq<char>, KeyChord)>, i: int)
    requires
        forall|a: int, b: int| 0 <= a < b < p.len() ==> (#[trigger] p[a]).1 != (#[trigger] p[b]).1,
        0 <= i <= p.len(),
    ensures
        conflict_warnings(p, i) == Seq::<Seq<char>>::empty(),
    decreases i,
{
    if i > 0 {
        lemma_no_conflict_warnings(p, i - 1);
        lemma_names_distinct(p, p[i - 1].1, i - 1);
    }
}

/// The default bindings share no chord.
pub proof fn lemma_default_chords_distinct()
    ensures
        forall|i: int, j: int|
            0 <= i < j < default_bindings().len() ==> (#[trigger] default_bindings()[i]).1
                != (#[trigger] default_bindings()[j]).1,
{
    let d = default_bindings();
    assert(chords_distinct(d, d.len() as int)) by {
        reveal_with_fuel(chord_unused, 28);
        reveal_with_fuel(chords_distinct, 28);
    }
    lemma_distinct_pairs(d, d.len() as int);
}

/// Without overrides the keymap is the default one and nothing is reported.
pub proof fn law_keymap_without_overrides()
    ensures
        resolved_bindings(Seq::empty()) == default_bindings(),
        entry_warnings(Seq::empty()) + conflict_warnings(
            overrides_applied(Seq::empty()),
            default_bindings().len() as int,
        ) == Seq::<Seq<char>>::empty(),
{
    let d = default_bindings();
    lemma_default_chords_distinct();
    assert(overrides_applied(Seq::empty()) == d);
    assert forall|k: int| 0 <= k < d.len() implies #[trigger] resolved_bindings(Seq::empty())[k] == d[k] by {
        lemma_names_distinct(d, d[k].1, k);
    }
    assert(resolved_bindings(Seq::empty()) =~= d);
    lemma_no_conflict_warnings(d, d.len() as int);
    assert(entry_warnings(Seq::<(Seq<char>, Seq<char>)>::empty()) + Seq::<Seq<char>>::empty() =~= Seq::<Seq<char>>::empty());
}

proof fn lemma_names_two(p: Seq<(Seq<char>, KeyChord)>, c: KeyChord, i: int, j: int)
    requires
        0 <= i < j < p.len(),
        p[i].1 == c,
        p[j].1 == c,
    ensures
        names_bound_to(p, c).len() >= 2,
    decreases p.len(),
{
    let q = p.drop_last();
    assert(q[i] == p[i]);
    if j == p.len() - 1 {
        lemma_names_one(q, c, i);
    } else {
        assert(q[j] == p[j]);
        lemma_names_two(q, c, i, j);
        lemma_names_monotone(p, c);
    }
}

proof fn lemma_names_one(p: Seq<(Seq<char>, KeyChord)>, c: KeyChord, i: int)
    requires
        0 <= i < p.len(),
        p[i].1 == c,
    ensures
        names_bound_to(p, c).len() >= 1,
    decreases p.len(),
{
    let q = p.drop_last();
    if i < p.len() - 1 {
        assert(q[i] == p[i]);
        lemma_names_one(q, c, i);
        lemma_names_monotone(p, c);
    }
}

proof fn lemma_names_monotone(p: Seq<(Seq<char>, KeyChord)>, c: KeyChord)
    requires
        p.len() > 0,
    ensures
        names_bound_to(p, c).len() >= names_bound_to(p.drop_last(), c).len(),
{
}

/// The first index of `p` at or before `i` whose chord is that of `i`.
proof fn lemma_first_with_chord(p: Seq<(Seq<char>, KeyChord)>, i: int) -> (k: int)
    requires
        0 <= i < p.len(),
    ensures
        0 <= k <= i,
        p[k].1 == p[i].1,
        first_with_chord(p, k),
    decreases i,
{
    if first_with_chord(p, i) {
        i
    } else {
        let j = choose|j: int| 0 <= j < i && (#[trigger] p[j]).1 == p[i].1;
        lemma_first_with_chord(p, j)
    }
}

proof fn lemma_conflict_warnings_grow(p: Seq<(Seq<char>, KeyChord)>, m: int, n: int)
    requires
        0 <= m <= n,
    ensures
        conflict_warnings(p, m).len() <= conflict_warnings(p, n).len(),
    decreases n - m,
{
    if m < n {
        lemma_conflict_warnings_grow(p, m, n - 1);
    }
}

/// When two actions end up on one chord, both get their default chord back
/// and a conflict is reported.
pub proof fn law_keymap_conflict_reported(entries: Seq<(Seq<char>, Seq<char>)>, i: int, j: int)
    requires
        0 <= i < j < overrides_applied(entries).len(),
        overrides_applied(entries)[i].1 == overrides_applied(entries)[j].1,
    ensures
        resolved_bindings(entries)[i] == default_bindings()[i],
        resolved_bindings(entries)[j] == default_bindings()[j],
        conflict_warnings(overrides_applied(entries), default_bindings().len() as int).len() > 0,
{
    let p = overrides_applied(entries);
    let c = p[i].1;
    crate::keys::lemma_overrides_shape(entries);
    lemma_names_two(p, c, i, j);
    let k = lemma_first_with_chord(p, i);
    assert(names_bound_to(p, p[k].1).len() > 1);
    assert(conflict_warnings(p, k + 1).len() > 0);
    lemma_conflict_warnings_grow(p, k + 1, p.len() as int);
}

proof fn lemma_of_class_contains(c: Seq<Seq<char>>, t: Seq<char>, k: nat, x: Seq<char>)
    ensures
        of_class(c, t, k).contains(x) <==> (c.contains(x) && match_class(t, lowercase_of(x)) == k),
    decreases c.len(),
{
    broadcast use vstd::seq_lib::group_seq_properties;

    if c.len() > 0 {
        let q = c.drop_last();
        lemma_of_class_contains(q, t, k, x);
        assert(c =~= q.push(c.last()));
        if c.contains(x) && x != c.last() {
            let i = choose|i: int| 0 <= i < c.len() && c[i] == x;
            assert(q[i] == x);
        }
    }
}

/// Ranking keeps exactly the candidates that match what was typed (all of
/// them when nothing was typed): it drops none of those and adds nothing.
pub proof fn law_ranking_keeps_matches(typed: Seq<char>, cands: Seq<Seq<char>>, x: Seq<char>)
    ensures
        ranked(typed, cands).contains(x) <==> (cands.contains(x) && (typed.len() == 0 || match_class(
            lowercase_of(typed),
            lowercase_of(x),
        ) < 3)),
{
    if typed.len() > 0 {
        let t = lowercase_of(typed);
        lemma_of_class_contains(cands, t, 0, x);
        lemma_of_class_contains(cands, t, 1, x);
        lemma_of_class_contains(cands, t, 2, x);
        let a = of_class(cands, t, 0);
        let b = of_class(cands, t, 1);
        let d = of_class(cands, t, 2);
        assert((a + b + d).contains(x) <==> (a.contains(x) || b.contains(x) || d.contains(x))) by {
            if a.contains(x) {
                let i = choose|i: int| 0 <= i < a.len() && a[i] == x;
                assert((a + b + d)[i] == x);
            }
            if b.contains(x) {
                let i = choose|i: int| 0 <= i < b.len() && b[i] == x;
                assert((a + b + d)[a.len() + i] == x);
            }
            if d.contains(x) {
                let i = choose|i: int| 0 <= i < d.len() && d[i] == x;
                assert((a + b + d)[a.len() + b.len() + i] == x);
            }
            if (a + b + d).contains(x) {
                let i = choose|i: int| 0 <= i < (a + b + d).len() && (a + b + d)[i] == x;
                if i < a.len() {
                    assert(a[i] == x);
                } else if i < a.len() + b.len() {
                    assert(b[i - a.len()] == x);
                } else {
                    assert(d[i - a.len() - b.len()] == x);
                }
            }
        }
    }
}


/// Words that are non-empty and hold no whitespace, joined by single spaces,
/// read back as the same words.
proof fn lemma_join_words(words: Seq<Seq<char>>)
    requires
        forall|i: int| 0 <= i < words.len() ==> (#[trigger] words[i]).len() > 0 && !has_ws(words[i]),
    ensures
        ws_tokens(join(words, " "@)) == words,
    decreases words.len(),
{
    if words.len() == 0 {
        assert(ws_tokens(Seq::<char>::empty()) =~= Seq::<Seq<char>>::empty());
    } else if words.len() == 1 {
        let w = words[0];
        lemma_ws_split_word(Seq::<char>::empty(), w);
        assert(Seq::<char>::empty() + w =~= w);
        assert(ws_split(Seq::<char>::empty()).1 + w =~= w);
        assert(ws_tokens(w) =~= words);
    } else {
        let init = words.drop_last();
        let last = words.last();
        assert(last == words[words.len() - 1]);
        lemma_join_words(init);
        let j = join(init, " "@);
        lemma_ws_split_space(j);
        lemma_ws_split_word(j + " "@, last);
        assert(Seq::<char>::empty() + last =~= last);
        assert(ws_tokens(j).push(last) =~= words);
    }
}

/// Moving a task between two panes whose filters are single tags `src` and
/// `dest` rewrites its line so that its words are its old words without `src`,
/// in their order, followed by `dest` unless it was already among them; so
/// the moved task carries `dest` and no longer carries `src`.
pub proof fn law_pane_move_swaps_tag(raw: Seq<char>, src: Seq<char>, dest: Seq<char>)
    requires
        src.len() > 0,
        dest.len() > 0,
        !has_ws(src),
        !has_ws(dest),
        src != dest,
    ensures
        ws_tokens(moved_line(raw, src, dest)) == if words_without(raw, src).contains(dest) {
            words_without(raw, src)
        } else {
            words_without(raw, src).push(dest)
        },
        ws_tokens(moved_line(raw, src, dest)).contains(dest),
        !ws_tokens(moved_line(raw, src, dest)).contains(src),
{
    reveal_strlit(" ");
    broadcast use vstd::seq_lib::group_filter_ensures;
    let toks = ws_tokens(raw);
    let kept = words_without(raw, src);
    lemma_ws_tokens_words(raw);
    assert forall|i: int| 0 <= i < kept.len() implies (#[trigger] kept[i]).len() > 0
        && !has_ws(kept[i]) by {
        assert(kept.contains(kept[i]));
        toks.lemma_filter_contains_rev(differs_from(src), kept[i]);
    }
    assert(!kept.contains(src)) by {
        if kept.contains(src) {
            let i = choose|i: int| 0 <= i < kept.len() && kept[i] == src;
            toks.lemma_filter_pred(differs_from(src), i);
        }
    }
    lemma_join_words(kept);
    let base = join(kept, " "@);
    if kept.contains(dest) {
    } else if base.len() == 0 {
        assert(kept.len() == 0) by {
            if kept.len() > 0 {
                assert(ws_tokens(base).len() > 0);
                assert(base =~= Seq::<char>::empty());
                assert(ws_tokens(Seq::<char>::empty()) =~= Seq::<Seq<char>>::empty());
            }
        }
        lemma_ws_split_word(Seq::<char>::empty(), dest);
        assert(Seq::<char>::empty() + dest =~= dest);
        assert(ws_split(Seq::<char>::empty()).1 + dest =~= dest);
        assert(ws_tokens(dest) =~= kept.push(dest));
        assert(kept.push(dest)[0] == dest);
    } else {
        lemma_ws_split_space(base);
        lemma_ws_split_word(base + " "@, dest);
        assert(Seq::<char>::empty() + dest =~= dest);
        assert(ws_tokens(base + " "@ + dest) =~= kept.push(dest));
        assert(kept.push(dest)[kept.len() as int] == dest);
        assert(!kept.push(dest).contains(src)) by {
            if kept.push(dest).contains(src) {
                let i = choose|i: int| 0 <= i < kept.push(dest).len() && kept.push(dest)[i] == src;
                if i < kept.len() {
                    assert(kept[i] == src);
                }
            }
        }
    }
}


/// Surrounding whitespace and ASCII letter case never change what a chord
/// string denotes: the string reads as its trimmed, ASCII-lower-cased form does.
pub proof fn law_chord_trim_lower(s: Seq<char>)
    ensures
        chord_of(s) == chord_of(ascii_lower_seq(trim_seq(s))),
{
    let t = trim_seq(s);
    let n = ascii_lower_seq(t);
    lemma_trim_ends(s);
    assert forall|i: int| 0 <= i < n.len() implies is_ws(#[trigger] n[i]) == is_ws(t[i]) by {
        assert(n[i] == ascii_lower(t[i]));
    }
    if n.len() > 0 {
        assert(n.last() == n[n.len() - 1]);
        assert(t.last() == t[t.len() - 1]);
    }
    lemma_trim_fixed(n);
    assert(ascii_lower_seq(n) =~= n) by {
        assert forall|i: int| 0 <= i < n.len() implies ascii_lower_seq(n)[i] == n[i] by {
            assert(n[i] == ascii_lower(t[i]));
        }
    }
}


/// In the date picker, one step down and then one step up comes back to the
/// highlighted day when it is not the month's last listed day, and one step up
/// and then one step down comes back when it is not the first.
pub proof fn law_date_step_round_trip(month_year: Seq<char>, d: u32)
    ensures
        ({
            let sugs = suggestions_or_empty(month_year);
            day_position(sugs, d) matches Some(i) && i + 1 < sugs.len() ==> stepped_day(
                sugs,
                stepped_day(sugs, Some(d), true),
                false,
            ) == Some(d)
        }),
        ({
            let sugs = suggestions_or_empty(month_year);
            day_position(sugs, d) matches Some(i) && i > 0 ==> stepped_day(
                sugs,
                stepped_day(sugs, Some(d), false),
                true,
            ) == Some(d)
        }),
{
    let sugs = suggestions_or_empty(month_year);
    lemma_suggestions_increasing(month_year);
    lemma_day_position_bounds(sugs, d);
    if let Some(i) = day_position(sugs, d) {
        if i + 1 < sugs.len() {
            lemma_day_position_of_line(sugs, 31, i + 1);
        }
        if i > 0 {
            lemma_day_position_of_line(sugs, 31, i - 1);
        }
    }
}


/// Grouping by project files a task under a header `+p` for one of its own
/// projects `p`, and which one depends only on the first project on the task's
/// line: tasks whose first projects agree share a header, whatever projects
/// follow (so the header is `+` and the first project). The same holds of
/// contexts, with `@`.
pub proof fn law_group_header_first_tag(t: crate::task::TaskRecord, u: crate::task::TaskRecord)
    ensures
        t.projects@.len() > 0 ==> exists|i: int|
            0 <= i < t.projects@.len() && crate::task::group_key(t, GroupByCategory::Project) == seq!['+']
                + (#[trigger] t.projects@[i])@,
        t.projects@.len() > 0 && u.projects@.len() > 0 && t.projects@[0]@ == u.projects@[0]@
            ==> crate::task::group_key(t, GroupByCategory::Project) == crate::task::group_key(
            u,
            GroupByCategory::Project,
        ),
        t.contexts@.len() > 0 ==> exists|i: int|
            0 <= i < t.contexts@.len() && crate::task::group_key(t, GroupByCategory::Context) == seq!['@']
                + (#[trigger] t.contexts@[i])@,
        t.contexts@.len() > 0 && u.contexts@.len() > 0 && t.contexts@[0]@ == u.contexts@[0]@
            ==> crate::task::group_key(t, GroupByCategory::Context) == crate::task::group_key(
            u,
            GroupByCategory::Context,
        ),
{
    if t.projects@.len() > 0 {
        assert(crate::task::group_key(t, GroupByCategory::Project) == seq!['+'] + t.projects@[0]@);
    }
    if t.contexts@.len() > 0 {
        assert(crate::task::group_key(t, GroupByCategory::Context) == seq!['@'] + t.contexts@[0]@);
    }
}

/// The quick setter never gives a task a tag it already carries: for `@` a
/// task is edited only when none of its contexts equals the tag (ASCII case
/// ignored), for `+` only when none of its projects does; and with a valid tag
/// every existing target lacking it is edited.
pub proof fn law_quick_tag_not_doubled(
    tasks: Seq<crate::task::TaskRecord>,
    trigger: char,
    tok: Seq<char>,
    targets: Seq<usize>,
    r: Seq<(usize, String)>,
)
    requires
        crate::edits::token_edits(tasks, trigger, tok, targets, r),
        trigger == '@' || trigger == '+',
    ensures
        forall|k: int| 0 <= k < r.len() && trigger == '@' ==> forall|i: int|
            0 <= i < tasks[(#[trigger] r[k]).0 as int].contexts@.len() ==> !crate::text::eq_ignore_ascii_case(
                #[trigger] tasks[r[k].0 as int].contexts@[i]@,
                tok,
            ),
        forall|k: int| 0 <= k < r.len() && trigger == '+' ==> forall|i: int|
            0 <= i < tasks[(#[trigger] r[k]).0 as int].projects@.len() ==> !crate::text::eq_ignore_ascii_case(
                #[trigger] tasks[r[k].0 as int].projects@[i]@,
                tok,
            ),
        crate::edits::quick_token(tok) ==> forall|t: usize|
            #![trigger targets.contains(t)]
            targets.contains(t) && t < tasks.len() && (trigger == '@' ==> forall|i: int|
                0 <= i < tasks[t as int].contexts@.len() ==> !crate::text::eq_ignore_ascii_case(
                    #[trigger] tasks[t as int].contexts@[i]@,
                    tok,
                )) && (trigger == '+' ==> forall|i: int|
                0 <= i < tasks[t as int].projects@.len() ==> !crate::text::eq_ignore_ascii_case(
                    #[trigger] tasks[t as int].projects@[i]@,
                    tok,
                )) ==> exists|k: int| 0 <= k < r.len() && (#[trigger] r[k]).0 == t,
{
    assert forall|k: int, i: int|
        0 <= k < r.len() && trigger == '@' && 0 <= i < tasks[(#[trigger] r[k]).0 as int].contexts@.len() implies !crate::text::eq_ignore_ascii_case(
        #[trigger] tasks[r[k].0 as int].contexts@[i]@,
        tok,
    ) by {
        let t = tasks[r[k].0 as int];
        assert(!crate::edits::has_tag(t, trigger, tok));
        assert(crate::edits::tags_of(t, trigger)[i] == t.contexts@[i]@);
    }
    assert forall|k: int, i: int|
        0 <= k < r.len() && trigger == '+' && 0 <= i < tasks[(#[trigger] r[k]).0 as int].projects@.len() implies !crate::text::eq_ignore_ascii_case(
        #[trigger] tasks[r[k].0 as int].projects@[i]@,
        tok,
    ) by {
        let t = tasks[r[k].0 as int];
        assert(!crate::edits::has_tag(t, trigger, tok));
        assert(crate::edits::tags_of(t, trigger)[i] == t.projects@[i]@);
    }
    if crate::edits::quick_token(tok) {
        assert forall|t: usize|
            #![trigger targets.contains(t)]
            targets.contains(t) && t < tasks.len() && (trigger == '@' ==> forall|i: int|
                0 <= i < tasks[t as int].contexts@.len() ==> !crate::text::eq_ignore_ascii_case(
                    #[trigger] tasks[t as int].contexts@[i]@,
                    tok,
                )) && (trigger == '+' ==> forall|i: int|
                0 <= i < tasks[t as int].projects@.len() ==> !crate::text::eq_ignore_ascii_case(
                    #[trigger] tasks[t as int].projects@[i]@,
                    tok,
                )) implies exists|k: int| 0 <= k < r.len() && (#[trigger] r[k]).0 == t by {
            let tk = tasks[t as int];
            assert(!crate::edits::has_tag(tk, trigger, tok)) by {
                if crate::edits::has_tag(tk, trigger, tok) {
                    let i = choose|i: int| 0 <= i < crate::edits::tags_of(tk, trigger).len()
                        && crate::text::eq_ignore_ascii_case(#[trigger] crate::edits::tags_of(tk, trigger)[i], tok);
                    if trigger == '@' {
                        assert(crate::edits::tags_of(tk, trigger)[i] == tk.contexts@[i]@);
                    } else {
                        assert(crate::edits::tags_of(tk, trigger)[i] == tk.projects@[i]@);
                    }
                }
            }
        }
    }
}

/// The English three-letter name of the weekday after the one named `a`.
pub open spec fn day_after_name(a: Seq<char>) -> Seq<char> {
    if a == "Mon"@ {
        "Tue"@
    } else if a == "Tue"@ {
        "Wed"@
    } else if a == "Wed"@ {
        "Thu"@
    } else if a == "Thu"@ {
        "Fri"@
    } else if a == "Fri"@ {
        "Sat"@
    } else if a == "Sat"@ {
        "Sun"@
    } else {
        "Mon"@
    }
}

/// The date picker names weekdays in their order: the day after a date of the
/// same month is named by the weekday that follows (Friday, Saturday, Sunday,
/// Monday, ...); and 1 January 2000 is named a Saturday.
pub proof fn law_weekday_names(y: i32, m: u32, d: u32)
    ensures
        crate::state::valid_date(y as int, m as int, d as int) && crate::state::valid_date(
            y as int,
            m as int,
            d + 1,
        ) ==> crate::state::weekday_abbr(crate::state::weekday_from_monday(y, m, (d + 1) as u32))
            == day_after_name(crate::state::weekday_abbr(crate::state::weekday_from_monday(y, m, d))),
        crate::state::weekday_abbr(crate::state::weekday_from_monday(2000i32, 1u32, 1u32)) == "Sat"@,
{
    reveal_strlit("Mon");
    reveal_strlit("Tue");
    reveal_strlit("Wed");
    reveal_strlit("Thu");
    reveal_strlit("Fri");
    reveal_strlit("Sat");
    reveal_strlit("Sun");
    if crate::state::valid_date(y as int, m as int, d as int) && crate::state::valid_date(y as int, m as int, d + 1) {
        let w = crate::state::weekday_from_monday(y, m, d);
        let w2 = crate::state::weekday_from_monday(y, m, (d + 1) as u32);
        let yy: int = if m < 3 { y - 1 } else { y as int };
        let a: int = yy + yy / 4 - yy / 100 + yy / 400 + crate::state::month_offset(m as int) + d;
        assert(w == ((a % 7 + 6) % 7) as nat);
        assert(w2 == (((a + 1) % 7 + 6) % 7) as nat);
        assert(((a + 1) % 7 + 6) % 7 == ((a % 7 + 6) % 7 + 1) % 7) by (nonlinear_arith);
        assert(w < 7);
        let n1 = crate::state::weekday_abbr(w);
        let n2 = crate::state::weekday_abbr(w2);
        if w == 0 {
            assert(n1 == "Mon"@ && n2 == "Tue"@);
        } else if w == 1 {
            assert(n1 == "Tue"@ && n2 == "Wed"@);
            assert(n1[0] != "Mon"@[0] || n1[1] != "Mon"@[1]);
        } else if w == 2 {
            assert(n1 == "Wed"@ && n2 == "Thu"@);
            assert(n1[0] != "Mon"@[0] || n1[1] != "Mon"@[1]);
            assert(n1[0] != "Tue"@[0] || n1[1] != "Tue"@[1]);
        } else if w == 3 {
            assert(n1 == "Thu"@ && n2 == "Fri"@);
            assert(n1[0] != "Mon"@[0] || n1[1] != "Mon"@[1]);
            assert(n1[0] != "Tue"@[0] || n1[1] != "Tue"@[1]);
            assert(n1[0] != "Wed"@[0] || n1[1] != "Wed"@[1]);
        } else if w == 4 {
            assert(n1 == "Fri"@ && n2 == "Sat"@);
            assert(n1[0] != "Mon"@[0] || n1[1] != "Mon"@[1]);
            assert(n1[0] != "Tue"@[0] || n1[1] != "Tue"@[1]);
            assert(n1[0] != "Wed"@[0] || n1[1] != "Wed"@[1]);
            assert(n1[0] != "Thu"@[0] || n1[1] != "Thu"@[1]);
        } else if w == 5 {
            assert(n1 == "Sat"@ && n2 == "Sun"@);
            assert(n1[0] != "Mon"@[0] || n1[1] != "Mon"@[1]);
            assert(n1[0] != "Tue"@[0] || n1[1] != "Tue"@[1]);
            assert(n1[0] != "Wed"@[0] || n1[1] != "Wed"@[1]);
            assert(n1[0] != "Thu"@[0] || n1[1] != "Thu"@[1]);
            assert(n1[0] != "Fri"@[0] || n1[1] != "Fri"@[1]);
        } else {
            assert(n1 == "Sun"@ && n2 == "Mon"@);
            assert(n1[0] != "Mon"@[0] || n1[1] != "Mon"@[1]);
            assert(n1[0] != "Tue"@[0] || n1[1] != "Tue"@[1]);
            assert(n1[0] != "Wed"@[0] || n1[1] != "Wed"@[1]);
            assert(n1[0] != "Thu"@[0] || n1[1] != "Thu"@[1]);
            assert(n1[0] != "Fri"@[0] || n1[1] != "Fri"@[1]);
            assert(n1[0] != "Sat"@[0] || n1[1] != "Sat"@[1]);
        }
    }
    assert(crate::state::weekday_from_monday(2000i32, 1u32, 1u32) == 5);
}


/// Accepting day `DD` of a date popup for month `YYYY-MM` keeps the line up to
/// the last `due:` (else `t:`) pattern, writes the complete date `YYYY-MM-DD`
/// (month, a dash, day) right after the pattern, and keeps what followed the
/// typed month.
pub proof fn law_date_completion(line: Seq<char>, month_year: Seq<char>, item: Seq<char>)
    requires
        crate::editor::date_scan_ok(line),
    ensures
        crate::editor::accepted_date_line(line, month_year, item) matches Some(x) ==> {
            let (c, q, due) = crate::editor::date_pattern(line)->0;
            let pat = if due {
                "due:"@
            } else {
                "t:"@
            };
            let day = crate::text::first_token(item)->0;
            let at = q + pat.len();
            let end = at + month_year.len() + 1 + day.len();
            &&& x.take(q) == line.take(q)
            &&& x.subrange(q, at) == pat
            &&& x.subrange(at, at + month_year.len()) == month_year
            &&& x[at + month_year.len()] == '-'
            &&& x.subrange(at + month_year.len() + 1, end) == day
            &&& x.skip(end) == line.skip(at + c.len())
        },
{
    if let Some(x) = crate::editor::accepted_date_line(line, month_year, item) {
        let (c, q, due) = crate::editor::date_pattern(line)->0;
        let pat = if due {
            "due:"@
        } else {
            "t:"@
        };
        let day = crate::text::first_token(item)->0;
        let at = q + pat.len();
        let end = at + month_year.len() + 1 + day.len();
        crate::editor::lemma_date_pattern_bounds(line);
        assert(x.take(q) =~= line.take(q));
        assert(x.subrange(q, at) =~= pat);
        assert(x.subrange(at, at + month_year.len()) =~= month_year);
        assert(x.subrange(at + month_year.len() + 1, end) =~= day);
        assert(x.skip(end) =~= line.skip(at + c.len()));
    }
}


/// A string without `sep` splits into itself alone.
proof fn lemma_split_without(a: Seq<char>, sep: char)
    requires
        !a.contains(sep),
    ensures
        crate::text::split_on(a, sep) == seq![a],
{
    crate::text::lemma_last_index_of_bounds(a, sep);
    if let Some(i) = crate::text::last_index_of(a, sep) {
        assert(a[i] == sep);
    }
}

/// `a`, the separator, then `b` (neither holding it) split into `a` and `b`.
proof fn lemma_split_pair(a: Seq<char>, b: Seq<char>, sep: char)
    requires
        !a.contains(sep),
        !b.contains(sep),
    ensures
        crate::text::split_on(a + seq![sep] + b, sep) == seq![a, b],
{
    let x = a + seq![sep] + b;
    crate::text::lemma_last_index_of_bounds(x, sep);
    assert(x[a.len() as int] == sep);
    let i = crate::text::last_index_of(x, sep)->0;
    assert(i == a.len()) by {
        if i < a.len() {
            assert(x[a.len() as int] == sep);
        } else if i > a.len() {
            assert(x[i] == b[i - a.len() - 1]);
            assert(b.contains(b[i - a.len() - 1]));
        }
    }
    assert(x.take(i) =~= a);
    assert(x.skip(i + 1) =~= b);
    lemma_split_without(a, sep);
    assert(seq![a].push(b) =~= seq![a, b]);
}

/// A modifier name, `+` and a normalized key token read as themselves and
/// split into the name and the token.
proof fn lemma_modified_chord_text(mname: Seq<char>, k: Seq<char>)
    requires
        mname.len() > 0,
        !is_ws(mname[0]),
        forall|i: int| 0 <= i < mname.len() ==> ascii_lower(#[trigger] mname[i]) == mname[i],
        !mname.contains('+'),
        k.len() > 0,
        !is_ws(k.last()),
        forall|i: int| 0 <= i < k.len() ==> ascii_lower(#[trigger] k[i]) == k[i],
        !k.contains('+'),
    ensures
        ascii_lower_seq(trim_seq(mname + seq!['+'] + k)) == mname + seq!['+'] + k,
        crate::text::split_on(mname + seq!['+'] + k, '+') == seq![mname, k],
{
    let s = mname + seq!['+'] + k;
    assert(s[0] == mname[0]);
    assert(s.last() == k.last());
    crate::text::lemma_trim_fixed(s);
    assert(ascii_lower_seq(s) =~= s) by {
        assert forall|i: int| 0 <= i < s.len() implies ascii_lower(#[trigger] s[i]) == s[i] by {
            if i < mname.len() {
                assert(s[i] == mname[i]);
            } else if i >= mname.len() + 1 {
                assert(s[i] == k[i - mname.len() - 1]);
            }
        }
    }
    lemma_split_pair(mname, k, '+');
}

/// A normalized key token `k` (trimmed, lower-cased, without `+`) that names a
/// key names it without modifiers; after `alt+`, `ctrl+` or `shift+` it names
/// the same key with exactly that one modifier. So `alt+d` and `ctrl+d`, or
/// `alt+d` and `d`, are different chords.
#[verifier::spinoff_prover]
#[verifier::rlimit(50)]
pub proof fn law_chord_modifier(k: Seq<char>)
    requires
        chord_of(k) is Some,
        !k.contains('+'),
        ascii_lower_seq(trim_seq(k)) == k,
    ensures
        chord_of(k)->0.mods == (crate::keys::KeyModifiers { shift: false, control: false, alt: false, extra: false }),
        chord_of("alt+"@ + k) == Some(
            KeyChord {
                code: chord_of(k)->0.code,
                mods: crate::keys::KeyModifiers { shift: false, control: false, alt: true, extra: false },
            },
        ),
        chord_of("ctrl+"@ + k) == Some(
            KeyChord {
                code: chord_of(k)->0.code,
                mods: crate::keys::KeyModifiers { shift: false, control: true, alt: false, extra: false },
            },
        ),
        chord_of("shift+"@ + k) == Some(
            KeyChord {
                code: chord_of(k)->0.code,
                mods: crate::keys::KeyModifiers { shift: true, control: false, alt: false, extra: false },
            },
        ),
{
    reveal_strlit("alt+");
    reveal_strlit("ctrl+");
    reveal_strlit("shift+");
    reveal_strlit("alt");
    reveal_strlit("ctrl");
    reveal_strlit("shift");
    // `k` is non-empty, with no whitespace at its ends, and lower-casing keeps it.
    let t = trim_seq(k);
    lemma_trim_ends(k);
    assert(k.len() > 0);
    assert forall|i: int| 0 <= i < k.len() implies is_ws(#[trigger] k[i]) == is_ws(t[i]) && ascii_lower(k[i]) == k[i] by {
        assert(k[i] == ascii_lower(t[i]));
    }
    assert(k[0] == ascii_lower(t[0]));
    assert(k.last() == k[k.len() - 1]);
    assert(t.last() == t[t.len() - 1]);
    lemma_split_without(k, '+');
    assert(crate::keys::mods_of(Seq::<Seq<char>>::empty()) == Some(crate::keys::no_mods()));
    let m_alt = "alt"@;
    let m_ctrl = "ctrl"@;
    let m_shift = "shift"@;
    assert(m_alt != m_ctrl) by {
        assert(m_alt[0] != m_ctrl[0]);
    }
    assert(m_shift != m_ctrl) by {
        assert(m_shift[0] != m_ctrl[0]);
    }
    assert(m_alt != m_shift) by {
        assert(m_alt[0] != m_shift[0]);
    }
    assert(!m_alt.contains('+') && !m_ctrl.contains('+') && !m_shift.contains('+'));
    lemma_modified_chord_text(m_alt, k);
    lemma_modified_chord_text(m_ctrl, k);
    lemma_modified_chord_text(m_shift, k);
    assert("alt+"@ + k == m_alt + seq!['+'] + k);
    assert("ctrl+"@ + k == m_ctrl + seq!['+'] + k);
    assert("shift+"@ + k == m_shift + seq!['+'] + k);
    assert(seq![m_alt, k].drop_last() =~= seq![m_alt]);
    assert(seq![m_ctrl, k].drop_last() =~= seq![m_ctrl]);
    assert(seq![m_shift, k].drop_last() =~= seq![m_shift]);
    assert(seq![m_alt].drop_last() =~= Seq::<Seq<char>>::empty());
    assert(seq![m_ctrl].drop_last() =~= Seq::<Seq<char>>::empty());
    assert(seq![m_shift].drop_last() =~= Seq::<Seq<char>>::empty());
    assert(seq![k].drop_last() =~= Seq::<Seq<char>>::empty());
    assert(crate::keys::mods_of(seq![m_alt]) == Some(
        crate::keys::KeyModifiers { shift: false, control: false, alt: true, extra: false },
    ));
    assert(crate::keys::mods_of(seq![m_ctrl]) == Some(
        crate::keys::KeyModifiers { shift: false, control: true, alt: false, extra: false },
    ));
    assert(crate::keys::mods_of(seq![m_shift]) == Some(
        crate::keys::KeyModifiers { shift: true, control: false, alt: false, extra: false },
    ));
}


/// Grouping by priority files tasks with the same priority under one header
/// and tasks with different priorities under different headers; the header of
/// priority `p` shows the letter `p`.
pub proof fn law_group_header_priority(t: crate::task::TaskRecord, u: crate::task::TaskRecord)
    ensures
        t.priority is Some && u.priority is Some ==> (crate::task::group_key(t, GroupByCategory::Priority)
            == crate::task::group_key(u, GroupByCategory::Priority) <==> t.priority == u.priority),
        t.priority matches Some(p) ==> crate::task::group_key(t, GroupByCategory::Priority).contains(p),
{
    if let (Some(p), Some(q)) = (t.priority, u.priority) {
        if p != q {
            assert(crate::task::group_key(t, GroupByCategory::Priority)[1] != crate::task::group_key(
                u,
                GroupByCategory::Priority,
            )[1]);
        }
    }
    if let Some(p) = t.priority {
        assert(crate::task::group_key(t, GroupByCategory::Priority)[1] == p);
    }
}

/// Accepting a suggested tag keeps the line up to and including its last
/// trigger character and puts the tag right after it, dropping what was typed
/// after that trigger.
pub proof fn law_tag_completion(line: Seq<char>, trigger: char, token: Seq<char>)
    ensures
        crate::editor::accepted_token_line(line, trigger, token) matches Some(x) ==> exists|q: int|
            0 <= q < line.len() && line[q] == trigger && (forall|j: int| q < j < line.len() ==> line[j] != trigger)
                && x == line.take(q + 1) + token,
        crate::editor::accepted_token_line(line, trigger, token) is None ==> !line.contains(trigger),
{
    crate::text::lemma_last_index_of_bounds(line, trigger);
    if crate::editor::accepted_token_line(line, trigger, token) is None {
        assert forall|j: int| 0 <= j < line.len() implies line[j] != trigger by {}
    }
}

} // verus!

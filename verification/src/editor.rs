//! The task line editor (adding and editing): tag and date suggestions,
//! accepting them, and saving.
//!
//! The editor widget itself (typing, cursor movement) belongs to the caller;
//! these functions take its line and say what changes.

use vstd::prelude::*;
use crate::app::{App, AppMode};
use crate::keys::{KeyCode, KeyEvent};
use crate::order::{seq_le, sort_strings, sorted_by_le};
use crate::pane_list::{byte_len, chars_before, on_char_boundary, str_byte_len};
use crate::select::task_pos;
use crate::state::{
    AutocompleteMode, AutocompleteState, all_contexts, all_projects, date_suggestions,
    generate_date_suggestions,
};
use crate::filtering::{tag_matches, moved_highlight};
use crate::task::tasks_view;
use crate::text::{
    all_digits, chars_of, first_token, first_token_exec, is_prefix, last_index_of, lowercase_of, occurs_at,
    occurs_at_exec, push_all, push_char, rfind_char, split_char, split_on, string_of, string_of_range,
    strs, to_lowercase, starts_with,
};

verus! {

/// Index of the last occurrence of `p` in `s` (`str::rfind` with a string
/// pattern, counted in characters).
pub open spec fn last_occurrence(s: Seq<char>, p: Seq<char>) -> Option<int>
    decreases s.len(),
{
    if s.len() < p.len() {
        None
    } else if occurs_at(p, s, s.len() - p.len()) {
        Some(s.len() - p.len())
    } else if s.len() == 0 {
        None
    } else {
        last_occurrence(s.drop_last(), p)
    }
}

/// Four ASCII digits, a dash, two ASCII digits (seven bytes, split at `-`).
pub open spec fn month_shape(c: Seq<char>) -> bool {
    let parts = split_on(c, '-');
    &&& parts.len() == 2
    &&& byte_len(parts[0]) == 4
    &&& byte_len(parts[1]) == 2
    &&& all_digits(parts[0])
    &&& all_digits(parts[1])
}

/// The text after the last `pat` in `line`.
pub open spec fn after_pattern(line: Seq<char>, pat: Seq<char>, q: int) -> Seq<char> {
    line.skip(q + pat.len())
}

/// After the last `pat`, the first seven bytes when they read `YYYY-MM`:
/// those characters and the character index of the pattern.
pub open spec fn date_after(line: Seq<char>, pat: Seq<char>) -> Option<(Seq<char>, int)> {
    match last_occurrence(line, pat) {
        Some(q) => {
            let after = after_pattern(line, pat, q);
            if byte_len(after) >= 7 {
                let cand = after.take(chars_before(after, 7));
                if month_shape(cand) {
                    Some((cand, q))
                } else {
                    None
                }
            } else {
                None
            }
        },
        None => None,
    }
}

/// The date being typed after `due:` (else after `t:`): its `YYYY-MM`, the
/// pattern's character index, and whether the pattern is `due:`.
pub open spec fn date_pattern(line: Seq<char>) -> Option<(Seq<char>, int, bool)> {
    match date_after(line, "due:"@) {
        Some((c, q)) => Some((c, q, true)),
        None => match date_after(line, "t:"@) {
            Some((c, q)) => Some((c, q, false)),
            None => None,
        },
    }
}

/// The seven bytes after a pattern are cut between characters (so reading
/// them is defined).
pub open spec fn date_cut_ok(line: Seq<char>, pat: Seq<char>) -> bool {
    match last_occurrence(line, pat) {
        Some(q) => byte_len(after_pattern(line, pat, q)) >= 7 ==> on_char_boundary(after_pattern(line, pat, q), 7),
        None => true,
    }
}

pub open spec fn date_scan_ok(line: Seq<char>) -> bool {
    date_cut_ok(line, "due:"@) && date_cut_ok(line, "t:"@)
}

pub proof fn lemma_last_occurrence_bounds(s: Seq<char>, p: Seq<char>)
    ensures
        last_occurrence(s, p) matches Some(q) ==> 0 <= q && q + p.len() <= s.len() && occurs_at(p, s, q),
    decreases s.len(),
{
    if s.len() >= p.len() && !occurs_at(p, s, s.len() - p.len()) && s.len() > 0 {
        lemma_last_occurrence_bounds(s.drop_last(), p);
        if let Some(q) = last_occurrence(s.drop_last(), p) {
            assert(s.subrange(q, q + p.len()) =~= s.drop_last().subrange(q, q + p.len()));
        }
    }
}

/// The date pattern found in a line lies within it, and the typed month after
/// it too.
pub proof fn lemma_date_pattern_bounds(line: Seq<char>)
    requires
        date_scan_ok(line),
    ensures
        date_pattern(line) matches Some((c, q, due)) ==> {
            let pat = if due {
                "due:"@
            } else {
                "t:"@
            };
            0 <= q && q + pat.len() + c.len() <= line.len()
        },
{
    lemma_last_occurrence_bounds(line, "due:"@);
    lemma_last_occurrence_bounds(line, "t:"@);
    if let Some((c, q, due)) = date_pattern(line) {
        let pat = if due {
            "due:"@
        } else {
            "t:"@
        };
        let after = after_pattern(line, pat, q);
        assert(on_char_boundary(after, 7));
        let k = chars_before(after, 7);
        assert(0 <= k <= after.len());
        assert(c == after.take(k));
    }
}

fn last_occurrence_exec(s: &Vec<char>, p: &Vec<char>) -> (r: Option<usize>)
    ensures
        r matches Some(q) ==> last_occurrence(s@, p@) == Some(q as int),
        r is None ==> last_occurrence(s@, p@) is None,
{
    let mut k: usize = s.len();
    assert(s@.take(k as int) =~= s@);
    while k >= p.len()
        invariant
            k <= s@.len(),
            last_occurrence(s@, p@) == last_occurrence(s@.take(k as int), p@),
        decreases k,
    {
        let i = k - p.len();
        if occurs_at_exec(s, p, i) {
            assert(occurs_at(p@, s@.take(k as int), i as int)) by {
                assert(s@.take(k as int).subrange(i as int, i + p@.len()) =~= s@.subrange(i as int, i + p@.len()));
            }
            return Some(i);
        }
        assert(!occurs_at(p@, s@.take(k as int), i as int)) by {
            assert(s@.take(k as int).subrange(i as int, i + p@.len()) =~= s@.subrange(i as int, i + p@.len()));
        }
        if k == 0 {
            return None;
        }
        assert(s@.take(k as int).drop_last() =~= s@.take(k - 1));
        k -= 1;
    }
    None
}

/// Index of the last occurrence of `p` in `s`.
pub fn last_occurrence_pub(s: &Vec<char>, p: &Vec<char>) -> (r: Option<usize>)
    ensures
        r matches Some(q) ==> last_occurrence(s@, p@) == Some(q as int),
        r is None ==> last_occurrence(s@, p@) is None,
{
    last_occurrence_exec(s, p)
}

fn all_ascii_digits(v: &Vec<char>) -> (r: bool)
    ensures
        r == all_digits(v@),
{
    let mut i: usize = 0;
    while i < v.len()
        invariant
            i <= v@.len(),
            forall|k: int| 0 <= k < i ==> crate::text::is_digit(#[trigger] v@[k]),
        decreases v.len() - i,
    {
        if !('0' <= v[i] && v[i] <= '9') {
            return false;
        }
        i += 1;
    }
    true
}

fn date_after_exec(cs: &Vec<char>, pat: &str) -> (r: Option<(Vec<char>, usize)>)
    requires
        date_cut_ok(cs@, pat@),
    ensures
        match date_after(cs@, pat@) {
            Some((c, q)) => r matches Some((c2, q2)) && c2@ == c && q2 == q,
            None => r is None,
        },
{
    let pv = chars_of(pat);
    let q = match last_occurrence_exec(cs, &pv) {
        Some(q) => q,
        None => {
            return None;
        },
    };
    proof {
        lemma_last_occurrence_bounds(cs@, pv@);
    }
    let n = cs.len();
    assert(q + pv@.len() <= n);
    let plen = pv.len();
    let start: usize = q + plen;
    let after_s = string_of_range(cs, start, cs.len());
    let after = chars_of(after_s.as_str());
    assert(after@ =~= after_pattern(cs@, pat@, q as int));
    let alen = str_byte_len(string_of(&after).as_str());
    if alen < 7 {
        return None;
    }
    let k = match crate::filtering::char_index_at(&after, 7) {
        Some(k) => k,
        None => {
            return None;
        },
    };
    let cand = string_of_range(&after, 0, k);
    let cc = chars_of(cand.as_str());
    assert(cc@ =~= after@.take(k as int));
    let parts = split_char(&cc, '-');
    if parts.len() != 2 {
        return None;
    }
    let l0 = str_byte_len(string_of(&parts[0]).as_str());
    let l1 = str_byte_len(string_of(&parts[1]).as_str());
    if l0 == 4 && l1 == 2 && all_ascii_digits(&parts[0]) && all_ascii_digits(&parts[1]) {
        Some((cc, q))
    } else {
        None
    }
}

fn date_cut_valid(cs: &Vec<char>, pat: &str) -> (r: bool)
    ensures
        r == date_cut_ok(cs@, pat@),
{
    let p = chars_of(pat);
    match last_occurrence_pub(cs, &p) {
        Some(q) => {
            proof {
                lemma_last_occurrence_bounds(cs@, p@);
            }
            assert(q + p@.len() <= cs@.len());
            let n = cs.len();
            let start = q + p.len();
            let after = string_of_range(cs, start, n);
            assert(after@ =~= after_pattern(cs@, pat@, q as int));
            if str_byte_len(after.as_str()) >= 7 {
                let ac = chars_of(after.as_str());
                crate::filtering::char_index_at(&ac, 7).is_some()
            } else {
                true
            }
        },
        None => true,
    }
}

/// The editor line can be scanned: the seven bytes after the last `due:`
/// and after the last `t:` are cut between characters, and the character
/// after the last `@`/`+`/`#` is found at its byte offset (slicing the line
/// there is defined).
pub fn editor_line_valid(line: &str) -> (r: bool)
    ensures
        r == (date_scan_ok(line@) && trigger_read_ok(line@)),
{
    let cs = chars_of(line);
    proof {
        reveal_strlit("due:");
        reveal_strlit("t:");
    }
    let dates = date_cut_valid(&cs, "due:") && date_cut_valid(&cs, "t:");
    let trig = match last_trigger_exec(&cs) {
        Some(q) => {
            let before = string_of_range(&cs, 0, q);
            assert(before@ =~= line@.take(q as int));
            str_byte_len(before.as_str()) < cs.len()
        },
        None => true,
    };
    dates && trig
}

/// The date pattern being typed: `YYYY-MM`, the byte index of the pattern,
/// and whether it is `due:` (else `t:`).
pub fn extract_date_pattern(line: &str) -> (r: Option<(String, usize, bool)>)
    requires
        date_scan_ok(line@),
    ensures
        match date_pattern(line@) {
            Some((c, q, due)) => r matches Some((c2, b, d2)) && c2@ == c && b == byte_len(line@.take(q))
                && d2 == due,
            None => r is None,
        },
{
    let cs = chars_of(line);
    proof {
        reveal_strlit("due:");
        reveal_strlit("t:");
    }
    let found = match date_after_exec(&cs, "due:") {
        Some((c, q)) => Some((c, q, true)),
        None => match date_after_exec(&cs, "t:") {
            Some((c, q)) => Some((c, q, false)),
            None => None,
        },
    };
    match found {
        Some((c, q, due)) => {
            proof {
                lemma_last_occurrence_bounds(cs@, if due { "due:"@ } else { "t:"@ });
            }
            let prefix = string_of_range(&cs, 0, q);
            assert(prefix@ =~= line@.take(q as int));
            let b = str_byte_len(prefix.as_str());
            Some((string_of(&c), b, due))
        },
        None => None,
    }
}

} // verus!

verus! {

/// Index of the last `@` or `+`.
pub open spec fn last_trigger(s: Seq<char>) -> Option<int>
    decreases s.len(),
{
    if s.len() == 0 {
        None
    } else if s.last() == '@' || s.last() == '+' {
        Some(s.len() - 1)
    } else {
        last_trigger(s.drop_last())
    }
}

/// The tags of every task for a trigger: contexts for `@`, projects otherwise.
pub open spec fn every_tag(tasks: Seq<crate::task::TaskRecord>, trigger: char) -> Seq<Seq<char>> {
    if trigger == '@' {
        all_contexts(tasks)
    } else {
        all_projects(tasks)
    }
}

/// `t` lists the strings of `s` once each, in ascending order.
pub open spec fn sorted_unique_of(t: Seq<Seq<char>>, s: Seq<Seq<char>>) -> bool {
    &&& sorted_by_le(t)
    &&& t.no_duplicates()
    &&& t.to_set() == s.to_set()
}

/// The trigger character the editor reads: the character whose index is the
/// byte offset of the last `@` or `+`.
pub open spec fn read_trigger(line: Seq<char>, q: int) -> char {
    line[byte_len(line.take(q)) as int]
}

/// Reading the trigger is defined (the byte offset is a character index).
pub open spec fn trigger_read_ok(line: Seq<char>) -> bool {
    last_trigger(line) matches Some(q) ==> byte_len(line.take(q)) < line.len()
}

/// The popup kind a trigger opens: dates for `#`, tags otherwise.
pub open spec fn popup_mode(trig: char) -> AutocompleteMode {
    if trig == '#' {
        AutocompleteMode::DateAutocomplete
    } else {
        AutocompleteMode::TokenAutocomplete(trig)
    }
}

/// `b` is the editor popup for `line` given the popup `a` shown before.
pub open spec fn editor_popup_ok(
    a: Option<AutocompleteState>,
    b: Option<AutocompleteState>,
    line: Seq<char>,
    tasks: Seq<crate::task::TaskRecord>,
) -> bool {
    let dates = match date_pattern(line) {
        Some((my, _, _)) => match date_suggestions(my) {
            Ok(s) => if s.len() > 0 {
                Some((my, s))
            } else {
                None
            },
            Err(_) => None,
        },
        None => None,
    };
    match dates {
        Some((my, s)) => match a {
            Some(old) => if old.trigger == '#' && old.prefix@ == my {
                b matches Some(n) && strs(n.items) == s && n.selected == (if old.selected < s.len() - 1 {
                    old.selected as int
                } else {
                    s.len() - 1
                }) && n.prefix == old.prefix && n.trigger == old.trigger && n.mode == old.mode
                    && n.focused == old.focused && n.all_items == old.all_items
            } else {
                b matches Some(n) && n.mode == AutocompleteMode::DateAutocomplete && n.trigger == '#'
                    && n.prefix@ == my && strs(n.items) == s && strs(n.all_items) == s && n.selected == 0
                    && !n.focused
            },
            None => b matches Some(n) && n.mode == AutocompleteMode::DateAutocomplete && n.trigger == '#'
                && n.prefix@ == my && strs(n.items) == s && strs(n.all_items) == s && n.selected == 0
                && !n.focused,
        },
        None => match last_trigger(line) {
            None => b is None,
            Some(q) => {
                let trig = read_trigger(line, q);
                let prefix = line.skip(q + 1);
                if prefix.contains(' ') {
                    b is None
                } else {
                    exists|t: Seq<Seq<char>>| #[trigger] sorted_unique_of(t, every_tag(tasks, trig)) && {
                        let m = tag_matches(t, prefix);
                        if m.len() == 0 {
                            b is None
                        } else {
                            match a {
                                Some(old) => if old.trigger == trig && old.prefix@ == prefix {
                                    b matches Some(n) && strs(n.items) == m && n.selected == (if old.selected
                                        < m.len() - 1 {
                                        old.selected as int
                                    } else {
                                        m.len() - 1
                                    }) && n.prefix == old.prefix && n.trigger == old.trigger && n.mode
                                        == old.mode && n.focused == old.focused && n.all_items == old.all_items
                                } else {
                                    b matches Some(n) && n.mode == popup_mode(trig)
                                        && n.trigger == trig && n.prefix@ == prefix && strs(n.items) == m
                                        && strs(n.all_items) == m && n.selected == 0 && !n.focused
                                },
                                None => b matches Some(n) && n.mode == popup_mode(trig)
                                    && n.trigger == trig && n.prefix@ == prefix && strs(n.items) == m
                                    && strs(n.all_items) == m && n.selected == 0 && !n.focused,
                            }
                        }
                    }
                }
            },
        },
    }
}

/// The tags of every task for `trigger`, once each, sorted.
pub fn collect_tokens(tasks: &Vec<crate::task::TaskRecord>, trigger: char) -> (r: Vec<String>)
    ensures
        sorted_unique_of(strs(r), every_tag(tasks@, trigger)),
{
    let all = crate::state::gather_tags(tasks, trigger == '@');
    let ghost pool = strs(all);
    assert(pool == every_tag(tasks@, trigger));
    let sorted = sort_strings(all);
    let ghost sv = strs(sorted);
    proof {
        assert forall|x: Seq<char>| sv.contains(x) <==> pool.contains(x) by {
            vstd::seq_lib::to_multiset_contains(sv, x);
            vstd::seq_lib::to_multiset_contains(pool, x);
            broadcast use vstd::seq_lib::group_to_multiset_ensures;
        }
    }
    let mut out: Vec<String> = Vec::new();
    let mut i: usize = 0;
    while i < sorted.len()
        invariant
            i <= sorted@.len(),
            sv == strs(sorted),
            crate::order::sorted_by_le(sv),
            forall|a: int, b: int| 0 <= a < b < strs(out).len() ==> seq_le(#[trigger] strs(out)[a], #[trigger] strs(out)[b]) && strs(out)[a] != strs(out)[b],
            forall|x: Seq<char>| strs(out).contains(x) <==> sv.take(i as int).contains(x),
            i > 0 ==> strs(out).len() > 0 && strs(out).last() == sv[i - 1],
            i == 0 ==> strs(out).len() == 0,
        decreases sorted.len() - i,
    {
        let skip = out.len() > 0 && sorted[i] == out[out.len() - 1];
        let ghost before = strs(out);
        if !skip {
            out.push(sorted[i].clone());
            proof {
                assert(strs(out) =~= before.push(sv[i as int]));
                assert forall|a: int, b: int| 0 <= a < b < strs(out).len() implies seq_le(strs(out)[a], strs(out)[b]) && strs(out)[a] != strs(out)[b] by {
                    if b == before.len() {
                        if i > 0 {
                            assert(seq_le(sv[i - 1], sv[i as int]));
                            if a < before.len() - 1 {
                                crate::order::lemma_seq_le_trans(before[a], before.last(), sv[i as int]);
                                if before[a] == sv[i as int] {
                                    crate::order::lemma_seq_le_antisym(before[a], before.last());
                                }
                            }
                        }
                    }
                }
            }
        }
        proof {
            assert(sv.take(i + 1) =~= sv.take(i as int).push(sv[i as int]));
            assert forall|x: Seq<char>| strs(out).contains(x) <==> sv.take(i + 1).contains(x) by {
                let t = sv.take(i as int);
                if t.push(sv[i as int]).contains(x) {
                    let k = choose|k: int| 0 <= k < i + 1 && t.push(sv[i as int])[k] == x;
                    if k < i {
                        assert(t[k] == x);
                    } else if skip {
                        assert(before.last() == x);
                        assert(before.contains(x));
                    } else {
                        assert(strs(out).last() == x);
                    }
                }
                if t.contains(x) {
                    let k = choose|k: int| 0 <= k < i && t[k] == x;
                    assert(t.push(sv[i as int])[k] == x);
                }
                if strs(out).contains(x) && !before.contains(x) {
                    assert(x == sv[i as int]);
                    assert(t.push(sv[i as int])[i as int] == x);
                }
                if before.contains(x) {
                    let k = choose|k: int| 0 <= k < before.len() && before[k] == x;
                    assert(strs(out)[k] == x);
                }
            }
        }
        i += 1;
    }
    proof {
        assert(sv.take(sv.len() as int) =~= sv);
        let o = strs(out);
        assert forall|a: int, b: int| 0 <= a < o.len() && 0 <= b < o.len() && a != b implies o[a] != o[b] by {
            if a < b {
                assert(seq_le(strs(out)[a], strs(out)[b]) && strs(out)[a] != strs(out)[b]);
            } else {
                let (x, y) = (b, a);
                assert(0 <= x < y < strs(out).len());
                assert(strs(out)[x] != strs(out)[y]);
            }
        }
        assert(o.to_set() =~= pool.to_set()) by {
            assert forall|x: Seq<char>| o.to_set().contains(x) <==> pool.to_set().contains(x) by {
            }
        }
    }
    out
}

} // verus!

verus! {

fn last_trigger_exec(cs: &Vec<char>) -> (r: Option<usize>)
    ensures
        r matches Some(q) ==> last_trigger(cs@) == Some(q as int) && q < cs@.len(),
        r is None ==> last_trigger(cs@) is None,
{
    let mut k = cs.len();
    assert(cs@.take(k as int) =~= cs@);
    while k > 0
        invariant
            k <= cs@.len(),
            last_trigger(cs@) == last_trigger(cs@.take(k as int)),
        decreases k,
    {
        assert(cs@.take(k as int).drop_last() =~= cs@.take(k - 1));
        assert(cs@.take(k as int).last() == cs@[k - 1]);
        if cs[k - 1] == '@' || cs[k - 1] == '+' {
            return Some(k - 1);
        }
        k -= 1;
    }
    None
}

/// The suggestions for the editor line: days of the month when a `due:` or
/// `t:` date is being typed, else the tags matching the word after the last
/// `@` or `+`. An open popup with the same trigger and prefix keeps its
/// highlight (kept on the list).
fn editor_popup(
    a: Option<AutocompleteState>,
    line: &str,
    tasks: &Vec<crate::task::TaskRecord>,
) -> (r: Option<AutocompleteState>)
    requires
        date_scan_ok(line@),
        trigger_read_ok(line@),
    ensures
        editor_popup_ok(a, r, line@, tasks@),
{
    match extract_date_pattern(line) {
        Some((my, _pos, _due)) => {
            match generate_date_suggestions(my.as_str()) {
                Ok(sugs) => if sugs.len() > 0 {
                    let n = sugs.len();
                    match a {
                        Some(mut old) => if old.trigger == '#' && old.prefix == my {
                            old.items = sugs;
                            old.selected = if old.selected < n - 1 {
                                old.selected
                            } else {
                                n - 1
                            };
                            return Some(old);
                        },
                        None => {},
                    }
                    return Some(AutocompleteState::new('#', my, sugs));
                },
                Err(_) => {},
            }
        },
        None => {},
    }
    let cs = chars_of(line);
    let q = match last_trigger_exec(&cs) {
        Some(q) => q,
        None => {
            return None;
        },
    };
    let n = cs.len();
    assert(q < n);
    let before = string_of_range(&cs, 0, q);
    assert(before@ =~= line@.take(q as int));
    let b = str_byte_len(before.as_str());
    let trig = cs[b];
    let prefix = string_of_range(&cs, q + 1, n);
    assert(prefix@ =~= line@.skip(q + 1));
    let pcs = chars_of(prefix.as_str());
    let mut i: usize = 0;
    let mut space = false;
    while i < pcs.len()
        invariant
            i <= pcs@.len(),
            pcs@ == prefix@,
            space ==> prefix@.contains(' '),
            !space ==> forall|k: int| 0 <= k < i ==> pcs@[k] != ' ',
        decreases pcs.len() - i,
    {
        if pcs[i] == ' ' {
            assert(prefix@[i as int] == ' ');
            space = true;
        }
        i += 1;
    }
    if space {
        return None;
    }
    assert(!prefix@.contains(' '));
    assert(trig == read_trigger(line@, q as int));
    let tokens = collect_tokens(tasks, trig);
    let m = crate::filtering::matching_tags_pub(&tokens, prefix.as_str());
    assert(sorted_unique_of(strs(tokens), every_tag(tasks@, trig)));
    assert(tag_matches(strs(tokens), prefix@) == strs(m));
    if m.len() == 0 {
        return None;
    }
    let n = m.len();
    match a {
        Some(mut old) => if old.trigger == trig && old.prefix == prefix {
            old.items = m;
            old.selected = if old.selected < n - 1 {
                old.selected
            } else {
                n - 1
            };
            return Some(old);
        },
        None => {},
    }
    Some(AutocompleteState::new(trig, prefix, m))
}

impl App {
    /// Recomputes the editor popup for `line` while adding or editing; in
    /// other modes the popup closes.
    pub fn update_autocomplete(&mut self, line: &str)
        requires
            date_scan_ok(line@),
            trigger_read_ok(line@),
        ensures
            !(old(self).mode is Adding || old(self).mode is Editing) ==> *final(self) == (App {
                autocomplete: None,
                ..*old(self)
            }),
            (old(self).mode is Adding || old(self).mode is Editing) ==> *final(self) == (App {
                autocomplete: final(self).autocomplete,
                ..*old(self)
            }) && editor_popup_ok(old(self).autocomplete, final(self).autocomplete, line@, old(self).tasks@),
    {
        match self.mode {
            AppMode::Adding | AppMode::Editing { .. } => {},
            _ => {
                self.autocomplete = None;
                return;
            },
        }
        let mut a: Option<AutocompleteState> = None;
        std::mem::swap(&mut a, &mut self.autocomplete);
        self.autocomplete = editor_popup(a, line, &self.tasks);
    }
}

/// The editor line after accepting the highlighted date `item` (a
/// `"DD Www"` line) of a date popup for month `month_year`.
pub open spec fn accepted_date_line(line: Seq<char>, month_year: Seq<char>, item: Seq<char>) -> Option<Seq<char>> {
    match first_token(item) {
        Some(day) => match date_pattern(line) {
            Some((c, q, due)) => {
                let pat = if due {
                    "due:"@
                } else {
                    "t:"@
                };
                Some(line.take(q) + pat + month_year + seq!['-'] + day + line.skip(q + pat.len() + c.len()))
            },
            None => None,
        },
        None => None,
    }
}

/// The editor line after accepting tag `token` for `trigger`: the line up to
/// and including the last trigger, then the tag.
pub open spec fn accepted_token_line(line: Seq<char>, trigger: char, token: Seq<char>) -> Option<Seq<char>> {
    match last_index_of(line, trigger) {
        Some(q) => Some(line.take(q + 1) + token),
        None => None,
    }
}

impl App {
    /// Accepts the highlighted suggestion into the editor line and closes the
    /// popup; returns the new line when it changed.
    pub fn accept_completion(&mut self, line: &str) -> (r: Option<String>)
        requires
            date_scan_ok(line@),
            old(self).autocomplete matches Some(a) ==> (a.trigger as u32) < 128,
        ensures
            old(self).autocomplete is None ==> *final(self) == *old(self),
            old(self).autocomplete is Some ==> *final(self) == (App { autocomplete: None, ..*old(self) }),
            match completed_line(old(self).autocomplete, line@) {
                Some(x) => r matches Some(s) && s@ == x,
                None => r is None,
            },
    {
        let mut taken: Option<AutocompleteState> = None;
        std::mem::swap(&mut taken, &mut self.autocomplete);
        let a = match taken {
            Some(a) => a,
            None => {
                return None;
            },
        };
        if a.selected >= a.items.len() {
            return None;
        }
        let item = &a.items[a.selected];
        let cs = chars_of(line);
        if a.trigger == '#' {
            let ic = chars_of(item.as_str());
            let day = match first_token_exec(&ic) {
                Some(d) => d,
                None => {
                    return None;
                },
            };
            match extract_date_pattern(line) {
                Some((c, _pos, due)) => {
                    let q = {
                        proof {
                            reveal_strlit("due:");
                            reveal_strlit("t:");
                        }
                        let pv = if due {
                            chars_of("due:")
                        } else {
                            chars_of("t:")
                        };
                        match last_occurrence_exec(&cs, &pv) {
                            Some(q) => q,
                            None => {
                                return None;
                            },
                        }
                    };
                    proof {
                        lemma_last_occurrence_bounds(cs@, if due { "due:"@ } else { "t:"@ });
                    }
                    let pat = if due {
                        "due:"
                    } else {
                        "t:"
                    };
                    let plen: usize = if due {
                        4
                    } else {
                        2
                    };
                    let clen = chars_of(c.as_str()).len();
                    let mut s = string_of_range(&cs, 0, q);
                    push_all(&mut s, pat);
                    push_all(&mut s, a.prefix.as_str());
                    push_char(&mut s, '-');
                    push_all(&mut s, string_of(&day).as_str());
                    proof {
                        let patv = if due { "due:"@ } else { "t:"@ };
                        assert(plen == patv.len());
                        assert(date_after(line@, patv) == Some((c@, q as int))) by {
                            if !due {
                                assert(date_after(line@, "due:"@) is None);
                            }
                        }
                        let after = after_pattern(line@, patv, q as int);
                        assert(byte_len(after) >= 7);
                        assert(on_char_boundary(after, 7));
                        let k = chars_before(after, 7);
                        assert(0 <= k <= after.len());
                        assert(c@ == after.take(k));
                        assert(c@.len() <= after.len());
                        assert(after.len() == cs@.len() - q - plen);
                    }
                    let n = cs.len();
                    assert(clen == c@.len());
                    assert(q + plen + clen <= n);
                    let start = q + plen + clen;
                    if start <= cs.len() {
                        let rest = string_of_range(&cs, start, cs.len());
                        push_all(&mut s, rest.as_str());
                    }
                    assert(s@ =~= accepted_date_line(line@, a.prefix@, item@)->0);
                    Some(s)
                },
                None => None,
            }
        } else {
            match rfind_char(&cs, a.trigger) {
                Some(q) => {
                    let mut s = string_of_range(&cs, 0, q + 1);
                    push_all(&mut s, item.as_str());
                    assert(s@ =~= line@.take(q + 1) + item@);
                    Some(s)
                },
                None => None,
            }
        }
    }
}

} // verus!

verus! {

/// The editor line after accepting the highlighted suggestion of `popup`: a
/// date for `#`, a tag otherwise; none without a highlighted suggestion or
/// when the line holds no trigger to complete.
pub open spec fn completed_line(popup: Option<AutocompleteState>, line: Seq<char>) -> Option<Seq<char>> {
    match popup {
        Some(a) => if a.selected < a.items@.len() {
            let item = a.items@[a.selected as int]@;
            if a.trigger == '#' {
                accepted_date_line(line, a.prefix@, item)
            } else {
                accepted_token_line(line, a.trigger, item)
            }
        } else {
            None
        },
        None => None,
    }
}

/// What a key in the task editor asks of the caller.
pub enum EditorOutcome {
    Nothing,
    /// Insert the first clipboard line into the editor.
    PasteFromClipboard,
    /// Leave the editor without saving (then apply a pending reload).
    ExitEdit,
    /// Save the editor line (`begin_save`).
    Save,
    /// Give the key to the editor.
    Input,
    /// Give the key to the editor, then report the line with `update_autocomplete`.
    InputAndUpdate,
    /// Replace the editor line.
    SetText(String),
    /// Replace the editor line, then give the key to the editor.
    SetTextThenInput(String),
}

/// How a saved line changes the task list.
pub enum SaveKind {
    /// Append the line as a new task.
    Add,
    /// Replace task `idx`; `normalize` says to normalise the line first.
    Edit { idx: usize, normalize: bool },
}

impl App {
    /// Keys of the task editor (adding or editing; `line` is the editor line):
    /// Ctrl+v pastes; Esc closes the popup, else leaves; Enter accepts a
    /// focused suggestion, else saves; Down/Up move in the popup; Tab and
    /// Space accept a focused suggestion; other keys edit the line.
    pub fn handle_editor_key(&mut self, key: &KeyEvent, line: &str) -> (r: EditorOutcome)
        requires
            date_scan_ok(line@),
            old(self).autocomplete matches Some(a) ==> (a.trigger as u32) < 128,
        ensures
            final(self).tasks == old(self).tasks,
            final(self).panes == old(self).panes,
            ({
                let focused = old(self).autocomplete matches Some(a) && a.focused;
                if key.modifiers.control && key.code == KeyCode::Char('v') {
                    r is PasteFromClipboard && *final(self) == *old(self)
                } else if key.code == KeyCode::Esc {
                    if old(self).autocomplete is Some {
                        r is Nothing && *final(self) == (App { autocomplete: None, ..*old(self) })
                    } else {
                        r is ExitEdit && *final(self) == (App { mode: AppMode::Normal, ..*old(self) })
                    }
                } else if key.code == KeyCode::Enter && !focused {
                    r is Save && *final(self) == (App { autocomplete: None, ..*old(self) })
                } else if (key.code == KeyCode::Enter || key.code == KeyCode::Tab || key.code == KeyCode::Char(' ')) && focused {
                    &&& *final(self) == (App { autocomplete: None, ..*old(self) })
                    &&& match completed_line(old(self).autocomplete, line@) {
                        Some(x) => if key.code == KeyCode::Char(' ') {
                            r matches EditorOutcome::SetTextThenInput(t) && t@ == x
                        } else {
                            r matches EditorOutcome::SetText(t) && t@ == x
                        },
                        None => if key.code == KeyCode::Char(' ') {
                            r is Input
                        } else {
                            r is Nothing
                        },
                    }
                } else if key.code == KeyCode::Down && old(self).autocomplete is Some {
                    let a = old(self).autocomplete->0;
                    &&& r is Nothing
                    &&& *final(self) == (App {
                        autocomplete: Some(
                            AutocompleteState {
                                focused: true,
                                selected: moved_highlight(a.selected, a.items@.len(), true),
                                ..a
                            },
                        ),
                        ..*old(self)
                    })
                } else if key.code == KeyCode::Up && focused {
                    let a = old(self).autocomplete->0;
                    &&& r is Nothing
                    &&& *final(self) == (App {
                        autocomplete: Some(
                            AutocompleteState { selected: moved_highlight(a.selected, a.items@.len(), false), ..a },
                        ),
                        ..*old(self)
                    })
                } else if key.code == KeyCode::Down || key.code == KeyCode::Up {
                    r is Input && *final(self) == *old(self)
                } else {
                    r is InputAndUpdate && *final(self) == *old(self)
                }
            }),
    {
        let focused = match &self.autocomplete {
            Some(a) => a.focused,
            None => false,
        };
        if key.modifiers.control && key.code == KeyCode::Char('v') {
            return EditorOutcome::PasteFromClipboard;
        }
        if key.code == KeyCode::Esc {
            if self.autocomplete.is_some() {
                self.autocomplete = None;
                return EditorOutcome::Nothing;
            }
            self.mode = AppMode::Normal;
            return EditorOutcome::ExitEdit;
        }
        if (key.code == KeyCode::Enter || key.code == KeyCode::Tab || key.code == KeyCode::Char(' ')) && focused {
            let nl = self.accept_completion(line);
            if key.code == KeyCode::Char(' ') {
                return match nl {
                    Some(s) => EditorOutcome::SetTextThenInput(s),
                    None => EditorOutcome::Input,
                };
            }
            return match nl {
                Some(s) => EditorOutcome::SetText(s),
                None => EditorOutcome::Nothing,
            };
        }
        if key.code == KeyCode::Enter {
            self.autocomplete = None;
            return EditorOutcome::Save;
        }
        if key.code == KeyCode::Down || key.code == KeyCode::Up {
            let down = key.code == KeyCode::Down;
            let mut taken: Option<AutocompleteState> = None;
            std::mem::swap(&mut taken, &mut self.autocomplete);
            match taken {
                Some(mut a) => {
                    if down || a.focused {
                        if down {
                            a.focused = true;
                        }
                        let n = a.items.len();
                        a.selected = if down {
                            if a.selected < usize::MAX && a.selected + 1 < n {
                                a.selected + 1
                            } else if n > 0 {
                                n - 1
                            } else {
                                0
                            }
                        } else if a.selected > 0 {
                            a.selected - 1
                        } else {
                            0
                        };
                        self.autocomplete = Some(a);
                        return EditorOutcome::Nothing;
                    }
                    self.autocomplete = Some(a);
                    return EditorOutcome::Input;
                },
                None => {
                    return EditorOutcome::Input;
                },
            }
        }
        EditorOutcome::InputAndUpdate
    }

    /// Starts saving the editor line: an undo snapshot, then what the caller
    /// does with the line. Outside the editor, nothing.
    pub fn begin_save(&mut self) -> (r: Option<SaveKind>)
        ensures
            old(self).mode == AppMode::Adding ==> r matches Some(SaveKind::Add),
            old(self).mode matches AppMode::Editing { original_idx } ==> r matches Some(SaveKind::Edit { idx, normalize })
                && idx == original_idx && normalize == old(self).config.normalize_edit,
            (old(self).mode is Adding || old(self).mode is Editing) ==> *final(self) == (App {
                undo_entry: final(self).undo_entry,
                ..*old(self)
            }) && (final(self).undo_entry matches Some(e) && tasks_view(e.tasks@) == tasks_view(old(self).tasks@)),
            !(old(self).mode is Adding || old(self).mode is Editing) ==> r is None && *final(self) == *old(self),
    {
        match self.mode {
            AppMode::Adding => {
                self.push_undo_entry();
                Some(SaveKind::Add)
            },
            AppMode::Editing { original_idx } => {
                self.push_undo_entry();
                Some(SaveKind::Edit { idx: original_idx, normalize: self.config.normalize_edit })
            },
            _ => None,
        }
    }

    /// After the saved line was stored and the views rebuilt: the cursor on
    /// the first row of task `target` (else row 0), Normal mode, no popup.
    pub fn finish_save(&mut self, target: usize)
        ensures
            *final(self) == (App {
                selected: match task_pos(old(self).display_rows@, target) {
                    Some(k) => k as usize,
                    None => 0,
                },
                mode: AppMode::Normal,
                autocomplete: None,
                ..*old(self)
            }),
    {
        let found = crate::rebuild::find_row(&self.display_rows, target);
        self.selected = match found {
            Some(k) => k,
            None => 0,
        };
        self.mode = AppMode::Normal;
        self.autocomplete = None;
    }
}

} // verus!

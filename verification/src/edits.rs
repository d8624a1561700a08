//! Changes to tasks decided here and carried out by the caller: completing,
//! copying and pasting, quick tags, bulk append, deleting and archiving.
//!
//! Re-parsing a changed line and writing the todo file are the caller's part;
//! these functions say which tasks change and what their new lines are.

use vstd::prelude::*;
use crate::app::{App, AppMode};
use crate::config::sibling_done;
use crate::keys::{join, join_exec};
use crate::pickers::strictly_descending;
use crate::select::row_task;
use crate::state::DisplayRow;
use crate::task::{TaskRecord, tasks_view};
use crate::text::{
    chars_of, dec, dec_string, eq_ignore_ascii_case, eq_ignore_case, push_all, push_char, split_char,
    split_on, string_of, strs, trim, trim_end_seq, trim_seq, is_ws, char_is_ws,
};

verus! {

/// `s` without one trailing carriage return.
pub open spec fn strip_cr(s: Seq<char>) -> Seq<char> {
    if s.len() > 0 && s.last() == '\r' {
        s.drop_last()
    } else {
        s
    }
}

/// The lines of `s` (split at `\n`, a `\r` before it dropped) that hold more
/// than whitespace.
pub open spec fn pasted_lines(s: Seq<char>) -> Seq<Seq<char>> {
    split_on(s, '\n').map_values(|l: Seq<char>| strip_cr(l)).filter(|l: Seq<char>| trim_seq(l).len() > 0)
}

/// The task lines a paste adds.
pub fn paste_lines(text: &str) -> (r: Vec<String>)
    ensures
        strs(r) == pasted_lines(text@),
{
    let cs = chars_of(text);
    let parts = split_char(&cs, '\n');
    let ghost mapped = split_on(text@, '\n').map_values(|l: Seq<char>| strip_cr(l));
    let ghost keep = |l: Seq<char>| trim_seq(l).len() > 0;
    let mut out: Vec<String> = Vec::new();
    let mut i: usize = 0;
    assert(strs(out) =~= mapped.take(0).filter(keep)) by {
        reveal_with_fuel(Seq::filter, 1);
    }
    while i < parts.len()
        invariant
            i <= parts@.len(),
            parts@.len() == mapped.len(),
            forall|k: int| 0 <= k < parts@.len() ==> strip_cr((#[trigger] parts@[k])@) == mapped[k],
            keep == (|l: Seq<char>| trim_seq(l).len() > 0),
            strs(out) == mapped.take(i as int).filter(keep),
        decreases parts.len() - i,
    {
        let p = &parts[i];
        let mut line = string_of(p);
        if p.len() > 0 && p[p.len() - 1] == '\r' {
            let mut q: Vec<char> = Vec::new();
            let mut k: usize = 0;
            while k + 1 < p.len()
                invariant
                    k + 1 <= p@.len(),
                    q@ == p@.take(k as int),
                decreases p.len() - k,
            {
                q.push(p[k]);
                k += 1;
                assert(q@ =~= p@.take(k as int));
            }
            assert(q@ =~= p@.drop_last());
            line = string_of(&q);
        }
        assert(line@ == mapped[i as int]);
        let t = trim(line.as_str());
        let ghost before = strs(out);
        let nonblank = !t.as_str().is_empty();
        if nonblank {
            out.push(line);
            assert(strs(out) =~= before.push(mapped[i as int]));
        }
        proof {
            reveal_with_fuel(Seq::filter, 1);
            let m = mapped.take(i + 1);
            assert(m.drop_last() =~= mapped.take(i as int));
            assert(m.last() == mapped[i as int]);
            assert(nonblank == keep(mapped[i as int]));
        }
        i += 1;
    }
    proof {
        assert(mapped.take(parts@.len() as int) =~= mapped);
    }
    out
}

/// `pasted 1 task` or `pasted N tasks`.
pub open spec fn count_message(verb: Seq<char>, n: nat) -> Seq<char> {
    if n == 1 {
        verb + " 1 task"@
    } else {
        verb + " "@ + dec(n) + " tasks"@
    }
}

/// The status message after copying or pasting `n` tasks.
pub fn count_message_exec(verb: &str, n: usize) -> (r: String)
    ensures
        r@ == count_message(verb@, n as nat),
{
    let mut s = String::from_str(verb);
    if n == 1 {
        push_all(&mut s, " 1 task");
        proof {
            reveal_strlit(" 1 task");
        }
    } else {
        push_all(&mut s, " ");
        let d = dec_string(n as u64);
        push_all(&mut s, d.as_str());
        push_all(&mut s, " tasks");
        proof {
            reveal_strlit(" ");
            reveal_strlit(" tasks");
        }
    }
    s
}

/// A character a quick-setter tag may hold.
pub open spec fn quick_char(c: char) -> bool {
    ('a' <= c <= 'z') || ('A' <= c <= 'Z') || ('0' <= c <= '9') || c == '-' || c == '/'
}

/// A tag a quick setter accepts: not blank, every character allowed.
pub open spec fn quick_token(t: Seq<char>) -> bool {
    trim_seq(t).len() > 0 && forall|i: int| 0 <= i < t.len() ==> quick_char(#[trigger] t[i])
}

impl App {
    pub fn is_valid_quick_setter_char(c: char) -> (r: bool)
        ensures
            r == quick_char(c),
    {
        ('a' <= c && c <= 'z') || ('A' <= c && c <= 'Z') || ('0' <= c && c <= '9') || c == '-' || c
            == '/'
    }

    pub fn is_valid_quick_setter_token(token: &str) -> (r: bool)
        ensures
            r == quick_token(token@),
    {
        let t = trim(token);
        if t.as_str().is_empty() {
            return false;
        }
        let cs = chars_of(token);
        let mut i: usize = 0;
        while i < cs.len()
            invariant
                i <= cs@.len(),
                cs@ == token@,
                forall|k: int| 0 <= k < i ==> quick_char(#[trigger] cs@[k]),
            decreases cs.len() - i,
        {
            if !App::is_valid_quick_setter_char(cs[i]) {
                return false;
            }
            i += 1;
        }
        true
    }
}

/// The line of a task with a tag added: the line without trailing whitespace,
/// a space, the trigger and the tag.
pub open spec fn tagged_line(raw: Seq<char>, trigger: char, token: Seq<char>) -> Seq<char> {
    trim_end_seq(raw) + seq![' ', trigger] + token
}

/// The task carries the tag already (ASCII case ignored).
pub open spec fn has_tag(t: TaskRecord, trigger: char, token: Seq<char>) -> bool {
    (trigger != '@' && trigger != '+') || exists|i: int| 0 <= i < tags_of(t, trigger).len()
        && eq_ignore_ascii_case(#[trigger] tags_of(t, trigger)[i], token)
}

/// The contexts of a task for `@`, its projects otherwise.
pub open spec fn tags_of(t: TaskRecord, trigger: char) -> Seq<Seq<char>> {
    if trigger == '@' {
        strs(t.contexts)
    } else {
        strs(t.projects)
    }
}

fn has_tag_exec(t: &TaskRecord, trigger: char, token: &str) -> (r: bool)
    ensures
        r == has_tag(*t, trigger, token@),
{
    if trigger != '@' && trigger != '+' {
        return true;
    }
    let tags = if trigger == '@' {
        &t.contexts
    } else {
        &t.projects
    };
    let ghost tv = tags_of(*t, trigger);
    assert(strs(*tags) == tv);
    let mut i: usize = 0;
    while i < tags.len()
        invariant
            i <= tags@.len(),
            strs(*tags) == tv,
            tv == tags_of(*t, trigger),
            trigger == '@' || trigger == '+',
            forall|k: int| 0 <= k < i ==> !eq_ignore_ascii_case(#[trigger] tv[k], token@),
        decreases tags.len() - i,
    {
        if eq_ignore_case(tags[i].as_str(), token) {
            assert(eq_ignore_ascii_case(tags_of(*t, trigger)[i as int], token@));
            return true;
        }
        i += 1;
    }
    false
}

/// The trailing whitespace of `s` removed.
fn trim_end_string(s: &str) -> (r: String)
    ensures
        r@ == trim_end_seq(s@),
{
    let cs = chars_of(s);
    let mut k = cs.len();
    assert(cs@.take(k as int) =~= cs@);
    while k > 0 && char_is_ws(cs[k - 1])
        invariant
            k <= cs@.len(),
            cs@ == s@,
            trim_end_seq(s@) == trim_end_seq(cs@.take(k as int)),
        decreases k,
    {
        assert(cs@.take(k as int).drop_last() =~= cs@.take(k - 1));
        assert(cs@.take(k as int).last() == cs@[k - 1]);
        k -= 1;
    }
    let mut out: Vec<char> = Vec::new();
    let mut j: usize = 0;
    while j < k
        invariant
            j <= k <= cs@.len(),
            out@ == cs@.take(j as int),
        decreases k - j,
    {
        out.push(cs[j]);
        j += 1;
        assert(out@ =~= cs@.take(j as int));
    }
    proof {
        let t = cs@.take(k as int);
        if k > 0 {
            assert(t.last() == cs@[k - 1]);
        }
        assert(trim_end_seq(t) == t);
    }
    string_of(&out)
}

/// The new lines a tag brings to `targets`: one per target task that exists
/// and lacks the tag (when the tag is valid), the tag appended to its line,
/// highest index first.
pub open spec fn token_edits(
    tasks: Seq<TaskRecord>,
    trigger: char,
    tok: Seq<char>,
    targets: Seq<usize>,
    r: Seq<(usize, String)>,
) -> bool {
    &&& forall|k: int| 0 <= k < r.len() ==> {
        let (t, line) = #[trigger] r[k];
        &&& t < tasks.len()
        &&& targets.contains(t)
        &&& !has_tag(tasks[t as int], trigger, tok)
        &&& line@ == tagged_line(tasks[t as int].raw@, trigger, tok)
    }
    &&& quick_token(tok) ==> forall|t: usize| targets.contains(t) && t < tasks.len() && !has_tag(tasks[t as int], trigger, tok)
        ==> exists|k: int| 0 <= k < r.len() && (#[trigger] r[k]).0 == t
    &&& strictly_descending(r.map_values(|e: (usize, String)| e.0))
}

impl App {
    /// Adds `trigger` + `token` (trimmed) to each target task that lacks it
    /// (targets taken highest first, each once). When some task changes, takes
    /// an undo snapshot and reports `added <trigger><token>`. Then clears the
    /// marks, the anchor and disjoint mode. Returns the new lines (before
    /// normalisation) for the caller to parse and save. An invalid tag changes
    /// nothing at all.
    pub fn apply_token_to_tasks(&mut self, trigger: char, token: &str, targets: Vec<usize>) -> (r: Vec<(usize, String)>)
        ensures
            *final(self) == (App {
                selected_tasks: final(self).selected_tasks,
                selection_anchor: final(self).selection_anchor,
                disjoint_select: final(self).disjoint_select,
                undo_entry: final(self).undo_entry,
                runtime_warnings: final(self).runtime_warnings,
                ..*old(self)
            }),
            !quick_token(trim_seq(token@)) ==> r@.len() == 0 && *final(self) == *old(self),
            quick_token(trim_seq(token@)) ==> final(self).selected_tasks@ == Set::<usize>::empty()
                && final(self).selection_anchor is None && !final(self).disjoint_select,
            token_edits(old(self).tasks@, trigger, trim_seq(token@), targets@, r@),
            r@.len() > 0 ==> (final(self).undo_entry matches Some(e) && tasks_view(e.tasks@) == tasks_view(
                old(self).tasks@,
            )) && strs(final(self).runtime_warnings) == strs(old(self).runtime_warnings).push(
                "added "@ + seq![trigger] + trim_seq(token@),
            ),
            r@.len() == 0 ==> final(self).undo_entry == old(self).undo_entry && final(self).runtime_warnings
                == old(self).runtime_warnings,
    {
        let tok = trim(token);
        let mut edits: Vec<(usize, String)> = Vec::new();
        if !App::is_valid_quick_setter_token(tok.as_str()) {
            return edits;
        }
        {
            let ordered = crate::pickers::descending_unique(&targets);
            let mut i: usize = 0;
            while i < ordered.len()
                invariant
                    i <= ordered@.len(),
                    strictly_descending(ordered@),
                    forall|t: usize| ordered@.contains(t) <==> targets@.contains(t),
                    tok@ == trim_seq(token@),
                    forall|k: int| 0 <= k < edits@.len() ==> {
                        let (t, line) = #[trigger] edits@[k];
                        &&& t < self.tasks@.len()
                        &&& targets@.contains(t)
                        &&& !has_tag(self.tasks@[t as int], trigger, tok@)
                        &&& line@ == tagged_line(self.tasks@[t as int].raw@, trigger, tok@)
                    },
                    forall|j: int| 0 <= j < i ==> (ordered@[j] < self.tasks@.len() && !has_tag(
                        self.tasks@[ordered@[j] as int],
                        trigger,
                        tok@,
                    )) ==> exists|k: int| 0 <= k < edits@.len() && (#[trigger] edits@[k]).0 == ordered@[j],
                    strictly_descending(edits@.map_values(|e: (usize, String)| e.0)),
                    forall|k: int| 0 <= k < edits@.len() ==> exists|j: int| 0 <= j < i && (#[trigger] edits@[k]).0 == ordered@[j],
                decreases ordered.len() - i,
            {
                let t = ordered[i];
                if t < self.tasks.len() && !has_tag_exec(&self.tasks[t], trigger, tok.as_str()) {
                    let mut line = trim_end_string(self.tasks[t].raw.as_str());
                    push_char(&mut line, ' ');
                    push_char(&mut line, trigger);
                    push_all(&mut line, tok.as_str());
                    let ghost before = edits@;
                    proof {
                        assert(targets@.contains(t)) by {
                            assert(ordered@.contains(t));
                        }
                    }
                    edits.push((t, line));
                    proof {
                        assert(line@ =~= tagged_line(self.tasks@[t as int].raw@, trigger, tok@));
                        let ids = edits@.map_values(|e: (usize, String)| e.0);
                        assert(ids =~= before.map_values(|e: (usize, String)| e.0).push(t));
                        assert forall|a: int, b: int| 0 <= a < b < ids.len() implies ids[a] > ids[b] by {
                            if b == ids.len() - 1 {
                                let j = choose|j: int| 0 <= j < i && (#[trigger] edits@[a]).0 == ordered@[j];
                                assert(ordered@[j] > ordered@[i as int]);
                            }
                        }
                        assert(edits@[edits@.len() - 1].0 == ordered@[i as int]);
                        assert forall|k: int| 0 <= k < edits@.len() implies exists|j: int| 0 <= j < i + 1 && (#[trigger] edits@[k]).0 == ordered@[j] by {
                            if k < before.len() {
                                let j = choose|j: int| 0 <= j < i && (#[trigger] before[k]).0 == ordered@[j];
                                assert(edits@[k] == before[k]);
                            } else {
                                assert(edits@[k].0 == ordered@[i as int]);
                            }
                        }
                        assert forall|j: int| 0 <= j < i + 1 && (ordered@[j] < self.tasks@.len() && !has_tag(
                            self.tasks@[ordered@[j] as int],
                            trigger,
                            tok@,
                        )) implies exists|k: int| 0 <= k < edits@.len() && (#[trigger] edits@[k]).0 == ordered@[j] by {
                            if j < i {
                                let k = choose|k: int| 0 <= k < before.len() && (#[trigger] before[k]).0 == ordered@[j];
                                assert(edits@[k] == before[k]);
                            } else {
                                assert(edits@[edits@.len() - 1].0 == ordered@[j]);
                            }
                        }
                    }
                }
                i += 1;
            }
            proof {
                assert forall|t: usize| targets@.contains(t) && t < self.tasks@.len() && !has_tag(
                    self.tasks@[t as int],
                    trigger,
                    tok@,
                ) implies exists|k: int| 0 <= k < edits@.len() && (#[trigger] edits@[k]).0 == t by {
                    assert(ordered@.contains(t));
                    let j = choose|j: int| 0 <= j < ordered@.len() && ordered@[j] == t;
                }
            }
        }
        if edits.len() > 0 {
            self.push_undo_entry();
            let mut msg = String::from_str("added ");
            proof {
                reveal_strlit("added ");
            }
            push_char(&mut msg, trigger);
            push_all(&mut msg, tok.as_str());
            assert(msg@ =~= "added "@ + seq![trigger] + tok@);
            let ghost before = strs(self.runtime_warnings);
            self.runtime_warnings.push(msg);
            assert(strs(self.runtime_warnings) =~= before.push("added "@ + seq![trigger] + tok@));
        }
        self.selected_tasks.clear();
        self.selection_anchor = None;
        self.disjoint_select = false;
        edits
    }
}

} // verus!

verus! {

/// The marked tasks that exist and are not completed, each once.
pub open spec fn open_marked(a: App) -> Set<usize> {
    a.selected_tasks@.filter(|t: usize| t < a.tasks@.len() && !a.tasks@[t as int].completed)
}

/// The line of a task with `text` appended: the line without trailing
/// whitespace, a space, the text.
pub open spec fn appended_line(raw: Seq<char>, text: Seq<char>) -> Seq<char> {
    trim_end_seq(raw) + " "@ + text
}

/// A task line with `text` appended.
pub fn append_line(raw: &str, text: &str) -> (r: String)
    ensures
        r@ == appended_line(raw@, text@),
{
    let mut s = trim_end_string(raw);
    push_char(&mut s, ' ');
    push_all(&mut s, text);
    proof {
        reveal_strlit(" ");
        assert(s@ =~= appended_line(raw@, text@));
    }
    s
}

/// The new contents of the done file: the existing contents without trailing
/// newlines, a newline, the archived lines joined by newlines, a final newline
/// (just the lines and a newline when the file was empty).
pub open spec fn done_content(existing: Seq<char>, lines: Seq<Seq<char>>) -> Seq<char> {
    let appended = join(lines, "\n"@);
    if existing.len() == 0 {
        appended + "\n"@
    } else {
        trim_newlines_end(existing) + "\n"@ + appended + "\n"@
    }
}

/// `s` without trailing `\n` characters.
pub open spec fn trim_newlines_end(s: Seq<char>) -> Seq<char>
    decreases s.len(),
{
    if s.len() > 0 && s.last() == '\n' {
        trim_newlines_end(s.drop_last())
    } else {
        s
    }
}

/// The done file after archiving `lines` into a file holding `existing`.
pub fn done_file_content(existing: &str, lines: &Vec<String>) -> (r: String)
    ensures
        r@ == done_content(existing@, strs(*lines)),
{
    let appended = join_exec(lines, "\n");
    proof {
        reveal_strlit("\n");
    }
    if existing.is_empty() {
        let mut s = appended;
        push_char(&mut s, '\n');
        assert(s@ =~= done_content(existing@, strs(*lines)));
        return s;
    }
    let cs = chars_of(existing);
    let mut k = cs.len();
    assert(cs@.take(k as int) =~= cs@);
    while k > 0 && cs[k - 1] == '\n'
        invariant
            k <= cs@.len(),
            cs@ == existing@,
            trim_newlines_end(existing@) == trim_newlines_end(cs@.take(k as int)),
        decreases k,
    {
        assert(cs@.take(k as int).drop_last() =~= cs@.take(k - 1));
        assert(cs@.take(k as int).last() == cs@[k - 1]);
        k -= 1;
    }
    let mut out: Vec<char> = Vec::new();
    let mut j: usize = 0;
    while j < k
        invariant
            j <= k <= cs@.len(),
            out@ == cs@.take(j as int),
        decreases k - j,
    {
        out.push(cs[j]);
        j += 1;
        assert(out@ =~= cs@.take(j as int));
    }
    proof {
        let t = cs@.take(k as int);
        if k > 0 {
            assert(t.last() == cs@[k - 1]);
        }
        assert(trim_newlines_end(t) == t);
    }
    let mut s = string_of(&out);
    push_char(&mut s, '\n');
    push_all(&mut s, appended.as_str());
    push_char(&mut s, '\n');
    assert(s@ =~= done_content(existing@, strs(*lines)));
    s
}

/// `Marked N task(s) done`.
pub open spec fn marked_message(n: nat) -> Seq<char> {
    "Marked "@ + dec(n) + " task(s) done"@
}

/// `Archived N task(s)  (Ctrl+Z to restore to todo.txt)`.
pub open spec fn archived_message(n: nat) -> Seq<char> {
    "Archived "@ + dec(n) + " task(s)  (Ctrl+Z to restore to todo.txt)"@
}

fn framed(head: &str, n: usize, tail: &str) -> (r: String)
    ensures
        r@ == head@ + dec(n as nat) + tail@,
{
    let mut s = String::from_str(head);
    let d = dec_string(n as u64);
    push_all(&mut s, d.as_str());
    push_all(&mut s, tail);
    s
}

impl App {
    /// Before marking the marked tasks done: an undo snapshot; returns the
    /// marked tasks that exist and are open, each once, for the caller to
    /// complete and save.
    pub fn begin_bulk_mark_done(&mut self) -> (r: Vec<usize>)
        ensures
            *final(self) == (App { undo_entry: final(self).undo_entry, ..*old(self) }),
            final(self).undo_entry matches Some(e) && tasks_view(e.tasks@) == tasks_view(old(self).tasks@),
            r@.to_set() == open_marked(*old(self)),
            r@.no_duplicates(),
    {
        self.push_undo_entry();
        let v = self.selected_tasks.to_vec();
        let mut r: Vec<usize> = Vec::new();
        let mut i: usize = 0;
        while i < v.len()
            invariant
                i <= v@.len(),
                v@.no_duplicates(),
                r@.no_duplicates(),
                forall|t: usize| r@.contains(t) <==> (v@.take(i as int).contains(t) && t < self.tasks@.len()
                    && !self.tasks@[t as int].completed),
            decreases v.len() - i,
        {
            let t = v[i];
            let ghost before = r@;
            proof {
                assert(v@.take(i + 1) =~= v@.take(i as int).push(t));
                assert(!v@.take(i as int).contains(t)) by {
                    if v@.take(i as int).contains(t) {
                        let k = choose|k: int| 0 <= k < i && v@.take(i as int)[k] == t;
                        assert(v@[k] == v@[i as int]);
                    }
                }
            }
            if t < self.tasks.len() && !self.tasks[t].completed {
                r.push(t);
                proof {
                    assert(r@ =~= before.push(t));
                    assert forall|a: int, b: int| 0 <= a < r@.len() && 0 <= b < r@.len() && a != b implies r@[a] != r@[b] by {
                        if a == before.len() {
                            assert(before.contains(before[b]));
                        } else if b == before.len() {
                            assert(before.contains(before[a]));
                        }
                    }
                }
            }
            proof {
                assert forall|x: usize| r@.contains(x) <==> (v@.take(i + 1).contains(x) && x < self.tasks@.len()
                    && !self.tasks@[x as int].completed) by {
                    let ti = v@.take(i as int);
                    if ti.push(t).contains(x) {
                        let k = choose|k: int| 0 <= k < i + 1 && #[trigger] ti.push(t)[k] == x;
                        if k < i {
                            assert(ti[k] == x);
                        }
                    }
                    if ti.contains(x) {
                        let k = choose|k: int| 0 <= k < i && #[trigger] ti[k] == x;
                        assert(ti.push(t)[k] == x);
                    }
                    assert(ti.push(t)[i as int] == t);
                    if r@.contains(x) && !before.contains(x) {
                        let k = choose|k: int| 0 <= k < r@.len() && #[trigger] r@[k] == x;
                        if k < before.len() {
                            assert(before[k] == x);
                        }
                    }
                    if before.contains(x) {
                        let k = choose|k: int| 0 <= k < before.len() && #[trigger] before[k] == x;
                        assert(r@[k] == x);
                    }
                    if r@.len() > before.len() {
                        assert(r@[before.len() as int] == t);
                    }
                }
            }
            i += 1;
        }
        proof {
            assert(v@.take(v@.len() as int) =~= v@);
            assert(r@.to_set() =~= open_marked(*old(self)));
        }
        r
    }

    /// After marking `marked` tasks done: no marks, and the count reported.
    pub fn finish_bulk_mark_done(&mut self, marked: usize)
        ensures
            *final(self) == (App {
                selected_tasks: final(self).selected_tasks,
                runtime_warnings: final(self).runtime_warnings,
                ..*old(self)
            }),
            final(self).selected_tasks@ == Set::<usize>::empty(),
            strs(final(self).runtime_warnings) == strs(old(self).runtime_warnings).push(marked_message(marked as nat)),
    {
        self.selected_tasks.clear();
        let ghost before = strs(self.runtime_warnings);
        let m = framed("Marked ", marked, " task(s) done");
        proof {
            reveal_strlit("Marked ");
            reveal_strlit(" task(s) done");
        }
        self.runtime_warnings.push(m);
        assert(strs(self.runtime_warnings) =~= before.push(marked_message(marked as nat)));
    }

    /// The task a single done-toggle changes (the one under the active pane's
    /// cursor, if it exists); takes an undo snapshot when there is one.
    pub fn toggle_done_target(&mut self) -> (r: Option<usize>)
        requires
            old(self).wf(),
        ensures
            r == (match old(self).pane_canonical_of() {
                Some(t) => if t < old(self).tasks@.len() {
                    Some(t)
                } else {
                    None
                },
                None => None,
            }),
            r is Some ==> *final(self) == (App { undo_entry: final(self).undo_entry, ..*old(self) })
                && (final(self).undo_entry matches Some(e) && tasks_view(e.tasks@) == tasks_view(old(self).tasks@)),
            r is None ==> *final(self) == *old(self),
    {
        match self.pane_canonical_selected() {
            Some(t) => if t < self.tasks.len() {
                self.push_undo_entry();
                Some(t)
            } else {
                None
            },
            None => None,
        }
    }

    /// The text a copy puts on the clipboard and the number of tasks copied:
    /// the lines of the marked tasks that exist (else of the task under the
    /// global cursor), highest index first, joined by newlines. None (with a
    /// warning) when nothing is targeted.
    pub fn copy_text(&mut self) -> (r: Option<(String, usize)>)
        ensures
            ({
                let ts = old(self).tasks@;
                let targets: Set<usize> = if old(self).selected_tasks@ != Set::<usize>::empty() {
                    old(self).selected_tasks@.filter(|t: usize| t < ts.len())
                } else {
                    match row_task(old(self).display_rows@, old(self).selected as int) {
                        Some(t) => set![t],
                        None => Set::<usize>::empty(),
                    }
                };
                match r {
                    None => targets == Set::<usize>::empty() && *final(self) == (App {
                        runtime_warnings: final(self).runtime_warnings,
                        ..*old(self)
                    }) && strs(final(self).runtime_warnings) == strs(old(self).runtime_warnings).push(
                        "No task selected"@,
                    ),
                    Some((text, n)) => targets != Set::<usize>::empty() && *final(self) == *old(self)
                        && n == targets.len() && exists|order: Seq<usize>| {
                        &&& order.to_set() == targets
                        &&& strictly_descending(order)
                        &&& text@ == join(
                            order.filter(|t: usize| t < ts.len()).map_values(|t: usize| ts[t as int].raw@),
                            "\n"@,
                        )
                    },
                }
            }),
    {
        let ghost ts = self.tasks@;
        let mut order: Vec<usize> = if !self.selected_tasks.is_empty() {
            let v = self.selected_tasks.to_vec();
            let r = crate::pickers::below_descending(&v, self.tasks.len(), true);
            assert(r@.to_set() =~= self.selected_tasks@.filter(|t: usize| t < ts.len()));
            r
        } else {
            let mut r: Vec<usize> = Vec::new();
            if self.selected < self.display_rows.len() {
                match &self.display_rows[self.selected] {
                    DisplayRow::Task(t) => {
                        r.push(*t);
                    },
                    DisplayRow::GroupHeader(_) => {},
                }
            }
            assert(r@.to_set() =~= (match row_task(self.display_rows@, self.selected as int) {
                Some(t) => set![t],
                None => Set::<usize>::empty(),
            })) by {
                if r@.len() == 1 {
                    assert forall|x: usize| r@.to_set().contains(x) <==> x == r@[0] by {
                        if r@.contains(x) {
                            let k = choose|k: int| 0 <= k < r@.len() && r@[k] == x;
                        }
                        assert(r@.contains(r@[0]));
                    }
                }
            }
            r
        };
        if order.len() == 0 {
            proof {
                assert(order@.to_set() =~= Set::<usize>::empty());
            }
            let ghost w0 = strs(self.runtime_warnings);
            self.runtime_warnings.push(String::from_str("No task selected"));
            assert(strs(self.runtime_warnings) =~= w0.push("No task selected"@));
            return None;
        }
        proof {
            order@.unique_seq_to_set();
            assert(order@.len() > 0);
            assert(order@.to_set().contains(order@[0]));
        }
        let mut lines: Vec<String> = Vec::new();
        let ghost lim = |t: usize| t < ts.len();
        let mut i: usize = 0;
        assert(strs(lines) =~= order@.take(0).filter(lim).map_values(|t: usize| ts[t as int].raw@)) by {
            reveal_with_fuel(Seq::filter, 1);
        }
        while i < order.len()
            invariant
                i <= order@.len(),
                ts == self.tasks@,
                lim == (|t: usize| t < ts.len()),
                strs(lines) == order@.take(i as int).filter(lim).map_values(|t: usize| ts[t as int].raw@),
            decreases order.len() - i,
        {
            let t = order[i];
            let ghost before = strs(lines);
            proof {
                reveal_with_fuel(Seq::filter, 1);
                assert(order@.take(i + 1).drop_last() =~= order@.take(i as int));
                assert(order@.take(i + 1).last() == t);
            }
            if t < self.tasks.len() {
                lines.push(self.tasks[t].raw.clone());
                assert(strs(lines) =~= before.push(ts[t as int].raw@));
            }
            i += 1;
        }
        assert(order@.take(order@.len() as int) =~= order@);
        let text = join_exec(&lines, "\n");
        proof {
            reveal_strlit("\n");
            order@.unique_seq_to_set();
            assert(order@.no_duplicates()) by {
                assert forall|a: int, b: int| 0 <= a < order@.len() && 0 <= b < order@.len() && a != b implies order@[a] != order@[b] by {
                    if a < b {
                        assert(order@[a] > order@[b]);
                    } else {
                        assert(order@[b] > order@[a]);
                    }
                }
            }
            order@.unique_seq_to_set();
        }
        let n = order.len();
        Some((text, n))
    }

    /// A key in the delete confirmation: `y` takes an undo snapshot and returns
    /// the tasks to delete, highest index first (the marked ones, or the task
    /// under the cursor when none is marked), clearing the marks and disjoint
    /// mode after a bulk delete; any other key deletes nothing and clears the
    /// marks, the anchor and disjoint mode. Back to Normal mode either way.
    pub fn handle_delete_confirm_key(&mut self, confirmed: bool) -> (r: Vec<usize>)
        requires
            old(self).wf(),
        ensures
            final(self).mode == AppMode::Normal,
            *final(self) == (App {
                mode: final(self).mode,
                undo_entry: final(self).undo_entry,
                selected_tasks: final(self).selected_tasks,
                selection_anchor: final(self).selection_anchor,
                disjoint_select: final(self).disjoint_select,
                ..*old(self)
            }),
            confirmed && old(self).selected_tasks@ == Set::<usize>::empty() ==> r@ == (match old(self).active_canonical_of() {
                Some(t) => seq![t],
                None => Seq::<usize>::empty(),
            }) && final(self).selection_anchor == old(self).selection_anchor
                && final(self).disjoint_select == old(self).disjoint_select
                && final(self).selected_tasks == old(self).selected_tasks,
            confirmed && old(self).selected_tasks@ != Set::<usize>::empty() ==> r@.to_set() == old(self).selected_tasks@
                && strictly_descending(r@) && final(self).selected_tasks@ == Set::<usize>::empty()
                && !final(self).disjoint_select && final(self).selection_anchor == old(self).selection_anchor,
            confirmed ==> (final(self).undo_entry matches Some(e) && tasks_view(e.tasks@) == tasks_view(old(self).tasks@)),
            !confirmed ==> r@.len() == 0 && final(self).undo_entry == old(self).undo_entry,
            !confirmed && old(self).selected_tasks@ != Set::<usize>::empty() ==> final(self).selected_tasks@
                == Set::<usize>::empty() && final(self).selection_anchor is None && !final(self).disjoint_select,
            !confirmed && old(self).selected_tasks@ == Set::<usize>::empty() ==> final(self).selected_tasks
                == old(self).selected_tasks && final(self).selection_anchor == old(self).selection_anchor
                && final(self).disjoint_select == old(self).disjoint_select,
    {
        let mut r: Vec<usize> = Vec::new();
        if confirmed {
            self.push_undo_entry();
            if self.selected_tasks.is_empty() {
                match self.active_canonical_selected() {
                    Some(t) => {
                        r.push(t);
                        assert(r@ =~= seq![t]);
                    },
                    None => {},
                }
            } else {
                let v = self.selected_tasks.to_vec();
                r = crate::pickers::descending_unique(&v);
                assert(r@.to_set() =~= old(self).selected_tasks@) by {
                    assert forall|t: usize| r@.to_set().contains(t) <==> v@.to_set().contains(t) by {
                        assert(r@.contains(t) <==> v@.contains(t));
                    }
                }
                self.selected_tasks.clear();
                self.disjoint_select = false;
            }
        } else if !self.selected_tasks.is_empty() {
            self.selected_tasks.clear();
            self.selection_anchor = None;
            self.disjoint_select = false;
        }
        self.mode = AppMode::Normal;
        r
    }

    /// A key in the archive confirmation: back to Normal mode; true for `y`,
    /// when the caller archives.
    pub fn handle_archive_confirm_key(&mut self, key_is_y: bool) -> (r: bool)
        ensures
            r == key_is_y,
            *final(self) == (App { mode: AppMode::Normal, ..*old(self) }),
    {
        self.mode = AppMode::Normal;
        key_is_y
    }

    /// The done file archives go to: the configured one, else `done.txt`
    /// beside the todo file.
    pub fn archive_path(&self) -> (r: String)
        ensures
            r@ == (match self.config.done_file {
                Some(d) => d@,
                None => sibling_done(self.todo_path@),
            }),
    {
        match &self.config.done_file {
            Some(d) => d.clone(),
            None => crate::config::sibling_done_path(self.todo_path.as_str()),
        }
    }

    /// The completed tasks an archive moves: their lines, in file order, and
    /// their indices, highest first.
    pub fn archive_plan(&self) -> (r: (Vec<String>, Vec<usize>))
        ensures
            strs(r.0) == self.tasks@.filter(|t: TaskRecord| t.completed).map_values(|t: TaskRecord| t.raw@),
            strictly_descending(r.1@),
            forall|t: usize| r.1@.contains(t) <==> (t < self.tasks@.len() && self.tasks@[t as int].completed),
    {
        let ghost pc = |t: TaskRecord| t.completed;
        let mut lines: Vec<String> = Vec::new();
        let mut idx: Vec<usize> = Vec::new();
        let mut i: usize = 0;
        assert(strs(lines) =~= self.tasks@.take(0).filter(pc).map_values(|t: TaskRecord| t.raw@)) by {
            reveal_with_fuel(Seq::filter, 1);
        }
        while i < self.tasks.len()
            invariant
                i <= self.tasks@.len(),
                pc == (|t: TaskRecord| t.completed),
                strs(lines) == self.tasks@.take(i as int).filter(pc).map_values(|t: TaskRecord| t.raw@),
                forall|k: int| 0 <= k < idx@.len() ==> idx@[k] < i,
                forall|a: int, b: int| 0 <= a < b < idx@.len() ==> idx@[a] > idx@[b],
                forall|t: usize| idx@.contains(t) <==> (t < i && self.tasks@[t as int].completed),
            decreases self.tasks.len() - i,
        {
            let ghost before = strs(lines);
            let ghost ib = idx@;
            proof {
                reveal_with_fuel(Seq::filter, 1);
                assert(self.tasks@.take(i + 1).drop_last() =~= self.tasks@.take(i as int));
                assert(self.tasks@.take(i + 1).last() == self.tasks@[i as int]);
            }
            if self.tasks[i].completed {
                lines.push(self.tasks[i].raw.clone());
                idx.insert(0, i);
                proof {
                    assert(strs(lines) =~= before.push(self.tasks@[i as int].raw@));
                    assert(idx@ =~= seq![i].add(ib));
                    assert forall|t: usize| idx@.contains(t) <==> (t < i + 1 && self.tasks@[t as int].completed) by {
                        if idx@.contains(t) && t != i {
                            let k = choose|k: int| 0 <= k < idx@.len() && idx@[k] == t;
                            assert(ib[k - 1] == t);
                        }
                        if ib.contains(t) {
                            let k = choose|k: int| 0 <= k < ib.len() && ib[k] == t;
                            assert(idx@[k + 1] == t);
                        }
                        assert(idx@[0] == i);
                    }
                }
            }
            i += 1;
        }
        assert(self.tasks@.take(self.tasks@.len() as int) =~= self.tasks@);
        (lines, idx)
    }

    /// After the done file was written: an undo snapshot before the completed
    /// tasks are deleted.
    pub fn begin_archive(&mut self)
        ensures
            *final(self) == (App { undo_entry: final(self).undo_entry, ..*old(self) }),
            final(self).undo_entry matches Some(e) && tasks_view(e.tasks@) == tasks_view(old(self).tasks@),
    {
        self.push_undo_entry();
    }

    /// After archiving `count` tasks: no marks, and the count reported.
    pub fn finish_archive(&mut self, count: usize)
        ensures
            *final(self) == (App {
                selected_tasks: final(self).selected_tasks,
                runtime_warnings: final(self).runtime_warnings,
                ..*old(self)
            }),
            final(self).selected_tasks@ == Set::<usize>::empty(),
            count > 0 ==> strs(final(self).runtime_warnings) == strs(old(self).runtime_warnings).push(
                archived_message(count as nat),
            ),
            count == 0 ==> final(self).runtime_warnings == old(self).runtime_warnings,
    {
        self.selected_tasks.clear();
        if count > 0 {
            let ghost before = strs(self.runtime_warnings);
            let m = framed("Archived ", count, " task(s)  (Ctrl+Z to restore to todo.txt)");
            proof {
                reveal_strlit("Archived ");
                reveal_strlit(" task(s)  (Ctrl+Z to restore to todo.txt)");
            }
            self.runtime_warnings.push(m);
            assert(strs(self.runtime_warnings) =~= before.push(archived_message(count as nat)));
        }
    }

    /// A key in the append count banner: Enter opens the text entry, Esc
    /// returns to Normal mode (marks kept), other keys do nothing.
    pub fn handle_append_text_confirm_key(&mut self, enter: bool, esc: bool)
        ensures
            enter ==> *final(self) == (App { mode: AppMode::AppendText, ..*old(self) }),
            !enter && esc ==> *final(self) == (App {
                append_confirm_count: 0,
                mode: AppMode::Normal,
                ..*old(self)
            }),
            !enter && !esc ==> *final(self) == *old(self),
    {
        if enter {
            self.mode = AppMode::AppendText;
        } else if esc {
            self.append_confirm_count = 0;
            self.mode = AppMode::Normal;
        }
    }

    /// Submits the append text: when it is not blank, takes an undo snapshot
    /// and returns the marked tasks that exist (highest first) with the trimmed
    /// text, for the caller to append and save. Then (and on Esc, with
    /// `cancel`) the marks, the anchor and disjoint mode are cleared and the
    /// mode is Normal.
    pub fn finish_append_text(&mut self, text: &str, cancel: bool) -> (r: (Vec<usize>, String))
        ensures
            final(self).mode == AppMode::Normal,
            final(self).selected_tasks@ == Set::<usize>::empty(),
            final(self).selection_anchor is None,
            !final(self).disjoint_select,
            *final(self) == (App {
                mode: final(self).mode,
                undo_entry: final(self).undo_entry,
                selected_tasks: final(self).selected_tasks,
                selection_anchor: final(self).selection_anchor,
                disjoint_select: final(self).disjoint_select,
                ..*old(self)
            }),
            r.1@ == trim_seq(text@),
            (cancel || trim_seq(text@).len() == 0) ==> r.0@.len() == 0 && final(self).undo_entry == old(self).undo_entry,
            !cancel && trim_seq(text@).len() > 0 ==> {
                &&& r.0@.to_set() == old(self).selected_tasks@.filter(|t: usize| t < old(self).tasks@.len())
                &&& strictly_descending(r.0@)
                &&& final(self).undo_entry matches Some(e) && tasks_view(e.tasks@) == tasks_view(old(self).tasks@)
            },
    {
        let t = trim(text);
        let mut targets: Vec<usize> = Vec::new();
        if !cancel && !t.as_str().is_empty() {
            let v = self.selected_tasks.to_vec();
            targets = crate::pickers::below_descending(&v, self.tasks.len(), true);
            assert(targets@.to_set() =~= old(self).selected_tasks@.filter(|x: usize| x < old(self).tasks@.len()));
            self.push_undo_entry();
        }
        self.selected_tasks.clear();
        self.selection_anchor = None;
        self.disjoint_select = false;
        self.mode = AppMode::Normal;
        (targets, t)
    }
}

} // verus!

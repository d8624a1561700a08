//! Pane title and row text for the pane list widget.

use vstd::prelude::*;
use vstd::utf8::{encode_utf8, encode_scalar, is_scalar};
use vstd::string::StringSliceAdditionalSpecFns;
use crate::state::{DisplayRow, Pane};
use crate::selection::TaskSelection;
use crate::task::{DueStatus, TaskRecord};
use crate::text::{
    chars_of, concat, dec, dec_string, last_index_of, push_all, rfind_char, string_of, string_of_range, trim,
    trim_seq,
};

verus! {

/// Number of bytes of the UTF-8 encoding of `s` (`str::len`).
pub open spec fn byte_len(s: Seq<char>) -> nat {
    encode_utf8(s).len()
}

/// Number of bytes of the UTF-8 encoding of one character.
pub open spec fn utf8_width(c: char) -> nat {
    let u = c as u32;
    if u <= 0x7F {
        1
    } else if u <= 0x7FF {
        2
    } else if u <= 0xFFFF {
        3
    } else {
        4
    }
}

pub proof fn lemma_encode_append(a: Seq<char>, b: Seq<char>)
    ensures
        encode_utf8(a + b) == encode_utf8(a) + encode_utf8(b),
    decreases a.len(),
{
    if a.len() == 0 {
        assert(a + b =~= b);
        assert(encode_utf8(a) =~= Seq::<u8>::empty());
        assert(encode_utf8(a) + encode_utf8(b) =~= encode_utf8(b));
    } else {
        assert((a + b).drop_first() =~= a.drop_first() + b);
        lemma_encode_append(a.drop_first(), b);
        assert(encode_utf8(a + b) =~= encode_utf8(a) + encode_utf8(b));
    }
}

pub proof fn lemma_width(c: char)
    ensures
        encode_scalar(c as u32).len() == utf8_width(c),
{
    vstd::utf8::char_is_scalar(c);
}

pub proof fn lemma_byte_len_push(s: Seq<char>, c: char)
    ensures
        byte_len(s.push(c)) == byte_len(s) + utf8_width(c),
{
    lemma_encode_append(s, seq![c]);
    assert(s.push(c) =~= s + seq![c]);
    assert(seq![c].drop_first() =~= Seq::<char>::empty());
    assert(encode_utf8(Seq::<char>::empty()) =~= Seq::<u8>::empty());
    assert(encode_utf8(seq![c]) == encode_scalar(seq![c][0] as u32) + encode_utf8(seq![c].drop_first()));
    assert(encode_utf8(seq![c]) =~= encode_scalar(c as u32));
    lemma_width(c);
}

pub proof fn lemma_byte_len_take_mono(s: Seq<char>, j: int, k: int)
    requires
        0 <= j <= k <= s.len(),
    ensures
        byte_len(s.take(j)) <= byte_len(s.take(k)),
        j < k ==> byte_len(s.take(j)) < byte_len(s.take(k)),
    decreases k - j,
{
    if j < k {
        lemma_byte_len_take_mono(s, j, k - 1);
        assert(s.take(k) =~= s.take(k - 1).push(s[k - 1]));
        lemma_byte_len_push(s.take(k - 1), s[k - 1]);
    }
}

pub fn char_width(c: char) -> (w: usize)
    ensures
        w == utf8_width(c),
{
    let u = c as u32;
    if u <= 0x7F {
        1
    } else if u <= 0x7FF {
        2
    } else if u <= 0xFFFF {
        3
    } else {
        4
    }
}

/// Byte index `b` falls between two characters of `s`.
pub open spec fn on_char_boundary(s: Seq<char>, b: nat) -> bool {
    exists|k: int| 0 <= k <= s.len() && byte_len(#[trigger] s.take(k)) == b
}

/// The character count before byte index `b` (for a boundary `b`).
pub open spec fn chars_before(s: Seq<char>, b: nat) -> int {
    choose|k: int| 0 <= k <= s.len() && byte_len(#[trigger] s.take(k)) == b
}

/// `text` shortened to `w` bytes: unchanged when it fits; `…` alone when `w` is
/// under 4; else cut at the last space before byte `w - 1` (when that space is not
/// the first character) or after `w - 1` characters, with `…` appended.
pub open spec fn truncated(text: Seq<char>, w: nat) -> Seq<char> {
    if byte_len(text) <= w {
        text
    } else if w < 4 {
        "\u{2026}"@
    } else {
        let k = chars_before(text, (w - 1) as nat);
        match last_index_of(text.take(k), ' ') {
            Some(q) => if q > 0 {
                text.take(q) + "\u{2026}"@
            } else {
                text.take(if w - 1 <= text.len() { w - 1 } else { text.len() as int }) + "\u{2026}"@
            },
            None => text.take(if w - 1 <= text.len() { w - 1 } else { text.len() as int }) + "\u{2026}"@,
        }
    }
}

/// The byte index where `truncate_for_width` cuts lies between two characters
/// (the cut is undefined otherwise).
pub open spec fn truncation_defined(text: Seq<char>, w: nat) -> bool {
    byte_len(text) > w && w >= 4 ==> on_char_boundary(text, (w - 1) as nat)
}

pub struct PaneList;

impl PaneList {
    /// The pane's border title: the label, marked `✎` while its label is being
    /// edited and `▶` when active, then the trimmed filter (cut to 17 characters
    /// and `…` past 20), joined by ` | `; `▶` or a space when both are empty.
    pub fn build_pane_title(pane: &Pane, is_active: bool, label_selected: bool) -> (r: String)
        ensures
            r@ == pane_title(pane.label@, pane.filter_query@, is_active, label_selected),
    {
        let mut parts: Vec<String> = Vec::new();
        let label_nonempty = !pane.label.as_str().is_empty();
        if label_nonempty {
            let d = if is_active && label_selected {
                concat("\u{270e} ", pane.label.as_str())
            } else if is_active {
                concat("\u{25b6} ", pane.label.as_str())
            } else {
                concat("  ", pane.label.as_str())
            };
            parts.push(d);
        } else if is_active {
            parts.push(String::from_str("\u{25b6}"));
        }
        let trimmed = trim(pane.filter_query.as_str());
        let tv = chars_of(trimmed.as_str());
        if tv.len() > 0 {
            let f = if tv.len() > 20 {
                let mut s = string_of_range(&tv, 0, 17);
                push_all(&mut s, "\u{2026}");
                assert(tv@.subrange(0, 17) =~= tv@.take(17));
                s
            } else {
                trimmed
            };
            parts.push(f);
        }
        if parts.len() == 0 {
            if is_active {
                String::from_str("\u{25b6}")
            } else {
                String::from_str(" ")
            }
        } else if parts.len() == 1 {
            let r = parts.pop().unwrap();
            r
        } else {
            let b = parts.pop().unwrap();
            let a = parts.pop().unwrap();
            let mut r = a;
            push_all(&mut r, " | ");
            push_all(&mut r, b.as_str());
            r
        }
    }

    /// Shortens `text` to fit `max_width` bytes (see `truncated`).
    pub fn truncate_for_width(text: &str, max_width: usize) -> (r: String)
        requires
            truncation_defined(text@, max_width as nat),
            byte_len(text@) <= usize::MAX,
        ensures
            r@ == truncated(text@, max_width as nat),
    {
        proof {
            assert(text.spec_bytes() == encode_utf8(text@));
        }
        if text.len() <= max_width {
            return String::from_str(text);
        }
        if max_width < 4 {
            return String::from_str("\u{2026}");
        }
        let v = chars_of(text);
        let cut = max_width - 1;
        // Locate the character index at byte `cut`.
        let mut k: usize = 0;
        let mut bytes: usize = 0;
        proof {
            assert(v@.take(0) =~= Seq::<char>::empty());
            assert(encode_utf8(Seq::<char>::empty()) =~= Seq::<u8>::empty());
        }
        while bytes < cut
            invariant
                k <= v@.len(),
                v@ == text@,
                bytes == byte_len(v@.take(k as int)),
                bytes <= cut,
                cut == max_width - 1,
                on_char_boundary(text@, cut as nat),
            decreases cut - bytes,
        {
            proof {
                let kk = chars_before(text@, cut as nat);
                assert(0 <= kk <= text@.len() && byte_len(text@.take(kk)) == cut);
                if kk <= k {
                    lemma_byte_len_take_mono(text@, kk, k as int);
                }
                assert(k < kk);
                assert(k < v@.len());
            }
            let w = char_width(v[k]);
            proof {
                assert(v@.take(k + 1) =~= v@.take(k as int).push(v@[k as int]));
                lemma_byte_len_push(v@.take(k as int), v@[k as int]);
                let kk = chars_before(text@, cut as nat);
                if kk > k + 1 {
                    lemma_byte_len_take_mono(text@, k + 1, kk);
                }
            }
            bytes = bytes + w;
            assert(k < v.len());
            k = k + 1;
        }
        proof {
            let kk = chars_before(text@, cut as nat);
            assert(0 <= kk <= text@.len() && byte_len(text@.take(kk)) == cut);
            if kk < k {
                lemma_byte_len_take_mono(text@, kk, k as int);
            } else if kk > k {
                lemma_byte_len_take_mono(text@, k as int, kk);
            }
            assert(kk == k);
        }
        let prefix = string_of_range(&v, 0, k);
        let pv = chars_of(prefix.as_str());
        assert(pv@ =~= text@.take(k as int));
        match rfind_char(&pv, ' ') {
            Some(q) => if q > 0 {
                let mut s = string_of_range(&v, 0, q);
                push_all(&mut s, "\u{2026}");
                assert(v@.subrange(0, q as int) =~= text@.take(q as int));
                return s;
            },
            None => {},
        }
        let n = if cut <= v.len() {
            cut
        } else {
            v.len()
        };
        let mut s = string_of_range(&v, 0, n);
        push_all(&mut s, "\u{2026}");
        assert(v@.subrange(0, n as int) =~= text@.take(n as int));
        s
    }
}

/// The title text of a pane (see `PaneList::build_pane_title`).
pub open spec fn pane_title(label: Seq<char>, filter: Seq<char>, is_active: bool, label_selected: bool) -> Seq<char> {
    let lp: Seq<Seq<char>> = if label.len() > 0 {
        if is_active && label_selected {
            seq!["\u{270e} "@ + label]
        } else if is_active {
            seq!["\u{25b6} "@ + label]
        } else {
            seq!["  "@ + label]
        }
    } else if is_active {
        seq!["\u{25b6}"@]
    } else {
        Seq::empty()
    };
    let t = trim_seq(filter);
    let parts = if t.len() > 0 {
        lp.push(if t.len() > 20 { t.take(17) + "\u{2026}"@ } else { t })
    } else {
        lp
    };
    if parts.len() == 0 {
        if is_active {
            "\u{25b6}"@
        } else {
            " "@
        }
    } else if parts.len() == 1 {
        parts[0]
    } else {
        parts[0] + " | "@ + parts[1]
    }
}

} // verus!

verus! {

/// The UTF-8 length of `s` (`str::len`).
pub fn str_byte_len(s: &str) -> (r: usize)
    ensures
        r == byte_len(s@),
{
    s.as_bytes().len()
}

} // verus!

verus! {

// ───────────────────────── task rows ─────────────────────────

/// How a row of a task list is drawn; the theme gives each its colors.
#[derive(Clone, Copy, Debug, PartialEq, Eq, Structural)]
pub enum RowStyle {
    /// A group header.
    Header,
    /// No color.
    Plain,
    /// Dimmed: a completed task, or a deferred one while deferred tasks are shown.
    Dim,
    PriorityA,
    PriorityB,
    PriorityC,
    Overdue,
}

/// One row of a task list as drawn: its text, its style, and whether it is bold.
pub struct RowLine {
    pub text: String,
    pub style: RowStyle,
    pub bold: bool,
}

/// The mark in front of a task row: `V ` on the cursor in disjoint mode,
/// `> ` on a marked row away from the cursor.
pub open spec fn row_mark(marked: bool, cursor: bool, disjoint: bool) -> Seq<char> {
    if disjoint && cursor {
        "V "@
    } else if marked && !cursor {
        "> "@
    } else {
        Seq::empty()
    }
}

/// The style of a task row: completed tasks dim, then deferred tasks dim
/// while they are shown, then priorities A, B and C, then overdue tasks.
pub open spec fn task_row_style(t: TaskRecord, show_deferred: bool) -> RowStyle {
    if t.completed {
        RowStyle::Dim
    } else if show_deferred && t.deferred {
        RowStyle::Dim
    } else if t.priority == Some('A') {
        RowStyle::PriorityA
    } else if t.priority == Some('B') {
        RowStyle::PriorityB
    } else if t.priority == Some('C') {
        RowStyle::PriorityC
    } else if t.due_status == DueStatus::Overdue {
        RowStyle::Overdue
    } else {
        RowStyle::Plain
    }
}

/// The full text of a row in a pane, before it is fitted to the width: a
/// header's label after a space, or a task's mark and line.
pub open spec fn pane_row_full(row: DisplayRow, tasks: Seq<TaskRecord>, marked: bool, cursor: bool, disjoint: bool) -> Seq<
    char,
> {
    match row {
        DisplayRow::GroupHeader(label) => " "@ + label@,
        DisplayRow::Task(ci) => row_mark(marked, cursor, disjoint) + tasks[ci as int].raw@,
    }
}

/// The text of a row in a pane `width` bytes wide (0: no fitting): the full
/// text shortened to the width; a header's bare label when there is no width.
pub open spec fn pane_row_text(row: DisplayRow, tasks: Seq<TaskRecord>, marked: bool, cursor: bool, disjoint: bool, width: nat) -> Seq<
    char,
> {
    if width > 0 {
        truncated(pane_row_full(row, tasks, marked, cursor, disjoint), width)
    } else {
        match row {
            DisplayRow::GroupHeader(label) => label@,
            DisplayRow::Task(_) => pane_row_full(row, tasks, marked, cursor, disjoint),
        }
    }
}

/// The text of a row in the single task list: a header's label after a space,
/// or a task's mark, an indent of two spaces when grouping, its one-based
/// number and `: ` before its line.
pub open spec fn list_row_text(row: DisplayRow, tasks: Seq<TaskRecord>, marked: bool, cursor: bool, disjoint: bool, grouping: bool) -> Seq<
    char,
> {
    match row {
        DisplayRow::GroupHeader(label) => " "@ + label@,
        DisplayRow::Task(ci) => row_mark(marked, cursor, disjoint) + (if grouping {
            "  "@
        } else {
            Seq::empty()
        }) + dec(ci as nat + 1) + ": "@ + tasks[ci as int].raw@,
    }
}

/// The style and boldness of a row: headers in the header style; tasks by
/// `task_row_style`, bold when marked away from the cursor.
pub open spec fn row_look(row: DisplayRow, tasks: Seq<TaskRecord>, marked: bool, cursor: bool, show_deferred: bool) -> (
    RowStyle,
    bool,
) {
    match row {
        DisplayRow::GroupHeader(_) => (RowStyle::Header, false),
        DisplayRow::Task(ci) => (task_row_style(tasks[ci as int], show_deferred), marked && !cursor),
    }
}

fn row_mark_text(marked: bool, cursor: bool, disjoint: bool) -> (r: String)
    ensures
        r@ == row_mark(marked, cursor, disjoint),
{
    if disjoint && cursor {
        String::from_str("V ")
    } else if marked && !cursor {
        String::from_str("> ")
    } else {
        let e = String::new();
        assert(e@ =~= Seq::<char>::empty());
        e
    }
}

fn row_look_exec(row: &DisplayRow, tasks: &Vec<TaskRecord>, marked: bool, cursor: bool, show_deferred: bool) -> (r: (
    RowStyle,
    bool,
))
    requires
        row matches DisplayRow::Task(ci) ==> ci < tasks@.len(),
    ensures
        r == row_look(*row, tasks@, marked, cursor, show_deferred),
{
    match row {
        DisplayRow::GroupHeader(_) => (RowStyle::Header, false),
        DisplayRow::Task(ci) => {
            let t = &tasks[*ci];
            let style = if t.completed {
                RowStyle::Dim
            } else if show_deferred && t.deferred {
                RowStyle::Dim
            } else if t.priority == Some('A') {
                RowStyle::PriorityA
            } else if t.priority == Some('B') {
                RowStyle::PriorityB
            } else if t.priority == Some('C') {
                RowStyle::PriorityC
            } else if t.due_status == DueStatus::Overdue {
                RowStyle::Overdue
            } else {
                RowStyle::Plain
            };
            (style, marked && !cursor)
        },
    }
}

/// Whether `truncate_for_width` can cut `text` at `w` bytes: false only when
/// the cut would fall inside a character.
pub fn truncation_ok(text: &str, w: usize) -> (r: bool)
    ensures
        r == truncation_defined(text@, w as nat),
{
    let len = str_byte_len(text);
    if len <= w || w < 4 {
        return true;
    }
    let v = chars_of(text);
    let cut = w - 1;
    let mut k: usize = 0;
    let mut bytes: usize = 0;
    proof {
        assert(v@.take(0) =~= Seq::<char>::empty());
        assert(encode_utf8(Seq::<char>::empty()) =~= Seq::<u8>::empty());
    }
    while bytes < cut && k < v.len()
        invariant
            k <= v@.len(),
            v@ == text@,
            bytes == byte_len(v@.take(k as int)),
            k > 0 ==> byte_len(v@.take(k - 1)) < cut,
            cut == w - 1,
            byte_len(text@) > w,
            byte_len(text@) == len,
        decreases v.len() - k,
    {
        proof {
            assert(v@.take(k + 1) =~= v@.take(k as int).push(v@[k as int]));
            lemma_byte_len_push(v@.take(k as int), v@[k as int]);
        }
        let cw = char_width(v[k]);
        proof {
            lemma_byte_len_take_mono(v@, k + 1, v@.len() as int);
            assert(v@.take(v@.len() as int) =~= v@);
        }
        bytes = bytes + cw;
        k = k + 1;
        assert(v@.take(k - 1) =~= v@.take((k - 1) as int));
    }
    proof {
        assert(v@.take(v@.len() as int) =~= v@);
        if bytes == cut {
            assert(byte_len(text@.take(k as int)) == cut);
        } else {
            assert(bytes > cut) by {
                if k == v@.len() {
                    assert(byte_len(v@) > w);
                }
            }
            assert forall|j: int| 0 <= j <= text@.len() implies byte_len(#[trigger] text@.take(j)) != cut by {
                if j < k {
                    lemma_byte_len_take_mono(text@, j, k - 1);
                } else {
                    lemma_byte_len_take_mono(text@, k as int, j);
                }
            }
        }
    }
    bytes == cut
}

impl PaneList {
    /// A row of a pane `width` bytes wide (0: no fitting), `marked` telling
    /// whether its task is selected and `cursor` whether the pane's cursor is
    /// on it; `None` when the cut would fall inside a character.
    pub fn pane_row_line(
        row: &DisplayRow,
        tasks: &Vec<TaskRecord>,
        marked: bool,
        cursor: bool,
        disjoint: bool,
        show_deferred: bool,
        width: usize,
    ) -> (r: Option<RowLine>)
        requires
            row matches DisplayRow::Task(ci) ==> ci < tasks@.len(),
        ensures
            ({
                let full = pane_row_full(*row, tasks@, marked, cursor, disjoint);
                let (style, bold) = row_look(*row, tasks@, marked, cursor, show_deferred);
                match r {
                    None => width > 0 && !truncation_defined(full, width as nat),
                    Some(line) => (width > 0 ==> truncation_defined(full, width as nat))
                        && line.text@ == pane_row_text(*row, tasks@, marked, cursor, disjoint, width as nat)
                        && line.style == style && line.bold == bold,
                }
            }),
    {
        let (style, bold) = row_look_exec(row, tasks, marked, cursor, show_deferred);
        let full = match row {
            DisplayRow::GroupHeader(label) => {
                let f = concat(" ", label.as_str());
                proof {
                    reveal_strlit(" ");
                }
                if width == 0 {
                    return Some(RowLine { text: string_of(&chars_of(label.as_str())), style, bold });
                }
                f
            },
            DisplayRow::Task(ci) => {
                let mut f = row_mark_text(marked, cursor, disjoint);
                push_all(&mut f, tasks[*ci].raw.as_str());
                f
            },
        };
        if width == 0 {
            return Some(RowLine { text: full, style, bold });
        }
        if !truncation_ok(full.as_str(), width) {
            return None;
        }
        let fs = full.as_str();
        // Reading the byte length shows that it fits a `usize`.
        let _len = str_byte_len(fs);
        let text = PaneList::truncate_for_width(fs, width);
        Some(RowLine { text, style, bold })
    }

    /// A row of the single task list, `marked` telling whether its task is
    /// selected and `cursor` whether the list's cursor is on it.
    pub fn list_row_line(
        row: &DisplayRow,
        tasks: &Vec<TaskRecord>,
        marked: bool,
        cursor: bool,
        disjoint: bool,
        show_deferred: bool,
        grouping: bool,
    ) -> (r: RowLine)
        requires
            row matches DisplayRow::Task(ci) ==> ci < tasks@.len(),
        ensures
            r.text@ == list_row_text(*row, tasks@, marked, cursor, disjoint, grouping),
            (r.style, r.bold) == row_look(*row, tasks@, marked, cursor, show_deferred),
    {
        let (style, bold) = row_look_exec(row, tasks, marked, cursor, show_deferred);
        proof {
            reveal_strlit(" ");
            reveal_strlit("  ");
            reveal_strlit(": ");
        }
        let text = match row {
            DisplayRow::GroupHeader(label) => concat(" ", label.as_str()),
            DisplayRow::Task(ci) => {
                let mut f = row_mark_text(marked, cursor, disjoint);
                if grouping {
                    push_all(&mut f, "  ");
                }
                let count = tasks.len();
                assert(*ci < count);
                let number = *ci + 1;
                let num = dec_string(number as u64);
                push_all(&mut f, num.as_str());
                push_all(&mut f, ": ");
                push_all(&mut f, tasks[*ci].raw.as_str());
                f
            },
        };
        RowLine { text, style, bold }
    }
}


/// What a task list shows instead of rows: in a pane, `(no tasks)` when it has
/// no rows; in the single list, `(no tasks)` when there are no tasks at all and
/// `(no matching tasks)` when none passes the filter. `None`: the rows are shown.
pub open spec fn placeholder(in_pane: bool, no_rows: bool, no_indices: bool, no_tasks: bool) -> Option<Seq<char>> {
    if in_pane {
        if no_rows {
            Some("(no tasks)"@)
        } else {
            None
        }
    } else if no_indices && no_tasks {
        Some("(no tasks)"@)
    } else if no_indices {
        Some("(no matching tasks)"@)
    } else {
        None
    }
}

pub fn placeholder_text(in_pane: bool, no_rows: bool, no_indices: bool, no_tasks: bool) -> (r: Option<String>)
    ensures
        match r {
            Some(t) => placeholder(in_pane, no_rows, no_indices, no_tasks) == Some(t@),
            None => placeholder(in_pane, no_rows, no_indices, no_tasks) is None,
        },
{
    if in_pane {
        if no_rows {
            Some(String::from_str("(no tasks)"))
        } else {
            None
        }
    } else if no_indices && no_tasks {
        Some(String::from_str("(no tasks)"))
    } else if no_indices {
        Some(String::from_str("(no matching tasks)"))
    } else {
        None
    }
}

/// Whether the cursor's row is a marked task (its highlight is then bold too).
pub fn cursor_on_marked(rows: &Vec<DisplayRow>, selected: usize, marked: &TaskSelection) -> (r: bool)
    ensures
        r == (selected < rows@.len() && match rows@[selected as int] {
            DisplayRow::Task(ci) => marked@.contains(ci),
            DisplayRow::GroupHeader(_) => false,
        }),
{
    if selected < rows.len() {
        match &rows[selected] {
            DisplayRow::Task(ci) => marked.contains(ci),
            DisplayRow::GroupHeader(_) => false,
        }
    } else {
        false
    }
}

} // verus!

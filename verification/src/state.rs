//! View state: panes, display rows, autocomplete and the date and priority pickers.

use vstd::prelude::*;
use crate::config::GroupByCategory;
use crate::task::SortOrder;
use crate::task::TaskRecord;
use crate::text::{
    contains, contains_seq, eq_ignore_ascii_case, eq_ignore_case, is_prefix, lowercase_of, starts_with,
    to_lowercase, trim, trim_seq, vec_eq,
    all_digits, chars_of, char_ascii_upper, ascii_upper, dec2, dec2_string, first_token,
    first_token_exec, parse_i32, parse_i32_spec, parse_unsigned, parse_unsigned_exec, push_all,
    push_char, split_char, split_on, strs, lemma_split_len, dec, digit_char, digits_value, is_ws,
    lemma_non_ws_run, lemma_trim_start_skip, unsigned_body,
};

verus! {

// ───────────────────────── rows and panes ─────────────────────────

/// A row of a rendered task list: a task (by its index in the task list) or a
/// group header.
#[derive(Debug, PartialEq)]
pub enum DisplayRow {
    Task(usize),
    GroupHeader(String),
}

/// What a display row shows.
pub enum RowView {
    Task(nat),
    Header(Seq<char>),
}

pub open spec fn row_view(r: DisplayRow) -> RowView {
    match r {
        DisplayRow::Task(i) => RowView::Task(i as nat),
        DisplayRow::GroupHeader(s) => RowView::Header(s@),
    }
}

pub open spec fn rows_view(v: Vec<DisplayRow>) -> Seq<RowView> {
    v@.map_values(|r: DisplayRow| row_view(r))
}

impl DisplayRow {
    pub fn duplicate(&self) -> (r: DisplayRow)
        ensures
            row_view(r) == row_view(*self),
    {
        match self {
            DisplayRow::Task(i) => DisplayRow::Task(*i),
            DisplayRow::GroupHeader(s) => DisplayRow::GroupHeader(s.clone()),
        }
    }

    /// The task index of a task row.
    pub fn task_index(&self) -> (r: Option<usize>)
        ensures
            r == (match row_view(*self) {
                RowView::Task(i) => Some(i as usize),
                RowView::Header(_) => None::<usize>,
            }),
    {
        match self {
            DisplayRow::Task(i) => Some(*i),
            DisplayRow::GroupHeader(_) => None,
        }
    }
}

/// One pane: its own view of the task list, cursor and query settings.
pub struct Pane {
    pub id: usize,
    /// The filtered, sorted and possibly grouped rows of this pane.
    pub display_rows: Vec<DisplayRow>,
    /// Index into `display_rows` of the cursor.
    pub selected: usize,
    pub filter_query: String,
    pub sort_order: SortOrder,
    pub grouping: bool,
    pub group_by: GroupByCategory,
    pub label: String,
    /// The pane's title is selected for label editing.
    pub label_selected: bool,
}

impl Pane {
    /// A pane with no rows, cursor at the top, no filter, file order, no grouping.
    pub fn new(id: usize, label: String) -> (p: Pane)
        ensures
            p.id == id,
            p.display_rows@.len() == 0,
            p.selected == 0,
            p.filter_query@.len() == 0,
            p.sort_order == SortOrder::FileOrder,
            !p.grouping,
            p.group_by == GroupByCategory::Priority,
            p.label == label,
            !p.label_selected,
    {
        Pane {
            id,
            display_rows: Vec::new(),
            selected: 0,
            filter_query: String::new(),
            sort_order: SortOrder::FileOrder,
            grouping: false,
            group_by: GroupByCategory::Priority,
            label,
            label_selected: false,
        }
    }

    /// The pane shows no rows.
    pub fn is_empty(&self) -> (r: bool)
        ensures
            r == (self.display_rows@.len() == 0),
    {
        self.display_rows.len() == 0
    }

    /// The row under the cursor, if the cursor is on a row.
    pub fn selected_row(&self) -> (r: Option<&DisplayRow>)
        ensures
            self.selected < self.display_rows@.len() ==> r == Some(&self.display_rows@[self.selected as int]),
            self.selected >= self.display_rows@.len() ==> r is None,
    {
        if self.selected < self.display_rows.len() {
            Some(&self.display_rows[self.selected])
        } else {
            None
        }
    }

    /// Moves the cursor one row down, staying on the last row.
    pub fn select_next(&mut self)
        ensures
            final(self).selected == (if old(self).display_rows@.len() > 0 && old(self).selected + 1
                < old(self).display_rows@.len() {
                old(self).selected + 1
            } else {
                old(self).selected as int
            }),
            final(self).display_rows == old(self).display_rows,
            final(self).label == old(self).label,
            final(self).filter_query == old(self).filter_query,
            final(self).id == old(self).id,
            final(self).sort_order == old(self).sort_order,
            final(self).grouping == old(self).grouping,
            final(self).group_by == old(self).group_by,
            final(self).label_selected == old(self).label_selected,
    {
        if self.display_rows.len() > 0 && self.selected < self.display_rows.len() - 1 {
            self.selected = self.selected + 1;
        }
    }

    /// Moves the cursor one row up, staying on the first row.
    pub fn select_prev(&mut self)
        ensures
            final(self).selected == (if old(self).selected > 0 {
                old(self).selected - 1
            } else {
                0
            }),
            final(self).display_rows == old(self).display_rows,
            final(self).label == old(self).label,
            final(self).filter_query == old(self).filter_query,
            final(self).id == old(self).id,
            final(self).sort_order == old(self).sort_order,
            final(self).grouping == old(self).grouping,
            final(self).group_by == old(self).group_by,
            final(self).label_selected == old(self).label_selected,
    {
        if self.selected > 0 {
            self.selected = self.selected - 1;
        }
    }
}

// ───────────────────────── autocomplete ─────────────────────────

/// Kind of an autocomplete popup.
#[derive(Clone, Copy, Debug, PartialEq, Eq, Structural)]
pub enum AutocompleteMode {
    /// `@` / `+` tokens while editing a task line.
    TokenAutocomplete(char),
    /// `@` / `+` quick setter opened from Normal mode.
    QuickSetter(char),
    /// Days of a month after `due:` or `t:`.
    DateAutocomplete,
    /// Earlier filter expressions.
    FilterHistory,
}

/// State of the autocomplete popup.
pub struct AutocompleteState {
    pub mode: AutocompleteMode,
    /// `@`, `+`, `#` for dates, `\0` for filter history.
    pub trigger: char,
    /// Text typed after the trigger.
    pub prefix: String,
    /// The full candidate pool.
    pub all_items: Vec<String>,
    /// The candidates shown.
    pub items: Vec<String>,
    pub selected: usize,
    /// The popup has the keyboard focus.
    pub focused: bool,
}

impl AutocompleteState {
    /// Popup for editor autocomplete: dates for trigger `#`, tokens otherwise.
    pub fn new(trigger: char, prefix: String, items: Vec<String>) -> (a: AutocompleteState)
        ensures
            a.mode == (if trigger == '#' {
                AutocompleteMode::DateAutocomplete
            } else {
                AutocompleteMode::TokenAutocomplete(trigger)
            }),
            a.trigger == trigger,
            a.prefix == prefix,
            strs(a.all_items) == strs(items),
            strs(a.items) == strs(items),
            a.selected == 0,
            !a.focused,
    {
        let mode = if trigger == '#' {
            AutocompleteMode::DateAutocomplete
        } else {
            AutocompleteMode::TokenAutocomplete(trigger)
        };
        let all_items = clone_strings(&items);
        AutocompleteState { mode, trigger, prefix, all_items, items, selected: 0, focused: false }
    }

    /// Popup for the Normal-mode quick setter of trigger `@` or `+`.
    pub fn new_quick_setter(trigger: char, prefix: String, items: Vec<String>) -> (a:
        AutocompleteState)
        ensures
            a.mode == AutocompleteMode::QuickSetter(trigger),
            a.trigger == trigger,
            a.prefix == prefix,
            strs(a.all_items) == strs(items),
            strs(a.items) == strs(items),
            a.selected == 0,
            !a.focused,
    {
        let all_items = clone_strings(&items);
        AutocompleteState {
            mode: AutocompleteMode::QuickSetter(trigger),
            trigger,
            prefix,
            all_items,
            items,
            selected: 0,
            focused: false,
        }
    }

    /// Popup offering earlier filter expressions.
    pub fn new_filter_history(prefix: String, items: Vec<String>) -> (a: AutocompleteState)
        ensures
            a.mode == AutocompleteMode::FilterHistory,
            a.trigger == '\0',
            a.prefix == prefix,
            strs(a.all_items) == strs(items),
            strs(a.items) == strs(items),
            a.selected == 0,
            !a.focused,
    {
        let all_items = clone_strings(&items);
        AutocompleteState {
            mode: AutocompleteMode::FilterHistory,
            trigger: '\0',
            prefix,
            all_items,
            items,
            selected: 0,
            focused: false,
        }
    }
}

/// A copy of a list of strings.
pub fn clone_strings(v: &Vec<String>) -> (r: Vec<String>)
    ensures
        strs(r) == strs(*v),
{
    let mut r: Vec<String> = Vec::new();
    let mut i: usize = 0;
    assert(strs(r) =~= strs(*v).take(0));
    while i < v.len()
        invariant
            i <= v.len(),
            strs(r) == strs(*v).take(i as int),
        decreases v.len() - i,
    {
        let ghost before = strs(r);
        let c = v[i].clone();
        r.push(c);
        assert(strs(r) =~= before.push(v@[i as int]@));
        i += 1;
        assert(strs(r) =~= strs(*v).take(i as int));
    }
    assert(strs(*v).take(v.len() as int) =~= strs(*v));
    r
}

// ───────────────────────── calendar ─────────────────────────

pub open spec fn is_leap_year(y: int) -> bool {
    (y % 4 == 0 && y % 100 != 0) || y % 400 == 0
}

pub open spec fn days_in_month(y: int, m: int) -> int {
    if m == 2 {
        if is_leap_year(y) {
            29
        } else {
            28
        }
    } else if m == 4 || m == 6 || m == 9 || m == 11 {
        30
    } else {
        31
    }
}

/// A day of the proleptic Gregorian calendar within the years the date library
/// represents (-262143 to 262142).
pub open spec fn valid_date(y: int, m: int, d: int) -> bool {
    &&& -262143 <= y <= 262142
    &&& 1 <= m <= 12
    &&& 1 <= d <= days_in_month(y, m)
}

/// Offsets of the months for the weekday count (January first).
pub open spec fn month_offset(m: int) -> int {
    if m == 1 {
        0
    } else if m == 2 {
        3
    } else if m == 3 {
        2
    } else if m == 4 {
        5
    } else if m == 5 {
        0
    } else if m == 6 {
        3
    } else if m == 7 {
        5
    } else if m == 8 {
        1
    } else if m == 9 {
        4
    } else if m == 10 {
        6
    } else if m == 11 {
        2
    } else {
        4
    }
}

/// The weekday of a day of the proleptic Gregorian calendar, counted from
/// Monday (0) to Sunday (6): the days elapsed since a Sunday, modulo 7, with
/// January and February counted in the year before.
pub open spec fn weekday_from_monday(year: i32, month: u32, day: u32) -> nat {
    let y = if month < 3 { year - 1 } else { year as int };
    let from_sunday = (y + y / 4 - y / 100 + y / 400 + month_offset(month as int) + day) % 7;
    ((from_sunday + 6) % 7) as nat
}

/// `chrono::NaiveDate::from_ymd_opt` followed by `weekday().num_days_from_monday()`:
/// `None` exactly for dates that do not exist or lie outside the library's range,
/// else the date's weekday in the proleptic Gregorian calendar, Monday first.
#[verifier::external_body]
fn calendar_weekday(year: i32, month: u32, day: u32) -> (r: Option<u8>)
    ensures
        r is Some <==> valid_date(year as int, month as int, day as int),
        r matches Some(w) ==> w as nat == weekday_from_monday(year, month, day) && w < 7,
{
    match chrono::NaiveDate::from_ymd_opt(year, month, day) {
        Some(d) => Some(chrono::Datelike::weekday(&d).num_days_from_monday() as u8),
        None => None,
    }
}

pub open spec fn weekday_abbr(w: nat) -> Seq<char> {
    if w == 0 {
        "Mon"@
    } else if w == 1 {
        "Tue"@
    } else if w == 2 {
        "Wed"@
    } else if w == 3 {
        "Thu"@
    } else if w == 4 {
        "Fri"@
    } else if w == 5 {
        "Sat"@
    } else {
        "Sun"@
    }
}

fn weekday_abbr_exec(w: u8) -> (r: &'static str)
    ensures
        r@ == weekday_abbr(w as nat),
{
    if w == 0 {
        "Mon"
    } else if w == 1 {
        "Tue"
    } else if w == 2 {
        "Wed"
    } else if w == 3 {
        "Thu"
    } else if w == 4 {
        "Fri"
    } else if w == 5 {
        "Sat"
    } else {
        "Sun"
    }
}

/// The lines `"DD Www"` for the existing days `1..=last` of a month.
pub open spec fn day_lines(y: i32, m: u32, last: nat) -> Seq<Seq<char>>
    decreases last,
{
    if last == 0 {
        Seq::empty()
    } else {
        let r = day_lines(y, m, (last - 1) as nat);
        if valid_date(y as int, m as int, last as int) {
            r.push(dec2(last) + seq![' '] + weekday_abbr(weekday_from_monday(y, m, last as u32)))
        } else {
            r
        }
    }
}

/// What `generate_date_suggestions` yields for `"YYYY-MM"`: no lines unless the
/// text has exactly one `-` between a number and a month number in 1..=12;
/// else one line per day of the month.
pub open spec fn date_suggestions(s: Seq<char>) -> Result<Seq<Seq<char>>, Seq<char>> {
    let parts = split_on(s, '-');
    if parts.len() != 2 {
        Ok(Seq::empty())
    } else {
        match parse_i32_spec(parts[0]) {
            None => Ok(Seq::empty()),
            Some(y) => match parse_unsigned(parts[1], 0xffff_ffff) {
                None => Ok(Seq::empty()),
                Some(m) => if 1 <= m <= 12 {
                    Ok(day_lines(y as i32, m as u32, 31))
                } else {
                    Ok(Seq::empty())
                },
            },
        }
    }
}

/// Day suggestions for a month given as `"YYYY-MM"`: `"01 Mon"`, `"02 Tue"`, ...;
/// no lines for an invalid month format or a month out of range.
pub fn generate_date_suggestions(month_year: &str) -> (r: Result<Vec<String>, String>)
    ensures
        r is Ok,
        r matches Ok(v) ==> date_suggestions(month_year@) == Ok::<Seq<Seq<char>>, Seq<char>>(
            strs(v),
        ),
        r matches Err(e) ==> date_suggestions(month_year@) == Err::<Seq<Seq<char>>, Seq<char>>(
            e@,
        ),
{
    let v = chars_of(month_year);
    let parts = split_char(&v, '-');
    if parts.len() != 2 {
        let e: Vec<String> = Vec::new();
        assert(strs(e) =~= Seq::<Seq<char>>::empty());
        return Ok(e);
    }
    let year = match parse_i32(&parts[0]) {
        Some(y) => y,
        None => {
            let e: Vec<String> = Vec::new();
            assert(strs(e) =~= Seq::<Seq<char>>::empty());
            return Ok(e);
        },
    };
    let month = match parse_unsigned_exec(&parts[1], 0xffff_ffff) {
        Some(m) => m as u32,
        None => {
            let e: Vec<String> = Vec::new();
            assert(strs(e) =~= Seq::<Seq<char>>::empty());
            return Ok(e);
        },
    };
    if !(1 <= month && month <= 12) {
        let e: Vec<String> = Vec::new();
        assert(strs(e) =~= Seq::<Seq<char>>::empty());
        return Ok(e);
    }
    let mut out: Vec<String> = Vec::new();
    assert(strs(out) =~= day_lines(year, month, 0));
    let mut day: u32 = 1;
    while day <= 31
        invariant
            1 <= day <= 32,
            strs(out) == day_lines(year, month, (day - 1) as nat),
        decreases 32 - day,
    {
        let ghost before = strs(out);
        match calendar_weekday(year, month, day) {
            Some(w) => {
                let mut line = dec2_string(day as u64);
                push_char(&mut line, ' ');
                push_all(&mut line, weekday_abbr_exec(w));
                assert(line@ =~= dec2(day as nat) + seq![' '] + weekday_abbr(
                    weekday_from_monday(year, month, day),
                ));
                out.push(line);
                assert(strs(out) =~= before.push(line@));
            },
            None => {},
        }
        day += 1;
        assert(strs(out) =~= day_lines(year, month, (day - 1) as nat));
    }
    Ok(out)
}

/// The day number a suggestion line starts with.
pub open spec fn leading_day(s: Seq<char>) -> Option<u32> {
    match first_token(s) {
        Some(t) => match parse_unsigned(t, 0xffff_ffff) {
            Some(d) => Some(d as u32),
            None => None,
        },
        None => None,
    }
}

pub fn leading_day_exec(s: &String) -> (r: Option<u32>)
    ensures
        r == leading_day(s@),
{
    let v = chars_of(s.as_str());
    match first_token_exec(&v) {
        Some(t) => match parse_unsigned_exec(&t, 0xffff_ffff) {
            Some(d) => Some(d as u32),
            None => None,
        },
        None => None,
    }
}

/// Position of the first suggestion that starts with `day`.
pub open spec fn day_position(sugs: Seq<Seq<char>>, day: u32) -> Option<int>
    decreases sugs.len(),
{
    if sugs.len() == 0 {
        None
    } else if leading_day(sugs[0]) == Some(day) {
        Some(0)
    } else {
        match day_position(sugs.drop_first(), day) {
            Some(i) => Some(i + 1),
            None => None,
        }
    }
}

/// Index of the highlighted suggestion: that of the selected day, else the first.
pub open spec fn picker_index(sugs: Seq<Seq<char>>, sel: Option<u32>) -> int {
    match sel {
        Some(d) => match day_position(sugs, d) {
            Some(i) => i,
            None => 0,
        },
        None => 0,
    }
}

pub proof fn lemma_day_position_bounds(sugs: Seq<Seq<char>>, day: u32)
    ensures
        day_position(sugs, day) matches Some(i) ==> 0 <= i < sugs.len() && leading_day(sugs[i])
            == Some(day),
    decreases sugs.len(),
{
    if sugs.len() > 0 {
        lemma_day_position_bounds(sugs.drop_first(), day);
    }
}

/// The day a suggestion line starts with, or -1.
pub open spec fn day_of(s: Seq<char>) -> int {
    match leading_day(s) {
        Some(d) => d as int,
        None => -1,
    }
}

/// Every line of `sugs` starts with a day in 1..=`last`, the days strictly
/// increasing down the list.
pub open spec fn days_increasing(sugs: Seq<Seq<char>>, last: int) -> bool {
    &&& forall|i: int| 0 <= i < sugs.len() ==> 1 <= #[trigger] day_of(sugs[i]) <= last
    &&& forall|i: int, j: int| 0 <= i < j < sugs.len() ==> day_of(#[trigger] sugs[i]) < day_of(
        #[trigger] sugs[j],
    )
}

/// A line `DD rest` starts with the day `DD`.
pub proof fn lemma_leading_day_line(d: nat, rest: Seq<char>)
    requires
        1 <= d < 100,
    ensures
        leading_day(dec2(d) + seq![' '] + rest) == Some(d as u32),
{
    let p = dec2(d);
    if d < 10 {
        assert(dec(d) == seq![digit_char(d)]);
        assert(p =~= seq!['0', digit_char(d)]);
    } else {
        assert(dec(d / 10) == seq![digit_char(d / 10)]);
        assert(dec(d) == dec(d / 10).push(digit_char(d % 10)));
        assert(p =~= seq![digit_char(d / 10), digit_char(d % 10)]);
    }
    assert(p.len() == 2);
    assert(crate::text::all_digits(p));
    reveal_with_fuel(digits_value, 3);
    assert(p.drop_last().drop_last() =~= Seq::<char>::empty());
    assert(digits_value(p) == d);
    let x = p + seq![' '] + rest;
    assert(x[0] == p[0] && x[1] == p[1] && x[2] == ' ');
    assert(!is_ws(x[0]) && !is_ws(x[1]) && is_ws(x[2]));
    lemma_trim_start_skip(x, 0);
    assert(x.skip(0) =~= x);
    lemma_non_ws_run(x, 2);
    assert(x.take(2) =~= p);
    assert(unsigned_body(p) == p);
}

/// The day lines of a month up to day `last` start with increasing days.
pub proof fn lemma_day_lines_increasing(y: i32, m: u32, last: nat)
    requires
        last < 100,
    ensures
        days_increasing(day_lines(y, m, last), last as int),
    decreases last,
{
    if last > 0 {
        let r = day_lines(y, m, (last - 1) as nat);
        lemma_day_lines_increasing(y, m, (last - 1) as nat);
        if valid_date(y as int, m as int, last as int) {
            let line = dec2(last) + seq![' '] + weekday_abbr(weekday_from_monday(y, m, last as u32));
            lemma_leading_day_line(last, weekday_abbr(weekday_from_monday(y, m, last as u32)));
            let q = r.push(line);
            assert(day_of(q[r.len() as int]) == last);
            assert forall|i: int| 0 <= i < q.len() implies 1 <= #[trigger] day_of(q[i]) <= last by {
                if i < r.len() {
                    assert(q[i] == r[i]);
                }
            }
            assert forall|i: int, j: int| 0 <= i < j < q.len() implies day_of(#[trigger] q[i]) < day_of(
                #[trigger] q[j],
            ) by {
                assert(q[i] == r[i]);
                if j < r.len() {
                    assert(q[j] == r[j]);
                } else {
                    assert(day_of(r[i]) <= last - 1);
                }
            }
        }
    }
}

/// The date picker's suggestions for any month text start with increasing days.
pub proof fn lemma_suggestions_increasing(month_year: Seq<char>)
    ensures
        days_increasing(suggestions_or_empty(month_year), 31),
{
    let parts = split_on(month_year, '-');
    if parts.len() == 2 {
        match crate::text::parse_i32_spec(parts[0]) {
            Some(y) => match parse_unsigned(parts[1], 0xffff_ffff) {
                Some(mm) => if 1 <= mm <= 12 {
                    lemma_day_lines_increasing(y as i32, mm as u32, 31);
                },
                None => {},
            },
            None => {},
        }
    }
}

/// In a list with increasing days, each line is found at its own position.
pub proof fn lemma_day_position_of_line(sugs: Seq<Seq<char>>, last: int, i: int)
    requires
        days_increasing(sugs, last),
        0 <= i < sugs.len(),
    ensures
        leading_day(sugs[i]) is Some,
        day_position(sugs, leading_day(sugs[i])->0) == Some(i),
    decreases i,
{
    assert(1 <= day_of(sugs[i]));
    let x = leading_day(sugs[i])->0;
    if i > 0 {
        let t = sugs.drop_first();
        assert(t[i - 1] == sugs[i]);
        assert(days_increasing(t, last)) by {
            assert forall|a: int| 0 <= a < t.len() implies 1 <= #[trigger] day_of(t[a]) <= last by {
                assert(t[a] == sugs[a + 1]);
            }
            assert forall|a: int, b: int| 0 <= a < b < t.len() implies day_of(#[trigger] t[a]) < day_of(
                #[trigger] t[b],
            ) by {
                assert(t[a] == sugs[a + 1]);
                assert(t[b] == sugs[b + 1]);
            }
        }
        lemma_day_position_of_line(t, last, i - 1);
        assert(day_of(sugs[0]) < day_of(sugs[i]));
        assert(leading_day(sugs[0]) != Some(x));
    }
}

pub fn day_position_exec(sugs: &Vec<String>, day: u32) -> (r: Option<usize>)
    ensures
        r matches Some(i) ==> day_position(strs(*sugs), day) == Some(i as int),
        r is None ==> day_position(strs(*sugs), day) is None,
{
    let ghost sv = strs(*sugs);
    let mut i: usize = 0;
    assert(sv.skip(0) =~= sv);
    while i < sugs.len()
        invariant
            i <= sugs.len(),
            sv == strs(*sugs),
            forall|k: int| 0 <= k < i ==> leading_day(#[trigger] sv[k]) != Some(day),
            day_position(sv, day) == (match day_position(sv.skip(i as int), day) {
                Some(j) => Some(j + i),
                None => None,
            }),
        decreases sugs.len() - i,
    {
        assert(sv.skip(i as int)[0] == sv[i as int]);
        if leading_day_exec(&sugs[i]) == Some(day) {
            return Some(i);
        }
        assert(sv.skip(i as int).drop_first() =~= sv.skip(i + 1));
        i += 1;
    }
    None
}

/// State of the date picker overlay.
pub struct DatePickerState {
    /// The month shown, `"YYYY-MM"` (possibly partly typed).
    pub month_year: String,
    pub selected_day: Option<u32>,
    /// Day digits typed after the month.
    pub day_input: String,
    /// Lines `"DD Www"` for the days of the month.
    pub suggestions: Vec<String>,
    pub focused: bool,
}

/// The suggestion lines of a month, no lines on error.
pub open spec fn suggestions_or_empty(s: Seq<char>) -> Seq<Seq<char>> {
    match date_suggestions(s) {
        Ok(v) => v,
        Err(_) => Seq::empty(),
    }
}

pub fn suggestions_for(month_year: &str) -> (r: Vec<String>)
    ensures
        strs(r) == suggestions_or_empty(month_year@),
{
    match generate_date_suggestions(month_year) {
        Ok(v) => v,
        Err(_) => Vec::new(),
    }
}

/// The day of the first suggestion line, if any.
pub open spec fn first_day(sugs: Seq<Seq<char>>) -> Option<u32> {
    if sugs.len() > 0 {
        leading_day(sugs[0])
    } else {
        None
    }
}

pub fn first_day_exec(sugs: &Vec<String>) -> (r: Option<u32>)
    ensures
        r == first_day(strs(*sugs)),
{
    if sugs.len() > 0 {
        leading_day_exec(&sugs[0])
    } else {
        None
    }
}

/// The day highlighted after one step down (or up) through the suggestions
/// `sugs` from the highlighted day `sel`, kept in the list; `sel` when there
/// are no suggestions.
pub open spec fn stepped_day(sugs: Seq<Seq<char>>, sel: Option<u32>, down: bool) -> Option<u32> {
    let cur = picker_index(sugs, sel);
    let k = if down {
        if cur + 1 < sugs.len() {
            cur + 1
        } else {
            sugs.len() - 1
        }
    } else if cur > 0 {
        cur - 1
    } else {
        0
    };
    if sugs.len() == 0 {
        sel
    } else {
        leading_day(sugs[k])
    }
}

impl DatePickerState {
    /// A picker on `month_year` with the first day highlighted.
    pub fn new(month_year: &str) -> (p: DatePickerState)
        ensures
            p.month_year@ == month_year@,
            strs(p.suggestions) == suggestions_or_empty(month_year@),
            p.selected_day == first_day(suggestions_or_empty(month_year@)),
            p.day_input@.len() == 0,
            !p.focused,
    {
        let suggestions = suggestions_for(month_year);
        let selected_day = first_day_exec(&suggestions);
        DatePickerState {
            month_year: String::from_str(month_year),
            selected_day,
            day_input: String::new(),
            suggestions,
            focused: false,
        }
    }

    /// Highlights the next day, staying on the last one.
    pub fn select_next(&mut self)
        ensures
            final(self).selected_day == stepped_day(strs(old(self).suggestions), old(self).selected_day, true),
            final(self).suggestions == old(self).suggestions,
            final(self).month_year == old(self).month_year,
            final(self).day_input == old(self).day_input,
            final(self).focused == old(self).focused,
    {
        if self.suggestions.len() == 0 {
            return;
        }
        let cur = self.current_index();
        let next = if cur + 1 < self.suggestions.len() {
            cur + 1
        } else {
            self.suggestions.len() - 1
        };
        self.selected_day = leading_day_exec(&self.suggestions[next]);
    }

    /// Highlights the previous day, staying on the first one.
    pub fn select_prev(&mut self)
        ensures
            final(self).selected_day == stepped_day(strs(old(self).suggestions), old(self).selected_day, false),
            final(self).suggestions == old(self).suggestions,
            final(self).month_year == old(self).month_year,
            final(self).day_input == old(self).day_input,
            final(self).focused == old(self).focused,
    {
        if self.suggestions.len() == 0 {
            return;
        }
        let cur = self.current_index();
        let prev = if cur > 0 {
            cur - 1
        } else {
            0
        };
        self.selected_day = leading_day_exec(&self.suggestions[prev]);
    }

    fn current_index(&self) -> (r: usize)
        ensures
            r == picker_index(strs(self.suggestions), self.selected_day),
            self.suggestions@.len() > 0 ==> r < self.suggestions@.len(),
    {
        proof {
            if let Some(d) = self.selected_day {
                lemma_day_position_bounds(strs(self.suggestions), d);
            }
        }
        match self.selected_day {
            Some(d) => match day_position_exec(&self.suggestions, d) {
                Some(i) => i,
                None => 0,
            },
            None => 0,
        }
    }
}

// ───────────────────────── priority picker ─────────────────────────

/// The picker's items: the letters `A` to `Z`, then the "no priority" item.
pub open spec fn priority_items() -> Seq<Seq<char>> {
    Seq::new(26, |i: int| seq![(65 + i) as char]).push("\u{2014} (no priority)"@)
}

/// State of the priority picker overlay.
pub struct PriorityPickerState {
    pub items: Vec<String>,
    pub selected_idx: usize,
    /// The last letter typed to jump, upper-cased.
    pub type_char: Option<char>,
    pub focused: bool,
}

impl PriorityPickerState {
    pub fn new() -> (p: PriorityPickerState)
        ensures
            strs(p.items) == priority_items(),
            p.selected_idx == 0,
            p.type_char is None,
            !p.focused,
    {
        let mut items: Vec<String> = Vec::new();
        let mut i: u32 = 0;
        assert(strs(items) =~= Seq::new(0, |k: int| seq![(65 + k) as char]));
        while i < 26
            invariant
                i <= 26,
                strs(items) == Seq::new(i as nat, |k: int| seq![(65 + k) as char]),
            decreases 26 - i,
        {
            let mut s = String::new();
            let c = crate::text::char_from_ascii(65 + i);
            push_char(&mut s, c);
            let ghost before = strs(items);
            assert(s@ =~= seq![(65 + i) as char]);
            items.push(s);
            assert(strs(items) =~= before.push(seq![(65 + i) as char]));
            i += 1;
            assert(strs(items) =~= Seq::new(i as nat, |k: int| seq![(65 + k) as char]));
        }
        let ghost before = strs(items);
        let last = String::from_str("\u{2014} (no priority)");
        items.push(last);
        assert(strs(items) =~= before.push("\u{2014} (no priority)"@));
        assert(strs(items) =~= priority_items());
        PriorityPickerState { items, selected_idx: 0, type_char: None, focused: false }
    }

    pub fn default() -> (p: PriorityPickerState)
        ensures
            strs(p.items) == priority_items(),
            p.selected_idx == 0,
            p.type_char is None,
            !p.focused,
    {
        Self::new()
    }

    /// Moves to the next item, staying on the last.
    pub fn select_next(&mut self)
        ensures
            final(self).selected_idx == (if old(self).selected_idx + 1 < old(self).items@.len() {
                old(self).selected_idx + 1
            } else {
                old(self).selected_idx as int
            }),
            final(self).items == old(self).items,
            final(self).type_char == old(self).type_char,
            final(self).focused == old(self).focused,
    {
        if self.items.len() > 0 && self.selected_idx < self.items.len() - 1 {
            self.selected_idx = self.selected_idx + 1;
        }
    }

    /// Moves to the previous item, staying on the first.
    pub fn select_prev(&mut self)
        ensures
            final(self).selected_idx == (if old(self).selected_idx > 0 {
                old(self).selected_idx - 1
            } else {
                0
            }),
            final(self).items == old(self).items,
            final(self).type_char == old(self).type_char,
            final(self).focused == old(self).focused,
    {
        if self.selected_idx > 0 {
            self.selected_idx = self.selected_idx - 1;
        }
    }

    /// Jumps to the item that is the upper-cased `ch`, if there is one, and
    /// records the letter.
    pub fn jump_to(&mut self, ch: char)
        ensures
            ({
                let target = seq![ascii_upper(ch)];
                match first_index_of(strs(old(self).items), target) {
                    Some(i) => final(self).selected_idx == i && final(self).type_char == Some(
                        ascii_upper(ch),
                    ),
                    None => final(self).selected_idx == old(self).selected_idx
                        && final(self).type_char == old(self).type_char,
                }
            }),
            final(self).items == old(self).items,
            final(self).focused == old(self).focused,
    {
        let up = char_ascii_upper(ch);
        let mut target = String::new();
        push_char(&mut target, up);
        assert(target@ =~= seq![up]);
        match first_index_of_exec(&self.items, &target) {
            Some(i) => {
                self.selected_idx = i;
                self.type_char = Some(up);
            },
            None => {},
        }
    }

    /// The chosen priority: the item's first character when it is an upper-case
    /// ASCII letter; `None` for the "no priority" item or an index past the end.
    pub fn selected_priority(&self) -> (r: Option<char>)
        ensures
            r == (if self.selected_idx < self.items@.len() && self.items@[self.selected_idx as int]@.len() > 0
                && 'A' <= self.items@[self.selected_idx as int]@[0] <= 'Z' {
                Some(self.items@[self.selected_idx as int]@[0])
            } else {
                None
            }),
    {
        if self.selected_idx < self.items.len() {
            let v = chars_of(self.items[self.selected_idx].as_str());
            if v.len() > 0 && 'A' <= v[0] && v[0] <= 'Z' {
                return Some(v[0]);
            }
        }
        None
    }
}

/// Position of the first element equal to `t`.
pub open spec fn first_index_of(v: Seq<Seq<char>>, t: Seq<char>) -> Option<int>
    decreases v.len(),
{
    if v.len() == 0 {
        None
    } else if v[0] == t {
        Some(0)
    } else {
        match first_index_of(v.drop_first(), t) {
            Some(i) => Some(i + 1),
            None => None,
        }
    }
}

pub fn first_index_of_exec(v: &Vec<String>, t: &String) -> (r: Option<usize>)
    ensures
        r matches Some(i) ==> first_index_of(strs(*v), t@) == Some(i as int),
        r is None ==> first_index_of(strs(*v), t@) is None,
{
    let ghost sv = strs(*v);
    let mut i: usize = 0;
    assert(sv.skip(0) =~= sv);
    while i < v.len()
        invariant
            i <= v.len(),
            sv == strs(*v),
            first_index_of(sv, t@) == (match first_index_of(sv.skip(i as int), t@) {
                Some(j) => Some(j + i),
                None => None,
            }),
        decreases v.len() - i,
    {
        assert(sv.skip(i as int)[0] == v@[i as int]@);
        if v[i] == *t {
            return Some(i);
        }
        assert(sv.skip(i as int).drop_first() =~= sv.skip(i + 1));
        i += 1;
    }
    None
}

// ───────────────────────── ranking ─────────────────────────

/// `n` is a subsequence of `h` (greedy left-to-right matching).
pub open spec fn is_subseq(n: Seq<char>, h: Seq<char>) -> bool
    decreases h.len(),
{
    if n.len() == 0 {
        true
    } else if h.len() == 0 {
        false
    } else if h[0] == n[0] {
        is_subseq(n.drop_first(), h.drop_first())
    } else {
        is_subseq(n, h.drop_first())
    }
}

/// A non-empty `needle` whose characters occur in `haystack` in order.
pub open spec fn fuzzy_match(needle: Seq<char>, haystack: Seq<char>) -> bool {
    needle.len() > 0 && is_subseq(needle, haystack)
}

fn fuzzy_exec(n: &Vec<char>, h: &Vec<char>) -> (r: bool)
    ensures
        r == fuzzy_match(n@, h@),
{
    if n.len() == 0 {
        return false;
    }
    let mut i: usize = 0;
    let mut j: usize = 0;
    assert(n@.skip(0) =~= n@);
    assert(h@.skip(0) =~= h@);
    while i < h.len()
        invariant
            i <= h.len(),
            j < n.len(),
            is_subseq(n@, h@) == is_subseq(n@.skip(j as int), h@.skip(i as int)),
        decreases h.len() - i,
    {
        assert(h@.skip(i as int)[0] == h@[i as int]);
        assert(n@.skip(j as int)[0] == n@[j as int]);
        assert(h@.skip(i as int).drop_first() =~= h@.skip(i + 1));
        assert(n@.skip(j as int).drop_first() =~= n@.skip(j + 1));
        if h[i] == n[j] {
            let ghost jo = j;
            assert(is_subseq(n@.skip(jo as int), h@.skip(i as int)) == is_subseq(
                n@.skip(jo + 1),
                h@.skip(i + 1),
            ));
            j += 1;
            if j == n.len() {
                assert(n@.skip(j as int).len() == 0);
                return true;
            }
        }
        i += 1;
    }
    assert(h@.skip(i as int).len() == 0);
    assert(n@.skip(j as int).len() > 0);
    false
}

/// Whether the characters of `needle` occur in `haystack` in order; false for an
/// empty needle.
pub fn is_fuzzy_subsequence(needle: &str, haystack: &str) -> (r: bool)
    ensures
        r == fuzzy_match(needle@, haystack@),
{
    let n = chars_of(needle);
    let h = chars_of(haystack);
    fuzzy_exec(&n, &h)
}

/// How a candidate (lower-cased) matches the lower-cased typed text: 0 exact,
/// 1 prefix, 2 substring or fuzzy, 3 no match.
pub open spec fn match_class(typed: Seq<char>, cand: Seq<char>) -> nat {
    if cand == typed {
        0
    } else if is_prefix(typed, cand) {
        1
    } else if contains_seq(cand, typed) || fuzzy_match(typed, cand) {
        2
    } else {
        3
    }
}

/// The candidates of class `k`, in their original order.
pub open spec fn of_class(cands: Seq<Seq<char>>, typed: Seq<char>, k: nat) -> Seq<Seq<char>>
    decreases cands.len(),
{
    if cands.len() == 0 {
        Seq::empty()
    } else {
        let r = of_class(cands.drop_last(), typed, k);
        if match_class(typed, lowercase_of(cands.last())) == k {
            r.push(cands.last())
        } else {
            r
        }
    }
}

/// Matches for the typed text: all candidates for empty text; else the exact
/// matches, then the prefix matches, then the substring or fuzzy matches, each
/// in the candidates' order, ignoring case.
pub open spec fn ranked(typed: Seq<char>, cands: Seq<Seq<char>>) -> Seq<Seq<char>> {
    if typed.len() == 0 {
        cands
    } else {
        let t = lowercase_of(typed);
        of_class(cands, t, 0) + of_class(cands, t, 1) + of_class(cands, t, 2)
    }
}

/// Ranks quick-setter candidates against the typed prefix.
pub fn rank_matches(typed_prefix: &str, candidates: Vec<String>) -> (r: Vec<String>)
    ensures
        strs(r) == ranked(typed_prefix@, strs(candidates)),
{
    if typed_prefix.is_empty() {
        return candidates;
    }
    let tl_s = to_lowercase(typed_prefix);
    let tl = chars_of(tl_s.as_str());
    let ghost cs = strs(candidates);
    let mut exact: Vec<String> = Vec::new();
    let mut prefix: Vec<String> = Vec::new();
    let mut near: Vec<String> = Vec::new();
    let mut i: usize = 0;
    assert(cs.take(0) =~= Seq::<Seq<char>>::empty());
    assert(strs(exact) =~= Seq::<Seq<char>>::empty());
    assert(strs(prefix) =~= Seq::<Seq<char>>::empty());
    assert(strs(near) =~= Seq::<Seq<char>>::empty());
    while i < candidates.len()
        invariant
            i <= candidates.len(),
            cs == strs(candidates),
            tl@ == lowercase_of(typed_prefix@),
            strs(exact) == of_class(cs.take(i as int), tl@, 0),
            strs(prefix) == of_class(cs.take(i as int), tl@, 1),
            strs(near) == of_class(cs.take(i as int), tl@, 2),
        decreases candidates.len() - i,
    {
        let c = candidates[i].clone();
        let cl_s = to_lowercase(c.as_str());
        let cl = chars_of(cl_s.as_str());
        proof {
            assert(cs.take(i + 1).drop_last() =~= cs.take(i as int));
            assert(cs.take(i + 1).last() == c@);
        }
        let ghost (e0, p0, n0) = (strs(exact), strs(prefix), strs(near));
        if vec_eq(&cl, &tl) {
            exact.push(c);
            assert(strs(exact) =~= e0.push(cs[i as int]));
        } else if starts_with(&cl, &tl) {
            prefix.push(c);
            assert(strs(prefix) =~= p0.push(cs[i as int]));
        } else if contains(&cl, &tl) || fuzzy_exec(&tl, &cl) {
            near.push(c);
            assert(strs(near) =~= n0.push(cs[i as int]));
        }
        i += 1;
    }
    assert(cs.take(candidates.len() as int) =~= cs);
    let ghost (e1, p1) = (strs(exact), strs(prefix));
    let mut out = exact;
    out.append(&mut prefix);
    assert(strs(out) =~= e1 + p1);
    let ghost o1 = strs(out);
    out.append(&mut near);
    assert(strs(out) =~= o1 + of_class(cs, tl@, 2));
    out
}

// ───────────────────────── token sets ─────────────────────────

/// Some element of `r` has the same lower-cased form as `t`.
pub open spec fn has_lower_twin(r: Seq<Seq<char>>, t: Seq<char>) -> bool {
    exists|i: int| 0 <= i < r.len() && lowercase_of(#[trigger] r[i]) == lowercase_of(t)
}

/// The trimmed, non-empty tokens, keeping the first spelling of each token
/// that is the same when lower-cased.
pub open spec fn deduped(toks: Seq<Seq<char>>) -> Seq<Seq<char>>
    decreases toks.len(),
{
    if toks.len() == 0 {
        Seq::empty()
    } else {
        let r = deduped(toks.drop_last());
        let t = trim_seq(toks.last());
        if t.len() == 0 || has_lower_twin(r, t) {
            r
        } else {
            r.push(t)
        }
    }
}

/// Removes empty and case-insensitively repeated tokens (after trimming),
/// keeping the first spelling of each.
pub fn dedupe_tokens(tokens: Vec<String>) -> (r: Vec<String>)
    ensures
        strs(r) == deduped(strs(tokens)),
{
    let ghost ts = strs(tokens);
    let mut out: Vec<String> = Vec::new();
    let mut lows: Vec<Vec<char>> = Vec::new();
    let mut i: usize = 0;
    assert(ts.take(0) =~= Seq::<Seq<char>>::empty());
    assert(strs(out) =~= Seq::<Seq<char>>::empty());
    while i < tokens.len()
        invariant
            i <= tokens.len(),
            ts == strs(tokens),
            strs(out) == deduped(ts.take(i as int)),
            lows@.len() == out@.len(),
            forall|k: int| 0 <= k < lows@.len() ==> (#[trigger] lows@[k])@ == lowercase_of(out@[k]@),
        decreases tokens.len() - i,
    {
        proof {
            assert(ts.take(i + 1).drop_last() =~= ts.take(i as int));
            assert(ts.take(i + 1).last() == tokens@[i as int]@);
        }
        let t = trim(tokens[i].as_str());
        if !t.as_str().is_empty() {
            let tl_s = to_lowercase(t.as_str());
            let tl = chars_of(tl_s.as_str());
            let mut found = false;
            let mut k: usize = 0;
            while k < lows.len()
                invariant
                    k <= lows@.len(),
                    lows@.len() == out@.len(),
                    tl@ == lowercase_of(t@),
                    forall|q: int| 0 <= q < lows@.len() ==> (#[trigger] lows@[q])@ == lowercase_of(out@[q]@),
                    found == (exists|q: int| 0 <= q < k && lowercase_of(#[trigger] strs(out)[q]) == lowercase_of(t@)),
                decreases lows.len() - k,
            {
                assert(strs(out)[k as int] == out@[k as int]@);
                if vec_eq(&lows[k], &tl) {
                    found = true;
                }
                k += 1;
            }
            if !found {
                let ghost before = strs(out);
                out.push(t);
                lows.push(tl);
                assert(strs(out) =~= before.push(trim_seq(ts[i as int])));
                assert forall|q: int| 0 <= q < lows@.len() implies (#[trigger] lows@[q])@ == lowercase_of(out@[q]@) by {
                    if q < lows@.len() - 1 {
                    }
                }
            }
        }
        i += 1;
    }
    assert(ts.take(tokens.len() as int) =~= ts);
    out
}

/// The context tags of all tasks, task by task.
pub open spec fn all_contexts(tasks: Seq<TaskRecord>) -> Seq<Seq<char>>
    decreases tasks.len(),
{
    if tasks.len() == 0 {
        Seq::empty()
    } else {
        all_contexts(tasks.drop_last()) + strs(tasks.last().contexts)
    }
}

/// The project tags of all tasks, task by task.
pub open spec fn all_projects(tasks: Seq<TaskRecord>) -> Seq<Seq<char>>
    decreases tasks.len(),
{
    if tasks.len() == 0 {
        Seq::empty()
    } else {
        all_projects(tasks.drop_last()) + strs(tasks.last().projects)
    }
}

pub fn gather_tags(tasks: &Vec<TaskRecord>, contexts: bool) -> (r: Vec<String>)
    ensures
        strs(r) == (if contexts {
            all_contexts(tasks@)
        } else {
            all_projects(tasks@)
        }),
{
    let mut out: Vec<String> = Vec::new();
    let mut i: usize = 0;
    assert(strs(out) =~= Seq::<Seq<char>>::empty());
    while i < tasks.len()
        invariant
            i <= tasks.len(),
            strs(out) == (if contexts {
                all_contexts(tasks@.take(i as int))
            } else {
                all_projects(tasks@.take(i as int))
            }),
        decreases tasks.len() - i,
    {
        proof {
            assert(tasks@.take(i + 1).drop_last() =~= tasks@.take(i as int));
        }
        let tags = if contexts {
            &tasks[i].contexts
        } else {
            &tasks[i].projects
        };
        let ghost before = strs(out);
        let mut k: usize = 0;
        while k < tags.len()
            invariant
                k <= tags.len(),
                strs(out) == before + strs(*tags).take(k as int),
            decreases tags.len() - k,
        {
            let c = tags[k].clone();
            let ghost b2 = strs(out);
            out.push(c);
            assert(strs(out) =~= b2.push(tags@[k as int]@));
            k += 1;
            assert(strs(out) =~= before + strs(*tags).take(k as int));
        }
        assert(strs(*tags).take(tags.len() as int) =~= strs(*tags));
        i += 1;
    }
    assert(tasks@.take(tasks.len() as int) =~= tasks@);
    out
}

/// The context tags used by the tasks, without case-insensitive repeats.
pub fn get_existing_contexts(tasks: &Vec<TaskRecord>) -> (r: Vec<String>)
    ensures
        strs(r) == deduped(all_contexts(tasks@)),
{
    dedupe_tokens(gather_tags(tasks, true))
}

/// The project tags used by the tasks, without case-insensitive repeats.
pub fn get_existing_projects(tasks: &Vec<TaskRecord>) -> (r: Vec<String>)
    ensures
        strs(r) == deduped(all_projects(tasks@)),
{
    dedupe_tokens(gather_tags(tasks, false))
}

} // verus!

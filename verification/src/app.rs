//! The application state: the task list, the panes, the global view, the
//! multi-selection, the filter history and the undo entry.
//!
//! The library decides; the program around it reads files, filters and sorts
//! tasks, talks to the clipboard and draws. Where a step needs the filtered and
//! sorted order of the tasks, the caller hands it in as a list of task indices.

use vstd::prelude::*;
use crate::config::{GroupByCategory, PaneConfig, PaneLayoutPreset, PaneSort, TuiConfig};
use crate::keys::{
    Keymap, conflict_warnings, default_bindings, entries_view, entry_warnings, keymap_view,
    overrides_applied, resolve_keymap, resolved_bindings, strings_view,
};
use crate::order::{sort_by_name, sorted_by_le, names_of};
use crate::selection::TaskSelection;
use crate::state::{AutocompleteState, DatePickerState, DisplayRow, Pane, PriorityPickerState};
use crate::task::{SortOrder, TaskRecord, pane_sort_order, sort_pane_sort};
use crate::text::{dec, dec_string, push_all, trim, trim_seq};
use crate::theme::{StyleSheet, Theme, sheet_of};

verus! {

/// Interaction mode.
#[derive(Clone, Copy, Debug, PartialEq, Eq, Structural)]
pub enum AppMode {
    Normal,
    QuickSetter(char),
    Adding,
    Editing { original_idx: usize },
    PaneLabelEditing { pane_idx: usize },
    DeleteConfirm,
    /// Shows how many completed tasks an archive would move.
    ArchiveConfirm,
    Filtering,
    /// The preset definition panel.
    FilterDefining,
    /// Text to append to every selected task.
    AppendText,
    /// The warnings and errors log.
    KeymapErrors,
    Help,
    DatePicker,
    PriorityPicker,
    /// Shows how many tasks an append would change.
    AppendTextConfirm,
}

/// The filter panel: the typed expression, the preset highlighted and the
/// pane's filter when the panel opened.
pub struct FilteringState {
    pub text: String,
    pub selected_preset: usize,
    pub snapshot: String,
}

/// The preset definition panel: row 0 edits the pane's filter, row `k` the
/// preset `preset_names[k - 1]`.
pub struct FilterDefiningState {
    pub active_text: String,
    pub preset_names: Vec<String>,
    pub preset_texts: Vec<String>,
    pub selected_row: usize,
}

/// The task list and cursor before the last change.
pub struct UndoEntry {
    pub tasks: Vec<TaskRecord>,
    pub selected: usize,
}

/// Top-level application state.
pub struct App {
    pub should_quit: bool,
    /// The tasks of the todo file, in file order.
    pub tasks: Vec<TaskRecord>,
    pub todo_path: String,
    /// Cursor into `display_rows`.
    pub selected: usize,
    /// Height of the list area in rows.
    pub list_height: u16,
    pub mode: AppMode,
    /// A file change arrived outside Normal mode and waits.
    pub pending_reload: bool,
    pub autocomplete: Option<AutocompleteState>,
    pub date_picker: Option<DatePickerState>,
    pub priority_picker: Option<PriorityPickerState>,
    /// Number of tasks an append would change.
    pub append_confirm_count: usize,
    /// The task indices of the global view, in display order.
    pub display_indices: Vec<usize>,
    pub grouping: bool,
    pub group_by: GroupByCategory,
    /// The rows of the global view.
    pub display_rows: Vec<DisplayRow>,
    pub sort_order: SortOrder,
    /// Deferred tasks are shown.
    pub show_deferred: bool,
    pub filter_query: String,
    /// The filter put aside by the filter toggle.
    pub toggled_filter_query: Option<String>,
    pub filter_state: Option<FilteringState>,
    /// Filter presets, by name in ascending order.
    pub presets: Vec<(String, String)>,
    /// Pane layout presets, by name in ascending order.
    pub pane_presets: Vec<(String, PaneLayoutPreset)>,
    /// Applied filters, most recent first, each once.
    pub filter_history: std::collections::VecDeque<String>,
    /// Position of the history recall, if one is under way.
    pub filter_history_cursor: Option<usize>,
    pub config: TuiConfig,
    pub config_path: Option<String>,
    pub filter_defining_state: Option<FilterDefiningState>,
    pub styles: StyleSheet,
    pub palette: Theme,
    pub no_color: bool,
    /// Task indices marked for bulk actions.
    pub selected_tasks: TaskSelection,
    /// Task index where a range selection started.
    pub selection_anchor: Option<usize>,
    /// Space marks and unmarks tasks.
    pub disjoint_select: bool,
    pub keymap_warnings: Vec<String>,
    pub runtime_warnings: Vec<String>,
    pub effective_keymap: Keymap,
    pub help_scroll: u16,
    pub panes: Vec<Pane>,
    pub active_pane: usize,
    /// Number for the label of the next new pane.
    pub pane_counter: usize,
    /// The panes are hidden behind the single list.
    pub panes_hidden: bool,
    pub undo_entry: Option<UndoEntry>,
    /// The pane settings at startup.
    pub startup_pane_snapshot: Vec<PaneConfig>,
}

/// The most panes the application keeps.
pub const MAX_PANES: usize = 10;

/// The list is drawn as a single view: at most one pane, or no pane with rows.
pub open spec fn single_view(panes: Seq<Pane>) -> bool {
    panes.len() <= 1 || forall|i: int| 0 <= i < panes.len() ==> (#[trigger] panes[i]).display_rows@.len()
        == 0
}

/// `q` is `p` with id `id` and everything else kept.
pub open spec fn renumbered(p: Pane, q: Pane, id: int) -> bool {
    &&& q.id == id
    &&& q.display_rows == p.display_rows
    &&& q.selected == p.selected
    &&& q.filter_query == p.filter_query
    &&& q.sort_order == p.sort_order
    &&& q.grouping == p.grouping
    &&& q.group_by == p.group_by
    &&& q.label == p.label
    &&& q.label_selected == p.label_selected
}

/// A pane as `Pane::new` makes it.
pub open spec fn fresh_pane(p: Pane, id: int, label: Seq<char>) -> bool {
    &&& p.id == id
    &&& p.display_rows@.len() == 0
    &&& p.selected == 0
    &&& p.filter_query@.len() == 0
    &&& p.sort_order == SortOrder::FileOrder
    &&& !p.grouping
    &&& p.group_by == GroupByCategory::Priority
    &&& p.label@ == label
    &&& !p.label_selected
}

/// The label of the pane at `idx` configured with `label`: `Pane N` (one-based)
/// for a blank label.
pub open spec fn configured_label(label: Seq<char>, idx: int) -> Seq<char> {
    if trim_seq(label).len() == 0 {
        "Pane "@ + dec((idx + 1) as nat)
    } else {
        label
    }
}

/// `p` is the pane made from configuration `c` at position `idx`.
pub open spec fn configured_pane(p: Pane, c: PaneConfig, idx: int) -> bool {
    &&& p.id == idx
    &&& p.label@ == configured_label(c.label@, idx)
    &&& p.filter_query@ == c.filter@
    &&& p.sort_order == pane_sort_order(c.sort)
    &&& p.grouping == c.group
    &&& p.group_by == (match c.group_by {
        Some(g) => g,
        None => GroupByCategory::Priority,
    })
    &&& p.display_rows@.len() == 0
    &&& p.selected == 0
    &&& !p.label_selected
}

/// `panes` are the panes made from `cfgs`: one per entry, or one unlabelled pane
/// when there is none.
pub open spec fn panes_made_from(cfgs: Seq<PaneConfig>, panes: Seq<Pane>) -> bool {
    if cfgs.len() == 0 {
        panes.len() == 1 && fresh_pane(panes[0], 0, Seq::empty())
    } else {
        &&& panes.len() == cfgs.len()
        &&& forall|i: int| 0 <= i < cfgs.len() ==> configured_pane(#[trigger] panes[i], cfgs[i], i)
    }
}

/// The settings of a pane as they are saved.
pub open spec fn saved_config(p: Pane, c: PaneConfig) -> bool {
    &&& c.label@ == p.label@
    &&& c.filter@ == p.filter_query@
    &&& c.sort == sort_pane_sort(p.sort_order)
    &&& c.group == p.grouping
    &&& c.group_by == Some(p.group_by)
}

/// The named filters of the configuration that hold an expression.
pub open spec fn defined_filters(f: Seq<(String, crate::config::TuiPreset)>) -> Seq<(String, String)>
    decreases f.len(),
{
    if f.len() == 0 {
        Seq::empty()
    } else {
        let rest = defined_filters(f.drop_last());
        match f.last().1.filter {
            Some(x) => rest.push((f.last().0, x)),
            None => rest,
        }
    }
}

/// The cursor of every pane lies on a row, or at 0.
pub open spec fn cursors_ok(panes: Seq<Pane>) -> bool {
    forall|i: int| 0 <= i < panes.len() ==> (#[trigger] panes[i]).selected == 0 || panes[i].selected
        < panes[i].display_rows@.len()
}

/// The label `Pane N`.
pub fn pane_number_label(n: usize) -> (r: String)
    ensures
        r@ == "Pane "@ + dec(n as nat),
{
    let mut s = String::from_str("Pane ");
    proof {
        reveal_strlit("Pane ");
    }
    let d = dec_string(n as u64);
    push_all(&mut s, d.as_str());
    s
}

impl PaneLayoutPreset {
    /// A copy of the layout.
    pub fn duplicate(&self) -> (r: PaneLayoutPreset)
        ensures
            r.panes@.len() == self.panes@.len(),
            forall|i: int| 0 <= i < r.panes@.len() ==> (#[trigger] r.panes@[i]).same(self.panes@[i]),
    {
        let mut v: Vec<PaneConfig> = Vec::new();
        let mut i: usize = 0;
        while i < self.panes.len()
            invariant
                i <= self.panes@.len(),
                v@.len() == i,
                forall|k: int| 0 <= k < i ==> (#[trigger] v@[k]).same(self.panes@[k]),
            decreases self.panes.len() - i,
        {
            v.push(self.panes[i].duplicate());
            i += 1;
        }
        PaneLayoutPreset { panes: v }
    }
}

/// The panes a list of pane configurations describes; one unlabelled pane when
/// the list is empty.
pub fn panes_from_configs(cfgs: &Vec<PaneConfig>) -> (r: Vec<Pane>)
    ensures
        panes_made_from(cfgs@, r@),
{
    let mut panes: Vec<Pane> = Vec::new();
    let mut i: usize = 0;
    while i < cfgs.len()
        invariant
            i <= cfgs@.len(),
            panes@.len() == i,
            forall|k: int| 0 <= k < i ==> configured_pane(#[trigger] panes@[k], cfgs@[k], k),
        decreases cfgs.len() - i,
    {
        let c = &cfgs[i];
        let t = trim(c.label.as_str());
        let label = if t.as_str().is_empty() {
            pane_number_label(i + 1)
        } else {
            c.label.clone()
        };
        let mut pane = Pane::new(i, label);
        pane.filter_query = c.filter.clone();
        pane.sort_order = c.sort.to_sort_order();
        pane.grouping = c.group;
        pane.group_by = match c.group_by {
            Some(g) => g,
            None => GroupByCategory::Priority,
        };
        panes.push(pane);
        i += 1;
    }
    if panes.len() == 0 {
        panes.push(Pane::new(0, String::new()));
    }
    panes
}

impl App {
    /// The state every method keeps: at least one pane, the active pane among
    /// them, and every pane's cursor on one of its rows (or at 0).
    pub open spec fn wf(self) -> bool {
        &&& self.panes@.len() >= 1
        &&& self.active_pane < self.panes@.len()
        &&& cursors_ok(self.panes@)
    }

    /// The panes configured in `config`.
    pub fn panes_from_config(config: &TuiConfig) -> (r: Vec<Pane>)
        ensures
            panes_made_from(config.panes@, r@),
    {
        panes_from_configs(&config.panes)
    }

    /// A new application state on the tasks of `todo_path`. The views hold no
    /// rows until the caller hands in the filtered orders (`rebuild_all_panes`,
    /// `rebuild_and_reanchor`).
    pub fn new(
        tasks: Vec<TaskRecord>,
        todo_path: String,
        config: TuiConfig,
        config_path: Option<String>,
        palette: Theme,
        no_color: bool,
    ) -> (app: App)
        requires
            config.panes@.len() + 1 <= usize::MAX,
        ensures
            app.wf(),
            app.tasks == tasks,
            app.todo_path == todo_path,
            app.config == config,
            app.config_path == config_path,
            app.palette == palette,
            app.no_color == no_color,
            app.styles == sheet_of(palette, no_color),
            app.mode == AppMode::Normal,
            !app.should_quit,
            app.selected == 0,
            app.active_pane == 0,
            panes_made_from(config.panes@, app.panes@),
            app.pane_counter == app.panes@.len() + 1,
            app.startup_pane_snapshot@.len() == app.panes@.len(),
            forall|i: int| 0 <= i < app.panes@.len() ==> saved_config(
                #[trigger] app.panes@[i],
                app.startup_pane_snapshot@[i],
            ),
            app.presets@.to_multiset() == defined_filters(config.presets.filter@).to_multiset(),
            sorted_by_le(names_of(app.presets@)),
            names_of(app.pane_presets@).to_multiset() == names_of(config.presets.panes@).to_multiset(),
            sorted_by_le(names_of(app.pane_presets@)),
            keymap_view(app.effective_keymap) == resolved_bindings(entries_view(config.keymap)),
            strings_view(app.keymap_warnings) == entry_warnings(entries_view(config.keymap)) + conflict_warnings(
                overrides_applied(entries_view(config.keymap)),
                default_bindings().len() as int,
            ),
            app.selected_tasks@ == Set::<usize>::empty(),
            app.selection_anchor is None,
            !app.disjoint_select,
            app.filter_history@.len() == 0,
            app.filter_history_cursor is None,
            app.runtime_warnings@.len() == 0,
            app.undo_entry is None,
            !app.panes_hidden,
            app.display_rows@.len() == 0,
            app.display_indices@.len() == 0,
            app.filter_query@.len() == 0,
            app.sort_order == SortOrder::FileOrder,
            !app.grouping,
            app.group_by == GroupByCategory::Priority,
            !app.show_deferred,
            app.autocomplete is None,
            app.date_picker is None,
            app.priority_picker is None,
            app.filter_state is None,
            app.filter_defining_state is None,
            !app.pending_reload,
            app.list_height == 0,
            app.help_scroll == 0,
            app.append_confirm_count == 0,
            app.toggled_filter_query is None,
    {
        let mut named: Vec<(String, String)> = Vec::new();
        let mut i: usize = 0;
        while i < config.presets.filter.len()
            invariant
                i <= config.presets.filter@.len(),
                named@ == defined_filters(config.presets.filter@.take(i as int)),
            decreases config.presets.filter.len() - i,
        {
            proof {
                let t = config.presets.filter@.take(i + 1);
                assert(t.drop_last() =~= config.presets.filter@.take(i as int));
                assert(t.last() == config.presets.filter@[i as int]);
            }
            match &config.presets.filter[i].1.filter {
                Some(f) => {
                    named.push((config.presets.filter[i].0.clone(), f.clone()));
                },
                None => {},
            }
            i += 1;
        }
        assert(config.presets.filter@.take(config.presets.filter@.len() as int)
            =~= config.presets.filter@);
        let presets = sort_by_name(named);
        let mut layouts: Vec<(String, PaneLayoutPreset)> = Vec::new();
        let mut j: usize = 0;
        while j < config.presets.panes.len()
            invariant
                j <= config.presets.panes@.len(),
                names_of(layouts@) == names_of(config.presets.panes@.take(j as int)),
            decreases config.presets.panes.len() - j,
        {
            let ghost before = layouts@;
            layouts.push((config.presets.panes[j].0.clone(), config.presets.panes[j].1.duplicate()));
            proof {
                assert(names_of(layouts@) =~= names_of(before).push(config.presets.panes@[j as int].0@));
                assert(names_of(config.presets.panes@.take(j + 1)) =~= names_of(
                    config.presets.panes@.take(j as int),
                ).push(config.presets.panes@[j as int].0@));
            }
            j += 1;
        }
        assert(config.presets.panes@.take(config.presets.panes@.len() as int)
            =~= config.presets.panes@);
        let ghost unsorted = layouts@;
        let pane_presets = sort_by_name(layouts);
        proof {
            lemma_names_multiset(unsorted, pane_presets@);
        }
        let (effective_keymap, keymap_warnings) = resolve_keymap(&config);
        let panes = panes_from_configs(&config.panes);
        let mut snapshot: Vec<PaneConfig> = Vec::new();
        let mut k: usize = 0;
        while k < panes.len()
            invariant
                k <= panes@.len(),
                snapshot@.len() == k,
                forall|m: int| 0 <= m < k ==> saved_config(#[trigger] panes@[m], snapshot@[m]),
            decreases panes.len() - k,
        {
            snapshot.push(
                PaneConfig {
                    label: panes[k].label.clone(),
                    filter: panes[k].filter_query.clone(),
                    sort: PaneSort::from_sort_order(panes[k].sort_order),
                    group: panes[k].grouping,
                    group_by: Some(panes[k].group_by),
                },
            );
            k += 1;
        }
        let pane_counter = panes.len() + 1;
        App {
            should_quit: false,
            tasks,
            todo_path,
            selected: 0,
            list_height: 0,
            mode: AppMode::Normal,
            pending_reload: false,
            autocomplete: None,
            date_picker: None,
            priority_picker: None,
            append_confirm_count: 0,
            display_indices: Vec::new(),
            grouping: false,
            group_by: GroupByCategory::Priority,
            display_rows: Vec::new(),
            sort_order: SortOrder::FileOrder,
            show_deferred: false,
            filter_query: String::new(),
            toggled_filter_query: None,
            filter_state: None,
            presets,
            pane_presets,
            filter_history: std::collections::VecDeque::new(),
            filter_history_cursor: None,
            config,
            config_path,
            filter_defining_state: None,
            styles: StyleSheet::from_theme(palette, no_color),
            palette,
            no_color,
            selected_tasks: TaskSelection::new(),
            selection_anchor: None,
            disjoint_select: false,
            keymap_warnings,
            runtime_warnings: Vec::new(),
            effective_keymap,
            help_scroll: 0,
            panes,
            active_pane: 0,
            pane_counter,
            panes_hidden: false,
            undo_entry: None,
            startup_pane_snapshot: snapshot,
        }
    }
}

/// Sorting by name keeps the multiset of names.
pub proof fn lemma_names_multiset<T>(a: Seq<(String, T)>, b: Seq<(String, T)>)
    requires
        a.to_multiset() == b.to_multiset(),
    ensures
        names_of(a).to_multiset() == names_of(b).to_multiset(),
    decreases a.len(),
{
    broadcast use vstd::seq_lib::group_to_multiset_ensures;
    if a.len() == 0 {
        assert(b.to_multiset().len() == 0);
        assert(b.len() == 0);
        assert(names_of(a) =~= Seq::<Seq<char>>::empty());
        assert(names_of(b) =~= Seq::<Seq<char>>::empty());
    } else {
        let x = a.last();
        assert(a.to_multiset().contains(x)) by {
            assert(a.contains(x)) by {
                assert(a[a.len() - 1] == x);
            }
        }
        assert(b.contains(x));
        let k = choose|k: int| 0 <= k < b.len() && b[k] == x;
        let a1 = a.drop_last();
        let b1 = b.remove(k);
        vstd::seq_lib::to_multiset_remove(b, k);
        assert(a =~= a1.push(x));
        vstd::seq_lib::to_multiset_build(a1, x);
        assert(a1.to_multiset() =~= a.to_multiset().remove(x));
        lemma_names_multiset(a1, b1);
        assert(names_of(a) =~= names_of(a1).push(x.0@));
        vstd::seq_lib::to_multiset_build(names_of(a1), x.0@);
        assert(names_of(b1) =~= names_of(b).remove(k));
        vstd::seq_lib::to_multiset_remove(names_of(b), k);
        assert(names_of(b)[k] == x.0@);
        assert(names_of(b).to_multiset() =~= names_of(b1).to_multiset().insert(x.0@));
    }
}

} // verus!

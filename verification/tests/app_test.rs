use std::collections::VecDeque;
use todotxt_tui::app::{App, AppMode, FilterDefiningState, FilteringState};
use todotxt_tui::commands::NormalCommand;
use todotxt_tui::config::{GroupByCategory, PaneConfig, PaneLayoutPreset, PaneSort, TuiConfig, TuiPreset};
use todotxt_tui::define::DefineOutcome;
use todotxt_tui::editor::SaveKind;
use todotxt_tui::filtering::{compute_filter_autocomplete, FilterOutcome};
use todotxt_tui::history::{move_line, PaneMove};
use todotxt_tui::edits::{append_line, done_file_content, paste_lines};
use todotxt_tui::keys::{lookup_binding_exec, resolve_keymap, KeyCode, KeyEvent, KeyModifiers};
use todotxt_tui::modes::PickerOutcome;
use todotxt_tui::state::{AutocompleteMode, AutocompleteState, DatePickerState, DisplayRow, Pane};
use todotxt_tui::status::{format_status_filter, status_hints_text};
use todotxt_tui::pane_list::{cursor_on_marked, placeholder_text, truncation_ok, PaneList, RowStyle};
use todotxt_tui::selection::TaskSelection;
use todotxt_tui::task::{group_by_name, DueStatus, TaskRecord};
use todotxt_tui::theme::Theme;

/// A task record as the todo file's parser would describe `line`.
fn rec(line: &str) -> TaskRecord {
    let completed = line.starts_with("x ");
    let body = if completed { &line[2..] } else { line };
    let b = body.as_bytes();
    let priority = if !completed && b.len() >= 4 && b[0] == b'(' && b[2] == b')' && b[3] == b' '
        && b[1].is_ascii_uppercase()
    {
        Some(b[1] as char)
    } else {
        None
    };
    let mut projects = Vec::new();
    let mut contexts = Vec::new();
    let mut due_date = None;
    for w in line.split_whitespace() {
        if let Some(p) = w.strip_prefix('+') {
            if !p.is_empty() {
                projects.push(p.to_string());
            }
        } else if let Some(c) = w.strip_prefix('@') {
            if !c.is_empty() {
                contexts.push(c.to_string());
            }
        } else if let Some(d) = w.strip_prefix("due:") {
            due_date = Some(d.to_string());
        }
    }
    let due_status = if due_date.is_some() { DueStatus::Upcoming } else { DueStatus::NoDueDate };
    TaskRecord {
        raw: line.to_string(),
        completed,
        priority,
        projects,
        contexts,
        due_date,
        due_status,
        deferred: false,
    }
}

fn every(app: &App) -> Vec<usize> {
    (0..app.tasks.len()).collect()
}

/// Hands the views every task in file order (no filter, no sort).
fn refresh(app: &mut App) {
    let all = every(app);
    let views: Vec<Vec<usize>> = (0..app.panes.len()).map(|_| all.clone()).collect();
    app.rebuild_all_panes(&views);
    app.rebuild_and_reanchor(&all, &all);
}

fn make_app_with_config(lines: &[&str], config: TuiConfig) -> App {
    let tasks: Vec<TaskRecord> = lines.iter().map(|l| rec(l)).collect();
    let mut app = App::new(tasks, "todo.txt".to_string(), config, None, Theme::Default, true);
    refresh(&mut app);
    app
}

fn make_app_with_tasks(lines: &[&str]) -> App {
    make_app_with_config(lines, TuiConfig::default())
}

fn pane_config(label: &str) -> PaneConfig {
    PaneConfig {
        label: label.to_string(),
        filter: String::new(),
        sort: PaneSort::default(),
        group: false,
        group_by: None,
    }
}

fn make_two_pane_app(lines: &[&str]) -> App {
    let mut config = TuiConfig::default();
    config.panes = vec![pane_config("All"), pane_config("Work")];
    make_app_with_config(lines, config)
}

fn key(code: KeyCode, modifiers: KeyModifiers) -> KeyEvent {
    KeyEvent { code, modifiers }
}

fn shift() -> KeyModifiers {
    KeyModifiers::shift_only()
}

/// Presses a key in Normal mode and carries out the commands that only change
/// the view state (the others are returned for the caller to carry out).
fn press_with(app: &mut App, code: KeyCode, modifiers: KeyModifiers) -> NormalCommand {
    let cmd = app.classify_normal_key(&key(code, modifiers));
    match cmd {
        NormalCommand::Quit => app.should_quit = true,
        NormalCommand::ClearSelection => app.clear_selection(),
        NormalCommand::FocusPrev => {
            app.focus_prev_pane();
            refresh(app);
        }
        NormalCommand::FocusNext => {
            app.focus_next_pane();
            refresh(app);
        }
        NormalCommand::ExtendDown => app.move_cursor(true, true),
        NormalCommand::ExtendUp => app.move_cursor(false, true),
        NormalCommand::MoveDown => app.move_cursor(true, false),
        NormalCommand::MoveUp => app.move_cursor(false, false),
        NormalCommand::EditPaneLabel => app.start_pane_label_edit(),
        NormalCommand::HalfPageUpExtend => app.half_page_move(false, true),
        NormalCommand::HalfPageUp => app.half_page_move(false, false),
        NormalCommand::HalfPageDownExtend => app.half_page_move(true, true),
        NormalCommand::HalfPageDown => app.half_page_move(true, false),
        NormalCommand::FilterToggle => {
            app.filter_toggle();
            refresh(app);
        }
        NormalCommand::DisjointMark => app.pane_toggle_task_selection(),
        NormalCommand::DisjointToggle => app.toggle_disjoint_select(),
        NormalCommand::Add => app.start_add(),
        NormalCommand::Edit => {
            app.start_edit();
        }
        NormalCommand::SortCycle => {
            app.cycle_active_sort();
            refresh(app);
        }
        NormalCommand::BulkAppend => app.start_bulk_append(),
        NormalCommand::FilterOpen => app.open_filter_panel(),
        NormalCommand::FilterDefine => app.open_filter_define(),
        NormalCommand::GroupToggle => {
            app.toggle_active_grouping();
            refresh(app);
        }
        NormalCommand::GroupByCycle => {
            app.cycle_active_group_by();
            refresh(app);
        }
        NormalCommand::DeferredToggle => app.toggle_deferred(),
        NormalCommand::ErrorLog => app.mode = AppMode::KeymapErrors,
        NormalCommand::Help => app.mode = AppMode::Help,
        NormalCommand::ClearFilter => {
            app.clear_active_filter();
            refresh(app);
        }
        NormalCommand::PresetFilter(c) => {
            if app.apply_preset_filter(c) {
                refresh(app);
            }
        }
        NormalCommand::PaneAdd => {
            app.pane_add();
            refresh(app);
        }
        NormalCommand::PaneDelete => {
            app.pane_delete();
            refresh(app);
        }
        NormalCommand::PaneHideToggle => app.pane_hide_toggle(),
        _ => {}
    }
    cmd
}

fn press_key(app: &mut App, code: KeyCode) -> NormalCommand {
    press_with(app, code, KeyModifiers::none())
}

fn press_ctrl_key(app: &mut App, code: KeyCode) -> NormalCommand {
    press_with(app, code, KeyModifiers::ctrl())
}

fn press_shift_key(app: &mut App, code: KeyCode) -> NormalCommand {
    press_with(app, code, shift())
}

/// Deletes the task a single delete targets, as the caller of
/// `request_delete` does when no confirmation opens.
fn delete_now(app: &mut App) {
    if let Some(t) = app.delete_target() {
        app.push_undo_entry();
        app.tasks.remove(t);
        app.finish_delete();
        app.prune_stale_selections();
        refresh(app);
    }
}

fn press_delete(app: &mut App, code: KeyCode) {
    let cmd = press_key(app, code);
    assert_eq!(cmd, NormalCommand::Delete);
    if !app.request_delete() {
        delete_now(app);
    }
}

fn raws(app: &App) -> Vec<String> {
    app.tasks.iter().map(|t| t.raw.clone()).collect()
}

// ── canonical selection state ───────────────────────────────────────────────

#[test]
fn selection_state_initialized_empty() {
    let app = make_app_with_tasks(&["Task one", "Task two"]);
    assert!(app.selected_tasks.is_empty(), "selected_tasks should be empty on init");
    assert!(app.selection_anchor.is_none(), "selection_anchor should be None on init");
    assert!(!app.disjoint_select, "disjoint_select should be false on init");
}

#[test]
fn toggle_task_selection_adds_canonical_index() {
    let mut app = make_app_with_tasks(&["Task one", "Task two"]);
    app.toggle_task_selection();
    assert!(app.selected_tasks.contains(&0), "canonical index 0 should be in selected_tasks after toggle");
}

#[test]
fn toggle_task_selection_removes_if_already_selected() {
    let mut app = make_app_with_tasks(&["Task one", "Task two"]);
    app.selected_tasks.insert(0);
    app.toggle_task_selection();
    assert!(!app.selected_tasks.contains(&0), "canonical index 0 should be removed after second toggle");
}

#[test]
fn toggle_task_selection_no_op_on_group_header() {
    let mut app = make_app_with_tasks(&["Task one", "Task two"]);
    app.display_rows = vec![DisplayRow::GroupHeader("Header".to_string()), DisplayRow::Task(0)];
    app.selected = 0;
    app.toggle_task_selection();
    assert!(app.selected_tasks.is_empty(), "GroupHeader row must never enter selected_tasks");
}

// ── pane keys ───────────────────────────────────────────────────────────────

#[test]
fn ctrl_n_triggers_pane_add_not_add_mode() {
    let mut app = make_app_with_tasks(&["Task one", "Task two"]);
    assert_eq!(app.mode, AppMode::Normal);
    assert_eq!(app.panes.len(), 1);

    press_ctrl_key(&mut app, KeyCode::Char('n'));

    assert_eq!(app.mode, AppMode::Normal, "Ctrl+N should not enter Adding mode");
    assert_eq!(app.panes.len(), 2, "Ctrl+N should add a pane");
}

#[test]
fn ctrl_w_triggers_pane_delete_not_noop() {
    let mut app = make_app_with_tasks(&["Task one", "Task two"]);
    app.pane_add();
    assert_eq!(app.panes.len(), 2);

    press_ctrl_key(&mut app, KeyCode::Char('w'));

    assert_eq!(app.panes.len(), 1, "Ctrl+W should delete active pane");
    assert_eq!(app.mode, AppMode::Normal);
}

#[test]
fn ctrl_p_triggers_pane_hide_toggle() {
    let mut app = make_app_with_tasks(&["Task one", "Task two"]);
    assert!(!app.panes_hidden);

    press_ctrl_key(&mut app, KeyCode::Char('p'));
    assert!(app.panes_hidden, "Ctrl+P should hide panes");

    press_ctrl_key(&mut app, KeyCode::Char('p'));
    assert!(!app.panes_hidden, "Ctrl+P should toggle panes back on");
}

#[test]
fn edit_targets_selected_row_in_active_pane() {
    let mut app = make_app_with_tasks(&["task A", "task B", "task C"]);
    app.pane_add();
    refresh(&mut app);
    assert!(!app.should_show_single_pane(), "must be in multi-pane mode");

    let a = app.active_pane;
    app.panes[a].selected = 1;
    press_key(&mut app, KeyCode::Char('u'));

    match app.mode {
        AppMode::Editing { original_idx } => {
            assert_eq!(original_idx, 1, "edit should target selected row, not first row");
        }
        _ => panic!("expected Editing mode after edit key"),
    }
}

#[test]
fn delete_targets_selected_row_in_active_pane() {
    let mut app = make_app_with_tasks(&["task A", "task B", "task C"]);
    app.pane_add();
    refresh(&mut app);
    assert!(!app.should_show_single_pane(), "must be in multi-pane mode");

    let a = app.active_pane;
    app.panes[a].selected = 1;

    press_delete(&mut app, KeyCode::Char('d'));
    assert_eq!(app.tasks.len(), 2);
    assert_eq!(app.tasks[0].raw, "task A");
    assert_eq!(app.tasks[1].raw, "task C");
    assert_eq!(app.mode, AppMode::Normal, "single delete should not enter confirmation mode");
}

#[test]
fn active_canonical_selected_filters_stale_global_index() {
    let mut app = make_app_with_tasks(&["task A", "task B"]);
    app.display_rows = vec![DisplayRow::Task(999)];
    app.selected = 0;

    assert_eq!(app.active_canonical_selected(), None);
}

#[test]
fn delete_confirm_y_with_stale_index_is_noop_not_panic() {
    let mut app = make_app_with_tasks(&["task A", "task B"]);
    app.display_rows = vec![DisplayRow::Task(999)];
    app.selected = 0;
    app.mode = AppMode::DeleteConfirm;

    let doomed = app.handle_delete_confirm_key(true);

    assert!(doomed.is_empty(), "stale index should not delete any task");
    assert_eq!(app.tasks.len(), 2, "stale index should not delete any task");
    assert_eq!(app.mode, AppMode::Normal, "mode should return to normal");
}

#[test]
fn single_delete_with_duplicate_content_targets_cursor_row() {
    let mut app = make_app_with_tasks(&["n", "n", "n", "n", "n"]);
    app.selected = 3;

    press_delete(&mut app, KeyCode::Char('d'));
    assert_eq!(app.tasks.len(), 4);
    assert_eq!(app.mode, AppMode::Normal);
}

#[test]
fn single_selected_task_delete_with_duplicate_content_no_panic() {
    let mut app = make_app_with_tasks(&["n", "n", "n", "n", "n"]);

    app.disjoint_select = true;
    app.selected = 2;
    app.panes[0].selected = 2;
    press_key(&mut app, KeyCode::Char(' '));
    assert_eq!(app.selected_tasks.len(), 1);

    press_delete(&mut app, KeyCode::Char('d'));
    assert_eq!(app.tasks.len(), 4, "single selected delete should remove one task");
    assert!(app.selected_tasks.is_empty(), "selection should clear after delete path");
    assert_eq!(app.mode, AppMode::Normal);
}

#[test]
fn backspace_alias_deletes_single_task_immediately() {
    let mut app = make_app_with_tasks(&["task A", "task B", "task C"]);
    app.selected = 1;

    press_delete(&mut app, KeyCode::Backspace);

    assert_eq!(raws(&app), vec!["task A".to_string(), "task C".to_string()]);
    assert_eq!(app.mode, AppMode::Normal);
}

#[test]
fn delete_key_alias_deletes_single_task_immediately() {
    let mut app = make_app_with_tasks(&["task A", "task B", "task C"]);
    app.selected = 1;

    press_delete(&mut app, KeyCode::Delete);

    assert_eq!(raws(&app), vec!["task A".to_string(), "task C".to_string()]);
    assert_eq!(app.mode, AppMode::Normal);
}

#[test]
fn delete_with_multiple_selected_tasks_still_prompts_confirmation() {
    let mut app = make_app_with_tasks(&["task A", "task B", "task C"]);
    app.disjoint_select = true;
    app.selected_tasks.insert(0);
    app.selected_tasks.insert(2);
    assert_eq!(app.selected_tasks.len(), 2);

    press_delete(&mut app, KeyCode::Char('d'));

    assert_eq!(app.mode, AppMode::DeleteConfirm, "multi-delete should still require confirmation");
    assert_eq!(app.tasks.len(), 3, "tasks should remain until confirmation");
}

#[test]
fn delete_rebuilds_inactive_panes_to_prevent_stale_indices() {
    let mut app = make_app_with_tasks(&["n", "n", "n"]);
    app.pane_add();
    refresh(&mut app);
    assert_eq!(app.panes.len(), 2);

    app.active_pane = 1;
    app.panes[1].selected = 1;
    press_delete(&mut app, KeyCode::Char('d'));
    assert_eq!(app.mode, AppMode::Normal);

    for pane in &app.panes {
        for row in &pane.display_rows {
            if let DisplayRow::Task(idx) = row {
                assert!(*idx < app.tasks.len(), "pane contains stale canonical index after delete");
            }
        }
    }
}

// ── disjoint selection keys ─────────────────────────────────────────────────

#[test]
fn v_key_toggles_disjoint_select_on() {
    let mut app = make_app_with_tasks(&["Task one", "Task two"]);
    assert!(!app.disjoint_select);
    press_key(&mut app, KeyCode::Char('v'));
    assert!(app.disjoint_select, "v should enable disjoint_select");
}

#[test]
fn v_key_toggles_disjoint_select_off() {
    let mut app = make_app_with_tasks(&["Task one", "Task two"]);
    app.disjoint_select = true;
    press_key(&mut app, KeyCode::Char('v'));
    assert!(!app.disjoint_select, "v should disable disjoint_select when already on");
}

#[test]
fn space_toggles_task_in_disjoint_mode() {
    let mut app = make_app_with_tasks(&["Task one", "Task two"]);
    app.disjoint_select = true;
    press_key(&mut app, KeyCode::Char(' '));
    assert!(app.selected_tasks.contains(&0), "Space should add cursor task to selected_tasks in disjoint mode");
}

#[test]
fn s_opens_date_picker_when_selected_tasks_exist_even_on_group_header_cursor() {
    let mut app = make_app_with_tasks(&["Task one", "Task two"]);
    app.selected_tasks.insert(1);
    app.display_rows = vec![
        DisplayRow::GroupHeader("Header".to_string()),
        DisplayRow::Task(0),
        DisplayRow::Task(1),
    ];
    app.selected = 0;

    let cmd = press_key(&mut app, KeyCode::Char('s'));
    assert_eq!(cmd, NormalCommand::DatePicker);
    assert!(app.open_date_picker("2026-07"));

    assert_eq!(app.mode, AppMode::DatePicker, "'s' should open date picker when selection exists");
    assert!(app.date_picker.is_some());
}

#[test]
fn date_picker_enter_applies_due_date_to_selected_tasks() {
    let mut app = make_app_with_tasks(&["Task one", "Task two"]);
    app.selected_tasks.insert(0);
    app.selected_tasks.insert(1);
    app.mode = AppMode::DatePicker;
    app.date_picker = Some(DatePickerState::new("2032-02"));
    if let Some(ref mut dp) = app.date_picker {
        dp.selected_day = Some(29);
    }

    let outcome = app.handle_date_picker_key(&key(KeyCode::Enter, KeyModifiers::none()));

    match outcome {
        PickerOutcome::SetDue { year, month, day, mut targets } => {
            assert_eq!((year, month, day), (2032, 2, 29));
            targets.sort();
            assert_eq!(targets, vec![0, 1]);
        }
        _ => panic!("expected a due date for the marked tasks"),
    }
    assert_eq!(app.mode, AppMode::Normal);
}

#[test]
fn date_picker_supports_typing_month_then_day() {
    let mut app = make_app_with_tasks(&["Task one"]);
    app.mode = AppMode::DatePicker;
    app.date_picker = Some(DatePickerState {
        month_year: String::new(),
        selected_day: None,
        day_input: String::new(),
        suggestions: vec![],
        focused: false,
    });

    for ch in ['2', '0', '3', '2', '-', '0', '2', '2', '9'] {
        app.handle_date_picker_key(&key(KeyCode::Char(ch), KeyModifiers::none()));
    }

    let dp = app.date_picker.as_ref().unwrap();
    assert_eq!(dp.month_year, "2032-02");
    assert_eq!(dp.day_input, "29");
    assert_eq!(dp.selected_day, Some(29));
}

#[test]
fn date_picker_allows_direct_full_date_typing_without_backspacing_default() {
    let mut app = make_app_with_tasks(&["Task one"]);
    app.mode = AppMode::DatePicker;
    app.date_picker = Some(DatePickerState::new("2026-04"));

    for ch in ['2', '0', '3', '1', '-', '1', '2', '2', '5'] {
        app.handle_date_picker_key(&key(KeyCode::Char(ch), KeyModifiers::none()));
    }

    let dp = app.date_picker.as_ref().unwrap();
    assert_eq!(dp.month_year, "2031-12");
    assert_eq!(dp.day_input, "25");
}

#[test]
fn y_copies_active_task_to_clipboard() {
    let mut app = make_app_with_tasks(&["copy me"]);
    let cmd = press_key(&mut app, KeyCode::Char('y'));
    assert_eq!(cmd, NormalCommand::Copy);
    let (text, n) = app.copy_text().expect("a task to copy");
    assert_eq!(text, "copy me");
    assert_eq!(n, 1);
}

#[test]
fn y_copies_selected_tasks_in_descending_canonical_order() {
    let mut app = make_app_with_tasks(&["task A", "task B", "task C"]);
    app.selected_tasks.insert(0);
    app.selected_tasks.insert(2);
    let cmd = press_key(&mut app, KeyCode::Char('y'));
    assert_eq!(cmd, NormalCommand::Copy);
    let (text, n) = app.copy_text().expect("tasks to copy");
    assert_eq!(text, "task C\ntask A");
    assert_eq!(n, 2);
}

#[test]
fn cut_composes_copy_then_delete_for_single_selected_task() {
    let mut app = make_app_with_tasks(&["task A", "task B"]);

    app.disjoint_select = true;
    app.selected = 1;
    app.panes[0].selected = 1;
    press_key(&mut app, KeyCode::Char(' '));
    assert_eq!(press_key(&mut app, KeyCode::Char('y')), NormalCommand::Copy);
    let (text, _) = app.copy_text().expect("task to copy");
    assert_eq!(text, "task B");
    press_delete(&mut app, KeyCode::Char('d'));

    assert_eq!(raws(&app), vec!["task A".to_string()]);
}

#[test]
fn p_pastes_each_non_empty_clipboard_line_as_task() {
    let lines = paste_lines("first pasted\n\nsecond pasted\n");
    assert_eq!(lines, vec!["first pasted".to_string(), "second pasted".to_string()]);
}

#[test]
fn space_no_op_when_not_in_disjoint_mode() {
    let mut app = make_app_with_tasks(&["Task one", "Task two"]);
    press_key(&mut app, KeyCode::Char(' '));
    assert!(app.selected_tasks.is_empty(), "Space should be a no-op when disjoint_select is false");
}

#[test]
fn space_no_op_on_group_header_in_disjoint_mode() {
    let mut app = make_app_with_tasks(&["Task one", "Task two"]);
    app.disjoint_select = true;
    app.display_rows = vec![DisplayRow::GroupHeader("Header".to_string()), DisplayRow::Task(0)];
    app.selected = 0;
    app.panes[0].display_rows = vec![DisplayRow::GroupHeader("Header".to_string()), DisplayRow::Task(0)];
    app.panes[0].selected = 0;
    press_key(&mut app, KeyCode::Char(' '));
    assert!(app.selected_tasks.is_empty(), "Space on GroupHeader must be a no-op");
}

#[test]
fn esc_clears_selection_and_exits_disjoint_mode() {
    let mut app = make_app_with_tasks(&["Task one", "Task two"]);
    app.disjoint_select = true;
    app.selected_tasks.insert(0);
    app.selected_tasks.insert(1);
    press_key(&mut app, KeyCode::Esc);
    assert!(app.selected_tasks.is_empty(), "Esc should clear all selected_tasks");
    assert!(!app.disjoint_select, "Esc should exit disjoint mode");
}

// ── anchor and range selection ──────────────────────────────────────────────

#[test]
fn ensure_anchor_sets_anchor_from_cursor_when_unset() {
    let mut app = make_app_with_tasks(&["A", "B", "C"]);
    assert!(app.selection_anchor.is_none());
    app.ensure_anchor();
    assert_eq!(app.selection_anchor, Some(0));
}

#[test]
fn ensure_anchor_does_not_overwrite_existing_anchor() {
    let mut app = make_app_with_tasks(&["A", "B", "C"]);
    app.selection_anchor = Some(2);
    app.ensure_anchor();
    assert_eq!(app.selection_anchor, Some(2));
}

#[test]
fn apply_range_selection_selects_tasks_from_anchor_to_cursor() {
    let mut app = make_app_with_tasks(&["A", "B", "C", "D"]);
    app.selection_anchor = Some(0);
    app.selected = 2;
    app.apply_range_selection();
    assert!(app.selected_tasks.contains(&0));
    assert!(app.selected_tasks.contains(&1));
    assert!(app.selected_tasks.contains(&2));
    assert!(!app.selected_tasks.contains(&3));
}

#[test]
fn apply_range_selection_works_upward_from_anchor() {
    let mut app = make_app_with_tasks(&["A", "B", "C", "D"]);
    app.selection_anchor = Some(2);
    app.selected = 0;
    app.apply_range_selection();
    assert!(app.selected_tasks.contains(&0));
    assert!(app.selected_tasks.contains(&1));
    assert!(app.selected_tasks.contains(&2));
    assert!(!app.selected_tasks.contains(&3));
}

#[test]
fn apply_range_selection_replaces_prior_selection() {
    let mut app = make_app_with_tasks(&["A", "B", "C", "D"]);
    app.selected_tasks.insert(3);
    app.selection_anchor = Some(0);
    app.selected = 1;
    app.apply_range_selection();
    assert!(app.selected_tasks.contains(&0));
    assert!(app.selected_tasks.contains(&1));
    assert!(!app.selected_tasks.contains(&3));
}

#[test]
fn plain_j_clears_anchor_but_not_selected_tasks() {
    let mut app = make_app_with_tasks(&["A", "B", "C"]);
    app.selected_tasks.insert(0);
    app.selected_tasks.insert(1);
    app.selection_anchor = Some(0);
    press_key(&mut app, KeyCode::Char('j'));
    assert!(app.selection_anchor.is_none());
    assert!(app.selected_tasks.contains(&0));
    assert!(app.selected_tasks.contains(&1));
}

#[test]
fn plain_k_clears_anchor_but_not_selected_tasks() {
    let mut app = make_app_with_tasks(&["A", "B", "C"]);
    app.selected = 2;
    app.selected_tasks.insert(0);
    app.selection_anchor = Some(0);
    press_key(&mut app, KeyCode::Char('k'));
    assert!(app.selection_anchor.is_none());
    assert!(app.selected_tasks.contains(&0));
}

#[test]
fn shift_j_sets_anchor_on_first_use_then_extends_down() {
    let mut app = make_app_with_tasks(&["A", "B", "C"]);
    assert!(app.selection_anchor.is_none());
    press_shift_key(&mut app, KeyCode::Char('j'));
    assert_eq!(app.selection_anchor, Some(0));
    assert_eq!(app.selected, 1);
    assert!(app.selected_tasks.contains(&0));
    assert!(app.selected_tasks.contains(&1));
}

#[test]
fn shift_j_extends_selection_further_down() {
    let mut app = make_app_with_tasks(&["A", "B", "C", "D"]);
    app.selection_anchor = Some(0);
    app.selected = 1;
    app.selected_tasks.insert(0);
    app.selected_tasks.insert(1);
    press_shift_key(&mut app, KeyCode::Char('j'));
    assert_eq!(app.selected, 2);
    assert!(app.selected_tasks.contains(&0));
    assert!(app.selected_tasks.contains(&1));
    assert!(app.selected_tasks.contains(&2));
}

#[test]
fn shift_k_shrinks_selection_back_toward_anchor() {
    let mut app = make_app_with_tasks(&["A", "B", "C"]);
    app.selection_anchor = Some(0);
    app.selected = 2;
    app.selected_tasks.insert(0);
    app.selected_tasks.insert(1);
    app.selected_tasks.insert(2);
    press_shift_key(&mut app, KeyCode::Char('k'));
    assert_eq!(app.selected, 1);
    assert!(app.selected_tasks.contains(&0));
    assert!(app.selected_tasks.contains(&1));
    assert!(!app.selected_tasks.contains(&2));
}

#[test]
fn shift_down_extends_selection_downward() {
    let mut app = make_app_with_tasks(&["A", "B", "C"]);
    app.selected = 0;
    press_shift_key(&mut app, KeyCode::Down);
    assert_eq!(app.selected, 1);
    assert!(app.selected_tasks.contains(&0));
    assert!(app.selected_tasks.contains(&1));
}

#[test]
fn shift_up_extends_selection_upward() {
    let mut app = make_app_with_tasks(&["A", "B", "C"]);
    app.selected = 2;
    press_shift_key(&mut app, KeyCode::Up);
    assert_eq!(app.selected, 1);
    assert!(app.selected_tasks.contains(&1));
    assert!(app.selected_tasks.contains(&2));
}

#[test]
fn shift_range_skips_group_headers_in_navigation() {
    let mut app = make_app_with_tasks(&["A", "B", "C"]);
    app.display_rows = vec![
        DisplayRow::Task(0),
        DisplayRow::GroupHeader("Group".to_string()),
        DisplayRow::Task(1),
        DisplayRow::Task(2),
    ];
    app.display_indices = vec![0, 1, 2];
    app.selected = 0;
    app.panes[0].display_rows = vec![
        DisplayRow::Task(0),
        DisplayRow::GroupHeader("Group".to_string()),
        DisplayRow::Task(1),
        DisplayRow::Task(2),
    ];
    app.panes[0].selected = 0;
    press_shift_key(&mut app, KeyCode::Char('j'));
    assert_eq!(app.selected, 2, "shift-j should skip GroupHeader rows");
    assert!(app.selected_tasks.contains(&0));
    assert!(app.selected_tasks.contains(&1));
    assert!(!app.selected_tasks.is_empty());
}

#[test]
fn shift_range_in_multi_pane_uses_active_pane_rows_not_global_rows() {
    let mut app = make_app_with_tasks(&["A", "B", "C", "D"]);
    app.pane_add();

    app.panes_hidden = false;
    app.active_pane = 1;
    app.panes[1].display_rows = vec![
        DisplayRow::Task(0),
        DisplayRow::GroupHeader("H".to_string()),
        DisplayRow::Task(2),
        DisplayRow::Task(3),
    ];
    app.panes[1].selected = 0;

    app.display_rows = vec![DisplayRow::Task(0), DisplayRow::Task(1), DisplayRow::Task(2), DisplayRow::Task(3)];
    app.selected = 0;

    press_shift_key(&mut app, KeyCode::Down);

    assert_eq!(app.panes[1].selected, 2);
    assert!(app.selected_tasks.contains(&0));
    assert!(app.selected_tasks.contains(&2));
    assert!(!app.selected_tasks.contains(&1), "must not accidentally select global-row task 1");
}

// ── selection across rebuilds ───────────────────────────────────────────────

#[test]
fn rebuild_and_reanchor_does_not_clear_selected_tasks() {
    let mut app = make_app_with_tasks(&["A", "B", "C"]);
    app.selected_tasks.insert(0);
    app.selected_tasks.insert(1);
    let all = every(&app);
    app.rebuild_and_reanchor(&all, &all);
    assert!(app.selected_tasks.contains(&0));
    assert!(app.selected_tasks.contains(&1));
}

#[test]
fn rebuild_display_indices_does_not_clear_selected_tasks() {
    let mut app = make_app_with_tasks(&["A", "B", "C"]);
    app.selected_tasks.insert(0);
    app.selected_tasks.insert(2);
    let all = every(&app);
    app.rebuild_display_indices(&all);
    assert!(app.selected_tasks.contains(&0));
    assert!(app.selected_tasks.contains(&2));
}

#[test]
fn filter_hidden_tasks_remain_selected_d20() {
    let mut app = make_app_with_tasks(&["(A) priority task", "plain task"]);
    app.selected_tasks.insert(0);
    app.selected_tasks.insert(1);
    app.filter_query = "pri:A".to_string();
    // The filter `pri:A` keeps task 0 only.
    app.rebuild_and_reanchor(&vec![0], &vec![0]);
    assert!(app.selected_tasks.contains(&0));
    assert!(app.selected_tasks.contains(&1), "filter-hidden task must remain in selected_tasks");
}

#[test]
fn sort_change_does_not_clear_selected_tasks() {
    let mut app = make_app_with_tasks(&["(B) task b", "(A) task a"]);
    app.selected_tasks.insert(0);
    app.sort_order = todotxt_tui::task::SortOrder::Priority;
    // Sorted by priority the order is task 1, task 0.
    app.rebuild_and_reanchor(&vec![1, 0], &vec![1, 0]);
    assert!(app.selected_tasks.contains(&0), "sort change must not clear selected_tasks");
}

#[test]
fn reload_prunes_out_of_range_selections() {
    let mut app = make_app_with_tasks(&["A", "B", "C"]);
    app.selected_tasks.insert(0);
    app.selected_tasks.insert(1);
    app.selected_tasks.insert(2);

    app.tasks = vec![rec("A"), rec("B")];
    app.after_reload();

    assert!(!app.selected_tasks.contains(&2), "out-of-range index 2 must be pruned after reload");
    assert!(app.selected_tasks.contains(&0));
    assert!(app.selected_tasks.contains(&1));
}

#[test]
fn reload_clears_out_of_range_anchor() {
    let mut app = make_app_with_tasks(&["A", "B", "C"]);
    app.selection_anchor = Some(2);

    app.tasks = vec![rec("A"), rec("B")];
    app.after_reload();

    assert!(app.selection_anchor.is_none());
}

#[test]
fn reload_retains_valid_anchor() {
    let mut app = make_app_with_tasks(&["A", "B", "C"]);
    app.selection_anchor = Some(1);

    app.tasks = vec![rec("A"), rec("B")];
    app.after_reload();

    assert_eq!(app.selection_anchor, Some(1));
}

// ── bulk delete and bulk append ─────────────────────────────────────────────

#[test]
fn bulk_delete_descending_order() {
    let mut app = make_app_with_tasks(&["task A", "task B", "task C"]);
    assert_eq!(app.tasks.len(), 3);
    app.selected_tasks.insert(0);
    app.selected_tasks.insert(2);

    let doomed = app.handle_delete_confirm_key(true);
    assert_eq!(doomed, vec![2, 0], "deleted highest index first");
    for t in doomed {
        app.tasks.remove(t);
    }

    assert_eq!(raws(&app), vec!["task B".to_string()]);
    assert!(app.selected_tasks.is_empty());
    assert!(!app.disjoint_select);
}

#[test]
fn bulk_delete_cancel_clears_selection() {
    let mut app = make_app_with_tasks(&["task A", "task B", "task C"]);
    app.selected_tasks.insert(0);
    app.selected_tasks.insert(2);
    app.disjoint_select = true;

    let doomed = app.handle_delete_confirm_key(false);

    assert!(doomed.is_empty());
    assert_eq!(app.tasks.len(), 3, "cancel should not delete any tasks");
    assert!(app.selected_tasks.is_empty());
    assert_eq!(app.selection_anchor, None);
    assert!(!app.disjoint_select);
}

#[test]
fn single_task_delete_via_selection_shows_preview() {
    let mut app = make_app_with_tasks(&["task A", "task B", "task C"]);
    app.selected_tasks.insert(1);
    assert_eq!(app.selected_tasks.len(), 1, "should have 1 task selected");
    assert!(!app.selected_tasks.is_empty(), "bulk delete should be triggered");
    assert_eq!(app.delete_target(), Some(1));
}

#[test]
fn bulk_delete_multiple_tasks_shows_count() {
    let mut app = make_app_with_tasks(&["task A", "task B", "task C"]);
    app.selected_tasks.insert(0);
    app.selected_tasks.insert(2);
    assert!(app.selected_tasks.len() > 1, "should have >1 task selected");
}

#[test]
fn bulk_append_applies_text_to_all_selected() {
    let mut app = make_app_with_tasks(&["task A", "task B", "task C"]);
    app.selected_tasks.insert(0);
    app.selected_tasks.insert(2);
    app.mode = AppMode::AppendText;

    let (targets, text) = app.finish_append_text("+project1", false);
    assert_eq!(text, "+project1");
    for t in &targets {
        let line = append_line(&app.tasks[*t].raw, &text);
        app.tasks[*t] = rec(&line);
    }

    assert_eq!(app.tasks[0].raw, "task A +project1");
    assert_eq!(app.tasks[1].raw, "task B");
    assert_eq!(app.tasks[2].raw, "task C +project1");
    assert!(app.selected_tasks.is_empty());
    assert_eq!(app.mode, AppMode::Normal);
}

#[test]
fn bulk_append_empty_input_cancels_without_mutation() {
    let mut app = make_app_with_tasks(&["task A", "task B"]);
    app.selected_tasks.insert(0);
    app.mode = AppMode::AppendText;
    let (targets, _) = app.finish_append_text("", false);
    assert!(targets.is_empty());
    assert_eq!(app.tasks[0].raw, "task A");
    assert!(app.selected_tasks.is_empty());
    assert_eq!(app.mode, AppMode::Normal);
}

#[test]
fn bulk_append_esc_cancels_without_mutation() {
    let mut app = make_app_with_tasks(&["task A", "task B"]);
    app.selected_tasks.insert(0);
    app.mode = AppMode::AppendText;
    let (targets, _) = app.finish_append_text("+project1", true);
    assert!(targets.is_empty());
    assert_eq!(app.tasks[0].raw, "task A");
    assert!(app.selected_tasks.is_empty());
    assert_eq!(app.mode, AppMode::Normal);
}

// ── status bar ──────────────────────────────────────────────────────────────

#[test]
fn status_bar_selection_indicator_absent_when_empty() {
    let app = make_app_with_tasks(&["task A", "task B", "task C"]);
    assert!(app.selected_tasks.is_empty());
    let (left, _, _) = app.status_bar_text("todo.txt", 200);
    assert_eq!(left, "todo.txt | 3/3 tasks");
    assert!(!left.contains("selected"));
}

#[test]
fn status_bar_selection_indicator_present_when_tasks_selected() {
    let mut app = make_app_with_tasks(&["task A", "task B", "task C"]);
    app.selected_tasks.insert(0);
    app.selected_tasks.insert(2);
    let (left, _, _) = app.status_bar_text("todo.txt", 200);
    assert!(left.contains("| 2 selected"), "got {left:?}");
}

#[test]
fn status_bar_disjoint_mode_shows_count_not_v_prefix() {
    let mut app = make_app_with_tasks(&["task A"]);
    app.selected_tasks.insert(0);
    app.disjoint_select = true;
    let (left, _, _) = app.status_bar_text("todo.txt", 200);
    assert!(left.contains("| 1 selected"));
    assert!(!left.contains("[v]"));
}

#[test]
fn status_scope_uses_active_pane_tasks_in_multi_pane_mode() {
    let mut app = make_two_pane_app(&["new task one", "old task", "new task two"]);

    app.panes[0].filter_query = "new".to_string();
    app.panes[1].filter_query = "old".to_string();
    app.active_pane = 1;
    // Filter `new` keeps tasks 0 and 2, filter `old` task 1.
    app.rebuild_all_panes(&vec![vec![0, 2], vec![1]]);

    let scoped = app.status_scope_task_indices();
    assert_eq!(scoped.len(), 1);
    assert_eq!(scoped[0], 1);
}

#[test]
fn status_filter_display_has_explicit_label() {
    let display = format_status_filter("new").expect("filter text should be shown");
    assert_eq!(display, "filter: new");
}

#[test]
fn status_filter_display_truncates_long_values() {
    let long_filter = "abcdefghijklmnopqrstuvwxyz0123456789";
    let display = format_status_filter(long_filter).expect("filter text should be shown");
    assert!(display.starts_with("filter: "));
    assert!(display.ends_with('…'));
    assert_eq!(display, "filter: abcdefghijklmnopqrstuvwxyz0…");
}

// ── panes ───────────────────────────────────────────────────────────────────

#[test]
fn test_app_initializes_with_one_pane() {
    let app = make_app_with_tasks(&["Task 1"]);
    assert_eq!(app.panes.len(), 1);
    assert_eq!(app.active_pane, 0);
    assert_eq!(app.panes[0].label, "");
}

#[test]
fn test_focus_next_pane_single_pane_noop() {
    let mut app = make_app_with_tasks(&["Task 1"]);
    let original = app.active_pane;
    app.focus_next_pane();
    assert_eq!(app.active_pane, original);
}

#[test]
fn test_focus_navigation_multiple_panes() {
    let mut app = make_app_with_tasks(&["Task 1"]);
    app.panes.push(Pane::new(1, "Work".to_string()));
    app.panes.push(Pane::new(2, "Personal".to_string()));

    assert_eq!(app.active_pane, 0);
    app.focus_next_pane();
    assert_eq!(app.active_pane, 1);
    app.focus_next_pane();
    assert_eq!(app.active_pane, 2);
    app.focus_next_pane();
    assert_eq!(app.active_pane, 0);
    app.focus_prev_pane();
    assert_eq!(app.active_pane, 2);
}

#[test]
fn test_pane_selection_independence() {
    let mut app = make_app_with_tasks(&["Task 1", "Task 2", "Task 3"]);
    app.panes.push(Pane::new(1, "Work".to_string()));

    app.panes[0].selected = 1;

    app.focus_next_pane();
    let a = app.active_pane;
    app.panes[a].display_rows = vec![DisplayRow::Task(0), DisplayRow::Task(1)];
    app.panes[a].selected = 0;

    assert_eq!(app.panes[0].selected, 1);
    assert_eq!(app.panes[1].selected, 0);

    app.focus_prev_pane();
    assert_eq!(app.active_pane().selected, 1);
}

#[test]
fn startup_populates_non_active_panes_without_focus_change() {
    let app = make_two_pane_app(&["Task 1", "Task 2", "Task 3"]);
    assert_eq!(app.panes.len(), 2);
    assert!(!app.panes[0].display_rows.is_empty());
    assert!(!app.panes[1].display_rows.is_empty());
    assert_eq!(app.active_pane, 0);
}

#[test]
fn pane_label_can_be_selected_with_up_from_top() {
    let mut app = make_two_pane_app(&["Task 1", "Task 2", "Task 3"]);
    app.active_pane = 1;
    app.panes[1].selected = 0;
    assert!(!app.panes[1].label_selected);

    press_key(&mut app, KeyCode::Up);

    assert!(app.panes[1].label_selected, "Up from top should select pane header");
}

#[test]
fn pane_label_edit_save_updates_label() {
    let mut app = make_two_pane_app(&["Task 1", "Task 2", "Task 3"]);
    app.active_pane = 1;
    app.panes[1].label_selected = true;
    assert_eq!(app.panes[1].label, "Work");

    press_key(&mut app, KeyCode::Enter);
    assert_eq!(app.mode, AppMode::PaneLabelEditing { pane_idx: 1 });

    app.finish_pane_label_edit(1, Some("Errands"));

    assert_eq!(app.panes[1].label, "Errands");
    assert_eq!(app.mode, AppMode::Normal);
}

#[test]
fn pane_label_edit_save_allows_empty_label() {
    let mut app = make_two_pane_app(&["Task 1", "Task 2", "Task 3"]);
    app.active_pane = 1;
    app.panes[1].label_selected = true;
    assert_eq!(app.panes[1].label, "Work");

    press_key(&mut app, KeyCode::Enter);
    assert_eq!(app.mode, AppMode::PaneLabelEditing { pane_idx: 1 });

    app.finish_pane_label_edit(1, Some(""));

    assert_eq!(app.panes[1].label, "");
    assert_eq!(app.mode, AppMode::Normal);
}

#[test]
fn pane_label_edit_escape_cancels_changes() {
    let mut app = make_two_pane_app(&["Task 1", "Task 2", "Task 3"]);
    app.active_pane = 1;
    app.panes[1].label_selected = true;
    let original = app.panes[1].label.clone();

    press_key(&mut app, KeyCode::Enter);
    assert_eq!(app.mode, AppMode::PaneLabelEditing { pane_idx: 1 });

    app.finish_pane_label_edit(1, None);

    assert_eq!(app.panes[1].label, original);
    assert_eq!(app.mode, AppMode::Normal);
}

#[test]
fn pane_label_can_be_selected_with_up_when_group_header_is_above_first_task() {
    let mut app = make_two_pane_app(&["Task 1", "Task 2", "Task 3"]);
    app.active_pane = 1;
    app.panes[1].display_rows = vec![
        DisplayRow::GroupHeader("Group".to_string()),
        DisplayRow::Task(0),
        DisplayRow::Task(1),
    ];
    app.panes[1].selected = 1;
    app.panes[1].label_selected = false;

    app.pane_move_up();

    assert!(app.panes[1].label_selected);
    assert_eq!(app.panes[1].selected, 1);
}

// ── filter definition ───────────────────────────────────────────────────────

#[test]
fn filter_defining_enter_writes_to_active_pane_not_global() {
    let mut app = make_two_pane_app(&["task A +work", "task B"]);
    assert_eq!(app.panes.len(), 2);
    assert_eq!(app.active_pane, 0);

    app.filter_defining_state = Some(FilterDefiningState {
        active_text: "+work".to_string(),
        preset_names: vec![],
        preset_texts: vec![],
        selected_row: 0,
    });
    app.mode = AppMode::FilterDefining;

    let outcome = app.handle_filter_defining_key(&key(KeyCode::Enter, KeyModifiers::none()));
    assert!(matches!(outcome, DefineOutcome::Saved));

    assert_eq!(app.panes[0].filter_query, "+work");
    assert_eq!(app.panes[1].filter_query, "");
    assert_eq!(app.filter_query, "");
    assert_eq!(app.mode, AppMode::Normal);
    assert!(app.filter_defining_state.is_none());
}

// ── undo ────────────────────────────────────────────────────────────────────

#[test]
fn push_then_apply_restores_task_list() {
    let mut app = make_app_with_tasks(&["task A", "task B"]);
    app.selected = 0;
    app.push_undo_entry();
    app.tasks.remove(1);
    refresh(&mut app);
    assert_eq!(app.tasks.len(), 1);
    assert!(app.apply_undo());
    assert_eq!(app.tasks.len(), 2);
    assert!(raws(&app).iter().any(|n| n.contains("task A")));
    assert!(raws(&app).iter().any(|n| n.contains("task B")));
    assert_eq!(app.selected, 0);
}

#[test]
fn apply_undo_when_empty_is_no_op() {
    let mut app = make_app_with_tasks(&["task A"]);
    app.undo_entry = None;
    assert!(!app.apply_undo());
    assert_eq!(app.tasks.len(), 1);
}

#[test]
fn second_push_overwrites_first() {
    let mut app = make_app_with_tasks(&["task A", "task B", "task C"]);
    app.selected = 0;
    app.push_undo_entry();
    app.tasks.remove(2);
    app.push_undo_entry();
    app.tasks.remove(1);
    assert_eq!(app.tasks.len(), 1);
    app.apply_undo();
    assert_eq!(app.tasks.len(), 2, "should restore to 2 tasks (second snapshot)");
}

#[test]
fn apply_undo_clears_entry() {
    let mut app = make_app_with_tasks(&["task A", "task B"]);
    app.push_undo_entry();
    app.apply_undo();
    assert!(app.undo_entry.is_none());
}

#[test]
fn ctrl_z_in_normal_mode_triggers_apply_undo() {
    let mut app = make_app_with_tasks(&["task A", "task B"]);
    app.selected = 0;
    app.push_undo_entry();
    app.tasks.remove(1);
    refresh(&mut app);
    assert_eq!(app.tasks.len(), 1);
    assert_eq!(press_ctrl_key(&mut app, KeyCode::Char('z')), NormalCommand::Undo);
    assert!(app.apply_undo());
    assert_eq!(app.tasks.len(), 2, "Ctrl+Z must restore the task list");
}

#[test]
fn delete_undo_round_trip() {
    let mut app = make_app_with_tasks(&["task A", "task B", "task C"]);
    app.selected = 1;
    app.panes[0].selected = 1;
    delete_now(&mut app);
    assert_eq!(app.tasks.len(), 2);
    assert_eq!(press_ctrl_key(&mut app, KeyCode::Char('z')), NormalCommand::Undo);
    app.apply_undo();
    assert_eq!(app.tasks.len(), 3);
}

#[test]
fn add_undo_round_trip() {
    let mut app = make_app_with_tasks(&["task A", "task B"]);
    let original_count = app.tasks.len();
    app.mode = AppMode::Adding;
    let kind = app.begin_save();
    assert!(matches!(kind, Some(SaveKind::Add)));
    app.tasks.push(rec("new task"));
    app.finish_save(original_count);
    assert_eq!(app.tasks.len(), original_count + 1);
    assert_eq!(press_ctrl_key(&mut app, KeyCode::Char('z')), NormalCommand::Undo);
    app.apply_undo();
    assert_eq!(app.tasks.len(), original_count);
}

#[test]
fn toggle_undo_round_trip() {
    let mut app = make_app_with_tasks(&["task A"]);
    let was_completed = app.tasks[0].completed;
    let t = app.toggle_done_target().expect("a task under the cursor");
    assert_eq!(t, 0);
    app.tasks[0].completed = !app.tasks[0].completed;
    assert_ne!(app.tasks[0].completed, was_completed);
    app.apply_undo();
    assert_eq!(app.tasks[0].completed, was_completed);
}

// ── archive ─────────────────────────────────────────────────────────────────

#[test]
fn archive_tasks_moves_completed_to_done_txt() {
    let mut app = make_app_with_tasks(&["x 2026-01-01 done task", "incomplete task"]);
    let (lines, doomed) = app.archive_plan();
    assert_eq!(lines, vec!["x 2026-01-01 done task".to_string()]);
    assert_eq!(doomed, vec![0]);
    let done = done_file_content("", &lines);
    assert!(done.contains("done task"));
    app.begin_archive();
    for t in &doomed {
        app.tasks.remove(*t);
    }
    app.finish_archive(doomed.len());
    assert_eq!(app.tasks.len(), 1);
    assert!(!app.tasks[0].completed);
}

#[test]
fn archive_tasks_pushes_undo_entry() {
    let mut app = make_app_with_tasks(&["x 2026-01-01 done task"]);
    assert!(app.undo_entry.is_none());
    app.begin_archive();
    assert!(app.undo_entry.is_some());
}

#[test]
fn archive_tasks_appends_to_existing_done_txt() {
    let app = make_app_with_tasks(&["x 2026-01-01 new done"]);
    let (lines, _) = app.archive_plan();
    let done = done_file_content("x 2026-01-01 old done\n", &lines);
    assert!(done.contains("old done"));
    assert!(done.contains("new done"));
    assert_eq!(done, "x 2026-01-01 old done\nx 2026-01-01 new done\n");
}

#[test]
fn archive_confirm_cancel_leaves_tasks_unchanged() {
    let mut app = make_app_with_tasks(&["x 2026-01-01 done task"]);
    app.mode = AppMode::ArchiveConfirm;
    let archive = app.handle_archive_confirm_key(false);
    assert!(!archive);
    assert_eq!(app.tasks.len(), 1);
    assert_eq!(app.mode, AppMode::Normal);
}

// ── bulk mark done ──────────────────────────────────────────────────────────

fn bulk_mark_done(app: &mut App) {
    let targets = app.begin_bulk_mark_done();
    for t in &targets {
        app.tasks[*t].completed = true;
    }
    app.finish_bulk_mark_done(targets.len());
}

#[test]
fn bulk_mark_done_marks_incomplete_tasks() {
    let mut app = make_app_with_tasks(&["task A", "task B", "task C"]);
    app.selected_tasks.insert(0);
    app.selected_tasks.insert(1);
    bulk_mark_done(&mut app);
    assert!(app.tasks[0].completed);
    assert!(app.tasks[1].completed);
    assert!(!app.tasks[2].completed);
}

#[test]
fn bulk_mark_done_skips_already_done_tasks() {
    let mut app = make_app_with_tasks(&["x 2026-01-01 already done", "incomplete task"]);
    app.selected_tasks.insert(0);
    app.selected_tasks.insert(1);
    let was_done = app.tasks[0].completed;
    let targets = app.begin_bulk_mark_done();
    assert_eq!(targets, vec![1], "only the open task is marked");
    for t in &targets {
        app.tasks[*t].completed = true;
    }
    app.finish_bulk_mark_done(targets.len());
    assert!(was_done);
    assert!(app.tasks[0].completed);
    assert!(app.tasks[1].completed);
}

#[test]
fn bulk_mark_done_pushes_single_undo_entry() {
    let mut app = make_app_with_tasks(&["task A", "task B"]);
    app.selected_tasks.insert(0);
    app.selected_tasks.insert(1);
    assert!(app.undo_entry.is_none());
    bulk_mark_done(&mut app);
    assert!(app.undo_entry.is_some());
}

#[test]
fn bulk_mark_done_clears_selection_after() {
    let mut app = make_app_with_tasks(&["task A", "task B"]);
    app.selected_tasks.insert(0);
    app.selected_tasks.insert(1);
    bulk_mark_done(&mut app);
    assert!(app.selected_tasks.is_empty());
}

#[test]
fn bulk_mark_done_posts_status_message() {
    let mut app = make_app_with_tasks(&["task A", "task B"]);
    app.selected_tasks.insert(0);
    app.selected_tasks.insert(1);
    bulk_mark_done(&mut app);
    assert!(app.runtime_warnings.iter().any(|w| w.contains("Marked") && w.contains("done")));
    assert_eq!(app.runtime_warnings.last().unwrap(), "Marked 2 task(s) done");
}

#[test]
fn toggle_done_routes_to_bulk_when_selection_nonempty() {
    let mut app = make_app_with_tasks(&["task A", "task B"]);
    app.selected_tasks.insert(0);
    app.selected_tasks.insert(1);
    assert_eq!(press_key(&mut app, KeyCode::Char('x')), NormalCommand::ToggleDone);
    assert!(!app.selected_tasks.is_empty());
    bulk_mark_done(&mut app);
    assert!(app.tasks[0].completed);
    assert!(app.tasks[1].completed);
}

#[test]
fn bulk_mark_done_empty_selection_marks_nothing() {
    let mut app = make_app_with_tasks(&["task A", "task B"]);
    bulk_mark_done(&mut app);
    assert!(!app.tasks[0].completed);
    assert!(!app.tasks[1].completed);
    assert!(app.runtime_warnings.iter().any(|w| w.contains("Marked 0")));
}

// ── editor completion ───────────────────────────────────────────────────────

#[test]
fn project_autocomplete_shows_popup_on_plus() {
    let mut app = make_app_with_tasks(&["task +work", "task +home"]);
    app.mode = AppMode::Adding;
    app.update_autocomplete("+");
    assert!(app.autocomplete.is_some());
}

#[test]
fn project_autocomplete_items_are_bare_names() {
    let mut app = make_app_with_tasks(&["task +work", "task +home"]);
    app.mode = AppMode::Adding;
    app.update_autocomplete("+");
    let ac = app.autocomplete.as_ref().expect("autocomplete must be Some");
    assert!(ac.items.iter().all(|item| !item.starts_with('+')));
    assert!(ac.items.contains(&"work".to_string()));
    assert!(ac.items.contains(&"home".to_string()));
}

#[test]
fn project_autocomplete_narrows_on_typing() {
    let mut app = make_app_with_tasks(&["task +work", "task +home"]);
    app.mode = AppMode::Adding;
    app.update_autocomplete("+h");
    let ac = app.autocomplete.as_ref().expect("autocomplete must be Some after '+h'");
    assert_eq!(ac.items, vec!["home".to_string()]);
    assert!(!ac.items.contains(&"work".to_string()));
}

#[test]
fn project_autocomplete_accept_inserts_correctly_no_prefix_typed() {
    let mut app = make_app_with_tasks(&["task +work"]);
    app.mode = AppMode::Adding;
    app.update_autocomplete("+");
    assert!(app.autocomplete.is_some());
    let line = app.accept_completion("+").unwrap_or_default();
    assert_eq!(line, "+work");
}

#[test]
fn project_autocomplete_accept_replaces_typed_prefix() {
    let mut app = make_app_with_tasks(&["task +work"]);
    app.mode = AppMode::Adding;
    app.update_autocomplete("+wo");
    assert!(app.autocomplete.is_some());
    let line = app.accept_completion("+wo").unwrap_or_default();
    assert_eq!(line, "+work");
}

// ── grouping ────────────────────────────────────────────────────────────────

#[test]
fn group_by_category_default_is_priority() {
    assert_eq!(GroupByCategory::default(), GroupByCategory::Priority);
    let variants = [
        GroupByCategory::Priority,
        GroupByCategory::Project,
        GroupByCategory::Context,
        GroupByCategory::DueDate,
    ];
    assert_eq!(variants.len(), 4);
    for i in 0..variants.len() {
        for j in (i + 1)..variants.len() {
            assert_ne!(variants[i], variants[j]);
        }
    }
}

fn headers(app: &App) -> Vec<String> {
    app.display_rows
        .iter()
        .filter_map(|r| if let DisplayRow::GroupHeader(s) = r { Some(s.clone()) } else { None })
        .collect()
}

#[test]
fn group_key_for_groups_by_correct_field_per_variant() {
    let task_line = "(A) fix things +work @home due:2025-01-15";
    let mut app = make_app_with_tasks(&[task_line]);
    app.panes[0].grouping = true;

    app.group_by = GroupByCategory::Priority;
    refresh(&mut app);
    assert!(headers(&app).contains(&"(A)".to_string()), "{:?}", headers(&app));

    app.group_by = GroupByCategory::Project;
    refresh(&mut app);
    assert!(headers(&app).contains(&"+work".to_string()), "{:?}", headers(&app));

    app.group_by = GroupByCategory::Context;
    refresh(&mut app);
    assert!(headers(&app).contains(&"@home".to_string()), "{:?}", headers(&app));

    app.group_by = GroupByCategory::DueDate;
    refresh(&mut app);
    assert!(headers(&app).contains(&"2025-01-15".to_string()), "{:?}", headers(&app));
}

#[test]
fn pane_initializes_group_by_to_priority() {
    let app = make_app_with_tasks(&["task A"]);
    assert_eq!(app.group_by, GroupByCategory::Priority);
    assert_eq!(app.panes[0].group_by, GroupByCategory::Priority);
}

#[test]
fn cycle_group_by_wraps_through_all_four_variants() {
    let mut app = make_app_with_tasks(&["task A"]);
    assert_eq!(app.active_pane().group_by, GroupByCategory::Priority);
    press_key(&mut app, KeyCode::Char('g'));
    assert_eq!(app.active_pane().group_by, GroupByCategory::Project);
    press_key(&mut app, KeyCode::Char('g'));
    assert_eq!(app.active_pane().group_by, GroupByCategory::Context);
    press_key(&mut app, KeyCode::Char('g'));
    assert_eq!(app.active_pane().group_by, GroupByCategory::DueDate);
    press_key(&mut app, KeyCode::Char('g'));
    assert_eq!(app.active_pane().group_by, GroupByCategory::Priority);
}

#[test]
fn g_key_cycles_group_by_independently_of_sort_order() {
    let mut app = make_app_with_tasks(&["task A", "task B"]);
    let initial_sort = app.active_pane().sort_order;
    press_key(&mut app, KeyCode::Char('g'));
    assert_eq!(app.active_pane().group_by, GroupByCategory::Project);
    assert_eq!(app.active_pane().sort_order, initial_sort);
}

#[test]
fn status_bar_grp_indicator_text_matches_active_group_by() {
    assert_eq!(group_by_name(GroupByCategory::Priority), "priority");
    assert_eq!(group_by_name(GroupByCategory::Project), "project");
    assert_eq!(group_by_name(GroupByCategory::Context), "context");
    assert_eq!(group_by_name(GroupByCategory::DueDate), "duedate");

    let mut middle = String::new();
    let pane_grouping = true;
    let pane_group_by = GroupByCategory::Project;
    if pane_grouping {
        middle.push_str(" | grp:");
        middle.push_str(group_by_name(pane_group_by));
    }
    assert!(middle.contains("grp:project"));

    let mut middle2 = String::new();
    let pane_grouping2 = false;
    let pane_group_by2 = GroupByCategory::Context;
    if pane_grouping2 {
        middle2.push_str(" | grp:");
        middle2.push_str(group_by_name(pane_group_by2));
    }
    assert!(!middle2.contains("grp:"));
}

#[test]
fn status_bar_middle_shows_active_grouping() {
    let mut app = make_app_with_tasks(&["task A"]);
    app.panes[0].grouping = true;
    app.panes[0].group_by = GroupByCategory::Project;
    app.grouping = true;
    app.group_by = GroupByCategory::Project;
    let (_, middle, _) = app.status_bar_text("todo.txt", 400);
    assert!(middle.contains(" | grp:project"), "got {middle:?}");
}

// ── keymap and overlays ─────────────────────────────────────────────────────

#[test]
fn app_new_initializes_effective_keymap_from_config() {
    let app = make_app_with_tasks(&["task A"]);
    assert!(lookup_binding_exec(&app.effective_keymap, "help").is_some());
    assert!(app.keymap_warnings.is_empty());
}

#[test]
fn handle_normal_key_default_dispatch_works() {
    let mut app = make_app_with_tasks(&["task A", "task B"]);
    press_key(&mut app, KeyCode::Char('n'));
    assert_eq!(app.mode, AppMode::Adding);
}

#[test]
fn error_log_count_reflects_keymap_warnings() {
    let mut cfg = TuiConfig::default();
    cfg.keymap.push(("nonexistent_action_xyz".to_string(), "a".to_string()));
    let mut app = make_app_with_config(&["task A"], cfg);
    let (_, warnings) = resolve_keymap(&app.config);
    app.keymap_warnings = warnings;
    assert!(app.error_log_count() > 0);
    assert!(!app.keymap_warnings.is_empty());
    let log = app.error_log_lines();
    assert_eq!(
        log,
        vec!["keymap: unknown action 'nonexistent_action_xyz' in [keymap] \u{2014} ignored".to_string()]
    );
}

#[test]
fn error_log_count_zero_with_clean_config() {
    let app = make_app_with_tasks(&["task A"]);
    assert_eq!(app.error_log_count(), 0);
}

#[test]
fn bang_key_enters_keymap_errors_mode() {
    let mut app = make_app_with_tasks(&["task A"]);
    assert_eq!(app.mode, AppMode::Normal);
    press_key(&mut app, KeyCode::Char('!'));
    assert_eq!(app.mode, AppMode::KeymapErrors);
}

#[test]
fn esc_from_keymap_errors_returns_to_normal() {
    let mut app = make_app_with_tasks(&["task A"]);
    app.mode = AppMode::KeymapErrors;
    app.handle_keymap_errors_key(&key(KeyCode::Esc, KeyModifiers::none()));
    assert_eq!(app.mode, AppMode::Normal);
}

#[test]
fn zero_key_clears_filter_query() {
    let mut app = make_app_with_tasks(&["task A +work", "task B +home"]);
    app.panes[0].filter_query = "+work".to_string();
    press_key(&mut app, KeyCode::Char('0'));
    assert_eq!(app.active_pane().filter_query, "");
}

fn preset(filter: &str) -> TuiPreset {
    TuiPreset { filter: Some(filter.to_string()) }
}

#[test]
fn number_keys_apply_preset_filter() {
    let mut cfg = TuiConfig::default();
    cfg.presets.filter.push(("1".to_string(), preset("+work")));
    let mut app = make_app_with_config(&["task A +work", "task B +home"], cfg);
    press_key(&mut app, KeyCode::Char('1'));
    assert_eq!(app.active_pane().filter_query, "+work");
    press_key(&mut app, KeyCode::Char('2'));
    assert_eq!(app.active_pane().filter_query, "+work");
}

#[test]
fn dot_key_triggers_reload() {
    let mut app = make_app_with_tasks(&["task A"]);
    assert_eq!(app.tasks.len(), 1);
    assert_eq!(press_key(&mut app, KeyCode::Char('.')), NormalCommand::Reload);
    app.tasks = vec![rec("task A"), rec("task B")];
    app.after_reload();
    refresh(&mut app);
    assert_eq!(app.tasks.len(), 2);
    assert_eq!(app.display_rows.len(), 2);
}

#[test]
fn question_mark_enters_help_mode() {
    let mut app = make_app_with_tasks(&["task A"]);
    assert_eq!(app.mode, AppMode::Normal);
    press_key(&mut app, KeyCode::Char('?'));
    assert_eq!(app.mode, AppMode::Help);
}

#[test]
fn esc_and_q_from_help_return_to_normal() {
    let mut app = make_app_with_tasks(&["task A"]);
    app.mode = AppMode::Help;
    app.handle_help_key(&key(KeyCode::Esc, KeyModifiers::none()));
    assert_eq!(app.mode, AppMode::Normal);

    let mut app2 = make_app_with_tasks(&["task A"]);
    app2.mode = AppMode::Help;
    app2.handle_help_key(&key(KeyCode::Char('q'), KeyModifiers::none()));
    assert_eq!(app2.mode, AppMode::Normal);
}

// ── filter history and presets ──────────────────────────────────────────────

#[test]
fn push_filter_history_dedup_and_cap() {
    let mut app = make_app_with_tasks(&["task A"]);
    app.push_filter_history("+work");
    app.push_filter_history("+work");
    assert_eq!(app.filter_history.len(), 1);
    assert_eq!(app.filter_history[0], "+work");

    app.push_filter_history("+home");
    assert_eq!(app.filter_history.len(), 2);
    assert_eq!(app.filter_history[0], "+home");

    app.push_filter_history("+work");
    assert_eq!(app.filter_history.len(), 2);
    assert_eq!(app.filter_history[0], "+work");

    for i in 0..50 {
        app.push_filter_history(&format!("entry-{}", i));
    }
    assert_eq!(app.filter_history.len(), 50);
}

#[test]
fn push_filter_history_ignores_empty() {
    let mut app = make_app_with_tasks(&["task A"]);
    app.push_filter_history("");
    assert!(app.filter_history.is_empty());
}

#[test]
fn push_filter_history_resets_cursor() {
    let mut app = make_app_with_tasks(&["task A"]);
    app.push_filter_history("+work");
    app.filter_history_cursor = Some(0);
    app.push_filter_history("+home");
    assert!(app.filter_history_cursor.is_none());
}

#[test]
fn app_new_loads_filter_presets_from_config() {
    let mut cfg = TuiConfig::default();
    cfg.presets.filter.push(("2".to_string(), preset("+home")));
    cfg.presets.filter.push(("1".to_string(), preset("+work")));
    let app = make_app_with_config(&["task A"], cfg);
    assert_eq!(app.presets.len(), 2);
    assert_eq!(app.presets[0].0, "1");
    assert_eq!(app.presets[0].1, "+work");
}

fn filtered_pane(label: &str, filter: &str) -> PaneConfig {
    PaneConfig {
        label: label.to_string(),
        filter: filter.to_string(),
        sort: PaneSort::default(),
        group: false,
        group_by: None,
    }
}

#[test]
fn apply_pane_layout_preset_replaces_panes() {
    let mut cfg = TuiConfig::default();
    cfg.presets.panes.push((
        "1".to_string(),
        PaneLayoutPreset { panes: vec![filtered_pane("Work", "+work"), filtered_pane("Home", "+home")] },
    ));
    let mut app = make_app_with_config(&["task A +work", "task B +home"], cfg);
    assert_eq!(app.panes.len(), 1);
    assert!(app.apply_pane_layout_preset(0));
    assert_eq!(app.panes.len(), 2);
    assert_eq!(app.panes[0].label, "Work");
    assert_eq!(app.panes[1].filter_query, "+home");
    assert_eq!(app.active_pane, 0);
}

#[test]
fn apply_pane_layout_preset_empty_is_noop() {
    let mut cfg = TuiConfig::default();
    cfg.presets.panes.push(("1".to_string(), PaneLayoutPreset { panes: vec![] }));
    let mut app = make_app_with_config(&["task A"], cfg);
    let initial_pane_count = app.panes.len();
    assert!(!app.apply_pane_layout_preset(0));
    assert_eq!(app.panes.len(), initial_pane_count);
}

#[test]
fn is_single_tag_token_valid() {
    assert!(App::is_single_tag_token("@work"));
    assert!(App::is_single_tag_token("+project"));
    assert!(App::is_single_tag_token("@home-office"));
}

#[test]
fn is_single_tag_token_invalid() {
    assert!(!App::is_single_tag_token("@work @home"));
    assert!(!App::is_single_tag_token("due:today"));
    assert!(!App::is_single_tag_token(""));
    assert!(!App::is_single_tag_token("@work +personal"));
}

fn work_home_app(lines: &[&str], first: &str) -> App {
    let mut config = TuiConfig::default();
    config.panes = vec![filtered_pane("Work", first), filtered_pane("Home", "@home")];
    make_app_with_config(lines, config)
}

#[test]
fn pane_move_task_tag_swap() {
    let mut app = work_home_app(&["todo @work task"], "@work");
    assert_eq!(app.active_pane, 0);
    match app.pane_move_task(1) {
        PaneMove::Move { dest, edits } => {
            assert_eq!(dest, 1);
            assert_eq!(edits.len(), 1);
            let (t, raw) = &edits[0];
            assert_eq!(*t, 0);
            assert!(!raw.contains("@work"), "src token not removed: {}", raw);
            assert!(raw.contains("@home"), "dest token not added: {}", raw);
            assert_eq!(raw, "todo task @home");
        }
        _ => panic!("expected a move"),
    }
    assert_eq!(app.active_pane, 1);
}

#[test]
fn pane_move_task_declined_compound_filter() {
    let mut app = work_home_app(&["todo @work +project task"], "@work +project");
    let was_none = app.undo_entry.is_none();
    let r = app.pane_move_task(1);
    assert!(matches!(r, PaneMove::SourceNotTag(_)));
    assert_eq!(app.undo_entry.is_none(), was_none);
    assert_eq!(app.active_pane, 0);
}

#[test]
fn pane_move_task_wraps_at_boundary() {
    let mut app = work_home_app(&["todo @work task"], "@work");
    app.active_pane = 0;
    let r = app.pane_move_task(-1);
    assert!(matches!(r, PaneMove::Move { dest: 1, .. }));
    assert_eq!(app.active_pane, 1);
}

#[test]
fn ctrl_one_applies_pane_layout_preset() {
    let mut cfg = TuiConfig::default();
    cfg.presets.panes.push((
        "1".to_string(),
        PaneLayoutPreset { panes: vec![filtered_pane("Work", "@work"), filtered_pane("Home", "@home")] },
    ));
    let mut app = make_app_with_config(&["task @work", "task @home"], cfg);
    assert_eq!(app.panes.len(), 1);
    assert_eq!(app.pane_presets.len(), 1);
    let cmd = press_ctrl_key(&mut app, KeyCode::Char('1'));
    assert_eq!(cmd, NormalCommand::LayoutPreset(0));
    assert!(app.apply_pane_layout_preset(0));
    assert_eq!(app.panes.len(), 2);
    assert_eq!(app.panes[0].label, "Work");
    assert_eq!(app.active_pane, 0);
}

fn make_filtering_app(lines: &[&str], text: &str) -> App {
    let mut app = make_app_with_tasks(lines);
    app.mode = AppMode::Filtering;
    app.filter_state = Some(FilteringState {
        text: text.to_string(),
        selected_preset: 0,
        snapshot: String::new(),
    });
    app
}

fn plain(code: KeyCode) -> KeyEvent {
    key(code, KeyModifiers::none())
}

#[test]
fn filter_enter_pushes_to_history() {
    let mut app = make_filtering_app(&["task +work"], "+work");
    assert!(app.filter_history.is_empty());
    let r = app.handle_filtering_key(&plain(KeyCode::Enter), 5);
    assert!(matches!(r, FilterOutcome::RebuildAndReload));
    assert_eq!(app.filter_history.len(), 1);
    assert_eq!(app.filter_history[0], "+work");
    assert_eq!(app.mode, AppMode::Normal);
}

#[test]
fn ctrl_r_cycles_filter_history() {
    let mut app = make_filtering_app(&["task +work", "task +home"], "");
    app.filter_history = VecDeque::from(vec!["+work".to_string(), "+home".to_string()]);
    let ctrl_r = key(KeyCode::Char('r'), KeyModifiers::ctrl());
    app.handle_filtering_key(&ctrl_r, 0);
    assert_eq!(app.filter_history_cursor, Some(0));
    assert_eq!(app.active_pane().filter_query, "+work");
    let cursor = app.filter_state.as_ref().unwrap().text.len();
    app.handle_filtering_key(&ctrl_r, cursor);
    assert_eq!(app.filter_history_cursor, Some(1));
    assert_eq!(app.active_pane().filter_query, "+home");
}

#[test]
fn pane_move_task_direct_moves_right() {
    let mut app = work_home_app(&["todo @work task"], "@work");
    assert_eq!(app.active_pane, 0);
    match app.pane_move_task(1) {
        PaneMove::Move { edits, .. } => {
            let raw = &edits[0].1;
            assert!(!raw.contains("@work"));
            assert!(raw.contains("@home"));
        }
        _ => panic!("expected a move"),
    }
    assert_eq!(app.active_pane, 1);
}

#[test]
fn pane_move_task_pushes_undo_entry() {
    let mut app = work_home_app(&["todo @work task"], "@work");
    assert!(app.undo_entry.is_none());
    app.pane_move_task(1);
    assert!(app.undo_entry.is_some());
}

// ── filter autocomplete ─────────────────────────────────────────────────────

fn records(lines: &[&str]) -> Vec<TaskRecord> {
    lines.iter().map(|l| rec(l)).collect()
}

#[test]
fn compute_filter_autocomplete_empty_returns_none() {
    let tl = records(&[]);
    assert!(compute_filter_autocomplete("", 0, &tl, &VecDeque::new()).is_none());
}

#[test]
fn compute_filter_autocomplete_at_alone_returns_all_contexts() {
    let tl = records(&["task @work", "task @waiting"]);
    let ac = compute_filter_autocomplete("@", 1, &tl, &VecDeque::new()).expect("@ alone should return Some");
    assert_eq!(ac.trigger, '@');
    assert_eq!(ac.prefix, "");
    assert_eq!(ac.mode, AutocompleteMode::TokenAutocomplete('@'));
    assert!(ac.items.contains(&"work".to_string()));
    assert!(ac.items.contains(&"waiting".to_string()));
}

#[test]
fn compute_filter_autocomplete_at_w_filters_contexts() {
    let tl = records(&["task @work", "task @waiting", "task @home"]);
    let ac = compute_filter_autocomplete("@w", 2, &tl, &VecDeque::new()).expect("@w should return Some");
    assert_eq!(ac.trigger, '@');
    assert_eq!(ac.prefix, "w");
    assert_eq!(ac.items, vec!["waiting".to_string(), "work".to_string()]);
}

#[test]
fn compute_filter_autocomplete_mid_expression_cursor_aware() {
    let tl = records(&["task @work", "task @waiting"]);
    let ac = compute_filter_autocomplete("done:false @w", 13, &tl, &VecDeque::new()).expect("Some");
    assert_eq!(ac.trigger, '@');
    assert_eq!(ac.prefix, "w");
}

#[test]
fn compute_filter_autocomplete_plus_alone_returns_all_projects() {
    let tl = records(&["task +inbox", "task +personal"]);
    let ac = compute_filter_autocomplete("+", 1, &tl, &VecDeque::new()).expect("Some");
    assert_eq!(ac.trigger, '+');
    assert_eq!(ac.prefix, "");
    assert_eq!(ac.mode, AutocompleteMode::TokenAutocomplete('+'));
    assert!(ac.items.contains(&"inbox".to_string()));
    assert!(ac.items.contains(&"personal".to_string()));
}

#[test]
fn compute_filter_autocomplete_no_trigger_with_history_returns_filter_history() {
    let tl = records(&[]);
    let mut history = VecDeque::new();
    history.push_back("+work".to_string());
    history.push_back("@home".to_string());
    let ac = compute_filter_autocomplete("just text", 9, &tl, &history).expect("Some");
    assert_eq!(ac.mode, AutocompleteMode::FilterHistory);
    assert_eq!(ac.trigger, '\0');
    assert_eq!(history, ac.items);
}

#[test]
fn compute_filter_autocomplete_no_trigger_empty_history_returns_none() {
    let tl = records(&[]);
    assert!(compute_filter_autocomplete("just text", 9, &tl, &VecDeque::new()).is_none());
}

#[test]
fn compute_filter_autocomplete_at_xyz_no_match_returns_none() {
    let tl = records(&["task @work", "task @home"]);
    assert!(compute_filter_autocomplete("@xyz", 4, &tl, &VecDeque::new()).is_none());
}

/// Types `c` into the filter panel as the editor would.
fn type_filter_char(app: &mut App, c: char) {
    let cursor = app.filter_state.as_ref().unwrap().text.len();
    let r = app.handle_filtering_key(&plain(KeyCode::Char(c)), cursor);
    assert!(matches!(r, FilterOutcome::EditText));
    let mut text = app.filter_state.as_ref().unwrap().text.clone();
    text.push(c);
    let n = text.len();
    app.filter_text_edited(&text, n);
}

#[test]
fn filter_autocomplete_at_triggers_token_popup() {
    let mut app = make_filtering_app(&["task @work", "task @waiting"], "");
    type_filter_char(&mut app, '@');
    let ac = app.autocomplete.as_ref().expect("autocomplete should be Some after '@'");
    assert_eq!(ac.mode, AutocompleteMode::TokenAutocomplete('@'));
}

#[test]
fn filter_autocomplete_plus_triggers_project_popup() {
    let mut app = make_filtering_app(&["task +inbox", "task +personal"], "");
    type_filter_char(&mut app, '+');
    let ac = app.autocomplete.as_ref().expect("autocomplete should be Some after '+'");
    assert_eq!(ac.mode, AutocompleteMode::TokenAutocomplete('+'));
}

#[test]
fn filter_autocomplete_narrowing_reduces_list() {
    let mut app = make_filtering_app(&["task @work", "task @waiting", "task @home"], "");
    type_filter_char(&mut app, '@');
    type_filter_char(&mut app, 'w');
    let ac = app.autocomplete.as_ref().expect("autocomplete should be Some after '@w'");
    assert_eq!(ac.mode, AutocompleteMode::TokenAutocomplete('@'));
    for item in &ac.items {
        assert!(item.to_lowercase().starts_with('w'));
    }
    assert!(!ac.items.contains(&"home".to_string()));
}

#[test]
fn filter_autocomplete_down_navigates_when_popup_present() {
    let mut app = make_filtering_app(&["task @work", "task @waiting"], "");
    app.autocomplete =
        Some(AutocompleteState::new('@', String::new(), vec!["waiting".to_string(), "work".to_string()]));
    app.handle_filtering_key(&plain(KeyCode::Down), 0);
    let ac = app.autocomplete.as_ref().expect("still Some after Down");
    assert!(ac.focused);
    assert_eq!(ac.selected, 1);
}

#[test]
fn filter_autocomplete_up_decrements_when_popup_focused() {
    let mut app = make_filtering_app(&["task @work", "task @waiting"], "");
    app.autocomplete =
        Some(AutocompleteState::new('@', String::new(), vec!["waiting".to_string(), "work".to_string()]));
    app.handle_filtering_key(&plain(KeyCode::Down), 0);
    app.handle_filtering_key(&plain(KeyCode::Up), 0);
    let ac = app.autocomplete.as_ref().expect("still Some after Up");
    assert_eq!(ac.selected, 0);
}

#[test]
fn filter_autocomplete_enter_when_focused_keeps_filter_open() {
    let mut app = make_filtering_app(&["task @work"], "");
    let mut ac = AutocompleteState::new('@', String::new(), vec!["work".to_string()]);
    ac.focused = true;
    ac.selected = 0;
    app.autocomplete = Some(ac);
    app.handle_filtering_key(&plain(KeyCode::Enter), 0);
    assert_eq!(app.mode, AppMode::Filtering);
    assert!(app.filter_state.is_some());
}

#[test]
fn filter_autocomplete_tab_accepts_and_inserts_token() {
    let mut app = make_filtering_app(&["task @work"], "@");
    let mut ac = AutocompleteState::new('@', String::new(), vec!["work".to_string()]);
    ac.focused = true;
    ac.selected = 0;
    app.autocomplete = Some(ac);
    app.handle_filtering_key(&plain(KeyCode::Tab), 1);
    assert!(app.autocomplete.is_none());
    assert_eq!(app.mode, AppMode::Filtering);
    let content = app.filter_state.as_ref().map(|s| s.text.clone()).unwrap_or_default();
    assert!(content.contains("work"), "got: '{}'", content);
}

#[test]
fn filter_autocomplete_enter_no_focused_popup_applies_filter() {
    let mut app = make_filtering_app(&["task @work"], "@work");
    app.autocomplete = None;
    app.handle_filtering_key(&plain(KeyCode::Enter), 5);
    assert_eq!(app.mode, AppMode::Normal);
    assert_eq!(app.active_pane().filter_query, "@work");
}

// ── round trips ─────────────────────────────────────────────────────────────

#[test]
fn ctrl_f_twice_brings_the_filter_back() {
    let mut app = make_app_with_tasks(&["task A +work", "task B"]);
    app.panes[0].filter_query = "+work".to_string();
    assert_eq!(press_ctrl_key(&mut app, KeyCode::Char('f')), NormalCommand::FilterToggle);
    assert_eq!(app.panes[0].filter_query, "");
    assert_eq!(app.toggled_filter_query.as_deref(), Some("+work"));
    press_ctrl_key(&mut app, KeyCode::Char('f'));
    assert_eq!(app.panes[0].filter_query, "+work");
    assert!(app.toggled_filter_query.is_none());
}

#[test]
fn marking_a_task_twice_unmarks_it() {
    let mut app = make_app_with_tasks(&["A", "B"]);
    app.selected_tasks.insert(1);
    app.toggle_task_selection();
    app.toggle_task_selection();
    assert!(!app.selected_tasks.contains(&0));
    assert!(app.selected_tasks.contains(&1));
    assert_eq!(app.selected_tasks.len(), 1);
}

#[test]
fn pushing_the_same_filter_twice_keeps_one_entry_in_front() {
    let mut app = make_app_with_tasks(&["A"]);
    app.push_filter_history("+a");
    app.push_filter_history("+b");
    app.push_filter_history("+b");
    assert_eq!(app.filter_history, vec!["+b".to_string(), "+a".to_string()]);
}

#[test]
fn quit_keys_set_the_quit_flag() {
    let mut app = make_app_with_tasks(&["A"]);
    assert_eq!(press_ctrl_key(&mut app, KeyCode::Char('c')), NormalCommand::Quit);
    assert!(app.should_quit);
    let mut app2 = make_app_with_tasks(&["A"]);
    assert_eq!(press_key(&mut app2, KeyCode::Char('q')), NormalCommand::Quit);
}

#[test]
fn half_page_moves_clamp_to_the_rows() {
    let mut app = make_app_with_tasks(&["A", "B", "C", "D", "E"]);
    app.list_height = 4;
    app.half_page_move(true, false);
    assert_eq!(app.selected, 2);
    app.half_page_move(true, false);
    assert_eq!(app.selected, 4);
    app.half_page_move(true, false);
    assert_eq!(app.selected, 4);
    app.half_page_move(false, true);
    assert_eq!(app.selected, 2);
    assert_eq!(app.selection_anchor, Some(4));
    assert!(app.selected_tasks.contains(&3));
}

#[test]
fn test_save_view_state_no_write_when_unchanged() {
    let mut app = make_two_pane_app(&["task A"]);
    let (current, changed) = app.view_state();
    assert_eq!(current.len(), 2);
    assert!(!changed, "unchanged panes are not written");
    app.panes[1].filter_query = "project:changed".to_string();
    let (current, changed) = app.view_state();
    assert!(changed);
    assert_eq!(current[1].filter, "project:changed");
    assert_eq!(current[1].label, "Work");
    assert_eq!(current[1].group_by, Some(GroupByCategory::Priority));
}

#[test]
fn archive_path_defaults_beside_the_todo_file() {
    let mut app = make_app_with_tasks(&["x done"]);
    app.todo_path = "/home/me/lists/todo.txt".to_string();
    assert_eq!(app.archive_path(), "/home/me/lists/done.txt");
    app.config.done_file = Some("/elsewhere/archive.txt".to_string());
    assert_eq!(app.archive_path(), "/elsewhere/archive.txt");
}

#[test]
fn priority_picker_letters_focus_and_jump_but_digits_do_not() {
    let mut app = make_app_with_tasks(&["task A"]);
    assert!(app.open_priority_picker());
    assert_eq!(app.mode, AppMode::PriorityPicker);
    app.handle_priority_picker_key(&plain(KeyCode::Char('1')));
    assert!(!app.priority_picker.as_ref().unwrap().focused, "a digit is no letter");
    app.handle_priority_picker_key(&plain(KeyCode::Char('é')));
    let p = app.priority_picker.as_ref().unwrap();
    assert!(p.focused, "an accented letter is a letter");
    assert_eq!(p.selected_idx, 0, "but names no priority");
    app.handle_priority_picker_key(&plain(KeyCode::Char('c')));
    assert_eq!(app.priority_picker.as_ref().unwrap().selected_priority(), Some('C'));
    match app.handle_priority_picker_key(&plain(KeyCode::Enter)) {
        PickerOutcome::SetPriority { priority, targets } => {
            assert_eq!(priority, Some('C'));
            assert_eq!(targets, vec![0]);
        }
        _ => panic!("expected a priority for the task under the cursor"),
    }
    assert_eq!(app.mode, AppMode::Normal);
}

#[test]
fn date_picker_typed_full_date_is_read_as_a_calendar_date() {
    let mut app = make_app_with_tasks(&["task A"]);
    app.mode = AppMode::DatePicker;
    app.date_picker = Some(DatePickerState::new("2026-04"));
    for ch in ['2', '0', '3', '2', '-', '0', '2', '2', '9'] {
        app.handle_date_picker_key(&plain(KeyCode::Char(ch)));
    }
    match app.handle_date_picker_key(&plain(KeyCode::Enter)) {
        PickerOutcome::SetDue { year, month, day, targets } => {
            assert_eq!((year, month, day), (2032, 2, 29));
            assert_eq!(targets, vec![0]);
        }
        _ => panic!("expected a due date"),
    }
}

#[test]
fn date_picker_refuses_a_date_the_calendar_lacks() {
    let mut app = make_app_with_tasks(&["task A"]);
    app.mode = AppMode::DatePicker;
    app.date_picker = Some(DatePickerState {
        month_year: "2031-02".to_string(),
        selected_day: Some(30),
        day_input: String::new(),
        suggestions: vec![],
        focused: false,
    });
    match app.handle_date_picker_key(&plain(KeyCode::Enter)) {
        PickerOutcome::InvalidDate(msg) => assert!(msg.starts_with("Invalid date: "), "{msg}"),
        _ => panic!("30 February is no date"),
    }
    assert_eq!(app.mode, AppMode::DatePicker);
    assert!(app.date_picker.is_none());
}

#[test]
fn move_line_swaps_tag_keeping_other_words() {
    assert_eq!(move_line("call  mom @work\tsoon", "@work", "@home"), "call mom soon @home");
    assert_eq!(move_line("@home call @work", "@work", "@home"), "@home call");
    assert_eq!(move_line("@work", "@work", "@home"), "@home");
    assert_eq!(move_line("@work @work plan", "@work", "+garden"), "plan +garden");
}

#[test]
fn fresh_app_from_default_config_is_clean() {
    let app = make_app_with_tasks(&["Task 1"]);
    assert_eq!(app.panes.len(), 1);
    assert_eq!(app.panes[0].label, "");
    assert_eq!(app.active_pane, 0);
    assert_eq!(app.pane_counter, 2);
    assert_eq!(app.mode, AppMode::Normal);
    assert!(app.selected_tasks.is_empty());
    assert!(app.selection_anchor.is_none());
    assert!(!app.disjoint_select);
    assert!(app.undo_entry.is_none());
    assert!(app.keymap_warnings.is_empty());
    assert!(app.runtime_warnings.is_empty());
}

#[test]
fn fresh_app_reports_keymap_problems() {
    let mut config = TuiConfig::default();
    config.keymap.push(("no_such_action".to_string(), "x".to_string()));
    let app = make_app_with_config(&["Task 1"], config);
    assert_eq!(app.keymap_warnings.len(), 1);
}

#[test]
fn pane_rows_mark_style_and_fit() {
    let mut overdue = rec("(D) pay rent");
    overdue.due_status = DueStatus::Overdue;
    let tasks = vec![rec("(A) call mom @home"), rec("x done thing"), overdue, rec("plain task")];
    let a = PaneList::pane_row_line(&DisplayRow::Task(0), &tasks, true, false, false, false, 0).unwrap();
    assert_eq!(a.text, "> (A) call mom @home");
    assert_eq!(a.style, RowStyle::PriorityA);
    assert!(a.bold);
    let d = PaneList::pane_row_line(&DisplayRow::Task(1), &tasks, false, true, true, false, 0).unwrap();
    assert_eq!(d.text, "V x done thing");
    assert_eq!(d.style, RowStyle::Dim);
    assert!(!d.bold);
    let o = PaneList::pane_row_line(&DisplayRow::Task(2), &tasks, false, false, false, false, 0).unwrap();
    assert_eq!(o.style, RowStyle::Overdue);
    let cut = PaneList::pane_row_line(&DisplayRow::Task(0), &tasks, false, false, false, false, 12).unwrap();
    assert_eq!(cut.text, "(A) call\u{2026}");
    let h = PaneList::pane_row_line(&DisplayRow::GroupHeader("Work".to_string()), &tasks, false, false, false, false, 0)
        .unwrap();
    assert_eq!(h.text, "Work");
    assert_eq!(h.style, RowStyle::Header);
    let h = PaneList::pane_row_line(&DisplayRow::GroupHeader("Work".to_string()), &tasks, false, false, false, false, 20)
        .unwrap();
    assert_eq!(h.text, " Work");
}

#[test]
fn pane_row_refused_inside_a_character() {
    let tasks = vec![rec("éééééééééé")];
    assert!(PaneList::pane_row_line(&DisplayRow::Task(0), &tasks, false, false, false, false, 6).is_none());
    assert!(!truncation_ok("éééééééééé", 6));
    assert!(truncation_ok("éééééééééé", 5));
    assert!(truncation_ok("short", 40));
}

#[test]
fn deferred_rows_dim_only_when_shown() {
    let mut t = rec("(A) later");
    t.deferred = true;
    let tasks = vec![t];
    let shown = PaneList::pane_row_line(&DisplayRow::Task(0), &tasks, false, false, false, true, 0).unwrap();
    assert_eq!(shown.style, RowStyle::Dim);
    let hidden = PaneList::pane_row_line(&DisplayRow::Task(0), &tasks, false, false, false, false, 0).unwrap();
    assert_eq!(hidden.style, RowStyle::PriorityA);
}

#[test]
fn single_list_rows_number_and_indent() {
    let tasks = vec![rec("first"), rec("second")];
    let r = PaneList::list_row_line(&DisplayRow::Task(1), &tasks, true, false, false, false, true);
    assert_eq!(r.text, ">   2: second");
    let r = PaneList::list_row_line(&DisplayRow::Task(0), &tasks, false, true, false, false, false);
    assert_eq!(r.text, "1: first");
    let h = PaneList::list_row_line(&DisplayRow::GroupHeader("A".to_string()), &tasks, false, false, false, false, true);
    assert_eq!(h.text, " A");
}

#[test]
fn list_placeholders() {
    assert_eq!(placeholder_text(true, true, false, false), Some("(no tasks)".to_string()));
    assert_eq!(placeholder_text(true, false, true, true), None);
    assert_eq!(placeholder_text(false, false, true, true), Some("(no tasks)".to_string()));
    assert_eq!(placeholder_text(false, false, true, false), Some("(no matching tasks)".to_string()));
    assert_eq!(placeholder_text(false, true, false, false), None);
}

#[test]
fn cursor_highlight_bold_on_marked_task() {
    let rows = vec![DisplayRow::GroupHeader("G".to_string()), DisplayRow::Task(3)];
    let mut marked = TaskSelection::new();
    marked.insert(3);
    assert!(cursor_on_marked(&rows, 1, &marked));
    assert!(!cursor_on_marked(&rows, 0, &marked));
    assert!(!cursor_on_marked(&rows, 5, &marked));
}

#[test]
fn status_hints_text_lists_keys() {
    let h = status_hints_text();
    assert!(h.starts_with("  q quit | n add"));
    assert!(h.ends_with(". reload | ? help"));
}

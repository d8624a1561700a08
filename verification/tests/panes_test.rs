use todotxt_tui::app::App;
use todotxt_tui::config::{
    resolve_startup_paths, sibling_done_path, CliPathOverrides, PaneConfig, PaneSort, PathError,
    TuiConfig,
};
use todotxt_tui::pane_list::PaneList;
use todotxt_tui::state::{DisplayRow, Pane};
use todotxt_tui::task::{SortOrder, TaskRecord, DueStatus};
use todotxt_tui::theme::Theme;

fn rec(line: &str) -> TaskRecord {
    TaskRecord {
        raw: line.to_string(),
        completed: false,
        priority: None,
        projects: Vec::new(),
        contexts: Vec::new(),
        due_date: None,
        due_status: DueStatus::NoDueDate,
        deferred: false,
    }
}

/// An application on `lines`, every view listing every task in file order.
fn make_app_with_lines(lines: &[&str]) -> App {
    make_app_with_config(lines, TuiConfig::default())
}

fn make_app_with_config(lines: &[&str], config: TuiConfig) -> App {
    let tasks: Vec<TaskRecord> = lines.iter().map(|l| rec(l)).collect();
    let mut app = App::new(tasks, "todo.txt".to_string(), config, None, Theme::Default, true);
    let all: Vec<usize> = (0..lines.len()).collect();
    let views: Vec<Vec<usize>> = (0..app.panes.len()).map(|_| all.clone()).collect();
    app.rebuild_all_panes(&views);
    app.rebuild_and_reanchor(&all, &all);
    app
}

fn setup_test_app() -> App {
    make_app_with_lines(&[])
}

// ── fallback to a single view ───────────────────────────────────────────────

#[test]
fn test_single_pane_mode_with_empty_panes() {
    let mut app = make_app_with_lines(&["task A"]);
    app.panes.clear();
    assert!(app.should_show_single_pane());
}

#[test]
fn test_single_pane_mode_with_one_pane() {
    let app = make_app_with_lines(&["task A"]);
    assert!(app.should_show_single_pane());
}

#[test]
fn test_single_pane_mode_with_all_empty() {
    let mut app = make_app_with_lines(&[]);
    app.panes.push(Pane::new(1, "Empty1".to_string()));
    app.panes.push(Pane::new(2, "Empty2".to_string()));
    assert!(app.should_show_single_pane());
}

#[test]
fn test_multi_pane_mode_with_populated_panes() {
    let mut app = make_app_with_lines(&["task A", "task B"]);
    app.panes.push(Pane::new(1, "Work".to_string()));
    assert!(!app.should_show_single_pane());
}

#[test]
fn test_reconcile_empty_panes() {
    let mut app = make_app_with_lines(&["task A"]);
    app.panes.clear();
    app.active_pane = 5;
    app.reconcile_active_pane();
    assert_eq!(app.panes.len(), 1);
    assert_eq!(app.active_pane, 0);
}

#[test]
fn test_reconcile_out_of_bounds_active_pane() {
    let mut app = make_app_with_lines(&["task A"]);
    app.panes.push(Pane::new(1, "Work".to_string()));
    app.active_pane = 10;
    app.reconcile_active_pane();
    assert_eq!(app.active_pane, 1);
}

#[test]
fn test_display_rows_fallback() {
    let mut app = make_app_with_lines(&["task A"]);
    app.panes[0].display_rows = vec![DisplayRow::Task(0)];
    let rows = app.display_rows();
    assert_eq!(rows.len(), 1);
}

#[test]
fn test_display_rows_multi_pane() {
    let mut app = make_app_with_lines(&["task A", "task B", "task C"]);
    app.panes.push(Pane::new(1, "Work".to_string()));
    app.panes[1].display_rows = vec![DisplayRow::Task(1), DisplayRow::Task(2)];
    app.active_pane = 1;
    let rows = app.display_rows();
    assert_eq!(rows.len(), 2);
}

// ── per-pane state across navigation ────────────────────────────────────────

#[test]
fn test_pane_navigation_wraps_around() {
    let mut app = setup_test_app();
    assert_eq!(app.panes.len(), 1);
    assert_eq!(app.active_pane, 0);

    app.panes.push(Pane::new(1, "Pane 2".to_string()));
    assert_eq!(app.panes.len(), 2);

    app.focus_next_pane();
    assert_eq!(app.active_pane, 1);
    app.focus_next_pane();
    assert_eq!(app.active_pane, 0);
    app.focus_prev_pane();
    assert_eq!(app.active_pane, 1);
    app.focus_prev_pane();
    assert_eq!(app.active_pane, 0);
}

#[test]
fn test_pane_filter_state_preserved_on_navigation() {
    let mut app = setup_test_app();
    app.panes.push(Pane::new(1, "Pane 2".to_string()));

    app.panes[0].filter_query = "project:work".to_string();
    app.focus_next_pane();
    assert_eq!(app.active_pane, 1);
    assert_eq!(app.active_pane().filter_query, "");
    app.focus_prev_pane();
    assert_eq!(app.active_pane, 0);
    assert_eq!(app.active_pane().filter_query, "project:work");
}

#[test]
fn test_pane_sort_state_preserved_on_navigation() {
    let mut app = setup_test_app();
    app.panes.push(Pane::new(1, "Pane 2".to_string()));

    app.panes[0].sort_order = SortOrder::Priority;
    app.focus_next_pane();
    assert_eq!(app.active_pane().sort_order, SortOrder::FileOrder);
    app.focus_prev_pane();
    assert_eq!(app.active_pane().sort_order, SortOrder::Priority);
}

#[test]
fn test_pane_grouping_state_preserved_on_navigation() {
    let mut app = setup_test_app();
    app.panes.push(Pane::new(1, "Pane 2".to_string()));

    app.panes[0].grouping = true;
    app.focus_next_pane();
    assert_eq!(app.active_pane().grouping, false);
    app.focus_prev_pane();
    assert_eq!(app.active_pane().grouping, true);
}

#[test]
fn test_empty_pane_allows_filter_modification() {
    let mut app = setup_test_app();
    assert!(app.active_pane().is_empty());
    let a = app.active_pane;
    app.panes[a].filter_query = "project:test".to_string();
    assert_eq!(app.active_pane().filter_query, "project:test");
}

#[test]
fn test_empty_pane_allows_sort_modification() {
    let mut app = setup_test_app();
    assert!(app.active_pane().is_empty());
    app.cycle_active_sort();
    assert_eq!(app.active_pane().sort_order, SortOrder::Alphabetical);
}

#[test]
fn test_empty_pane_allows_grouping_modification() {
    let mut app = setup_test_app();
    assert!(app.active_pane().is_empty());
    app.toggle_active_grouping();
    assert!(app.active_pane().grouping);
}

#[test]
fn test_reconcile_active_pane_ensures_bounds() {
    let mut app = setup_test_app();
    app.panes.push(Pane::new(1, "Pane 2".to_string()));
    app.panes.push(Pane::new(2, "Pane 3".to_string()));
    app.active_pane = 5;
    app.reconcile_active_pane();
    assert_eq!(app.active_pane, 2);
}

#[test]
fn test_reconcile_active_pane_creates_default_pane_when_empty() {
    let mut app = setup_test_app();
    app.panes.clear();
    assert_eq!(app.panes.len(), 0);
    app.reconcile_active_pane();
    assert_eq!(app.panes.len(), 1);
    assert_eq!(app.active_pane, 0);
    assert_eq!(app.panes[0].label, "");
}

#[test]
fn test_single_pane_fallback_when_all_panes_empty() {
    let mut app = setup_test_app();
    app.panes.push(Pane::new(1, "Pane 2".to_string()));
    app.panes.push(Pane::new(2, "Pane 3".to_string()));
    for pane in &app.panes {
        assert!(pane.is_empty());
    }
    assert!(app.should_show_single_pane());
}

#[test]
fn test_active_pane_mut_reconciles_bounds() {
    let mut app = setup_test_app();
    app.active_pane = 10;
    app.reconcile_active_pane();
    assert!(app.active_pane < app.panes.len());
}

fn configured(label: &str, filter: &str, sort: PaneSort, group: bool) -> PaneConfig {
    PaneConfig { label: label.to_string(), filter: filter.to_string(), sort, group, group_by: None }
}

#[test]
fn test_startup_bootstrap_uses_configured_panes() {
    let mut config = TuiConfig::default();
    config.panes = vec![
        configured("Work", "project:work", PaneSort::Priority, true),
        configured("Today", "due:today", PaneSort::DueDate, false),
    ];
    let app = make_app_with_config(&[], config);
    assert_eq!(app.panes.len(), 2);
    assert_eq!(app.panes[0].label, "Work");
    assert_eq!(app.panes[0].filter_query, "project:work");
    assert_eq!(app.panes[0].sort_order, SortOrder::Priority);
    assert!(app.panes[0].grouping);
    assert_eq!(app.panes[1].label, "Today");
    assert_eq!(app.panes[1].filter_query, "due:today");
    assert_eq!(app.panes[1].sort_order, SortOrder::DueDate);
    assert!(!app.panes[1].grouping);
}

#[test]
fn blank_configured_label_becomes_pane_number() {
    let mut config = TuiConfig::default();
    config.panes = vec![configured("", "", PaneSort::FileOrder, false), configured("  ", "", PaneSort::FileOrder, false)];
    let app = make_app_with_config(&[], config);
    assert_eq!(app.panes[0].label, "Pane 1");
    assert_eq!(app.panes[1].label, "Pane 2");
}

#[test]
fn pane_add_is_capped_and_delete_keeps_one_pane() {
    let mut app = setup_test_app();
    for _ in 0..20 {
        app.pane_add();
    }
    assert_eq!(app.panes.len(), 10);
    assert_eq!(app.panes[1].label, "Pane 2");
    for _ in 0..20 {
        app.pane_delete();
    }
    assert_eq!(app.panes.len(), 1);
    assert_eq!(app.active_pane, 0);
}

// ── single view state ───────────────────────────────────────────────────────

#[test]
fn test_single_pane_mode_filter_state_preserved() {
    let mut app = make_app_with_lines(&["task one @home", "task two @work", "task three @home"]);
    assert_eq!(app.panes.len(), 1);
    assert!(app.should_show_single_pane());
    app.panes[0].filter_query = "@home".to_string();
    assert_eq!(app.active_pane().filter_query, "@home");
    assert!(app.should_show_single_pane());
}

#[test]
fn test_single_pane_mode_sort_state_preserved() {
    let mut app = make_app_with_lines(&["(B) task priority B", "(A) task priority A", "(C) task priority C"]);
    assert_eq!(app.panes.len(), 1);
    assert!(app.should_show_single_pane());
    app.panes[0].sort_order = SortOrder::Priority;
    assert_eq!(app.active_pane().sort_order, SortOrder::Priority);
}

#[test]
fn test_single_pane_mode_grouping_state_preserved() {
    let mut app = make_app_with_lines(&["task one @home", "task two @home"]);
    assert!(app.should_show_single_pane());
    app.toggle_active_grouping();
    assert!(app.active_pane().grouping);
}

#[test]
fn test_panes_hidden_mode_state_preserved() {
    let mut app = make_app_with_lines(&["personal task @home", "work task @work"]);
    app.panes.push(Pane::new(1, "Work".to_string()));
    app.panes[1].display_rows = vec![DisplayRow::Task(1)];
    assert!(!app.should_show_single_pane(), "Should be multi-pane");
    app.pane_hide_toggle();
    assert!(app.panes_hidden);
    let a = app.active_pane;
    app.panes[a].filter_query = "@work".to_string();
    assert_eq!(app.active_pane().filter_query, "@work");
}

#[test]
fn test_multi_pane_mode_per_pane_state_independent() {
    let mut app = make_app_with_lines(&["task one @home", "task two @work"]);
    app.panes.push(Pane::new(1, "Work".to_string()));
    app.panes[0].filter_query = "@home".to_string();
    app.panes[1].filter_query = "@work".to_string();
    app.active_pane = 0;
    assert_eq!(app.active_pane().filter_query, "@home");
    app.active_pane = 1;
    assert_eq!(app.active_pane().filter_query, "@work");
    app.active_pane = 0;
    assert_eq!(app.active_pane().filter_query, "@home");
}

// ── pane titles ─────────────────────────────────────────────────────────────

#[test]
fn pane_header_no_sort_indicator() {
    let mut p = Pane::new(0, "Pane 3".to_string());
    p.sort_order = SortOrder::CompletedDate;
    let title = PaneList::build_pane_title(&p, true, false);
    assert!(!title.contains("sort:"));
    assert_eq!(title, "▶ Pane 3");
}

#[test]
fn pane_header_filter_no_prefix() {
    let mut p = Pane::new(0, "Pane 3".to_string());
    p.filter_query = "@work +CTRC".to_string();
    p.sort_order = SortOrder::CompletedDate;
    let title = PaneList::build_pane_title(&p, true, false);
    assert!(!title.contains("filter:"));
    assert_eq!(title, "▶ Pane 3 | @work +CTRC");
}

#[test]
fn truncate_for_width_cuts_at_character_boundaries() {
    assert_eq!(PaneList::truncate_for_width("hello", 10), "hello");
    assert_eq!(PaneList::truncate_for_width("hello world", 8), "hello…");
    assert_eq!(PaneList::truncate_for_width("helloworld", 8), "hellowo…");
    assert_eq!(PaneList::truncate_for_width("hello", 0), "…");
}

// ── startup paths ───────────────────────────────────────────────────────────

fn path(value: &str) -> String {
    value.to_string()
}

#[test]
fn path_resolution_test_no_cli_flags_uses_config_values() {
    let mut config = TuiConfig::default();
    config.todo_file = Some(path("C:/cfg/todo.txt"));
    config.done_file = Some(path("C:/cfg/done.txt"));
    let overrides = CliPathOverrides::default();
    let resolved = resolve_startup_paths(&config, &overrides).expect("expected resolved startup paths");
    assert_eq!(resolved.todo_path, path("C:/cfg/todo.txt"));
    assert_eq!(resolved.archive_path, path("C:/cfg/done.txt"));
}

#[test]
fn path_resolution_test_cli_todo_overrides_config_todo() {
    let mut config = TuiConfig::default();
    config.todo_file = Some(path("C:/cfg/todo.txt"));
    config.done_file = Some(path("C:/cfg/done.txt"));
    let overrides = CliPathOverrides { todo: Some(path("C:/cli/work.txt")), archive: None };
    let resolved = resolve_startup_paths(&config, &overrides).expect("expected resolved startup paths");
    assert_eq!(resolved.todo_path, path("C:/cli/work.txt"));
}

#[test]
fn path_resolution_test_cli_todo_without_archive_defaults_archive_to_todo_sibling_done() {
    let mut config = TuiConfig::default();
    config.todo_file = Some(path("C:/cfg/todo.txt"));
    config.done_file = Some(path("C:/cfg/done.txt"));
    let overrides = CliPathOverrides { todo: Some(path("C:/alt/inbox.txt")), archive: None };
    let resolved = resolve_startup_paths(&config, &overrides).expect("expected resolved startup paths");
    assert_eq!(resolved.todo_path, path("C:/alt/inbox.txt"));
    assert_eq!(resolved.archive_path, path("C:/alt/done.txt"));
}

#[test]
fn path_resolution_test_cli_archive_overrides_config_archive() {
    let mut config = TuiConfig::default();
    config.todo_file = Some(path("C:/cfg/todo.txt"));
    config.done_file = Some(path("C:/cfg/done.txt"));
    let overrides = CliPathOverrides { todo: None, archive: Some(path("C:/cli/archive.txt")) };
    let resolved = resolve_startup_paths(&config, &overrides).expect("expected resolved startup paths");
    assert_eq!(resolved.todo_path, path("C:/cfg/todo.txt"));
    assert_eq!(resolved.archive_path, path("C:/cli/archive.txt"));
}

#[test]
fn path_resolution_test_cli_todo_and_archive_are_used_exactly() {
    let mut config = TuiConfig::default();
    config.todo_file = Some(path("C:/cfg/todo.txt"));
    config.done_file = Some(path("C:/cfg/done.txt"));
    let overrides = CliPathOverrides { todo: Some(path("C:/cli/tasks.txt")), archive: Some(path("C:/cli/completed.txt")) };
    let resolved = resolve_startup_paths(&config, &overrides).expect("expected resolved startup paths");
    assert_eq!(resolved.todo_path, path("C:/cli/tasks.txt"));
    assert_eq!(resolved.archive_path, path("C:/cli/completed.txt"));
}

#[test]
fn path_resolution_without_any_todo_file_is_an_error() {
    let config = TuiConfig::default();
    let overrides = CliPathOverrides::default();
    assert!(matches!(resolve_startup_paths(&config, &overrides), Err(PathError::NoTodoFile)));
}

#[test]
fn sibling_done_path_replaces_the_file_name() {
    assert_eq!(sibling_done_path("C:/alt/inbox.txt"), "C:/alt/done.txt");
    assert_eq!(sibling_done_path("inbox.txt"), "done.txt");
    assert_eq!(sibling_done_path("a\\b\\todo.txt"), "a\\b\\done.txt");
}

#[test]
fn test_pane_selection_clamped_on_navigation() {
    let mut app = setup_test_app();
    app.panes.push(Pane::new(1, "Pane 2".to_string()));

    app.panes[0].selected = 100;
    assert!(!app.panes[0].is_empty() || app.panes[0].selected == 100);

    app.focus_next_pane();
    app.focus_prev_pane();

    // Focus changes leave the cursor alone; a rebuild brings it back in range.
    assert_eq!(app.panes[0].selected, 100);
}

#[test]
fn focus_moves_on_an_app_without_panes() {
    let mut app = setup_test_app();
    app.panes.clear();
    app.active_pane = 3;
    app.focus_next_pane();
    assert_eq!(app.panes.len(), 1);
    assert_eq!(app.active_pane, 0);
    app.panes.push(Pane::new(1, "B".to_string()));
    app.active_pane = 7;
    app.focus_prev_pane();
    assert_eq!(app.active_pane, 0);
}

#[test]
fn display_rows_of_an_app_without_panes_is_empty() {
    let mut app = make_app_with_lines(&["task A"]);
    app.panes.clear();
    assert!(app.display_rows().is_empty());
}

#[test]
fn active_pane_mut_changes_the_active_pane_only() {
    let mut app = make_app_with_lines(&["task A", "task B"]);
    app.panes.push(Pane::new(1, "Work".to_string()));
    app.active_pane = 9;
    app.active_pane_mut().filter_query = "@work".to_string();
    assert_eq!(app.active_pane, 1);
    assert_eq!(app.panes[1].filter_query, "@work");
    assert_eq!(app.panes[0].filter_query, "");
}

#[test]
fn display_rows_mut_edits_the_rows_of_the_view() {
    let mut app = make_app_with_lines(&["task A", "task B"]);
    app.panes[0].display_rows = vec![DisplayRow::Task(0)];
    app.panes.push(Pane::new(1, "Work".to_string()));
    app.active_pane = 1;
    app.display_rows_mut().push(DisplayRow::Task(1));
    assert_eq!(app.panes[1].display_rows, vec![DisplayRow::Task(1)]);
    assert_eq!(app.panes[0].display_rows, vec![DisplayRow::Task(0)]);

    app.panes.clear();
    assert!(app.display_rows_mut().is_empty());
    assert_eq!(app.panes.len(), 1);
}

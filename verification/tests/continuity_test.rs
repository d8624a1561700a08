use todotxt_tui::app::{App, AppMode};
use todotxt_tui::config::TuiConfig;
use todotxt_tui::editor::EditorOutcome;
use todotxt_tui::keys::{KeyCode, KeyEvent, KeyModifiers};
use todotxt_tui::state::DisplayRow;
use todotxt_tui::task::{DueStatus, SortOrder, TaskRecord};
use todotxt_tui::theme::Theme;

fn rec(line: &str) -> TaskRecord {
    let completed = line.starts_with("x ");
    TaskRecord {
        raw: line.to_string(),
        completed,
        priority: None,
        projects: line.split_whitespace().filter_map(|w| w.strip_prefix('+')).map(String::from).collect(),
        contexts: line.split_whitespace().filter_map(|w| w.strip_prefix('@')).map(String::from).collect(),
        due_date: None,
        due_status: DueStatus::NoDueDate,
        deferred: false,
    }
}

/// The tasks a one-word filter keeps (the word occurs in the line); every
/// task for a blank filter.
fn view_of(app: &App, filter: &str) -> Vec<usize> {
    app.tasks
        .iter()
        .enumerate()
        .filter(|(_, t)| filter.is_empty() || t.raw.contains(filter))
        .map(|(i, _)| i)
        .collect()
}

fn rebuild_all_panes(app: &mut App) {
    let views: Vec<Vec<usize>> = app.panes.iter().map(|p| view_of(app, &p.filter_query)).collect();
    app.rebuild_all_panes(&views);
}

fn setup_app_with_state(lines: &[&str], filter_query: &str, sort_order: SortOrder, grouping: bool) -> App {
    let tasks: Vec<TaskRecord> = lines.iter().map(|l| rec(l)).collect();
    let mut app = App::new(tasks, "todo.txt".to_string(), TuiConfig::default(), None, Theme::Default, true);
    app.panes[0].filter_query = filter_query.to_string();
    app.panes[0].sort_order = sort_order;
    app.panes[0].grouping = grouping;
    rebuild_all_panes(&mut app);
    app
}

const INITIAL_TASKS: &[&str] = &[
    "Buy milk @home +shopping due:2026-05-15",
    "(A) Finish report +work @office due:2026-05-01",
    "x 2026-04-28 Completed task @archive",
    "Call client @phone +work due:2026-05-05 t:2026-04-30",
    "@email/waiting Follow up on invoice",
    "+client/acme Prepare presentation",
];

#[test]
fn test_add_task_preserves_filter_state() {
    let mut app = setup_app_with_state(INITIAL_TASKS, "@home", SortOrder::FileOrder, false);
    let initial_filter = app.panes[0].filter_query.clone();
    let initial_sort = app.panes[0].sort_order;
    let initial_grouping = app.panes[0].grouping;

    app.tasks.push(rec("New task @home +shopping"));
    rebuild_all_panes(&mut app);

    assert_eq!(app.panes[0].filter_query, initial_filter);
    assert_eq!(app.panes[0].sort_order, initial_sort);
    assert_eq!(app.panes[0].grouping, initial_grouping);
    assert_eq!(app.panes[0].display_rows, vec![DisplayRow::Task(0), DisplayRow::Task(6)]);
}

#[test]
fn test_edit_task_preserves_filter_state() {
    let mut app = setup_app_with_state(INITIAL_TASKS, "@office", SortOrder::Priority, true);
    let initial_filter = app.panes[0].filter_query.clone();
    let initial_sort = app.panes[0].sort_order;
    let initial_grouping = app.panes[0].grouping;

    app.tasks[0] = rec("(A) Buy milk @home +shopping due:2026-05-15");
    rebuild_all_panes(&mut app);

    assert_eq!(app.panes[0].filter_query, initial_filter);
    assert_eq!(app.panes[0].sort_order, initial_sort);
    assert_eq!(app.panes[0].grouping, initial_grouping);
}

#[test]
fn test_delete_task_preserves_filter_state() {
    let mut app = setup_app_with_state(INITIAL_TASKS, "+work", SortOrder::FileOrder, false);
    let initial_filter = app.panes[0].filter_query.clone();
    let initial_sort = app.panes[0].sort_order;
    let initial_grouping = app.panes[0].grouping;

    if let Some(DisplayRow::Task(idx)) = app.display_rows().first() {
        let idx = *idx;
        app.tasks.remove(idx);
    }
    rebuild_all_panes(&mut app);

    assert_eq!(app.panes[0].filter_query, initial_filter);
    assert_eq!(app.panes[0].sort_order, initial_sort);
    assert_eq!(app.panes[0].grouping, initial_grouping);
}

#[test]
fn test_toggle_task_preserves_filter_state() {
    let mut app = setup_app_with_state(INITIAL_TASKS, "DONE", SortOrder::CompletedDate, true);
    let initial_filter = app.panes[0].filter_query.clone();
    let initial_sort = app.panes[0].sort_order;
    let initial_grouping = app.panes[0].grouping;

    if let Some(DisplayRow::Task(idx)) = app.display_rows().first() {
        let idx = *idx;
        app.tasks[idx].completed = !app.tasks[idx].completed;
    }
    rebuild_all_panes(&mut app);

    assert_eq!(app.panes[0].filter_query, initial_filter);
    assert_eq!(app.panes[0].sort_order, initial_sort);
    assert_eq!(app.panes[0].grouping, initial_grouping);
}

#[test]
fn test_multiple_mutations_preserve_filter_state() {
    let mut app = setup_app_with_state(INITIAL_TASKS, "-DONE", SortOrder::FileOrder, false);
    let initial_filter = app.panes[0].filter_query.clone();
    let initial_sort = app.panes[0].sort_order;
    let initial_grouping = app.panes[0].grouping;

    app.tasks.push(rec("Task 1"));
    rebuild_all_panes(&mut app);
    assert_eq!(app.panes[0].filter_query, initial_filter, "filter_query after add");

    app.tasks[0] = rec("(B) Buy milk @home +shopping due:2026-05-15");
    rebuild_all_panes(&mut app);
    assert_eq!(app.panes[0].filter_query, initial_filter, "filter_query after edit");

    if let Some(DisplayRow::Task(idx)) = app.display_rows().first() {
        let idx = *idx;
        app.tasks.remove(idx);
    }
    rebuild_all_panes(&mut app);
    assert_eq!(app.panes[0].filter_query, initial_filter, "filter_query after delete");

    assert_eq!(app.panes[0].sort_order, initial_sort);
    assert_eq!(app.panes[0].grouping, initial_grouping);
}

#[test]
fn test_undo_entry_captures_original_state() {
    let mut app = setup_app_with_state(&["Buy milk @home +shopping @evening due:2026-05-15"], "", SortOrder::FileOrder, false);
    let original_raw = app.tasks[0].raw.clone();
    let home_pos = original_raw.find("@home").expect("@home not in original");
    let evening_pos = original_raw.find("@evening").expect("@evening not in original");
    assert!(home_pos < evening_pos);

    app.push_undo_entry();

    let undo = app.undo_entry.as_ref().expect("undo_entry should be set");
    assert_eq!(undo.tasks.len(), 1);
    assert_eq!(undo.tasks[0].raw, original_raw);
    assert_eq!(undo.selected, app.selected);
}

#[test]
fn test_hierarchical_filter_state_preserved() {
    let mut app = setup_app_with_state(&["Task @email/waiting", "Task @work"], "@email", SortOrder::FileOrder, false);
    let initial_filter = app.panes[0].filter_query.clone();

    app.tasks.push(rec("Follow up @email/urgent"));
    rebuild_all_panes(&mut app);

    assert_eq!(app.panes[0].filter_query, initial_filter);
}

#[test]
fn test_project_hierarchical_filter_preserved() {
    let mut app = setup_app_with_state(&["Work +client/acme", "Work +other"], "+client", SortOrder::FileOrder, true);
    let initial_filter = app.panes[0].filter_query.clone();
    let initial_grouping = app.panes[0].grouping;

    if let Some(DisplayRow::Task(idx)) = app.display_rows().first() {
        let idx = *idx;
        app.tasks.remove(idx);
    }
    rebuild_all_panes(&mut app);

    assert_eq!(app.panes[0].filter_query, initial_filter);
    assert_eq!(app.panes[0].grouping, initial_grouping);
}

#[test]
fn ctrl_v_in_adding_mode_pastes_first_clipboard_line_only() {
    let mut app = setup_app_with_state(&["existing"], "", SortOrder::FileOrder, false);
    app.start_add();
    assert_eq!(app.mode, AppMode::Adding);
    let ctrl_v = KeyEvent { code: KeyCode::Char('v'), modifiers: KeyModifiers::ctrl() };
    let outcome = app.handle_editor_key(&ctrl_v, "");
    assert!(matches!(outcome, EditorOutcome::PasteFromClipboard));
    let clipboard = "first line\nsecond line";
    let content = clipboard.lines().next().unwrap_or_default();
    assert_eq!(content, "first line");
}

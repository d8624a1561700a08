use todotxt_tui::state::{
    dedupe_tokens, generate_date_suggestions, is_fuzzy_subsequence, rank_matches, AutocompleteMode,
    AutocompleteState, DatePickerState, DisplayRow, Pane, PriorityPickerState,
};

#[test]
fn test_pane_new() {
    let pane = Pane::new(0, "Test".to_string());
    assert_eq!(pane.id, 0);
    assert_eq!(pane.label, "Test");
    assert!(pane.display_rows.is_empty());
    assert_eq!(pane.selected, 0);
    assert_eq!(pane.filter_query, "");
    assert_eq!(pane.grouping, false);
    assert!(!pane.label_selected);
}

#[test]
fn test_pane_is_empty() {
    let mut pane = Pane::new(0, "Test".to_string());
    assert!(pane.is_empty());

    pane.display_rows.push(DisplayRow::Task(0));
    assert!(!pane.is_empty());
}

#[test]
fn test_pane_selected_row() {
    let mut pane = Pane::new(0, "Test".to_string());
    pane.display_rows = vec![DisplayRow::Task(0), DisplayRow::Task(1), DisplayRow::Task(2)];

    assert_eq!(pane.selected_row(), Some(&DisplayRow::Task(0)));

    pane.selected = 2;
    assert_eq!(pane.selected_row(), Some(&DisplayRow::Task(2)));

    pane.selected = 5; // Out of bounds
    assert_eq!(pane.selected_row(), None);
}

#[test]
fn test_pane_select_next() {
    let mut pane = Pane::new(0, "Test".to_string());
    pane.display_rows = vec![DisplayRow::Task(0), DisplayRow::Task(1), DisplayRow::Task(2)];

    assert_eq!(pane.selected, 0);
    pane.select_next();
    assert_eq!(pane.selected, 1);
    pane.select_next();
    assert_eq!(pane.selected, 2);
    pane.select_next();
    assert_eq!(pane.selected, 2);
}

#[test]
fn test_pane_select_prev() {
    let mut pane = Pane::new(0, "Test".to_string());
    pane.display_rows = vec![DisplayRow::Task(0), DisplayRow::Task(1), DisplayRow::Task(2)];

    pane.selected = 2;
    pane.select_prev();
    assert_eq!(pane.selected, 1);
    pane.select_prev();
    assert_eq!(pane.selected, 0);
    pane.select_prev();
    assert_eq!(pane.selected, 0);
}

#[test]
fn test_pane_selection_empty() {
    let mut pane = Pane::new(0, "Test".to_string());
    pane.select_next();
    assert_eq!(pane.selected, 0);
    pane.select_prev();
    assert_eq!(pane.selected, 0);
}

#[test]
fn test_generate_date_suggestions_valid_month() {
    let suggestions = generate_date_suggestions("2026-07").expect("Should generate suggestions");
    assert!(!suggestions.is_empty(), "July 2026 should have days");
    assert_eq!(suggestions.len(), 31, "July should have 31 days");

    assert!(suggestions[0].starts_with("01"), "First day should be 01");
    let parts: Vec<&str> = suggestions[0].split_whitespace().collect();
    assert_eq!(parts.len(), 2, "Should have day and weekday");
    assert_eq!(parts[0], "01", "First part should be 01");
    assert!(parts[1].len() == 3, "Weekday should be 3 letters (e.g., 'Wed')");

    assert!(suggestions[13].starts_with("14"), "14th day should start with 14");
    let parts: Vec<&str> = suggestions[13].split_whitespace().collect();
    assert_eq!(parts.len(), 2, "Should have day and weekday");
}

#[test]
fn test_generate_date_suggestions_february_leap_year() {
    let suggestions = generate_date_suggestions("2024-02").expect("Should generate suggestions");
    assert_eq!(suggestions.len(), 29, "February 2024 (leap year) should have 29 days");
}

#[test]
fn test_generate_date_suggestions_february_non_leap_year() {
    let suggestions = generate_date_suggestions("2023-02").expect("Should generate suggestions");
    assert_eq!(suggestions.len(), 28, "February 2023 (non-leap year) should have 28 days");
}

#[test]
fn test_generate_date_suggestions_invalid_month() {
    let suggestions = generate_date_suggestions("2026-13").expect("Should not error");
    assert!(suggestions.is_empty(), "Month 13 should return empty Vec");
}

#[test]
fn test_generate_date_suggestions_invalid_format() {
    let suggestions = generate_date_suggestions("2026/07").expect("Should not error");
    assert!(suggestions.is_empty(), "Invalid format should return empty Vec");
}

#[test]
fn test_date_picker_state_new() {
    let picker = DatePickerState::new("2026-07");
    assert_eq!(picker.month_year, "2026-07");
    assert_eq!(picker.selected_day, Some(1));
    assert!(!picker.suggestions.is_empty());
    assert!(!picker.focused);
}

#[test]
fn test_date_picker_select_next() {
    let mut picker = DatePickerState::new("2026-07");
    picker.select_next();
    assert_eq!(picker.selected_day, Some(2));
    picker.select_next();
    assert_eq!(picker.selected_day, Some(3));
}

#[test]
fn test_date_picker_select_prev() {
    let mut picker = DatePickerState::new("2026-07");
    picker.selected_day = Some(3);
    picker.select_prev();
    assert_eq!(picker.selected_day, Some(2));
    picker.select_prev();
    assert_eq!(picker.selected_day, Some(1));
}

#[test]
fn test_date_picker_select_prev_at_start() {
    let mut picker = DatePickerState::new("2026-07");
    picker.selected_day = Some(1);
    picker.select_prev();
    assert_eq!(picker.selected_day, Some(1), "Should not go before first day");
}

#[test]
fn test_date_picker_select_next_at_end() {
    let mut picker = DatePickerState::new("2026-07");
    picker.selected_day = Some(31);
    picker.select_next();
    assert_eq!(picker.selected_day, Some(31), "Should not go beyond last day");
}

#[test]
fn test_rank_matches_exact() {
    let candidates = vec!["email".to_string(), "work".to_string(), "personal".to_string()];
    let result = rank_matches("email", candidates);
    assert_eq!(result[0], "email", "Exact match should be first");
}

#[test]
fn test_rank_matches_prefix() {
    let candidates = vec!["email".to_string(), "work".to_string(), "waiting".to_string()];
    let result = rank_matches("wa", candidates);
    assert_eq!(result[0], "waiting", "Prefix match should be first");
}

#[test]
fn test_rank_matches_case_insensitive() {
    let candidates = vec!["Email".to_string(), "WORK".to_string()];
    let result = rank_matches("email", candidates);
    assert_eq!(result[0], "Email", "Should match case-insensitively");
}

#[test]
fn test_rank_matches_substring() {
    let candidates = vec!["waiting".to_string(), "email".to_string()];
    let result = rank_matches("ait", candidates);
    assert_eq!(result[0], "waiting", "Substring match should appear");
}

#[test]
fn test_rank_matches_order_exact_prefix_substring() {
    let candidates = vec!["work".to_string(), "works".to_string(), "network".to_string()];
    let result = rank_matches("work", candidates);
    assert_eq!(result[0], "work", "Exact match first");
    assert_eq!(result[1], "works", "Prefix match second");
    assert_eq!(result[2], "network", "Substring match third");
}

#[test]
fn test_rank_matches_empty_prefix() {
    let candidates = vec!["email".to_string(), "work".to_string()];
    let result = rank_matches("", candidates);
    assert_eq!(result.len(), 2, "Empty prefix should return all candidates");
}

#[test]
fn test_autocomplete_state_new_token() {
    let ac = AutocompleteState::new('@', "em".to_string(), vec!["email".to_string()]);
    assert_eq!(ac.mode, AutocompleteMode::TokenAutocomplete('@'));
    assert_eq!(ac.trigger, '@');
    assert_eq!(ac.prefix, "em");
    assert!(!ac.focused);
}

#[test]
fn test_autocomplete_state_new_date() {
    let ac = AutocompleteState::new('#', "2026-07".to_string(), vec!["01 Mon".to_string()]);
    assert_eq!(ac.mode, AutocompleteMode::DateAutocomplete);
    assert_eq!(ac.trigger, '#');
}

#[test]
fn test_autocomplete_state_new_quick_setter() {
    let ac = AutocompleteState::new_quick_setter('@', "".to_string(), vec!["email".to_string()]);
    assert_eq!(ac.mode, AutocompleteMode::QuickSetter('@'));
    assert_eq!(ac.trigger, '@');
    assert_eq!(ac.prefix, "");
}

// ── further cases ──────────────────────────────────────────────────────────

#[test]
fn date_suggestions_name_the_weekday() {
    // 1 July 2026 is a Wednesday; 29 February 2024 a Thursday.
    let july = generate_date_suggestions("2026-07").unwrap();
    assert_eq!(july[0], "01 Wed");
    assert_eq!(july[30], "31 Fri");
    let feb = generate_date_suggestions("2024-02").unwrap();
    assert_eq!(feb[28], "29 Thu");
}

#[test]
fn date_suggestions_reject_bad_month_and_shape() {
    assert!(generate_date_suggestions("2026-00").unwrap().is_empty());
    assert!(generate_date_suggestions("2026-07-01").unwrap().is_empty());
    assert!(generate_date_suggestions("").unwrap().is_empty());
}

#[test]
fn rank_matches_fuzzy_after_substring_and_drops_non_matches() {
    let candidates = vec!["xyz".to_string(), "wrk".to_string(), "w-o-r-k".to_string(), "network".to_string()];
    let result = rank_matches("wrk", candidates);
    assert_eq!(result, vec!["wrk".to_string(), "w-o-r-k".to_string(), "network".to_string()]);
}

#[test]
fn fuzzy_subsequence_cases() {
    assert!(is_fuzzy_subsequence("wrk", "network"));
    assert!(!is_fuzzy_subsequence("", "anything"), "an empty needle finds no match");
    assert!(!is_fuzzy_subsequence("kw", "work"));
    assert!(!is_fuzzy_subsequence("works", "work"));
}

#[test]
fn dedupe_tokens_keeps_first_spelling_ignoring_case() {
    let out = dedupe_tokens(vec![
        "Work".to_string(),
        " home ".to_string(),
        "work".to_string(),
        "HOME".to_string(),
        "  ".to_string(),
    ]);
    assert_eq!(out, vec!["Work".to_string(), "home".to_string()]);
}

#[test]
fn priority_picker_walks_and_jumps() {
    let mut p = PriorityPickerState::new();
    assert_eq!(p.selected_priority(), Some('A'));
    p.select_prev();
    assert_eq!(p.selected_priority(), Some('A'));
    p.select_next();
    assert_eq!(p.selected_priority(), Some('B'));
    p.jump_to('z');
    assert_eq!(p.selected_priority(), Some('Z'));
    assert_eq!(p.type_char, Some('Z'));
    p.select_next();
    assert_eq!(p.selected_priority(), None, "the row after Z is 'no priority'");
    p.select_next();
    assert_eq!(p.selected_idx, 26);
    p.jump_to('?');
    assert_eq!(p.selected_idx, 26);
}

#[test]
fn date_suggestions_for_non_numeric_parts_are_empty() {
    assert_eq!(generate_date_suggestions("2026-ab"), Ok(Vec::new()));
    assert_eq!(generate_date_suggestions("year-07"), Ok(Vec::new()));
    assert_eq!(generate_date_suggestions("2026-"), Ok(Vec::new()));
}

#[test]
fn date_picker_step_down_then_up_returns() {
    let mut picker = DatePickerState::new("2026-07");
    picker.selected_day = Some(5);
    picker.select_next();
    assert_eq!(picker.selected_day, Some(6));
    picker.select_prev();
    assert_eq!(picker.selected_day, Some(5));
    picker.selected_day = Some(31);
    picker.select_prev();
    picker.select_next();
    assert_eq!(picker.selected_day, Some(31));
}

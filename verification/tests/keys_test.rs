use todotxt_tui::config::TuiConfig;
use todotxt_tui::keys::{
    default_keymap, help_lines, lookup_binding_exec, parse_key_chord, resolve_keymap, KeyChord, KeyCode,
    KeyModifiers,
};
use todotxt_tui::task::{cycle_group_by, cycle_sort, SortOrder};
use todotxt_tui::config::GroupByCategory;
use todotxt_tui::theme::{cycle_theme, Theme};

fn chord(code: KeyCode, mods: KeyModifiers) -> Option<KeyChord> {
    Some(KeyChord { code, mods })
}

#[test]
fn parse_key_chord_ctrl_d() {
    assert_eq!(parse_key_chord("ctrl+d"), chord(KeyCode::Char('d'), KeyModifiers::ctrl()));
}

#[test]
fn parse_key_chord_backspace() {
    assert_eq!(parse_key_chord("backspace"), chord(KeyCode::Backspace, KeyModifiers::none()));
}

#[test]
fn parse_key_chord_f5() {
    assert_eq!(parse_key_chord("f5"), chord(KeyCode::F(5), KeyModifiers::none()));
}

#[test]
fn parse_key_chord_question_mark() {
    assert_eq!(parse_key_chord("?"), chord(KeyCode::Char('?'), KeyModifiers::none()));
}

#[test]
fn parse_key_chord_space_word() {
    assert_eq!(parse_key_chord("SPACE"), chord(KeyCode::Char(' '), KeyModifiers::none()));
}

#[test]
fn parse_key_chord_empty_returns_none() {
    assert_eq!(parse_key_chord(""), None);
    assert_eq!(parse_key_chord("  "), None);
}

#[test]
fn parse_key_chord_unknown_key_returns_none() {
    assert_eq!(parse_key_chord("ctrl+bogus_key"), None);
    assert_eq!(parse_key_chord("bogus_key"), None);
}

#[test]
fn parse_key_chord_named_keys_and_case() {
    assert_eq!(parse_key_chord("Ctrl+Left"), chord(KeyCode::Left, KeyModifiers::ctrl()));
    assert_eq!(parse_key_chord("esc"), chord(KeyCode::Esc, KeyModifiers::none()));
    assert_eq!(parse_key_chord("f12"), chord(KeyCode::F(12), KeyModifiers::none()));
    assert_eq!(parse_key_chord("f13"), None);
    assert_eq!(parse_key_chord("X"), chord(KeyCode::Char('x'), KeyModifiers::none()), "chords are read lower-cased");
}

fn config_with(entries: &[(&str, &str)]) -> TuiConfig {
    let mut config = TuiConfig::default();
    for (a, c) in entries {
        config.keymap.push((a.to_string(), c.to_string()));
    }
    config
}

#[test]
fn resolve_keymap_unknown_action_adds_warning() {
    let config = config_with(&[("nonexistent_action", "x")]);
    let (effective, warnings) = resolve_keymap(&config);
    assert!(warnings.iter().any(|w| w.contains("nonexistent_action")));
    assert_eq!(effective.len(), default_keymap().len());
}

#[test]
fn resolve_keymap_invalid_chord_adds_warning_and_keeps_default() {
    let config = config_with(&[("delete", "bogus_chord")]);
    let (effective, warnings) = resolve_keymap(&config);
    assert!(warnings.iter().any(|w| w.contains("bogus_chord") && w.contains("delete")));
    assert_eq!(lookup_binding_exec(&effective, "delete"), chord(KeyCode::Char('d'), KeyModifiers::none()));
}

#[test]
fn resolve_keymap_valid_override_applied() {
    let config = config_with(&[("delete", "backspace")]);
    let (effective, warnings) = resolve_keymap(&config);
    assert!(warnings.is_empty());
    assert_eq!(lookup_binding_exec(&effective, "delete"), chord(KeyCode::Backspace, KeyModifiers::none()));
}

#[test]
fn resolve_keymap_conflict_detection_reverts_both_actions() {
    let config = config_with(&[("delete", "x")]);
    let (effective, warnings) = resolve_keymap(&config);
    assert!(warnings.iter().any(|w| w.contains("conflict")));
    assert_eq!(lookup_binding_exec(&effective, "delete"), chord(KeyCode::Char('d'), KeyModifiers::none()));
    assert_eq!(lookup_binding_exec(&effective, "toggle_done"), chord(KeyCode::Char('x'), KeyModifiers::none()));
}

#[test]
fn resolve_keymap_without_overrides_is_the_default_keymap() {
    let (effective, warnings) = resolve_keymap(&TuiConfig::default());
    assert!(warnings.is_empty());
    assert_eq!(effective, default_keymap());
}

#[test]
fn help_lists_every_action_once() {
    let lines = help_lines(&default_keymap());
    assert!(lines.iter().any(|l| l.to_lowercase().contains("quit")));
    assert!(!lines.is_empty());
}

// ── cycles ──────────────────────────────────────────────────────────────────

#[test]
fn sort_cycle_returns_after_eight_steps() {
    let mut s = SortOrder::FileOrder;
    let mut seen = Vec::new();
    for _ in 0..8 {
        seen.push(s);
        s = cycle_sort(s);
    }
    assert_eq!(s, SortOrder::FileOrder);
    for i in 0..seen.len() {
        for j in (i + 1)..seen.len() {
            assert_ne!(seen[i], seen[j]);
        }
    }
    assert_eq!(cycle_sort(SortOrder::FileOrder), SortOrder::Alphabetical);
}

#[test]
fn group_by_cycle_returns_after_four_steps() {
    let mut g = GroupByCategory::Context;
    for _ in 0..4 {
        g = cycle_group_by(g);
    }
    assert_eq!(g, GroupByCategory::Context);
    assert_eq!(cycle_group_by(GroupByCategory::DueDate), GroupByCategory::Priority);
}

#[test]
fn theme_cycle_alternates() {
    assert_eq!(cycle_theme(Theme::Default), Theme::Light);
    assert_eq!(cycle_theme(cycle_theme(Theme::Light)), Theme::Light);
    assert_eq!(Theme::from_str("light"), Theme::Light);
    assert_eq!(Theme::from_str("anything else"), Theme::Default);
}

#[test]
fn chord_reads_the_same_after_trim_and_lowercase() {
    for s in ["  CTRL+D ", "Shift+F5", "\tEnter", " Space ", "ALT+x", "Ctrl+Nope"] {
        let norm = s.trim().to_ascii_lowercase();
        assert_eq!(parse_key_chord(s), parse_key_chord(&norm), "{}", s);
    }
    assert_eq!(parse_key_chord("  CTRL+D "), chord(KeyCode::Char('d'), KeyModifiers::ctrl()));
}

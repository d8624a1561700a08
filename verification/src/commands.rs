//! Which command a key press triggers in Normal mode.
//!
//! Fixed keys come first (quit, undo, the external editor, selection clearing,
//! pane focus, cursor movement, half pages), then the actions of the keymap in
//! a fixed order of precedence, then the fixed preset keys and letters.

use vstd::prelude::*;
use crate::app::{App, single_view};
use crate::keys::{KeyCode, KeyEvent, KeyModifiers, key_is_action, key_is_action_spec, keymap_view, no_mods, ctrl_mods};

verus! {

/// A Normal-mode command.
#[derive(Clone, Copy, Debug, PartialEq, Eq, Structural)]
pub enum NormalCommand {
    Quit,
    Undo,
    ExternalEditor,
    ClearSelection,
    FocusPrev,
    FocusNext,
    ExtendDown,
    ExtendUp,
    MoveDown,
    MoveUp,
    EditPaneLabel,
    HalfPageUpExtend,
    HalfPageUp,
    HalfPageDownExtend,
    HalfPageDown,
    FilterToggle,
    DisjointMark,
    DisjointToggle,
    ToggleDone,
    Archive,
    Add,
    Edit,
    Delete,
    SortCycle,
    BulkAppend,
    ThemeCycle,
    FilterOpen,
    FilterDefine,
    GroupToggle,
    GroupByCycle,
    DeferredToggle,
    ErrorLog,
    Help,
    ClearFilter,
    /// Apply the filter preset named by this digit.
    PresetFilter(char),
    /// Apply the pane layout preset at this position.
    LayoutPreset(usize),
    Reload,
    PaneAdd,
    PaneDelete,
    PaneHideToggle,
    PaneMoveLeft,
    PaneMoveRight,
    DatePicker,
    PriorityPicker,
    Copy,
    Paste,
    QuickContext,
    QuickProject,
    Ignore,
}

pub open spec fn is_char(k: KeyEvent, c: char) -> bool {
    k.code == KeyCode::Char(c)
}

pub open spec fn is_digit19(k: KeyEvent) -> bool {
    k.code matches KeyCode::Char(c) && '1' <= c <= '9'
}

/// The digit of a digit key.
pub open spec fn key_char(k: KeyEvent) -> char {
    match k.code {
        KeyCode::Char(c) => c,
        _ => ' ',
    }
}

impl App {
    pub open spec fn act(self, k: KeyEvent, name: Seq<char>) -> bool {
        key_is_action_spec(keymap_view(self.effective_keymap), k, name)
    }

    /// The fixed keys handled before the keymap.
    pub open spec fn fixed_command(self, k: KeyEvent) -> Option<NormalCommand> {
        let ctrl = k.modifiers.control;
        let shift = k.modifiers.shift;
        let rows = self.view_row_count();
        let shown = self.display_indices@.len();
        let down = is_char(k, 'j') || k.code == KeyCode::Down;
        let up = is_char(k, 'k') || k.code == KeyCode::Up;
        if is_char(k, 'c') && ctrl {
            Some(NormalCommand::Quit)
        } else if is_char(k, 'z') && ctrl {
            Some(NormalCommand::Undo)
        } else if is_char(k, 'e') && ctrl {
            Some(NormalCommand::ExternalEditor)
        } else if k.code == KeyCode::Esc && (self.disjoint_select || self.selected_tasks@
            != Set::<usize>::empty()) {
            Some(NormalCommand::ClearSelection)
        } else if k.code == KeyCode::Left {
            Some(NormalCommand::FocusPrev)
        } else if k.code == KeyCode::Right {
            Some(NormalCommand::FocusNext)
        } else if down && shift && rows > 0 {
            Some(NormalCommand::ExtendDown)
        } else if up && shift && rows > 0 {
            Some(NormalCommand::ExtendUp)
        } else if down && rows > 0 {
            Some(NormalCommand::MoveDown)
        } else if up && rows > 0 {
            Some(NormalCommand::MoveUp)
        } else if k.code == KeyCode::Enter && !single_view(self.panes@)
            && self.panes@[self.active_pane as int].label_selected {
            Some(NormalCommand::EditPaneLabel)
        } else if is_char(k, 'u') && ctrl && shift && shown > 0 {
            Some(NormalCommand::HalfPageUpExtend)
        } else if is_char(k, 'u') && ctrl && shown > 0 {
            Some(NormalCommand::HalfPageUp)
        } else if is_char(k, 'd') && ctrl && shift && shown > 0 {
            Some(NormalCommand::HalfPageDownExtend)
        } else if is_char(k, 'd') && ctrl && shown > 0 {
            Some(NormalCommand::HalfPageDown)
        } else {
            None
        }
    }

    /// The keymap actions, in order of precedence.
    pub open spec fn keymap_command(self, k: KeyEvent) -> Option<NormalCommand> {
        let shown = self.display_indices@.len() > 0;
        let marked = self.selected_tasks@ != Set::<usize>::empty();
        let bare = k.modifiers == no_mods();
        if self.act(k, "filter_toggle"@) {
            Some(NormalCommand::FilterToggle)
        } else if self.act(k, "quit"@) {
            Some(NormalCommand::Quit)
        } else if self.disjoint_select && self.act(k, "disjoint_mark"@) {
            Some(NormalCommand::DisjointMark)
        } else if self.act(k, "disjoint_select"@) {
            Some(NormalCommand::DisjointToggle)
        } else if shown && self.act(k, "toggle_done"@) {
            Some(NormalCommand::ToggleDone)
        } else if self.act(k, "archive"@) {
            Some(NormalCommand::Archive)
        } else if self.act(k, "add"@) {
            Some(NormalCommand::Add)
        } else if shown && (self.act(k, "edit"@) || (is_char(k, 'u') && bare)) {
            Some(NormalCommand::Edit)
        } else if shown && self.act(k, "bulk_delete"@) {
            Some(NormalCommand::Delete)
        } else if shown && (self.act(k, "delete"@) || (k.code == KeyCode::Delete && bare) || (k.code
            == KeyCode::Backspace && bare)) {
            Some(NormalCommand::Delete)
        } else if self.act(k, "sort_cycle"@) {
            Some(NormalCommand::SortCycle)
        } else if marked && shown && self.act(k, "bulk_append"@) {
            Some(NormalCommand::BulkAppend)
        } else if self.act(k, "theme_cycle"@) {
            Some(NormalCommand::ThemeCycle)
        } else if self.act(k, "filter_open"@) {
            Some(NormalCommand::FilterOpen)
        } else if self.act(k, "filter_define"@) {
            Some(NormalCommand::FilterDefine)
        } else if shown && self.act(k, "group_toggle"@) {
            Some(NormalCommand::GroupToggle)
        } else if shown && self.act(k, "group_by_cycle"@) {
            Some(NormalCommand::GroupByCycle)
        } else if shown && self.act(k, "deferred_toggle"@) {
            Some(NormalCommand::DeferredToggle)
        } else {
            None
        }
    }

    /// The keys after the first keymap actions, in order of precedence.
    pub open spec fn late_command(self, k: KeyEvent) -> NormalCommand {
        let bare = k.modifiers == no_mods();
        if is_char(k, '!') {
            NormalCommand::ErrorLog
        } else if self.act(k, "help"@) {
            NormalCommand::Help
        } else if self.act(k, "clear_filter"@) {
            NormalCommand::ClearFilter
        } else if is_digit19(k) && bare {
            NormalCommand::PresetFilter(key_char(k))
        } else if is_digit19(k) && k.modifiers == ctrl_mods() {
            NormalCommand::LayoutPreset((key_char(k) as u32 - '1' as u32) as usize)
        } else if self.act(k, "reload"@) {
            NormalCommand::Reload
        } else if self.act(k, "pane_add"@) {
            NormalCommand::PaneAdd
        } else if self.act(k, "pane_delete"@) {
            NormalCommand::PaneDelete
        } else if self.act(k, "pane_hide_toggle"@) {
            NormalCommand::PaneHideToggle
        } else if self.act(k, "pane_move_left"@) {
            NormalCommand::PaneMoveLeft
        } else if self.act(k, "pane_move_right"@) {
            NormalCommand::PaneMoveRight
        } else if is_char(k, 's') && bare {
            NormalCommand::DatePicker
        } else if is_char(k, 'i') && bare {
            NormalCommand::PriorityPicker
        } else if is_char(k, 'y') && bare {
            NormalCommand::Copy
        } else if is_char(k, 'p') && bare {
            NormalCommand::Paste
        } else if self.act(k, "quick_context"@) {
            NormalCommand::QuickContext
        } else if self.act(k, "quick_project"@) {
            NormalCommand::QuickProject
        } else {
            NormalCommand::Ignore
        }
    }

    /// The command a key press triggers in Normal mode.
    pub open spec fn normal_command(self, k: KeyEvent) -> NormalCommand {
        match self.fixed_command(k) {
            Some(c) => c,
            None => match self.keymap_command(k) {
                Some(c) => c,
                None => self.late_command(k),
            },
        }
    }

    fn fixed_command_exec(&self, k: &KeyEvent) -> (r: Option<NormalCommand>)
        requires
            self.wf(),
        ensures
            r == self.fixed_command(*k),
    {
        let ctrl = k.modifiers.control;
        let shift = k.modifiers.shift;
        let multi = self.is_multi_view();
        let rows = if multi {
            self.panes[self.active_pane].display_rows.len()
        } else {
            self.display_rows.len()
        };
        let shown = self.display_indices.len();
        let down = k.code == KeyCode::Char('j') || k.code == KeyCode::Down;
        let up = k.code == KeyCode::Char('k') || k.code == KeyCode::Up;
        if k.code == KeyCode::Char('c') && ctrl {
            Some(NormalCommand::Quit)
        } else if k.code == KeyCode::Char('z') && ctrl {
            Some(NormalCommand::Undo)
        } else if k.code == KeyCode::Char('e') && ctrl {
            Some(NormalCommand::ExternalEditor)
        } else if k.code == KeyCode::Esc && (self.disjoint_select || !self.selected_tasks.is_empty()) {
            Some(NormalCommand::ClearSelection)
        } else if k.code == KeyCode::Left {
            Some(NormalCommand::FocusPrev)
        } else if k.code == KeyCode::Right {
            Some(NormalCommand::FocusNext)
        } else if down && shift && rows > 0 {
            Some(NormalCommand::ExtendDown)
        } else if up && shift && rows > 0 {
            Some(NormalCommand::ExtendUp)
        } else if down && rows > 0 {
            Some(NormalCommand::MoveDown)
        } else if up && rows > 0 {
            Some(NormalCommand::MoveUp)
        } else if k.code == KeyCode::Enter && !self.should_show_single_pane()
            && self.panes[self.active_pane].label_selected {
            Some(NormalCommand::EditPaneLabel)
        } else if k.code == KeyCode::Char('u') && ctrl && shift && shown > 0 {
            Some(NormalCommand::HalfPageUpExtend)
        } else if k.code == KeyCode::Char('u') && ctrl && shown > 0 {
            Some(NormalCommand::HalfPageUp)
        } else if k.code == KeyCode::Char('d') && ctrl && shift && shown > 0 {
            Some(NormalCommand::HalfPageDownExtend)
        } else if k.code == KeyCode::Char('d') && ctrl && shown > 0 {
            Some(NormalCommand::HalfPageDown)
        } else {
            None
        }
    }

    fn keymap_command_exec(&self, k: &KeyEvent) -> (r: Option<NormalCommand>)
        ensures
            r == self.keymap_command(*k),
    {
        let m = &self.effective_keymap;
        let shown = self.display_indices.len() > 0;
        let marked = !self.selected_tasks.is_empty();
        let bare = k.modifiers == KeyModifiers::none();
        if key_is_action(m, k, "filter_toggle") {
            Some(NormalCommand::FilterToggle)
        } else if key_is_action(m, k, "quit") {
            Some(NormalCommand::Quit)
        } else if self.disjoint_select && key_is_action(m, k, "disjoint_mark") {
            Some(NormalCommand::DisjointMark)
        } else if key_is_action(m, k, "disjoint_select") {
            Some(NormalCommand::DisjointToggle)
        } else if shown && key_is_action(m, k, "toggle_done") {
            Some(NormalCommand::ToggleDone)
        } else if key_is_action(m, k, "archive") {
            Some(NormalCommand::Archive)
        } else if key_is_action(m, k, "add") {
            Some(NormalCommand::Add)
        } else if shown && (key_is_action(m, k, "edit") || (k.code == KeyCode::Char('u') && bare)) {
            Some(NormalCommand::Edit)
        } else if shown && key_is_action(m, k, "bulk_delete") {
            Some(NormalCommand::Delete)
        } else if shown && (key_is_action(m, k, "delete") || (k.code == KeyCode::Delete && bare)
            || (k.code == KeyCode::Backspace && bare)) {
            Some(NormalCommand::Delete)
        } else if key_is_action(m, k, "sort_cycle") {
            Some(NormalCommand::SortCycle)
        } else if marked && shown && key_is_action(m, k, "bulk_append") {
            Some(NormalCommand::BulkAppend)
        } else if key_is_action(m, k, "theme_cycle") {
            Some(NormalCommand::ThemeCycle)
        } else if key_is_action(m, k, "filter_open") {
            Some(NormalCommand::FilterOpen)
        } else if key_is_action(m, k, "filter_define") {
            Some(NormalCommand::FilterDefine)
        } else if shown && key_is_action(m, k, "group_toggle") {
            Some(NormalCommand::GroupToggle)
        } else if shown && key_is_action(m, k, "group_by_cycle") {
            Some(NormalCommand::GroupByCycle)
        } else if shown && key_is_action(m, k, "deferred_toggle") {
            Some(NormalCommand::DeferredToggle)
        } else {
            None
        }
    }

    fn late_command_exec(&self, k: &KeyEvent) -> (r: NormalCommand)
        ensures
            r == self.late_command(*k),
    {
        let m = &self.effective_keymap;
        let bare = k.modifiers == KeyModifiers::none();
        let digit: Option<char> = match k.code {
            KeyCode::Char(c) => if '1' <= c && c <= '9' {
                Some(c)
            } else {
                None
            },
            _ => None,
        };
        if k.code == KeyCode::Char('!') {
            NormalCommand::ErrorLog
        } else if key_is_action(m, k, "help") {
            NormalCommand::Help
        } else if key_is_action(m, k, "clear_filter") {
            NormalCommand::ClearFilter
        } else if digit.is_some() && bare {
            NormalCommand::PresetFilter(digit.unwrap())
        } else if digit.is_some() && k.modifiers == KeyModifiers::ctrl() {
            let c = digit.unwrap();
            NormalCommand::LayoutPreset(((c as u32) - ('1' as u32)) as usize)
        } else if key_is_action(m, k, "reload") {
            NormalCommand::Reload
        } else if key_is_action(m, k, "pane_add") {
            NormalCommand::PaneAdd
        } else if key_is_action(m, k, "pane_delete") {
            NormalCommand::PaneDelete
        } else if key_is_action(m, k, "pane_hide_toggle") {
            NormalCommand::PaneHideToggle
        } else if key_is_action(m, k, "pane_move_left") {
            NormalCommand::PaneMoveLeft
        } else if key_is_action(m, k, "pane_move_right") {
            NormalCommand::PaneMoveRight
        } else if k.code == KeyCode::Char('s') && bare {
            NormalCommand::DatePicker
        } else if k.code == KeyCode::Char('i') && bare {
            NormalCommand::PriorityPicker
        } else if k.code == KeyCode::Char('y') && bare {
            NormalCommand::Copy
        } else if k.code == KeyCode::Char('p') && bare {
            NormalCommand::Paste
        } else if key_is_action(m, k, "quick_context") {
            NormalCommand::QuickContext
        } else if key_is_action(m, k, "quick_project") {
            NormalCommand::QuickProject
        } else {
            NormalCommand::Ignore
        }
    }

    /// The command `k` triggers in Normal mode.
    pub fn classify_normal_key(&self, k: &KeyEvent) -> (r: NormalCommand)
        requires
            self.wf(),
        ensures
            r == self.normal_command(*k),
    {
        match self.fixed_command_exec(k) {
            Some(c) => c,
            None => match self.keymap_command_exec(k) {
                Some(c) => c,
                None => self.late_command_exec(k),
            },
        }
    }
}

} // verus!

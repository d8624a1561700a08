//! Configuration values: panes, presets, key overrides and startup paths.
//!
//! Paths are held as strings; reading and writing the TOML file is the caller's work.

use vstd::prelude::*;
use crate::text::{concat, last_index_of, rfind_char, chars_of, string_of_range, push_all};

verus! {

/// The value a `normalize_*` flag takes when the TOML file leaves it out.
pub fn default_true() -> (r: bool)
    ensures
        r,
{
    true
}

/// Settings from the `[tui]` subsection.
pub struct TuiSection {
    /// Theme name: `"default"` (dark) or `"light"`. Empty string means the default theme.
    pub theme: String,
}

/// A named filter preset.
pub struct TuiPreset {
    pub filter: Option<String>,
}

/// Sort order a pane is configured with.
#[derive(Clone, Copy, Debug, PartialEq, Eq, Structural)]
pub enum PaneSort {
    FileOrder,
    Priority,
    DueDate,
    Alphabetical,
}

impl PaneSort {
    pub fn default() -> (s: PaneSort)
        ensures
            s == PaneSort::FileOrder,
    {
        PaneSort::FileOrder
    }
}

/// Dimension by which a grouped pane puts header rows between its tasks.
#[derive(Clone, Copy, Debug, PartialEq, Eq, Structural)]
pub enum GroupByCategory {
    Priority,
    Project,
    Context,
    DueDate,
}

impl GroupByCategory {
    pub fn default() -> (g: GroupByCategory)
        ensures
            g == GroupByCategory::Priority,
    {
        GroupByCategory::Priority
    }
}

/// One configured pane.
pub struct PaneConfig {
    pub label: String,
    pub filter: String,
    pub sort: PaneSort,
    pub group: bool,
    pub group_by: Option<GroupByCategory>,
}

impl PaneConfig {
    pub open spec fn same(self, other: PaneConfig) -> bool {
        &&& self.label@ == other.label@
        &&& self.filter@ == other.filter@
        &&& self.sort == other.sort
        &&& self.group == other.group
        &&& self.group_by == other.group_by
    }

    pub fn duplicate(&self) -> (r: PaneConfig)
        ensures
            r.same(*self),
    {
        PaneConfig {
            label: self.label.clone(),
            filter: self.filter.clone(),
            sort: self.sort,
            group: self.group,
            group_by: self.group_by,
        }
    }

    /// Field-by-field equality (`==` on pane configurations).
    pub fn equals(&self, other: &PaneConfig) -> (r: bool)
        ensures
            r == self.same(*other),
    {
        self.label == other.label && self.filter == other.filter && self.sort == other.sort
            && self.group == other.group && self.group_by == other.group_by
    }
}

/// A named layout: the full list of panes it installs.
pub struct PaneLayoutPreset {
    pub panes: Vec<PaneConfig>,
}

/// The `[presets]` section: filter presets and pane layout presets, each by name.
pub struct PresetsSection {
    pub filter: Vec<(String, TuiPreset)>,
    pub panes: Vec<(String, PaneLayoutPreset)>,
}

/// The TUI's configuration.
pub struct TuiConfig {
    pub todo_file: Option<String>,
    pub done_file: Option<String>,
    pub auto_creation_date: bool,
    pub normalize_append: bool,
    pub normalize_edit: bool,
    pub presets: PresetsSection,
    pub tui: TuiSection,
    /// Key binding overrides: action name and chord string.
    pub keymap: Vec<(String, String)>,
    pub panes: Vec<PaneConfig>,
}

impl TuiConfig {
    /// The configuration of a missing file: nothing set, every flag off, no entries.
    pub fn default() -> (c: TuiConfig)
        ensures
            c.todo_file is None,
            c.done_file is None,
            !c.auto_creation_date,
            !c.normalize_append,
            !c.normalize_edit,
            c.presets.filter@.len() == 0,
            c.presets.panes@.len() == 0,
            c.tui.theme@.len() == 0,
            c.keymap@.len() == 0,
            c.panes@.len() == 0,
    {
        TuiConfig {
            todo_file: None,
            done_file: None,
            auto_creation_date: false,
            normalize_append: false,
            normalize_edit: false,
            presets: PresetsSection { filter: Vec::new(), panes: Vec::new() },
            tui: TuiSection { theme: String::new() },
            keymap: Vec::new(),
            panes: Vec::new(),
        }
    }
}

// ───────────────────────── startup paths ─────────────────────────

/// Path overrides given on the command line.
pub struct CliPathOverrides {
    pub todo: Option<String>,
    pub archive: Option<String>,
}

impl CliPathOverrides {
    pub fn default() -> (o: CliPathOverrides)
        ensures
            o.todo is None,
            o.archive is None,
    {
        CliPathOverrides { todo: None, archive: None }
    }
}

/// The todo file and the archive file the session works on.
pub struct ResolvedPaths {
    pub todo_path: String,
    pub archive_path: String,
}

/// Index of the last path separator (`/` or `\`) in `p`.
pub open spec fn last_sep(p: Seq<char>) -> Option<int>
    decreases p.len(),
{
    if p.len() == 0 {
        None
    } else if p.last() == '/' || p.last() == '\\' {
        Some(p.len() - 1)
    } else {
        last_sep(p.drop_last())
    }
}

/// `done.txt` in the directory of `p`.
pub open spec fn sibling_done(p: Seq<char>) -> Seq<char> {
    match last_sep(p) {
        Some(k) => p.take(k + 1) + "done.txt"@,
        None => "done.txt"@,
    }
}

/// The path of `done.txt` in the directory that holds `p`.
pub fn sibling_done_path(p: &str) -> (r: String)
    ensures
        r@ == sibling_done(p@),
{
    let v = chars_of(p);
    let mut k: usize = v.len();
    assert(v@.take(k as int) =~= v@);
    while k > 0
        invariant
            k <= v.len(),
            v@ == p@,
            last_sep(v@) == last_sep(v@.take(k as int)),
        decreases k,
    {
        assert(v@.take(k as int).drop_last() =~= v@.take(k - 1));
        if v[k - 1] == '/' || v[k - 1] == '\\' {
            assert(v@.take(k as int).last() == v@[k - 1]);
            assert(last_sep(v@) == Some(k - 1));
            let dir = string_of_range(&v, 0, k);
            assert(v@.subrange(0, k as int) =~= v@.take(k as int));
            return concat(dir.as_str(), "done.txt");
        }
        k -= 1;
    }
    String::from_str("done.txt")
}

/// Error of `resolve_startup_paths`: neither the command line nor the
/// configuration names a todo file.
#[derive(Debug, PartialEq, Eq, Structural)]
pub enum PathError {
    NoTodoFile,
}

/// The todo path: the command line's, else the configuration's.
/// The archive path: the command line's; else, when the command line chose the
/// todo file, `done.txt` beside it; else the configuration's `done_file`; else
/// `done.txt` beside the todo file.
pub open spec fn startup_paths(
    cfg_todo: Option<Seq<char>>,
    cfg_done: Option<Seq<char>>,
    cli_todo: Option<Seq<char>>,
    cli_archive: Option<Seq<char>>,
) -> Option<(Seq<char>, Seq<char>)> {
    let todo = match cli_todo {
        Some(t) => Some(t),
        None => cfg_todo,
    };
    match todo {
        None => None,
        Some(t) => {
            let archive = match cli_archive {
                Some(a) => a,
                None => if cli_todo is Some {
                    sibling_done(t)
                } else {
                    match cfg_done {
                        Some(d) => d,
                        None => sibling_done(t),
                    }
                },
            };
            Some((t, archive))
        },
    }
}

pub open spec fn opt_view(o: Option<String>) -> Option<Seq<char>> {
    match o {
        Some(s) => Some(s@),
        None => None,
    }
}

/// Resolves the todo and archive paths of this session from the configuration and
/// the command-line overrides.
pub fn resolve_startup_paths(config: &TuiConfig, overrides: &CliPathOverrides) -> (r: Result<
    ResolvedPaths,
    PathError,
>)
    ensures
        ({
            let s = startup_paths(
                opt_view(config.todo_file),
                opt_view(config.done_file),
                opt_view(overrides.todo),
                opt_view(overrides.archive),
            );
            &&& r matches Ok(p) ==> s == Some((p.todo_path@, p.archive_path@))
            &&& r is Err ==> s is None
        }),
{
    let todo: String = match &overrides.todo {
        Some(t) => t.clone(),
        None => match &config.todo_file {
            Some(t) => t.clone(),
            None => {
                return Err(PathError::NoTodoFile);
            },
        },
    };
    let archive: String = match &overrides.archive {
        Some(a) => a.clone(),
        None => if overrides.todo.is_some() {
            sibling_done_path(todo.as_str())
        } else {
            match &config.done_file {
                Some(d) => d.clone(),
                None => sibling_done_path(todo.as_str()),
            }
        },
    };
    Ok(ResolvedPaths { todo_path: todo, archive_path: archive })
}

} // verus!

//! The task fields the views read, and the order and grouping choices.

use vstd::prelude::*;
use crate::config::{GroupByCategory, PaneSort};
use crate::text::{push_all, push_char, strs};
use crate::state::clone_strings;

verus! {

/// How a task's due date relates to today.
#[derive(Clone, Copy, Debug, PartialEq, Eq, Structural)]
pub enum DueStatus {
    NoDueDate,
    Upcoming,
    Today,
    Overdue,
}

/// What the views read of one task of the todo file.
pub struct TaskRecord {
    /// The task's line as written in the file.
    pub raw: String,
    pub completed: bool,
    pub priority: Option<char>,
    /// Project tags, without `+`, in order of appearance.
    pub projects: Vec<String>,
    /// Context tags, without `@`, in order of appearance.
    pub contexts: Vec<String>,
    /// The due date as `YYYY-MM-DD`.
    pub due_date: Option<String>,
    pub due_status: DueStatus,
    /// The threshold (`t:`) date lies after today.
    pub deferred: bool,
}

/// A task as plain values.
pub struct TaskView {
    pub raw: Seq<char>,
    pub completed: bool,
    pub priority: Option<char>,
    pub projects: Seq<Seq<char>>,
    pub contexts: Seq<Seq<char>>,
    pub due_date: Option<Seq<char>>,
    pub due_status: DueStatus,
    pub deferred: bool,
}

pub open spec fn task_view(t: TaskRecord) -> TaskView {
    TaskView {
        raw: t.raw@,
        completed: t.completed,
        priority: t.priority,
        projects: strs(t.projects),
        contexts: strs(t.contexts),
        due_date: match t.due_date {
            Some(d) => Some(d@),
            None => None,
        },
        due_status: t.due_status,
        deferred: t.deferred,
    }
}

pub open spec fn tasks_view(v: Seq<TaskRecord>) -> Seq<TaskView> {
    v.map_values(|t: TaskRecord| task_view(t))
}

impl TaskRecord {
    /// A copy of the record.
    pub fn duplicate(&self) -> (r: TaskRecord)
        ensures
            task_view(r) == task_view(*self),
    {
        TaskRecord {
            raw: self.raw.clone(),
            completed: self.completed,
            priority: self.priority,
            projects: clone_strings(&self.projects),
            contexts: clone_strings(&self.contexts),
            due_date: match &self.due_date {
                Some(d) => Some(d.clone()),
                None => None,
            },
            due_status: self.due_status,
            deferred: self.deferred,
        }
    }
}

/// A copy of a task list.
pub fn duplicate_tasks(v: &Vec<TaskRecord>) -> (r: Vec<TaskRecord>)
    ensures
        tasks_view(r@) == tasks_view(v@),
{
    let mut r: Vec<TaskRecord> = Vec::new();
    let mut i: usize = 0;
    while i < v.len()
        invariant
            i <= v@.len(),
            tasks_view(r@) =~= tasks_view(v@).take(i as int),
        decreases v.len() - i,
    {
        let ghost before = r@;
        let t = v[i].duplicate();
        r.push(t);
        assert(tasks_view(r@) =~= tasks_view(before).push(task_view(v@[i as int])));
        i += 1;
        assert(tasks_view(r@) =~= tasks_view(v@).take(i as int));
    }
    assert(tasks_view(v@).take(v@.len() as int) =~= tasks_view(v@));
    r
}

/// The order in which a view lists its tasks.
#[derive(Clone, Copy, Debug, PartialEq, Eq, Structural)]
pub enum SortOrder {
    FileOrder,
    Alphabetical,
    CompletedDate,
    Context,
    DueDate,
    CreationDate,
    Priority,
    Project,
}

/// The next sort order in the fixed cycle.
pub open spec fn next_sort(s: SortOrder) -> SortOrder {
    match s {
        SortOrder::FileOrder => SortOrder::Alphabetical,
        SortOrder::Alphabetical => SortOrder::CompletedDate,
        SortOrder::CompletedDate => SortOrder::Context,
        SortOrder::Context => SortOrder::DueDate,
        SortOrder::DueDate => SortOrder::CreationDate,
        SortOrder::CreationDate => SortOrder::Priority,
        SortOrder::Priority => SortOrder::Project,
        SortOrder::Project => SortOrder::FileOrder,
    }
}

pub fn cycle_sort(current: SortOrder) -> (s: SortOrder)
    ensures
        s == next_sort(current),
{
    match current {
        SortOrder::FileOrder => SortOrder::Alphabetical,
        SortOrder::Alphabetical => SortOrder::CompletedDate,
        SortOrder::CompletedDate => SortOrder::Context,
        SortOrder::Context => SortOrder::DueDate,
        SortOrder::DueDate => SortOrder::CreationDate,
        SortOrder::CreationDate => SortOrder::Priority,
        SortOrder::Priority => SortOrder::Project,
        SortOrder::Project => SortOrder::FileOrder,
    }
}

/// The status-bar name of a sort order.
pub open spec fn sort_label(s: SortOrder) -> Seq<char> {
    match s {
        SortOrder::FileOrder => "file order"@,
        SortOrder::Alphabetical => "alpha"@,
        SortOrder::CompletedDate => "completed"@,
        SortOrder::Context => "context"@,
        SortOrder::DueDate => "due"@,
        SortOrder::CreationDate => "created"@,
        SortOrder::Priority => "priority"@,
        SortOrder::Project => "project"@,
    }
}

pub fn sort_name(s: SortOrder) -> (r: &'static str)
    ensures
        r@ == sort_label(s),
{
    match s {
        SortOrder::FileOrder => "file order",
        SortOrder::Alphabetical => "alpha",
        SortOrder::CompletedDate => "completed",
        SortOrder::Context => "context",
        SortOrder::DueDate => "due",
        SortOrder::CreationDate => "created",
        SortOrder::Priority => "priority",
        SortOrder::Project => "project",
    }
}

/// The sort order a configured pane sort stands for.
pub open spec fn pane_sort_order(p: PaneSort) -> SortOrder {
    match p {
        PaneSort::FileOrder => SortOrder::FileOrder,
        PaneSort::Priority => SortOrder::Priority,
        PaneSort::DueDate => SortOrder::DueDate,
        PaneSort::Alphabetical => SortOrder::Alphabetical,
    }
}

/// The configured pane sort that records a sort order; orders a pane
/// configuration cannot name are recorded as file order.
pub open spec fn sort_pane_sort(s: SortOrder) -> PaneSort {
    match s {
        SortOrder::Priority => PaneSort::Priority,
        SortOrder::DueDate => PaneSort::DueDate,
        SortOrder::Alphabetical => PaneSort::Alphabetical,
        _ => PaneSort::FileOrder,
    }
}

impl PaneSort {
    pub fn to_sort_order(self) -> (s: SortOrder)
        ensures
            s == pane_sort_order(self),
    {
        match self {
            PaneSort::FileOrder => SortOrder::FileOrder,
            PaneSort::Priority => SortOrder::Priority,
            PaneSort::DueDate => SortOrder::DueDate,
            PaneSort::Alphabetical => SortOrder::Alphabetical,
        }
    }

    pub fn from_sort_order(s: SortOrder) -> (p: PaneSort)
        ensures
            p == sort_pane_sort(s),
    {
        match s {
            SortOrder::Priority => PaneSort::Priority,
            SortOrder::DueDate => PaneSort::DueDate,
            SortOrder::Alphabetical => PaneSort::Alphabetical,
            _ => PaneSort::FileOrder,
        }
    }
}

/// The next group-by category in the fixed cycle.
pub open spec fn next_group_by(g: GroupByCategory) -> GroupByCategory {
    match g {
        GroupByCategory::Priority => GroupByCategory::Project,
        GroupByCategory::Project => GroupByCategory::Context,
        GroupByCategory::Context => GroupByCategory::DueDate,
        GroupByCategory::DueDate => GroupByCategory::Priority,
    }
}

pub fn cycle_group_by(current: GroupByCategory) -> (g: GroupByCategory)
    ensures
        g == next_group_by(current),
{
    match current {
        GroupByCategory::Priority => GroupByCategory::Project,
        GroupByCategory::Project => GroupByCategory::Context,
        GroupByCategory::Context => GroupByCategory::DueDate,
        GroupByCategory::DueDate => GroupByCategory::Priority,
    }
}

/// The status-bar name of a group-by category.
pub open spec fn group_by_label(g: GroupByCategory) -> Seq<char> {
    match g {
        GroupByCategory::Priority => "priority"@,
        GroupByCategory::Project => "project"@,
        GroupByCategory::Context => "context"@,
        GroupByCategory::DueDate => "duedate"@,
    }
}

pub fn group_by_name(g: GroupByCategory) -> (r: &'static str)
    ensures
        r@ == group_by_label(g),
{
    match g {
        GroupByCategory::Priority => "priority",
        GroupByCategory::Project => "project",
        GroupByCategory::Context => "context",
        GroupByCategory::DueDate => "duedate",
    }
}

/// The header under which a task is grouped.
pub open spec fn group_key(t: TaskRecord, g: GroupByCategory) -> Seq<char> {
    match g {
        GroupByCategory::Priority => match t.priority {
            Some(p) => seq!['(', p, ')'],
            None => "none"@,
        },
        GroupByCategory::Project => if t.projects@.len() > 0 {
            seq!['+'] + t.projects@[0]@
        } else {
            "none"@
        },
        GroupByCategory::Context => if t.contexts@.len() > 0 {
            seq!['@'] + t.contexts@[0]@
        } else {
            "none"@
        },
        GroupByCategory::DueDate => match t.due_date {
            Some(d) => d@,
            None => "no due date"@,
        },
    }
}

pub fn group_key_for(t: &TaskRecord, g: GroupByCategory) -> (r: String)
    ensures
        r@ == group_key(*t, g),
{
    match g {
        GroupByCategory::Priority => match t.priority {
            Some(p) => {
                let mut s = String::new();
                push_char(&mut s, '(');
                push_char(&mut s, p);
                push_char(&mut s, ')');
                assert(s@ =~= seq!['(', p, ')']);
                s
            },
            None => String::from_str("none"),
        },
        GroupByCategory::Project => if t.projects.len() > 0 {
            let mut s = String::new();
            push_char(&mut s, '+');
            push_all(&mut s, t.projects[0].as_str());
            assert(s@ =~= seq!['+'] + t.projects@[0]@);
            s
        } else {
            String::from_str("none")
        },
        GroupByCategory::Context => if t.contexts.len() > 0 {
            let mut s = String::new();
            push_char(&mut s, '@');
            push_all(&mut s, t.contexts[0].as_str());
            assert(s@ =~= seq!['@'] + t.contexts@[0]@);
            s
        } else {
            String::from_str("none")
        },
        GroupByCategory::DueDate => match &t.due_date {
            Some(d) => d.clone(),
            None => String::from_str("no due date"),
        },
    }
}

} // verus!

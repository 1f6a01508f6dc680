//! Entity model: users, projects, tasks, and the derived analytics records.
//!
//! Identifiers are opaque 128-bit tokens; dates are calendar days counted
//! from a fixed epoch, with no time-of-day component.

use vstd::prelude::*;

verus! {

/// A calendar date, held as a signed day number from a fixed epoch.
#[derive(Clone, Copy, PartialEq, Eq, Structural, Debug)]
pub struct Date {
    pub day: i64,
}

/// Lifecycle state of a task.
#[derive(Clone, Copy, PartialEq, Eq, Structural, Debug)]
pub enum TaskStatus {
    New,
    InProgress,
    Blocked,
    Completed,
    Cancelled,
}

/// Urgency of a task.
#[derive(Clone, Copy, PartialEq, Eq, Structural, Debug)]
pub enum TaskPriority {
    Low,
    Medium,
    High,
    Critical,
}

/// A registered user. The identifier is assigned by the store, never by
/// the caller.
#[derive(Clone, PartialEq, Debug)]
pub struct User {
    pub id: u128,
    pub name: String,
    pub email: String,
}

/// A project. `owner_id` is a weak reference: it may name a deleted user
/// and is never validated or repaired by the store.
#[derive(Clone, PartialEq, Debug)]
pub struct Project {
    pub id: u128,
    pub name: String,
    pub description: String,
    pub start_date: Date,
    pub end_date: Option<Date>,
    pub owner_id: Option<u128>,
}

/// A task. `project_id` and `assigned_to_id` are weak references, never
/// validated or cascaded by the store.
#[derive(Clone, PartialEq, Debug)]
pub struct Task {
    pub id: u128,
    pub title: String,
    pub description: String,
    pub due_date: Option<Date>,
    pub status: TaskStatus,
    pub priority: TaskPriority,
    pub project_id: u128,
    pub assigned_to_id: Option<u128>,
}

/// Per-user (or unassigned-bucket) task counts, derived from a snapshot.
#[derive(Clone, PartialEq, Debug)]
pub struct AnalyticsItem {
    pub user_id: Option<u128>,
    pub user_name: String,
    pub total_tasks: usize,
    pub completed_tasks: usize,
    pub overdue_tasks: usize,
    pub active_tasks: usize,
}

/// Aggregate statistics over one consistent snapshot of the store.
#[derive(Clone, PartialEq, Debug)]
pub struct AnalyticsSummary {
    pub per_user: Vec<AnalyticsItem>,
    pub total_users: usize,
    pub total_projects: usize,
    pub total_tasks: usize,
}

/// Outcome of a delete operation.
#[derive(Clone, Copy, PartialEq, Eq, Structural, Debug)]
pub enum DeleteOutcome {
    Deleted,
    NotFound,
}

/// Deep copy of a user; the copy equals the original field for field.
pub fn clone_user(u: &User) -> (r: User)
    ensures
        r == *u,
{
    User { id: u.id, name: u.name.clone(), email: u.email.clone() }
}

/// Deep copy of a project; the copy equals the original field for field.
pub fn clone_project(p: &Project) -> (r: Project)
    ensures
        r == *p,
{
    Project {
        id: p.id,
        name: p.name.clone(),
        description: p.description.clone(),
        start_date: p.start_date,
        end_date: p.end_date,
        owner_id: p.owner_id,
    }
}

/// Deep copy of a task; the copy equals the original field for field.
pub fn clone_task(t: &Task) -> (r: Task)
    ensures
        r == *t,
{
    Task {
        id: t.id,
        title: t.title.clone(),
        description: t.description.clone(),
        due_date: t.due_date,
        status: t.status,
        priority: t.priority,
        project_id: t.project_id,
        assigned_to_id: t.assigned_to_id,
    }
}

} // verus!

//! One-shot demo dataset: three users, two projects, five tasks, with all
//! dates laid out relative to the initializing moment. Built through the
//! store's own operations, so it satisfies every store invariant.

use vstd::prelude::*;
use crate::models::{User, Project, Task, TaskStatus, TaskPriority, Date};
use crate::store::AppState;
use crate::analytics::assignees_resolve;
use crate::clock::current_date;

verus! {

/// Build the demo dataset with dates laid out around the given day.
///
/// The bound on `now.day` only keeps the day arithmetic inside `i64`; any
/// date read from the clock is far inside it.
pub fn seed_demo_data_at(now: Date) -> (s: AppState)
    requires
        i64::MIN + 40 <= now.day <= i64::MAX - 40,
    ensures
        s.wf(),
        s.users@.len() == 3,
        s.projects@.len() == 2,
        s.tasks@.len() == 5,
        assignees_resolve(s.users@, s.tasks@),
        s.projects@[0].owner_id == Some(s.users@[0].id),
        s.projects@[1].owner_id == Some(s.users@[1].id),
        s.tasks@[0].project_id == s.projects@[0].id,
        s.tasks@[1].project_id == s.projects@[0].id,
        s.tasks@[2].project_id == s.projects@[0].id,
        s.tasks@[3].project_id == s.projects@[1].id,
        s.tasks@[4].project_id == s.projects@[1].id,
        s.tasks@[0].assigned_to_id == Some(s.users@[0].id),
        s.tasks@[1].assigned_to_id == Some(s.users@[1].id),
        s.tasks@[2].assigned_to_id == Some(s.users@[2].id),
        s.tasks@[3].assigned_to_id == Some(s.users@[2].id),
        s.tasks@[4].assigned_to_id == Some(s.users@[1].id),
        s.tasks@[0].status == TaskStatus::InProgress,
        s.tasks@[1].status == TaskStatus::Blocked,
        s.tasks@[2].status == TaskStatus::Completed,
        s.tasks@[3].status == TaskStatus::New,
        s.tasks@[4].status == TaskStatus::InProgress,
        s.tasks@[0].due_date is Some && s.tasks@[0].due_date->0.day == now.day + 7,
        s.tasks@[1].due_date is Some && s.tasks@[1].due_date->0.day == now.day + 3,
        s.tasks@[2].due_date is Some && s.tasks@[2].due_date->0.day == now.day - 2,
        s.tasks@[3].due_date is Some && s.tasks@[3].due_date->0.day == now.day + 10,
        s.tasks@[4].due_date is Some && s.tasks@[4].due_date->0.day == now.day - 1,
{
    let mut s = AppState::new();

    let alice = s.create_user(User {
        id: 0,
        name: "Alice Ahmed".to_owned(),
        email: "alice@example.com".to_owned(),
    });
    let ben = s.create_user(User {
        id: 0,
        name: "Ben Brown".to_owned(),
        email: "ben@example.com".to_owned(),
    });
    let chloe = s.create_user(User {
        id: 0,
        name: "Chloe Chen".to_owned(),
        email: "chloe@example.com".to_owned(),
    });

    let proj1 = s.add_project(Project {
        id: 0,
        name: "Customer Portal".to_owned(),
        description: "Build a secure customer portal MVP.".to_owned(),
        start_date: Date { day: now.day - 21 },
        end_date: None,
        owner_id: Some(alice.id),
    });
    let proj2 = s.add_project(Project {
        id: 0,
        name: "Mobile App Rewrite".to_owned(),
        description: "Rewrite legacy mobile app using Rust + Flutter.".to_owned(),
        start_date: Date { day: now.day - 35 },
        end_date: Some(Date { day: now.day + 30 }),
        owner_id: Some(ben.id),
    });

    s.add_task(Task {
        id: 0,
        title: "Design auth flow".to_owned(),
        description: "Plan OAuth2 + JWT flow".to_owned(),
        due_date: Some(Date { day: now.day + 7 }),
        status: TaskStatus::InProgress,
        priority: TaskPriority::High,
        project_id: proj1.id,
        assigned_to_id: Some(alice.id),
    });
    s.add_task(Task {
        id: 0,
        title: "Implement login API".to_owned(),
        description: "Build REST endpoints for auth".to_owned(),
        due_date: Some(Date { day: now.day + 3 }),
        status: TaskStatus::Blocked,
        priority: TaskPriority::Critical,
        project_id: proj1.id,
        assigned_to_id: Some(ben.id),
    });
    s.add_task(Task {
        id: 0,
        title: "Add telemetry baseline".to_owned(),
        description: "Set up tracing".to_owned(),
        due_date: Some(Date { day: now.day - 2 }),
        status: TaskStatus::Completed,
        priority: TaskPriority::Medium,
        project_id: proj1.id,
        assigned_to_id: Some(chloe.id),
    });
    s.add_task(Task {
        id: 0,
        title: "Create Flutter shell".to_owned(),
        description: "UI shell for cross-platform app".to_owned(),
        due_date: Some(Date { day: now.day + 10 }),
        status: TaskStatus::New,
        priority: TaskPriority::Medium,
        project_id: proj2.id,
        assigned_to_id: Some(chloe.id),
    });
    s.add_task(Task {
        id: 0,
        title: "Migrate settings store".to_owned(),
        description: "Move configs to SQLite".to_owned(),
        due_date: Some(Date { day: now.day - 1 }),
        status: TaskStatus::InProgress,
        priority: TaskPriority::High,
        project_id: proj2.id,
        assigned_to_id: Some(ben.id),
    });

    proof {
        assert(s.users@[0] == alice);
        assert(s.users@[1] == ben);
        assert(s.users@[2] == chloe);
        assert forall|k: int| 0 <= k < s.tasks@.len()
            implies ((#[trigger] s.tasks@[k]).assigned_to_id is Some
                ==> exists|i: int| 0 <= i < s.users@.len()
                    && s.users@[i].id == s.tasks@[k].assigned_to_id->0) by {
            if s.tasks@[k].assigned_to_id == Some(alice.id) {
                assert(s.users@[0].id == alice.id);
            } else if s.tasks@[k].assigned_to_id == Some(ben.id) {
                assert(s.users@[1].id == ben.id);
            } else {
                assert(s.users@[2].id == chloe.id);
            }
        }
    }
    s
}

/// Build the demo dataset around the current date read from the clock.
pub fn seed_demo_data() -> (s: AppState)
    ensures
        s.wf(),
        s.users@.len() == 3,
        s.projects@.len() == 2,
        s.tasks@.len() == 5,
        assignees_resolve(s.users@, s.tasks@),
{
    let now = current_date();
    seed_demo_data_at(now)
}

} // verus!

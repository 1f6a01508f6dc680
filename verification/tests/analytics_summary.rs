use task_tracker::models::{
    AnalyticsSummary, Date, Task, TaskPriority, TaskStatus, User,
};
use task_tracker::seed::seed_demo_data_at;
use task_tracker::store::AppState;

fn user(id: u128, name: &str) -> User {
    User { id, name: name.to_string(), email: format!("{}@example.com", name) }
}

fn task(id: u128, status: TaskStatus, due: Option<i64>, assignee: Option<u128>) -> Task {
    Task {
        id,
        title: format!("task {}", id),
        description: String::new(),
        due_date: due.map(|day| Date { day }),
        status,
        priority: TaskPriority::Medium,
        project_id: 900,
        assigned_to_id: assignee,
    }
}

fn overdue_sum(s: &AnalyticsSummary) -> usize {
    s.per_user.iter().map(|i| i.overdue_tasks).sum()
}

#[test]
fn seed_overdue_counts_match_manual_enumeration() {
    let day: i64 = 100_000;
    let s = seed_demo_data_at(Date { day });

    // On the seeding day itself only "Migrate settings store" (due the day
    // before, in progress) is overdue; "Add telemetry baseline" is past due
    // but completed.
    let at_seed_day = s.analytics_summary_at(Date { day });
    assert_eq!(overdue_sum(&at_seed_day), 1);

    // Four days on, "Implement login API" (due day + 3, blocked) has gone
    // past due as well: exactly two overdue tasks, both Ben's.
    let later = s.analytics_summary_at(Date { day: day + 4 });
    assert_eq!(overdue_sum(&later), 2);
    assert_eq!(later.total_users, 3);
    assert_eq!(later.total_projects, 2);
    assert_eq!(later.total_tasks, 5);
    assert_eq!(later.per_user.len(), 3);

    let users = s.list_users();
    let ben = later.per_user.iter().find(|i| i.user_id == Some(users[1].id)).unwrap();
    assert_eq!(ben.user_name, "Ben Brown");
    assert_eq!(ben.total_tasks, 2);
    assert_eq!(ben.completed_tasks, 0);
    assert_eq!(ben.overdue_tasks, 2);
    assert_eq!(ben.active_tasks, 2);

    let chloe = later.per_user.iter().find(|i| i.user_id == Some(users[2].id)).unwrap();
    assert_eq!(chloe.total_tasks, 2);
    assert_eq!(chloe.completed_tasks, 1);
    assert_eq!(chloe.overdue_tasks, 0);
    assert_eq!(chloe.active_tasks, 1);
}

#[test]
fn item_totals_sum_to_task_count() {
    let state = AppState {
        users: vec![user(1, "ana"), user(2, "bo")],
        projects: vec![],
        tasks: vec![
            task(10, TaskStatus::New, None, Some(1)),
            task(11, TaskStatus::Completed, Some(5), Some(2)),
            task(12, TaskStatus::Blocked, Some(5), Some(2)),
            task(13, TaskStatus::Cancelled, None, None),
        ],
        issued: vec![1, 2, 10, 11, 12, 13],
    };
    let s = state.analytics_summary_at(Date { day: 6 });
    let total: usize = s.per_user.iter().map(|i| i.total_tasks).sum();
    assert_eq!(total, s.total_tasks);
    assert_eq!(s.total_tasks, 4);
}

#[test]
fn active_plus_completed_equals_total_for_every_item() {
    let state = AppState {
        users: vec![user(1, "ana"), user(2, "bo"), user(3, "cy")],
        projects: vec![],
        tasks: vec![
            task(10, TaskStatus::Completed, Some(1), Some(1)),
            task(11, TaskStatus::Completed, None, Some(1)),
            task(12, TaskStatus::InProgress, Some(9), Some(1)),
            task(13, TaskStatus::Cancelled, Some(1), Some(2)),
            task(14, TaskStatus::Blocked, None, None),
        ],
        issued: vec![1, 2, 3, 10, 11, 12, 13, 14],
    };
    let s = state.analytics_summary_at(Date { day: 5 });
    assert_eq!(s.per_user.len(), 4);
    for item in &s.per_user {
        assert_eq!(item.active_tasks + item.completed_tasks, item.total_tasks);
    }
    // Cancelled and blocked tasks count as active.
    let bo = s.per_user.iter().find(|i| i.user_id == Some(2)).unwrap();
    assert_eq!(bo.total_tasks, 1);
    assert_eq!(bo.active_tasks, 1);
}

#[test]
fn overdue_needs_past_due_date_and_open_status() {
    let now: i64 = 100;
    let state = AppState {
        users: vec![user(1, "ana")],
        projects: vec![],
        tasks: vec![
            task(10, TaskStatus::New, Some(now - 1), Some(1)),
            task(11, TaskStatus::InProgress, Some(now - 30), Some(1)),
            task(12, TaskStatus::Blocked, Some(now - 2), Some(1)),
            task(13, TaskStatus::Completed, Some(now - 50), Some(1)),
            task(14, TaskStatus::Cancelled, Some(now - 50), Some(1)),
            task(15, TaskStatus::New, Some(now), Some(1)),
            task(16, TaskStatus::New, Some(now + 1), Some(1)),
            task(17, TaskStatus::New, None, Some(1)),
        ],
        issued: vec![1, 10, 11, 12, 13, 14, 15, 16, 17],
    };
    let s = state.analytics_summary_at(Date { day: now });
    let ana = s.per_user.iter().find(|i| i.user_id == Some(1)).unwrap();
    // Only the three open tasks strictly past due count; a due date equal to
    // "now", a future one, none at all, or a closed status never counts.
    assert_eq!(ana.overdue_tasks, 3);
    assert_eq!(ana.total_tasks, 8);
    assert_eq!(ana.completed_tasks, 1);
}

#[test]
fn unassigned_bucket_emitted_only_when_nonempty() {
    let with_unassigned = AppState {
        users: vec![user(1, "ana")],
        projects: vec![],
        tasks: vec![task(10, TaskStatus::New, None, None)],
        issued: vec![1, 10],
    };
    let s = with_unassigned.analytics_summary_at(Date { day: 0 });
    assert_eq!(s.per_user.len(), 2);
    let last = s.per_user.last().unwrap();
    assert_eq!(last.user_id, None);
    assert_eq!(last.user_name, "Unassigned");
    assert_eq!(last.total_tasks, 1);

    let all_assigned = AppState {
        users: vec![user(1, "ana")],
        projects: vec![],
        tasks: vec![task(10, TaskStatus::New, None, Some(1))],
        issued: vec![1, 10],
    };
    let s2 = all_assigned.analytics_summary_at(Date { day: 0 });
    assert_eq!(s2.per_user.len(), 1);
    assert!(s2.per_user.iter().all(|i| i.user_id.is_some()));
}

#[test]
fn zero_task_user_still_gets_an_entry() {
    let state = AppState {
        users: vec![user(1, "ana"), user(2, "idle")],
        projects: vec![],
        tasks: vec![task(10, TaskStatus::New, None, Some(1))],
        issued: vec![1, 2, 10],
    };
    let s = state.analytics_summary_at(Date { day: 0 });
    assert_eq!(s.per_user.len(), 2);
    let idle = s.per_user.iter().find(|i| i.user_id == Some(2)).unwrap();
    assert_eq!(idle.total_tasks, 0);
    assert_eq!(idle.completed_tasks, 0);
    assert_eq!(idle.overdue_tasks, 0);
    assert_eq!(idle.active_tasks, 0);
}

#[test]
fn per_user_entries_follow_store_insertion_order() {
    let mut store = AppState::new();
    let a = store.create_user(user(0, "first"));
    let b = store.create_user(user(0, "second"));
    let c = store.create_user(user(0, "third"));
    let s = store.analytics_summary_at(Date { day: 0 });
    let ids: Vec<Option<u128>> = s.per_user.iter().map(|i| i.user_id).collect();
    assert_eq!(ids, vec![Some(a.id), Some(b.id), Some(c.id)]);
}

#[test]
fn summary_ignores_tasks_of_deleted_users_without_failing() {
    // A task whose assignee was deleted falls into no bucket: it still
    // counts in the global total but in no per-user entry.
    let mut store = seed_demo_data_at(Date { day: 100_000 });
    let users = store.list_users();
    store.delete_user(users[0].id);
    let s = store.analytics_summary_at(Date { day: 100_000 });
    assert_eq!(s.total_tasks, 5);
    let per_item_sum: usize = s.per_user.iter().map(|i| i.total_tasks).sum();
    assert_eq!(per_item_sum, 4);
}

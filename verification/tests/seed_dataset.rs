use task_tracker::models::{Date, TaskPriority, TaskStatus};
use task_tracker::seed::{seed_demo_data, seed_demo_data_at};

#[test]
fn seed_has_expected_shape_and_wiring() {
    let day: i64 = 738_000;
    let s = seed_demo_data_at(Date { day });
    let users = s.list_users();
    let projects = s.list_projects();
    let tasks = s.list_tasks();

    assert_eq!(users.len(), 3);
    assert_eq!(projects.len(), 2);
    assert_eq!(tasks.len(), 5);

    assert_eq!(users[0].name, "Alice Ahmed");
    assert_eq!(users[1].name, "Ben Brown");
    assert_eq!(users[2].name, "Chloe Chen");

    assert_eq!(projects[0].name, "Customer Portal");
    assert_eq!(projects[0].owner_id, Some(users[0].id));
    assert_eq!(projects[0].start_date, Date { day: day - 21 });
    assert_eq!(projects[0].end_date, None);
    assert_eq!(projects[1].owner_id, Some(users[1].id));
    assert_eq!(projects[1].end_date, Some(Date { day: day + 30 }));

    assert_eq!(tasks[0].title, "Design auth flow");
    assert_eq!(tasks[0].status, TaskStatus::InProgress);
    assert_eq!(tasks[0].priority, TaskPriority::High);
    assert_eq!(tasks[0].due_date, Some(Date { day: day + 7 }));
    assert_eq!(tasks[0].project_id, projects[0].id);
    assert_eq!(tasks[0].assigned_to_id, Some(users[0].id));

    assert_eq!(tasks[1].title, "Implement login API");
    assert_eq!(tasks[1].status, TaskStatus::Blocked);
    assert_eq!(tasks[1].due_date, Some(Date { day: day + 3 }));
    assert_eq!(tasks[1].assigned_to_id, Some(users[1].id));

    assert_eq!(tasks[2].status, TaskStatus::Completed);
    assert_eq!(tasks[2].due_date, Some(Date { day: day - 2 }));

    assert_eq!(tasks[4].title, "Migrate settings store");
    assert_eq!(tasks[4].status, TaskStatus::InProgress);
    assert_eq!(tasks[4].due_date, Some(Date { day: day - 1 }));
    assert_eq!(tasks[4].project_id, projects[1].id);

    // Identifiers are unique across each collection.
    let mut all_ids: Vec<u128> = Vec::new();
    all_ids.extend(users.iter().map(|u| u.id));
    all_ids.extend(projects.iter().map(|p| p.id));
    all_ids.extend(tasks.iter().map(|t| t.id));
    for a in 0..all_ids.len() {
        for b in (a + 1)..all_ids.len() {
            assert_ne!(all_ids[a], all_ids[b]);
        }
    }
}

#[test]
fn seed_from_clock_reports_one_overdue_task() {
    // Seeded relative to the real current date, exactly one task (settings
    // migration, due yesterday, in progress) is overdue right away.
    let s = seed_demo_data();
    let summary = s.analytics_summary();
    assert_eq!(summary.total_users, 3);
    assert_eq!(summary.total_projects, 2);
    assert_eq!(summary.total_tasks, 5);
    assert_eq!(summary.per_user.len(), 3);
    let overdue: usize = summary.per_user.iter().map(|i| i.overdue_tasks).sum();
    assert_eq!(overdue, 1);
}

use task_tracker::models::{Date, DeleteOutcome, User};
use task_tracker::seed::seed_demo_data_at;
use task_tracker::store::AppState;

fn candidate(name: &str, email: &str) -> User {
    User { id: 7, name: name.to_string(), email: email.to_string() }
}

#[test]
fn created_ids_are_unique_and_differ_from_candidate() {
    let mut s = AppState::new();
    let mut ids: Vec<u128> = Vec::new();
    for k in 0..8 {
        let cand = User {
            id: k as u128,
            name: format!("user {}", k),
            email: format!("u{}@example.com", k),
        };
        let cand_id = cand.id;
        let stored = s.create_user(cand);
        assert_ne!(stored.id, cand_id);
        ids.push(stored.id);
    }
    for a in 0..ids.len() {
        for b in (a + 1)..ids.len() {
            assert_ne!(ids[a], ids[b]);
        }
    }
}

#[test]
fn id_of_deleted_user_is_not_reissued() {
    let mut s = AppState::new();
    let first = s.create_user(candidate("Ada", "ada@example.com"));
    assert_eq!(s.delete_user(first.id), DeleteOutcome::Deleted);
    let mut later: Vec<u128> = Vec::new();
    for _ in 0..8 {
        later.push(s.create_user(candidate("Bea", "bea@example.com")).id);
    }
    for id in later {
        assert_ne!(id, first.id);
    }
}

#[test]
fn create_then_get_returns_stored_data() {
    let mut s = AppState::new();
    let stored = s.create_user(candidate("Dan Drew", "dan@example.com"));
    let fetched = s.get_user(stored.id).expect("stored user must be found");
    assert_eq!(fetched.id, stored.id);
    assert_eq!(fetched.name, "Dan Drew");
    assert_eq!(fetched.email, "dan@example.com");
}

#[test]
fn delete_then_get_signals_not_found() {
    let mut s = AppState::new();
    let stored = s.create_user(candidate("Eve East", "eve@example.com"));
    assert_eq!(s.delete_user(stored.id), DeleteOutcome::Deleted);
    assert!(s.get_user(stored.id).is_none());
}

#[test]
fn delete_user_keeps_projects_and_tasks() {
    let mut s = seed_demo_data_at(Date { day: 100_000 });
    let users = s.list_users();
    let projects_before = s.list_projects();
    let tasks_before = s.list_tasks();
    // users[0] owns a project and is assigned a task; both must survive.
    let owner = users[0].id;
    assert!(projects_before.iter().any(|p| p.owner_id == Some(owner)));
    assert!(tasks_before.iter().any(|t| t.assigned_to_id == Some(owner)));
    assert_eq!(s.delete_user(owner), DeleteOutcome::Deleted);
    assert_eq!(s.list_projects(), projects_before);
    assert_eq!(s.list_tasks(), tasks_before);
}

#[test]
fn delete_on_never_issued_id_returns_not_found() {
    let mut s = seed_demo_data_at(Date { day: 100_000 });
    let before = s.list_users();
    assert_eq!(s.delete_user(0xdead_beef), DeleteOutcome::NotFound);
    assert_eq!(s.list_users().len(), before.len());
}

#[test]
fn fifty_creates_yield_distinct_ids_and_grow_count_by_fifty() {
    // The store serializes concurrent requests into one total order, so
    // fifty racing creates behave as fifty back-to-back ones.
    let mut s = seed_demo_data_at(Date { day: 100_000 });
    let before = s.list_users().len();
    let mut ids: Vec<u128> = Vec::new();
    for k in 0..50 {
        let stored = s.create_user(User {
            id: 0,
            name: format!("worker {}", k),
            email: format!("w{}@example.com", k),
        });
        ids.push(stored.id);
    }
    for a in 0..ids.len() {
        for b in (a + 1)..ids.len() {
            assert_ne!(ids[a], ids[b]);
        }
    }
    assert_eq!(s.list_users().len(), before + 50);
}

#[test]
fn list_users_snapshot_is_a_copy() {
    let mut s = AppState::new();
    s.create_user(candidate("Fay Fox", "fay@example.com"));
    let mut snapshot = s.list_users();
    snapshot[0].name = "changed".to_string();
    assert_eq!(s.list_users()[0].name, "Fay Fox");
}

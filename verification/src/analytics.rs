//! Analytics over one consistent snapshot of the store.
//!
//! For each user, in store order, the tasks assigned to that user are
//! counted (total, completed, overdue, active); tasks assigned to nobody go
//! to a trailing unassigned bucket that is emitted only when non-empty,
//! while a user with no tasks still gets an (all-zero) entry.

use vstd::prelude::*;
use crate::models::{User, Project, Task, TaskStatus, Date, AnalyticsItem, AnalyticsSummary};
use crate::store::{AppState, distinct_ids, user_ids};
use crate::clock::current_date;

verus! {

/// Whether the task is assigned to the given bucket: a user's identifier,
/// or `None` for the unassigned bucket.
pub open spec fn in_bucket(t: Task, bucket: Option<u128>) -> bool {
    t.assigned_to_id == bucket
}

/// Whether the task counts as completed.
pub open spec fn is_completed(t: Task) -> bool {
    t.status == TaskStatus::Completed
}

/// Whether the task counts as overdue: it has a due date strictly before
/// `now` and is neither completed nor cancelled.
pub open spec fn is_overdue(t: Task, now: Date) -> bool {
    &&& t.due_date is Some
    &&& t.due_date->0.day < now.day
    &&& t.status != TaskStatus::Completed
    &&& t.status != TaskStatus::Cancelled
}

/// How many tasks sit in the bucket.
pub open spec fn bucket_total(tasks: Seq<Task>, bucket: Option<u128>) -> nat
    decreases tasks.len(),
{
    if tasks.len() == 0 {
        0
    } else {
        bucket_total(tasks.drop_last(), bucket)
            + if in_bucket(tasks.last(), bucket) { 1nat } else { 0nat }
    }
}

/// How many tasks in the bucket are completed.
pub open spec fn bucket_completed(tasks: Seq<Task>, bucket: Option<u128>) -> nat
    decreases tasks.len(),
{
    if tasks.len() == 0 {
        0
    } else {
        bucket_completed(tasks.drop_last(), bucket)
            + if in_bucket(tasks.last(), bucket) && is_completed(tasks.last()) { 1nat } else { 0nat }
    }
}

/// How many tasks in the bucket are overdue at `now`.
pub open spec fn bucket_overdue(tasks: Seq<Task>, bucket: Option<u128>, now: Date) -> nat
    decreases tasks.len(),
{
    if tasks.len() == 0 {
        0
    } else {
        bucket_overdue(tasks.drop_last(), bucket, now)
            + if in_bucket(tasks.last(), bucket) && is_overdue(tasks.last(), now) { 1nat } else { 0nat }
    }
}

/// Active tasks: total minus completed, saturating at zero.
pub open spec fn bucket_active(tasks: Seq<Task>, bucket: Option<u128>) -> nat {
    if bucket_completed(tasks, bucket) <= bucket_total(tasks, bucket) {
        (bucket_total(tasks, bucket) - bucket_completed(tasks, bucket)) as nat
    } else {
        0
    }
}

/// The analytics entry for one bucket carries exactly the bucket's label,
/// display name, and four counts.
pub open spec fn item_for_bucket(
    tasks: Seq<Task>,
    bucket: Option<u128>,
    name: Seq<char>,
    now: Date,
    item: AnalyticsItem,
) -> bool {
    &&& item.user_id == bucket
    &&& item.user_name@ == name
    &&& item.total_tasks == bucket_total(tasks, bucket)
    &&& item.completed_tasks == bucket_completed(tasks, bucket)
    &&& item.overdue_tasks == bucket_overdue(tasks, bucket, now)
    &&& item.active_tasks == bucket_active(tasks, bucket)
}

/// The whole summary for a snapshot: global totals are the collection
/// sizes; one entry per user in store order; then the unassigned entry,
/// present exactly when some task is unassigned.
pub open spec fn summary_matches(
    users: Seq<User>,
    projects: Seq<Project>,
    tasks: Seq<Task>,
    now: Date,
    s: AnalyticsSummary,
) -> bool {
    &&& s.total_users == users.len()
    &&& s.total_projects == projects.len()
    &&& s.total_tasks == tasks.len()
    &&& s.per_user@.len() as int == users.len() as int
        + if bucket_total(tasks, None) > 0 { 1int } else { 0int }
    &&& forall|i: int| 0 <= i < users.len()
        ==> item_for_bucket(tasks, Some(users[i].id), users[i].name@, now, #[trigger] s.per_user@[i])
    &&& bucket_total(tasks, None) > 0
        ==> item_for_bucket(tasks, None, "Unassigned"@, now, s.per_user@[users.len() as int])
}

/// Count one bucket's total, completed and overdue tasks.
fn bucket_counts(tasks: &Vec<Task>, bucket: Option<u128>, now: Date) -> (r: (usize, usize, usize))
    ensures
        r.0 == bucket_total(tasks@, bucket),
        r.1 == bucket_completed(tasks@, bucket),
        r.2 == bucket_overdue(tasks@, bucket, now),
        r.1 <= r.0,
        r.2 <= r.0,
{
    let mut total: usize = 0;
    let mut completed: usize = 0;
    let mut overdue: usize = 0;
    let mut i: usize = 0;
    while i < tasks.len()
        invariant
            i <= tasks@.len(),
            total == bucket_total(tasks@.take(i as int), bucket),
            completed == bucket_completed(tasks@.take(i as int), bucket),
            overdue == bucket_overdue(tasks@.take(i as int), bucket, now),
            completed <= total <= i,
            overdue <= total,
        decreases tasks@.len() - i,
    {
        proof {
            assert(tasks@.take(i + 1).drop_last() =~= tasks@.take(i as int));
            assert(tasks@.take(i + 1).last() == tasks@[i as int]);
        }
        let t = &tasks[i];
        let matches_bucket = match (t.assigned_to_id, bucket) {
            (Some(a), Some(b)) => a == b,
            (None, None) => true,
            _ => false,
        };
        proof {
            assert(matches_bucket == in_bucket(tasks@[i as int], bucket));
        }
        if matches_bucket {
            total = total + 1;
            if t.status == TaskStatus::Completed {
                completed = completed + 1;
            }
            let past_due = match t.due_date {
                Some(d) => d.day < now.day
                    && t.status != TaskStatus::Completed
                    && t.status != TaskStatus::Cancelled,
                None => false,
            };
            proof {
                assert(past_due == is_overdue(tasks@[i as int], now));
            }
            if past_due {
                overdue = overdue + 1;
            }
        }
        i += 1;
    }
    proof {
        assert(tasks@.take(tasks@.len() as int) =~= tasks@);
    }
    (total, completed, overdue)
}

impl AppState {
    /// The summary of this snapshot, with overdueness judged against the
    /// given date.
    pub fn analytics_summary_at(&self, now: Date) -> (s: AnalyticsSummary)
        ensures
            summary_matches(self.users@, self.projects@, self.tasks@, now, s),
    {
        let mut per_user: Vec<AnalyticsItem> = Vec::new();
        let mut i: usize = 0;
        while i < self.users.len()
            invariant
                i <= self.users@.len(),
                per_user@.len() == i,
                forall|j: int| 0 <= j < i ==> item_for_bucket(
                    self.tasks@,
                    Some(self.users@[j].id),
                    self.users@[j].name@,
                    now,
                    #[trigger] per_user@[j],
                ),
            decreases self.users@.len() - i,
        {
            let u = &self.users[i];
            let (total, completed, overdue) = bucket_counts(&self.tasks, Some(u.id), now);
            let active = if completed <= total { total - completed } else { 0 };
            per_user.push(AnalyticsItem {
                user_id: Some(u.id),
                user_name: u.name.clone(),
                total_tasks: total,
                completed_tasks: completed,
                overdue_tasks: overdue,
                active_tasks: active,
            });
            i += 1;
        }
        let (un_total, un_completed, un_overdue) = bucket_counts(&self.tasks, None, now);
        if un_total > 0 {
            let active = if un_completed <= un_total { un_total - un_completed } else { 0 };
            per_user.push(AnalyticsItem {
                user_id: None,
                user_name: "Unassigned".to_owned(),
                total_tasks: un_total,
                completed_tasks: un_completed,
                overdue_tasks: un_overdue,
                active_tasks: active,
            });
        }
        AnalyticsSummary {
            per_user,
            total_users: self.users.len(),
            total_projects: self.projects.len(),
            total_tasks: self.tasks.len(),
        }
    }

    /// The summary of this snapshot, with overdueness judged against the
    /// current date read from the clock at computation time.
    pub fn analytics_summary(&self) -> (s: AnalyticsSummary)
        ensures
            exists|now: Date| summary_matches(self.users@, self.projects@, self.tasks@, now, s),
    {
        let now = current_date();
        let s = self.analytics_summary_at(now);
        proof {
            assert(summary_matches(self.users@, self.projects@, self.tasks@, now, s));
        }
        s
    }
}

/// Every task's assignee, where present, names some user of the collection.
pub open spec fn assignees_resolve(users: Seq<User>, tasks: Seq<Task>) -> bool {
    forall|k: int| 0 <= k < tasks.len()
        ==> ((#[trigger] tasks[k]).assigned_to_id is Some
            ==> exists|i: int| 0 <= i < users.len() && users[i].id == tasks[k].assigned_to_id->0)
}

/// The bucket totals of the users' buckets, summed in user order.
pub open spec fn sum_bucket_totals(users: Seq<User>, tasks: Seq<Task>) -> nat
    decreases users.len(),
{
    if users.len() == 0 {
        0
    } else {
        sum_bucket_totals(users.drop_last(), tasks) + bucket_total(tasks, Some(users.last().id))
    }
}

/// How many users carry the given identifier.
pub open spec fn occ_id(users: Seq<User>, a: u128) -> nat
    decreases users.len(),
{
    if users.len() == 0 {
        0
    } else {
        occ_id(users.drop_last(), a) + if users.last().id == a { 1nat } else { 0nat }
    }
}

/// The `total_tasks` fields of the emitted entries, summed in order.
pub open spec fn sum_item_totals(items: Seq<AnalyticsItem>) -> nat
    decreases items.len(),
{
    if items.len() == 0 {
        0
    } else {
        sum_item_totals(items.drop_last()) + items.last().total_tasks as nat
    }
}

proof fn lemma_sum_over_no_tasks(users: Seq<User>, tasks: Seq<Task>)
    requires
        tasks.len() == 0,
    ensures
        sum_bucket_totals(users, tasks) == 0,
    decreases users.len(),
{
    if users.len() > 0 {
        lemma_sum_over_no_tasks(users.drop_last(), tasks);
    }
}

proof fn lemma_sum_task_appended(users: Seq<User>, tasks: Seq<Task>, t: Task)
    ensures
        sum_bucket_totals(users, tasks.push(t)) == sum_bucket_totals(users, tasks) + (match t.assigned_to_id {
            Some(a) => occ_id(users, a),
            None => 0nat,
        }),
    decreases users.len(),
{
    if users.len() > 0 {
        lemma_sum_task_appended(users.drop_last(), tasks, t);
        assert(tasks.push(t).drop_last() =~= tasks);
        assert(tasks.push(t).last() == t);
    }
}

proof fn lemma_occ_absent(users: Seq<User>, a: u128)
    requires
        forall|i: int| 0 <= i < users.len() ==> users[i].id != a,
    ensures
        occ_id(users, a) == 0,
    decreases users.len(),
{
    if users.len() > 0 {
        assert(forall|i: int| 0 <= i < users.drop_last().len()
            ==> users.drop_last()[i] == users[i]);
        lemma_occ_absent(users.drop_last(), a);
    }
}

proof fn lemma_occ_unique(users: Seq<User>, a: u128)
    requires
        distinct_ids(user_ids(users)),
        exists|i: int| 0 <= i < users.len() && users[i].id == a,
    ensures
        occ_id(users, a) == 1,
    decreases users.len(),
{
    let prefix = users.drop_last();
    assert(forall|i: int| 0 <= i < users.len() ==> user_ids(users)[i] == users[i].id);
    assert(forall|i: int| 0 <= i < prefix.len() ==> prefix[i] == users[i]);
    assert(user_ids(prefix) =~= user_ids(users).drop_last());
    if users.last().id == a {
        assert forall|i: int| 0 <= i < prefix.len() implies prefix[i].id != a by {
            assert(user_ids(users)[i] != user_ids(users)[users.len() - 1]);
        }
        lemma_occ_absent(prefix, a);
    } else {
        let w = choose|i: int| 0 <= i < users.len() && users[i].id == a;
        assert(w < prefix.len());
        lemma_occ_unique(prefix, a);
    }
}

/// Law: the users' buckets and the unassigned bucket partition the tasks,
/// so their totals sum to the task count, each task counted exactly once.
/// This needs user identifiers to be distinct (the store's invariant) and
/// every assignee to name an existing user: a task assigned to a deleted
/// user falls into no bucket and would make the sum fall short.
pub proof fn lemma_totals_partition(users: Seq<User>, tasks: Seq<Task>)
    requires
        distinct_ids(user_ids(users)),
        assignees_resolve(users, tasks),
    ensures
        sum_bucket_totals(users, tasks) + bucket_total(tasks, None) == tasks.len(),
    decreases tasks.len(),
{
    if tasks.len() == 0 {
        lemma_sum_over_no_tasks(users, tasks);
    } else {
        let prefix = tasks.drop_last();
        let t = tasks.last();
        assert(forall|k: int| 0 <= k < prefix.len() ==> prefix[k] == tasks[k]);
        assert(assignees_resolve(users, prefix));
        lemma_totals_partition(users, prefix);
        assert(prefix.push(t) =~= tasks);
        lemma_sum_task_appended(users, prefix, t);
        match t.assigned_to_id {
            Some(a) => {
                assert(tasks[tasks.len() - 1].assigned_to_id is Some);
                assert(exists|i: int| 0 <= i < users.len() && users[i].id == a);
                lemma_occ_unique(users, a);
                assert(!in_bucket(t, None));
            },
            None => {
                assert(in_bucket(t, None));
            },
        }
    }
}

proof fn lemma_item_prefix_sums(
    users: Seq<User>,
    projects: Seq<Project>,
    tasks: Seq<Task>,
    now: Date,
    s: AnalyticsSummary,
    k: int,
)
    requires
        summary_matches(users, projects, tasks, now, s),
        0 <= k <= users.len(),
    ensures
        sum_item_totals(s.per_user@.take(k)) == sum_bucket_totals(users.take(k), tasks),
    decreases k,
{
    if k > 0 {
        lemma_item_prefix_sums(users, projects, tasks, now, s, k - 1);
        assert(s.per_user@.take(k).drop_last() =~= s.per_user@.take(k - 1));
        assert(s.per_user@.take(k).last() == s.per_user@[k - 1]);
        assert(users.take(k).drop_last() =~= users.take(k - 1));
        assert(users.take(k).last() == users[k - 1]);
        assert(item_for_bucket(tasks, Some(users[k - 1].id), users[k - 1].name@, now, s.per_user@[k - 1]));
    }
}

/// Law: in any summary of a snapshot whose user identifiers are distinct
/// and whose assignees all name existing users, the `total_tasks` fields of
/// the emitted entries sum exactly to the snapshot's task count.
pub proof fn lemma_summary_totals(
    users: Seq<User>,
    projects: Seq<Project>,
    tasks: Seq<Task>,
    now: Date,
    s: AnalyticsSummary,
)
    requires
        distinct_ids(user_ids(users)),
        assignees_resolve(users, tasks),
        summary_matches(users, projects, tasks, now, s),
    ensures
        sum_item_totals(s.per_user@) == s.total_tasks,
{
    lemma_item_prefix_sums(users, projects, tasks, now, s, users.len() as int);
    assert(users.take(users.len() as int) =~= users);
    if bucket_total(tasks, None) > 0 {
        assert(s.per_user@.drop_last() =~= s.per_user@.take(users.len() as int));
        assert(s.per_user@.last() == s.per_user@[users.len() as int]);
        assert(s.per_user@.last().total_tasks == bucket_total(tasks, None));
    } else {
        assert(s.per_user@.take(users.len() as int) =~= s.per_user@);
    }
    lemma_totals_partition(users, tasks);
}

proof fn lemma_completed_within_total(tasks: Seq<Task>, bucket: Option<u128>)
    ensures
        bucket_completed(tasks, bucket) <= bucket_total(tasks, bucket),
    decreases tasks.len(),
{
    if tasks.len() > 0 {
        lemma_completed_within_total(tasks.drop_last(), bucket);
    }
}

/// Law: every emitted entry balances: active plus completed equals total.
pub proof fn lemma_item_balance(
    users: Seq<User>,
    projects: Seq<Project>,
    tasks: Seq<Task>,
    now: Date,
    s: AnalyticsSummary,
    i: int,
)
    requires
        summary_matches(users, projects, tasks, now, s),
        0 <= i < s.per_user@.len(),
    ensures
        s.per_user@[i].active_tasks + s.per_user@[i].completed_tasks == s.per_user@[i].total_tasks,
{
    if i < users.len() {
        assert(item_for_bucket(tasks, Some(users[i].id), users[i].name@, now, s.per_user@[i]));
        lemma_completed_within_total(tasks, Some(users[i].id));
    } else {
        assert(bucket_total(tasks, None) > 0);
        assert(item_for_bucket(tasks, None, "Unassigned"@, now, s.per_user@[i]));
        lemma_completed_within_total(tasks, None);
    }
}

/// Law: a task is overdue exactly when it has a due date strictly before
/// `now` and its status is New, InProgress or Blocked; a completed or
/// cancelled task is never overdue, whatever its due date.
pub proof fn lemma_overdue_classification(t: Task, now: Date)
    ensures
        is_overdue(t, now) <==> (t.due_date is Some && t.due_date->0.day < now.day
            && (t.status == TaskStatus::New
                || t.status == TaskStatus::InProgress
                || t.status == TaskStatus::Blocked)),
        (t.status == TaskStatus::Completed || t.status == TaskStatus::Cancelled)
            ==> !is_overdue(t, now),
{
}

/// Law: a task of the bucket contributes one to the bucket's overdue count
/// exactly when it is overdue: with it taken out, the count drops by one if
/// it was overdue and is unchanged otherwise.
pub proof fn lemma_overdue_counted(tasks: Seq<Task>, k: int, bucket: Option<u128>, now: Date)
    requires
        0 <= k < tasks.len(),
        in_bucket(tasks[k], bucket),
    ensures
        bucket_overdue(tasks, bucket, now) == bucket_overdue(tasks.remove(k), bucket, now)
            + if is_overdue(tasks[k], now) { 1int } else { 0int },
    decreases tasks.len(),
{
    if k == tasks.len() - 1 {
        assert(tasks.remove(k) =~= tasks.drop_last());
    } else {
        assert(tasks.remove(k).drop_last() =~= tasks.drop_last().remove(k));
        assert(tasks.remove(k).last() == tasks.last());
        assert(tasks.drop_last()[k] == tasks[k]);
        lemma_overdue_counted(tasks.drop_last(), k, bucket, now);
    }
}

} // verus!

//! The shared store: sole owner of the user, project and task collections.
//!
//! Every operation observes and produces a state satisfying `AppState::wf`:
//! identifiers are unique within each collection, and every identifier ever
//! handed out is recorded in `issued`, so that no identifier is reused after
//! a deletion. Referential fields (`owner_id`, `assigned_to_id`,
//! `project_id`) are weak: the store never validates or cascades them.

use vstd::prelude::*;
use vstd::set_lib::{set_int_range, lemma_int_range, lemma_len_subset};
use crate::models::{User, Project, Task, DeleteOutcome, clone_user, clone_project, clone_task};
use crate::ids::fresh_raw_id;

verus! {

/// No value occurs twice in the sequence.
pub open spec fn distinct_ids(ids: Seq<u128>) -> bool {
    forall|i: int, j: int| 0 <= i < j < ids.len() ==> ids[i] != ids[j]
}

/// The identifiers of a user collection, in order.
pub open spec fn user_ids(users: Seq<User>) -> Seq<u128> {
    users.map_values(|u: User| u.id)
}

/// The identifiers of a project collection, in order.
pub open spec fn project_ids(projects: Seq<Project>) -> Seq<u128> {
    projects.map_values(|p: Project| p.id)
}

/// The identifiers of a task collection, in order.
pub open spec fn task_ids(tasks: Seq<Task>) -> Seq<u128> {
    tasks.map_values(|t: Task| t.id)
}

/// The first user with the given identifier, if any.
pub open spec fn spec_get_user(users: Seq<User>, id: u128) -> Option<User>
    decreases users.len(),
{
    if users.len() == 0 {
        None
    } else if users[0].id == id {
        Some(users[0])
    } else {
        spec_get_user(users.drop_first(), id)
    }
}

/// The user collection with every entry carrying the given identifier
/// removed; the order of the remaining entries is kept.
pub open spec fn remove_user(users: Seq<User>, id: u128) -> Seq<User>
    decreases users.len(),
{
    if users.len() == 0 {
        Seq::empty()
    } else {
        let prefix = remove_user(users.drop_last(), id);
        if users.last().id == id {
            prefix
        } else {
            prefix.push(users.last())
        }
    }
}

/// The in-memory store, the single authority over the three collections.
pub struct AppState {
    pub users: Vec<User>,
    pub projects: Vec<Project>,
    pub tasks: Vec<Task>,
    /// Every identifier the store has ever handed out, in order of issue.
    /// Entries are never removed, so a deleted identifier is never reissued.
    pub issued: Vec<u128>,
}

impl AppState {
    /// Well-formedness: identifiers are unique within each collection, and
    /// every identifier present in a collection has been recorded as issued.
    pub open spec fn wf(self) -> bool {
        &&& distinct_ids(user_ids(self.users@))
        &&& distinct_ids(project_ids(self.projects@))
        &&& distinct_ids(task_ids(self.tasks@))
        &&& forall|i: int| 0 <= i < self.users@.len()
                ==> self.issued@.contains(#[trigger] self.users@[i].id)
        &&& forall|i: int| 0 <= i < self.projects@.len()
                ==> self.issued@.contains(#[trigger] self.projects@[i].id)
        &&& forall|i: int| 0 <= i < self.tasks@.len()
                ==> self.issued@.contains(#[trigger] self.tasks@[i].id)
    }

    /// An empty store.
    pub fn new() -> (s: AppState)
        ensures
            s.wf(),
            s.users@.len() == 0,
            s.projects@.len() == 0,
            s.tasks@.len() == 0,
            s.issued@.len() == 0,
    {
        AppState { users: Vec::new(), projects: Vec::new(), tasks: Vec::new(), issued: Vec::new() }
    }

    /// Snapshot copy of the user collection, in insertion order.
    pub fn list_users(&self) -> (r: Vec<User>)
        ensures
            r@ == self.users@,
    {
        let mut out: Vec<User> = Vec::new();
        let mut i: usize = 0;
        while i < self.users.len()
            invariant
                i <= self.users@.len(),
                out@ == self.users@.take(i as int),
            decreases self.users@.len() - i,
        {
            out.push(clone_user(&self.users[i]));
            proof {
                assert(self.users@.take(i + 1) =~= self.users@.take(i as int).push(self.users@[i as int]));
            }
            i += 1;
        }
        proof {
            assert(self.users@.take(self.users@.len() as int) =~= self.users@);
        }
        out
    }

    /// Snapshot copy of the project collection, in insertion order.
    pub fn list_projects(&self) -> (r: Vec<Project>)
        ensures
            r@ == self.projects@,
    {
        let mut out: Vec<Project> = Vec::new();
        let mut i: usize = 0;
        while i < self.projects.len()
            invariant
                i <= self.projects@.len(),
                out@ == self.projects@.take(i as int),
            decreases self.projects@.len() - i,
        {
            out.push(clone_project(&self.projects[i]));
            proof {
                assert(self.projects@.take(i + 1) =~= self.projects@.take(i as int).push(self.projects@[i as int]));
            }
            i += 1;
        }
        proof {
            assert(self.projects@.take(self.projects@.len() as int) =~= self.projects@);
        }
        out
    }

    /// Snapshot copy of the task collection, in insertion order.
    pub fn list_tasks(&self) -> (r: Vec<Task>)
        ensures
            r@ == self.tasks@,
    {
        let mut out: Vec<Task> = Vec::new();
        let mut i: usize = 0;
        while i < self.tasks.len()
            invariant
                i <= self.tasks@.len(),
                out@ == self.tasks@.take(i as int),
            decreases self.tasks@.len() - i,
        {
            out.push(clone_task(&self.tasks[i]));
            proof {
                assert(self.tasks@.take(i + 1) =~= self.tasks@.take(i as int).push(self.tasks@[i as int]));
            }
            i += 1;
        }
        proof {
            assert(self.tasks@.take(self.tasks@.len() as int) =~= self.tasks@);
        }
        out
    }
}

/// Whether the identifier pool rules candidate `j` out: it is already
/// recorded, or it is the one value the caller asked to avoid.
spec fn candidate_taken(ids: Seq<u128>, avoid: u128, j: int) -> bool {
    ids.contains(j as u128) || j as u128 == avoid
}

/// Linear scan for an identifier.
fn contains_id(ids: &Vec<u128>, x: u128) -> (found: bool)
    ensures
        found == ids@.contains(x),
{
    let mut i: usize = 0;
    while i < ids.len()
        invariant
            i <= ids@.len(),
            forall|j: int| 0 <= j < i ==> ids@[j] != x,
        decreases ids@.len() - i,
    {
        if ids[i] == x {
            return true;
        }
        i += 1;
    }
    false
}

/// Pigeonhole: among the first `ids.len() + 2` small numbers there is always
/// one that is neither recorded in `ids` nor equal to `avoid`, because those
/// two rule out at most `ids.len() + 1` values.
proof fn lemma_free_candidate_exists(ids: Seq<u128>, avoid: u128)
    requires
        ids.len() < 0xffff_ffff_ffff_ffff_ffff_ffff_ffff_ffff,
    ensures
        exists|j: int| 0 <= j < ids.len() + 2 && !#[trigger] candidate_taken(ids, avoid, j),
{
    broadcast use vstd::set::group_set_axioms;
    broadcast use vstd::seq_lib::seq_to_set_is_finite;

    let m = ids.len() as int + 2;
    if !(exists|j: int| 0 <= j < m && !#[trigger] candidate_taken(ids, avoid, j)) {
        let mapped = ids.map_values(|x: u128| x as int);
        let pool = mapped.to_set().insert(avoid as int);
        mapped.lemma_cardinality_of_set();
        assert(pool.finite());
        assert(pool.len() <= ids.len() + 1);
        assert forall|j: int| set_int_range(0, m).contains(j) implies pool.contains(j) by {
            assert(candidate_taken(ids, avoid, j));
            if ids.contains(j as u128) {
                let k = choose|k: int| 0 <= k < ids.len() && ids[k] == j as u128;
                assert(mapped[k] == j);
                assert(mapped.contains(j));
            } else {
                assert(j as u128 == avoid);
                assert(avoid as int == j);
            }
        }
        lemma_int_range(0, m);
        lemma_len_subset(set_int_range(0, m), pool);
        assert(m <= pool.len());
    }
}

/// Pushing a value onto a sequence adds exactly that value to what the
/// sequence contains.
proof fn lemma_push_contains<A>(s: Seq<A>, v: A, x: A)
    ensures
        s.push(v).contains(x) <==> (s.contains(x) || x == v),
{
    if s.contains(x) {
        let k = choose|k: int| 0 <= k < s.len() && s[k] == x;
        assert(s.push(v)[k] == x);
    }
    if x == v {
        assert(s.push(v)[s.len() as int] == x);
    }
    if s.push(v).contains(x) {
        let k = choose|k: int| 0 <= k < s.push(v).len() && s.push(v)[k] == x;
        if k < s.len() {
            assert(s[k] == x);
        }
    }
}

impl AppState {
    /// Hand out an identifier that was never issued before and differs from
    /// `avoid`, and record it. A random draw is tried first; if it is taken,
    /// a free value is found among the small numbers, which the pigeonhole
    /// argument guarantees to exist.
    fn alloc_id(&mut self, avoid: u128) -> (id: u128)
        ensures
            !old(self).issued@.contains(id),
            id != avoid,
            final(self).issued@ == old(self).issued@.push(id),
            final(self).users@ == old(self).users@,
            final(self).projects@ == old(self).projects@,
            final(self).tasks@ == old(self).tasks@,
    {
        let r = fresh_raw_id();
        if r != avoid && !contains_id(&self.issued, r) {
            self.issued.push(r);
            return r;
        }
        let n: u128 = self.issued.len() as u128;
        let mut c: u128 = 0;
        while c < n + 2
            invariant
                *self == *old(self),
                n == self.issued@.len(),
                n <= 0xffff_ffff_ffff_ffff,
                c <= n + 2,
                forall|j: int| 0 <= j < c ==> #[trigger] candidate_taken(self.issued@, avoid, j),
            decreases n + 2 - c,
        {
            if c != avoid && !contains_id(&self.issued, c) {
                self.issued.push(c);
                return c;
            }
            proof {
                assert(candidate_taken(self.issued@, avoid, c as int));
            }
            c = c + 1;
        }
        proof {
            lemma_free_candidate_exists(self.issued@, avoid);
            let j = choose|j: int| 0 <= j < self.issued@.len() + 2
                && !#[trigger] candidate_taken(self.issued@, avoid, j);
            assert(candidate_taken(self.issued@, avoid, j));
        }
        0
    }

    /// Append a user. The candidate's identifier is ignored: the stored copy
    /// carries a freshly issued identifier, unique against everything the
    /// store ever handed out and distinct from the candidate's own.
    pub fn create_user(&mut self, candidate: User) -> (stored: User)
        requires
            old(self).wf(),
        ensures
            final(self).wf(),
            final(self).users@ == old(self).users@.push(stored),
            final(self).projects@ == old(self).projects@,
            final(self).tasks@ == old(self).tasks@,
            final(self).issued@ == old(self).issued@.push(stored.id),
            old(self).issued@.is_prefix_of(final(self).issued@),
            final(self).issued@.contains(stored.id),
            stored.id != candidate.id,
            !old(self).issued@.contains(stored.id),
            forall|i: int| 0 <= i < old(self).users@.len() ==> old(self).users@[i].id != stored.id,
            stored.name == candidate.name,
            stored.email == candidate.email,
    {
        let id = self.alloc_id(candidate.id);
        let stored = User { id, name: candidate.name, email: candidate.email };
        let copy = clone_user(&stored);
        self.users.push(copy);
        proof {
            let old_users = old(self).users@;
            let old_issued = old(self).issued@;
            assert(user_ids(self.users@) =~= user_ids(old_users).push(id));
            assert forall|i: int| 0 <= i < old_users.len() implies old_users[i].id != id by {
                assert(old_issued.contains(old_users[i].id));
            }
            assert(distinct_ids(user_ids(self.users@))) by {
                assert(forall|i: int| 0 <= i < old_users.len()
                    ==> user_ids(old_users)[i] == old_users[i].id);
            }
            assert forall|i: int| 0 <= i < self.users@.len()
                implies self.issued@.contains(#[trigger] self.users@[i].id) by {
                if i < old_users.len() {
                    lemma_push_contains(old_issued, id, old_users[i].id);
                } else {
                    lemma_push_contains(old_issued, id, id);
                }
            }
            assert forall|i: int| 0 <= i < self.projects@.len()
                implies self.issued@.contains(#[trigger] self.projects@[i].id) by {
                lemma_push_contains(old_issued, id, self.projects@[i].id);
            }
            assert forall|i: int| 0 <= i < self.tasks@.len()
                implies self.issued@.contains(#[trigger] self.tasks@[i].id) by {
                lemma_push_contains(old_issued, id, self.tasks@[i].id);
            }
            assert(old_issued.is_prefix_of(self.issued@)) by {
                assert(old_issued =~= self.issued@.subrange(0, old_issued.len() as int));
            }
            assert(self.issued@[old_issued.len() as int] == id);
        }
        stored
    }

    /// Append a project under a freshly issued identifier; all other fields
    /// are taken from the candidate. The owner reference is stored as given,
    /// never validated.
    pub(crate) fn add_project(&mut self, candidate: Project) -> (stored: Project)
        requires
            old(self).wf(),
        ensures
            final(self).wf(),
            final(self).projects@ == old(self).projects@.push(stored),
            final(self).users@ == old(self).users@,
            final(self).tasks@ == old(self).tasks@,
            final(self).issued@ == old(self).issued@.push(stored.id),
            old(self).issued@.is_prefix_of(final(self).issued@),
            !old(self).issued@.contains(stored.id),
            stored.name == candidate.name,
            stored.description == candidate.description,
            stored.start_date == candidate.start_date,
            stored.end_date == candidate.end_date,
            stored.owner_id == candidate.owner_id,
    {
        let id = self.alloc_id(candidate.id);
        let stored = Project {
            id,
            name: candidate.name,
            description: candidate.description,
            start_date: candidate.start_date,
            end_date: candidate.end_date,
            owner_id: candidate.owner_id,
        };
        let copy = clone_project(&stored);
        self.projects.push(copy);
        proof {
            let old_projects = old(self).projects@;
            let old_issued = old(self).issued@;
            assert(project_ids(self.projects@) =~= project_ids(old_projects).push(id));
            assert forall|i: int| 0 <= i < old_projects.len() implies old_projects[i].id != id by {
                assert(old_issued.contains(old_projects[i].id));
            }
            assert(distinct_ids(project_ids(self.projects@))) by {
                assert(forall|i: int| 0 <= i < old_projects.len()
                    ==> project_ids(old_projects)[i] == old_projects[i].id);
            }
            assert forall|i: int| 0 <= i < self.projects@.len()
                implies self.issued@.contains(#[trigger] self.projects@[i].id) by {
                if i < old_projects.len() {
                    lemma_push_contains(old_issued, id, old_projects[i].id);
                } else {
                    lemma_push_contains(old_issued, id, id);
                }
            }
            assert forall|i: int| 0 <= i < self.users@.len()
                implies self.issued@.contains(#[trigger] self.users@[i].id) by {
                lemma_push_contains(old_issued, id, self.users@[i].id);
            }
            assert forall|i: int| 0 <= i < self.tasks@.len()
                implies self.issued@.contains(#[trigger] self.tasks@[i].id) by {
                lemma_push_contains(old_issued, id, self.tasks@[i].id);
            }
            assert(old_issued.is_prefix_of(self.issued@)) by {
                assert(old_issued =~= self.issued@.subrange(0, old_issued.len() as int));
            }
        }
        stored
    }

    /// Append a task under a freshly issued identifier; all other fields are
    /// taken from the candidate. The project and assignee references are
    /// stored as given, never validated.
    pub(crate) fn add_task(&mut self, candidate: Task) -> (stored: Task)
        requires
            old(self).wf(),
        ensures
            final(self).wf(),
            final(self).tasks@ == old(self).tasks@.push(stored),
            final(self).users@ == old(self).users@,
            final(self).projects@ == old(self).projects@,
            final(self).issued@ == old(self).issued@.push(stored.id),
            old(self).issued@.is_prefix_of(final(self).issued@),
            !old(self).issued@.contains(stored.id),
            stored.title == candidate.title,
            stored.description == candidate.description,
            stored.due_date == candidate.due_date,
            stored.status == candidate.status,
            stored.priority == candidate.priority,
            stored.project_id == candidate.project_id,
            stored.assigned_to_id == candidate.assigned_to_id,
    {
        let id = self.alloc_id(candidate.id);
        let stored = Task {
            id,
            title: candidate.title,
            description: candidate.description,
            due_date: candidate.due_date,
            status: candidate.status,
            priority: candidate.priority,
            project_id: candidate.project_id,
            assigned_to_id: candidate.assigned_to_id,
        };
        let copy = clone_task(&stored);
        self.tasks.push(copy);
        proof {
            let old_tasks = old(self).tasks@;
            let old_issued = old(self).issued@;
            assert(task_ids(self.tasks@) =~= task_ids(old_tasks).push(id));
            assert forall|i: int| 0 <= i < old_tasks.len() implies old_tasks[i].id != id by {
                assert(old_issued.contains(old_tasks[i].id));
            }
            assert(distinct_ids(task_ids(self.tasks@))) by {
                assert(forall|i: int| 0 <= i < old_tasks.len()
                    ==> task_ids(old_tasks)[i] == old_tasks[i].id);
            }
            assert forall|i: int| 0 <= i < self.tasks@.len()
                implies self.issued@.contains(#[trigger] self.tasks@[i].id) by {
                if i < old_tasks.len() {
                    lemma_push_contains(old_issued, id, old_tasks[i].id);
                } else {
                    lemma_push_contains(old_issued, id, id);
                }
            }
            assert forall|i: int| 0 <= i < self.users@.len()
                implies self.issued@.contains(#[trigger] self.users@[i].id) by {
                lemma_push_contains(old_issued, id, self.users@[i].id);
            }
            assert forall|i: int| 0 <= i < self.projects@.len()
                implies self.issued@.contains(#[trigger] self.projects@[i].id) by {
                lemma_push_contains(old_issued, id, self.projects@[i].id);
            }
            assert(old_issued.is_prefix_of(self.issued@)) by {
                assert(old_issued =~= self.issued@.subrange(0, old_issued.len() as int));
            }
        }
        stored
    }

    /// Look a user up by identifier; a copy of the first (and, in a
    /// well-formed store, only) match, or `None`.
    pub fn get_user(&self, id: u128) -> (r: Option<User>)
        ensures
            r == spec_get_user(self.users@, id),
    {
        let mut i: usize = 0;
        while i < self.users.len()
            invariant
                i <= self.users@.len(),
                forall|j: int| 0 <= j < i ==> self.users@[j].id != id,
            decreases self.users@.len() - i,
        {
            if self.users[i].id == id {
                proof {
                    lemma_get_user_first(self.users@, id, i as int);
                }
                return Some(clone_user(&self.users[i]));
            }
            i += 1;
        }
        proof {
            lemma_get_user_none(self.users@, id);
        }
        None
    }

    /// Remove every user with the given identifier (at most one, in a
    /// well-formed store). Projects and tasks are untouched even where they
    /// reference the removed user, and the identifier stays recorded as
    /// issued, so it is never handed out again.
    pub fn delete_user(&mut self, id: u128) -> (outcome: DeleteOutcome)
        requires
            old(self).wf(),
        ensures
            final(self).wf(),
            final(self).users@ == remove_user(old(self).users@, id),
            final(self).projects@ == old(self).projects@,
            final(self).tasks@ == old(self).tasks@,
            final(self).issued@ == old(self).issued@,
            old(self).issued@.is_prefix_of(final(self).issued@),
            (outcome == DeleteOutcome::Deleted) <==> (exists|i: int|
                0 <= i < old(self).users@.len() && old(self).users@[i].id == id),
            (outcome == DeleteOutcome::Deleted) <==> !(outcome == DeleteOutcome::NotFound),
    {
        let mut kept: Vec<User> = Vec::new();
        let mut i: usize = 0;
        while i < self.users.len()
            invariant
                *self == *old(self),
                i <= self.users@.len(),
                kept@ == remove_user(self.users@.take(i as int), id),
            decreases self.users@.len() - i,
        {
            proof {
                assert(self.users@.take(i + 1).drop_last() =~= self.users@.take(i as int));
                assert(self.users@.take(i + 1).last() == self.users@[i as int]);
            }
            if self.users[i].id != id {
                kept.push(clone_user(&self.users[i]));
            }
            i += 1;
        }
        proof {
            assert(self.users@.take(self.users@.len() as int) =~= self.users@);
        }
        let deleted = kept.len() < self.users.len();
        self.users = kept;
        proof {
            let orig = old(self).users@;
            lemma_remove_user_props(orig, id);
            lemma_remove_user_distinct(orig, id);
            assert forall|j: int| 0 <= j < self.users@.len()
                implies self.issued@.contains(#[trigger] self.users@[j].id) by {
                let e = self.users@[j];
                assert(orig.contains(e));
                let k = choose|k: int| 0 <= k < orig.len() && orig[k] == e;
                assert(self.issued@.contains(orig[k].id));
            }
            assert(old(self).issued@.is_prefix_of(self.issued@)) by {
                assert(old(self).issued@ =~= self.issued@.subrange(0, old(self).issued@.len() as int));
            }
        }
        if deleted {
            DeleteOutcome::Deleted
        } else {
            DeleteOutcome::NotFound
        }
    }
}

proof fn lemma_get_user_none(users: Seq<User>, id: u128)
    requires
        forall|j: int| 0 <= j < users.len() ==> users[j].id != id,
    ensures
        spec_get_user(users, id) is None,
    decreases users.len(),
{
    if users.len() > 0 {
        assert(forall|j: int| 0 <= j < users.drop_first().len()
            ==> users.drop_first()[j] == users[j + 1]);
        lemma_get_user_none(users.drop_first(), id);
    }
}

proof fn lemma_get_user_first(users: Seq<User>, id: u128, i: int)
    requires
        0 <= i < users.len(),
        users[i].id == id,
        forall|j: int| 0 <= j < i ==> users[j].id != id,
    ensures
        spec_get_user(users, id) == Some(users[i]),
    decreases i,
{
    if i > 0 {
        assert(forall|j: int| 0 <= j < users.drop_first().len()
            ==> users.drop_first()[j] == users[j + 1]);
        lemma_get_user_first(users.drop_first(), id, i - 1);
    }
}

/// What `remove_user` keeps: only entries of the original collection, none
/// carrying the removed identifier, no more than there were; and it keeps
/// them all exactly when no entry carried that identifier.
proof fn lemma_remove_user_props(users: Seq<User>, id: u128)
    ensures
        remove_user(users, id).len() <= users.len(),
        forall|j: int| 0 <= j < remove_user(users, id).len()
            ==> users.contains(#[trigger] remove_user(users, id)[j]),
        forall|j: int| 0 <= j < remove_user(users, id).len()
            ==> (#[trigger] remove_user(users, id)[j]).id != id,
        (remove_user(users, id).len() == users.len()) <==> (forall|i: int|
            0 <= i < users.len() ==> users[i].id != id),
    decreases users.len(),
{
    if users.len() > 0 {
        let prefix = users.drop_last();
        lemma_remove_user_props(prefix, id);
        assert forall|j: int| 0 <= j < remove_user(prefix, id).len()
            implies users.contains(#[trigger] remove_user(prefix, id)[j]) by {
            let e = remove_user(prefix, id)[j];
            let k = choose|k: int| 0 <= k < prefix.len() && prefix[k] == e;
            assert(users[k] == e);
        }
        assert(users.contains(users.last())) by {
            assert(users[users.len() - 1] == users.last());
        }
        if users.last().id == id {
            assert(remove_user(users, id).len() < users.len());
            assert(users[users.len() - 1].id == id);
        } else {
            assert(forall|i: int| 0 <= i < prefix.len() ==> prefix[i] == users[i]);
        }
    }
}

/// Removing a user keeps the remaining identifiers distinct.
proof fn lemma_remove_user_distinct(users: Seq<User>, id: u128)
    requires
        distinct_ids(user_ids(users)),
    ensures
        distinct_ids(user_ids(remove_user(users, id))),
    decreases users.len(),
{
    if users.len() > 0 {
        let prefix = users.drop_last();
        assert(user_ids(prefix) =~= user_ids(users).drop_last());
        assert(forall|i: int| 0 <= i < users.len() ==> user_ids(users)[i] == users[i].id);
        lemma_remove_user_distinct(prefix, id);
        if users.last().id != id {
            lemma_remove_user_props(prefix, id);
            let kept = remove_user(prefix, id).push(users.last());
            assert forall|i: int, j: int| 0 <= i < j < kept.len()
                implies user_ids(kept)[i] != user_ids(kept)[j] by {
                assert(user_ids(kept)[i] == kept[i].id);
                assert(user_ids(kept)[j] == kept[j].id);
                if j < kept.len() - 1 {
                    assert(user_ids(remove_user(prefix, id))[i] == kept[i].id);
                    assert(user_ids(remove_user(prefix, id))[j] == kept[j].id);
                } else {
                    let e = kept[i];
                    assert(prefix.contains(e));
                    let k = choose|k: int| 0 <= k < prefix.len() && prefix[k] == e;
                    assert(prefix[k] == users[k]);
                    assert(users.last() == users[users.len() - 1]);
                    assert(user_ids(users)[k] == users[k].id);
                    assert(user_ids(users)[users.len() - 1] == users[users.len() - 1].id);
                    assert(user_ids(users)[k] != user_ids(users)[users.len() - 1]);
                }
            }
        }
    }
}

/// Law: the identifier returned by one `create_user` call is never returned
/// by a later one. After the first call its result is recorded as issued;
/// every store operation only extends that record; and a later call returns
/// an identifier not recorded at its start.
pub proof fn lemma_created_ids_distinct(
    issued_after_first: Seq<u128>,
    issued_at_second: Seq<u128>,
    first_id: u128,
    second_id: u128,
)
    requires
        issued_after_first.is_prefix_of(issued_at_second),
        issued_after_first.contains(first_id),
        !issued_at_second.contains(second_id),
    ensures
        first_id != second_id,
{
    let k = choose|k: int| 0 <= k < issued_after_first.len() && issued_after_first[k] == first_id;
    assert(issued_at_second[k] == first_id);
}

/// Law: looking up the identifier returned by `create_user` right after the
/// call yields exactly the stored record.
pub proof fn lemma_create_then_get(users: Seq<User>, stored: User)
    requires
        forall|i: int| 0 <= i < users.len() ==> users[i].id != stored.id,
    ensures
        spec_get_user(users.push(stored), stored.id) == Some(stored),
{
    assert(forall|j: int| 0 <= j < users.len() ==> users.push(stored)[j] == users[j]);
    lemma_get_user_first(users.push(stored), stored.id, users.len() as int);
}

/// Law: looking an identifier up right after deleting it signals not-found.
pub proof fn lemma_delete_then_get(users: Seq<User>, id: u128)
    ensures
        spec_get_user(remove_user(users, id), id) is None,
{
    lemma_remove_user_props(users, id);
    lemma_get_user_none(remove_user(users, id), id);
}

} // verus!

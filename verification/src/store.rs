//! The task store: the repository contract the orchestrator runs against.
//!
//! Rows live in creation order with strictly increasing ids, as an
//! auto-increment primary key gives them.  Every operation is specified
//! element-wise over the sequence of task views, and the store keeps two
//! invariants at all times: ids are unique and below the next id to be
//! handed out, and no durable log exceeds [`LOG_CAP`] characters.

use vstd::prelude::*;
use vstd::pervasive::VecAdditionalExecFns;
use vstd::string::StrSliceExecFns;
use vstd::string::StringExecFns;
use crate::state::TaskState;
use crate::state::spec_is_running;
use crate::task::CreateTask;
use crate::task::Task;
use crate::task::TaskV;
use crate::task::spec_family_root;
use crate::task::spec_opt_int;
use crate::task::spec_opt_view;
use crate::task::tv;

verus! {

/// Upper bound on the durable log of one task, in characters.  When an
/// append would exceed it, only the newest `LOG_CAP` characters are kept.
pub const LOG_CAP: usize = 100000;

/// The one failure kind the store reports; callers do not distinguish
/// sub-cases.
#[derive(Clone, Copy, Debug, PartialEq, Eq, Structural)]
pub struct StorageError;

/// The durable log of `t` is within the cap.
pub open spec fn spec_log_ok(t: TaskV) -> bool {
    match t.build_log {
        Some(l) => l.len() <= LOG_CAP,
        None => true,
    }
}

/// The view of an optional borrowed string.
pub open spec fn spec_opt_str_view(s: Option<&str>) -> Option<Seq<char>> {
    match s {
        Some(v) => Some(v@),
        None => None,
    }
}

/// Rows a store may be rebuilt from: strictly increasing positive ids
/// below `next_id`, every durable log within the cap.
pub open spec fn spec_rows_well_formed(rows: Seq<TaskV>, next_id: int) -> bool {
    &&& 1 <= next_id <= i64::MAX
    &&& forall|p: int, q: int| 0 <= p < q < rows.len() ==> rows[p].id < rows[q].id
    &&& forall|p: int| 0 <= p < rows.len() ==> 1 <= (#[trigger] rows[p]).id && rows[p].id < next_id
    &&& forall|p: int| 0 <= p < rows.len() ==> spec_log_ok(#[trigger] rows[p])
}

/// Some stored task carries this id.
pub open spec fn spec_has_id(tasks: Seq<TaskV>, id: int) -> bool {
    exists|i: int| 0 <= i < tasks.len() && tasks[i].id == id
}

/// The position of the task with this id (meaningful under `spec_has_id`).
pub open spec fn spec_index_of_id(tasks: Seq<TaskV>, id: int) -> int {
    choose|i: int| 0 <= i < tasks.len() && tasks[i].id == id
}

/// The task is `Pending` on `server` and belongs to a parent.
pub open spec fn spec_pending_child_on(t: TaskV, server: Seq<char>) -> bool {
    t.state == TaskState::Pending && t.parent_id is Some && t.server == server
}

/// The task is `Pending` on `server` and stands alone.
pub open spec fn spec_pending_single_on(t: TaskV, server: Seq<char>) -> bool {
    t.state == TaskState::Pending && t.parent_id is None && t.server == server
}

/// Queue order among pending children: parent id first, then id.
pub open spec fn spec_child_order_le(a: TaskV, b: TaskV) -> bool {
    spec_family_root(a) < spec_family_root(b)
        || (spec_family_root(a) == spec_family_root(b) && a.id <= b.id)
}

/// The task occupies `server`: it sits there in a non-terminal,
/// non-`Pending` state.
pub open spec fn spec_running_on(t: TaskV, server: Seq<char>) -> bool {
    t.server == server && spec_is_running(t.state)
}

/// Some stored task occupies `server`.
pub open spec fn spec_has_running(tasks: Seq<TaskV>, server: Seq<char>) -> bool {
    exists|i: int| 0 <= i < tasks.len() && spec_running_on(#[trigger] tasks[i], server)
}

/// Number of stored tasks that occupy `server`.
pub open spec fn spec_running_count(tasks: Seq<TaskV>, server: Seq<char>) -> int
    decreases tasks.len(),
{
    if tasks.len() == 0 {
        0
    } else {
        spec_running_count(tasks.drop_last(), server) + if spec_running_on(
            tasks.last(),
            server,
        ) {
            1int
        } else {
            0int
        }
    }
}

/// Number of stored tasks that occupy any server.
pub open spec fn spec_orphan_count(tasks: Seq<TaskV>) -> int
    decreases tasks.len(),
{
    if tasks.len() == 0 {
        0
    } else {
        spec_orphan_count(tasks.drop_last()) + if spec_is_running(tasks.last().state) {
            1int
        } else {
            0int
        }
    }
}

/// The view sequence of a stored row sequence.
pub open spec fn spec_views(tasks: Seq<Task>) -> Seq<TaskV> {
    tasks.map_values(|t: Task| tv(t))
}

/// The record `create` makes from the caller's fields: state `Pending`, the
/// given creation stamp, empty artifact locations, no log yet.
pub open spec fn spec_created_task(c: CreateTask, start_time: Seq<char>, id: int) -> TaskV {
    TaskV {
        id: id,
        start_time: start_time,
        end_time: None,
        branch_name: c.branch@,
        oem_name: c.oem_name@,
        commit_id: c.commit_id@,
        pkg_flag: c.pkg_flag@,
        is_signed: c.is_signed,
        is_increment: c.is_increment,
        storage_path: Seq::<char>::empty(),
        installer: Seq::<char>::empty(),
        state: TaskState::Pending,
        server: c.server@,
        parent_id: spec_opt_int(c.parent_id),
        architecture: spec_opt_view(c.architecture),
        build_log: None,
        installer_format: spec_opt_view(c.installer_format),
    }
}

/// `t` after `update_state(id, st, commit)`: untouched unless it carries
/// `id`, in which case its state becomes `st` and, when a commit hash is
/// supplied, its commit hash becomes that value.
pub open spec fn spec_with_state(t: TaskV, id: int, st: TaskState, commit: Option<Seq<char>>) -> TaskV {
    if t.id == id {
        (TaskV {
            state: st,
            commit_id: match commit {
                Some(cm) => cm,
                None => t.commit_id,
            },
            ..t
        })
    } else {
        t
    }
}

/// `t` after `update_completion`: untouched unless it carries `id`, in which
/// case it enters `Success` with the given end time, artifact locations and
/// optional commit hash.
pub open spec fn spec_with_completion(
    t: TaskV,
    id: int,
    end_time: Seq<char>,
    storage_path: Seq<char>,
    installer: Seq<char>,
    commit: Option<Seq<char>>,
) -> TaskV {
    if t.id == id {
        (TaskV {
            state: TaskState::Success,
            end_time: Some(end_time),
            storage_path: storage_path,
            installer: installer,
            commit_id: match commit {
                Some(cm) => cm,
                None => t.commit_id,
            },
            ..t
        })
    } else {
        t
    }
}

/// With strictly increasing positive ids, the id at position `i` is at
/// least `i + 1`.
pub proof fn lemma_id_lower_bound(tasks: Seq<TaskV>, i: int)
    requires
        forall|p: int, q: int| 0 <= p < q < tasks.len() ==> tasks[p].id < tasks[q].id,
        forall|p: int| 0 <= p < tasks.len() ==> 1 <= #[trigger] tasks[p].id,
        0 <= i < tasks.len(),
    ensures
        tasks[i].id >= i + 1,
    decreases i,
{
    if i > 0 {
        lemma_id_lower_bound(tasks, i - 1);
    }
}

/// In-memory task store meeting the repository contract.
pub struct TaskStore {
    tasks: Vec<Task>,
    next_id: i64,
}

impl View for TaskStore {
    type V = Seq<TaskV>;

    /// The stored rows in creation order, as mathematical values.
    closed spec fn view(&self) -> Seq<TaskV> {
        spec_views(self.tasks@)
    }
}

impl TaskStore {
    /// The id the next created task will receive.
    pub closed spec fn spec_next_id(&self) -> int {
        self.next_id as int
    }

    /// Well-formedness: ids strictly increase in storage order, stay below
    /// the next id, and every durable log respects the cap.
    pub open spec fn inv(&self) -> bool {
        &&& 1 <= self.spec_next_id() <= i64::MAX
        &&& forall|i: int, j: int| 0 <= i < j < self@.len() ==> self@[i].id < self@[j].id
        &&& forall|i: int|
            0 <= i < self@.len() ==> 1 <= #[trigger] self@[i].id && self@[i].id
                < self.spec_next_id()
        &&& forall|i: int| 0 <= i < self@.len() ==> spec_log_ok(#[trigger] self@[i])
    }

    /// Ids are unique: two distinct positions never carry the same id.
    pub proof fn lemma_ids_unique(&self)
        requires
            self.inv(),
        ensures
            forall|i: int, j: int|
                0 <= i < self@.len() && 0 <= j < self@.len() && i != j ==> self@[i].id
                    != self@[j].id,
    {
    }

    /// An empty store.
    pub fn new() -> (r: Self)
        ensures
            r.inv(),
            r@ == Seq::<TaskV>::empty(),
            r.spec_next_id() == 1,
    {
        let r = TaskStore { tasks: Vec::new(), next_id: 1 };
        proof {
            assert(r@ =~= Seq::<TaskV>::empty());
        }
        r
    }

    /// Inserts a new `Pending` task with the given creation stamp and
    /// returns its id, one above every id handed out before.  Fails only
    /// when the id space is exhausted.
    pub fn create(&mut self, c: &CreateTask, start_time: &str) -> (r: Result<i64, StorageError>)
        requires
            old(self).inv(),
        ensures
            final(self).inv(),
            match r {
                Ok(id) => {
                    &&& old(self).spec_next_id() < i64::MAX
                    &&& id == old(self).spec_next_id()
                    &&& final(self)@ == old(self)@.push(
                        spec_created_task(*c, start_time@, id as int),
                    )
                    &&& final(self).spec_next_id() == id + 1
                },
                Err(_) => {
                    &&& old(self).spec_next_id() == i64::MAX
                    &&& final(self)@ == old(self)@
                    &&& final(self).spec_next_id() == old(self).spec_next_id()
                },
            },
    {
        if self.next_id == i64::MAX {
            return Err(StorageError);
        }
        let id = self.next_id;
        self.next_id = id + 1;
        let t = Task {
            id,
            start_time: start_time.to_owned(),
            end_time: None,
            branch_name: c.branch.clone(),
            oem_name: c.oem_name.clone(),
            commit_id: c.commit_id.clone(),
            pkg_flag: c.pkg_flag.clone(),
            is_signed: c.is_signed,
            is_increment: c.is_increment,
            storage_path: String::new(),
            installer: String::new(),
            state: TaskState::Pending,
            server: c.server.clone(),
            parent_id: c.parent_id,
            architecture: crate::task::clone_opt_string(&c.architecture),
            build_log: None,
            installer_format: crate::task::clone_opt_string(&c.installer_format),
        };
        proof {
            assert(tv(t) == spec_created_task(*c, start_time@, id as int));
        }
        self.tasks.push(t);
        proof {
            assert(self@ =~= old(self)@.push(spec_created_task(*c, start_time@, id as int)));
        }
        Ok(id)
    }

    /// Looks a task up by id; `None` exactly when no row carries the id.
    pub fn find(&self, id: i64) -> (r: Option<Task>)
        requires
            self.inv(),
        ensures
            match r {
                Some(t) => spec_has_id(self@, id as int) && tv(t) == self@[spec_index_of_id(
                    self@,
                    id as int,
                )],
                None => !spec_has_id(self@, id as int),
            },
    {
        let n = self.tasks.len();
        let mut i: usize = 0;
        while i < n
            invariant
                self.inv(),
                n == self@.len(),
                i <= n,
                forall|j: int| 0 <= j < i ==> self@[j].id != id,
            decreases n - i,
        {
            if self.tasks[i].id == id {
                proof {
                    self.lemma_ids_unique();
                    assert(self@[i as int].id == id);
                    assert(spec_has_id(self@, id as int));
                    assert(spec_index_of_id(self@, id as int) == i as int);
                }
                return Some(self.tasks[i].clone());
            }
            i = i + 1;
        }
        None
    }

    /// Sets the state of the task with this id, and its commit hash when one
    /// is supplied; a missing id leaves the store unchanged.
    pub fn update_state(&mut self, id: i64, st: TaskState, commit: Option<&str>)
        requires
            old(self).inv(),
        ensures
            final(self).inv(),
            final(self).spec_next_id() == old(self).spec_next_id(),
            final(self)@.len() == old(self)@.len(),
            forall|i: int|
                0 <= i < old(self)@.len() ==> #[trigger] final(self)@[i] == spec_with_state(
                    old(self)@[i],
                    id as int,
                    st,
                    spec_opt_str_view(commit),
                ),
    {
        let n = self.tasks.len();
        let mut i: usize = 0;
        while i < n
            invariant
                old(self).inv(),
                n == old(self)@.len(),
                self.spec_next_id() == old(self).spec_next_id(),
                self@.len() == old(self)@.len(),
                i <= n,
                forall|j: int|
                    0 <= j < i ==> #[trigger] self@[j] == spec_with_state(
                        old(self)@[j],
                        id as int,
                        st,
                        spec_opt_str_view(commit),
                    ),
                forall|j: int| i <= j < n ==> #[trigger] self@[j] == old(self)@[j],
            decreases n - i,
        {
            if self.tasks[i].id == id {
                let mut t = self.tasks[i].clone();
                proof {
                    assert(tv(t) == self@[i as int]);
                    assert(self@[i as int] == old(self)@[i as int]);
                }
                t.state = st;
                if let Some(cm) = commit {
                    t.commit_id = cm.to_owned();
                }
                proof {
                    assert(tv(t) == spec_with_state(
                        old(self)@[i as int],
                        id as int,
                        st,
                        spec_opt_str_view(commit),
                    ));
                }
                let ghost pre = self@;
                self.tasks.set(i, t);
                proof {
                    assert forall|j: int| 0 <= j < n && j != i as int implies self@[j] == pre[j] by {
                        assert(self@[j] == tv(self.tasks@[j]));
                    }
                    assert(self@[i as int] == tv(t));
                    assert forall|j: int| 0 <= j < i + 1 implies self@[j] == spec_with_state(
                        old(self)@[j],
                        id as int,
                        st,
                        spec_opt_str_view(commit),
                    ) by {
                        if j < i as int {
                            assert(self@[j] == pre[j]);
                            assert(pre[j] == spec_with_state(
                                old(self)@[j],
                                id as int,
                                st,
                                spec_opt_str_view(commit),
                            ));
                        }
                    }
                    assert forall|j: int| i + 1 <= j < n implies self@[j] == old(self)@[j] by {
                        assert(self@[j] == pre[j]);
                        assert(pre[j] == old(self)@[j]);
                    }
                }
            } else {
                proof {
                    assert(self@[i as int] == tv(self.tasks@[i as int]));
                    assert(old(self)@[i as int].id != id as int);
                }
            }
            i = i + 1;
        }
    }

    /// Records a successful completion: end time, artifact locations, the
    /// optional commit hash, and state `Success`.
    #[verifier::rlimit(50)]
    pub fn update_completion(
        &mut self,
        id: i64,
        end_time: &str,
        storage_path: &str,
        installer: &str,
        commit: Option<&str>,
    )
        requires
            old(self).inv(),
        ensures
            final(self).inv(),
            final(self).spec_next_id() == old(self).spec_next_id(),
            final(self)@.len() == old(self)@.len(),
            forall|i: int|
                0 <= i < old(self)@.len() ==> #[trigger] final(self)@[i] == spec_with_completion(
                    old(self)@[i],
                    id as int,
                    end_time@,
                    storage_path@,
                    installer@,
                    spec_opt_str_view(commit),
                ),
    {
        let n = self.tasks.len();
        let mut i: usize = 0;
        while i < n
            invariant
                old(self).inv(),
                n == old(self)@.len(),
                self.spec_next_id() == old(self).spec_next_id(),
                self@.len() == old(self)@.len(),
                i <= n,
                forall|j: int|
                    0 <= j < i ==> #[trigger] self@[j] == spec_with_completion(
                        old(self)@[j],
                        id as int,
                        end_time@,
                        storage_path@,
                        installer@,
                        spec_opt_str_view(commit),
                    ),
                forall|j: int| i <= j < n ==> #[trigger] self@[j] == old(self)@[j],
            decreases n - i,
        {
            if self.tasks[i].id == id {
                let mut t = self.tasks[i].clone();
                proof {
                    assert(tv(t) == self@[i as int]);
                    assert(self@[i as int] == old(self)@[i as int]);
                }
                t.state = TaskState::Success;
                t.end_time = Some(end_time.to_owned());
                t.storage_path = storage_path.to_owned();
                t.installer = installer.to_owned();
                if let Some(cm) = commit {
                    t.commit_id = cm.to_owned();
                }
                proof {
                    assert(tv(t) == spec_with_completion(
                        old(self)@[i as int],
                        id as int,
                        end_time@,
                        storage_path@,
                        installer@,
                        spec_opt_str_view(commit),
                    ));
                }
                let ghost pre = self@;
                self.tasks.set(i, t);
                proof {
                    assert forall|j: int| 0 <= j < n && j != i as int implies self@[j] == pre[j] by {
                        assert(self@[j] == tv(self.tasks@[j]));
                    }
                    assert(self@[i as int] == tv(t));
                    assert forall|j: int| 0 <= j < i + 1 implies self@[j] == spec_with_completion(
                        old(self)@[j],
                        id as int,
                        end_time@,
                        storage_path@,
                        installer@,
                        spec_opt_str_view(commit),
                    ) by {
                        if j < i as int {
                            assert(self@[j] == pre[j]);
                            assert(pre[j] == spec_with_completion(
                                old(self)@[j],
                                id as int,
                                end_time@,
                                storage_path@,
                                installer@,
                                spec_opt_str_view(commit),
                            ));
                        }
                    }
                    assert forall|j: int| i + 1 <= j < n implies self@[j] == old(self)@[j] by {
                        assert(self@[j] == pre[j]);
                        assert(pre[j] == old(self)@[j]);
                    }
                }
            } else {
                proof {
                    assert(self@[i as int] == tv(self.tasks@[i as int]));
                    assert(old(self)@[i as int].id != id as int);
                }
            }
            i = i + 1;
        }
    }

    /// Whether some task occupies `server`.  `Pending` tasks wait in the
    /// queue and do not count.
    pub fn has_running(&self, server: &str) -> (r: bool)
        requires
            self.inv(),
        ensures
            r == spec_has_running(self@, server@),
    {
        let n = self.tasks.len();
        let mut i: usize = 0;
        while i < n
            invariant
                self.inv(),
                n == self@.len(),
                i <= n,
                forall|j: int| 0 <= j < i ==> !spec_running_on(#[trigger] self@[j], server@),
            decreases n - i,
        {
            if crate::text::str_eq_str(self.tasks[i].server.as_str(), server)
                && self.tasks[i].state.is_running() {
                proof {
                    assert(spec_running_on(self@[i as int], server@));
                }
                return true;
            }
            i = i + 1;
        }
        false
    }

    /// How many tasks occupy `server`; used as the queue position shown to
    /// a caller whose submission has to wait.
    #[verifier::rlimit(50)]
    pub fn running_count(&self, server: &str) -> (r: i64)
        requires
            self.inv(),
        ensures
            0 <= r,
            r as int == spec_running_count(self@, server@),
    {
        let n = self.tasks.len();
        let mut i: usize = 0;
        let mut count: i64 = 0;
        proof {
            assert(self@.subrange(0, 0) =~= Seq::<TaskV>::empty());
            if n > 0 {
                lemma_id_lower_bound(self@, n - 1);
            }
        }
        while i < n
            invariant
                self.inv(),
                n == self@.len(),
                i <= n,
                n < i64::MAX,
                0 <= count <= i,
                count as int == spec_running_count(self@.subrange(0, i as int), server@),
            decreases n - i,
        {
            proof {
                assert(self@.subrange(0, i + 1).drop_last() =~= self@.subrange(0, i as int));
                assert(self@.subrange(0, i + 1).last() == self@[i as int]);
            }
            if crate::text::str_eq_str(self.tasks[i].server.as_str(), server)
                && self.tasks[i].state.is_running() {
                count = count + 1;
            }
            i = i + 1;
        }
        proof {
            assert(self@.subrange(0, n as int) =~= self@);
        }
        count
    }
}

/// Membership in the family rooted at `root`: the root row itself or any
/// row whose parent is the root.
pub open spec fn spec_in_family(t: TaskV, root: int) -> bool {
    t.id == root || t.parent_id == Some(root)
}

/// `t` after `update_family_commit`: its commit hash becomes `commit` when
/// it belongs to the family rooted at `root`.
pub open spec fn spec_with_family_commit(t: TaskV, root: int, commit: Seq<char>) -> TaskV {
    if spec_in_family(t, root) {
        (TaskV { commit_id: commit, ..t })
    } else {
        t
    }
}

/// The durable log after appending `line`: a newline joins it to any
/// earlier text, and only the newest [`LOG_CAP`] characters survive.
pub open spec fn spec_appended_log(old_log: Option<Seq<char>>, line: Seq<char>) -> Seq<char> {
    let full = match old_log {
        Some(l) => l + seq!['\n'] + line,
        None => line,
    };
    if full.len() <= LOG_CAP {
        full
    } else {
        full.subrange(full.len() - LOG_CAP, full.len() as int)
    }
}

/// `t` after `append_log(id, line)`: untouched unless it carries `id`.
pub open spec fn spec_with_log(t: TaskV, id: int, line: Seq<char>) -> TaskV {
    if t.id == id {
        (TaskV { build_log: Some(spec_appended_log(t.build_log, line)), ..t })
    } else {
        t
    }
}

/// `t` after `reset_orphaned`: a task caught in a non-terminal,
/// non-`Pending` state fails with the given end time; all others stand.
pub open spec fn spec_reset(t: TaskV, now: Seq<char>) -> TaskV {
    if spec_is_running(t.state) {
        (TaskV { state: TaskState::Failed, end_time: Some(now), ..t })
    } else {
        t
    }
}

/// The rows that `delete(id)` keeps: everything outside the family of `id`.
pub open spec fn spec_keep_pred(id: int) -> spec_fn(TaskV) -> bool {
    |t: TaskV| !spec_in_family(t, id)
}

/// The child predicate used by `children(parent_id)`.
pub open spec fn spec_child_pred(parent: int) -> spec_fn(TaskV) -> bool {
    |t: TaskV| t.parent_id == Some(parent)
}

/// Every child of `parent` has reached or passed `BuildingChrome`, and
/// there is at least one child; the fan-in gate for the combine step.
pub open spec fn spec_all_children_past_chrome(tasks: Seq<TaskV>, parent: int) -> bool {
    &&& exists|i: int| 0 <= i < tasks.len() && (#[trigger] tasks[i]).parent_id == Some(parent)
    &&& forall|i: int|
        0 <= i < tasks.len() && (#[trigger] tasks[i]).parent_id == Some(parent)
            ==> crate::state::spec_past_chrome(tasks[i].state)
}

/// Display order of the task list: newest family first, then ascending id
/// inside a family.
pub open spec fn spec_list_le(a: TaskV, b: TaskV) -> bool {
    spec_family_root(a) > spec_family_root(b) || (spec_family_root(a) == spec_family_root(b)
        && a.id <= b.id)
}

/// The display order relates every pair one way or the other.
pub proof fn lemma_list_le_connected(a: TaskV, b: TaskV)
    ensures
        spec_list_le(a, b) || spec_list_le(b, a),
{
}

/// The display order is transitive.
pub proof fn lemma_list_le_trans(a: TaskV, b: TaskV, c: TaskV)
    requires
        spec_list_le(a, b),
        spec_list_le(b, c),
    ensures
        spec_list_le(a, c),
{
}

/// Inserting an element anywhere adds exactly it to the multiset of the
/// sequence.
pub proof fn lemma_insert_to_multiset<A>(s: Seq<A>, k: int, x: A)
    requires
        0 <= k <= s.len(),
    ensures
        s.insert(k, x).to_multiset() =~= s.to_multiset().insert(x),
{
    broadcast use vstd::seq_lib::group_to_multiset_ensures;

    let a = s.subrange(0, k);
    let b = s.subrange(k, s.len() as int);
    assert(s =~= a + b);
    assert(s.insert(k, x) =~= a.push(x) + b);
    vstd::seq_lib::lemma_multiset_commutative(a, b);
    vstd::seq_lib::lemma_multiset_commutative(a.push(x), b);
    assert(a.push(x).to_multiset() =~= a.to_multiset().insert(x));
    assert(a.to_multiset().insert(x).add(b.to_multiset()) =~= a.to_multiset().add(
        b.to_multiset(),
    ).insert(x));
}

impl TaskStore {
    /// The number of stored rows.
    pub fn task_count(&self) -> (r: usize)
        ensures
            r == self@.len(),
    {
        self.tasks.len()
    }

    /// The id the next created task will receive, without creating one.
    pub fn peek_next_id(&self) -> (r: i64)
        ensures
            r as int == self.spec_next_id(),
    {
        self.next_id
    }

    /// The id of the row at position `i`.
    pub fn id_of_at(&self, i: usize) -> (r: i64)
        requires
            i < self@.len(),
        ensures
            r as int == self@[i as int].id,
    {
        proof {
            assert(self@[i as int] == tv(self.tasks@[i as int]));
        }
        self.tasks[i].id
    }

    /// The parent id of the row at position `i`.
    pub fn parent_of_at(&self, i: usize) -> (r: Option<i64>)
        requires
            i < self@.len(),
        ensures
            spec_opt_int(r) == self@[i as int].parent_id,
    {
        proof {
            assert(self@[i as int] == tv(self.tasks@[i as int]));
        }
        self.tasks[i].parent_id
    }

    /// The state of the row at position `i`.
    pub fn state_of_at(&self, i: usize) -> (r: TaskState)
        requires
            i < self@.len(),
        ensures
            r == self@[i as int].state,
    {
        proof {
            assert(self@[i as int] == tv(self.tasks@[i as int]));
        }
        self.tasks[i].state
    }

    /// Every stored row, in storage order.
    pub fn rows(&self) -> (r: Vec<Task>)
        ensures
            spec_views(r@) == self@,
    {
        let n = self.tasks.len();
        let mut out: Vec<Task> = Vec::new();
        let mut i: usize = 0;
        proof {
            assert(spec_views(out@) =~= self@.subrange(0, 0));
        }
        while i < n
            invariant
                n == self@.len(),
                i <= n,
                spec_views(out@) == self@.subrange(0, i as int),
            decreases n - i,
        {
            let ghost pre = spec_views(out@);
            out.push(self.tasks[i].clone());
            proof {
                assert(self@[i as int] == tv(self.tasks@[i as int]));
                assert(spec_views(out@) =~= pre.push(self@[i as int]));
                assert(spec_views(out@) =~= self@.subrange(0, i + 1));
            }
            i = i + 1;
        }
        proof {
            assert(self@.subrange(0, n as int) =~= self@);
        }
        out
    }

    /// Rebuilds a store from persisted rows.  The rows must be well formed
    /// as this store keeps them — strictly increasing positive ids below
    /// `next_id`, every durable log within the cap — or nothing is built;
    /// `Ok` exactly when they are.
    pub fn from_rows(rows: Vec<Task>, next_id: i64) -> (r: Result<TaskStore, StorageError>)
        ensures
            match r {
                Ok(s) => {
                    &&& s.inv()
                    &&& s@ == spec_views(rows@)
                    &&& s.spec_next_id() == next_id
                    &&& spec_rows_well_formed(spec_views(rows@), next_id as int)
                },
                Err(_) => !spec_rows_well_formed(spec_views(rows@), next_id as int),
            },
    {
        if next_id < 1 {
            return Err(StorageError);
        }
        let n = rows.len();
        let mut i: usize = 0;
        while i < n
            invariant
                n == rows@.len(),
                i <= n,
                1 <= next_id,
                forall|p: int, q: int|
                    0 <= p < q < i ==> spec_views(rows@)[p].id < spec_views(rows@)[q].id,
                forall|p: int|
                    0 <= p < i ==> 1 <= (#[trigger] spec_views(rows@)[p]).id && spec_views(
                        rows@,
                    )[p].id < next_id,
                forall|p: int| 0 <= p < i ==> spec_log_ok(#[trigger] spec_views(rows@)[p]),
            decreases n - i,
        {
            proof {
                assert(spec_views(rows@)[i as int] == tv(rows@[i as int]));
            }
            let row = &rows[i];
            if row.id < 1 || row.id >= next_id {
                return Err(StorageError);
            }
            if i > 0 {
                proof {
                    assert(spec_views(rows@)[i - 1] == tv(rows@[i - 1]));
                }
                if rows[i - 1].id >= row.id {
                    return Err(StorageError);
                }
            }
            if let Some(log) = &row.build_log {
                if log.as_str().unicode_len() > LOG_CAP {
                    return Err(StorageError);
                }
            }
            proof {
                assert forall|p: int, q: int|
                    0 <= p < q < i + 1 implies spec_views(rows@)[p].id < spec_views(
                    rows@,
                )[q].id by {
                    if q == i as int && p < i - 1 {
                        assert(spec_views(rows@)[p].id < spec_views(rows@)[i - 1].id);
                    }
                }
            }
            i = i + 1;
        }
        let store = TaskStore { tasks: rows, next_id };
        Ok(store)
    }

    /// Position of the row carrying `id`, if one does.
    fn index_of(&self, id: i64) -> (r: Option<usize>)
        requires
            self.inv(),
        ensures
            match r {
                Some(ix) => ix < self@.len() && self@[ix as int].id == id && spec_index_of_id(
                    self@,
                    id as int,
                ) == ix as int,
                None => !spec_has_id(self@, id as int),
            },
    {
        let n = self.tasks.len();
        let mut i: usize = 0;
        while i < n
            invariant
                self.inv(),
                n == self@.len(),
                i <= n,
                forall|j: int| 0 <= j < i ==> self@[j].id != id,
            decreases n - i,
        {
            if self.tasks[i].id == id {
                proof {
                    self.lemma_ids_unique();
                    assert(self@[i as int].id == id);
                    assert(spec_has_id(self@, id as int));
                    assert(spec_index_of_id(self@, id as int) == i as int);
                }
                return Some(i);
            }
            i = i + 1;
        }
        None
    }

    /// Writes `commit` to the whole family of the task carrying `id`: the
    /// family root and all of the root's children, in one step.  Fails
    /// exactly when no row carries `id`.
    pub fn update_family_commit(&mut self, id: i64, commit: &str) -> (r: Result<
        (),
        StorageError,
    >)
        requires
            old(self).inv(),
        ensures
            final(self).inv(),
            final(self).spec_next_id() == old(self).spec_next_id(),
            final(self)@.len() == old(self)@.len(),
            match r {
                Ok(()) => spec_has_id(old(self)@, id as int) && forall|i: int|
                    0 <= i < old(self)@.len() ==> #[trigger] final(self)@[i]
                        == spec_with_family_commit(
                        old(self)@[i],
                        spec_family_root(old(self)@[spec_index_of_id(old(self)@, id as int)]),
                        commit@,
                    ),
                Err(_) => !spec_has_id(old(self)@, id as int) && final(self)@ == old(self)@,
            },
    {
        let ix = match self.index_of(id) {
            Some(ix) => ix,
            None => {
                return Err(StorageError);
            },
        };
        let root: i64 = match self.tasks[ix].parent_id {
            Some(p) => p,
            None => id,
        };
        let ghost root_spec = spec_family_root(old(self)@[spec_index_of_id(old(self)@, id as int)]);
        proof {
            assert(self@[ix as int] == tv(self.tasks@[ix as int]));
            assert(root as int == root_spec);
        }
        let n = self.tasks.len();
        let mut i: usize = 0;
        while i < n
            invariant
                old(self).inv(),
                n == old(self)@.len(),
                root as int == root_spec,
                self.spec_next_id() == old(self).spec_next_id(),
                self@.len() == old(self)@.len(),
                i <= n,
                forall|j: int|
                    0 <= j < i ==> #[trigger] self@[j] == spec_with_family_commit(
                        old(self)@[j],
                        root_spec,
                        commit@,
                    ),
                forall|j: int| i <= j < n ==> #[trigger] self@[j] == old(self)@[j],
            decreases n - i,
        {
            let in_family = self.tasks[i].id == root || match self.tasks[i].parent_id {
                Some(p) => p == root,
                None => false,
            };
            proof {
                assert(self@[i as int] == tv(self.tasks@[i as int]));
                assert(in_family == spec_in_family(old(self)@[i as int], root_spec));
            }
            if in_family {
                let mut t = self.tasks[i].clone();
                proof {
                    assert(tv(t) == old(self)@[i as int]);
                }
                t.commit_id = commit.to_owned();
                proof {
                    assert(tv(t) == spec_with_family_commit(
                        old(self)@[i as int],
                        root_spec,
                        commit@,
                    ));
                }
                let ghost pre = self@;
                self.tasks.set(i, t);
                proof {
                    assert forall|j: int| 0 <= j < n && j != i as int implies self@[j] == pre[j] by {
                        assert(self@[j] == tv(self.tasks@[j]));
                    }
                    assert(self@[i as int] == tv(t));
                    assert forall|j: int|
                        0 <= j < i + 1 implies self@[j] == spec_with_family_commit(
                        old(self)@[j],
                        root_spec,
                        commit@,
                    ) by {
                        if j < i as int {
                            assert(self@[j] == pre[j]);
                        }
                    }
                    assert forall|j: int| i + 1 <= j < n implies self@[j] == old(self)@[j] by {
                        assert(self@[j] == pre[j]);
                    }
                }
            }
            i = i + 1;
        }
        Ok(())
    }

    /// All children of `parent_id`, in ascending id order.
    pub fn children(&self, parent_id: i64) -> (r: Vec<Task>)
        requires
            self.inv(),
        ensures
            spec_views(r@) == self@.filter(spec_child_pred(parent_id as int)),
    {
        let n = self.tasks.len();
        let mut out: Vec<Task> = Vec::new();
        let mut i: usize = 0;
        proof {
            reveal(Seq::filter);
            assert(self@.subrange(0, 0) =~= Seq::<TaskV>::empty());
            assert(spec_views(out@) =~= Seq::<TaskV>::empty().filter(
                spec_child_pred(parent_id as int),
            ));
        }
        while i < n
            invariant
                self.inv(),
                n == self@.len(),
                i <= n,
                spec_views(out@) == self@.subrange(0, i as int).filter(
                    spec_child_pred(parent_id as int),
                ),
            decreases n - i,
        {
            let ghost pred = spec_child_pred(parent_id as int);
            proof {
                reveal(Seq::filter);
                assert(self@.subrange(0, i + 1).drop_last() =~= self@.subrange(0, i as int));
                assert(self@.subrange(0, i + 1).last() == self@[i as int]);
                assert(self@[i as int] == tv(self.tasks@[i as int]));
            }
            let is_child = match self.tasks[i].parent_id {
                Some(p) => p == parent_id,
                None => false,
            };
            if is_child {
                let t = self.tasks[i].clone();
                out.push(t);
                proof {
                    assert(spec_views(out@) =~= self@.subrange(0, i + 1).filter(pred));
                }
            } else {
                proof {
                    assert(spec_views(out@) =~= self@.subrange(0, i + 1).filter(pred));
                }
            }
            i = i + 1;
        }
        proof {
            assert(self@.subrange(0, n as int) =~= self@);
        }
        out
    }

    /// True exactly when `parent_id` has at least one child and every child
    /// has reached or passed `BuildingChrome`.
    pub fn all_children_past_chrome(&self, parent_id: i64) -> (r: bool)
        requires
            self.inv(),
        ensures
            r == spec_all_children_past_chrome(self@, parent_id as int),
    {
        let n = self.tasks.len();
        let mut i: usize = 0;
        let mut has_child = false;
        let mut all_past = true;
        while i < n
            invariant
                self.inv(),
                n == self@.len(),
                i <= n,
                has_child == exists|j: int|
                    0 <= j < i && (#[trigger] self@[j]).parent_id == Some(parent_id as int),
                all_past == forall|j: int|
                    0 <= j < i && (#[trigger] self@[j]).parent_id == Some(parent_id as int)
                        ==> crate::state::spec_past_chrome(self@[j].state),
            decreases n - i,
        {
            proof {
                assert(self@[i as int] == tv(self.tasks@[i as int]));
            }
            let is_child = match self.tasks[i].parent_id {
                Some(p) => p == parent_id,
                None => false,
            };
            if is_child {
                has_child = true;
                if !self.tasks[i].state.past_chrome() {
                    all_past = false;
                }
            }
            i = i + 1;
        }
        has_child && all_past
    }

    /// Appends `line` to the durable log of the task carrying `id`, joined
    /// with a newline, keeping at most the newest [`LOG_CAP`] characters; a
    /// missing id leaves the store unchanged.
    pub fn append_log(&mut self, id: i64, line: &str)
        requires
            old(self).inv(),
        ensures
            final(self).inv(),
            final(self).spec_next_id() == old(self).spec_next_id(),
            final(self)@.len() == old(self)@.len(),
            forall|i: int|
                0 <= i < old(self)@.len() ==> #[trigger] final(self)@[i] == spec_with_log(
                    old(self)@[i],
                    id as int,
                    line@,
                ),
    {
        let ix = match self.index_of(id) {
            Some(ix) => ix,
            None => {
                return ;
            },
        };
        let mut t = self.tasks[ix].clone();
        proof {
            assert(self@[ix as int] == tv(self.tasks@[ix as int]));
            assert(tv(t) == old(self)@[ix as int]);
        }
        let full: String = match &t.build_log {
            Some(l) => {
                let mut f = l.clone();
                f.append("\n");
                f.append(line);
                proof {
                    reveal_strlit("\n");
                    assert("\n"@ =~= seq!['\n']);
                }
                f
            },
            None => {
                let f = line.to_owned();
                f
            },
        };
        let ghost full_spec = match tv(t).build_log {
            Some(l) => l + seq!['\n'] + line@,
            None => line@,
        };
        proof {
            assert(full@ == full_spec);
        }
        let len = full.as_str().unicode_len();
        let capped: String = if len > LOG_CAP {
            full.as_str().substring_char(len - LOG_CAP, len).to_owned()
        } else {
            full
        };
        proof {
            assert(capped@ == spec_appended_log(tv(t).build_log, line@));
        }
        t.build_log = Some(capped);
        proof {
            assert(tv(t) == spec_with_log(old(self)@[ix as int], id as int, line@));
        }
        let ghost pre = self@;
        self.tasks.set(ix, t);
        proof {
            old(self).lemma_ids_unique();
            assert forall|j: int| 0 <= j < pre.len() && j != ix as int implies self@[j]
                == pre[j] by {
                assert(self@[j] == tv(self.tasks@[j]));
            }
            assert(self@[ix as int] == tv(t));
            assert forall|j: int|
                0 <= j < old(self)@.len() implies #[trigger] self@[j] == spec_with_log(
                old(self)@[j],
                id as int,
                line@,
            ) by {
                if j != ix as int {
                    assert(old(self)@[j].id != id);
                }
            }
        }
    }

    /// The durable log of the task carrying `id`, when the row exists and
    /// has one.
    pub fn get_build_log(&self, id: i64) -> (r: Option<String>)
        requires
            self.inv(),
        ensures
            crate::task::spec_opt_view(r) == (if spec_has_id(self@, id as int) {
                self@[spec_index_of_id(self@, id as int)].build_log
            } else {
                None::<Seq<char>>
            }),
    {
        match self.index_of(id) {
            Some(ix) => {
                proof {
                    assert(self@[ix as int] == tv(self.tasks@[ix as int]));
                }
                crate::task::clone_opt_string(&self.tasks[ix].build_log)
            },
            None => None,
        }
    }

    /// On startup, fails every task caught in a non-terminal, non-`Pending`
    /// state, stamping the given end time, and reports how many there were.
    /// Afterwards no task is in such a state.
    pub fn reset_orphaned(&mut self, now: &str) -> (r: i64)
        requires
            old(self).inv(),
        ensures
            final(self).inv(),
            final(self).spec_next_id() == old(self).spec_next_id(),
            final(self)@.len() == old(self)@.len(),
            forall|i: int|
                0 <= i < old(self)@.len() ==> #[trigger] final(self)@[i] == spec_reset(
                    old(self)@[i],
                    now@,
                ),
            r as int == spec_orphan_count(old(self)@),
            forall|i: int|
                0 <= i < final(self)@.len() ==> !spec_is_running(
                    (#[trigger] final(self)@[i]).state,
                ),
    {
        let n = self.tasks.len();
        let mut i: usize = 0;
        let mut count: i64 = 0;
        proof {
            assert(old(self)@.subrange(0, 0) =~= Seq::<TaskV>::empty());
            if n > 0 {
                lemma_id_lower_bound(self@, n - 1);
            }
        }
        while i < n
            invariant
                old(self).inv(),
                n == old(self)@.len(),
                n < i64::MAX,
                self.spec_next_id() == old(self).spec_next_id(),
                self@.len() == old(self)@.len(),
                i <= n,
                0 <= count <= i,
                count as int == spec_orphan_count(old(self)@.subrange(0, i as int)),
                forall|j: int|
                    0 <= j < i ==> #[trigger] self@[j] == spec_reset(old(self)@[j], now@),
                forall|j: int| i <= j < n ==> #[trigger] self@[j] == old(self)@[j],
            decreases n - i,
        {
            proof {
                assert(old(self)@.subrange(0, i + 1).drop_last() =~= old(self)@.subrange(
                    0,
                    i as int,
                ));
                assert(old(self)@.subrange(0, i + 1).last() == old(self)@[i as int]);
                assert(self@[i as int] == tv(self.tasks@[i as int]));
            }
            if self.tasks[i].state.is_running() {
                let mut t = self.tasks[i].clone();
                proof {
                    assert(tv(t) == old(self)@[i as int]);
                }
                t.state = TaskState::Failed;
                t.end_time = Some(now.to_owned());
                proof {
                    assert(tv(t) == spec_reset(old(self)@[i as int], now@));
                }
                let ghost pre = self@;
                self.tasks.set(i, t);
                count = count + 1;
                proof {
                    assert forall|j: int| 0 <= j < n && j != i as int implies self@[j]
                        == pre[j] by {
                        assert(self@[j] == tv(self.tasks@[j]));
                    }
                    assert(self@[i as int] == tv(t));
                    assert forall|j: int| 0 <= j < i + 1 implies self@[j] == spec_reset(
                        old(self)@[j],
                        now@,
                    ) by {
                        if j < i as int {
                            assert(self@[j] == pre[j]);
                        }
                    }
                    assert forall|j: int| i + 1 <= j < n implies self@[j] == old(self)@[j] by {
                        assert(self@[j] == pre[j]);
                    }
                }
            }
            i = i + 1;
        }
        proof {
            assert(old(self)@.subrange(0, n as int) =~= old(self)@);
        }
        count
    }

    /// Removes the task carrying `id` and, with it, every task whose parent
    /// it is.  Everything else stays, in order.
    pub fn delete(&mut self, id: i64)
        requires
            old(self).inv(),
        ensures
            final(self).inv(),
            final(self).spec_next_id() == old(self).spec_next_id(),
            final(self)@ == old(self)@.filter(spec_keep_pred(id as int)),
    {
        let ghost pred = spec_keep_pred(id as int);
        let n = self.tasks.len();
        let mut out: Vec<Task> = Vec::new();
        let mut i: usize = 0;
        proof {
            reveal(Seq::filter);
            assert(self@.subrange(0, 0) =~= Seq::<TaskV>::empty());
            assert(spec_views(out@) =~= Seq::<TaskV>::empty().filter(pred));
        }
        while i < n
            invariant
                old(self).inv(),
                self == old(self),
                n == self@.len(),
                i <= n,
                pred == spec_keep_pred(id as int),
                spec_views(out@) == self@.subrange(0, i as int).filter(pred),
            decreases n - i,
        {
            proof {
                reveal(Seq::filter);
                assert(self@.subrange(0, i + 1).drop_last() =~= self@.subrange(0, i as int));
                assert(self@.subrange(0, i + 1).last() == self@[i as int]);
                assert(self@[i as int] == tv(self.tasks@[i as int]));
            }
            let in_family = self.tasks[i].id == id || match self.tasks[i].parent_id {
                Some(p) => p == id,
                None => false,
            };
            proof {
                assert(in_family == spec_in_family(self@[i as int], id as int));
            }
            if !in_family {
                let ghost pre_out = spec_views(out@);
                out.push(self.tasks[i].clone());
                proof {
                    assert(spec_views(out@) =~= pre_out.push(self@[i as int]));
                    assert(spec_views(out@) =~= self@.subrange(0, i + 1).filter(pred));
                }
            } else {
                proof {
                    assert(spec_views(out@) =~= self@.subrange(0, i + 1).filter(pred));
                }
            }
            i = i + 1;
        }
        proof {
            assert(self@.subrange(0, n as int) =~= self@);
        }
        let ghost pre_views = self@;
        self.tasks = out;
        proof {
            assert(self@ == pre_views.filter(pred));
            assert forall|p: int, q: int| 0 <= p < q < self@.len() implies self@[p].id
                < self@[q].id by {
                lemma_filter_keeps_order(pre_views, pred, p, q);
                let (jp, jq): (int, int) = choose|jp: int, jq: int|
                    0 <= jp < jq < pre_views.len() && #[trigger] pre_views[jp] == pre_views.filter(
                        pred,
                    )[p] && #[trigger] pre_views[jq] == pre_views.filter(pred)[q];
                assert(pre_views[jp].id < pre_views[jq].id);
            }
            assert forall|p: int| 0 <= p < self@.len() implies 1 <= (#[trigger] self@[p]).id
                && self@[p].id < self.spec_next_id() && spec_log_ok(self@[p]) by {
                lemma_filter_element_from(pre_views, pred, p);
                let j = choose|j: int|
                    0 <= j < pre_views.len() && #[trigger] pre_views[j] == pre_views.filter(
                        pred,
                    )[p];
                assert(1 <= pre_views[j].id < self.spec_next_id());
                assert(spec_log_ok(pre_views[j]));
            }
        }
    }

    /// The oldest pending child task on `server`, by parent id then id: the
    /// next in line when children are preferred.  `None` exactly when no
    /// pending child waits there.
    pub fn next_pending_child(&self, server: &str) -> (r: Option<i64>)
        requires
            self.inv(),
        ensures
            match r {
                Some(id) => {
                    &&& spec_has_id(self@, id as int)
                    &&& spec_pending_child_on(self@[spec_index_of_id(self@, id as int)], server@)
                    &&& forall|j: int|
                        0 <= j < self@.len() && spec_pending_child_on(#[trigger] self@[j], server@)
                            ==> spec_child_order_le(
                            self@[spec_index_of_id(self@, id as int)],
                            self@[j],
                        )
                },
                None => forall|j: int|
                    0 <= j < self@.len() ==> !spec_pending_child_on(#[trigger] self@[j], server@),
            },
    {
        let n = self.tasks.len();
        let mut i: usize = 0;
        let mut best: Option<usize> = None;
        while i < n
            invariant
                self.inv(),
                n == self@.len(),
                i <= n,
                match best {
                    Some(b) => b < i && spec_pending_child_on(self@[b as int], server@)
                        && forall|j: int|
                        0 <= j < i && spec_pending_child_on(#[trigger] self@[j], server@)
                            ==> spec_child_order_le(self@[b as int], self@[j]),
                    None => forall|j: int|
                        0 <= j < i ==> !spec_pending_child_on(#[trigger] self@[j], server@),
                },
            decreases n - i,
        {
            proof {
                assert(self@[i as int] == tv(self.tasks@[i as int]));
            }
            let is_cand = matches!(self.tasks[i].state, TaskState::Pending)
                && self.tasks[i].parent_id.is_some()
                && crate::text::str_eq_str(self.tasks[i].server.as_str(), server);
            if is_cand {
                let take = match best {
                    None => true,
                    Some(b) => {
                        proof {
                            assert(self@[b as int] == tv(self.tasks@[b as int]));
                        }
                        let cand_root = match self.tasks[i].parent_id {
                            Some(p) => p,
                            None => self.tasks[i].id,
                        };
                        let best_root = match self.tasks[b].parent_id {
                            Some(p) => p,
                            None => self.tasks[b].id,
                        };
                        cand_root < best_root || (cand_root == best_root && self.tasks[i].id
                            < self.tasks[b].id)
                    },
                };
                if take {
                    best = Some(i);
                }
            }
            i = i + 1;
        }
        match best {
            Some(b) => {
                let id = self.tasks[b].id;
                proof {
                    self.lemma_ids_unique();
                    assert(self@[b as int] == tv(self.tasks@[b as int]));
                    assert(spec_has_id(self@, id as int));
                    assert(spec_index_of_id(self@, id as int) == b as int);
                }
                Some(id)
            },
            None => None,
        }
    }

    /// The oldest pending stand-alone task on `server`, by id.  `None`
    /// exactly when no pending single task waits there.
    pub fn next_pending_single(&self, server: &str) -> (r: Option<i64>)
        requires
            self.inv(),
        ensures
            match r {
                Some(id) => {
                    &&& spec_has_id(self@, id as int)
                    &&& spec_pending_single_on(self@[spec_index_of_id(self@, id as int)], server@)
                    &&& forall|j: int|
                        0 <= j < self@.len() && spec_pending_single_on(
                            #[trigger] self@[j],
                            server@,
                        ) ==> self@[spec_index_of_id(self@, id as int)].id <= self@[j].id
                },
                None => forall|j: int|
                    0 <= j < self@.len() ==> !spec_pending_single_on(#[trigger] self@[j], server@),
            },
    {
        let n = self.tasks.len();
        let mut i: usize = 0;
        while i < n
            invariant
                self.inv(),
                n == self@.len(),
                i <= n,
                forall|j: int| 0 <= j < i ==> !spec_pending_single_on(#[trigger] self@[j], server@),
            decreases n - i,
        {
            proof {
                assert(self@[i as int] == tv(self.tasks@[i as int]));
            }
            let is_cand = matches!(self.tasks[i].state, TaskState::Pending)
                && self.tasks[i].parent_id.is_none()
                && crate::text::str_eq_str(self.tasks[i].server.as_str(), server);
            if is_cand {
                let id = self.tasks[i].id;
                proof {
                    self.lemma_ids_unique();
                    assert(spec_has_id(self@, id as int));
                    assert(spec_index_of_id(self@, id as int) == i as int);
                    assert forall|j: int|
                        0 <= j < self@.len() && spec_pending_single_on(
                            #[trigger] self@[j],
                            server@,
                        ) implies self@[i as int].id <= self@[j].id by {
                        if j < i as int {
                            assert(!spec_pending_single_on(self@[j], server@));
                        }
                    }
                }
                return Some(id);
            }
            i = i + 1;
        }
        None
    }

    /// Every task, newest family first and oldest first inside a family,
    /// so a parent immediately precedes its children.
    pub fn list(&self) -> (r: Vec<Task>)
        requires
            self.inv(),
        ensures
            spec_views(r@).to_multiset() == self@.to_multiset(),
            forall|p: int, q: int|
                0 <= p < q < r@.len() ==> spec_list_le(
                    #[trigger] spec_views(r@)[p],
                    #[trigger] spec_views(r@)[q],
                ),
    {
        broadcast use vstd::seq_lib::group_to_multiset_ensures;

        let n = self.tasks.len();
        let mut out: Vec<Task> = Vec::new();
        let mut i: usize = 0;
        proof {
            assert(self@.subrange(0, 0) =~= Seq::<TaskV>::empty());
            assert(spec_views(out@) =~= Seq::<TaskV>::empty());
            assert(Seq::<TaskV>::empty().to_multiset() =~= Seq::<TaskV>::empty().to_multiset());
        }
        while i < n
            invariant
                self.inv(),
                n == self@.len(),
                i <= n,
                spec_views(out@).to_multiset() == self@.subrange(0, i as int).to_multiset(),
                out@.len() == i,
                forall|p: int, q: int|
                    0 <= p < q < out@.len() ==> spec_list_le(
                        #[trigger] spec_views(out@)[p],
                        #[trigger] spec_views(out@)[q],
                    ),
            decreases n - i,
        {
            let t = self.tasks[i].clone();
            proof {
                assert(self@[i as int] == tv(self.tasks@[i as int]));
                assert(tv(t) == self@[i as int]);
            }
            let m = out.len();
            let mut k: usize = 0;
            while k < m && list_le(&out[k], &t)
                invariant
                    m == out@.len(),
                    k <= m,
                    forall|p: int|
                        0 <= p < k ==> spec_list_le(#[trigger] spec_views(out@)[p], tv(t)),
                decreases m - k,
            {
                proof {
                    assert(spec_views(out@)[k as int] == tv(out@[k as int]));
                }
                k = k + 1;
            }
            proof {
                if k < m {
                    assert(spec_views(out@)[k as int] == tv(out@[k as int]));
                    assert(!spec_list_le(spec_views(out@)[k as int], tv(t)));
                    lemma_list_le_connected(spec_views(out@)[k as int], tv(t));
                    assert(spec_list_le(tv(t), spec_views(out@)[k as int]));
                }
            }
            let ghost pre_out = out@;
            out.insert(k, t);
            proof {
                broadcast use vstd::seq_lib::group_to_multiset_ensures;

                assert(out@ == pre_out.insert(k as int, t));
                lemma_insert_to_multiset(spec_views(pre_out), k as int, tv(t));
                assert(spec_views(out@) =~= spec_views(pre_out).insert(k as int, tv(t)));
                assert(self@.subrange(0, i + 1) =~= self@.subrange(0, i as int).push(
                    self@[i as int],
                ));
                assert(spec_views(out@).to_multiset() =~= self@.subrange(0, i + 1).to_multiset());
                let vw = spec_views(out@);
                let pre_vw = spec_views(pre_out);
                assert forall|p: int, q: int| 0 <= p < q < vw.len() implies spec_list_le(
                    #[trigger] vw[p],
                    #[trigger] vw[q],
                ) by {
                    if q < k as int {
                        assert(vw[p] == pre_vw[p] && vw[q] == pre_vw[q]);
                    } else if p < k as int && q == k as int {
                        assert(vw[p] == pre_vw[p] && vw[q] == tv(t));
                    } else if p < k as int && q > k as int {
                        assert(vw[p] == pre_vw[p] && vw[q] == pre_vw[q - 1]);
                    } else if p == k as int {
                        assert(vw[p] == tv(t) && vw[q] == pre_vw[q - 1]);
                        if q - 1 > k as int {
                            lemma_list_le_trans(tv(t), pre_vw[k as int], pre_vw[q - 1]);
                        }
                    } else {
                        assert(vw[p] == pre_vw[p - 1] && vw[q] == pre_vw[q - 1]);
                    }
                }
            }
            i = i + 1;
        }
        proof {
            assert(self@.subrange(0, n as int) =~= self@);
        }
        out
    }
}

/// Display order as executable comparison: `a` comes no later than `b`.
fn list_le(a: &Task, b: &Task) -> (r: bool)
    ensures
        r == spec_list_le(tv(*a), tv(*b)),
{
    let ra = match a.parent_id {
        Some(p) => p,
        None => a.id,
    };
    let rb = match b.parent_id {
        Some(p) => p,
        None => b.id,
    };
    ra > rb || (ra == rb && a.id <= b.id)
}

/// Each element of a filtered sequence comes from the original, and the
/// original order is kept.
pub proof fn lemma_filter_element_from<A>(s: Seq<A>, pred: spec_fn(A) -> bool, p: int)
    requires
        0 <= p < s.filter(pred).len(),
    ensures
        exists|j: int| 0 <= j < s.len() && #[trigger] s[j] == s.filter(pred)[p],
    decreases s.len(),
{
    reveal(Seq::filter);
    if s.len() > 0 {
        let sub = s.drop_last().filter(pred);
        if p < sub.len() {
            lemma_filter_element_from(s.drop_last(), pred, p);
            let j0 = choose|j: int|
                0 <= j < s.drop_last().len() && #[trigger] s.drop_last()[j] == sub[p];
            assert(s[j0] == s.filter(pred)[p]);
        } else {
            assert(s[s.len() - 1] == s.filter(pred)[p]);
        }
    }
}

/// Positions in a filtered sequence come from increasing positions of the
/// original: values at two filtered positions stand at two original
/// positions in the same order.
pub proof fn lemma_filter_keeps_order<A>(s: Seq<A>, pred: spec_fn(A) -> bool, p: int, q: int)
    requires
        0 <= p < q < s.filter(pred).len(),
    ensures
        exists|jp: int, jq: int|
            0 <= jp < jq < s.len() && #[trigger] s[jp] == s.filter(pred)[p] && #[trigger] s[jq]
                == s.filter(pred)[q],
    decreases s.len(),
{
    reveal(Seq::filter);
    if s.len() > 0 {
        let sub = s.drop_last().filter(pred);
        if q < sub.len() {
            lemma_filter_keeps_order(s.drop_last(), pred, p, q);
            let (jp, jq): (int, int) = choose|jp: int, jq: int|
                0 <= jp < jq < s.drop_last().len() && #[trigger] s.drop_last()[jp] == sub[p]
                    && #[trigger] s.drop_last()[jq] == sub[q];
            assert(s[jp] == s.filter(pred)[p] && s[jq] == s.filter(pred)[q]);
        } else {
            lemma_filter_element_from(s.drop_last(), pred, p);
            let jp = choose|j: int|
                0 <= j < s.drop_last().len() && #[trigger] s.drop_last()[j] == sub[p];
            assert(s[jp] == s.filter(pred)[p]);
            assert(s[s.len() - 1] == s.filter(pred)[q]);
        }
    }
}

} // verus!

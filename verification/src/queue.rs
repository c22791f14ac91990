//! Per-server admission and promotion: the scheduling rules of the
//! orchestrator.
//!
//! A submission creates one task, or a parent with one child per requested
//! architecture, all `Pending`.  When the target server is busy the caller
//! is told its queue position; otherwise the next task in line is promoted.
//! At most one task per server is ever in a running state; the lemmas at
//! the end of this file prove that every operation keeps it so.

use vstd::prelude::*;
use vstd::string::StrSliceExecFns;
use vstd::string::StringExecFns;
use crate::error::AppError;
use crate::request::BuildRequest;
use crate::request::spec_valid_request;
use crate::state::TaskState;
use crate::state::spec_is_running;
use crate::store::TaskStore;
use crate::store::spec_has_id;
use crate::store::spec_has_running;
use crate::store::spec_index_of_id;
use crate::store::spec_pending_child_on;
use crate::store::spec_pending_single_on;
use crate::store::spec_child_order_le;
use crate::store::spec_running_count;
use crate::store::spec_with_state;
use crate::task::CreateTask;
use crate::task::TaskV;
use crate::text::spec_dec;

verus! {

/// The display flag of a task: the caller's flag with the architecture tag
/// appended in brackets, or the bare brackets when the flag is empty.
pub open spec fn spec_arch_flag(flag: Seq<char>, arch: Seq<char>) -> Seq<char> {
    if flag.len() == 0 {
        "["@ + arch + "]"@
    } else {
        flag + " ["@ + arch + "]"@
    }
}

/// The requested architecture tags joined with a comma and a space.
pub open spec fn spec_join_comma(items: Seq<Seq<char>>) -> Seq<char>
    decreases items.len(),
{
    if items.len() == 0 {
        Seq::<char>::empty()
    } else if items.len() == 1 {
        items[0]
    } else {
        items[0] + ", "@ + spec_join_comma(items.drop_first())
    }
}

/// The display flag of a parent task: the caller's flag with the joined
/// architecture list in brackets.
pub open spec fn spec_parent_flag(flag: Seq<char>, archs: Seq<Seq<char>>) -> Seq<char> {
    flag + " ["@ + spec_join_comma(archs) + "]"@
}

/// Joining grows one element at a time from the left.
proof fn lemma_join_comma_push(items: Seq<Seq<char>>, x: Seq<char>)
    ensures
        spec_join_comma(items.push(x)) == (if items.len() == 0 {
            x
        } else {
            spec_join_comma(items) + ", "@ + x
        }),
    decreases items.len(),
{
    if items.len() == 0 {
        assert(items.push(x)[0] == x);
        assert(items.push(x).len() == 1);
    } else {
        assert(items.push(x).drop_first() =~= items.drop_first().push(x));
        lemma_join_comma_push(items.drop_first(), x);
        if items.len() == 1 {
            assert(items.drop_first().len() == 0);
            assert(spec_join_comma(items.push(x)) == items[0] + ", "@ + x);
            assert(spec_join_comma(items) == items[0]);
        } else {
            assert(spec_join_comma(items) + ", "@ + x =~= items[0] + ", "@ + (spec_join_comma(
                items.drop_first(),
            ) + ", "@ + x));
        }
    }
}

/// The views of a list of strings.
pub open spec fn spec_string_views(items: Seq<String>) -> Seq<Seq<char>> {
    items.map_values(|s: String| s@)
}

/// Appends the architecture tag in brackets to a display flag.
pub fn arch_flag(flag: &str, arch: &str) -> (r: String)
    ensures
        r@ == spec_arch_flag(flag@, arch@),
{
    let mut s: String = if flag.is_empty() {
        "[".to_owned()
    } else {
        let mut t = flag.to_owned();
        t.append(" [");
        t
    };
    s.append(arch);
    s.append("]");
    proof {
        assert(s@ =~= spec_arch_flag(flag@, arch@));
    }
    s
}

/// Joins strings with a comma and a space.
pub fn join_comma(items: &Vec<String>) -> (r: String)
    ensures
        r@ == spec_join_comma(spec_string_views(items@)),
{
    let n = items.len();
    let mut s = String::new();
    let mut i: usize = 0;
    proof {
        assert(spec_string_views(items@.subrange(0, 0)) =~= Seq::<Seq<char>>::empty());
    }
    while i < n
        invariant
            n == items@.len(),
            i <= n,
            s@ == spec_join_comma(spec_string_views(items@.subrange(0, i as int))),
        decreases n - i,
    {
        proof {
            assert(spec_string_views(items@.subrange(0, i + 1)) =~= spec_string_views(
                items@.subrange(0, i as int),
            ).push(items@[i as int]@));
            lemma_join_comma_push(
                spec_string_views(items@.subrange(0, i as int)),
                items@[i as int]@,
            );
        }
        if i > 0 {
            s.append(", ");
        }
        s.append(items[i].as_str());
        proof {
            if i == 0 {
                assert(spec_string_views(items@.subrange(0, 0)).len() == 0);
                assert(s@ =~= spec_join_comma(spec_string_views(items@.subrange(0, 1))));
            }
        }
        i = i + 1;
    }
    proof {
        assert(items@.subrange(0, n as int) =~= items@);
    }
    s
}

/// What a submission answers: the created task id (the parent's, for a
/// multi-architecture build), whether the build had to queue, the queue
/// position, and the reply text.
#[derive(Debug)]
pub struct SubmitResult {
    pub task_ids: Vec<i64>,
    pub queued: bool,
    pub queue_position: i64,
    pub message: String,
}

/// The reply text of a submission.
pub open spec fn spec_submit_message(single: bool, id: int, queued: bool, pos: int) -> Seq<char> {
    if single && queued {
        "Build task created (task_id: "@ + spec_dec(id) + "), queued and waiting (queue position: "@
            + spec_dec(pos) + ")"@
    } else if single && !queued {
        "Build task started, task_id: "@ + spec_dec(id)
    } else if queued {
        "Parent task "@ + spec_dec(id) + " created with children, queued and waiting (queue position: "@
            + spec_dec(pos) + ")"@
    } else {
        "Parent task "@ + spec_dec(id) + " created, build sequence started"@
    }
}

/// Builds the reply text of a submission.
fn build_submit_message(single: bool, id: i64, queued: bool, pos: i64) -> (r: String)
    requires
        id >= 0,
        pos >= 0,
    ensures
        r@ == spec_submit_message(single, id as int, queued, pos as int),
{
    let id_text = crate::text::i64_to_string(id);
    let pos_text = crate::text::i64_to_string(pos);
    let mut s: String;
    if single && queued {
        s = "Build task created (task_id: ".to_owned();
        s.append(id_text.as_str());
        s.append("), queued and waiting (queue position: ");
        s.append(pos_text.as_str());
        s.append(")");
    } else if single {
        s = "Build task started, task_id: ".to_owned();
        s.append(id_text.as_str());
    } else if queued {
        s = "Parent task ".to_owned();
        s.append(id_text.as_str());
        s.append(" created with children, queued and waiting (queue position: ");
        s.append(pos_text.as_str());
        s.append(")");
    } else {
        s = "Parent task ".to_owned();
        s.append(id_text.as_str());
        s.append(" created, build sequence started");
    }
    proof {
        assert(s@ =~= spec_submit_message(single, id as int, queued, pos as int));
    }
    s
}

/// The row a single-architecture submission creates.
pub open spec fn spec_submitted_single(r: &BuildRequest, start_time: Seq<char>, id: int) -> TaskV {
    TaskV {
        id: id,
        start_time: start_time,
        end_time: None,
        branch_name: r.branch@,
        oem_name: Seq::<char>::empty(),
        commit_id: match r.commit_id {
            Some(c) => c@,
            None => Seq::<char>::empty(),
        },
        pkg_flag: spec_arch_flag(r.pkg_flag@, r.architectures@[0]@),
        is_signed: r.is_signed,
        is_increment: r.is_increment,
        storage_path: Seq::<char>::empty(),
        installer: Seq::<char>::empty(),
        state: TaskState::Pending,
        server: r.server@,
        parent_id: None,
        architecture: Some(r.architectures@[0]@),
        build_log: None,
        installer_format: crate::task::spec_opt_view(r.installer_format),
    }
}

/// The parent row a multi-architecture submission creates: no architecture
/// of its own, the joined list shown in its flag.
pub open spec fn spec_submitted_parent(r: &BuildRequest, start_time: Seq<char>, id: int) -> TaskV {
    TaskV {
        id: id,
        start_time: start_time,
        end_time: None,
        branch_name: r.branch@,
        oem_name: Seq::<char>::empty(),
        commit_id: match r.commit_id {
            Some(c) => c@,
            None => Seq::<char>::empty(),
        },
        pkg_flag: spec_parent_flag(r.pkg_flag@, spec_string_views(r.architectures@)),
        is_signed: r.is_signed,
        is_increment: r.is_increment,
        storage_path: Seq::<char>::empty(),
        installer: Seq::<char>::empty(),
        state: TaskState::Pending,
        server: r.server@,
        parent_id: None,
        architecture: None,
        build_log: None,
        installer_format: crate::task::spec_opt_view(r.installer_format),
    }
}

/// The child row a multi-architecture submission creates for the `k`-th
/// requested architecture.
pub open spec fn spec_submitted_child(
    r: &BuildRequest,
    start_time: Seq<char>,
    parent: int,
    k: int,
    id: int,
) -> TaskV {
    TaskV {
        id: id,
        start_time: start_time,
        end_time: None,
        branch_name: r.branch@,
        oem_name: Seq::<char>::empty(),
        commit_id: match r.commit_id {
            Some(c) => c@,
            None => Seq::<char>::empty(),
        },
        pkg_flag: spec_arch_flag(r.pkg_flag@, r.architectures@[k]@),
        is_signed: r.is_signed,
        is_increment: r.is_increment,
        storage_path: Seq::<char>::empty(),
        installer: Seq::<char>::empty(),
        state: TaskState::Pending,
        server: r.server@,
        parent_id: Some(parent),
        architecture: Some(r.architectures@[k]@),
        build_log: None,
        installer_format: crate::task::spec_opt_view(r.installer_format),
    }
}

/// Rows a submission needs: one for a single architecture, the parent plus
/// one child per architecture otherwise.
pub open spec fn spec_rows_needed(arch_count: int) -> int {
    if arch_count <= 1 {
        1
    } else {
        arch_count + 1
    }
}

/// Handles a build submission: checks the validation gates, creates the
/// task rows in `Pending`, and reports the queue state of the target
/// server.  Nothing is started here; when the answer says the server was
/// idle, the caller follows up with `promote`.
///
/// A single-architecture request creates exactly one row and no parent.  A
/// request with `K >= 2` architectures creates `1 + K` rows: a parent whose
/// flag shows the joined architecture list, then one child per architecture
/// in request order.  The reported queue position is the number of tasks
/// occupying the server at submission time.
#[verifier::rlimit(80)]
pub fn submit(store: &mut TaskStore, req: &BuildRequest, start_time: &str) -> (r: Result<
    SubmitResult,
    AppError,
>)
    requires
        old(store).inv(),
    ensures
        final(store).inv(),
        match r {
            Ok(res) => {
                &&& spec_valid_request(req)
                &&& old(store).spec_next_id() + spec_rows_needed(req.architectures@.len() as int)
                    <= i64::MAX
                &&& {
                    let n0 = old(store)@.len() as int;
                    let next = old(store).spec_next_id();
                    let arch_count = req.architectures@.len() as int;
                    &&& forall|i: int| 0 <= i < n0 ==> final(store)@[i] == old(store)@[i]
                    &&& (if arch_count == 1 {
                        &&& final(store)@.len() == n0 + 1
                        &&& final(store)@[n0] == spec_submitted_single(req, start_time@, next)
                    } else {
                        &&& final(store)@.len() == n0 + 1 + arch_count
                        &&& final(store)@[n0] == spec_submitted_parent(req, start_time@, next)
                        &&& forall|k: int|
                            0 <= k < arch_count ==> #[trigger] final(store)@[n0 + 1 + k]
                                == spec_submitted_child(req, start_time@, next, k, next + 1 + k)
                    })
                    &&& res.task_ids@ == seq![next as i64]
                    &&& res.queued == spec_has_running(old(store)@, req.server@)
                    &&& res.queue_position == spec_running_count(old(store)@, req.server@)
                    &&& res.message@ == spec_submit_message(
                        arch_count == 1,
                        next,
                        res.queued,
                        res.queue_position as int,
                    )
                }
            },
            Err(e) => {
                &&& final(store)@ == old(store)@
                &&& final(store).spec_next_id() == old(store).spec_next_id()
                &&& (e == AppError::Validation <==> !spec_valid_request(req))
                &&& (e == AppError::Storage <==> spec_valid_request(req) && old(
                    store,
                ).spec_next_id() + spec_rows_needed(req.architectures@.len() as int) > i64::MAX)
            },
        },
        r is Err ==> (r == Result::<SubmitResult, AppError>::Err(AppError::Validation) || r
            == Result::<SubmitResult, AppError>::Err(AppError::Storage)),
{
    if let Err(e) = crate::request::validate_request(req) {
        return Err(e);
    }
    let arch_count = req.architectures.len();
    let next = store.peek_next_id();
    if arch_count <= 1 {
        if next > i64::MAX - 1 {
            return Err(AppError::Storage);
        }
    } else {
        if arch_count as u64 >= 9223372036854775806u64 || next > i64::MAX - 1 - (arch_count as i64) {
            proof {
                assert(old(store).spec_next_id() + spec_rows_needed(
                    req.architectures@.len() as int,
                ) > i64::MAX);
            }
            return Err(AppError::Storage);
        }
    }
    let queued = store.has_running(req.server.as_str());
    let queue_position = store.running_count(req.server.as_str());
    let commit_text: String = match &req.commit_id {
        Some(c) => c.clone(),
        None => String::new(),
    };
    if arch_count == 1 {
        let c = CreateTask {
            branch: req.branch.clone(),
            oem_name: String::new(),
            commit_id: commit_text,
            pkg_flag: arch_flag(req.pkg_flag.as_str(), req.architectures[0].as_str()),
            is_increment: req.is_increment,
            is_signed: req.is_signed,
            server: req.server.clone(),
            parent_id: None,
            architecture: Some(req.architectures[0].clone()),
            installer_format: crate::task::clone_opt_string(&req.installer_format),
        };
        let id = match store.create(&c, start_time) {
            Ok(id) => id,
            Err(_) => unreached(),
        };
        proof {
            assert(crate::store::spec_created_task(c, start_time@, id as int)
                == spec_submitted_single(req, start_time@, id as int));
            assert(final(store)@[old(store)@.len() as int] == spec_submitted_single(
                req,
                start_time@,
                id as int,
            ));
        }
        let message = build_submit_message(true, id, queued, queue_position);
        let mut task_ids: Vec<i64> = Vec::new();
        task_ids.push(id);
        proof {
            assert(task_ids@ =~= seq![id]);
        }
        Ok(SubmitResult { task_ids, queued, queue_position, message })
    } else {
        let parent_c = CreateTask {
            branch: req.branch.clone(),
            oem_name: String::new(),
            commit_id: commit_text.clone(),
            pkg_flag: {
                let mut f = req.pkg_flag.clone();
                f.append(" [");
                let joined = join_comma(&req.architectures);
                f.append(joined.as_str());
                f.append("]");
                proof {
                    assert(f@ =~= spec_parent_flag(
                        req.pkg_flag@,
                        spec_string_views(req.architectures@),
                    ));
                }
                f
            },
            is_increment: req.is_increment,
            is_signed: req.is_signed,
            server: req.server.clone(),
            parent_id: None,
            architecture: None,
            installer_format: crate::task::clone_opt_string(&req.installer_format),
        };
        let parent_id = match store.create(&parent_c, start_time) {
            Ok(id) => id,
            Err(_) => unreached(),
        };
        proof {
            assert(crate::store::spec_created_task(parent_c, start_time@, parent_id as int)
                == spec_submitted_parent(req, start_time@, parent_id as int));
        }
        let ghost after_parent = store@;
        let ghost n0 = old(store)@.len() as int;
        let mut k: usize = 0;
        while k < arch_count
            invariant
                store.inv(),
                arch_count == req.architectures@.len(),
                2 <= arch_count,
                k <= arch_count,
                (arch_count as int) < 9223372036854775806int,
                spec_valid_request(req),
                n0 == old(store)@.len() as int,
                parent_id as int == old(store).spec_next_id(),
                old(store).spec_next_id() + spec_rows_needed(arch_count as int) <= i64::MAX,
                store.spec_next_id() == parent_id + 1 + k,
                store@.len() == n0 + 1 + k,
                forall|i: int| 0 <= i < n0 ==> store@[i] == old(store)@[i],
                store@[n0] == spec_submitted_parent(req, start_time@, parent_id as int),
                forall|j: int|
                    0 <= j < k ==> #[trigger] store@[n0 + 1 + j] == spec_submitted_child(
                        req,
                        start_time@,
                        parent_id as int,
                        j,
                        parent_id + 1 + j,
                    ),
            decreases arch_count - k,
        {
            let child_c = CreateTask {
                branch: req.branch.clone(),
                oem_name: String::new(),
                commit_id: match &req.commit_id {
                    Some(c) => c.clone(),
                    None => String::new(),
                },
                pkg_flag: arch_flag(req.pkg_flag.as_str(), req.architectures[k].as_str()),
                is_increment: req.is_increment,
                is_signed: req.is_signed,
                server: req.server.clone(),
                parent_id: Some(parent_id),
                architecture: Some(req.architectures[k].clone()),
                installer_format: crate::task::clone_opt_string(&req.installer_format),
            };
            let ghost pre = store@;
            let child_id = match store.create(&child_c, start_time) {
                Ok(id) => id,
                Err(_) => unreached(),
            };
            proof {
                assert(crate::store::spec_created_task(child_c, start_time@, child_id as int)
                    == spec_submitted_child(
                    req,
                    start_time@,
                    parent_id as int,
                    k as int,
                    parent_id + 1 + k,
                ));
                assert(store@ == pre.push(
                    crate::store::spec_created_task(child_c, start_time@, child_id as int),
                ));
            }
            k = k + 1;
        }
        let message = build_submit_message(false, parent_id, queued, queue_position);
        let mut task_ids: Vec<i64> = Vec::new();
        task_ids.push(parent_id);
        proof {
            assert(task_ids@ =~= seq![parent_id]);
        }
        Ok(SubmitResult { task_ids, queued, queue_position, message })
    }
}

/// `id` is the task `promote` must pick on `server`: the oldest pending
/// child by (parent id, id), or, when no child waits, the oldest pending
/// stand-alone task by id.
pub open spec fn spec_is_next_in_line(tasks: Seq<TaskV>, server: Seq<char>, id: int) -> bool {
    &&& spec_has_id(tasks, id)
    &&& {
        let t = tasks[spec_index_of_id(tasks, id)];
        if exists|j: int| 0 <= j < tasks.len() && spec_pending_child_on(#[trigger] tasks[j], server) {
            &&& spec_pending_child_on(t, server)
            &&& forall|j: int|
                0 <= j < tasks.len() && spec_pending_child_on(#[trigger] tasks[j], server)
                    ==> spec_child_order_le(t, tasks[j])
        } else {
            &&& spec_pending_single_on(t, server)
            &&& forall|j: int|
                0 <= j < tasks.len() && spec_pending_single_on(#[trigger] tasks[j], server)
                    ==> t.id <= tasks[j].id
        }
    }
}

/// No task waits `Pending` on `server`.
pub open spec fn spec_no_pending_on(tasks: Seq<TaskV>, server: Seq<char>) -> bool {
    forall|j: int|
        0 <= j < tasks.len() ==> !spec_pending_child_on(#[trigger] tasks[j], server)
            && !spec_pending_single_on(tasks[j], server)
}

/// The task next in line carries no architecture (a parent row, say), so
/// the executor could not run it: promotion leaves it `Pending` rather
/// than moving what it cannot hand over.
pub open spec fn spec_next_in_line_unrunnable(tasks: Seq<TaskV>, server: Seq<char>) -> bool {
    exists|id: int|
        #[trigger] spec_is_next_in_line(tasks, server, id) && tasks[spec_index_of_id(
            tasks,
            id,
        )].architecture is None
}

/// Promotes the next task in line on `server`: pending children first, in
/// (parent id, id) order, then pending stand-alone tasks in id order.  The
/// chosen task enters `StartBuild`; the caller hands it to the pipeline.
/// A row without an architecture cannot be run, so it is left `Pending`
/// and nothing is started.  `None` exactly when nothing waits on `server`
/// or the next in line is such a row.
pub fn promote(store: &mut TaskStore, server: &str) -> (r: Option<i64>)
    requires
        old(store).inv(),
    ensures
        final(store).inv(),
        final(store).spec_next_id() == old(store).spec_next_id(),
        match r {
            Some(id) => {
                &&& spec_is_next_in_line(old(store)@, server@, id as int)
                &&& old(store)@[spec_index_of_id(old(store)@, id as int)].architecture is Some
                &&& final(store)@.len() == old(store)@.len()
                &&& forall|i: int|
                    0 <= i < old(store)@.len() ==> final(store)@[i] == spec_with_state(
                        old(store)@[i],
                        id as int,
                        TaskState::StartBuild,
                        None,
                    )
            },
            None => final(store)@ == old(store)@ && (spec_no_pending_on(old(store)@, server@)
                || spec_next_in_line_unrunnable(old(store)@, server@)),
        },
{
    let picked: Option<i64> = match store.next_pending_child(server) {
        Some(id) => Some(id),
        None => store.next_pending_single(server),
    };
    match picked {
        Some(id) => {
            let row = match store.find(id) {
                Some(row) => row,
                None => unreached(),
            };
            if row.architecture.is_some() {
                store.update_state(id, TaskState::StartBuild, None);
                Some(id)
            } else {
                proof {
                    assert(spec_is_next_in_line(store@, server@, id as int));
                    assert(spec_next_in_line_unrunnable(store@, server@));
                }
                None
            }
        },
        None => None,
    }
}

/// What the controller does when a pipeline reaches a terminal state: after
/// a cancellation nothing is chained; otherwise the next task in line on
/// the same server is promoted.
pub fn on_terminal(store: &mut TaskStore, server: &str, was_cancelled: bool) -> (r: Option<i64>)
    requires
        old(store).inv(),
    ensures
        final(store).inv(),
        was_cancelled ==> r is None && final(store)@ == old(store)@,
        !was_cancelled ==> match r {
            Some(id) => {
                &&& spec_is_next_in_line(old(store)@, server@, id as int)
                &&& old(store)@[spec_index_of_id(old(store)@, id as int)].architecture is Some
                &&& final(store)@.len() == old(store)@.len()
                &&& forall|i: int|
                    0 <= i < old(store)@.len() ==> final(store)@[i] == spec_with_state(
                        old(store)@[i],
                        id as int,
                        TaskState::StartBuild,
                        None,
                    )
            },
            None => final(store)@ == old(store)@ && (spec_no_pending_on(old(store)@, server@)
                || spec_next_in_line_unrunnable(old(store)@, server@)),
        },
{
    if was_cancelled {
        None
    } else {
        promote(store, server)
    }
}

/// Some row is a child of `id`.
pub open spec fn spec_has_child(tasks: Seq<TaskV>, id: int) -> bool {
    exists|i: int| 0 <= i < tasks.len() && (#[trigger] tasks[i]).parent_id == Some(id)
}

/// The rows whose live execution a deletion must cancel: with children, the
/// non-terminal children; otherwise the task itself when non-terminal.
pub open spec fn spec_cancel_pred(has_kids: bool, id: int) -> spec_fn(TaskV) -> bool {
    |t: TaskV|
        !crate::state::spec_is_terminal(t.state) && (if has_kids {
            t.parent_id == Some(id)
        } else {
            t.id == id
        })
}

/// Cancels and removes the task carrying `id`, cascading over its children.
/// Returns the ids whose execution the caller must stop: every non-terminal
/// child when `id` has children, otherwise the task itself when it is not
/// yet terminal.  Fails with `NotFound` exactly when no row carries `id`.
pub fn delete_task(store: &mut TaskStore, id: i64) -> (r: Result<Vec<i64>, AppError>)
    requires
        old(store).inv(),
    ensures
        final(store).inv(),
        match r {
            Ok(cancels) => {
                &&& spec_has_id(old(store)@, id as int)
                &&& final(store)@ == old(store)@.filter(crate::store::spec_keep_pred(id as int))
                &&& cancels@.map_values(|x: i64| x as int) == old(store)@.filter(
                    spec_cancel_pred(spec_has_child(old(store)@, id as int), id as int),
                ).map_values(|t: TaskV| t.id)
            },
            Err(e) => {
                &&& e == AppError::NotFound
                &&& !spec_has_id(old(store)@, id as int)
                &&& final(store)@ == old(store)@
            },
        },
{
    let ghost has_kids = spec_has_child(store@, id as int);
    let ghost pred = spec_cancel_pred(has_kids, id as int);
    if store.find(id).is_none() {
        return Err(AppError::NotFound);
    }
    let n = store.task_count();
    let mut has_child = false;
    let mut i: usize = 0;
    while i < n
        invariant
            store.inv(),
            store == old(store),
            n == store@.len(),
            i <= n,
            has_child == exists|j: int|
                0 <= j < i && (#[trigger] store@[j]).parent_id == Some(id as int),
        decreases n - i,
    {
        if store.parent_of_at(i) == Some(id) {
            has_child = true;
        }
        i = i + 1;
    }
    proof {
        assert(has_child == has_kids);
    }
    let mut cancels: Vec<i64> = Vec::new();
    let mut i2: usize = 0;
    proof {
        reveal(Seq::filter);
        assert(store@.subrange(0, 0) =~= Seq::<TaskV>::empty());
        assert(cancels@.map_values(|x: i64| x as int) =~= Seq::<TaskV>::empty().filter(
            pred,
        ).map_values(|t: TaskV| t.id));
    }
    while i2 < n
        invariant
            store.inv(),
            store == old(store),
            n == store@.len(),
            i2 <= n,
            pred == spec_cancel_pred(has_kids, id as int),
            has_child == has_kids,
            cancels@.map_values(|x: i64| x as int) == store@.subrange(0, i2 as int).filter(
                pred,
            ).map_values(|t: TaskV| t.id),
        decreases n - i2,
    {
        proof {
            reveal(Seq::filter);
            assert(store@.subrange(0, i2 + 1).drop_last() =~= store@.subrange(0, i2 as int));
            assert(store@.subrange(0, i2 + 1).last() == store@[i2 as int]);
        }
        let qualifies = !store.state_of_at(i2).is_terminal() && (if has_child {
            store.parent_of_at(i2) == Some(id)
        } else {
            store.id_of_at(i2) == id
        });
        proof {
            assert(qualifies == pred(store@[i2 as int]));
        }
        if qualifies {
            let ghost pre = cancels@;
            cancels.push(store.id_of_at(i2));
            proof {
                assert(cancels@.map_values(|x: i64| x as int) =~= pre.map_values(
                    |x: i64| x as int,
                ).push(store@[i2 as int].id));
                assert(cancels@.map_values(|x: i64| x as int) =~= store@.subrange(
                    0,
                    i2 + 1,
                ).filter(pred).map_values(|t: TaskV| t.id));
            }
        } else {
            proof {
                assert(cancels@.map_values(|x: i64| x as int) =~= store@.subrange(
                    0,
                    i2 + 1,
                ).filter(pred).map_values(|t: TaskV| t.id));
            }
        }
        i2 = i2 + 1;
    }
    proof {
        assert(store@.subrange(0, n as int) =~= store@);
    }
    store.delete(id);
    Ok(cancels)
}

/// Submitted rows wait their turn: every row a submission appends is
/// `Pending`, so a submission changes neither which server is occupied
/// nor by how much.  The queue position told to a later caller therefore
/// equals the queue depth before its own rows, and with serialization at
/// most one of the queued tasks ever runs at a time.
pub proof fn lemma_submission_leaves_occupancy(
    pre: Seq<TaskV>,
    post: Seq<TaskV>,
    server: Seq<char>,
)
    requires
        pre.len() <= post.len(),
        forall|i: int| 0 <= i < pre.len() ==> #[trigger] post[i] == pre[i],
        forall|i: int|
            pre.len() <= i < post.len() ==> (#[trigger] post[i]).state == TaskState::Pending,
    ensures
        spec_running_count(post, server) == spec_running_count(pre, server),
        spec_has_running(post, server) == spec_has_running(pre, server),
    decreases post.len() - pre.len(),
{
    if post.len() == pre.len() {
        assert(post =~= pre);
    } else {
        lemma_submission_leaves_occupancy(pre, post.drop_last(), server);
        assert(!spec_is_running(post.last().state));
    }
    assert forall|i: int|
        0 <= i < post.len() && crate::store::spec_running_on(
            #[trigger] post[i],
            server,
        ) implies crate::store::spec_running_on(pre[i], server) && 0 <= i < pre.len() by {
        if i >= pre.len() {
            assert(post[i].state == TaskState::Pending);
        }
    }
}

/// A single-architecture submission creates no parent row: the one
/// appended row stands alone, waits `Pending`, and carries the requested
/// architecture.
pub proof fn lemma_single_submission_creates_no_parent(
    req: &BuildRequest,
    start_time: Seq<char>,
    pre: Seq<TaskV>,
    post: Seq<TaskV>,
    next: int,
)
    requires
        req.architectures@.len() == 1,
        post.len() == pre.len() + 1,
        forall|i: int| 0 <= i < pre.len() ==> #[trigger] post[i] == pre[i],
        post[pre.len() as int] == spec_submitted_single(req, start_time, next),
    ensures
        post[pre.len() as int].parent_id is None,
        post[pre.len() as int].architecture == Some(req.architectures@[0]@),
        post[pre.len() as int].state == TaskState::Pending,
        post[pre.len() as int].server == req.server@,
{
}

/// A submission with `K >= 2` architectures creates exactly `1 + K` rows:
/// a parent with no architecture of its own, whose flag shows the joined
/// architecture list, then one `Pending` child per architecture in request
/// order, each pointing at the parent.
pub proof fn lemma_family_submission_shape(
    req: &BuildRequest,
    start_time: Seq<char>,
    pre: Seq<TaskV>,
    post: Seq<TaskV>,
    next: int,
)
    requires
        req.architectures@.len() >= 2,
        post.len() == pre.len() + 1 + req.architectures@.len(),
        forall|i: int| 0 <= i < pre.len() ==> #[trigger] post[i] == pre[i],
        post[pre.len() as int] == spec_submitted_parent(req, start_time, next),
        forall|k: int|
            0 <= k < req.architectures@.len() ==> #[trigger] post[pre.len() + 1 + k]
                == spec_submitted_child(req, start_time, next, k, next + 1 + k),
    ensures
        post[pre.len() as int].parent_id is None,
        post[pre.len() as int].architecture is None,
        post[pre.len() as int].state == TaskState::Pending,
        post[pre.len() as int].pkg_flag == spec_parent_flag(
            req.pkg_flag@,
            spec_string_views(req.architectures@),
        ),
        forall|k: int|
            0 <= k < req.architectures@.len() ==> {
                let child = #[trigger] post[pre.len() + 1 + k];
                &&& child.parent_id == Some(next)
                &&& child.architecture == Some(req.architectures@[k]@)
                &&& child.state == TaskState::Pending
                &&& child.server == req.server@
            },
{
}

/// Deleting a parent cancels every non-terminal child: each row the
/// cancel predicate selects has its id in the returned cancel list.
pub proof fn lemma_cancel_list_covers(
    tasks: Seq<TaskV>,
    has_kids: bool,
    id: int,
    cancels: Seq<int>,
)
    requires
        cancels == tasks.filter(spec_cancel_pred(has_kids, id)).map_values(|t: TaskV| t.id),
    ensures
        forall|i: int|
            0 <= i < tasks.len() && spec_cancel_pred(has_kids, id)((#[trigger] tasks[i]))
                ==> cancels.contains(tasks[i].id),
{
    let pred = spec_cancel_pred(has_kids, id);
    assert forall|i: int|
        0 <= i < tasks.len() && pred(tasks[i]) implies cancels.contains(
        (#[trigger] tasks[i]).id,
    ) by {
        tasks.filter_lemma(pred);
        assert(tasks.filter(pred).contains(tasks[i]));
        let j = choose|j: int|
            0 <= j < tasks.filter(pred).len() && #[trigger] tasks.filter(pred)[j] == tasks[i];
        assert(cancels[j] == tasks[i].id);
    }
}

/// Serialization: no two distinct rows occupy the same server at once.
pub open spec fn spec_serialized(tasks: Seq<TaskV>) -> bool {
    forall|i: int, j: int|
        0 <= i < tasks.len() && 0 <= j < tasks.len() && i != j && spec_is_running(
            (#[trigger] tasks[i]).state,
        ) && spec_is_running((#[trigger] tasks[j]).state) ==> tasks[i].server != tasks[j].server
}

/// Serialization survives any step that only adds or rewrites rows in
/// non-running states: submissions (new rows are `Pending`), completions,
/// failures, cancellations and the startup reset.  Each row of the new
/// state either stands unchanged at its old position or is not running.
pub proof fn lemma_serialization_preserved(pre: Seq<TaskV>, post: Seq<TaskV>)
    requires
        spec_serialized(pre),
        forall|i: int|
            0 <= i < post.len() ==> ((i < pre.len() && post[i] == pre[i]) || !spec_is_running(
                (#[trigger] post[i]).state,
            )),
    ensures
        spec_serialized(post),
{
}

/// Serialization survives a promotion: when no task occupies `server` and
/// the rows carrying `id` (a task of that server) move to `StartBuild`,
/// at most one task runs there afterwards, and other servers are untouched.
pub proof fn lemma_promotion_preserves_serialization(
    pre: Seq<TaskV>,
    post: Seq<TaskV>,
    server: Seq<char>,
    id: int,
)
    requires
        spec_serialized(pre),
        !spec_has_running(pre, server),
        forall|p: int, q: int|
            0 <= p < pre.len() && 0 <= q < pre.len() && p != q ==> pre[p].id != pre[q].id,
        post.len() == pre.len(),
        forall|i: int|
            0 <= i < pre.len() ==> post[i] == spec_with_state(
                (#[trigger] pre[i]),
                id,
                TaskState::StartBuild,
                None,
            ),
        spec_has_id(pre, id),
        pre[spec_index_of_id(pre, id)].server == server,
    ensures
        spec_serialized(post),
{
    let ix = spec_index_of_id(pre, id);
    assert forall|i: int, j: int|
        0 <= i < post.len() && 0 <= j < post.len() && i != j && spec_is_running(
            (#[trigger] post[i]).state,
        ) && spec_is_running((#[trigger] post[j]).state) implies post[i].server
        != post[j].server by {
        if pre[i].id != id && pre[j].id != id {
            assert(post[i] == pre[i] && post[j] == pre[j]);
        } else if pre[i].id == id && pre[j].id == id {
            assert(i == ix && j == ix);
        } else if pre[i].id == id {
            assert(post[j] == pre[j]);
            assert(crate::store::spec_running_on(pre[j], post[j].server));
            assert(post[i].server == pre[i].server);
            assert(pre[i].server == server);
            assert(post[j].server != server);
        } else {
            assert(post[i] == pre[i]);
            assert(crate::store::spec_running_on(pre[i], post[i].server));
            assert(post[j].server == pre[j].server);
            assert(pre[j].server == server);
            assert(post[i].server != server);
        }
    }
}

/// Fairness among stand-alone tasks: when no child waits, the task next
/// in line never has a larger id than any other pending stand-alone task
/// on the server, so the older of two pending tasks is promoted first.
pub proof fn lemma_fifo_among_singles(
    tasks: Seq<TaskV>,
    server: Seq<char>,
    chosen: int,
    other: int,
)
    requires
        spec_is_next_in_line(tasks, server, chosen),
        !exists|j: int| 0 <= j < tasks.len() && spec_pending_child_on(#[trigger] tasks[j], server),
        0 <= other < tasks.len(),
        spec_pending_single_on(tasks[other], server),
    ensures
        tasks[spec_index_of_id(tasks, chosen)].id <= tasks[other].id,
{
}

/// Family commit atomicity: after `update_family_commit` rewrites the
/// rows, every member of the family carries the new hash, and no other
/// row changed at all.
pub proof fn lemma_family_commit_total(
    pre: Seq<TaskV>,
    post: Seq<TaskV>,
    root: int,
    commit: Seq<char>,
)
    requires
        post.len() == pre.len(),
        forall|i: int|
            0 <= i < pre.len() ==> #[trigger] post[i] == crate::store::spec_with_family_commit(
                pre[i],
                root,
                commit,
            ),
    ensures
        forall|i: int|
            0 <= i < post.len() && crate::store::spec_in_family(#[trigger] pre[i], root)
                ==> post[i].commit_id == commit,
        forall|i: int|
            0 <= i < post.len() && !crate::store::spec_in_family(#[trigger] pre[i], root)
                ==> post[i] == pre[i],
{
}

/// Serialization survives removing rows: the tasks kept by a deletion all
/// stood in the old state, in the same relative order.
pub proof fn lemma_filter_preserves_serialization(pre: Seq<TaskV>, pred: spec_fn(TaskV) -> bool)
    requires
        spec_serialized(pre),
    ensures
        spec_serialized(pre.filter(pred)),
{
    let post = pre.filter(pred);
    assert forall|i: int, j: int|
        0 <= i < post.len() && 0 <= j < post.len() && i != j && spec_is_running(
            (#[trigger] post[i]).state,
        ) && spec_is_running((#[trigger] post[j]).state) implies post[i].server
        != post[j].server by {
        if i < j {
            crate::store::lemma_filter_keeps_order(pre, pred, i, j);
            let (ji, jj): (int, int) = choose|ji: int, jj: int|
                0 <= ji < jj < pre.len() && #[trigger] pre[ji] == pre.filter(pred)[i]
                    && #[trigger] pre[jj] == pre.filter(pred)[j];
            assert(pre[ji].server != pre[jj].server);
        } else {
            crate::store::lemma_filter_keeps_order(pre, pred, j, i);
            let (jj, ji): (int, int) = choose|jj: int, ji: int|
                0 <= jj < ji < pre.len() && #[trigger] pre[jj] == pre.filter(pred)[j]
                    && #[trigger] pre[ji] == pre.filter(pred)[i];
            assert(pre[ji].server != pre[jj].server);
        }
    }
}

} // verus!

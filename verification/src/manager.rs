//! The in-process task registry: per-task cancel flags and coarse states.
//!
//! A task is registered before it waits for its admission permit, so a
//! cancel issued while it still waits is seen and the task never starts.
//! The registry decides; stopping threads and processes is the host's
//! business.

use vstd::prelude::*;
use vstd::pervasive::VecAdditionalExecFns;
use crate::error::AppError;
use crate::state::TaskState;

verus! {

/// One registered task: its id, a coarse state, and the cancel flag.
#[derive(Clone, Copy, Debug, PartialEq, Eq, Structural)]
pub struct ManagerEntry {
    pub task_id: i64,
    pub state: TaskState,
    pub cancelled: bool,
}

/// Some entry carries this id.
pub open spec fn spec_registered(entries: Seq<ManagerEntry>, id: int) -> bool {
    exists|i: int| 0 <= i < entries.len() && (#[trigger] entries[i]).task_id == id
}

/// The position of the entry with this id (meaningful under
/// `spec_registered`).
pub open spec fn spec_entry_index(entries: Seq<ManagerEntry>, id: int) -> int {
    choose|i: int| 0 <= i < entries.len() && (#[trigger] entries[i]).task_id == id
}

/// The task may begin work: it is registered and not cancelled.
pub open spec fn spec_may_start(entries: Seq<ManagerEntry>, id: int) -> bool {
    spec_registered(entries, id) && !entries[spec_entry_index(entries, id)].cancelled
}

/// The per-process registry of live tasks.
pub struct TaskManager {
    entries: Vec<ManagerEntry>,
    max_concurrent: usize,
}

impl View for TaskManager {
    type V = Seq<ManagerEntry>;

    /// The registered tasks, in registration order.
    closed spec fn view(&self) -> Seq<ManagerEntry> {
        self.entries@
    }
}

impl TaskManager {
    /// The admission bound the registry was created with.
    pub closed spec fn spec_max_concurrent(&self) -> int {
        self.max_concurrent as int
    }

    /// Well-formedness: ids are unique.
    pub open spec fn inv(&self) -> bool {
        forall|i: int, j: int|
            0 <= i < j < self@.len() ==> self@[i].task_id != self@[j].task_id
    }

    /// An empty registry that will admit at most `max_concurrent` tasks at
    /// once.
    pub fn new(max_concurrent: usize) -> (r: Self)
        ensures
            r.inv(),
            r@ == Seq::<ManagerEntry>::empty(),
            r.spec_max_concurrent() == max_concurrent as int,
    {
        let r = TaskManager { entries: Vec::new(), max_concurrent };
        proof {
            assert(r@ =~= Seq::<ManagerEntry>::empty());
        }
        r
    }

    /// Position of the entry carrying `id`, if one does.
    fn index_of(&self, id: i64) -> (r: Option<usize>)
        requires
            self.inv(),
        ensures
            match r {
                Some(ix) => ix < self@.len() && self@[ix as int].task_id == id && spec_entry_index(
                    self@,
                    id as int,
                ) == ix as int,
                None => !spec_registered(self@, id as int),
            },
    {
        let n = self.entries.len();
        let mut i: usize = 0;
        while i < n
            invariant
                self.inv(),
                n == self@.len(),
                i <= n,
                forall|j: int| 0 <= j < i ==> (#[trigger] self@[j]).task_id != id,
            decreases n - i,
        {
            if self.entries[i].task_id == id {
                proof {
                    assert(spec_registered(self@, id as int));
                    assert(spec_entry_index(self@, id as int) == i as int);
                }
                return Some(i);
            }
            i = i + 1;
        }
        None
    }

    /// Registers `id` with a fresh, unset cancel flag, before the task
    /// waits for its admission permit; an existing registration is reset.
    /// Afterwards the task may start.
    pub fn create_cancelled_flag(&mut self, id: i64)
        requires
            old(self).inv(),
        ensures
            final(self).inv(),
            spec_registered(final(self)@, id as int),
            spec_may_start(final(self)@, id as int),
            forall|i: int|
                0 <= i < final(self)@.len() ==> #[trigger] final(self)@[i] == (if old(
                    self,
                )@.len() > i {
                    if old(self)@[i].task_id == id {
                        ManagerEntry { task_id: id, state: TaskState::StartBuild, cancelled: false }
                    } else {
                        old(self)@[i]
                    }
                } else {
                    ManagerEntry { task_id: id, state: TaskState::StartBuild, cancelled: false }
                }),
            final(self)@.len() == old(self)@.len() + (if spec_registered(old(self)@, id as int) {
                0int
            } else {
                1int
            }),
    {
        let fresh = ManagerEntry { task_id: id, state: TaskState::StartBuild, cancelled: false };
        match self.index_of(id) {
            Some(ix) => {
                self.entries.set(ix, fresh);
                proof {
                    assert(self@[ix as int].task_id == id);
                    assert(spec_registered(self@, id as int));
                    assert(spec_entry_index(self@, id as int) == ix as int);
                }
            },
            None => {
                let ghost n = self@.len() as int;
                self.entries.push(fresh);
                proof {
                    assert(self@[n].task_id == id);
                    assert(spec_registered(self@, id as int));
                    assert(spec_entry_index(self@, id as int) == n);
                }
            },
        }
    }

    /// The cancel flag of `id`, when it is registered.
    pub fn get_cancelled_flag(&self, id: i64) -> (r: Option<bool>)
        requires
            self.inv(),
        ensures
            match r {
                Some(c) => spec_registered(self@, id as int) && c == self@[spec_entry_index(
                    self@,
                    id as int,
                )].cancelled,
                None => !spec_registered(self@, id as int),
            },
    {
        match self.index_of(id) {
            Some(ix) => Some(self.entries[ix].cancelled),
            None => None,
        }
    }

    /// The coarse state of `id`, when it is registered.
    pub fn get_task_state(&self, id: i64) -> (r: Option<TaskState>)
        requires
            self.inv(),
        ensures
            match r {
                Some(st) => spec_registered(self@, id as int) && st == self@[spec_entry_index(
                    self@,
                    id as int,
                )].state,
                None => !spec_registered(self@, id as int),
            },
    {
        match self.index_of(id) {
            Some(ix) => Some(self.entries[ix].state),
            None => None,
        }
    }

    /// Records a coarse state for `id`; other entries are untouched and an
    /// unregistered id changes nothing.
    pub fn update_task_state(&mut self, id: i64, st: TaskState)
        requires
            old(self).inv(),
        ensures
            final(self).inv(),
            final(self)@.len() == old(self)@.len(),
            forall|i: int|
                0 <= i < old(self)@.len() ==> #[trigger] final(self)@[i] == (if old(
                    self,
                )@[i].task_id == id {
                    ManagerEntry { state: st, ..old(self)@[i] }
                } else {
                    old(self)@[i]
                }),
    {
        match self.index_of(id) {
            Some(ix) => {
                let mut e = self.entries[ix];
                e.state = st;
                self.entries.set(ix, e);
            },
            None => {},
        }
    }

    /// Requests cancellation: sets the flag of `id` so the pipeline and any
    /// subprocess reader stop at their next check, and so the task never
    /// starts if it still waits for admission.  Fails exactly when `id` is
    /// not registered.
    pub fn cancel_task(&mut self, id: i64) -> (r: Result<(), AppError>)
        requires
            old(self).inv(),
        ensures
            final(self).inv(),
            final(self)@.len() == old(self)@.len(),
            match r {
                Ok(()) => {
                    &&& spec_registered(old(self)@, id as int)
                    &&& !spec_may_start(final(self)@, id as int)
                    &&& forall|i: int|
                        0 <= i < old(self)@.len() ==> #[trigger] final(self)@[i] == (if old(
                            self,
                        )@[i].task_id == id {
                            ManagerEntry { cancelled: true, ..old(self)@[i] }
                        } else {
                            old(self)@[i]
                        })
                },
                Err(e) => {
                    &&& e == AppError::NotFound
                    &&& !spec_registered(old(self)@, id as int)
                    &&& final(self)@ == old(self)@
                },
            },
    {
        match self.index_of(id) {
            Some(ix) => {
                let mut e = self.entries[ix];
                e.cancelled = true;
                self.entries.set(ix, e);
                proof {
                    assert(self@[ix as int].task_id == id);
                    assert(spec_registered(self@, id as int));
                    assert(spec_entry_index(self@, id as int) == ix as int);
                }
                Ok(())
            },
            None => Err(AppError::NotFound),
        }
    }

    /// The admission recheck after the permit arrives: `id` may run only
    /// when it is registered and no cancel hit it while it waited.
    pub fn may_start(&self, id: i64) -> (r: bool)
        requires
            self.inv(),
        ensures
            r == spec_may_start(self@, id as int),
    {
        match self.get_cancelled_flag(id) {
            Some(c) => !c,
            None => false,
        }
    }

    /// Drops the registration of `id` once its work is done or aborted.
    pub fn remove_task(&mut self, id: i64)
        requires
            old(self).inv(),
        ensures
            final(self).inv(),
            final(self)@ == old(self)@.filter(|e: ManagerEntry| e.task_id != id),
    {
        let ghost pred = |e: ManagerEntry| e.task_id != id;
        let n = self.entries.len();
        let mut out: Vec<ManagerEntry> = Vec::new();
        let mut i: usize = 0;
        proof {
            reveal(Seq::filter);
            assert(self@.subrange(0, 0) =~= Seq::<ManagerEntry>::empty());
            assert(out@ =~= self@.subrange(0, 0).filter(pred));
        }
        while i < n
            invariant
                old(self).inv(),
                self == old(self),
                n == self@.len(),
                i <= n,
                pred == (|e: ManagerEntry| e.task_id != id),
                out@ == self@.subrange(0, i as int).filter(pred),
            decreases n - i,
        {
            proof {
                reveal(Seq::filter);
                assert(self@.subrange(0, i + 1).drop_last() =~= self@.subrange(0, i as int));
                assert(self@.subrange(0, i + 1).last() == self@[i as int]);
            }
            if self.entries[i].task_id != id {
                out.push(self.entries[i]);
            }
            proof {
                assert(out@ =~= self@.subrange(0, i + 1).filter(pred));
            }
            i = i + 1;
        }
        proof {
            assert(self@.subrange(0, n as int) =~= self@);
        }
        let ghost pre = self@;
        self.entries = out;
        proof {
            assert forall|p: int, q: int| 0 <= p < q < self@.len() implies self@[p].task_id
                != self@[q].task_id by {
                crate::store::lemma_filter_keeps_order(pre, pred, p, q);
                let (jp, jq): (int, int) = choose|jp: int, jq: int|
                    0 <= jp < jq < pre.len() && #[trigger] pre[jp] == pre.filter(pred)[p]
                        && #[trigger] pre[jq] == pre.filter(pred)[q];
                assert(pre[jp].task_id != pre[jq].task_id);
            }
        }
    }

    /// Whether any task is registered.
    pub fn is_processing(&self) -> (r: bool)
        ensures
            r == (self@.len() > 0),
    {
        self.entries.len() > 0
    }

    /// Whether `id` is registered.
    pub fn has_task(&self, id: i64) -> (r: bool)
        requires
            self.inv(),
        ensures
            r == spec_registered(self@, id as int),
    {
        self.index_of(id).is_some()
    }
}

} // verus!

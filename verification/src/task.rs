//! The persisted task record and the request/patch shapes that reach it.

use vstd::prelude::*;
use crate::state::TaskState;

verus! {

/// One persisted unit of build work, bound to a server and usually to one
/// architecture.
#[derive(Debug)]
pub struct Task {
    pub id: i64,
    pub start_time: String,
    pub end_time: Option<String>,
    pub branch_name: String,
    pub oem_name: String,
    pub commit_id: String,
    pub pkg_flag: String,
    pub is_signed: bool,
    pub is_increment: bool,
    pub storage_path: String,
    pub installer: String,
    pub state: TaskState,
    pub server: String,
    pub parent_id: Option<i64>,
    pub architecture: Option<String>,
    pub build_log: Option<String>,
    pub installer_format: Option<String>,
}

/// The mathematical value of a task record: every text field as its
/// character sequence.  Contracts speak of tasks through this view.
pub ghost struct TaskV {
    pub id: int,
    pub start_time: Seq<char>,
    pub end_time: Option<Seq<char>>,
    pub branch_name: Seq<char>,
    pub oem_name: Seq<char>,
    pub commit_id: Seq<char>,
    pub pkg_flag: Seq<char>,
    pub is_signed: bool,
    pub is_increment: bool,
    pub storage_path: Seq<char>,
    pub installer: Seq<char>,
    pub state: TaskState,
    pub server: Seq<char>,
    pub parent_id: Option<int>,
    pub architecture: Option<Seq<char>>,
    pub build_log: Option<Seq<char>>,
    pub installer_format: Option<Seq<char>>,
}

/// The view of an optional string.
pub open spec fn spec_opt_view(s: Option<String>) -> Option<Seq<char>> {
    match s {
        Some(v) => Some(v@),
        None => None,
    }
}

/// The view of an optional task id.
pub open spec fn spec_opt_int(s: Option<i64>) -> Option<int> {
    match s {
        Some(v) => Some(v as int),
        None => None,
    }
}

/// The mathematical value of a task record.
pub open spec fn tv(t: Task) -> TaskV {
    TaskV {
        id: t.id as int,
        start_time: t.start_time@,
        end_time: spec_opt_view(t.end_time),
        branch_name: t.branch_name@,
        oem_name: t.oem_name@,
        commit_id: t.commit_id@,
        pkg_flag: t.pkg_flag@,
        is_signed: t.is_signed,
        is_increment: t.is_increment,
        storage_path: t.storage_path@,
        installer: t.installer@,
        state: t.state,
        server: t.server@,
        parent_id: spec_opt_int(t.parent_id),
        architecture: spec_opt_view(t.architecture),
        build_log: spec_opt_view(t.build_log),
        installer_format: spec_opt_view(t.installer_format),
    }
}

/// The family a task belongs to: its parent's id for a child, its own id
/// otherwise.
pub open spec fn spec_family_root(t: TaskV) -> int {
    match t.parent_id {
        Some(p) => p,
        None => t.id,
    }
}

impl Clone for Task {
    /// An exact copy, field by field.
    fn clone(&self) -> (r: Self)
        ensures
            r == *self,
    {
        Task {
            id: self.id,
            start_time: self.start_time.clone(),
            end_time: clone_opt_string(&self.end_time),
            branch_name: self.branch_name.clone(),
            oem_name: self.oem_name.clone(),
            commit_id: self.commit_id.clone(),
            pkg_flag: self.pkg_flag.clone(),
            is_signed: self.is_signed,
            is_increment: self.is_increment,
            storage_path: self.storage_path.clone(),
            installer: self.installer.clone(),
            state: self.state,
            server: self.server.clone(),
            parent_id: self.parent_id,
            architecture: clone_opt_string(&self.architecture),
            build_log: clone_opt_string(&self.build_log),
            installer_format: clone_opt_string(&self.installer_format),
        }
    }
}

/// Copies an optional string, preserving its value.
pub fn clone_opt_string(s: &Option<String>) -> (r: Option<String>)
    ensures
        r == *s,
{
    match s {
        Some(v) => Some(v.clone()),
        None => None,
    }
}

impl Default for Task {
    /// A blank record: id zero, every text field empty, state `Pending`.
    fn default() -> (r: Self)
        ensures
            r.id == 0,
            r.start_time@ == Seq::<char>::empty(),
            r.end_time is None,
            r.branch_name@ == Seq::<char>::empty(),
            r.oem_name@ == Seq::<char>::empty(),
            r.commit_id@ == Seq::<char>::empty(),
            r.pkg_flag@ == Seq::<char>::empty(),
            !r.is_signed,
            !r.is_increment,
            r.storage_path@ == Seq::<char>::empty(),
            r.installer@ == Seq::<char>::empty(),
            r.state == TaskState::Pending,
            r.server@ == Seq::<char>::empty(),
            r.parent_id is None,
            r.architecture is None,
            r.build_log is None,
            r.installer_format is None,
    {
        Task {
            id: 0,
            start_time: String::new(),
            end_time: None,
            branch_name: String::new(),
            oem_name: String::new(),
            commit_id: String::new(),
            pkg_flag: String::new(),
            is_signed: false,
            is_increment: false,
            storage_path: String::new(),
            installer: String::new(),
            state: TaskState::Pending,
            server: String::new(),
            parent_id: None,
            architecture: None,
            build_log: None,
            installer_format: None,
        }
    }
}

/// The fields a caller supplies to create a task.
#[derive(Debug)]
pub struct CreateTask {
    pub branch: String,
    pub oem_name: String,
    pub commit_id: String,
    pub pkg_flag: String,
    pub is_increment: bool,
    pub is_signed: bool,
    pub server: String,
    pub parent_id: Option<i64>,
    pub architecture: Option<String>,
    pub installer_format: Option<String>,
}

/// A partial update of a task row.
#[derive(Debug)]
pub struct UpdateTask {
    pub id: i64,
    pub commit_id: Option<String>,
    pub end_time: Option<String>,
    pub storage_path: Option<String>,
    pub installer: Option<String>,
    pub state: Option<TaskState>,
}

/// A request to cancel and remove a task.
#[derive(Debug)]
pub struct DeleteTask {
    pub task_id: i64,
}

/// One live-log line as delivered to subscribers.
#[derive(Debug)]
pub struct LogMessage {
    pub task_id: i64,
    pub log: String,
    pub timestamp: String,
    pub is_progress: bool,
}

impl Clone for LogMessage {
    /// An exact copy, field by field.
    fn clone(&self) -> (r: Self)
        ensures
            r == *self,
    {
        LogMessage {
            task_id: self.task_id,
            log: self.log.clone(),
            timestamp: self.timestamp.clone(),
            is_progress: self.is_progress,
        }
    }
}

} // verus!

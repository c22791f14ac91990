//! Task lifecycle states and the rules for moving between them.
//!
//! States form a single progression from `Pending` to `Success`; `Failed`
//! and `Cancelled` sit off the path and can be entered from any live state.
//! A terminal state is never left again.

use vstd::prelude::*;

verus! {

/// Lifecycle state of a build task.
#[derive(Clone, Copy, Debug, PartialEq, Eq, Structural)]
pub enum TaskState {
    Pending,
    CheckingOut,
    StartBuild,
    Cleaning,
    GeneratingProject,
    BuildingPreBuild,
    BuildingBase,
    BuildingChrome,
    Combining,
    BuildingInstaller,
    Signing,
    BackingUp,
    Success,
    Failed,
    Cancelled,
}

/// Position of a state along the pipeline progression.  The two off-path
/// terminal states are ordered after `Success` so that every state has a
/// distinct rank.
pub open spec fn spec_state_rank(s: TaskState) -> int {
    match s {
        TaskState::Pending => 0,
        TaskState::CheckingOut => 1,
        TaskState::StartBuild => 2,
        TaskState::Cleaning => 3,
        TaskState::GeneratingProject => 4,
        TaskState::BuildingPreBuild => 5,
        TaskState::BuildingBase => 6,
        TaskState::BuildingChrome => 7,
        TaskState::Combining => 8,
        TaskState::BuildingInstaller => 9,
        TaskState::Signing => 10,
        TaskState::BackingUp => 11,
        TaskState::Success => 12,
        TaskState::Failed => 13,
        TaskState::Cancelled => 14,
    }
}

/// A task in one of these states has finished for good.
pub open spec fn spec_is_terminal(s: TaskState) -> bool {
    s == TaskState::Success || s == TaskState::Failed || s == TaskState::Cancelled
}

/// A task in a non-terminal, non-`Pending` state occupies its server.
pub open spec fn spec_is_running(s: TaskState) -> bool {
    !spec_is_terminal(s) && s != TaskState::Pending
}

/// True when a child task has reached or passed its `BuildingChrome` step on
/// the way to `Success`; the fan-in gate for a parent's combine step.
pub open spec fn spec_past_chrome(s: TaskState) -> bool {
    s == TaskState::BuildingChrome || s == TaskState::Combining
        || s == TaskState::BuildingInstaller || s == TaskState::Signing
        || s == TaskState::BackingUp || s == TaskState::Success
}

/// Legal state transitions: from `Pending` anything may come next; any live
/// state may fail or be cancelled; otherwise only the next step of the
/// progression is legal, where `BuildingChrome` may also skip `Combining`.
/// Terminal states are never left.
pub open spec fn spec_can_transition(from: TaskState, to: TaskState) -> bool {
    if from == TaskState::Pending {
        true
    } else if spec_is_terminal(from) {
        false
    } else if to == TaskState::Failed || to == TaskState::Cancelled {
        true
    } else {
        spec_state_rank(to) == spec_state_rank(from) + 1 && to != TaskState::Failed
            || from == TaskState::BuildingChrome && to == TaskState::BuildingInstaller
    }
}

/// The display name of a state, as persisted and shown on the wire.
pub open spec fn spec_state_name(s: TaskState) -> Seq<char> {
    match s {
        TaskState::Pending => "pending"@,
        TaskState::CheckingOut => "checkout..."@,
        TaskState::StartBuild => "start build"@,
        TaskState::Cleaning => "clean..."@,
        TaskState::GeneratingProject => "gen project"@,
        TaskState::BuildingPreBuild => "build pre_build"@,
        TaskState::BuildingBase => "build base"@,
        TaskState::BuildingChrome => "build chrome"@,
        TaskState::Combining => "combining"@,
        TaskState::BuildingInstaller => "build installer"@,
        TaskState::Signing => "sign"@,
        TaskState::BackingUp => "backup"@,
        TaskState::Success => "success"@,
        TaskState::Failed => "failed"@,
        TaskState::Cancelled => "cancelled"@,
    }
}

/// The state whose display name is `s`, if any.
pub open spec fn spec_state_of_name(s: Seq<char>) -> Option<TaskState> {
    if s == spec_state_name(TaskState::Pending) {
        Some(TaskState::Pending)
    } else if s == spec_state_name(TaskState::CheckingOut) {
        Some(TaskState::CheckingOut)
    } else if s == spec_state_name(TaskState::StartBuild) {
        Some(TaskState::StartBuild)
    } else if s == spec_state_name(TaskState::Cleaning) {
        Some(TaskState::Cleaning)
    } else if s == spec_state_name(TaskState::GeneratingProject) {
        Some(TaskState::GeneratingProject)
    } else if s == spec_state_name(TaskState::BuildingPreBuild) {
        Some(TaskState::BuildingPreBuild)
    } else if s == spec_state_name(TaskState::BuildingBase) {
        Some(TaskState::BuildingBase)
    } else if s == spec_state_name(TaskState::BuildingChrome) {
        Some(TaskState::BuildingChrome)
    } else if s == spec_state_name(TaskState::Combining) {
        Some(TaskState::Combining)
    } else if s == spec_state_name(TaskState::BuildingInstaller) {
        Some(TaskState::BuildingInstaller)
    } else if s == spec_state_name(TaskState::Signing) {
        Some(TaskState::Signing)
    } else if s == spec_state_name(TaskState::BackingUp) {
        Some(TaskState::BackingUp)
    } else if s == spec_state_name(TaskState::Success) {
        Some(TaskState::Success)
    } else if s == spec_state_name(TaskState::Failed) {
        Some(TaskState::Failed)
    } else if s == spec_state_name(TaskState::Cancelled) {
        Some(TaskState::Cancelled)
    } else {
        None
    }
}

impl TaskState {
    /// True for `Success`, `Failed` and `Cancelled`.
    pub fn is_terminal(&self) -> (r: bool)
        ensures
            r == spec_is_terminal(*self),
    {
        matches!(self, TaskState::Success | TaskState::Failed | TaskState::Cancelled)
    }

    /// Whether moving from `self` to `next` is a legal lifecycle transition.
    pub fn can_transition_to(&self, next: TaskState) -> (r: bool)
        ensures
            r == spec_can_transition(*self, next),
    {
        match (self, next) {
            (TaskState::Pending, _) => true,
            (TaskState::CheckingOut, TaskState::StartBuild) => true,
            (TaskState::StartBuild, TaskState::Cleaning) => true,
            (TaskState::Cleaning, TaskState::GeneratingProject) => true,
            (TaskState::GeneratingProject, TaskState::BuildingPreBuild) => true,
            (TaskState::BuildingPreBuild, TaskState::BuildingBase) => true,
            (TaskState::BuildingBase, TaskState::BuildingChrome) => true,
            (TaskState::BuildingChrome, TaskState::Combining) => true,
            (TaskState::BuildingChrome, TaskState::BuildingInstaller) => true,
            (TaskState::Combining, TaskState::BuildingInstaller) => true,
            (TaskState::BuildingInstaller, TaskState::Signing) => true,
            (TaskState::Signing, TaskState::BackingUp) => true,
            (TaskState::BackingUp, TaskState::Success) => true,
            (TaskState::Success, _) => false,
            (TaskState::Failed, _) => false,
            (TaskState::Cancelled, _) => false,
            (_, TaskState::Failed) => true,
            (_, TaskState::Cancelled) => true,
            _ => false,
        }
    }

    /// The persisted display name of this state.
    pub fn as_str(&self) -> (r: &'static str)
        ensures
            r@ == spec_state_name(*self),
    {
        match self {
            TaskState::Pending => "pending",
            TaskState::CheckingOut => "checkout...",
            TaskState::StartBuild => "start build",
            TaskState::Cleaning => "clean...",
            TaskState::GeneratingProject => "gen project",
            TaskState::BuildingPreBuild => "build pre_build",
            TaskState::BuildingBase => "build base",
            TaskState::BuildingChrome => "build chrome",
            TaskState::Combining => "combining",
            TaskState::BuildingInstaller => "build installer",
            TaskState::Signing => "sign",
            TaskState::BackingUp => "backup",
            TaskState::Success => "success",
            TaskState::Failed => "failed",
            TaskState::Cancelled => "cancelled",
        }
    }

    /// Parses a persisted display name back into a state.  Every name that
    /// `as_str` produces is accepted, `cancelled` included.
    pub fn from_str(s: &str) -> (r: Option<TaskState>)
        ensures
            r == spec_state_of_name(s@),
    {
        if crate::text::str_eq_str(s, "pending") {
            Some(TaskState::Pending)
        } else if crate::text::str_eq_str(s, "checkout...") {
            Some(TaskState::CheckingOut)
        } else if crate::text::str_eq_str(s, "start build") {
            Some(TaskState::StartBuild)
        } else if crate::text::str_eq_str(s, "clean...") {
            Some(TaskState::Cleaning)
        } else if crate::text::str_eq_str(s, "gen project") {
            Some(TaskState::GeneratingProject)
        } else if crate::text::str_eq_str(s, "build pre_build") {
            Some(TaskState::BuildingPreBuild)
        } else if crate::text::str_eq_str(s, "build base") {
            Some(TaskState::BuildingBase)
        } else if crate::text::str_eq_str(s, "build chrome") {
            Some(TaskState::BuildingChrome)
        } else if crate::text::str_eq_str(s, "combining") {
            Some(TaskState::Combining)
        } else if crate::text::str_eq_str(s, "build installer") {
            Some(TaskState::BuildingInstaller)
        } else if crate::text::str_eq_str(s, "sign") {
            Some(TaskState::Signing)
        } else if crate::text::str_eq_str(s, "backup") {
            Some(TaskState::BackingUp)
        } else if crate::text::str_eq_str(s, "success") {
            Some(TaskState::Success)
        } else if crate::text::str_eq_str(s, "failed") {
            Some(TaskState::Failed)
        } else if crate::text::str_eq_str(s, "cancelled") {
            Some(TaskState::Cancelled)
        } else {
            None
        }
    }

    /// Rank of this state along the progression, matching `spec_state_rank`.
    pub fn rank(&self) -> (r: u32)
        ensures
            r as int == spec_state_rank(*self),
    {
        match self {
            TaskState::Pending => 0,
            TaskState::CheckingOut => 1,
            TaskState::StartBuild => 2,
            TaskState::Cleaning => 3,
            TaskState::GeneratingProject => 4,
            TaskState::BuildingPreBuild => 5,
            TaskState::BuildingBase => 6,
            TaskState::BuildingChrome => 7,
            TaskState::Combining => 8,
            TaskState::BuildingInstaller => 9,
            TaskState::Signing => 10,
            TaskState::BackingUp => 11,
            TaskState::Success => 12,
            TaskState::Failed => 13,
            TaskState::Cancelled => 14,
        }
    }

    /// True for a non-terminal, non-`Pending` state: the task occupies its
    /// server.
    pub fn is_running(&self) -> (r: bool)
        ensures
            r == spec_is_running(*self),
    {
        !self.is_terminal() && !matches!(self, TaskState::Pending)
    }

    /// True once a child has reached or passed `BuildingChrome` on the way
    /// to `Success`.
    pub fn past_chrome(&self) -> (r: bool)
        ensures
            r == spec_past_chrome(*self),
    {
        matches!(
            self,
            TaskState::BuildingChrome | TaskState::Combining | TaskState::BuildingInstaller
                | TaskState::Signing | TaskState::BackingUp | TaskState::Success,
        )
    }
}

/// Names and parsing are mutually inverse: parsing the display name of any
/// state gives that state back, and a parsed name renders back to itself.
pub proof fn lemma_state_name_round_trip(s: TaskState)
    ensures
        spec_state_of_name(spec_state_name(s)) == Some(s),
{
    reveal_strlit("pending");
    reveal_strlit("checkout...");
    reveal_strlit("start build");
    reveal_strlit("clean...");
    reveal_strlit("gen project");
    reveal_strlit("build pre_build");
    reveal_strlit("build base");
    reveal_strlit("build chrome");
    reveal_strlit("combining");
    reveal_strlit("build installer");
    reveal_strlit("sign");
    reveal_strlit("backup");
    reveal_strlit("success");
    reveal_strlit("failed");
    reveal_strlit("cancelled");
    assert("pending"@ =~= seq!['p', 'e', 'n', 'd', 'i', 'n', 'g']);
    assert("checkout..."@ =~= seq!['c', 'h', 'e', 'c', 'k', 'o', 'u', 't', '.', '.', '.']);
    assert("start build"@ =~= seq!['s', 't', 'a', 'r', 't', ' ', 'b', 'u', 'i', 'l', 'd']);
    assert("clean..."@ =~= seq!['c', 'l', 'e', 'a', 'n', '.', '.', '.']);
    assert("gen project"@ =~= seq!['g', 'e', 'n', ' ', 'p', 'r', 'o', 'j', 'e', 'c', 't']);
    assert("build pre_build"@ =~= seq![
        'b', 'u', 'i', 'l', 'd', ' ', 'p', 'r', 'e', '_', 'b', 'u', 'i', 'l', 'd',
    ]);
    assert("build base"@ =~= seq!['b', 'u', 'i', 'l', 'd', ' ', 'b', 'a', 's', 'e']);
    assert("build chrome"@ =~= seq!['b', 'u', 'i', 'l', 'd', ' ', 'c', 'h', 'r', 'o', 'm', 'e']);
    assert("combining"@ =~= seq!['c', 'o', 'm', 'b', 'i', 'n', 'i', 'n', 'g']);
    assert("build installer"@ =~= seq![
        'b', 'u', 'i', 'l', 'd', ' ', 'i', 'n', 's', 't', 'a', 'l', 'l', 'e', 'r',
    ]);
    assert("sign"@ =~= seq!['s', 'i', 'g', 'n']);
    assert("backup"@ =~= seq!['b', 'a', 'c', 'k', 'u', 'p']);
    assert("success"@ =~= seq!['s', 'u', 'c', 'c', 'e', 's', 's']);
    assert("failed"@ =~= seq!['f', 'a', 'i', 'l', 'e', 'd']);
    assert("cancelled"@ =~= seq!['c', 'a', 'n', 'c', 'e', 'l', 'l', 'e', 'd']);
    match s {
        TaskState::Pending => assert(spec_state_of_name(spec_state_name(s)) == Some(s)),
        TaskState::CheckingOut => assert(spec_state_of_name(spec_state_name(s)) == Some(s)),
        TaskState::StartBuild => assert(spec_state_of_name(spec_state_name(s)) == Some(s)),
        TaskState::Cleaning => assert(spec_state_of_name(spec_state_name(s)) == Some(s)),
        TaskState::GeneratingProject => assert(spec_state_of_name(spec_state_name(s)) == Some(s)),
        TaskState::BuildingPreBuild => assert(spec_state_of_name(spec_state_name(s)) == Some(s)),
        TaskState::BuildingBase => assert(spec_state_of_name(spec_state_name(s)) == Some(s)),
        TaskState::BuildingChrome => assert(spec_state_of_name(spec_state_name(s)) == Some(s)),
        TaskState::Combining => assert(spec_state_of_name(spec_state_name(s)) == Some(s)),
        TaskState::BuildingInstaller => assert(spec_state_of_name(spec_state_name(s)) == Some(s)),
        TaskState::Signing => assert(spec_state_of_name(spec_state_name(s)) == Some(s)),
        TaskState::BackingUp => assert(spec_state_of_name(spec_state_name(s)) == Some(s)),
        TaskState::Success => assert(spec_state_of_name(spec_state_name(s)) == Some(s)),
        TaskState::Failed => assert(spec_state_of_name(spec_state_name(s)) == Some(s)),
        TaskState::Cancelled => assert(spec_state_of_name(spec_state_name(s)) == Some(s)),
    }
}

} // verus!

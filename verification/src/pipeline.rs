//! The pipeline step interpreter: which action each configured step asks
//! for, when a step is skipped, how compiler output lines are classified,
//! and how the output directory and generator arguments are derived.
//!
//! The functions here decide; running subprocesses is the host's business.

use vstd::prelude::*;
use vstd::string::StrSliceExecFns;
use vstd::string::StringExecFns;
use crate::config::BuildStep;
use crate::request::BuildRequest;
use crate::text::spec_contains;
use crate::text::spec_match_at;

verus! {

/// ASCII whitespace, as trimmed from the front of a compiler output line.
pub open spec fn spec_is_ws(c: char) -> bool {
    c == ' ' || c == '\t' || c == '\r' || c == '\n'
}

/// Length of the whitespace prefix of `s`.
pub open spec fn spec_ws_prefix(s: Seq<char>) -> int
    decreases s.len(),
{
    if s.len() > 0 && spec_is_ws(s[0]) {
        1 + spec_ws_prefix(s.drop_first())
    } else {
        0
    }
}

/// The whitespace prefix is a prefix: every position before it holds
/// whitespace, the position after it (if any) does not.
pub proof fn lemma_ws_prefix(s: Seq<char>)
    ensures
        0 <= spec_ws_prefix(s) <= s.len(),
        forall|k: int| 0 <= k < spec_ws_prefix(s) ==> spec_is_ws(s[k]),
        spec_ws_prefix(s) < s.len() ==> !spec_is_ws(s[spec_ws_prefix(s)]),
    decreases s.len(),
{
    if s.len() > 0 && spec_is_ws(s[0]) {
        lemma_ws_prefix(s.drop_first());
        assert forall|k: int| 0 <= k < spec_ws_prefix(s) implies spec_is_ws(s[k]) by {
            if k > 0 {
                assert(s.drop_first()[k - 1] == s[k]);
            }
        }
        if spec_ws_prefix(s) < s.len() {
            assert(s.drop_first()[spec_ws_prefix(s) - 1] == s[spec_ws_prefix(s)]);
        }
    }
}

/// A decimal digit.
pub open spec fn spec_is_digit(c: char) -> bool {
    c == '0' || c == '1' || c == '2' || c == '3' || c == '4' || c == '5' || c == '6' || c == '7'
        || c == '8' || c == '9'
}

/// A progress line: after leading whitespace, an opening bracket, one or
/// more digits, a slash, one or more digits, and a closing bracket, with
/// anything after.  Compilers print such lines as `[n/m] ...`.
pub open spec fn spec_is_progress_line(s: Seq<char>) -> bool {
    let st = spec_ws_prefix(s);
    exists|i: int, j: int|
        {
            &&& st + 2 <= i
            &&& i + 2 <= j
            &&& j < s.len()
            &&& s[st] == '['
            &&& #[trigger] s[i] == '/'
            &&& #[trigger] s[j] == ']'
            &&& forall|k: int| st + 1 <= k < i ==> spec_is_digit(s[k])
            &&& forall|k: int| i + 1 <= k < j ==> spec_is_digit(s[k])
        }
}

/// Whether `c` counts as whitespace for line trimming.
fn is_ws_char(c: char) -> (r: bool)
    ensures
        r == spec_is_ws(c),
{
    c == ' ' || c == '\t' || c == '\r' || c == '\n'
}

/// Whether `c` is a decimal digit.
fn is_digit_char(c: char) -> (r: bool)
    ensures
        r == spec_is_digit(c),
{
    c == '0' || c == '1' || c == '2' || c == '3' || c == '4' || c == '5' || c == '6' || c == '7'
        || c == '8' || c == '9'
}

/// Classifies one compiler output line: a line opening with `[n/m]` after
/// optional whitespace reports progress and is shown live but never
/// persisted.
pub fn is_progress_line(line: &str) -> (r: bool)
    ensures
        r == spec_is_progress_line(line@),
{
    let n = line.unicode_len();
    let mut st: usize = 0;
    while st < n && is_ws_char(line.get_char(st))
        invariant
            n == line@.len(),
            st <= n,
            forall|k: int| 0 <= k < st ==> spec_is_ws(line@[k]),
        decreases n - st,
    {
        st = st + 1;
    }
    proof {
        lemma_ws_prefix(line@);
        assert(spec_ws_prefix(line@) == st as int) by {
            if spec_ws_prefix(line@) < st as int {
                assert(spec_is_ws(line@[spec_ws_prefix(line@)]));
            }
            if spec_ws_prefix(line@) > st as int {
                assert(spec_is_ws(line@[st as int]));
            }
        }
    }
    if st >= n || line.get_char(st) != '[' {
        return false;
    }
    let mut i: usize = st + 1;
    while i < n && is_digit_char(line.get_char(i))
        invariant
            n == line@.len(),
            st + 1 <= i <= n,
            forall|k: int| st + 1 <= k < i ==> spec_is_digit(line@[k]),
        decreases n - i,
    {
        i = i + 1;
    }
    if i == st + 1 || i >= n || line.get_char(i) != '/' {
        proof {
            assert forall|i0: int, j0: int|
                !({
                    &&& st + 2 <= i0
                    &&& i0 + 2 <= j0
                    &&& j0 < line@.len()
                    &&& line@[st as int] == '['
                    &&& #[trigger] line@[i0] == '/'
                    &&& #[trigger] line@[j0] == ']'
                    &&& forall|k: int| st + 1 <= k < i0 ==> spec_is_digit(line@[k])
                    &&& forall|k: int| i0 + 1 <= k < j0 ==> spec_is_digit(line@[k])
                }) by {
                if st + 2 <= i0 && i0 + 2 <= j0 && j0 < line@.len() && line@[i0] == '/' && (
                forall|k: int| st + 1 <= k < i0 ==> spec_is_digit(line@[k])) {
                    if i0 < i as int {
                        assert(spec_is_digit(line@[i0]));
                        assert(false);
                    } else if i0 > i as int {
                        assert(spec_is_digit(line@[i as int]));
                        assert(i as int == st + 1 || i as usize >= n || !spec_is_digit(
                            line@[i as int],
                        ));
                        assert(false);
                    } else {
                        assert(i as int != st + 1 && (i as usize) < n);
                        assert(false);
                    }
                }
            }
        }
        return false;
    }
    let mut j: usize = i + 1;
    while j < n && is_digit_char(line.get_char(j))
        invariant
            n == line@.len(),
            i + 1 <= j <= n,
            forall|k: int| i + 1 <= k < j ==> spec_is_digit(line@[k]),
        decreases n - j,
    {
        j = j + 1;
    }
    if j == i + 1 || j >= n || line.get_char(j) != ']' {
        proof {
            assert forall|i0: int, j0: int|
                !({
                    &&& st + 2 <= i0
                    &&& i0 + 2 <= j0
                    &&& j0 < line@.len()
                    &&& line@[st as int] == '['
                    &&& #[trigger] line@[i0] == '/'
                    &&& #[trigger] line@[j0] == ']'
                    &&& forall|k: int| st + 1 <= k < i0 ==> spec_is_digit(line@[k])
                    &&& forall|k: int| i0 + 1 <= k < j0 ==> spec_is_digit(line@[k])
                }) by {
                if st + 2 <= i0 && i0 + 2 <= j0 && j0 < line@.len() && line@[i0] == '/'
                    && line@[j0] == ']' && (forall|k: int|
                    st + 1 <= k < i0 ==> spec_is_digit(line@[k])) && (forall|k: int|
                    i0 + 1 <= k < j0 ==> spec_is_digit(line@[k])) {
                    if i0 < i as int {
                        assert(spec_is_digit(line@[i0]));
                        assert(false);
                    } else if i0 > i as int {
                        assert(spec_is_digit(line@[i as int]));
                        assert(false);
                    } else {
                        if j0 < j as int {
                            assert(spec_is_digit(line@[j0]));
                            assert(false);
                        } else if j0 > j as int {
                            assert(spec_is_digit(line@[j as int]));
                            assert(false);
                        } else {
                            assert(false);
                        }
                    }
                }
            }
        }
        return false;
    }
    proof {
        assert({
            &&& st + 2 <= i as int
            &&& i + 2 <= j as int
            &&& (j as int) < line@.len()
            &&& line@[st as int] == '['
            &&& line@[i as int] == '/'
            &&& line@[j as int] == ']'
            &&& forall|k: int| st + 1 <= k < i as int ==> spec_is_digit(line@[k])
            &&& forall|k: int| i + 1 <= k < j as int ==> spec_is_digit(line@[k])
        });
    }
    true
}

/// A step's skip predicate holds against the request: `is_update=<bool>`
/// compares with the request's update flag, `target_os=<name>` with its
/// platform.  A missing or unknown predicate never skips.
pub open spec fn spec_should_skip(skip_if: Option<Seq<char>>, is_update: bool, platform: Seq<
    char,
>) -> bool {
    match skip_if {
        None => false,
        Some(s) => if s == "is_update=true"@ {
            is_update
        } else if s == "is_update=false"@ {
            !is_update
        } else if spec_match_at(s, 0, "target_os="@) {
            s.subrange(10, s.len() as int) == platform
        } else {
            false
        },
    }
}

/// Whether the step is skipped for this request.
pub fn should_skip_step(step: &BuildStep, request: &BuildRequest) -> (r: bool)
    ensures
        r == spec_should_skip(
            crate::task::spec_opt_view(step.skip_if),
            request.is_update,
            request.platform@,
        ),
{
    match &step.skip_if {
        None => false,
        Some(s) => {
            if crate::text::str_eq_str(s.as_str(), "is_update=true") {
                request.is_update
            } else if crate::text::str_eq_str(s.as_str(), "is_update=false") {
                !request.is_update
            } else if crate::text::starts_with_sub(s.as_str(), "target_os=") {
                proof {
                    reveal_strlit("target_os=");
                }
                let rest = s.as_str().substring_char(10, s.as_str().unicode_len());
                crate::text::str_eq_str(rest, request.platform.as_str())
            } else {
                false
            }
        },
    }
}

/// The `out` directory a build writes to: `out/Release` or `out/Debug`,
/// with the architecture appended, except the legacy `release64` layout on
/// Windows 64-bit release builds.
pub open spec fn spec_out_dir(
    is_debug: bool,
    arch: Option<Seq<char>>,
    is_x64: bool,
    os: Seq<char>,
) -> Seq<char> {
    let build_type: Seq<char> = if is_debug {
        "Debug"@
    } else {
        "Release"@
    };
    let suffix: Seq<char> = match arch {
        Some(a) => "_"@ + a,
        None => Seq::<char>::empty(),
    };
    if os == "windows"@ && is_x64 && !is_debug && suffix == "_x64"@ {
        "release64"@
    } else {
        "out/"@ + build_type + suffix
    }
}

/// Whether the generator defaults ask for a debug build.
pub fn gn_args_have_debug(args: &Vec<String>) -> (r: bool)
    ensures
        r == exists|i: int|
            0 <= i < args@.len() && spec_contains(#[trigger] args@[i]@, "is_debug=true"@),
{
    let n = args.len();
    let mut i: usize = 0;
    while i < n
        invariant
            n == args@.len(),
            i <= n,
            forall|j: int| 0 <= j < i ==> !spec_contains(#[trigger] args@[j]@, "is_debug=true"@),
        decreases n - i,
    {
        if crate::text::contains_sub(args[i].as_str(), "is_debug=true") {
            return true;
        }
        i = i + 1;
    }
    false
}

/// Derives the output directory for a request on the given platform.
pub fn generate_out_dir(is_debug: bool, arch: Option<&str>, is_x64: bool, os: &str) -> (r: String)
    ensures
        r@ == spec_out_dir(
            is_debug,
            match arch {
                Some(a) => Some(a@),
                None => None,
            },
            is_x64,
            os@,
        ),
{
    let is_windows = crate::text::str_eq_str(os, "windows");
    let suffix_is_x64 = match arch {
        Some(a) => crate::text::str_eq_str(a, "x64"),
        None => false,
    };
    proof {
        reveal_strlit("_");
        reveal_strlit("x64");
        reveal_strlit("_x64");
        assert("_x64"@ =~= "_"@ + "x64"@);
    }
    if is_windows && is_x64 && !is_debug && suffix_is_x64 {
        proof {
            assert(match arch {
                Some(a) => ("_"@ + a@) =~= "_x64"@,
                None => false,
            });
        }
        "release64".to_owned()
    } else {
        let mut s = "out/".to_owned();
        if is_debug {
            s.append("Debug");
        } else {
            s.append("Release");
        }
        if let Some(a) = arch {
            s.append("_");
            s.append(a);
        }
        proof {
            if suffix_is_x64 {
                assert(match arch {
                    Some(a) => ("_"@ + a@) =~= "_x64"@,
                    None => true,
                });
            } else {
                assert(match arch {
                    Some(a) => ("_"@ + a@) != "_x64"@,
                    None => true,
                }) by {
                    match arch {
                        Some(a) => {
                            if ("_"@ + a@) == "_x64"@ {
                                assert(a@.len() == 3);
                                assert(a@[0] == ("_"@ + a@)[1]);
                                assert(a@[1] == ("_"@ + a@)[2]);
                                assert(a@[2] == ("_"@ + a@)[3]);
                                assert(a@ =~= "x64"@);
                            }
                        },
                        None => {},
                    }
                }
            }
            assert(s@ =~= spec_out_dir(
                is_debug,
                match arch {
                    Some(a) => Some(a@),
                    None => None,
                },
                is_x64,
                os@,
            ));
        }
        s
    }
}

/// The `target_cpu` argument handed to the project generator for an
/// architecture, quoted for the shell; absent when the architecture is
/// unknown and the request is not an `x64`-class build.
pub open spec fn spec_target_cpu_arg(arch: Option<Seq<char>>, is_x64: bool) -> Option<Seq<char>> {
    match arch {
        Some(a) => if a == "x64"@ || a == "x86"@ || a == "arm64"@ || a == "arm"@ {
            Some("target_cpu=\\\""@ + a + "\\\""@)
        } else if is_x64 {
            Some("target_cpu=\\\"x64\\\""@)
        } else {
            None
        },
        None => if is_x64 {
            Some("target_cpu=\\\"x64\\\""@)
        } else {
            None
        },
    }
}

/// Builds the `target_cpu` generator argument for an architecture.
pub fn target_cpu_arg(arch: Option<&str>, is_x64: bool) -> (r: Option<String>)
    ensures
        crate::task::spec_opt_view(r) == spec_target_cpu_arg(
            match arch {
                Some(a) => Some(a@),
                None => None,
            },
            is_x64,
        ),
{
    proof {
        reveal_strlit("target_cpu=\\\"");
        reveal_strlit("\\\"");
        reveal_strlit("target_cpu=\\\"x64\\\"");
        reveal_strlit("x64");
        assert("target_cpu=\\\"x64\\\""@ =~= "target_cpu=\\\""@ + "x64"@ + "\\\""@);
    }
    match arch {
        Some(a) => {
            if crate::request::is_known_arch(a) {
                let mut s = "target_cpu=\\\"".to_owned();
                s.append(a);
                s.append("\\\"");
                proof {
                    assert(s@ =~= "target_cpu=\\\""@ + a@ + "\\\""@);
                }
                Some(s)
            } else if is_x64 {
                Some("target_cpu=\\\"x64\\\"".to_owned())
            } else {
                None
            }
        },
        None => {
            if is_x64 {
                Some("target_cpu=\\\"x64\\\"".to_owned())
            } else {
                None
            }
        },
    }
}

/// The merged argument list handed to the project generator: the platform
/// defaults, then the `target_cpu` for the requested architecture, then the
/// caller's custom arguments.
pub fn gn_gen_args(
    defaults: &Vec<String>,
    arch: Option<&str>,
    is_x64: bool,
    custom: &Option<Vec<String>>,
) -> (r: Vec<String>)
    ensures
        ({
            let cpu = spec_target_cpu_arg(
                match arch {
                    Some(a) => Some(a@),
                    None => None,
                },
                is_x64,
            );
            let cpu_count: int = if cpu is Some {
                1
            } else {
                0
            };
            let custom_len: int = match custom {
                Some(c) => c@.len() as int,
                None => 0,
            };
            &&& r@.len() == defaults@.len() + cpu_count + custom_len
            &&& forall|i: int| 0 <= i < defaults@.len() ==> #[trigger] r@[i]@ == defaults@[i]@
            &&& (match cpu {
                Some(a) => r@[defaults@.len() as int]@ == a,
                None => true,
            })
            &&& forall|i: int|
                0 <= i < custom_len ==> #[trigger] r@[defaults@.len() + cpu_count + i]@ == (match
                custom {
                    Some(c) => c@[i]@,
                    None => Seq::<char>::empty(),
                })
        }),
{
    let ghost cpu_spec = spec_target_cpu_arg(
        match arch {
            Some(a) => Some(a@),
            None => None,
        },
        is_x64,
    );
    let mut out: Vec<String> = Vec::new();
    let nd = defaults.len();
    let mut i: usize = 0;
    while i < nd
        invariant
            nd == defaults@.len(),
            i <= nd,
            out@.len() == i,
            forall|j: int| 0 <= j < i ==> #[trigger] out@[j]@ == defaults@[j]@,
        decreases nd - i,
    {
        out.push(defaults[i].clone());
        i = i + 1;
    }
    let cpu = target_cpu_arg(arch, is_x64);
    let ghost cpu_count: int = if cpu_spec is Some {
        1
    } else {
        0
    };
    if let Some(cpu_arg) = cpu {
        out.push(cpu_arg);
    }
    let ghost mid = nd + cpu_count;
    proof {
        assert(out@.len() == mid);
    }
    if let Some(c) = custom {
        let nc = c.len();
        let mut k: usize = 0;
        while k < nc
            invariant
                nd == defaults@.len(),
                nc == c@.len(),
                k <= nc,
                mid == nd + cpu_count,
                cpu_count == if cpu_spec is Some {
                    1int
                } else {
                    0int
                },
                out@.len() == mid + k,
                forall|j: int| 0 <= j < nd ==> #[trigger] out@[j]@ == defaults@[j]@,
                (match cpu_spec {
                    Some(a) => out@[nd as int]@ == a,
                    None => true,
                }),
                forall|j: int| 0 <= j < k ==> #[trigger] out@[mid + j]@ == c@[j]@,
            decreases nc - k,
        {
            out.push(c[k].clone());
            k = k + 1;
        }
    }
    out
}

/// The compiler invocation for a target in an output directory.
pub fn ninja_command(out_dir: &str, target: &str) -> (r: String)
    ensures
        r@ == "ninja -C "@ + out_dir@ + " "@ + target@,
{
    let mut s = "ninja -C ".to_owned();
    s.append(out_dir);
    s.append(" ");
    s.append(target);
    proof {
        assert(s@ =~= "ninja -C "@ + out_dir@ + " "@ + target@);
    }
    s
}

/// How a finished compiler invocation is judged.
#[derive(Clone, Copy, Debug, PartialEq, Eq, Structural)]
pub enum NinjaOutcome {
    /// Exit status zero: the step succeeded.
    Done,
    /// Non-zero exit whose error text names an unknown target: the step is
    /// skipped, not failed, so step lists may name optional targets.
    SkippedMissingTarget,
    /// Any other non-zero exit: the step failed.
    Failed,
}

/// Judges a compiler exit: success passes; an unknown target is a skip;
/// everything else fails the step.
pub fn classify_ninja_exit(exit_ok: bool, stderr_text: &str) -> (r: NinjaOutcome)
    ensures
        exit_ok ==> r == NinjaOutcome::Done,
        !exit_ok && spec_contains(stderr_text@, "unknown target"@) ==> r
            == NinjaOutcome::SkippedMissingTarget,
        !exit_ok && !spec_contains(stderr_text@, "unknown target"@) ==> r == NinjaOutcome::Failed,
{
    if exit_ok {
        NinjaOutcome::Done
    } else if crate::text::contains_sub(stderr_text, "unknown target") {
        NinjaOutcome::SkippedMissingTarget
    } else {
        NinjaOutcome::Failed
    }
}

/// What the executor must do for one configured step of a task.
#[derive(Clone, Copy, Debug, PartialEq, Eq, Structural)]
pub enum StepAction {
    /// The skip predicate held: nothing runs, the pipeline continues.
    Skip,
    /// Source update: stash, optional commit checkout, branch checkout,
    /// pull with retries.
    GitUpdate,
    /// Read the current commit hash and write it to the whole family.
    GitGetCommit,
    /// Remove the output directory (full builds) and the configured
    /// clean paths.
    Clean,
    /// Run the project generator with the merged argument list.
    GnGen,
    /// Run the compiler against the step's target.
    Ninja,
    /// A declared step with nothing to run here; the pipeline continues.
    NoOp,
    /// Build the platform installer.
    Installer,
    /// A macOS child stops before packaging and completes; the parent
    /// packages once after the combine step.
    FinishChildForCombine,
    /// Merge the per-architecture outputs; only reachable once every child
    /// is past its compile step.
    Combine,
    /// The combine step may not start yet: some child has not reached its
    /// compile step.  Try again later.
    CombineNotReady,
    /// The combine step is not applicable: wrong platform, fewer than two
    /// architectures, a child task, or fewer than two children.
    CombineRejected,
}

/// The action the executor takes for `step`, given the request, whether
/// the task is a child, how many children its family has, and whether all
/// children have passed their compile step.
pub open spec fn spec_plan_step(
    step: &BuildStep,
    req: &BuildRequest,
    is_child: bool,
    child_count: int,
    all_children_past: bool,
) -> StepAction {
    if spec_should_skip(crate::task::spec_opt_view(step.skip_if), req.is_update, req.platform@) {
        StepAction::Skip
    } else if step.step_type@ == "git"@ {
        match crate::task::spec_opt_view(step.target) {
            Some(t) => if t == "update"@ {
                StepAction::GitUpdate
            } else if t == "get_commit_id"@ {
                StepAction::GitGetCommit
            } else {
                StepAction::NoOp
            },
            None => StepAction::NoOp,
        }
    } else if step.step_type@ == "clean"@ {
        StepAction::Clean
    } else if step.step_type@ == "gn_gen"@ {
        StepAction::GnGen
    } else if step.step_type@ == "ninja"@ {
        if step.target is Some {
            StepAction::Ninja
        } else {
            StepAction::NoOp
        }
    } else if step.step_type@ == "installer"@ {
        if is_child && req.platform@ == "macos"@ {
            StepAction::FinishChildForCombine
        } else {
            StepAction::Installer
        }
    } else if step.step_type@ == "combine"@ {
        if req.platform@ != "macos"@ || req.architectures@.len() < 2 || is_child || child_count
            < 2 {
            StepAction::CombineRejected
        } else if !all_children_past {
            StepAction::CombineNotReady
        } else {
            StepAction::Combine
        }
    } else {
        StepAction::NoOp
    }
}

/// Decides one pipeline step.  The combine action is handed out only when
/// the task is a parent with at least two children, the platform is macOS,
/// and every child has passed its compile step: the fan-in gate.
pub fn plan_step(
    step: &BuildStep,
    req: &BuildRequest,
    is_child: bool,
    child_count: usize,
    all_children_past: bool,
) -> (r: StepAction)
    ensures
        r == spec_plan_step(step, req, is_child, child_count as int, all_children_past),
        r == StepAction::Combine ==> all_children_past,
{
    if should_skip_step(step, req) {
        return StepAction::Skip;
    }
    let ty = step.step_type.as_str();
    if crate::text::str_eq_str(ty, "git") {
        match &step.target {
            Some(t) => {
                if crate::text::str_eq_str(t.as_str(), "update") {
                    StepAction::GitUpdate
                } else if crate::text::str_eq_str(t.as_str(), "get_commit_id") {
                    StepAction::GitGetCommit
                } else {
                    StepAction::NoOp
                }
            },
            None => StepAction::NoOp,
        }
    } else if crate::text::str_eq_str(ty, "clean") {
        StepAction::Clean
    } else if crate::text::str_eq_str(ty, "gn_gen") {
        StepAction::GnGen
    } else if crate::text::str_eq_str(ty, "ninja") {
        if step.target.is_some() {
            StepAction::Ninja
        } else {
            StepAction::NoOp
        }
    } else if crate::text::str_eq_str(ty, "installer") {
        if is_child && crate::text::str_eq_str(req.platform.as_str(), "macos") {
            StepAction::FinishChildForCombine
        } else {
            StepAction::Installer
        }
    } else if crate::text::str_eq_str(ty, "combine") {
        if !crate::text::str_eq_str(req.platform.as_str(), "macos") || req.architectures.len() < 2
            || is_child || child_count < 2 {
            StepAction::CombineRejected
        } else if !all_children_past {
            StepAction::CombineNotReady
        } else {
            StepAction::Combine
        }
    } else {
        StepAction::NoOp
    }
}

/// The platform is taken for macOS when the request says so, or when the
/// server name carries a macOS marker.
pub open spec fn spec_infer_macos(platform: Seq<char>, server: Seq<char>) -> bool {
    platform == "macos"@ || spec_contains(server, "macos"@) || spec_contains(server, "193"@)
}

/// Whether a just-finished step makes this child responsible for arming
/// its parent's combine step: it was the compile step of a macOS child and
/// every sibling has now passed theirs.
pub fn should_arm_parent(
    step: &BuildStep,
    req: &BuildRequest,
    is_child: bool,
    all_children_past: bool,
) -> (r: bool)
    ensures
        r == (is_child && step.step_type@ == "ninja"@ && crate::task::spec_opt_view(step.target)
            == Some("chrome"@) && spec_infer_macos(req.platform@, req.server@)
            && all_children_past),
{
    if !is_child || !all_children_past {
        return false;
    }
    if !crate::text::str_eq_str(step.step_type.as_str(), "ninja") {
        return false;
    }
    let target_is_chrome = match &step.target {
        Some(t) => crate::text::str_eq_str(t.as_str(), "chrome"),
        None => false,
    };
    if !target_is_chrome {
        return false;
    }
    crate::text::str_eq_str(req.platform.as_str(), "macos") || crate::text::contains_sub(
        req.server.as_str(),
        "macos",
    ) || crate::text::contains_sub(req.server.as_str(), "193")
}

/// The output directory that holds one architecture's build during a
/// combine, when the architecture takes part in one.
pub open spec fn spec_arch_out_dir(a: Seq<char>) -> Option<Seq<char>> {
    if a == "arm64"@ {
        Some("out/Release_arm64"@)
    } else if a == "x64"@ {
        Some("out/Release_x64"@)
    } else {
        None
    }
}

/// The per-architecture output directories a combine step merges, in
/// request order; architectures that do not take part are left out.
pub open spec fn spec_combine_dirs(archs: Seq<Seq<char>>) -> Seq<Seq<char>>
    decreases archs.len(),
{
    if archs.len() == 0 {
        Seq::<Seq<char>>::empty()
    } else {
        (match spec_arch_out_dir(archs[0]) {
            Some(d) => seq![d],
            None => Seq::<Seq<char>>::empty(),
        }) + spec_combine_dirs(archs.drop_first())
    }
}

/// Collecting combine directories grows one element at a time from the
/// left.
proof fn lemma_combine_dirs_push(archs: Seq<Seq<char>>, x: Seq<char>)
    ensures
        spec_combine_dirs(archs.push(x)) == spec_combine_dirs(archs) + (match spec_arch_out_dir(
            x,
        ) {
            Some(d) => seq![d],
            None => Seq::<Seq<char>>::empty(),
        }),
    decreases archs.len(),
{
    if archs.len() == 0 {
        assert(archs.push(x)[0] == x);
        assert(archs.push(x).drop_first() =~= Seq::<Seq<char>>::empty());
        assert(spec_combine_dirs(Seq::<Seq<char>>::empty()) == Seq::<Seq<char>>::empty());
        assert(archs =~= Seq::<Seq<char>>::empty());
        assert(spec_combine_dirs(archs.push(x)) =~= spec_combine_dirs(archs) + (match
        spec_arch_out_dir(x) {
            Some(d) => seq![d],
            None => Seq::<Seq<char>>::empty(),
        }));
    } else {
        assert(archs.push(x).drop_first() =~= archs.drop_first().push(x));
        lemma_combine_dirs_push(archs.drop_first(), x);
        assert(archs.push(x)[0] == archs[0]);
        let head = match spec_arch_out_dir(archs[0]) {
            Some(d) => seq![d],
            None => Seq::<Seq<char>>::empty(),
        };
        let piece = match spec_arch_out_dir(x) {
            Some(d) => seq![d],
            None => Seq::<Seq<char>>::empty(),
        };
        assert(spec_combine_dirs(archs.push(x)) == head + spec_combine_dirs(
            archs.drop_first().push(x),
        ));
        assert(spec_combine_dirs(archs.drop_first().push(x)) == spec_combine_dirs(
            archs.drop_first(),
        ) + piece);
        assert(spec_combine_dirs(archs) == head + spec_combine_dirs(archs.drop_first()));
        assert(head + (spec_combine_dirs(archs.drop_first()) + piece) =~= (head
            + spec_combine_dirs(archs.drop_first())) + piece);
    }
}

/// The per-architecture output directories a combine step reads.
pub fn combine_source_dirs(architectures: &Vec<String>) -> (r: Vec<String>)
    ensures
        crate::queue::spec_string_views(r@) == spec_combine_dirs(
            crate::queue::spec_string_views(architectures@),
        ),
{
    let n = architectures.len();
    let mut out: Vec<String> = Vec::new();
    let mut i: usize = 0;
    proof {
        assert(crate::queue::spec_string_views(architectures@.subrange(0, 0)) =~= Seq::<
            Seq<char>,
        >::empty());
        assert(crate::queue::spec_string_views(out@) =~= spec_combine_dirs(
            crate::queue::spec_string_views(architectures@.subrange(0, 0)),
        ));
    }
    while i < n
        invariant
            n == architectures@.len(),
            i <= n,
            crate::queue::spec_string_views(out@) == spec_combine_dirs(
                crate::queue::spec_string_views(architectures@.subrange(0, i as int)),
            ),
        decreases n - i,
    {
        proof {
            assert(crate::queue::spec_string_views(architectures@.subrange(0, i + 1))
                =~= crate::queue::spec_string_views(architectures@.subrange(0, i as int)).push(
                architectures@[i as int]@,
            ));
            lemma_combine_dirs_push(
                crate::queue::spec_string_views(architectures@.subrange(0, i as int)),
                architectures@[i as int]@,
            );
        }
        let ghost pre = crate::queue::spec_string_views(out@);
        if crate::text::str_eq_str(architectures[i].as_str(), "arm64") {
            out.push("out/Release_arm64".to_owned());
            proof {
                assert(crate::queue::spec_string_views(out@) =~= pre.push("out/Release_arm64"@));
                assert(crate::queue::spec_string_views(out@) =~= spec_combine_dirs(
                    crate::queue::spec_string_views(architectures@.subrange(0, i + 1)),
                ));
            }
        } else if crate::text::str_eq_str(architectures[i].as_str(), "x64") {
            out.push("out/Release_x64".to_owned());
            proof {
                assert(crate::queue::spec_string_views(out@) =~= pre.push("out/Release_x64"@));
                assert(crate::queue::spec_string_views(out@) =~= spec_combine_dirs(
                    crate::queue::spec_string_views(architectures@.subrange(0, i + 1)),
                ));
            }
        } else {
            proof {
                assert(crate::queue::spec_string_views(out@) =~= spec_combine_dirs(
                    crate::queue::spec_string_views(architectures@.subrange(0, i + 1)),
                ));
            }
        }
        i = i + 1;
    }
    proof {
        assert(architectures@.subrange(0, n as int) =~= architectures@);
    }
    out
}

/// The directory the combined universal build is assembled in.
pub fn universal_out_dir() -> (r: &'static str)
    ensures
        r@ == "out/Release_universal"@,
{
    "out/Release_universal"
}

} // verus!

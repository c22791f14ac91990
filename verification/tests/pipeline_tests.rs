use buildhub::config::BuildStep;
use buildhub::pipeline;
use buildhub::pipeline::NinjaOutcome;
use buildhub::pipeline::StepAction;
use buildhub::request::BuildRequest;

fn request(platform: &str, architectures: &[&str], is_update: bool) -> BuildRequest {
    BuildRequest {
        branch: String::from("main"),
        commit_id: None,
        pkg_flag: String::from("r"),
        is_update,
        is_x64: true,
        architectures: architectures.iter().map(|a| String::from(*a)).collect(),
        platform: String::from(platform),
        is_increment: false,
        is_signed: false,
        server: String::from("W1"),
        custom_args: None,
        emails: None,
        installer_format: None,
    }
}

fn step(kind: &str, target: Option<&str>, skip_if: Option<&str>) -> BuildStep {
    BuildStep {
        name: String::from(kind),
        step_type: String::from(kind),
        target: target.map(String::from),
        state: None,
        skip_if: skip_if.map(String::from),
        description: None,
    }
}

#[test]
fn minimal_progress_line_matches() {
    // The lower bound of the pattern: a zero-of-zero counter.
    assert!(pipeline::is_progress_line("[0/0]"));
}

#[test]
fn progress_lines_in_the_wild() {
    assert!(pipeline::is_progress_line("[390/51744] CXX obj/chrome/browser.o"));
    assert!(pipeline::is_progress_line("   [1660/37976] COPY something"));
    assert!(pipeline::is_progress_line("\t[1/2] STAMP x"));
}

#[test]
fn non_progress_lines_do_not_match() {
    assert!(!pipeline::is_progress_line("ninja: entering directory"));
    assert!(!pipeline::is_progress_line("x [1/2] not at the start"));
    assert!(!pipeline::is_progress_line("[a/2] letters"));
    assert!(!pipeline::is_progress_line("[12] no slash"));
    assert!(!pipeline::is_progress_line("[1/2 no close"));
    assert!(!pipeline::is_progress_line("[/2] missing first number"));
    assert!(!pipeline::is_progress_line("[1/] missing second number"));
    assert!(!pipeline::is_progress_line(""));
}

#[test]
fn ninja_exit_classification() {
    assert_eq!(pipeline::classify_ninja_exit(true, ""), NinjaOutcome::Done);
    assert_eq!(
        pipeline::classify_ninja_exit(false, "ninja: error: unknown target 'pre_build'"),
        NinjaOutcome::SkippedMissingTarget
    );
    assert_eq!(
        pipeline::classify_ninja_exit(false, "compile error in foo.cc"),
        NinjaOutcome::Failed
    );
}

#[test]
fn skip_predicates_follow_the_request() {
    let update_step = step("git", Some("update"), Some("is_update=false"));
    assert!(pipeline::should_skip_step(&update_step, &request("windows", &["x64"], false)));
    assert!(!pipeline::should_skip_step(&update_step, &request("windows", &["x64"], true)));
    let os_step = step("installer", None, Some("target_os=macos"));
    assert!(pipeline::should_skip_step(&os_step, &request("macos", &["arm64"], false)));
    assert!(!pipeline::should_skip_step(&os_step, &request("windows", &["x64"], false)));
    let plain = step("clean", None, None);
    assert!(!pipeline::should_skip_step(&plain, &request("windows", &["x64"], false)));
}

#[test]
fn output_directory_layouts() {
    assert_eq!(pipeline::generate_out_dir(false, Some("x64"), true, "windows"), "release64");
    assert_eq!(pipeline::generate_out_dir(false, Some("x64"), false, "windows"), "out/Release_x64");
    assert_eq!(pipeline::generate_out_dir(true, Some("x64"), true, "windows"), "out/Debug_x64");
    assert_eq!(pipeline::generate_out_dir(false, Some("arm64"), false, "macos"), "out/Release_arm64");
    assert_eq!(pipeline::generate_out_dir(false, None, false, "linux"), "out/Release");
    assert_eq!(pipeline::generate_out_dir(true, None, false, "macos"), "out/Debug");
}

#[test]
fn generator_arguments_merge_in_order() {
    let defaults = vec![String::from("is_official_build=true")];
    let custom = Some(vec![String::from("use_goma=false")]);
    let args = pipeline::gn_gen_args(&defaults, Some("arm64"), false, &custom);
    assert_eq!(
        args,
        vec![
            String::from("is_official_build=true"),
            String::from("target_cpu=\\\"arm64\\\""),
            String::from("use_goma=false"),
        ]
    );
    let no_cpu = pipeline::gn_gen_args(&Vec::new(), Some("mips"), false, &None);
    assert_eq!(no_cpu.len(), 0);
    let inferred = pipeline::gn_gen_args(&Vec::new(), None, true, &None);
    assert_eq!(inferred, vec![String::from("target_cpu=\\\"x64\\\"")]);
}

#[test]
fn debug_flag_detection() {
    assert!(pipeline::gn_args_have_debug(&vec![String::from("is_debug=true")]));
    assert!(!pipeline::gn_args_have_debug(&vec![String::from("is_debug=false")]));
    assert!(!pipeline::gn_args_have_debug(&Vec::new()));
}

#[test]
fn ninja_command_text() {
    assert_eq!(pipeline::ninja_command("out/Release_x64", "chrome"), "ninja -C out/Release_x64 chrome");
}

#[test]
fn step_dispatch() {
    let req = request("windows", &["x64"], false);
    assert_eq!(
        pipeline::plan_step(&step("git", Some("update"), None), &req, false, 0, false),
        StepAction::GitUpdate
    );
    assert_eq!(
        pipeline::plan_step(&step("git", Some("get_commit_id"), None), &req, false, 0, false),
        StepAction::GitGetCommit
    );
    assert_eq!(pipeline::plan_step(&step("clean", None, None), &req, false, 0, false), StepAction::Clean);
    assert_eq!(pipeline::plan_step(&step("gn_gen", None, None), &req, false, 0, false), StepAction::GnGen);
    assert_eq!(
        pipeline::plan_step(&step("ninja", Some("chrome"), None), &req, false, 0, false),
        StepAction::Ninja
    );
    assert_eq!(pipeline::plan_step(&step("ninja", None, None), &req, false, 0, false), StepAction::NoOp);
    assert_eq!(
        pipeline::plan_step(&step("installer", None, None), &req, false, 0, false),
        StepAction::Installer
    );
    assert_eq!(pipeline::plan_step(&step("backup", None, None), &req, false, 0, false), StepAction::NoOp);
}

#[test]
fn macos_child_skips_packaging() {
    let req = request("macos", &["arm64"], false);
    assert_eq!(
        pipeline::plan_step(&step("installer", None, None), &req, true, 0, false),
        StepAction::FinishChildForCombine
    );
    assert_eq!(
        pipeline::plan_step(&step("installer", None, None), &req, false, 0, false),
        StepAction::Installer
    );
}

#[test]
fn combine_waits_for_every_child() {
    let req = request("macos", &["arm64", "x64"], false);
    // Combine never fires before every child has passed its compile step.
    assert_eq!(
        pipeline::plan_step(&step("combine", None, None), &req, false, 2, false),
        StepAction::CombineNotReady
    );
    assert_eq!(
        pipeline::plan_step(&step("combine", None, None), &req, false, 2, true),
        StepAction::Combine
    );
    assert_eq!(
        pipeline::plan_step(&step("combine", None, None), &req, true, 2, true),
        StepAction::CombineRejected
    );
    assert_eq!(
        pipeline::plan_step(&step("combine", None, None), &req, false, 1, true),
        StepAction::CombineRejected
    );
    let windows = request("windows", &["x64", "x86"], false);
    assert_eq!(
        pipeline::plan_step(&step("combine", None, None), &windows, false, 2, true),
        StepAction::CombineRejected
    );
}

#[test]
fn the_last_child_past_chrome_arms_the_parent() {
    let req = request("macos", &["arm64", "x64"], false);
    let chrome = step("ninja", Some("chrome"), None);
    assert!(pipeline::should_arm_parent(&chrome, &req, true, true));
    assert!(!pipeline::should_arm_parent(&chrome, &req, true, false));
    assert!(!pipeline::should_arm_parent(&chrome, &req, false, true));
    let base = step("ninja", Some("base"), None);
    assert!(!pipeline::should_arm_parent(&base, &req, true, true));
    let windows = request("windows", &["x64"], false);
    assert!(!pipeline::should_arm_parent(&chrome, &windows, true, true));
}

#[test]
fn combine_reads_release_directories() {
    let archs = vec![String::from("arm64"), String::from("x64"), String::from("mips")];
    let dirs = pipeline::combine_source_dirs(&archs);
    assert_eq!(dirs, vec![String::from("out/Release_arm64"), String::from("out/Release_x64")]);
    assert_eq!(pipeline::universal_out_dir(), "out/Release_universal");
}

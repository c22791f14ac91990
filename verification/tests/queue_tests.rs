use buildhub::error::AppError;
use buildhub::queue;
use buildhub::request::BuildRequest;
use buildhub::state::TaskState;
use buildhub::store::TaskStore;
use buildhub::task::CreateTask;

fn request(server: &str, platform: &str, architectures: &[&str]) -> BuildRequest {
    BuildRequest {
        branch: String::from("main"),
        commit_id: None,
        pkg_flag: String::from("r"),
        is_update: false,
        is_x64: true,
        architectures: architectures.iter().map(|a| String::from(*a)).collect(),
        platform: String::from(platform),
        is_increment: false,
        is_signed: false,
        server: String::from(server),
        custom_args: None,
        emails: None,
        installer_format: None,
    }
}

fn filler(server: &str) -> CreateTask {
    CreateTask {
        branch: String::from("main"),
        oem_name: String::new(),
        commit_id: String::new(),
        pkg_flag: String::from("r"),
        is_increment: false,
        is_signed: false,
        server: String::from(server),
        parent_id: None,
        architecture: Some(String::from("x64")),
        installer_format: None,
    }
}

#[test]
fn queueing_on_a_busy_server() {
    let mut store = TaskStore::new();
    for _ in 0..99 {
        store.create(&filler("other"), "t").unwrap();
    }
    let running = store.create(&filler("W1"), "t").unwrap();
    assert_eq!(running, 100);
    store.update_state(running, TaskState::BuildingChrome, None);
    let res = queue::submit(&mut store, &request("W1", "windows", &["x64"]), "t").unwrap();
    assert_eq!(res.task_ids, vec![101]);
    assert!(res.queued);
    assert_eq!(res.queue_position, 1);
    assert_eq!(
        res.message,
        "Build task created (task_id: 101), queued and waiting (queue position: 1)"
    );
    assert_eq!(store.find(101).unwrap().state, TaskState::Pending);
}

#[test]
fn single_architecture_creates_no_parent_row() {
    let mut store = TaskStore::new();
    let res = queue::submit(&mut store, &request("W1", "windows", &["x64"]), "t").unwrap();
    assert!(!res.queued);
    assert_eq!(res.task_ids, vec![1]);
    assert_eq!(res.message, "Build task started, task_id: 1");
    assert_eq!(store.task_count(), 1);
    let t = store.find(1).unwrap();
    assert_eq!(t.parent_id, None);
    assert_eq!(t.architecture.as_deref(), Some("x64"));
    assert_eq!(t.pkg_flag, "r [x64]");
}

#[test]
fn multi_architecture_creates_parent_and_children() {
    let mut store = TaskStore::new();
    let res = queue::submit(&mut store, &request("M1", "macos", &["arm64", "x64"]), "t").unwrap();
    assert_eq!(res.task_ids, vec![1]);
    assert_eq!(store.task_count(), 3);
    let parent = store.find(1).unwrap();
    assert_eq!(parent.parent_id, None);
    assert_eq!(parent.architecture, None);
    assert_eq!(parent.pkg_flag, "r [arm64, x64]");
    let c1 = store.find(2).unwrap();
    let c2 = store.find(3).unwrap();
    assert_eq!(c1.parent_id, Some(1));
    assert_eq!(c1.architecture.as_deref(), Some("arm64"));
    assert_eq!(c1.pkg_flag, "r [arm64]");
    assert_eq!(c2.parent_id, Some(1));
    assert_eq!(c2.architecture.as_deref(), Some("x64"));
}

#[test]
fn macos_fan_in_promotes_children_in_order() {
    let mut store = TaskStore::new();
    queue::submit(&mut store, &request("M1", "macos", &["arm64", "x64"]), "t").unwrap();
    // Promotion picks the arm64 child first, then the x64 child.
    assert_eq!(queue::promote(&mut store, "M1"), Some(2));
    assert_eq!(store.find(2).unwrap().state, TaskState::StartBuild);
    store.update_state(2, TaskState::BuildingChrome, None);
    assert_eq!(queue::on_terminal(&mut store, "M1", false), Some(3));
    store.update_state(3, TaskState::BuildingChrome, None);
    assert!(store.all_children_past_chrome(1));
}

#[test]
fn validation_rejects_bad_requests() {
    let mut store = TaskStore::new();
    let mut bad = request("W1", "windows", &["x64"]);
    bad.branch = String::new();
    assert!(matches!(queue::submit(&mut store, &bad, "t"), Err(AppError::Validation)));
    let mut no_arch = request("W1", "windows", &[]);
    no_arch.architectures = Vec::new();
    assert!(matches!(queue::submit(&mut store, &no_arch, "t"), Err(AppError::Validation)));
    let unknown_arch = request("W1", "windows", &["sparc"]);
    assert!(matches!(queue::submit(&mut store, &unknown_arch, "t"), Err(AppError::Validation)));
    assert_eq!(store.task_count(), 0);
}

#[test]
fn queue_positions_count_prior_depth() {
    let mut store = TaskStore::new();
    let first = queue::submit(&mut store, &request("W1", "windows", &["x64"]), "t").unwrap();
    assert!(!first.queued);
    assert_eq!(first.queue_position, 0);
    assert_eq!(queue::promote(&mut store, "W1"), Some(1));
    let second = queue::submit(&mut store, &request("W1", "windows", &["x64"]), "t").unwrap();
    assert!(second.queued);
    assert_eq!(second.queue_position, 1);
    let third = queue::submit(&mut store, &request("W1", "windows", &["x64"]), "t").unwrap();
    assert!(third.queued);
    assert_eq!(third.queue_position, 1);
    assert_eq!(store.task_count(), 3);
}

#[test]
fn cancellation_does_not_chain_promotion() {
    let mut store = TaskStore::new();
    queue::submit(&mut store, &request("W1", "windows", &["x64"]), "t").unwrap();
    queue::promote(&mut store, "W1");
    queue::submit(&mut store, &request("W1", "windows", &["x64"]), "t").unwrap();
    // The running task is cancelled: nothing is chained automatically.
    store.update_state(1, TaskState::Cancelled, None);
    assert_eq!(queue::on_terminal(&mut store, "W1", true), None);
    assert_eq!(store.find(2).unwrap().state, TaskState::Pending);
    // An explicit promotion afterwards picks the next pending task.
    assert_eq!(queue::promote(&mut store, "W1"), Some(2));
}

#[test]
fn cancellation_mid_compile_removes_the_row() {
    let mut store = TaskStore::new();
    for _ in 0..41 {
        store.create(&filler("other"), "t").unwrap();
    }
    let id = store.create(&filler("W1"), "t").unwrap();
    assert_eq!(id, 42);
    store.update_state(id, TaskState::BuildingChrome, None);
    let cancels = queue::delete_task(&mut store, id).unwrap();
    assert_eq!(cancels, vec![42]);
    assert!(store.find(42).is_none());
    assert_eq!(queue::on_terminal(&mut store, "W1", true), None);
}

#[test]
fn parent_delete_cascades_over_children() {
    let mut store = TaskStore::new();
    queue::submit(&mut store, &request("M1", "macos", &["arm64", "x64"]), "t").unwrap();
    store.update_state(2, TaskState::BuildingChrome, None);
    // Child 3 stays pending; the parent row is still pending too.
    let cancels = queue::delete_task(&mut store, 1).unwrap();
    assert_eq!(cancels, vec![2, 3]);
    assert!(store.find(1).is_none());
    assert!(store.find(2).is_none());
    assert!(store.find(3).is_none());
}

#[test]
fn delete_unknown_task_reports_not_found() {
    let mut store = TaskStore::new();
    assert_eq!(queue::delete_task(&mut store, 7), Err(AppError::NotFound));
}

#[test]
fn promote_on_empty_server_does_nothing() {
    let mut store = TaskStore::new();
    assert_eq!(queue::promote(&mut store, "W1"), None);
}

#[test]
fn error_kinds_have_names() {
    assert_eq!(AppError::Validation.as_str(), "validation error");
    assert_eq!(AppError::Storage.as_str(), "storage error");
    assert_eq!(AppError::Subprocess.as_str(), "subprocess error");
    assert_eq!(AppError::Cancelled.as_str(), "task cancelled");
    assert_eq!(AppError::NotFound.as_str(), "not found");
    assert_eq!(AppError::Skip.as_str(), "step skipped");
}

#[test]
fn promotion_leaves_a_row_without_architecture_pending() {
    let mut store = TaskStore::new();
    let bare = store
        .create(
            &CreateTask {
                branch: String::from("main"),
                oem_name: String::new(),
                commit_id: String::new(),
                pkg_flag: String::from("r"),
                is_increment: false,
                is_signed: false,
                server: String::from("M1"),
                parent_id: None,
                architecture: None,
                installer_format: None,
            },
            "t",
        )
        .unwrap();
    // A row without an architecture cannot be handed to the executor, so
    // promotion starts nothing and the row stays where it was.
    assert_eq!(queue::promote(&mut store, "M1"), None);
    assert_eq!(store.find(bare).unwrap().state, TaskState::Pending);
}

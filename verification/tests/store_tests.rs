use buildhub::state::TaskState;
use buildhub::store::TaskStore;
use buildhub::task::CreateTask;

fn plain_create(server: &str, parent_id: Option<i64>, architecture: Option<&str>) -> CreateTask {
    CreateTask {
        branch: String::from("main"),
        oem_name: String::new(),
        commit_id: String::new(),
        pkg_flag: String::from("r"),
        is_increment: false,
        is_signed: false,
        server: String::from(server),
        parent_id,
        architecture: architecture.map(String::from),
        installer_format: None,
    }
}

#[test]
fn create_assigns_increasing_ids() {
    let mut store = TaskStore::new();
    let a = store.create(&plain_create("W1", None, Some("x64")), "t0").unwrap();
    let b = store.create(&plain_create("W1", None, Some("x64")), "t1").unwrap();
    assert_eq!(a, 1);
    assert_eq!(b, 2);
    let t = store.find(a).unwrap();
    assert_eq!(t.state, TaskState::Pending);
    assert_eq!(t.server, "W1");
    assert_eq!(t.start_time, "t0");
    assert!(store.find(99).is_none());
}

#[test]
fn running_queries_ignore_pending_and_terminal() {
    let mut store = TaskStore::new();
    let a = store.create(&plain_create("W1", None, Some("x64")), "t").unwrap();
    let b = store.create(&plain_create("W1", None, Some("x64")), "t").unwrap();
    let c = store.create(&plain_create("W2", None, Some("x64")), "t").unwrap();
    assert!(!store.has_running("W1"));
    store.update_state(a, TaskState::BuildingChrome, None);
    store.update_state(b, TaskState::Success, None);
    store.update_state(c, TaskState::Cancelled, None);
    assert!(store.has_running("W1"));
    assert!(!store.has_running("W2"));
    assert_eq!(store.running_count("W1"), 1);
    assert_eq!(store.running_count("W2"), 0);
}

#[test]
fn family_commit_reaches_parent_and_all_siblings() {
    let mut store = TaskStore::new();
    let parent = store.create(&plain_create("M1", None, None), "t").unwrap();
    let c1 = store.create(&plain_create("M1", Some(parent), Some("arm64")), "t").unwrap();
    let c2 = store.create(&plain_create("M1", Some(parent), Some("x64")), "t").unwrap();
    let other = store.create(&plain_create("M1", None, Some("x64")), "t").unwrap();
    store.update_family_commit(c1, "abc123").unwrap();
    assert_eq!(store.find(parent).unwrap().commit_id, "abc123");
    assert_eq!(store.find(c1).unwrap().commit_id, "abc123");
    assert_eq!(store.find(c2).unwrap().commit_id, "abc123");
    assert_eq!(store.find(other).unwrap().commit_id, "");
    assert!(store.update_family_commit(999, "zzz").is_err());
}

#[test]
fn append_log_caps_at_one_hundred_thousand_characters() {
    let mut store = TaskStore::new();
    let id = store.create(&plain_create("W1", None, Some("x64")), "t").unwrap();
    store.append_log(id, "first line");
    assert_eq!(store.get_build_log(id).unwrap(), "first line");
    store.append_log(id, "second line");
    assert_eq!(store.get_build_log(id).unwrap(), "first line\nsecond line");
    let huge = "x".repeat(120_000);
    store.append_log(id, &huge);
    let log = store.get_build_log(id).unwrap();
    assert_eq!(log.chars().count(), 100_000);
    assert!(log.chars().all(|c| c == 'x'));
}

#[test]
fn reset_orphaned_fails_only_running_tasks() {
    let mut store = TaskStore::new();
    let filler = store.create(&plain_create("W9", None, Some("x64")), "t").unwrap();
    for _ in 0..8 {
        store.create(&plain_create("W9", None, Some("x64")), "t").unwrap();
    }
    let t10 = store.create(&plain_create("W1", None, Some("x64")), "t").unwrap();
    let t11 = store.create(&plain_create("W1", None, Some("x64")), "t").unwrap();
    let t12 = store.create(&plain_create("W1", None, Some("x64")), "t").unwrap();
    assert_eq!((t10, t11, t12), (10, 11, 12));
    store.update_state(filler, TaskState::Success, None);
    store.update_state(t10, TaskState::BuildingBase, None);
    store.update_state(t12, TaskState::Success, None);
    let count = store.reset_orphaned("2024-01-01 00:00:00");
    assert_eq!(count, 1);
    let a = store.find(t10).unwrap();
    assert_eq!(a.state, TaskState::Failed);
    assert_eq!(a.end_time.as_deref(), Some("2024-01-01 00:00:00"));
    assert_eq!(store.find(t11).unwrap().state, TaskState::Pending);
    assert_eq!(store.find(t12).unwrap().state, TaskState::Success);
    // The next promotion on that server picks the untouched pending task.
    assert_eq!(store.next_pending_single("W1"), Some(t11));
}

#[test]
fn delete_cascades_to_children() {
    let mut store = TaskStore::new();
    let parent = store.create(&plain_create("M1", None, None), "t").unwrap();
    let c1 = store.create(&plain_create("M1", Some(parent), Some("arm64")), "t").unwrap();
    let single = store.create(&plain_create("M1", None, Some("x64")), "t").unwrap();
    store.delete(parent);
    assert!(store.find(parent).is_none());
    assert!(store.find(c1).is_none());
    assert!(store.find(single).is_some());
}

#[test]
fn pending_queries_prefer_ordering() {
    let mut store = TaskStore::new();
    let s1 = store.create(&plain_create("W1", None, Some("x64")), "t").unwrap();
    let parent = store.create(&plain_create("W1", None, None), "t").unwrap();
    let c1 = store.create(&plain_create("W1", Some(parent), Some("x64")), "t").unwrap();
    let c2 = store.create(&plain_create("W1", Some(parent), Some("x86")), "t").unwrap();
    assert_eq!(store.next_pending_child("W1"), Some(c1));
    assert_eq!(store.next_pending_single("W1"), Some(s1));
    store.update_state(c1, TaskState::Success, None);
    assert_eq!(store.next_pending_child("W1"), Some(c2));
    assert_eq!(store.next_pending_child("W2"), None);
    let _ = s1;
}

#[test]
fn children_come_back_in_id_order() {
    let mut store = TaskStore::new();
    let parent = store.create(&plain_create("M1", None, None), "t").unwrap();
    let c1 = store.create(&plain_create("M1", Some(parent), Some("arm64")), "t").unwrap();
    let c2 = store.create(&plain_create("M1", Some(parent), Some("x64")), "t").unwrap();
    let kids = store.children(parent);
    assert_eq!(kids.len(), 2);
    assert_eq!(kids[0].id, c1);
    assert_eq!(kids[1].id, c2);
}

#[test]
fn fan_in_gate_needs_every_child_past_chrome() {
    let mut store = TaskStore::new();
    let parent = store.create(&plain_create("M1", None, None), "t").unwrap();
    assert!(!store.all_children_past_chrome(parent));
    let c1 = store.create(&plain_create("M1", Some(parent), Some("arm64")), "t").unwrap();
    let c2 = store.create(&plain_create("M1", Some(parent), Some("x64")), "t").unwrap();
    store.update_state(c1, TaskState::BuildingChrome, None);
    assert!(!store.all_children_past_chrome(parent));
    store.update_state(c2, TaskState::Success, None);
    assert!(store.all_children_past_chrome(parent));
}

#[test]
fn list_orders_newest_family_first_and_children_after_their_parent() {
    let mut store = TaskStore::new();
    let old_single = store.create(&plain_create("W1", None, Some("x64")), "t").unwrap();
    let parent = store.create(&plain_create("M1", None, None), "t").unwrap();
    let c1 = store.create(&plain_create("M1", Some(parent), Some("arm64")), "t").unwrap();
    let c2 = store.create(&plain_create("M1", Some(parent), Some("x64")), "t").unwrap();
    let new_single = store.create(&plain_create("W1", None, Some("x64")), "t").unwrap();
    let listed: Vec<i64> = store.list().iter().map(|t| t.id).collect();
    assert_eq!(listed, vec![new_single, parent, c1, c2, old_single]);
}

#[test]
fn update_completion_records_success() {
    let mut store = TaskStore::new();
    let id = store.create(&plain_create("W1", None, Some("x64")), "t").unwrap();
    store.update_completion(id, "2024-02-02 10:00:00", "/backup/a", "app.dmg", Some("deadbeef"));
    let t = store.find(id).unwrap();
    assert_eq!(t.state, TaskState::Success);
    assert_eq!(t.end_time.as_deref(), Some("2024-02-02 10:00:00"));
    assert_eq!(t.storage_path, "/backup/a");
    assert_eq!(t.installer, "app.dmg");
    assert_eq!(t.commit_id, "deadbeef");
}

#[test]
fn a_store_round_trips_through_its_rows() {
    let mut store = TaskStore::new();
    let a = store.create(&plain_create("W1", None, Some("x64")), "t0").unwrap();
    let b = store.create(&plain_create("M1", Some(a), Some("arm64")), "t1").unwrap();
    store.update_state(a, TaskState::BuildingChrome, Some("abc"));
    store.append_log(b, "one line");
    let rows = store.rows();
    let next = store.peek_next_id();
    let rebuilt = TaskStore::from_rows(rows, next).unwrap();
    assert_eq!(rebuilt.peek_next_id(), next);
    let ra = rebuilt.find(a).unwrap();
    assert_eq!(ra.state, TaskState::BuildingChrome);
    assert_eq!(ra.commit_id, "abc");
    let rb = rebuilt.find(b).unwrap();
    assert_eq!(rb.parent_id, Some(a));
    assert_eq!(rb.build_log.as_deref(), Some("one line"));
}

#[test]
fn restoring_refuses_ill_formed_rows() {
    let mut store = TaskStore::new();
    store.create(&plain_create("W1", None, Some("x64")), "t").unwrap();
    store.create(&plain_create("W1", None, Some("x64")), "t").unwrap();
    let rows = store.rows();
    // The next id must stay above every stored id.
    assert!(TaskStore::from_rows(store.rows(), 2).is_err());
    // Ids must increase in storage order.
    let mut reversed = rows;
    reversed.reverse();
    assert!(TaskStore::from_rows(reversed, 3).is_err());
    // A persisted log may not exceed the cap.
    let mut fat = TaskStore::new();
    let id = fat.create(&plain_create("W1", None, Some("x64")), "t").unwrap();
    fat.append_log(id, "x");
    let mut rows = fat.rows();
    rows[0].build_log = Some("y".repeat(100_001));
    assert!(TaskStore::from_rows(rows, 2).is_err());
}

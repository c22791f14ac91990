use buildhub::broker::Broker;

#[test]
fn fan_out_delivers_in_publish_order() {
    let mut broker = Broker::new();
    let sub_a = broker.subscribe(7);
    let sub_b = broker.subscribe(7);
    broker.broadcast_log(7, "L1", "t1", false);
    broker.broadcast_log(7, "L2", "t2", false);
    let sub_c = broker.subscribe(7);
    broker.broadcast_log(7, "L3", "t3", false);
    let (msgs_a, _) = broker.poll(7, sub_a).unwrap();
    let lines_a: Vec<&str> = msgs_a.iter().map(|m| m.log.as_str()).collect();
    assert_eq!(lines_a, vec!["L1", "L2", "L3"]);
    let (msgs_b, _) = broker.poll(7, sub_b).unwrap();
    let lines_b: Vec<&str> = msgs_b.iter().map(|m| m.log.as_str()).collect();
    assert_eq!(lines_b, vec!["L1", "L2", "L3"]);
    // A subscriber arriving after the second line sees only the third.
    let (msgs_c, _) = broker.poll(7, sub_c).unwrap();
    let lines_c: Vec<&str> = msgs_c.iter().map(|m| m.log.as_str()).collect();
    assert_eq!(lines_c, vec!["L3"]);
}

#[test]
fn polling_moves_the_cursor_forward() {
    let mut broker = Broker::new();
    let cursor = broker.subscribe(1);
    broker.broadcast_log(1, "a", "t", false);
    let (msgs, cursor) = broker.poll(1, cursor).unwrap();
    assert_eq!(msgs.len(), 1);
    let (again, _) = broker.poll(1, cursor).unwrap();
    assert!(again.is_empty());
}

#[test]
fn messages_carry_their_fields() {
    let mut broker = Broker::new();
    let cursor = broker.subscribe(9);
    broker.broadcast_log(9, "[1/2] CXX foo", "2024-01-01 00:00:00", true);
    let (msgs, _) = broker.poll(9, cursor).unwrap();
    assert_eq!(msgs.len(), 1);
    assert_eq!(msgs[0].task_id, 9);
    assert_eq!(msgs[0].log, "[1/2] CXX foo");
    assert_eq!(msgs[0].timestamp, "2024-01-01 00:00:00");
    assert!(msgs[0].is_progress);
}

#[test]
fn late_subscriber_never_sees_dropped_lines() {
    let mut broker = Broker::new();
    for i in 0..1001u32 {
        let line = format!("line {}", i);
        broker.broadcast_log(5, &line, "t", false);
    }
    // A subscriber arriving now starts after everything already published.
    let cursor = broker.subscribe(5);
    let (nothing, _) = broker.poll(5, cursor).unwrap();
    assert!(nothing.is_empty());
    broker.broadcast_log(5, "line 1001", "t", false);
    let (msgs, _) = broker.poll(5, cursor).unwrap();
    let lines: Vec<&str> = msgs.iter().map(|m| m.log.as_str()).collect();
    assert_eq!(lines, vec!["line 1001"]);
}

#[test]
fn a_subscriber_behind_the_backlog_is_disconnected() {
    let mut broker = Broker::new();
    let stale = broker.subscribe(3);
    for i in 0..1001u32 {
        let line = format!("line {}", i);
        broker.broadcast_log(3, &line, "t", false);
    }
    // The backlog keeps the newest thousand lines; the first one is gone,
    // so the stale subscriber is cut off rather than blocking anyone.
    assert!(broker.poll(3, stale).is_err());
}

#[test]
fn channels_are_independent_per_task() {
    let mut broker = Broker::new();
    let one = broker.subscribe(1);
    let two = broker.subscribe(2);
    broker.broadcast_log(1, "only for one", "t", false);
    let (msgs_one, _) = broker.poll(1, one).unwrap();
    assert_eq!(msgs_one.len(), 1);
    let (msgs_two, _) = broker.poll(2, two).unwrap();
    assert!(msgs_two.is_empty());
}

#[test]
fn a_subscriber_exactly_at_the_backlog_edge_gets_every_line() {
    let mut broker = Broker::new();
    broker.broadcast_log(4, "line 0", "t", false);
    // This subscriber is one line in; after a thousand more lines its
    // cursor sits exactly at the oldest retained line.
    let cursor = broker.subscribe(4);
    for i in 1..1001u32 {
        let line = format!("line {}", i);
        broker.broadcast_log(4, &line, "t", false);
    }
    let (msgs, _) = broker.poll(4, cursor).unwrap();
    assert_eq!(msgs.len(), 1000);
    assert_eq!(msgs[0].log, "line 1");
    assert_eq!(msgs[999].log, "line 1000");
}

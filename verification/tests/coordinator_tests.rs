use coding_agent::coordinator::{new_task_id, Coordinator, TaskNotification};

fn well_shaped(id: &str) -> bool {
    id.len() == 36
        && id.char_indices().all(|(i, c)| {
            if [8, 13, 18, 23].contains(&i) { c == '-' } else { c.is_ascii_hexdigit() && !c.is_ascii_uppercase() }
        })
        && id.as_bytes()[14] == b'4'
        && matches!(id.as_bytes()[19], b'8' | b'9' | b'a' | b'b')
}

#[test]
fn task_ids_are_hyphenated_uuids() {
    let a = new_task_id();
    let b = new_task_id();
    assert!(well_shaped(&a), "{}", a);
    assert!(well_shaped(&b), "{}", b);
    assert_ne!(a, b);
}

#[test]
fn notified_tasks_are_no_longer_active() {
    let mut c = Coordinator::new();
    let a = c.spawn_worker();
    let b = c.spawn_worker();
    let got = c.process_notifications(vec![TaskNotification::completed(a.clone(), "look around")]);
    assert_eq!(got.len(), 1);
    assert_eq!(got[0].task_id, a);
    let remaining = c.wait_all();
    assert_eq!(remaining, vec![b]);
    assert!(c.wait_all().is_empty());
}

#[test]
fn unknown_notifications_are_passed_through() {
    let mut c = Coordinator::new();
    let a = c.spawn_worker();
    let got = c.process_notifications(vec![TaskNotification::completed("other".to_string(), "p")]);
    assert_eq!(got[0].task_id, "other");
    assert_eq!(c.wait_all(), vec![a]);
}

#[test]
fn completed_notification_carries_the_findings() {
    let n = TaskNotification::completed("t1".to_string(), "find bugs");
    assert_eq!(n.status, "completed");
    assert_eq!(n.summary, "Worker completed successfully");
    assert_eq!(n.result.as_deref(), Some("Simulated findings for: find bugs"));
}

use echo_operator::keyed::TriggerKey;
use echo_operator::reconcile::Requeue;
use echo_operator::scheduler::{time_after, to_millis, Scheduler, DEBOUNCE_MILLIS};

fn key(name: &str) -> TriggerKey {
    TriggerKey::new("default", name)
}

fn names(keys: &[TriggerKey]) -> Vec<String> {
    let mut names: Vec<String> = keys
        .iter()
        .map(|k| format!("{}/{}", k.namespace, k.name))
        .collect();
    names.sort();
    names
}

#[test]
fn triggers_within_the_window_lead_to_one_reconciliation() {
    let mut scheduler = Scheduler::new(DEBOUNCE_MILLIS);
    let mut calls = 0;
    for now in [1_000, 1_100, 1_250, 1_499] {
        calls += scheduler.take_due(now).len();
        scheduler.trigger(key("test"), now);
    }
    assert_eq!(calls, 0);
    assert_eq!(scheduler.next_deadline(), Some(1_500));
    assert!(scheduler.take_due(1_499).is_empty());
    let due = scheduler.take_due(1_500);
    assert_eq!(names(&due), vec!["default/test"]);
    scheduler.finish(&due[0]);
    assert!(scheduler.take_due(u64::MAX).is_empty());
    assert_eq!(scheduler.next_deadline(), None);
}

#[test]
fn triggers_spaced_beyond_the_window_lead_to_one_reconciliation_each() {
    let mut scheduler = Scheduler::new(DEBOUNCE_MILLIS);
    let mut calls = 0;
    for now in [1_000, 1_500, 2_700, 10_000] {
        for due in scheduler.take_due(now) {
            calls += 1;
            scheduler.finish(&due);
        }
        scheduler.trigger(key("test"), now);
    }
    calls += scheduler.take_due(u64::MAX).len();
    assert_eq!(calls, 4);
}

#[test]
fn resources_are_debounced_one_by_one() {
    let mut scheduler = Scheduler::new(500);
    scheduler.trigger(key("a"), 0);
    scheduler.trigger(key("b"), 300);
    scheduler.trigger(TriggerKey::new("other", "a"), 400);
    assert_eq!(scheduler.next_deadline(), Some(500));
    assert_eq!(names(&scheduler.take_due(500)), vec!["default/a"]);
    assert_eq!(scheduler.next_deadline(), Some(800));
    assert_eq!(
        names(&scheduler.take_due(900)),
        vec!["default/b", "other/a"]
    );
}

#[test]
fn resource_is_not_handed_out_twice_at_a_time() {
    let mut scheduler = Scheduler::new(500);
    scheduler.trigger(key("test"), 0);
    let due = scheduler.take_due(500);
    assert_eq!(due.len(), 1);
    // A trigger that comes while the reconciliation runs has to wait.
    scheduler.trigger(key("test"), 600);
    assert!(scheduler.take_due(5_000).is_empty());
    assert_eq!(scheduler.next_deadline(), None);
    scheduler.finish(&due[0]);
    assert_eq!(scheduler.next_deadline(), Some(1_100));
    assert_eq!(names(&scheduler.take_due(5_000)), vec!["default/test"]);
}

#[test]
fn requeue_marks_the_resource_as_due_again() {
    let mut scheduler = Scheduler::new(500);
    scheduler.trigger(key("test"), 0);
    let due = scheduler.take_due(500);
    scheduler.requeue(due[0].clone(), 700, Requeue::After(300));
    assert_eq!(scheduler.next_deadline(), Some(300_700));
    // A trigger brings the next run forward, a later requeue does not push it back.
    scheduler.trigger(key("test"), 1_000);
    assert_eq!(scheduler.next_deadline(), Some(1_500));
    scheduler.schedule(key("test"), 9_000);
    assert_eq!(scheduler.next_deadline(), Some(1_500));
    let due = scheduler.take_due(1_500);
    scheduler.requeue(due[0].clone(), 1_600, Requeue::AwaitChange);
    assert_eq!(scheduler.next_deadline(), None);
    assert!(scheduler.take_due(u64::MAX).is_empty());
}

#[test]
fn times_stop_at_the_end_of_time() {
    assert_eq!(time_after(1_000, 500), 1_500);
    assert_eq!(time_after(u64::MAX - 1, 500), u64::MAX);
    assert_eq!(time_after(u64::MAX, 0), u64::MAX);
    assert_eq!(to_millis(300), 300_000);
    assert_eq!(to_millis(u64::MAX / 1000), u64::MAX / 1000 * 1000);
    assert_eq!(to_millis(u64::MAX / 1000 + 1), u64::MAX);
    let mut scheduler = Scheduler::new(500);
    scheduler.trigger(key("test"), u64::MAX - 10);
    assert_eq!(scheduler.next_deadline(), Some(u64::MAX));
    assert_eq!(scheduler.take_due(u64::MAX).len(), 1);
}

#[test]
fn window_of_no_length_hands_out_at_once() {
    let mut scheduler = Scheduler::new(0);
    scheduler.trigger(key("test"), 42);
    assert_eq!(scheduler.take_due(42).len(), 1);
    assert_eq!(DEBOUNCE_MILLIS, 500);
}

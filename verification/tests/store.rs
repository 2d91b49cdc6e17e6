use echo_operator::crd::{Echo, EchoSpec};
use echo_operator::deployment::{Deployment, DeploymentStatus};
use echo_operator::event::{Action, MetricEvent};
use echo_operator::keyed::{KeyedList, TriggerKey};
use echo_operator::meta::{Metadata, OwnerReference};
use echo_operator::queue::BoundedQueue;
use echo_operator::store::{deployment_key, DeploymentEvent, Store, SUBSCRIBE_BUFFER_SIZE};
use echo_operator::watch::{
    echo_trigger, on_deployment_event, on_echo_event, owner_trigger, EchoEvent, ReloadQueue,
    RELOAD_BUFFER_SIZE,
};

fn echo(name: &str) -> Echo {
    let mut e = Echo::new(name, EchoSpec { replicas: 1 });
    e.metadata.namespace = Some("default".into());
    e.metadata.uid = Some("7f3c".into());
    e
}

fn deployment(name: &str, replicas: i32) -> Deployment {
    let mut d = echo(name).deployment();
    d.status = Some(DeploymentStatus {
        available_replicas: Some(replicas),
        ready_replicas: Some(replicas),
        replicas: Some(replicas),
        updated_replicas: Some(replicas),
    });
    d
}

fn replicas(found: Option<&Deployment>) -> Option<i32> {
    found.and_then(|d| d.status).and_then(|s| s.replicas)
}

fn name_of(event: Option<DeploymentEvent>) -> Option<String> {
    match event {
        Some(DeploymentEvent::Applied(d)) => Some(format!("applied {}", d.metadata.name_any())),
        Some(DeploymentEvent::Deleted(d)) => Some(format!("deleted {}", d.metadata.name_any())),
        Some(DeploymentEvent::Failed(reason)) => Some(format!("failed {}", reason)),
        None => None,
    }
}

#[test]
fn store_holds_the_latest_state_of_each_object() {
    let mut store = Store::new();
    assert!(store.get("default", "a").is_none());
    store.update(DeploymentEvent::Applied(deployment("a", 1)));
    store.update(DeploymentEvent::Applied(deployment("b", 5)));
    store.update(DeploymentEvent::Applied(deployment("a", 2)));
    assert_eq!(replicas(store.get("default", "a")), Some(2));
    assert_eq!(replicas(store.get("default", "b")), Some(5));
    assert!(store.get("other", "a").is_none());
    store.update(DeploymentEvent::Failed("connection reset".into()));
    assert_eq!(replicas(store.get("default", "a")), Some(2));
    store.update(DeploymentEvent::Deleted(deployment("a", 2)));
    assert!(store.get("default", "a").is_none());
    assert_eq!(replicas(store.get("default", "b")), Some(5));
    store.update(DeploymentEvent::Deleted(deployment("a", 2)));
    assert!(store.get("default", "a").is_none());
}

#[test]
fn subscribers_get_the_changes_in_order() {
    let mut store = Store::new();
    store.update(DeploymentEvent::Applied(deployment("early", 1)));
    let first = store.subscribe();
    store.update(DeploymentEvent::Applied(deployment("a", 1)));
    let second = store.subscribe();
    assert_eq!((first, second), (0, 1));
    store.update(DeploymentEvent::Failed("connection reset".into()));
    store.update(DeploymentEvent::Deleted(deployment("a", 1)));
    assert_eq!(name_of(store.poll(first)), Some("applied a".into()));
    assert_eq!(name_of(store.poll(first)), Some("deleted a".into()));
    assert_eq!(name_of(store.poll(first)), None);
    assert_eq!(name_of(store.poll(second)), Some("deleted a".into()));
    assert_eq!(name_of(store.poll(second)), None);
    assert_eq!(name_of(store.poll(7)), None);
}

#[test]
fn subscriber_that_falls_behind_loses_the_oldest_changes() {
    let mut store = Store::new();
    let subscriber = store.subscribe();
    for i in 0..SUBSCRIBE_BUFFER_SIZE + 2 {
        store.update(DeploymentEvent::Applied(deployment(&format!("d{}", i), 1)));
    }
    assert_eq!(name_of(store.poll(subscriber)), Some("applied d2".into()));
    let mut left = 1;
    let mut last = None;
    while let Some(event) = store.poll(subscriber) {
        left += 1;
        last = name_of(Some(event));
    }
    assert_eq!(left, 256);
    assert_eq!(last, Some("applied d257".into()));
    assert_eq!(replicas(store.get("default", "d0")), Some(1));
}

#[test]
fn key_of_a_deployment_is_namespace_and_name() {
    let key = deployment_key(&deployment("a", 1));
    assert_eq!((key.namespace.as_str(), key.name.as_str()), ("default", "a"));
    let bare = Deployment {
        metadata: Metadata::named("solo"),
        spec: None,
        status: None,
    };
    let key = deployment_key(&bare);
    assert_eq!((key.namespace.as_str(), key.name.as_str()), ("", "solo"));
    assert!(key.same(&TriggerKey::new("", "solo")));
    assert!(!key.same(&TriggerKey::new("solo", "")));
}

#[test]
fn changes_trigger_the_resource_and_the_owner() {
    let key = echo_trigger(&EchoEvent::Applied(echo("test"))).unwrap();
    assert_eq!((key.namespace.as_str(), key.name.as_str()), ("default", "test"));
    let key = echo_trigger(&EchoEvent::Deleted(echo("gone"))).unwrap();
    assert_eq!(key.name, "gone");
    assert!(echo_trigger(&EchoEvent::Failed("timeout".into())).is_none());
    assert!(matches!(
        on_echo_event(&EchoEvent::Failed("timeout".into())),
        Some(MetricEvent::WatchFailed)
    ));
    assert!(on_echo_event(&EchoEvent::Applied(echo("test"))).is_none());
    assert!(on_echo_event(&EchoEvent::Deleted(echo("test"))).is_none());

    let key = owner_trigger(&DeploymentEvent::Applied(deployment("test", 1))).unwrap();
    assert_eq!((key.namespace.as_str(), key.name.as_str()), ("default", "test"));
    assert!(owner_trigger(&DeploymentEvent::Deleted(deployment("test", 1))).is_some());
    assert!(owner_trigger(&DeploymentEvent::Failed("timeout".into())).is_none());

    let mut foreign = deployment("test", 1);
    foreign.metadata.owner_references = vec![OwnerReference {
        api_version: "apps/v1".into(),
        kind: "ReplicaSet".into(),
        name: "someone".into(),
        uid: "1".into(),
        controller: Some(true),
    }];
    assert!(owner_trigger(&DeploymentEvent::Applied(foreign)).is_none());
    let mut unowned = deployment("test", 1);
    unowned.metadata.owner_references.clear();
    assert!(owner_trigger(&DeploymentEvent::Applied(unowned)).is_none());
    let mut renamed = deployment("test", 1);
    renamed.metadata.owner_references[0].name = "parent".into();
    renamed.metadata.owner_references[0].controller = Some(true);
    assert_eq!(
        owner_trigger(&DeploymentEvent::Applied(renamed)).unwrap().name,
        "parent"
    );
}

fn triggered(event: &MetricEvent) -> Option<(Action, &str)> {
    match event {
        MetricEvent::Triggered {
            action,
            triggered_by,
        } => Some((*action, triggered_by.as_str())),
        _ => None,
    }
}

#[test]
fn watch_counts_reports_and_asks_for_reloads_on_delete() {
    let mut reload = ReloadQueue::new();
    let reaction = on_deployment_event(&DeploymentEvent::Applied(deployment("a", 1)), &mut reload);
    assert_eq!(triggered(&reaction.event), Some((Action::Apply, "Deployment")));
    assert!(!reaction.reload_dropped);
    assert!(reload.recv().is_none());

    let reaction = on_deployment_event(&DeploymentEvent::Deleted(deployment("a", 1)), &mut reload);
    assert_eq!(triggered(&reaction.event), Some((Action::Delete, "Deployment")));
    assert!(!reaction.reload_dropped);
    let asked = reload.recv().unwrap();
    assert_eq!((asked.namespace.as_str(), asked.name.as_str()), ("default", "a"));
    assert!(reload.recv().is_none());

    let reaction = on_deployment_event(&DeploymentEvent::Failed("timeout".into()), &mut reload);
    assert!(matches!(reaction.event, MetricEvent::WatchFailed));
    assert!(!reaction.reload_dropped);
    assert!(reload.recv().is_none());

    let mut unowned = deployment("a", 1);
    unowned.metadata.owner_references.clear();
    let reaction = on_deployment_event(&DeploymentEvent::Deleted(unowned), &mut reload);
    assert!(!reaction.reload_dropped);
    assert!(reload.recv().is_none());
}

#[test]
fn reload_that_finds_the_queue_full_is_dropped() {
    let mut reload = ReloadQueue::new();
    for i in 0..RELOAD_BUFFER_SIZE {
        let gone = DeploymentEvent::Deleted(deployment(&format!("d{}", i), 1));
        assert!(!on_deployment_event(&gone, &mut reload).reload_dropped);
    }
    let late = DeploymentEvent::Deleted(deployment("late", 1));
    let reaction = on_deployment_event(&late, &mut reload);
    assert!(reaction.reload_dropped);
    assert_eq!(triggered(&reaction.event), Some((Action::Delete, "Deployment")));
    assert!(!reload.try_send(TriggerKey::new("default", "later")));
    let mut served = Vec::new();
    while let Some(key) = reload.recv() {
        served.push(key.name);
    }
    assert_eq!(served.len(), 16);
    assert_eq!(served[0], "d0");
    assert_eq!(served[15], "d15");
    assert!(reload.try_send(TriggerKey::new("default", "later")));
}

#[test]
fn bounded_queue_turns_away_or_evicts() {
    let mut queue: BoundedQueue<u32> = BoundedQueue::new(2);
    assert_eq!(queue.try_push(1), None);
    assert_eq!(queue.try_push(2), None);
    assert!(queue.is_full());
    assert_eq!(queue.try_push(3), Some(3));
    assert_eq!(queue.len(), 2);
    assert_eq!(queue.push_evicting(4), Some(1));
    assert_eq!(queue.pop(), Some(2));
    assert_eq!(queue.push_evicting(5), None);
    assert_eq!(queue.pop(), Some(4));
    assert_eq!(queue.pop(), Some(5));
    assert_eq!(queue.pop(), None);
    assert!(!queue.is_full());
    let mut none: BoundedQueue<u32> = BoundedQueue::new(0);
    assert_eq!(none.try_push(1), Some(1));
    assert_eq!(none.push_evicting(1), Some(1));
    assert_eq!(none.pop(), None);
    assert!(none.is_full());
}

#[test]
fn keyed_list_keeps_one_value_for_each_key() {
    let mut list: KeyedList<u64> = KeyedList::new();
    assert_eq!(list.len(), 0);
    list.insert(TriggerKey::new("default", "a"), 1);
    list.insert(TriggerKey::new("default", "b"), 2);
    list.insert(TriggerKey::new("default", "a"), 3);
    assert_eq!(list.len(), 2);
    assert_eq!(list.get(&TriggerKey::new("default", "a")), Some(&3));
    assert_eq!(list.get(&TriggerKey::new("other", "a")), None);
    let (key, value) = list.entry(1);
    assert_eq!((key.name.as_str(), *value), ("b", 2));
    assert_eq!(list.remove(&TriggerKey::new("default", "a")), Some(3));
    assert_eq!(list.remove(&TriggerKey::new("default", "a")), None);
    assert_eq!(list.len(), 1);
    assert_eq!(list.get(&TriggerKey::new("default", "b")), Some(&2));
}

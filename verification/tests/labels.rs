use echo_operator::crd::{Echo, EchoSpec};
use echo_operator::finalizer::{add, delete, is_held, FINALIZER};
use echo_operator::labels::Labels;
use echo_operator::meta::{clone_strings, Metadata, OwnerReference};
use echo_operator::text::{chars_of, same_text};

fn strings(items: &[&str]) -> Vec<String> {
    items.iter().map(|s| s.to_string()).collect()
}

#[test]
fn labels_hold_one_value_for_each_key() {
    let mut labels = Labels::new();
    assert_eq!(labels.len(), 0);
    assert!(labels.get("app").is_none());
    labels.insert("app".into(), "one".into());
    labels.insert("tier".into(), "back".into());
    labels.insert("app".into(), "two".into());
    assert_eq!(labels.len(), 2);
    assert_eq!(labels.get("app").map(String::as_str), Some("two"));
    assert_eq!(labels.get("tier").map(String::as_str), Some("back"));
    assert!(labels.get("ap").is_none());
    let (key, value) = labels.pair(0);
    assert_eq!((key.as_str(), value.as_str()), ("app", "two"));
    let copy = labels.clone();
    labels.insert("tier".into(), "front".into());
    assert_eq!(copy.get("tier").map(String::as_str), Some("back"));
    assert_eq!(copy.len(), 2);
}

#[test]
fn finalizer_is_added_once() {
    assert_eq!(FINALIZER, "echoes.example.com/finalizer");
    assert_eq!(add(&strings(&[])), strings(&[FINALIZER]));
    assert_eq!(
        add(&strings(&["a", "b"])),
        strings(&["a", "b", FINALIZER])
    );
    assert_eq!(
        add(&strings(&["a", FINALIZER, "b"])),
        strings(&["a", FINALIZER, "b"])
    );
    let once = add(&strings(&["a"]));
    assert_eq!(add(&once), once);
    assert_eq!(once.iter().filter(|f| *f == FINALIZER).count(), 1);
}

#[test]
fn finalizer_is_removed_and_the_others_stay() {
    assert_eq!(delete(&strings(&[FINALIZER])), strings(&[]));
    assert_eq!(
        delete(&strings(&["a", FINALIZER, "b"])),
        strings(&["a", "b"])
    );
    assert_eq!(delete(&strings(&["a", "b"])), strings(&["a", "b"]));
    assert_eq!(delete(&strings(&[])), strings(&[]));
    assert!(is_held(&strings(&["a", FINALIZER])));
    assert!(!is_held(&strings(&["a", "echoes.example.com/finalize"])));
    assert!(!is_held(&delete(&add(&strings(&["a"])))));
}

#[test]
fn metadata_knows_its_name_and_its_controller() {
    let mut metadata = Metadata::named("test");
    assert_eq!(metadata.name_any(), "test");
    assert!(metadata.namespace.is_none());
    assert!(metadata.controller_owner().is_none());
    let owner = |name: &str, controller: Option<bool>| OwnerReference {
        api_version: "example.com/v1".into(),
        kind: "Echo".into(),
        name: name.into(),
        uid: "1".into(),
        controller,
    };
    metadata.owner_references = vec![
        owner("a", None),
        owner("b", Some(false)),
        owner("c", Some(true)),
        owner("d", Some(true)),
    ];
    assert_eq!(metadata.controller_owner().unwrap().name, "c");
    metadata.name = None;
    assert_eq!(metadata.name_any(), "");
    let copy = metadata.clone();
    assert_eq!(copy.owner_references.len(), 4);
    assert_eq!(copy.owner_references[2].name, "c");
}

#[test]
fn new_echo_has_a_name_and_a_spec_only() {
    let echo = Echo::new("test", EchoSpec { replicas: 2 });
    assert_eq!(echo.metadata.name.as_deref(), Some("test"));
    assert!(echo.metadata.namespace.is_none());
    assert!(echo.metadata.finalizers.is_empty());
    assert!(echo.metadata.deletion_timestamp.is_none());
    assert_eq!(echo.metadata.labels.len(), 0);
    assert_eq!(echo.spec.replicas, 2);
    assert!(echo.status.is_none());
    let copy = echo.clone();
    assert_eq!(copy.metadata.name, echo.metadata.name);
    assert_eq!(copy.spec, echo.spec);
}

#[test]
fn texts_are_compared_and_split_by_character() {
    assert_eq!(chars_of("añb"), vec!['a', 'ñ', 'b']);
    assert!(chars_of("").is_empty());
    assert!(same_text("api", "api"));
    assert!(!same_text("api", "apis"));
    assert!(same_text("", ""));
    assert_eq!(clone_strings(&strings(&["a", "b"])), strings(&["a", "b"]));
}

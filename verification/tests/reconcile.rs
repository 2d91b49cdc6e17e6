use echo_operator::crd::{Echo, EchoSpec, EchoStatus};
use echo_operator::deployment::{Deployment, DeploymentStatus};
use echo_operator::error::{ApiFailure, Error};
use echo_operator::event::MetricEvent;
use echo_operator::finalizer::FINALIZER;
use echo_operator::reconcile::{
    determine_action, error_policy, on_error, EchoAction, Reconciliation, Request, Requeue,
    Response, Step, Turn, COOLDOWN_SECONDS, FIELD_MANAGER, REQUEUE_SECONDS,
};
use echo_operator::store::{DeploymentEvent, Store};

const NOW: i64 = 1_491_137_432;

fn test_echo(status: Option<EchoStatus>) -> Echo {
    let mut e = Echo::new("test", EchoSpec { replicas: 1 });
    e.metadata.namespace = Some("default".into());
    e.metadata.uid = Some("7f3c".into());
    e.status = status;
    e
}

fn change_replicas(mut echo: Echo, replicas: i32) -> Echo {
    echo.spec.replicas = replicas;
    echo
}

fn held(mut echo: Echo) -> Echo {
    echo.metadata.finalizers.push(FINALIZER.to_string());
    echo
}

fn needs_delete(mut echo: Echo) -> Echo {
    echo.metadata.deletion_timestamp = Some(1_491_137_432);
    echo
}

fn failure(code: u16) -> Response {
    Response::Failed(ApiFailure {
        code: Some(code),
        reason: format!("status {}", code),
    })
}

fn applied(turn: &Turn) -> &Deployment {
    match &turn.next {
        Step::Call(Request::Apply { deployment }) => deployment,
        other => panic!("expected an apply, got {:?}", other),
    }
}

fn kinds(events: &[MetricEvent]) -> Vec<String> {
    events
        .iter()
        .map(|e| match e {
            MetricEvent::Reconciled => "reconciled".to_string(),
            MetricEvent::ReconcileFailed { error } => format!("failed:{}", error),
            MetricEvent::DeleteRecreated => "recreated".to_string(),
            MetricEvent::SpecReplicas {
                namespace,
                name,
                replicas,
            } => format!("replicas:{}/{}={}", namespace, name, replicas),
            MetricEvent::StatusUpdateFailed => "status-failed".to_string(),
            MetricEvent::Triggered {
                action,
                triggered_by,
            } => format!("triggered:{:?}:{}", action, triggered_by),
            MetricEvent::WatchFailed => "watch-failed".to_string(),
            MetricEvent::Ready { status } => format!("ready:{}", status),
        })
        .collect()
}

/// Runs a reconciliation to its end against a server that carries out what
/// it is asked; the store answers with `stored`.
fn run(echo: Echo, stored: Option<Deployment>) -> (Vec<Request>, Vec<String>, Result<Requeue, Error>) {
    let (mut state, mut turn) = Reconciliation::begin(echo, NOW);
    let mut requests = Vec::new();
    let mut events = kinds(&turn.events);
    loop {
        match turn.next {
            Step::Finish(result) => return (requests, events, result),
            Step::Call(request) => {
                let response = match &request {
                    Request::Fetch { .. } => Response::Found(stored.clone()),
                    _ => Response::Done,
                };
                requests.push(request);
                let (next_state, next_turn) = state.advance(response);
                state = next_state;
                events.extend(kinds(&next_turn.events));
                turn = next_turn;
            }
        }
    }
}

fn observed(echo: &Echo, replicas: i32) -> Deployment {
    let mut deployment = echo.deployment();
    deployment.metadata.generation = Some(1);
    deployment.status = Some(DeploymentStatus {
        available_replicas: Some(replicas),
        ready_replicas: Some(replicas),
        replicas: Some(replicas),
        updated_replicas: Some(replicas),
    });
    deployment
}

#[test]
fn reconcile_echo_create() {
    let echo = test_echo(None);
    let (state, turn) = Reconciliation::begin(echo.clone(), NOW);
    match &turn.next {
        Step::Call(Request::WriteFinalizers {
            namespace,
            name,
            finalizers,
        }) => {
            assert_eq!(namespace, "default");
            assert_eq!(name, "test");
            assert_eq!(finalizers, &vec![FINALIZER.to_string()]);
        }
        other => panic!("expected the finalizer first, got {:?}", other),
    }
    let (_, turn) = state.advance(Response::Done);
    let deployment = applied(&turn);
    assert_eq!(deployment.metadata.name.as_deref(), Some("test"));
    assert_eq!(deployment.metadata.namespace.as_deref(), Some("default"));
    assert_eq!(
        deployment.spec.as_ref().unwrap().replicas.unwrap(),
        echo.spec.replicas
    );
    assert_eq!(FIELD_MANAGER, "echoes.example.com");
}

#[test]
fn echo_causes_status_patch() {
    let echo = held(test_echo(Some(EchoStatus::default())));
    let stored = observed(&echo, 1);
    let (requests, _, result) = run(echo, Some(stored));
    assert_eq!(requests.len(), 3);
    assert!(matches!(requests[0], Request::Apply { .. }));
    assert!(matches!(requests[1], Request::Fetch { .. }));
    match &requests[2] {
        Request::PatchStatus { namespace, patch } => {
            assert_eq!(namespace, "default");
            assert_eq!(patch.name, "test");
            assert_eq!(patch.status.ready_replicas, Some(1));
            let conditions = patch.status.conditions.as_ref().unwrap();
            assert_eq!(conditions.len(), 1);
            assert_eq!(conditions[0].type_, "Ready");
        }
        other => panic!("expected a status patch, got {:?}", other),
    }
    assert!(matches!(result, Ok(Requeue::After(300))));
}

#[test]
fn echo_with_replicas_causes_patch() {
    let echo = change_replicas(held(test_echo(Some(EchoStatus::default()))), 3);
    let (_, turn) = Reconciliation::begin(echo.clone(), NOW);
    let deployment = applied(&turn);
    assert_eq!(
        deployment.spec.as_ref().unwrap().replicas.unwrap(),
        echo.spec.replicas
    );
    assert_eq!(deployment.spec.as_ref().unwrap().replicas, Some(3));
    assert_eq!(
        kinds(&turn.events),
        vec!["reconciled", "replicas:default/test=3"]
    );
}

#[test]
fn action_follows_finalizer_and_deletion_timestamp() {
    assert_eq!(determine_action(&test_echo(None)), EchoAction::Create);
    assert_eq!(determine_action(&held(test_echo(None))), EchoAction::Apply);
    assert_eq!(
        determine_action(&needs_delete(held(test_echo(None)))),
        EchoAction::Delete
    );
    assert_eq!(
        determine_action(&needs_delete(test_echo(None))),
        EchoAction::NoOp
    );
    let mut foreign = test_echo(None);
    foreign.metadata.finalizers.push("other/finalizer".into());
    assert_eq!(determine_action(&foreign), EchoAction::Create);
}

#[test]
fn desired_deployment_is_built_from_the_resource() {
    let mut echo = test_echo(None);
    echo.metadata.labels.insert("team".into(), "blue".into());
    echo.metadata
        .labels
        .insert("app".into(), "set-by-the-user".into());
    let deployment = echo.deployment();
    let labels = &deployment.metadata.labels;
    assert_eq!(labels.get("team").map(String::as_str), Some("blue"));
    assert_eq!(labels.get("app").map(String::as_str), Some("test"));
    assert_eq!(
        labels.get("app.kubernetes.io/name").map(String::as_str),
        Some("echo")
    );
    assert_eq!(
        labels.get("app.kubernetes.io/managed-by").map(String::as_str),
        Some("echo-operator")
    );
    assert_eq!(labels.len(), 4);
    let owners = &deployment.metadata.owner_references;
    assert_eq!(owners.len(), 1);
    assert_eq!(owners[0].controller, Some(true));
    assert_eq!(owners[0].kind, "Echo");
    assert_eq!(owners[0].api_version, "example.com/v1");
    assert_eq!(owners[0].name, "test");
    assert_eq!(owners[0].uid, "7f3c");
    let spec = deployment.spec.unwrap();
    assert_eq!(spec.replicas, Some(1));
    assert_eq!(spec.selector.get("app").map(String::as_str), Some("test"));
    assert_eq!(
        spec.template_labels.get("team").map(String::as_str),
        Some("blue")
    );
    assert_eq!(spec.containers.len(), 1);
    assert_eq!(spec.containers[0].name, "test");
    assert_eq!(spec.containers[0].image, "inanimate/echo-server:latest");
    assert_eq!(spec.containers[0].container_port, 8080);
    assert!(deployment.status.is_none());
}

#[test]
fn deployment_of_a_resource_without_uid_has_no_owner() {
    let mut echo = test_echo(None);
    echo.metadata.uid = None;
    assert!(echo.controller_owner_ref().is_none());
    assert!(echo.deployment().metadata.owner_references.is_empty());
    assert_eq!(test_echo(None).get_namespace(), "default");
}

#[test]
fn end_to_end_scenario() {
    // A new resource: the finalizer comes first, then the deployment.
    let mut echo = test_echo(None);
    let mut store = Store::new();
    let (state, turn) = Reconciliation::begin(echo.clone(), NOW);
    let finalizers = match turn.next {
        Step::Call(Request::WriteFinalizers { finalizers, .. }) => finalizers,
        other => panic!("expected the finalizer first, got {:?}", other),
    };
    assert_eq!(finalizers, vec![FINALIZER.to_string()]);
    echo.metadata.finalizers = finalizers;
    let (state, turn) = state.advance(Response::Done);
    let deployment = applied(&turn).clone();
    assert_eq!(deployment.metadata.name.as_deref(), Some("test"));
    let spec = deployment.spec.as_ref().unwrap();
    assert_eq!(spec.replicas, Some(1));
    assert_eq!(spec.containers.len(), 1);
    assert_eq!(spec.containers[0].image, "inanimate/echo-server:latest");
    // The deployment is not in the store yet: no status this round.
    let (state, turn) = state.advance(Response::Done);
    assert!(matches!(turn.next, Step::Call(Request::Fetch { .. })));
    let (state, turn) = state.advance(Response::Found(store.get("default", "test").cloned()));
    assert!(matches!(turn.next, Step::Finish(Ok(Requeue::After(300)))));
    assert_eq!(kinds(&turn.events), vec!["status-failed"]);
    assert!(state.is_finished());
    // The deployment reports one replica, updated and ready.
    store.update(DeploymentEvent::Applied(observed(&echo, 1)));
    let (requests, events, result) = run(echo, store.get("default", "test").cloned());
    assert!(matches!(result, Ok(Requeue::After(300))));
    assert_eq!(events, vec!["reconciled", "replicas:default/test=1"]);
    let status = match requests.last() {
        Some(Request::PatchStatus { patch, .. }) => &patch.status,
        other => panic!("expected a status patch, got {:?}", other),
    };
    let conditions = status.conditions.as_ref().unwrap();
    assert_eq!(
        conditions.iter().filter(|c| c.type_ == "Ready").count(),
        1
    );
    assert_eq!(
        conditions
            .iter()
            .filter(|c| c.type_ == "Progressing")
            .count(),
        0
    );
}

#[test]
fn reconciling_twice_applies_the_same_deployment() {
    let echo = held(test_echo(None));
    let stored = observed(&echo, 1);
    let (first, _, _) = run(echo.clone(), Some(stored.clone()));
    let (second, _, _) = run(echo, Some(stored));
    assert_eq!(first.len(), second.len());
    assert_eq!(format!("{:?}", first[0]), format!("{:?}", second[0]));
    assert!(second
        .iter()
        .all(|r| !matches!(r, Request::Delete { .. } | Request::WriteFinalizers { .. })));
}

#[test]
fn finalizer_is_written_once_and_kept_with_the_others() {
    let mut echo = test_echo(None);
    echo.metadata.finalizers.push("other/finalizer".into());
    let (requests, _, result) = run(echo.clone(), None);
    assert!(result.is_ok());
    let written = match &requests[0] {
        Request::WriteFinalizers { finalizers, .. } => finalizers.clone(),
        other => panic!("expected the finalizer first, got {:?}", other),
    };
    assert_eq!(
        written,
        vec!["other/finalizer".to_string(), FINALIZER.to_string()]
    );
    let writes = requests
        .iter()
        .filter(|r| matches!(r, Request::WriteFinalizers { .. }))
        .count();
    assert_eq!(writes, 1);
    let (again, _, _) = run(held(echo), None);
    assert!(again
        .iter()
        .all(|r| !matches!(r, Request::WriteFinalizers { .. })));
}

#[test]
fn conflict_is_recovered_by_one_delete_and_one_more_apply() {
    let echo = held(test_echo(None));
    let (state, turn) = Reconciliation::begin(echo.clone(), NOW);
    let first = format!("{:?}", applied(&turn));
    let (state, turn) = state.advance(failure(422));
    match &turn.next {
        Step::Call(Request::Delete { namespace, name }) => {
            assert_eq!(namespace, "default");
            assert_eq!(name, "test");
        }
        other => panic!("expected a delete, got {:?}", other),
    }
    assert!(turn.events.is_empty());
    let (state, turn) = state.advance(Response::Done);
    assert_eq!(format!("{:?}", applied(&turn)), first);
    assert_eq!(kinds(&turn.events), vec!["recreated"]);
    let (state, turn) = state.advance(Response::Done);
    assert!(matches!(turn.next, Step::Call(Request::Fetch { .. })));
    assert!(turn.events.is_empty());
    let (_, turn) = state.advance(Response::Found(None));
    assert!(matches!(turn.next, Step::Finish(Ok(Requeue::After(300)))));
}

#[test]
fn second_conflict_and_other_failures_end_the_reconciliation() {
    let echo = held(test_echo(None));
    let (state, _) = Reconciliation::begin(echo.clone(), NOW);
    let (state, _) = state.advance(failure(422));
    let (state, _) = state.advance(Response::Done);
    let (state, turn) = state.advance(failure(422));
    match turn.next {
        Step::Finish(Err(Error::KubeError(failure))) => assert_eq!(failure.code, Some(422)),
        other => panic!("expected an error, got {:?}", other),
    }
    assert!(state.is_finished());

    let (state, _) = Reconciliation::begin(echo.clone(), NOW);
    let (_, turn) = state.advance(failure(500));
    match turn.next {
        Step::Finish(Err(Error::KubeError(failure))) => {
            assert_eq!(failure.code, Some(500));
            assert_eq!(failure.reason, "status 500");
        }
        other => panic!("expected an error, got {:?}", other),
    }

    let (state, _) = Reconciliation::begin(echo.clone(), NOW);
    let (state, _) = state.advance(failure(422));
    let (_, turn) = state.advance(failure(403));
    assert!(matches!(turn.next, Step::Finish(Err(Error::KubeError(_)))));
    assert!(turn.events.is_empty());

    let (state, _) = Reconciliation::begin(test_echo(None), NOW);
    let (_, turn) = state.advance(failure(500));
    assert!(matches!(turn.next, Step::Finish(Err(Error::KubeError(_)))));
}

#[test]
fn status_failures_are_counted_and_never_fail_the_reconciliation() {
    let echo = held(test_echo(None));
    let stored = observed(&echo, 1);
    let (state, _) = Reconciliation::begin(echo.clone(), NOW);
    let (state, _) = state.advance(Response::Done);
    let (state, turn) = state.advance(Response::Found(Some(stored)));
    assert!(matches!(
        turn.next,
        Step::Call(Request::PatchStatus { .. })
    ));
    let (_, turn) = state.advance(failure(500));
    assert!(matches!(turn.next, Step::Finish(Ok(Requeue::After(300)))));
    assert_eq!(kinds(&turn.events), vec!["status-failed"]);

    let mut silent = observed(&echo, 1);
    silent.status = None;
    let (_, events, result) = run(echo, Some(silent));
    assert!(matches!(result, Ok(Requeue::After(300))));
    assert_eq!(
        events,
        vec!["reconciled", "replicas:default/test=1", "status-failed"]
    );
}

#[test]
fn deletion_removes_the_deployment_then_the_finalizer() {
    let mut echo = needs_delete(held(test_echo(None)));
    echo.metadata.finalizers.insert(0, "other/finalizer".into());
    let (requests, events, result) = run(echo.clone(), None);
    assert_eq!(requests.len(), 2);
    match &requests[0] {
        Request::Delete { namespace, name } => {
            assert_eq!(namespace, "default");
            assert_eq!(name, "test");
        }
        other => panic!("expected a delete, got {:?}", other),
    }
    match &requests[1] {
        Request::WriteFinalizers { finalizers, .. } => {
            assert_eq!(finalizers, &vec!["other/finalizer".to_string()]);
        }
        other => panic!("expected the finalizers, got {:?}", other),
    }
    assert!(matches!(result, Ok(Requeue::AwaitChange)));
    assert_eq!(events, vec!["reconciled"]);

    // A deployment that is gone already counts as removed.
    let (state, _) = Reconciliation::begin(echo.clone(), NOW);
    let (_, turn) = state.advance(failure(404));
    assert!(matches!(
        turn.next,
        Step::Call(Request::WriteFinalizers { .. })
    ));

    // Any other failure keeps the finalizer in place.
    let (state, _) = Reconciliation::begin(echo.clone(), NOW);
    let (_, turn) = state.advance(failure(500));
    assert!(matches!(turn.next, Step::Finish(Err(Error::KubeError(_)))));

    let (state, _) = Reconciliation::begin(echo, NOW);
    let (state, _) = state.advance(Response::Done);
    let (_, turn) = state.advance(failure(409));
    assert!(matches!(turn.next, Step::Finish(Err(Error::KubeError(_)))));
}

#[test]
fn resource_that_is_going_away_without_finalizer_is_left_alone() {
    let (requests, events, result) = run(needs_delete(test_echo(None)), None);
    assert!(requests.is_empty());
    assert!(matches!(result, Ok(Requeue::AwaitChange)));
    assert_eq!(events, vec!["reconciled"]);
}

#[test]
fn resource_without_namespace_is_a_user_error() {
    let echo = Echo::new("test", EchoSpec { replicas: 1 });
    let (state, turn) = Reconciliation::begin(echo, NOW);
    assert!(state.is_finished());
    match &turn.next {
        Step::Finish(Err(error)) => {
            assert!(matches!(error, Error::UserInputError(_)));
            assert_eq!(
                error.message(),
                "Invalid Echo CRD: Expected Echo resource to be namespaced. Can't deploy to an unknown namespace."
            );
            assert_eq!(error.metric_label(), "userinputerror");
        }
        other => panic!("expected an error, got {:?}", other),
    }
    assert_eq!(kinds(&turn.events), vec!["reconciled"]);
}

#[test]
fn finished_reconciliation_stays_finished() {
    let (state, _) = Reconciliation::begin(needs_delete(test_echo(None)), NOW);
    let (state, turn) = state.advance(Response::Done);
    assert!(state.is_finished());
    assert!(matches!(turn.next, Step::Finish(Ok(Requeue::AwaitChange))));
    assert!(turn.events.is_empty());
}

#[test]
fn failed_reconciliation_is_counted_and_retried_after_the_cooldown() {
    let error = Error::KubeError(ApiFailure {
        code: None,
        reason: "connection refused".into(),
    });
    let (requeue, event) = error_policy(&error);
    assert_eq!(requeue, Requeue::After(300));
    assert_eq!(COOLDOWN_SECONDS, 300);
    assert_eq!(REQUEUE_SECONDS, 300);
    assert_eq!(kinds(&[event]), vec!["failed:kubeerror"]);
    assert_eq!(on_error(&error), Requeue::After(300));
    assert_eq!(error.message(), "Kube Error: connection refused");
}

#[test]
fn every_error_has_its_label_and_message() {
    let cases: Vec<(Error, &str, &str)> = vec![
        (
            Error::MissingObject("deployment"),
            "missingobject",
            "Missing object: deployment",
        ),
        (
            Error::MissingObjectKey("status"),
            "missingobjectkey",
            "Missing object key: status",
        ),
        (Error::FormattingError, "formattingerror", "Formatting Error"),
        (Error::InvalidTraceId, "invalidtraceid", "Invalid Trace ID"),
        (
            Error::UserInputError("no spec".into()),
            "userinputerror",
            "Invalid Echo CRD: no spec",
        ),
    ];
    for (error, label, message) in cases {
        assert_eq!(error.metric_label(), label);
        assert_eq!(error.message(), message);
    }
    let conflict = ApiFailure {
        code: Some(422),
        reason: "immutable".into(),
    };
    assert!(conflict.is_conflict());
    assert!(!conflict.is_not_found());
    let missing = ApiFailure {
        code: Some(404),
        reason: "gone".into(),
    };
    assert!(missing.is_not_found());
    assert!(!missing.is_conflict());
}

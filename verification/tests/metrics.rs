use echo_operator::client::{decimal_text, EndpointLabel, RequestMetrics, StatusCodeLabel};
use echo_operator::controller::{State, CONTROLLER_ID};
use echo_operator::error::Error;
use echo_operator::event::{Action, MetricEvent};
use echo_operator::metrics::{
    ControllerLabels, ControllerMetrics, ErrorLabels, ReconcileMeasurer, ResourceLabels,
    TraceLabel, TriggeredLabels,
};
use prometheus_client::registry::Registry;

fn pair(name: &str, value: &str) -> (String, String) {
    (name.to_string(), value.to_string())
}

fn registered(metrics: ControllerMetrics) -> (ControllerMetrics, Registry) {
    let mut registry = Registry::default();
    let metrics = metrics.register(&mut registry);
    (metrics, registry)
}

fn text_of(registry: &Registry) -> String {
    let mut text = String::new();
    prometheus_client::encoding::text::encode(&mut text, registry).unwrap();
    text
}

#[test]
fn labels_are_named_after_their_fields() {
    let controller = ControllerLabels {
        controller: "echo".into(),
    };
    assert_eq!(controller.pairs(), vec![pair("controller", "echo")]);
    let error = ErrorLabels {
        controller: "echo".into(),
        error: "kubeerror".into(),
    };
    assert_eq!(
        error.pairs(),
        vec![pair("controller", "echo"), pair("error", "kubeerror")]
    );
    let resource = ResourceLabels {
        controller: "echo".into(),
        namespace: "default".into(),
        name: "test".into(),
    };
    assert_eq!(
        resource.pairs(),
        vec![
            pair("controller", "echo"),
            pair("namespace", "default"),
            pair("name", "test")
        ]
    );
    let triggered = TriggeredLabels {
        controller: "echo".into(),
        action: Action::Delete,
        triggered_by: "Deployment".into(),
    };
    assert_eq!(
        triggered.pairs(),
        vec![
            pair("controller", "echo"),
            pair("action", "Delete"),
            pair("triggered_by", "Deployment")
        ]
    );
    assert_eq!(Action::Apply.as_label(), "Apply");
}

#[test]
fn counters_count_one_by_one_under_their_labels() {
    let (mut metrics, registry) = registered(ControllerMetrics::new("echo"));
    assert_eq!(metrics.controller(), "echo");
    metrics.reconcile_count();
    metrics.reconcile_count();
    metrics.reconcile_deploy_delete_create_inc();
    metrics.status_update_errors_inc();
    metrics.watch_operations_failed_inc();
    metrics.watch_operations_failed_inc();
    metrics.watch_operations_failed_inc();
    metrics.triggered_inc(Action::Apply, "Deployment");
    metrics.triggered_inc(Action::Delete, "Deployment");
    metrics.triggered_inc(Action::Delete, "Deployment");
    metrics.reconcile_failure_set(&Error::MissingObject("deployment"));
    metrics.reconcile_failure_set(&Error::InvalidTraceId);
    metrics.reconcile_failure_set(&Error::InvalidTraceId);
    let text = text_of(&registry);
    for line in [
        "reconcile_operations_total{controller=\"echo\"} 2",
        "reconcile_deploy_delete_create_total{controller=\"echo\"} 1",
        "status_update_errors_total{controller=\"echo\"} 1",
        "watch_operations_failed_total{controller=\"echo\"} 3",
        "triggered_total{controller=\"echo\",action=\"Apply\",triggered_by=\"Deployment\"} 1",
        "triggered_total{controller=\"echo\",action=\"Delete\",triggered_by=\"Deployment\"} 2",
        "reconcile_failures_total{controller=\"echo\",error=\"missingobject\"} 1",
        "reconcile_failures_total{controller=\"echo\",error=\"invalidtraceid\"} 2",
    ] {
        assert!(text.contains(line), "{} is missing in\n{}", line, text);
    }
}

#[test]
fn gauges_hold_the_last_value_that_was_set() {
    let (mut metrics, registry) = registered(ControllerMetrics::new("echo"));
    metrics.ready_set(1);
    metrics.ready_set(0);
    metrics.spec_replicas_set("default", "test", 3);
    metrics.spec_replicas_set("default", "other", 1);
    metrics.spec_replicas_set("default", "test", 5);
    let text = text_of(&registry);
    for line in [
        "ready{controller=\"echo\"} 0",
        "spec_replicas{controller=\"echo\",namespace=\"default\",name=\"test\"} 5",
        "spec_replicas{controller=\"echo\",namespace=\"default\",name=\"other\"} 1",
    ] {
        assert!(text.contains(line), "{} is missing in\n{}", line, text);
    }
}

#[test]
fn metrics_are_registered_under_their_names_with_help() {
    let (_, registry) = registered(ControllerMetrics::new("echo"));
    let text = text_of(&registry);
    let described: Vec<&str> = text.lines().filter(|l| l.starts_with("# HELP")).collect();
    assert_eq!(
        described,
        vec![
            "# HELP reconcile_operations Total number of reconcile operations.",
            "# HELP reconcile_failures Number of errors that occurred during reconcile operations.",
            "# HELP reconcile_deploy_delete_create Number of times that reconciling a deployment required deleting and re-creating it.",
            "# HELP spec_replicas Number of expected replicas for the object.",
            "# HELP status_update_errors Number of errors that occurred during update operations to status subresources.",
            "# HELP triggered Number of times a Kubernetes object applied or delete event triggered to reconcile an object.",
            "# HELP watch_operations_failed Total number of watch operations that failed.",
            "# HELP ready 1 when the controller is ready to reconcile resources, 0 otherwise.",
        ]
    );
    assert!(text.contains("# TYPE reconcile_operations counter"));
    assert!(text.contains("# TYPE ready gauge"));
}

#[test]
fn events_are_recorded_with_the_metric_they_belong_to() {
    let (mut metrics, registry) = registered(ControllerMetrics::new("echo"));
    let events = vec![
        MetricEvent::Reconciled,
        MetricEvent::SpecReplicas {
            namespace: "default".into(),
            name: "test".into(),
            replicas: 2,
        },
        MetricEvent::DeleteRecreated,
        MetricEvent::StatusUpdateFailed,
        MetricEvent::ReconcileFailed {
            error: "kubeerror".into(),
        },
        MetricEvent::Triggered {
            action: Action::Apply,
            triggered_by: "Deployment".into(),
        },
        MetricEvent::WatchFailed,
        MetricEvent::Ready { status: 1 },
    ];
    metrics.record_all(&events);
    metrics.record(&MetricEvent::DeleteRecreated);
    let text = text_of(&registry);
    for line in [
        "reconcile_operations_total{controller=\"echo\"} 1",
        "spec_replicas{controller=\"echo\",namespace=\"default\",name=\"test\"} 2",
        "reconcile_deploy_delete_create_total{controller=\"echo\"} 2",
        "status_update_errors_total{controller=\"echo\"} 1",
        "reconcile_failures_total{controller=\"echo\",error=\"kubeerror\"} 1",
        "triggered_total{controller=\"echo\",action=\"Apply\",triggered_by=\"Deployment\"} 1",
        "watch_operations_failed_total{controller=\"echo\"} 1",
        "ready{controller=\"echo\"} 1",
    ] {
        assert!(text.contains(line), "{} is missing in\n{}", line, text);
    }
}

#[test]
fn state_writes_out_what_its_controllers_recorded() {
    let mut state = State::new(Registry::with_prefix("echo-operator"), &[CONTROLLER_ID]);
    assert_eq!(state.find("echo"), Some(0));
    assert_eq!(state.find("other"), None);
    assert!(state.record("echo", &vec![MetricEvent::Reconciled, MetricEvent::Ready { status: 1 }]));
    assert!(!state.record("other", &vec![MetricEvent::Reconciled]));
    let text = state.metrics().unwrap();
    assert!(text.ends_with("# EOF\n"));
    assert!(text.contains("echo-operator_reconcile_operations_total{controller=\"echo\"} 1"));
    assert!(text.contains("echo-operator_ready{controller=\"echo\"} 1"));
    assert!(!text.contains("controller=\"other\""));
}

#[test]
fn state_without_controllers_writes_out_the_end_only() {
    let state = State::new(Registry::default(), &[]);
    assert_eq!(state.find("echo"), None);
    assert_eq!(state.metrics().unwrap(), "# EOF\n");
}

#[test]
fn trace_label_is_the_id_in_thirty_two_hex_digits() {
    let label = TraceLabel::try_from(0x1f).unwrap();
    assert_eq!(label.id, "0000000000000000000000000000001f");
    let label = TraceLabel::try_from(u128::MAX).unwrap();
    assert_eq!(label.id, "ffffffffffffffffffffffffffffffff");
    let label = TraceLabel::try_from(0x0123456789abcdef0123456789abcdef).unwrap();
    assert_eq!(label.id, "0123456789abcdef0123456789abcdef");
    assert!(matches!(TraceLabel::try_from(0), Err(Error::InvalidTraceId)));
}

#[test]
fn measurer_counts_the_run_and_gives_its_duration() {
    let (mut metrics, registry) = registered(ControllerMetrics::new("echo"));
    let measurer = metrics.reconcile_count_and_measure(0xabc, 1_000);
    assert_eq!(measurer.start, 1_000);
    let seen = measurer.finish(1_250);
    assert_eq!(seen.millis, 250);
    assert_eq!(
        seen.labels.map(|l| l.id),
        Some("00000000000000000000000000000abc".to_string())
    );
    let untraced = metrics.reconcile_count_and_measure(0, 2_000);
    assert!(untraced.labels.is_none());
    assert_eq!(untraced.finish(1_999).millis, 0);
    let plain = ReconcileMeasurer {
        start: 5,
        labels: None,
    };
    assert_eq!(plain.finish(5).millis, 0);
    assert!(text_of(&registry).contains("reconcile_operations_total{controller=\"echo\"} 2"));
}

#[test]
fn endpoint_label_is_the_escaped_template_of_the_path() {
    let label = EndpointLabel::for_path("/api/v1/namespaces/kube-system/pods/dns-5d78c9869d-2xk4b");
    assert_eq!(
        label.endpoint,
        "/api/v1/namespaces/%7Bnamespace%7D/pods/%7Bname%7D"
    );
    assert_eq!(EndpointLabel::for_path("/version").endpoint, "/version");
    assert_eq!(
        EndpointLabel::for_path("/metrics/my path").endpoint,
        "/metrics/my%20path"
    );
    assert_eq!(
        EndpointLabel::for_path("/livez/ping/pong").endpoint,
        "/%7Bprefix%7D"
    );
    assert_eq!(
        EndpointLabel::from_template("/done".to_string()).endpoint,
        "/done"
    );
}

#[test]
fn status_code_label_is_the_code_in_decimal() {
    assert_eq!(StatusCodeLabel::for_status(200).status_code, "200");
    assert_eq!(StatusCodeLabel::for_status(422).status_code, "422");
    assert_eq!(decimal_text(0), "0");
    assert_eq!(decimal_text(7), "7");
    assert_eq!(decimal_text(10), "10");
    assert_eq!(decimal_text(u16::MAX), "65535");
    assert_eq!(
        StatusCodeLabel::for_status(404).pairs(),
        vec![pair("status_code", "404")]
    );
}

#[test]
fn answers_are_counted_by_status_code() {
    let mut registry = Registry::default();
    let mut metrics = RequestMetrics::new(&mut registry);
    metrics.count_response(200);
    metrics.count_response(200);
    metrics.count_response(404);
    let text = text_of(&registry);
    assert!(text.contains(
        "# HELP kubernetes_client_http_requests_total Total number of Kubernetes's client requests by status code.."
    ));
    assert!(text.contains("kubernetes_client_http_requests_total_total{status_code=\"200\"} 2"));
    assert!(text.contains("kubernetes_client_http_requests_total_total{status_code=\"404\"} 1"));
}

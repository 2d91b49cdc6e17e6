//! What the operator counts: each decision names the measurements that go
//! with it, and the metrics take them in.

use vstd::prelude::*;

verus! {

/// What happened to a watched object.
#[derive(Clone, Copy, Debug, Hash, PartialEq, Eq)]
pub enum Action {
    Apply,
    Delete,
}

impl Action {
    /// The action as a label value.
    pub open spec fn label(self) -> Seq<char> {
        match self {
            Action::Apply => "Apply"@,
            Action::Delete => "Delete"@,
        }
    }

    /// The action as a label value.
    pub fn as_label(&self) -> (label: &'static str)
        ensures
            label@ == self.label(),
    {
        match self {
            Action::Apply => "Apply",
            Action::Delete => "Delete",
        }
    }
}

/// One measurement.
#[derive(Debug)]
pub enum MetricEvent {
    /// A reconciliation has begun.
    Reconciled,
    /// A reconciliation has failed with an error of the given kind.
    ReconcileFailed { error: String },
    /// A `Deployment` had to be deleted and created again.
    DeleteRecreated,
    /// The number of replicas that a resource asks for.
    SpecReplicas { namespace: String, name: String, replicas: i32 },
    /// The status of a resource could not be brought up to date.
    StatusUpdateFailed,
    /// A change to an object of the given kind has triggered a reconciliation.
    Triggered { action: Action, triggered_by: String },
    /// A watch on the API server has failed.
    WatchFailed,
    /// Whether the controller is ready: 1 where it is, 0 where it is not.
    Ready { status: i64 },
}

/// A `MetricEvent` as plain values.
pub enum MetricEventView {
    Reconciled,
    ReconcileFailed { error: Seq<char> },
    DeleteRecreated,
    SpecReplicas { namespace: Seq<char>, name: Seq<char>, replicas: i32 },
    StatusUpdateFailed,
    Triggered { action: Action, triggered_by: Seq<char> },
    WatchFailed,
    Ready { status: i64 },
}

impl View for MetricEvent {
    type V = MetricEventView;

    open spec fn view(&self) -> MetricEventView {
        match self {
            MetricEvent::Reconciled => MetricEventView::Reconciled,
            MetricEvent::ReconcileFailed { error } => MetricEventView::ReconcileFailed {
                error: error@,
            },
            MetricEvent::DeleteRecreated => MetricEventView::DeleteRecreated,
            MetricEvent::SpecReplicas { namespace, name, replicas } => MetricEventView::SpecReplicas {
                namespace: namespace@,
                name: name@,
                replicas: *replicas,
            },
            MetricEvent::StatusUpdateFailed => MetricEventView::StatusUpdateFailed,
            MetricEvent::Triggered { action, triggered_by } => MetricEventView::Triggered {
                action: *action,
                triggered_by: triggered_by@,
            },
            MetricEvent::WatchFailed => MetricEventView::WatchFailed,
            MetricEvent::Ready { status } => MetricEventView::Ready { status: *status },
        }
    }
}

impl DeepView for MetricEvent {
    type V = MetricEventView;

    open spec fn deep_view(&self) -> MetricEventView {
        self@
    }
}

/// The test for being the measurement `event`.
pub open spec fn is_event(event: MetricEventView) -> spec_fn(MetricEventView) -> bool {
    |other: MetricEventView| other == event
}

/// How often `event` stands in `events`.
pub open spec fn count_event(events: Seq<MetricEventView>, event: MetricEventView) -> nat {
    events.filter(is_event(event)).len()
}

} // verus!

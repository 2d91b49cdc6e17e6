//! Counters and gauges of the operator, kept in families of
//! `prometheus_client` and registered under fixed names.

use crate::error::{Error, ErrorView};
pub use crate::event::Action;
use crate::event::{count_event, MetricEvent, MetricEventView};
use opentelemetry::trace::TraceId;
use prometheus_client::metrics::counter::Counter;
use prometheus_client::metrics::family::Family;
use prometheus_client::metrics::gauge::Gauge;
use prometheus_client::registry::Registry;
use vstd::prelude::*;

verus! {

/// A set of labels as a family is keyed by it: names and values, in order.
pub type LabelSet = Vec<(String, String)>;

/// A `LabelSet` as plain values.
pub type LabelSetView = Seq<(Seq<char>, Seq<char>)>;

/// The values of a family of counters, by label set.
pub type Tally = Map<LabelSetView, u64>;

/// The values of a family of gauges, by label set.
pub type Levels = Map<LabelSetView, i64>;

/// A name and a help text under which a metric is registered.
pub type Descriptor = (Seq<char>, Seq<char>);

/// A `prometheus_client` family of counters, `Family<LabelSet, Counter>`:
/// one counter for each label set that was counted under. The verifier
/// sees nothing of what is inside; `counter_values` names it.
///
/// A family is a handle to shared counters. Its values are changed through
/// this handle alone; the registry holds a second handle, through which it
/// reads.
#[verifier::external_body]
pub struct Counters {
    family: Family<LabelSet, Counter>,
}

/// A `prometheus_client` family of gauges, `Family<LabelSet, Gauge>`: one
/// gauge for each label set that was set. As with `Counters`, the values
/// are changed through this handle alone, and `gauge_values` names them.
#[verifier::external_body]
pub struct Gauges {
    family: Family<LabelSet, Gauge>,
}

/// `prometheus_client::registry::Registry`, of which the verifier sees
/// nothing but what `registered` names.
#[verifier::external_type_specification]
#[verifier::external_body]
pub struct ExRegistry(Registry);

/// The counters that a family holds, each with its value.
pub uninterp spec fn counter_values(family: Counters) -> Tally;

/// The gauges that a family holds, each with its value.
pub uninterp spec fn gauge_values(family: Gauges) -> Levels;

/// The names and help texts of the metrics that a registry holds, in the
/// order in which they were registered.
pub uninterp spec fn registered(registry: Registry) -> Seq<Descriptor>;

/// The value of the counter under `labels` after one more event: one for a
/// counter that is new, one more for a counter that is there. A counter at
/// its greatest value starts over.
pub open spec fn counted_up(tally: Tally, labels: LabelSetView) -> Tally {
    let before = if tally.contains_key(labels) {
        tally[labels]
    } else {
        0
    };
    tally.insert(
        labels,
        if before == u64::MAX {
            0
        } else {
            (before + 1) as u64
        },
    )
}

/// The value of the counter under `labels`; zero where there is none.
pub open spec fn count_under(tally: Tally, labels: LabelSetView) -> u64 {
    if tally.contains_key(labels) {
        tally[labels]
    } else {
        0
    }
}

/// `Family::default` for counters: a family that holds no counter yet.
#[verifier::external_body]
pub(crate) fn new_counters() -> (family: Counters)
    ensures
        counter_values(family) == Tally::empty(),
{
    Counters { family: Family::default() }
}

/// `Family::default` for gauges: a family that holds no gauge yet.
#[verifier::external_body]
fn new_gauges() -> (family: Gauges)
    ensures
        gauge_values(family) == Levels::empty(),
{
    Gauges { family: Family::default() }
}

/// `Family::get_or_create` followed by `Counter::inc`: the counter under
/// `labels` is made with value zero where the family lacks it, then raised
/// by one, wrapping around at the greatest value. No other counter changes.
#[verifier::external_body]
pub(crate) fn count_up(family: &mut Counters, labels: &LabelSet)
    ensures
        counter_values(*final(family)) == counted_up(
            counter_values(*old(family)),
            labels.deep_view(),
        ),
{
    family.family.get_or_create(labels).inc();
}

/// `Family::get_or_create` followed by `Gauge::set`: the gauge under
/// `labels` is made where the family lacks it, then set to `value`. No
/// other gauge changes.
#[verifier::external_body]
fn set_level(family: &mut Gauges, labels: &LabelSet, value: i64)
    ensures
        gauge_values(*final(family)) == gauge_values(*old(family)).insert(
            labels.deep_view(),
            value,
        ),
{
    family.family.get_or_create(labels).set(value);
}

/// `Registry::register` for a family of counters: the registry holds one
/// more metric, under `name` and under `help` with a full stop behind it.
#[verifier::external_body]
pub(crate) fn register_counters(registry: &mut Registry, name: &str, help: &str, family: &Counters)
    ensures
        registered(*final(registry)) == registered(*old(registry)).push(
            (name@, help@.push('.')),
        ),
{
    registry.register(name, help, family.family.clone());
}

/// `Registry::register` for a family of gauges: the registry holds one more
/// metric, under `name` and under `help` with a full stop behind it.
#[verifier::external_body]
fn register_gauges(registry: &mut Registry, name: &str, help: &str, family: &Gauges)
    ensures
        registered(*final(registry)) == registered(*old(registry)).push(
            (name@, help@.push('.')),
        ),
{
    registry.register(name, help, family.family.clone());
}

/// The line that ends an exposition of metrics.
pub const END_OF_METRICS: &'static str = "# EOF\n";

/// `prometheus_client::encoding::text::encode` into a new string: where it
/// succeeds, the text ends with the end-of-file line. What stands before
/// that line depends on what the metrics hold at that moment.
#[verifier::external_body]
pub(crate) fn encode_registry(registry: &Registry) -> (text: Option<String>)
    ensures
        text is Some ==> END_OF_METRICS@.is_suffix_of(text->0@),
{
    let mut buffer = String::new();
    match prometheus_client::encoding::text::encode(&mut buffer, registry) {
        Ok(()) => Some(buffer),
        Err(_) => None,
    }
}

/// The digit for `value` in base sixteen, in lower case.
pub open spec fn hex_digit(value: nat) -> char {
    "0123456789abcdef"@[value as int]
}

/// `value` in base sixteen with `digits` digits, the most significant first;
/// what does not fit is cut off.
pub open spec fn hex_text(value: nat, digits: nat) -> Seq<char>
    decreases digits,
{
    if digits == 0 {
        Seq::empty()
    } else {
        hex_text(value / 16, (digits - 1) as nat).push(hex_digit(value % 16))
    }
}

/// `TraceId::to_string`: the id as thirty-two digits in base sixteen, in
/// lower case, with leading zeros.
#[verifier::external_body]
fn trace_id_text(id: u128) -> (text: String)
    ensures
        text@ == hex_text(id as nat, 32),
{
    TraceId::from(id).to_string()
}

/// Label of an exemplar: the trace in which a reconciliation ran.
#[derive(Clone, Debug, Hash, PartialEq, Eq, Default)]
pub struct TraceLabel {
    pub id: String,
}

impl TraceLabel {
    /// The label for the trace with the given id; the id zero is not valid.
    pub fn try_from(id: u128) -> (label: Result<TraceLabel, Error>)
        ensures
            id == 0 ==> (label matches Err(error) && error@ == ErrorView::InvalidTraceId),
            id != 0 ==> (label matches Ok(made) && made.id@ == hex_text(id as nat, 32)),
    {
        if id == 0 {
            Err(Error::InvalidTraceId)
        } else {
            Ok(TraceLabel { id: trace_id_text(id) })
        }
    }
}

/// Labels of a metric that is kept once for each controller.
#[derive(Clone, Debug, Hash, PartialEq, Eq)]
pub struct ControllerLabels {
    pub controller: String,
}

/// Labels of the failure counter.
#[derive(Clone, Debug, Hash, PartialEq, Eq)]
pub struct ErrorLabels {
    pub controller: String,
    pub error: String,
}

/// Labels of a metric that is kept once for each resource.
#[derive(Clone, Debug, Hash, PartialEq, Eq)]
pub struct ResourceLabels {
    pub controller: String,
    pub namespace: String,
    pub name: String,
}

/// Labels of the trigger counter.
#[derive(Clone, Debug, Hash, PartialEq, Eq)]
pub struct TriggeredLabels {
    pub controller: String,
    pub action: Action,
    pub triggered_by: String,
}

/// The label set of a metric of the controller `controller`.
pub open spec fn controller_labels(controller: Seq<char>) -> LabelSetView {
    seq![("controller"@, controller)]
}

/// The label set of the failures of kind `error`.
pub open spec fn error_labels(controller: Seq<char>, error: Seq<char>) -> LabelSetView {
    seq![("controller"@, controller), ("error"@, error)]
}

/// The label set of the resource `name` in `namespace`.
pub open spec fn resource_labels(
    controller: Seq<char>,
    namespace: Seq<char>,
    name: Seq<char>,
) -> LabelSetView {
    seq![("controller"@, controller), ("namespace"@, namespace), ("name"@, name)]
}

/// The label set of the triggers by `action` on an object of kind
/// `triggered_by`.
pub open spec fn triggered_labels(
    controller: Seq<char>,
    action: Action,
    triggered_by: Seq<char>,
) -> LabelSetView {
    seq![("controller"@, controller), ("action"@, action.label()), ("triggered_by"@, triggered_by)]
}

impl ControllerLabels {
    /// The labels as names and values.
    pub fn pairs(&self) -> (pairs: LabelSet)
        ensures
            pairs.deep_view() == controller_labels(self.controller@),
    {
        let mut pairs: LabelSet = Vec::new();
        pairs.push(("controller".to_owned(), self.controller.clone()));
        pairs
    }
}

impl ErrorLabels {
    /// The labels as names and values.
    pub fn pairs(&self) -> (pairs: LabelSet)
        ensures
            pairs.deep_view() == error_labels(self.controller@, self.error@),
    {
        let mut pairs: LabelSet = Vec::new();
        pairs.push(("controller".to_owned(), self.controller.clone()));
        pairs.push(("error".to_owned(), self.error.clone()));
        pairs
    }
}

impl ResourceLabels {
    /// The labels as names and values.
    pub fn pairs(&self) -> (pairs: LabelSet)
        ensures
            pairs.deep_view() == resource_labels(self.controller@, self.namespace@, self.name@),
    {
        let mut pairs: LabelSet = Vec::new();
        pairs.push(("controller".to_owned(), self.controller.clone()));
        pairs.push(("namespace".to_owned(), self.namespace.clone()));
        pairs.push(("name".to_owned(), self.name.clone()));
        pairs
    }
}

impl TriggeredLabels {
    /// The labels as names and values.
    pub fn pairs(&self) -> (pairs: LabelSet)
        ensures
            pairs.deep_view() == triggered_labels(
                self.controller@,
                self.action,
                self.triggered_by@,
            ),
    {
        let mut pairs: LabelSet = Vec::new();
        pairs.push(("controller".to_owned(), self.controller.clone()));
        pairs.push(("action".to_owned(), self.action.as_label().to_owned()));
        pairs.push(("triggered_by".to_owned(), self.triggered_by.clone()));
        pairs
    }
}

/// The metrics of the reconciliations of one controller.
pub struct ReconcileMetrics {
    pub operations: Counters,
    pub failures: Counters,
    pub deploy_delete_create: Counters,
}

/// The metrics of one controller.
pub struct ControllerMetrics {
    controller: String,
    pub reconcile: ReconcileMetrics,
    pub spec_replicas: Gauges,
    pub status_update_errors: Counters,
    pub triggered: Counters,
    pub watch_operations_failed: Counters,
    pub ready: Gauges,
}

/// `ControllerMetrics` as plain values.
pub struct ControllerMetricsView {
    pub controller: Seq<char>,
    pub operations: Tally,
    pub failures: Tally,
    pub deploy_delete_create: Tally,
    pub spec_replicas: Levels,
    pub status_update_errors: Tally,
    pub triggered: Tally,
    pub watch_operations_failed: Tally,
    pub ready: Levels,
}

impl View for ControllerMetrics {
    type V = ControllerMetricsView;

    closed spec fn view(&self) -> ControllerMetricsView {
        ControllerMetricsView {
            controller: self.controller@,
            operations: counter_values(self.reconcile.operations),
            failures: counter_values(self.reconcile.failures),
            deploy_delete_create: counter_values(self.reconcile.deploy_delete_create),
            spec_replicas: gauge_values(self.spec_replicas),
            status_update_errors: counter_values(self.status_update_errors),
            triggered: counter_values(self.triggered),
            watch_operations_failed: counter_values(self.watch_operations_failed),
            ready: gauge_values(self.ready),
        }
    }
}

impl ControllerMetricsView {
    /// Metrics of `controller` that have counted nothing yet.
    pub open spec fn fresh(controller: Seq<char>) -> ControllerMetricsView {
        ControllerMetricsView {
            controller,
            operations: Map::empty(),
            failures: Map::empty(),
            deploy_delete_create: Map::empty(),
            spec_replicas: Map::empty(),
            status_update_errors: Map::empty(),
            triggered: Map::empty(),
            watch_operations_failed: Map::empty(),
            ready: Map::empty(),
        }
    }

    /// The label set of the metrics that are kept once for the controller.
    pub open spec fn own_labels(self) -> LabelSetView {
        controller_labels(self.controller)
    }

    /// The metrics after `event` has been recorded: the one counter or
    /// gauge that the event belongs to changes, under the labels that the
    /// event gives.
    pub open spec fn after(self, event: MetricEventView) -> ControllerMetricsView {
        match event {
            MetricEventView::Reconciled => ControllerMetricsView {
                operations: counted_up(self.operations, self.own_labels()),
                ..self
            },
            MetricEventView::ReconcileFailed { error } => ControllerMetricsView {
                failures: counted_up(self.failures, error_labels(self.controller, error)),
                ..self
            },
            MetricEventView::DeleteRecreated => ControllerMetricsView {
                deploy_delete_create: counted_up(self.deploy_delete_create, self.own_labels()),
                ..self
            },
            MetricEventView::SpecReplicas { namespace, name, replicas } => ControllerMetricsView {
                spec_replicas: self.spec_replicas.insert(
                    resource_labels(self.controller, namespace, name),
                    replicas as i64,
                ),
                ..self
            },
            MetricEventView::StatusUpdateFailed => ControllerMetricsView {
                status_update_errors: counted_up(self.status_update_errors, self.own_labels()),
                ..self
            },
            MetricEventView::Triggered { action, triggered_by } => ControllerMetricsView {
                triggered: counted_up(
                    self.triggered,
                    triggered_labels(self.controller, action, triggered_by),
                ),
                ..self
            },
            MetricEventView::WatchFailed => ControllerMetricsView {
                watch_operations_failed: counted_up(
                    self.watch_operations_failed,
                    self.own_labels(),
                ),
                ..self
            },
            MetricEventView::Ready { status } => ControllerMetricsView {
                ready: self.ready.insert(self.own_labels(), status),
                ..self
            },
        }
    }

    /// The metrics after `events` have been recorded, one after the other.
    pub open spec fn after_all(self, events: Seq<MetricEventView>) -> ControllerMetricsView
        decreases events.len(),
    {
        if events.len() == 0 {
            self
        } else {
            self.after_all(events.drop_last()).after(events.last())
        }
    }

    /// How often a `Deployment` was deleted and created again.
    pub open spec fn recreations(self) -> u64 {
        count_under(self.deploy_delete_create, self.own_labels())
    }
}

/// The descriptor of a metric registered under `name` with the help text
/// `help`: the registry puts a full stop behind the help text.
pub open spec fn described(name: Seq<char>, help: Seq<char>) -> Descriptor {
    (name, help.push('.'))
}

/// The descriptors of the metrics of a controller, in the order of their
/// registration.
pub open spec fn controller_descriptors() -> Seq<Descriptor> {
    seq![
        described("reconcile_operations"@, "Total number of reconcile operations"@),
        described(
            "reconcile_failures"@,
            "Number of errors that occurred during reconcile operations"@,
        ),
        described(
            "reconcile_deploy_delete_create"@,
            "Number of times that reconciling a deployment required deleting and re-creating it"@,
        ),
        described("spec_replicas"@, "Number of expected replicas for the object"@),
        described(
            "status_update_errors"@,
            "Number of errors that occurred during update operations to status subresources"@,
        ),
        described(
            "triggered"@,
            "Number of times a Kubernetes object applied or delete event triggered to reconcile an object"@,
        ),
        described("watch_operations_failed"@, "Total number of watch operations that failed"@),
        described(
            "ready"@,
            "1 when the controller is ready to reconcile resources, 0 otherwise"@,
        ),
    ]
}

impl ControllerMetrics {
    /// Metrics of the controller `controller` that have counted nothing yet.
    pub fn new(controller: &str) -> (metrics: ControllerMetrics)
        ensures
            metrics@ == ControllerMetricsView::fresh(controller@),
    {
        ControllerMetrics {
            controller: controller.to_owned(),
            reconcile: ReconcileMetrics {
                operations: new_counters(),
                failures: new_counters(),
                deploy_delete_create: new_counters(),
            },
            spec_replicas: new_gauges(),
            status_update_errors: new_counters(),
            triggered: new_counters(),
            watch_operations_failed: new_counters(),
            ready: new_gauges(),
        }
    }

    /// Name of the controller.
    pub fn controller(&self) -> (name: &String)
        ensures
            name@ == self@.controller,
    {
        &self.controller
    }

    fn own_labels(&self) -> (labels: LabelSet)
        ensures
            labels.deep_view() == self@.own_labels(),
    {
        ControllerLabels { controller: self.controller.clone() }.pairs()
    }

    /// Registers the metrics with `r`, each under its name, so that they
    /// are written out with it. The metrics themselves stay as they are.
    pub fn register(self, r: &mut Registry) -> (metrics: ControllerMetrics)
        ensures
            metrics@ == self@,
            registered(*final(r)) == registered(*old(r)) + controller_descriptors(),
    {
        register_counters(
            r,
            "reconcile_operations",
            "Total number of reconcile operations",
            &self.reconcile.operations,
        );
        register_counters(
            r,
            "reconcile_failures",
            "Number of errors that occurred during reconcile operations",
            &self.reconcile.failures,
        );
        register_counters(
            r,
            "reconcile_deploy_delete_create",
            "Number of times that reconciling a deployment required deleting and re-creating it",
            &self.reconcile.deploy_delete_create,
        );
        register_gauges(
            r,
            "spec_replicas",
            "Number of expected replicas for the object",
            &self.spec_replicas,
        );
        register_counters(
            r,
            "status_update_errors",
            "Number of errors that occurred during update operations to status subresources",
            &self.status_update_errors,
        );
        register_counters(
            r,
            "triggered",
            "Number of times a Kubernetes object applied or delete event triggered to reconcile an object",
            &self.triggered,
        );
        register_counters(
            r,
            "watch_operations_failed",
            "Total number of watch operations that failed",
            &self.watch_operations_failed,
        );
        register_gauges(
            r,
            "ready",
            "1 when the controller is ready to reconcile resources, 0 otherwise",
            &self.ready,
        );
        self
    }

    /// Counts a reconciliation that failed with `e`.
    pub fn reconcile_failure_set(&mut self, e: &Error)
        ensures
            final(self)@ == old(self)@.after(
                MetricEventView::ReconcileFailed { error: e@.metric_label() },
            ),
    {
        let labels = ErrorLabels {
            controller: self.controller.clone(),
            error: e.metric_label(),
        }.pairs();
        count_up(&mut self.reconcile.failures, &labels);
    }

    /// Counts a reconciliation that has begun.
    pub fn reconcile_count(&mut self)
        ensures
            final(self)@ == old(self)@.after(MetricEventView::Reconciled),
    {
        let labels = self.own_labels();
        count_up(&mut self.reconcile.operations, &labels);
    }

    /// Counts a `Deployment` that was deleted and created again.
    pub fn reconcile_deploy_delete_create_inc(&mut self)
        ensures
            final(self)@ == old(self)@.after(MetricEventView::DeleteRecreated),
    {
        let labels = self.own_labels();
        count_up(&mut self.reconcile.deploy_delete_create, &labels);
    }

    /// Records how many replicas the resource `name` in `namespace` asks for.
    pub fn spec_replicas_set(&mut self, namespace: &str, name: &str, replicas: i32)
        ensures
            final(self)@ == old(self)@.after(
                MetricEventView::SpecReplicas { namespace: namespace@, name: name@, replicas },
            ),
    {
        let labels = ResourceLabels {
            controller: self.controller.clone(),
            namespace: namespace.to_owned(),
            name: name.to_owned(),
        }.pairs();
        set_level(&mut self.spec_replicas, &labels, replicas as i64);
    }

    /// Counts a status that could not be brought up to date.
    pub fn status_update_errors_inc(&mut self)
        ensures
            final(self)@ == old(self)@.after(MetricEventView::StatusUpdateFailed),
    {
        let labels = self.own_labels();
        count_up(&mut self.status_update_errors, &labels);
    }

    /// Counts a reconciliation triggered by `action` on an object of kind
    /// `triggered_by`.
    pub fn triggered_inc(&mut self, action: Action, triggered_by: &str)
        ensures
            final(self)@ == old(self)@.after(
                MetricEventView::Triggered { action, triggered_by: triggered_by@ },
            ),
    {
        let labels = TriggeredLabels {
            controller: self.controller.clone(),
            action,
            triggered_by: triggered_by.to_owned(),
        }.pairs();
        count_up(&mut self.triggered, &labels);
    }

    /// Counts a watch that failed.
    pub fn watch_operations_failed_inc(&mut self)
        ensures
            final(self)@ == old(self)@.after(MetricEventView::WatchFailed),
    {
        let labels = self.own_labels();
        count_up(&mut self.watch_operations_failed, &labels);
    }

    /// Records whether the controller is ready: 1 where it is, 0 where it
    /// is not.
    pub fn ready_set(&mut self, status: i64)
        ensures
            final(self)@ == old(self)@.after(MetricEventView::Ready { status }),
    {
        let labels = self.own_labels();
        set_level(&mut self.ready, &labels, status);
    }

    /// Records `event`.
    pub fn record(&mut self, event: &MetricEvent)
        ensures
            final(self)@ == old(self)@.after(event@),
    {
        match event {
            MetricEvent::Reconciled => self.reconcile_count(),
            MetricEvent::ReconcileFailed { error } => {
                let labels = ErrorLabels {
                    controller: self.controller.clone(),
                    error: error.clone(),
                }.pairs();
                count_up(&mut self.reconcile.failures, &labels);
            },
            MetricEvent::DeleteRecreated => self.reconcile_deploy_delete_create_inc(),
            MetricEvent::SpecReplicas { namespace, name, replicas } => self.spec_replicas_set(
                namespace.as_str(),
                name.as_str(),
                *replicas,
            ),
            MetricEvent::StatusUpdateFailed => self.status_update_errors_inc(),
            MetricEvent::Triggered { action, triggered_by } => self.triggered_inc(
                *action,
                triggered_by.as_str(),
            ),
            MetricEvent::WatchFailed => self.watch_operations_failed_inc(),
            MetricEvent::Ready { status } => self.ready_set(*status),
        }
    }

    /// Records `events`, one after the other.
    pub fn record_all(&mut self, events: &Vec<MetricEvent>)
        ensures
            final(self)@ == old(self)@.after_all(events.deep_view()),
    {
        let ghost all = events.deep_view();
        let mut i: usize = 0;
        while i < events.len()
            invariant
                i <= events.len(),
                all == events.deep_view(),
                self@ == old(self)@.after_all(all.take(i as int)),
            decreases events.len() - i,
        {
            self.record(&events[i]);
            assert(all.take(i + 1).drop_last() =~= all.take(i as int));
            i += 1;
        }
        assert(all.take(i as int) =~= all);
    }
}

/// Measures how long a reconciliation takes. It is made when the
/// reconciliation begins and finished when it ends, however it ends.
#[derive(Debug)]
pub struct ReconcileMeasurer {
    /// Milliseconds on the caller's clock at which the reconciliation began.
    pub start: u64,
    /// The trace in which the reconciliation runs, if it runs in one.
    pub labels: Option<TraceLabel>,
}

/// How long a reconciliation took.
#[derive(Debug)]
pub struct Observation {
    /// The duration in milliseconds.
    pub millis: u64,
    /// The trace to point to from the observation.
    pub labels: Option<TraceLabel>,
}

/// The time that has passed from `start` to `now`; none where the clock
/// ran backwards.
pub open spec fn elapsed(start: u64, now: u64) -> u64 {
    if now >= start {
        (now - start) as u64
    } else {
        0
    }
}

impl ReconcileMeasurer {
    /// Begins to measure a reconciliation that begins at `now`, in
    /// milliseconds on the caller's clock, in the trace `trace_id`. The
    /// trace with id zero is no trace.
    pub fn begin(trace_id: u128, now: u64) -> (measurer: ReconcileMeasurer)
        ensures
            measurer.start == now,
            trace_id == 0 ==> measurer.labels is None,
            trace_id != 0 ==> (measurer.labels matches Some(label) && label.id@ == hex_text(
                trace_id as nat,
                32,
            )),
    {
        let labels = match TraceLabel::try_from(trace_id) {
            Ok(label) => Some(label),
            Err(_) => None,
        };
        ReconcileMeasurer { start: now, labels }
    }

    /// Ends the measurement at `now`, in milliseconds on the clock that gave
    /// the start.
    pub fn finish(self, now: u64) -> (seen: Observation)
        ensures
            seen.millis == elapsed(self.start, now),
            seen.labels == self.labels,
    {
        Observation {
            millis: if now >= self.start {
                now - self.start
            } else {
                0
            },
            labels: self.labels,
        }
    }
}

impl ControllerMetrics {
    /// Counts a reconciliation that begins at `now`, in milliseconds on the
    /// caller's clock, in the trace `trace_id`, and hands out what measures
    /// its duration. The trace with id zero is no trace.
    pub fn reconcile_count_and_measure(&mut self, trace_id: u128, now: u64) -> (measurer:
        ReconcileMeasurer)
        ensures
            final(self)@ == old(self)@.after(MetricEventView::Reconciled),
            measurer.start == now,
            trace_id == 0 ==> measurer.labels is None,
            trace_id != 0 ==> (measurer.labels matches Some(label) && label.id@ == hex_text(
                trace_id as nat,
                32,
            )),
    {
        self.reconcile_count();
        ReconcileMeasurer::begin(trace_id, now)
    }
}

/// The recreations counted rise by one with every `DeleteRecreated` that is
/// recorded, and with nothing else, as long as the counter does not pass
/// its greatest value.
pub proof fn lemma_recreations_counted(metrics: ControllerMetricsView, events: Seq<MetricEventView>)
    requires
        metrics.recreations() + count_event(events, MetricEventView::DeleteRecreated)
            <= u64::MAX,
    ensures
        metrics.after_all(events).recreations() == metrics.recreations() + count_event(
            events,
            MetricEventView::DeleteRecreated,
        ),
        metrics.after_all(events).controller == metrics.controller,
    decreases events.len(),
{
    if events.len() > 0 {
        let front = events.drop_last();
        assert(front.push(events.last()) =~= events);
        front.lemma_filter_push(events.last(), crate::event::is_event(MetricEventView::DeleteRecreated));
        lemma_recreations_counted(metrics, front);
    }
}

} // verus!

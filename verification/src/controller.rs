//! The state that the controllers and the metrics endpoint share.

use crate::error::{Error, ErrorView};
use crate::event::MetricEvent;
use crate::metrics::{
    controller_descriptors, encode_registry, registered, ControllerMetrics,
    ControllerMetricsView, Descriptor, END_OF_METRICS,
};
use crate::text::same_text;
use prometheus_client::registry::Registry;
use vstd::prelude::*;

verus! {

/// Name of a controller.
pub type ControllerId = &'static str;

/// Name of the controller of the `Echo` resources.
pub const CONTROLLER_ID: ControllerId = "echo";

/// Prefix of the names under which the metrics are written out.
pub const METRICS_PREFIX: &'static str = "echo-operator";

/// The descriptors of the metrics of `count` controllers.
pub open spec fn all_descriptors(count: nat) -> Seq<Descriptor>
    decreases count,
{
    if count == 0 {
        Seq::empty()
    } else {
        all_descriptors((count - 1) as nat) + controller_descriptors()
    }
}

/// The metrics of all controllers, and the registry that writes them out.
pub struct Metrics {
    pub controllers: Vec<ControllerMetrics>,
    pub registry: Registry,
}

/// The position of the first of `controllers` that is named `name`.
pub open spec fn position_of(controllers: Seq<ControllerMetricsView>, name: Seq<char>) -> Option<
    int,
>
    decreases controllers.len(),
{
    if controllers.len() == 0 {
        None
    } else {
        match position_of(controllers.drop_last(), name) {
            Some(at) => Some(at),
            None => if controllers.last().controller == name {
                Some(controllers.len() - 1)
            } else {
                None
            },
        }
    }
}

impl Metrics {
    /// The metrics of the controllers, by position.
    pub open spec fn views(self) -> Seq<ControllerMetricsView> {
        Seq::new(self.controllers@.len(), |i: int| self.controllers@[i]@)
    }

    /// Metrics for the controllers named by `controller_names`, that have
    /// counted nothing yet and are registered with `registry`.
    pub fn new(registry: Registry, controller_names: &[&'static str]) -> (metrics: Metrics)
        ensures
            metrics.views().len() == controller_names@.len(),
            forall|i: int|
                0 <= i < controller_names@.len() ==> #[trigger] metrics.views()[i]
                    == ControllerMetricsView::fresh(controller_names@[i]@),
            registered(metrics.registry) == registered(registry) + all_descriptors(
                controller_names@.len(),
            ),
    {
        let mut registry = registry;
        let ghost first = registered(registry);
        let mut controllers: Vec<ControllerMetrics> = Vec::new();
        let mut i: usize = 0;
        while i < controller_names.len()
            invariant
                i <= controller_names@.len(),
                controllers@.len() == i,
                forall|j: int|
                    0 <= j < i ==> (#[trigger] controllers@[j])@ == ControllerMetricsView::fresh(
                        controller_names@[j]@,
                    ),
                registered(registry) == first + all_descriptors(i as nat),
            decreases controller_names@.len() - i,
        {
            let made = ControllerMetrics::new(controller_names[i]).register(&mut registry);
            controllers.push(made);
            i += 1;
        }
        Metrics { controllers, registry }
    }
}

/// What the controllers and the metrics endpoint share.
pub struct State {
    metrics: Metrics,
}

impl State {
    /// The metrics of the controllers, by position.
    pub closed spec fn controllers(self) -> Seq<ControllerMetricsView> {
        self.metrics.views()
    }

    /// The descriptors of the metrics that are written out.
    pub closed spec fn descriptors(self) -> Seq<Descriptor> {
        registered(self.metrics.registry)
    }

    /// The state of an operator with the controllers named by
    /// `controller_names`, whose metrics are written out with `registry`.
    pub fn new(registry: Registry, controller_names: &[&'static str]) -> (state: State)
        ensures
            state.controllers().len() == controller_names@.len(),
            forall|i: int|
                0 <= i < controller_names@.len() ==> #[trigger] state.controllers()[i]
                    == ControllerMetricsView::fresh(controller_names@[i]@),
            state.descriptors() == registered(registry) + all_descriptors(
                controller_names@.len(),
            ),
    {
        State { metrics: Metrics::new(registry, controller_names) }
    }

    /// The metrics in the text format of OpenMetrics. The text ends with
    /// the end-of-file line; the only error is `FormattingError`.
    pub fn metrics(&self) -> (text: Result<String, Error>)
        ensures
            match text {
                Ok(text) => END_OF_METRICS@.is_suffix_of(text@),
                Err(error) => error@ == ErrorView::FormattingError,
            },
    {
        match encode_registry(&self.metrics.registry) {
            Some(text) => Ok(text),
            None => Err(Error::FormattingError),
        }
    }

    /// Position of the controller named `controller_id`.
    pub fn find(&self, controller_id: &str) -> (at: Option<usize>)
        ensures
            match at {
                Some(i) => position_of(self.controllers(), controller_id@) == Some(i as int) && i
                    < self.controllers().len(),
                None => position_of(self.controllers(), controller_id@) is None,
            },
    {
        let ghost all = self.controllers();
        let mut i: usize = 0;
        while i < self.metrics.controllers.len()
            invariant
                i <= self.metrics.controllers.len(),
                all == self.controllers(),
                all.len() == self.metrics.controllers.len(),
                position_of(all.take(i as int), controller_id@) is None,
            decreases self.metrics.controllers.len() - i,
        {
            assert(all.take(i + 1).drop_last() =~= all.take(i as int));
            if same_text(self.metrics.controllers[i].controller().as_str(), controller_id) {
                proof {
                    lemma_position_stays(all.take(i + 1), all, controller_id@);
                }
                return Some(i);
            }
            i += 1;
        }
        assert(all.take(i as int) =~= all);
        None
    }

    /// Records `events` with the metrics of the controller named
    /// `controller_id`. The answer is `false`, and nothing is recorded,
    /// where no controller has that name.
    pub fn record(&mut self, controller_id: &str, events: &Vec<MetricEvent>) -> (known: bool)
        ensures
            final(self).descriptors() == old(self).descriptors(),
            match position_of(old(self).controllers(), controller_id@) {
                Some(at) => known && final(self).controllers() == old(self).controllers().update(
                    at,
                    old(self).controllers()[at].after_all(events.deep_view()),
                ),
                None => !known && final(self).controllers() == old(self).controllers(),
            },
    {
        match self.find(controller_id) {
            Some(at) => {
                self.metrics.controllers[at].record_all(events);
                true
            },
            None => false,
        }
    }
}

/// The first controller of a name in a list is the first of that name in
/// every longer list.
pub proof fn lemma_position_stays(
    prefix: Seq<ControllerMetricsView>,
    all: Seq<ControllerMetricsView>,
    name: Seq<char>,
)
    requires
        prefix.is_prefix_of(all),
        position_of(prefix, name) is Some,
    ensures
        position_of(all, name) == position_of(prefix, name),
    decreases all.len() - prefix.len(),
{
    if prefix.len() < all.len() {
        let longer = all.take(prefix.len() as int + 1);
        assert(longer.drop_last() =~= prefix);
        lemma_position_stays(longer, all, name);
    } else {
        assert(prefix =~= all);
    }
}

} // verus!

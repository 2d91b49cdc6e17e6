//! The reconciliation of one `Echo`, as a conversation.
//!
//! A `Reconciliation` never talks to the API server. It names the next
//! request; the caller makes it and hands back the answer. Begun with an
//! `Echo`, it ends with the time of the next run or with an error.

use crate::crd::{Echo, EchoView};
use crate::deployment::{desired_deployment, Deployment, DeploymentView};
use crate::error::{ApiFailure, ApiFailureView, Error, ErrorView};
use crate::event::{MetricEvent, MetricEventView};
use crate::finalizer::{with_finalizer, without_finalizer, FINALIZER};
use crate::status::{planned_status, StatusPatch, StatusPatchView};
use vstd::prelude::*;

verus! {

/// Name under which the operator owns the fields that it applies.
pub const FIELD_MANAGER: &'static str = "echoes.example.com";

/// Seconds between two reconciliations of a resource that nothing touches.
pub const REQUEUE_SECONDS: u64 = 300;

/// Seconds before a failed reconciliation is tried again.
pub const COOLDOWN_SECONDS: u64 = 300;

/// What is said of a resource that has no namespace.
pub const NO_NAMESPACE: &'static str =
    "Expected Echo resource to be namespaced. Can't deploy to an unknown namespace.";

/// What a resource needs, by its finalizer and its deletion timestamp.
#[derive(Clone, Copy, Debug, PartialEq, Eq)]
pub enum EchoAction {
    /// The finalizer is missing: add it, then bring the `Deployment` up to date.
    Create,
    /// The finalizer is held: bring the `Deployment` up to date.
    Apply,
    /// The resource is being deleted: remove the `Deployment`, then the finalizer.
    Delete,
    /// The resource is being deleted and holds nothing back: leave it alone.
    NoOp,
}

/// What `echo` needs.
pub open spec fn action_for(echo: EchoView) -> EchoAction {
    let held = echo.metadata.finalizers.contains(FINALIZER@);
    if echo.metadata.deletion_timestamp is Some {
        if held {
            EchoAction::Delete
        } else {
            EchoAction::NoOp
        }
    } else if held {
        EchoAction::Apply
    } else {
        EchoAction::Create
    }
}

/// Decides what `echo` needs.
pub fn determine_action(echo: &Echo) -> (action: EchoAction)
    ensures
        action == action_for(echo@),
{
    let held = crate::finalizer::is_held(&echo.metadata.finalizers);
    if echo.metadata.deletion_timestamp.is_some() {
        if held {
            EchoAction::Delete
        } else {
            EchoAction::NoOp
        }
    } else if held {
        EchoAction::Apply
    } else {
        EchoAction::Create
    }
}

/// When a resource is to be reconciled next.
#[derive(Clone, Copy, Debug, PartialEq, Eq)]
pub enum Requeue {
    /// After so many seconds, or earlier on a change.
    After(u64),
    /// Not before it changes.
    AwaitChange,
}

/// A request to the API server or to the store.
#[derive(Debug)]
pub enum Request {
    /// Write the list of finalizers of the `Echo`.
    WriteFinalizers { namespace: String, name: String, finalizers: Vec<String> },
    /// Apply the `Deployment` server-side, with force, as `FIELD_MANAGER`.
    Apply { deployment: Deployment },
    /// Delete the `Deployment`.
    Delete { namespace: String, name: String },
    /// Look the `Deployment` up in the store.
    Fetch { namespace: String, name: String },
    /// Apply the status of the `Echo` server-side, with force, as `FIELD_MANAGER`.
    PatchStatus { namespace: String, patch: StatusPatch },
}

/// A `Request` as plain values.
pub enum RequestView {
    WriteFinalizers { namespace: Seq<char>, name: Seq<char>, finalizers: Seq<Seq<char>> },
    Apply { deployment: DeploymentView },
    Delete { namespace: Seq<char>, name: Seq<char> },
    Fetch { namespace: Seq<char>, name: Seq<char> },
    PatchStatus { namespace: Seq<char>, patch: StatusPatchView },
}

impl View for Request {
    type V = RequestView;

    open spec fn view(&self) -> RequestView {
        match self {
            Request::WriteFinalizers { namespace, name, finalizers } => RequestView::WriteFinalizers {
                namespace: namespace@,
                name: name@,
                finalizers: finalizers.deep_view(),
            },
            Request::Apply { deployment } => RequestView::Apply { deployment: deployment@ },
            Request::Delete { namespace, name } => RequestView::Delete {
                namespace: namespace@,
                name: name@,
            },
            Request::Fetch { namespace, name } => RequestView::Fetch {
                namespace: namespace@,
                name: name@,
            },
            Request::PatchStatus { namespace, patch } => RequestView::PatchStatus {
                namespace: namespace@,
                patch: patch@,
            },
        }
    }
}

impl DeepView for Request {
    type V = RequestView;

    open spec fn deep_view(&self) -> RequestView {
        self@
    }
}

/// The answer to a request.
#[derive(Debug)]
pub enum Response {
    /// The request was carried out.
    Done,
    /// The request failed.
    Failed(ApiFailure),
    /// What the store holds under the name asked for.
    Found(Option<Deployment>),
}

/// A `Response` as plain values.
pub enum ResponseView {
    Done,
    Failed(ApiFailureView),
    Found(Option<DeploymentView>),
}

impl View for Response {
    type V = ResponseView;

    open spec fn view(&self) -> ResponseView {
        match self {
            Response::Done => ResponseView::Done,
            Response::Failed(failure) => ResponseView::Failed(failure@),
            Response::Found(found) => ResponseView::Found(found.deep_view()),
        }
    }
}

impl DeepView for Response {
    type V = ResponseView;

    open spec fn deep_view(&self) -> ResponseView {
        self@
    }
}

impl ResponseView {
    /// What was found; nothing where the answer is of another kind.
    pub open spec fn found(self) -> Option<DeploymentView> {
        match self {
            ResponseView::Found(found) => found,
            _ => None,
        }
    }
}

/// What comes next in a reconciliation.
#[derive(Debug)]
pub enum Step {
    /// A request to make; its answer goes to `Reconciliation::advance`.
    Call(Request),
    /// The end: when to run next, or what went wrong.
    Finish(Result<Requeue, Error>),
}

/// A `Step` as plain values.
pub enum StepView {
    Call(RequestView),
    Finish(Result<Requeue, ErrorView>),
}

impl View for Step {
    type V = StepView;

    open spec fn view(&self) -> StepView {
        match self {
            Step::Call(request) => StepView::Call(request@),
            Step::Finish(Ok(requeue)) => StepView::Finish(Ok(*requeue)),
            Step::Finish(Err(error)) => StepView::Finish(Err(error@)),
        }
    }
}

impl DeepView for Step {
    type V = StepView;

    open spec fn deep_view(&self) -> StepView {
        self@
    }
}

/// A step and the measurements that go with it.
#[derive(Debug)]
pub struct Turn {
    pub next: Step,
    pub events: Vec<MetricEvent>,
}

/// A `Turn` as plain values.
pub struct TurnView {
    pub next: StepView,
    pub events: Seq<MetricEventView>,
}

impl View for Turn {
    type V = TurnView;

    open spec fn view(&self) -> TurnView {
        TurnView { next: self.next@, events: self.events.deep_view() }
    }
}

impl DeepView for Turn {
    type V = TurnView;

    open spec fn deep_view(&self) -> TurnView {
        self@
    }
}

/// The request whose answer a reconciliation waits for.
#[derive(Clone, Copy, Debug, PartialEq, Eq)]
pub enum Phase {
    /// The finalizer is being added.
    AddingFinalizer,
    /// The `Deployment` is being applied.
    Applying,
    /// The `Deployment` is being deleted after the server refused to change it.
    Recreating,
    /// The `Deployment` is being applied again after it was deleted.
    Reapplying,
    /// The `Deployment` is being looked up in the store.
    Fetching,
    /// The status is being written.
    PatchingStatus,
    /// The `Deployment` is being deleted along with its `Echo`.
    Cleaning,
    /// The finalizer is being removed.
    Releasing,
    /// Nothing: the reconciliation is over.
    Finished,
}

/// The reconciliation of one `Echo`.
#[derive(Debug)]
pub struct Reconciliation {
    echo: Echo,
    now: i64,
    phase: Phase,
}

/// A `Reconciliation` as plain values.
pub struct ReconciliationView {
    pub echo: EchoView,
    /// Seconds since the epoch at which the reconciliation began.
    pub now: i64,
    pub phase: Phase,
}

impl View for Reconciliation {
    type V = ReconciliationView;

    closed spec fn view(&self) -> ReconciliationView {
        ReconciliationView { echo: self.echo@, now: self.now, phase: self.phase }
    }
}

impl ReconciliationView {
    /// The namespace of the resource; empty where it has none.
    pub open spec fn namespace(self) -> Seq<char> {
        match self.echo.metadata.namespace {
            Some(namespace) => namespace,
            None => Seq::empty(),
        }
    }

    /// The name of the resource.
    pub open spec fn name(self) -> Seq<char> {
        self.echo.metadata.name_any()
    }

    /// The same reconciliation in another phase.
    pub open spec fn at(self, phase: Phase) -> ReconciliationView {
        ReconciliationView { phase, ..self }
    }

    /// The turn that ends the reconciliation.
    pub open spec fn finish(self, result: Result<Requeue, ErrorView>) -> (
        ReconciliationView,
        TurnView,
    ) {
        (self.at(Phase::Finished), TurnView { next: StepView::Finish(result), events: Seq::empty() })
    }

    /// The turn that ends the reconciliation because a call failed.
    pub open spec fn fail(self, failure: ApiFailureView) -> (ReconciliationView, TurnView) {
        self.finish(Err(ErrorView::KubeError(failure)))
    }

    /// The turn that ends the reconciliation without a new status.
    pub open spec fn give_up_status(self) -> (ReconciliationView, TurnView) {
        (
            self.at(Phase::Finished),
            TurnView {
                next: StepView::Finish(Ok(Requeue::After(REQUEUE_SECONDS))),
                events: seq![MetricEventView::StatusUpdateFailed],
            },
        )
    }

    /// The turn that makes `request` and waits for its answer in `phase`.
    pub open spec fn call(self, phase: Phase, request: RequestView) -> (
        ReconciliationView,
        TurnView,
    ) {
        (self.at(phase), TurnView { next: StepView::Call(request), events: Seq::empty() })
    }

    /// The request that applies the `Deployment`.
    pub open spec fn apply_request(self) -> RequestView {
        RequestView::Apply { deployment: desired_deployment(self.echo) }
    }

    /// The request that deletes the `Deployment`.
    pub open spec fn delete_request(self) -> RequestView {
        RequestView::Delete { namespace: self.namespace(), name: self.name() }
    }

    /// The request that looks the `Deployment` up.
    pub open spec fn fetch_request(self) -> RequestView {
        RequestView::Fetch { namespace: self.namespace(), name: self.name() }
    }

    /// The request that writes `finalizers`.
    pub open spec fn finalizers_request(self, finalizers: Seq<Seq<char>>) -> RequestView {
        RequestView::WriteFinalizers { namespace: self.namespace(), name: self.name(), finalizers }
    }

    /// The turn that applies the `Deployment` for the first time in this
    /// reconciliation, and records how many replicas are asked for.
    pub open spec fn first_apply(self) -> (ReconciliationView, TurnView) {
        (
            self.at(Phase::Applying),
            TurnView {
                next: StepView::Call(self.apply_request()),
                events: seq![
                    MetricEventView::SpecReplicas {
                        namespace: self.namespace(),
                        name: self.name(),
                        replicas: self.echo.spec.replicas,
                    },
                ],
            },
        )
    }

    /// The turn that follows the answer `response`.
    ///
    /// A failed call ends the reconciliation with its failure, with three
    /// exceptions. An apply that the server refuses with a conflict is
    /// followed by a delete and one more apply. A delete for a resource
    /// that is going away counts as done where the `Deployment` was not
    /// found. And nothing that goes wrong on the way to the new status is an
    /// error: it is counted, and the reconciliation ends well.
    pub open spec fn advance(self, response: ResponseView) -> (ReconciliationView, TurnView) {
        match self.phase {
            Phase::AddingFinalizer => match response {
                ResponseView::Failed(failure) => self.fail(failure),
                _ => self.first_apply(),
            },
            Phase::Applying => match response {
                ResponseView::Failed(failure) => if failure.is_conflict() {
                    self.call(Phase::Recreating, self.delete_request())
                } else {
                    self.fail(failure)
                },
                _ => self.call(Phase::Fetching, self.fetch_request()),
            },
            Phase::Recreating => match response {
                ResponseView::Failed(failure) => self.fail(failure),
                _ => (
                    self.at(Phase::Reapplying),
                    TurnView {
                        next: StepView::Call(self.apply_request()),
                        events: seq![MetricEventView::DeleteRecreated],
                    },
                ),
            },
            Phase::Reapplying => match response {
                ResponseView::Failed(failure) => self.fail(failure),
                _ => self.call(Phase::Fetching, self.fetch_request()),
            },
            Phase::Fetching => match planned_status(self.echo, response.found(), self.now) {
                Ok(patch) => self.call(
                    Phase::PatchingStatus,
                    RequestView::PatchStatus { namespace: self.namespace(), patch },
                ),
                Err(_) => self.give_up_status(),
            },
            Phase::PatchingStatus => match response {
                ResponseView::Failed(_) => self.give_up_status(),
                _ => self.finish(Ok(Requeue::After(REQUEUE_SECONDS))),
            },
            Phase::Cleaning => match response {
                ResponseView::Failed(failure) if !failure.is_not_found() => self.fail(failure),
                _ => self.call(
                    Phase::Releasing,
                    self.finalizers_request(without_finalizer(self.echo.metadata.finalizers)),
                ),
            },
            Phase::Releasing => match response {
                ResponseView::Failed(failure) => self.fail(failure),
                _ => self.finish(Ok(Requeue::AwaitChange)),
            },
            Phase::Finished => self.finish(Ok(Requeue::AwaitChange)),
        }
    }
}

/// The first turn of the reconciliation of `echo`, without the count of the
/// run: an error for a resource without namespace, else what `action_for`
/// calls for.
pub open spec fn first_turn(echo: EchoView, now: i64) -> (ReconciliationView, TurnView) {
    let state = ReconciliationView { echo, now, phase: Phase::Finished };
    if echo.metadata.namespace is None {
        state.finish(Err(ErrorView::UserInputError(NO_NAMESPACE@)))
    } else {
        match action_for(echo) {
            EchoAction::Create => state.call(
                Phase::AddingFinalizer,
                state.finalizers_request(with_finalizer(echo.metadata.finalizers)),
            ),
            EchoAction::Apply => state.first_apply(),
            EchoAction::Delete => state.call(Phase::Cleaning, state.delete_request()),
            EchoAction::NoOp => state.finish(Ok(Requeue::AwaitChange)),
        }
    }
}

/// The first turn of the reconciliation of `echo`: the run is counted, then
/// `first_turn` decides.
pub open spec fn begin(echo: EchoView, now: i64) -> (ReconciliationView, TurnView) {
    let (state, turn) = first_turn(echo, now);
    (state, TurnView { next: turn.next, events: seq![MetricEventView::Reconciled] + turn.events })
}

/// What to do about a reconciliation that ended with `error`: count it
/// under the kind of the error, and try again after the cooldown.
pub open spec fn error_policy_spec(error: ErrorView) -> (Requeue, MetricEventView) {
    (
        Requeue::After(COOLDOWN_SECONDS),
        MetricEventView::ReconcileFailed { error: error.metric_label() },
    )
}

/// Decides what to do about a reconciliation that ended with `error`.
pub fn error_policy(error: &Error) -> (policy: (Requeue, MetricEvent))
    ensures
        (policy.0, policy.1@) == error_policy_spec(error@),
{
    (Requeue::After(COOLDOWN_SECONDS), MetricEvent::ReconcileFailed { error: error.metric_label() })
}

/// When to run again after a reconciliation that ended with `error`:
/// after the cooldown, whatever the error.
pub fn on_error(error: &Error) -> (requeue: Requeue)
    ensures
        requeue == error_policy_spec(error@).0,
{
    Requeue::After(COOLDOWN_SECONDS)
}

impl Reconciliation {
    /// Tells whether the reconciliation is over.
    pub fn is_finished(&self) -> (over: bool)
        ensures
            over == (self@.phase == Phase::Finished),
    {
        match self.phase {
            Phase::Finished => true,
            _ => false,
        }
    }

    fn namespace(&self) -> (namespace: String)
        ensures
            namespace@ == self@.namespace(),
    {
        match &self.echo.metadata.namespace {
            Some(namespace) => namespace.clone(),
            None => String::new(),
        }
    }

    fn apply_request(&self) -> (request: Request)
        ensures
            request@ == self@.apply_request(),
    {
        Request::Apply { deployment: self.echo.deployment() }
    }

    fn delete_request(&self) -> (request: Request)
        ensures
            request@ == self@.delete_request(),
    {
        Request::Delete { namespace: self.namespace(), name: self.echo.metadata.name_any() }
    }

    fn fetch_request(&self) -> (request: Request)
        ensures
            request@ == self@.fetch_request(),
    {
        Request::Fetch { namespace: self.namespace(), name: self.echo.metadata.name_any() }
    }

    fn finalizers_request(&self, finalizers: Vec<String>) -> (request: Request)
        ensures
            request@ == self@.finalizers_request(finalizers.deep_view()),
    {
        Request::WriteFinalizers {
            namespace: self.namespace(),
            name: self.echo.metadata.name_any(),
            finalizers,
        }
    }

    fn finish(self, result: Result<Requeue, Error>) -> (next: (Reconciliation, Turn))
        ensures
            (next.0@, next.1@) == self@.finish(
                match result {
                    Ok(requeue) => Ok(requeue),
                    Err(error) => Err(error@),
                },
            ),
    {
        let events: Vec<MetricEvent> = Vec::new();
        assert(events.deep_view() =~= Seq::<MetricEventView>::empty());
        (
            Reconciliation { echo: self.echo, now: self.now, phase: Phase::Finished },
            Turn { next: Step::Finish(result), events },
        )
    }

    fn fail(self, failure: ApiFailure) -> (next: (Reconciliation, Turn))
        ensures
            (next.0@, next.1@) == self@.fail(failure@),
    {
        self.finish(Err(Error::KubeError(failure)))
    }

    fn give_up_status(self) -> (next: (Reconciliation, Turn))
        ensures
            (next.0@, next.1@) == self@.give_up_status(),
    {
        let mut events: Vec<MetricEvent> = Vec::new();
        events.push(MetricEvent::StatusUpdateFailed);
        assert(events.deep_view() =~= seq![MetricEventView::StatusUpdateFailed]);
        (
            Reconciliation { echo: self.echo, now: self.now, phase: Phase::Finished },
            Turn { next: Step::Finish(Ok(Requeue::After(REQUEUE_SECONDS))), events },
        )
    }

    fn call(self, phase: Phase, request: Request) -> (next: (Reconciliation, Turn))
        ensures
            (next.0@, next.1@) == self@.call(phase, request@),
    {
        let events: Vec<MetricEvent> = Vec::new();
        assert(events.deep_view() =~= Seq::<MetricEventView>::empty());
        (
            Reconciliation { echo: self.echo, now: self.now, phase },
            Turn { next: Step::Call(request), events },
        )
    }

    fn first_apply(self) -> (next: (Reconciliation, Turn))
        ensures
            (next.0@, next.1@) == self@.first_apply(),
    {
        let request = self.apply_request();
        let event = MetricEvent::SpecReplicas {
            namespace: self.namespace(),
            name: self.echo.metadata.name_any(),
            replicas: self.echo.spec.replicas,
        };
        let mut events: Vec<MetricEvent> = Vec::new();
        events.push(event);
        assert(events.deep_view() =~= seq![event@]);
        (
            Reconciliation { echo: self.echo, now: self.now, phase: Phase::Applying },
            Turn { next: Step::Call(request), events },
        )
    }

    /// Begins the reconciliation of `echo` at time `now`, in seconds since
    /// the epoch.
    pub fn begin(echo: Echo, now: i64) -> (next: (Reconciliation, Turn))
        ensures
            (next.0@, next.1@) == begin(echo@, now),
    {
        let action = determine_action(&echo);
        let state = Reconciliation { echo, now, phase: Phase::Finished };
        let (state, turn) = if state.echo.metadata.namespace.is_none() {
            state.finish(Err(Error::UserInputError(NO_NAMESPACE.to_owned())))
        } else {
            match action {
                EchoAction::Create => {
                    let finalizers = crate::finalizer::add(&state.echo.metadata.finalizers);
                    let request = state.finalizers_request(finalizers);
                    state.call(Phase::AddingFinalizer, request)
                },
                EchoAction::Apply => state.first_apply(),
                EchoAction::Delete => {
                    let request = state.delete_request();
                    state.call(Phase::Cleaning, request)
                },
                EchoAction::NoOp => state.finish(Ok(Requeue::AwaitChange)),
            }
        };
        let ghost rest = turn.events.deep_view();
        let mut events: Vec<MetricEvent> = Vec::new();
        events.push(MetricEvent::Reconciled);
        let mut later = turn.events;
        events.append(&mut later);
        assert(events.deep_view() =~= seq![MetricEventView::Reconciled] + rest);
        (state, Turn { next: turn.next, events })
    }

    /// Takes the answer to the last request and names the next step.
    pub fn advance(self, response: Response) -> (next: (Reconciliation, Turn))
        ensures
            (next.0@, next.1@) == self@.advance(response@),
    {
        match self.phase {
            Phase::AddingFinalizer => match response {
                Response::Failed(failure) => self.fail(failure),
                _ => self.first_apply(),
            },
            Phase::Applying => match response {
                Response::Failed(failure) => {
                    if failure.is_conflict() {
                        let request = self.delete_request();
                        self.call(Phase::Recreating, request)
                    } else {
                        self.fail(failure)
                    }
                },
                _ => {
                    let request = self.fetch_request();
                    self.call(Phase::Fetching, request)
                },
            },
            Phase::Recreating => match response {
                Response::Failed(failure) => self.fail(failure),
                _ => {
                    let request = self.apply_request();
                    let mut events: Vec<MetricEvent> = Vec::new();
                    events.push(MetricEvent::DeleteRecreated);
                    assert(events.deep_view() =~= seq![MetricEventView::DeleteRecreated]);
                    (
                        Reconciliation {
                            echo: self.echo,
                            now: self.now,
                            phase: Phase::Reapplying,
                        },
                        Turn { next: Step::Call(request), events },
                    )
                },
            },
            Phase::Reapplying => match response {
                Response::Failed(failure) => self.fail(failure),
                _ => {
                    let request = self.fetch_request();
                    self.call(Phase::Fetching, request)
                },
            },
            Phase::Fetching => {
                let plan = match &response {
                    Response::Found(Some(deployment)) => self.echo.plan_status(
                        Some(deployment),
                        self.now,
                    ),
                    _ => self.echo.plan_status(None, self.now),
                };
                match plan {
                    Ok(patch) => {
                        let request = Request::PatchStatus { namespace: self.namespace(), patch };
                        self.call(Phase::PatchingStatus, request)
                    },
                    Err(_) => self.give_up_status(),
                }
            },
            Phase::PatchingStatus => match response {
                Response::Failed(_) => self.give_up_status(),
                _ => self.finish(Ok(Requeue::After(REQUEUE_SECONDS))),
            },
            Phase::Cleaning => {
                let stop = match &response {
                    Response::Failed(failure) => !failure.is_not_found(),
                    _ => false,
                };
                if stop {
                    match response {
                        Response::Failed(failure) => self.fail(failure),
                        _ => self.finish(Ok(Requeue::AwaitChange)),
                    }
                } else {
                    let finalizers = crate::finalizer::delete(&self.echo.metadata.finalizers);
                    let request = self.finalizers_request(finalizers);
                    self.call(Phase::Releasing, request)
                }
            },
            Phase::Releasing => match response {
                Response::Failed(failure) => self.fail(failure),
                _ => self.finish(Ok(Requeue::AwaitChange)),
            },
            Phase::Finished => self.finish(Ok(Requeue::AwaitChange)),
        }
    }
}

} // verus!

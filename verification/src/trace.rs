//! What holds of every reconciliation, whatever the API server answers.
//!
//! A reconciliation is followed through the answers it gets. What it asked
//! for, what it counted and how it ended make its trace; what its requests
//! did to the cluster is told by a small model of the cluster.

use crate::crd::EchoView;
use crate::deployment::{desired_deployment, DeploymentView};
use crate::error::{ApiFailureView, ErrorView};
use crate::event::{count_event, is_event, MetricEventView};
use crate::finalizer::{
    lemma_added_once, lemma_occurrences_contains, occurrences, with_finalizer,
    without_finalizer, FINALIZER,
};
use crate::metrics::{lemma_recreations_counted, ControllerMetricsView};
use crate::reconcile::{
    action_for, begin, EchoAction, Phase, ReconciliationView, RequestView, Requeue, ResponseView,
    StepView, TurnView, REQUEUE_SECONDS,
};
use vstd::prelude::*;

verus! {

/// A request and the answer that it got.
pub struct Exchange {
    pub request: RequestView,
    pub response: ResponseView,
}

/// The course of a reconciliation.
pub struct Trace {
    /// The requests that were answered, in order.
    pub exchanges: Seq<Exchange>,
    /// The request that waits for its answer, if the answers ran out.
    pub pending: Option<RequestView>,
    /// The measurements, in order.
    pub events: Seq<MetricEventView>,
    /// How the reconciliation ended, if it did.
    pub result: Option<Result<Requeue, ErrorView>>,
}

/// The course of a reconciliation from `turn` on, with `responses` as the
/// answers to its requests.
pub open spec fn run_from(
    state: ReconciliationView,
    turn: TurnView,
    responses: Seq<ResponseView>,
) -> Trace
    decreases responses.len(),
{
    match turn.next {
        StepView::Finish(result) => Trace {
            exchanges: Seq::empty(),
            pending: None,
            events: turn.events,
            result: Some(result),
        },
        StepView::Call(request) => if responses.len() == 0 {
            Trace {
                exchanges: Seq::empty(),
                pending: Some(request),
                events: turn.events,
                result: None,
            }
        } else {
            let (next_state, next_turn) = state.advance(responses[0]);
            let rest = run_from(next_state, next_turn, responses.skip(1));
            Trace {
                exchanges: seq![Exchange { request, response: responses[0] }] + rest.exchanges,
                pending: rest.pending,
                events: turn.events + rest.events,
                result: rest.result,
            }
        },
    }
}

/// The course of the reconciliation of `echo` begun at `now`.
pub open spec fn run(echo: EchoView, now: i64, responses: Seq<ResponseView>) -> Trace {
    let (state, turn) = begin(echo, now);
    run_from(state, turn, responses)
}

impl Trace {
    /// The reconciliation ended well.
    pub open spec fn succeeded(self) -> bool {
        self.result matches Some(Ok(_))
    }

    /// Every request of the trace, answered or not, meets `test`.
    pub open spec fn every_request(self, test: spec_fn(RequestView) -> bool) -> bool {
        &&& forall|i: int| 0 <= i < self.exchanges.len() ==> test(#[trigger] self.exchanges[i].request)
        &&& self.pending is Some ==> test(self.pending->0)
    }
}

/// What a reconciliation can change of the cluster: the finalizers of the
/// `Echo`, and its `Deployment`.
pub struct Cluster {
    pub finalizers: Seq<Seq<char>>,
    pub deployment: Option<DeploymentView>,
}

/// The cluster after one exchange. A request that failed changed nothing;
/// a delete that found nothing leaves nothing behind.
pub open spec fn after_exchange(cluster: Cluster, exchange: Exchange) -> Cluster {
    match exchange.response {
        ResponseView::Failed(failure) => match exchange.request {
            RequestView::Delete { .. } if failure.is_not_found() => Cluster {
                deployment: None,
                ..cluster
            },
            _ => cluster,
        },
        _ => match exchange.request {
            RequestView::WriteFinalizers { finalizers, .. } => Cluster { finalizers, ..cluster },
            RequestView::Apply { deployment } => Cluster {
                deployment: Some(deployment),
                ..cluster
            },
            RequestView::Delete { .. } => Cluster { deployment: None, ..cluster },
            _ => cluster,
        },
    }
}

/// The cluster after a series of exchanges.
pub open spec fn after_all(cluster: Cluster, exchanges: Seq<Exchange>) -> Cluster
    decreases exchanges.len(),
{
    if exchanges.len() == 0 {
        cluster
    } else {
        after_all(after_exchange(cluster, exchanges[0]), exchanges.skip(1))
    }
}

/// The test for a request that neither applies nor deletes a `Deployment`
/// nor writes finalizers.
pub open spec fn is_about_status() -> spec_fn(RequestView) -> bool {
    |request: RequestView| request is Fetch || request is PatchStatus
}

/// The test for a request that does not apply a `Deployment`.
pub open spec fn is_no_apply() -> spec_fn(RequestView) -> bool {
    |request: RequestView| !(request is Apply)
}

/// The test for a request that applies `deployment`, or applies nothing.
pub open spec fn applies_only(deployment: DeploymentView) -> spec_fn(RequestView) -> bool {
    |request: RequestView| request is Apply ==> request == (RequestView::Apply { deployment })
}

proof fn lemma_after_first(cluster: Cluster, first: Exchange, rest: Seq<Exchange>)
    ensures
        after_all(cluster, seq![first] + rest) == after_all(after_exchange(cluster, first), rest),
{
    let all = seq![first] + rest;
    assert(all.skip(1) =~= rest);
}

proof fn lemma_one_event(only: MetricEventView, event: MetricEventView)
    ensures
        count_event(seq![only], event) == if only == event {
            1nat
        } else {
            0nat
        },
{
    let nothing = Seq::<MetricEventView>::empty();
    nothing.lemma_filter_push(only, is_event(event));
}

/// What a trace has in common from the moment the `Deployment` is in place:
/// it reads and writes the status and nothing else, it counts no
/// recreation, and if it ends, it ends well.
pub open spec fn settles(trace: Trace) -> bool {
    &&& trace.every_request(is_about_status())
    &&& count_event(trace.events, MetricEventView::DeleteRecreated) == 0
    &&& trace.result is Some ==> trace.result == Some(
        Ok::<Requeue, ErrorView>(Requeue::After(REQUEUE_SECONDS)),
    )
    &&& forall|cluster: Cluster| #[trigger] after_all(cluster, trace.exchanges) == cluster
}

proof fn lemma_patching(state: ReconciliationView, turn: TurnView, responses: Seq<ResponseView>)
    requires
        state.phase == Phase::PatchingStatus,
        turn.next is Call,
        turn.next->Call_0 is PatchStatus,
        turn.events.len() == 0,
    ensures
        settles(run_from(state, turn, responses)),
{
    let trace = run_from(state, turn, responses);
    lemma_one_event(MetricEventView::StatusUpdateFailed, MetricEventView::DeleteRecreated);
    if responses.len() > 0 {
        let (next_state, next_turn) = state.advance(responses[0]);
        let rest = run_from(next_state, next_turn, responses.skip(1));
        let first = Exchange { request: turn.next->Call_0, response: responses[0] };
        assert forall|cluster: Cluster| #[trigger]
            after_all(cluster, trace.exchanges) == cluster by {
            lemma_after_first(cluster, first, rest.exchanges);
        }
    }
}

proof fn lemma_fetching(state: ReconciliationView, turn: TurnView, responses: Seq<ResponseView>)
    requires
        state.phase == Phase::Fetching,
        turn.next is Call,
        turn.next->Call_0 is Fetch,
        turn.events.len() == 0,
    ensures
        settles(run_from(state, turn, responses)),
{
    let trace = run_from(state, turn, responses);
    lemma_one_event(MetricEventView::StatusUpdateFailed, MetricEventView::DeleteRecreated);
    if responses.len() > 0 {
        let (next_state, next_turn) = state.advance(responses[0]);
        let rest = run_from(next_state, next_turn, responses.skip(1));
        let first = Exchange { request: turn.next->Call_0, response: responses[0] };
        if next_turn.next is Call {
            lemma_patching(next_state, next_turn, responses.skip(1));
        }
        assert forall|cluster: Cluster| #[trigger]
            after_all(cluster, trace.exchanges) == cluster by {
            lemma_after_first(cluster, first, rest.exchanges);
        }
    }
}

/// What holds of a trace from an apply on: the `Deployment` is applied as
/// the resource calls for it, recreated at most once, and in place
/// whenever the reconciliation ends well.
pub open spec fn brings_up(state: ReconciliationView, trace: Trace) -> bool {
    let wanted = desired_deployment(state.echo);
    &&& trace.every_request(applies_only(wanted))
    &&& trace.every_request(|request: RequestView| !(request is WriteFinalizers))
    &&& count_event(trace.events, MetricEventView::DeleteRecreated) <= 1
    &&& trace.succeeded() ==> forall|cluster: Cluster| #[trigger]
        after_all(cluster, trace.exchanges) == (Cluster { deployment: Some(wanted), ..cluster })
}

proof fn lemma_reapplying(state: ReconciliationView, turn: TurnView, responses: Seq<ResponseView>)
    requires
        state.phase == Phase::Reapplying,
        turn.next == StepView::Call(state.apply_request()),
        turn.events == seq![MetricEventView::DeleteRecreated],
    ensures
        brings_up(state, run_from(state, turn, responses)),
        responses.len() > 0 && !(responses[0] is Failed) ==> count_event(
            run_from(state, turn, responses).events,
            MetricEventView::DeleteRecreated,
        ) == 1 && run_from(state, turn, responses).exchanges.len() >= 1 && forall|i: int|
            1 <= i < run_from(state, turn, responses).exchanges.len() ==> is_about_status()(
                #[trigger] run_from(state, turn, responses).exchanges[i].request,
            ),
{
    let trace = run_from(state, turn, responses);
    let wanted = desired_deployment(state.echo);
    let recreated = MetricEventView::DeleteRecreated;
    lemma_one_event(recreated, recreated);
    if responses.len() > 0 {
        let (next_state, next_turn) = state.advance(responses[0]);
        let rest = run_from(next_state, next_turn, responses.skip(1));
        let first = Exchange { request: turn.next->Call_0, response: responses[0] };
        if !(responses[0] is Failed) {
            lemma_fetching(next_state, next_turn, responses.skip(1));
            assert forall|cluster: Cluster| #[trigger]
                after_all(cluster, trace.exchanges) == (Cluster {
                    deployment: Some(wanted),
                    ..cluster
                }) by {
                lemma_after_first(cluster, first, rest.exchanges);
            }
        }
    }
}

proof fn lemma_recreating(state: ReconciliationView, turn: TurnView, responses: Seq<ResponseView>)
    requires
        state.phase == Phase::Recreating,
        turn.next == StepView::Call(state.delete_request()),
        turn.events.len() == 0,
    ensures
        brings_up(state, run_from(state, turn, responses)),
{
    let trace = run_from(state, turn, responses);
    let wanted = desired_deployment(state.echo);
    if responses.len() > 0 {
        let (next_state, next_turn) = state.advance(responses[0]);
        let rest = run_from(next_state, next_turn, responses.skip(1));
        let first = Exchange { request: turn.next->Call_0, response: responses[0] };
        if !(responses[0] is Failed) {
            lemma_reapplying(next_state, next_turn, responses.skip(1));
            if trace.succeeded() {
                assert forall|cluster: Cluster| #[trigger]
                    after_all(cluster, trace.exchanges) == (Cluster {
                        deployment: Some(wanted),
                        ..cluster
                    }) by {
                    lemma_after_first(cluster, first, rest.exchanges);
                }
            }
        }
    }
}

proof fn lemma_applying(state: ReconciliationView, turn: TurnView, responses: Seq<ResponseView>)
    requires
        state.phase == Phase::Applying,
        turn.next == StepView::Call(state.apply_request()),
        count_event(turn.events, MetricEventView::DeleteRecreated) == 0,
    ensures
        brings_up(state, run_from(state, turn, responses)),
{
    let trace = run_from(state, turn, responses);
    let wanted = desired_deployment(state.echo);
    if responses.len() > 0 {
        let (next_state, next_turn) = state.advance(responses[0]);
        let rest = run_from(next_state, next_turn, responses.skip(1));
        let first = Exchange { request: turn.next->Call_0, response: responses[0] };
        if next_turn.next is Call && responses[0] is Failed {
            lemma_recreating(next_state, next_turn, responses.skip(1));
            if trace.succeeded() {
                assert forall|cluster: Cluster| #[trigger]
                    after_all(cluster, trace.exchanges) == (Cluster {
                        deployment: Some(wanted),
                        ..cluster
                    }) by {
                    lemma_after_first(cluster, first, rest.exchanges);
                }
            }
        } else if next_turn.next is Call {
            lemma_fetching(next_state, next_turn, responses.skip(1));
            assert forall|cluster: Cluster| #[trigger]
                after_all(cluster, trace.exchanges) == (Cluster {
                    deployment: Some(wanted),
                    ..cluster
                }) by {
                lemma_after_first(cluster, first, rest.exchanges);
            }
        }
    }
}

/// The `Deployment` converges: whenever the reconciliation of a resource
/// that is not being deleted ends well, the cluster holds the `Deployment`
/// that the resource calls for, with as many replicas as its spec says.
/// Every apply on the way carried that same `Deployment`.
pub proof fn lemma_replicas_converge(
    echo: EchoView,
    now: i64,
    responses: Seq<ResponseView>,
    cluster: Cluster,
)
    requires
        echo.metadata.deletion_timestamp is None,
        run(echo, now, responses).succeeded(),
    ensures
        ({
            let trace = run(echo, now, responses);
            let after = after_all(cluster, trace.exchanges);
            &&& after.deployment == Some(desired_deployment(echo))
            &&& after.deployment->0.spec->0.replicas == Some(echo.spec.replicas)
            &&& after.deployment->0.metadata.name == Some(echo.metadata.name_any())
            &&& after.deployment->0.metadata.namespace == echo.metadata.namespace
            &&& trace.every_request(applies_only(desired_deployment(echo)))
        }),
{
    lemma_begun(echo, now, responses, cluster);
}

/// The finalizer is held exactly once: whenever the reconciliation of a
/// resource that is not being deleted ends well, the finalizers of the
/// resource hold the operator's exactly once.
pub proof fn lemma_finalizer_once(
    echo: EchoView,
    now: i64,
    responses: Seq<ResponseView>,
    cluster: Cluster,
)
    requires
        echo.metadata.deletion_timestamp is None,
        echo.metadata.finalizers.no_duplicates(),
        cluster.finalizers == echo.metadata.finalizers,
        run(echo, now, responses).succeeded(),
    ensures
        occurrences(after_all(cluster, run(echo, now, responses).exchanges).finalizers, FINALIZER@)
            == 1,
{
    lemma_begun(echo, now, responses, cluster);
    lemma_added_once(echo.metadata.finalizers);
}

/// What `lemma_replicas_converge` and `lemma_finalizer_once` rest on.
proof fn lemma_begun(echo: EchoView, now: i64, responses: Seq<ResponseView>, cluster: Cluster)
    requires
        echo.metadata.deletion_timestamp is None,
    ensures
        ({
            let trace = run(echo, now, responses);
            let after = after_all(cluster, trace.exchanges);
            &&& trace.every_request(applies_only(desired_deployment(echo)))
            &&& count_event(trace.events, MetricEventView::DeleteRecreated) <= 1
            &&& trace.succeeded() ==> after.deployment == Some(desired_deployment(echo))
            &&& trace.succeeded() ==> after.finalizers == if echo.metadata.finalizers.contains(
                FINALIZER@,
            ) {
                cluster.finalizers
            } else {
                with_finalizer(echo.metadata.finalizers)
            }
        }),
{
    let (state, turn) = begin(echo, now);
    let recreated = MetricEventView::DeleteRecreated;
    lemma_one_event(MetricEventView::Reconciled, recreated);
    if echo.metadata.namespace is Some && action_for(echo) == EchoAction::Apply {
        lemma_one_event(
            MetricEventView::SpecReplicas {
                namespace: state.namespace(),
                name: state.name(),
                replicas: echo.spec.replicas,
            },
            recreated,
        );
        lemma_applying(state, turn, responses);
    } else if echo.metadata.namespace is Some && responses.len() > 0 {
        let (next_state, next_turn) = state.advance(responses[0]);
        let rest = run_from(next_state, next_turn, responses.skip(1));
        let first = Exchange { request: turn.next->Call_0, response: responses[0] };
        if !(responses[0] is Failed) {
            lemma_one_event(
                MetricEventView::SpecReplicas {
                    namespace: state.namespace(),
                    name: state.name(),
                    replicas: echo.spec.replicas,
                },
                recreated,
            );
            lemma_applying(next_state, next_turn, responses.skip(1));
            lemma_after_first(cluster, first, rest.exchanges);
        }
    }
}

/// Conflict recovery: where the server refuses the apply with a conflict
/// and then carries out what it is asked, the reconciliation makes exactly
/// one delete and after it exactly one more apply of the same `Deployment`,
/// and counts one recreation. What follows only reads and writes the
/// status.
pub proof fn lemma_conflict_recovery(
    echo: EchoView,
    now: i64,
    conflict: ApiFailureView,
    delete_answer: ResponseView,
    apply_answer: ResponseView,
    rest: Seq<ResponseView>,
)
    requires
        echo.metadata.namespace is Some,
        action_for(echo) == EchoAction::Apply,
        conflict.is_conflict(),
        !(delete_answer is Failed),
        !(apply_answer is Failed),
    ensures
        ({
            let responses = seq![ResponseView::Failed(conflict), delete_answer, apply_answer]
                + rest;
            let trace = run(echo, now, responses);
            let apply = RequestView::Apply { deployment: desired_deployment(echo) };
            &&& trace.exchanges.len() >= 3
            &&& trace.exchanges[0].request == apply
            &&& trace.exchanges[1].request is Delete
            &&& trace.exchanges[2].request == apply
            &&& forall|i: int|
                3 <= i < trace.exchanges.len() ==> is_about_status()(
                    #[trigger] trace.exchanges[i].request,
                )
            &&& trace.pending is Some ==> is_about_status()(trace.pending->0)
            &&& count_event(trace.events, MetricEventView::DeleteRecreated) == 1
            &&& trace.succeeded()
                || trace.result is None
        }),
{
    let responses = seq![ResponseView::Failed(conflict), delete_answer, apply_answer] + rest;
    let recreated = MetricEventView::DeleteRecreated;
    let (state0, turn0) = begin(echo, now);
    lemma_one_event(MetricEventView::Reconciled, recreated);
    lemma_one_event(
        MetricEventView::SpecReplicas {
            namespace: state0.namespace(),
            name: state0.name(),
            replicas: echo.spec.replicas,
        },
        recreated,
    );
    // The apply is refused.
    let (state1, turn1) = state0.advance(responses[0]);
    let trace1 = run_from(state1, turn1, responses.skip(1));
    // The delete is carried out.
    let (state2, turn2) = state1.advance(responses.skip(1)[0]);
    // The second apply is carried out, and the rest is about the status.
    lemma_reapplying(state2, turn2, responses.skip(1).skip(1));
    let (state3, turn3) = state2.advance(responses.skip(1).skip(1)[0]);
    lemma_fetching(state3, turn3, responses.skip(1).skip(1).skip(1));
}

/// Conflict recovery is counted once: when the measurements of such a
/// reconciliation are recorded, the counter of recreations rises by one.
pub proof fn lemma_conflict_counted(
    metrics: ControllerMetricsView,
    echo: EchoView,
    now: i64,
    conflict: ApiFailureView,
    delete_answer: ResponseView,
    apply_answer: ResponseView,
    rest: Seq<ResponseView>,
)
    requires
        echo.metadata.namespace is Some,
        action_for(echo) == EchoAction::Apply,
        conflict.is_conflict(),
        !(delete_answer is Failed),
        !(apply_answer is Failed),
        metrics.recreations() < u64::MAX,
    ensures
        ({
            let responses = seq![ResponseView::Failed(conflict), delete_answer, apply_answer]
                + rest;
            metrics.after_all(run(echo, now, responses).events).recreations()
                == metrics.recreations() + 1
        }),
{
    let responses = seq![ResponseView::Failed(conflict), delete_answer, apply_answer] + rest;
    lemma_conflict_recovery(echo, now, conflict, delete_answer, apply_answer, rest);
    lemma_recreations_counted(metrics, run(echo, now, responses).events);
}

/// The deletion protocol: the reconciliation of a resource that is being
/// deleted never applies a `Deployment`, and asks for the finalizers to be
/// written only once the `Deployment` is deleted or was found missing.
/// Whenever it ends well for a resource that held the finalizer, the
/// `Deployment` is gone and the finalizer is released, the other finalizers
/// being kept.
pub proof fn lemma_deletion_protocol(
    echo: EchoView,
    now: i64,
    responses: Seq<ResponseView>,
    cluster: Cluster,
)
    requires
        echo.metadata.deletion_timestamp is Some,
    ensures
        ({
            let trace = run(echo, now, responses);
            let after = after_all(cluster, trace.exchanges);
            let held = echo.metadata.finalizers.contains(FINALIZER@);
            &&& trace.every_request(is_no_apply())
            &&& forall|i: int|
                0 <= i < trace.exchanges.len() && (#[trigger] trace.exchanges[i]).request
                    is WriteFinalizers ==> i == 1 && trace.exchanges[0].request is Delete
                    && after_exchange(cluster, trace.exchanges[0]).deployment is None
            &&& trace.pending is Some && trace.pending->0 is WriteFinalizers
                ==> trace.exchanges.len() == 1 && trace.exchanges[0].request is Delete
                && after_exchange(cluster, trace.exchanges[0]).deployment is None
            &&& held && trace.succeeded() ==> {
                &&& after.deployment is None
                &&& after.finalizers == without_finalizer(echo.metadata.finalizers)
                &&& !after.finalizers.contains(FINALIZER@)
                &&& trace.result == Some(Ok::<Requeue, ErrorView>(Requeue::AwaitChange))
            }
            &&& !held && echo.metadata.namespace is Some ==> trace.exchanges.len() == 0
                && trace.succeeded()
        }),
{
    let (state, turn) = begin(echo, now);
    if echo.metadata.namespace is Some && action_for(echo) == EchoAction::Delete
        && responses.len() > 0 {
        let (state1, turn1) = state.advance(responses[0]);
        let trace1 = run_from(state1, turn1, responses.skip(1));
        let first = Exchange { request: turn.next->Call_0, response: responses[0] };
        lemma_after_first(cluster, first, trace1.exchanges);
        if turn1.next is Call && responses.len() > 1 {
            let (state2, turn2) = state1.advance(responses.skip(1)[0]);
            let trace2 = run_from(state2, turn2, responses.skip(1).skip(1));
            let second = Exchange { request: turn1.next->Call_0, response: responses[1] };
            lemma_after_first(after_exchange(cluster, first), second, trace2.exchanges);
        }
    }
}

/// What a resource looks like once a reconciliation has ended well: as
/// before, with the finalizers that the cluster now holds.
pub open spec fn reconciled(echo: EchoView, after: Cluster) -> EchoView {
    EchoView {
        metadata: crate::meta::MetadataView { finalizers: after.finalizers, ..echo.metadata },
        ..echo
    }
}

/// Idempotence: a second reconciliation of a resource whose spec has not
/// changed, after a first one that ended well, applies the same
/// `Deployment` again, writes no finalizers and deletes nothing; where it
/// ends well it leaves the cluster as the first one left it, with one
/// `Deployment` as before.
pub proof fn lemma_reconcile_idempotent(
    echo: EchoView,
    first_now: i64,
    first_responses: Seq<ResponseView>,
    cluster: Cluster,
    second_now: i64,
    second_responses: Seq<ResponseView>,
)
    requires
        echo.metadata.deletion_timestamp is None,
        echo.metadata.finalizers.no_duplicates(),
        cluster.finalizers == echo.metadata.finalizers,
        run(echo, first_now, first_responses).succeeded(),
        forall|i: int|
            0 <= i < second_responses.len() ==> !((#[trigger] second_responses[i]) is Failed),
    ensures
        ({
            let between = after_all(cluster, run(echo, first_now, first_responses).exchanges);
            let again = run(reconciled(echo, between), second_now, second_responses);
            &&& again.every_request(applies_only(desired_deployment(echo)))
            &&& again.every_request(
                |request: RequestView| !(request is WriteFinalizers) && !(request is Delete),
            )
            &&& after_all(between, again.exchanges) == between
        }),
{
    let between = after_all(cluster, run(echo, first_now, first_responses).exchanges);
    let same = reconciled(echo, between);
    lemma_begun(echo, first_now, first_responses, cluster);
    lemma_added_once(echo.metadata.finalizers);
    lemma_occurrences_contains(between.finalizers, FINALIZER@);
    let (state, turn) = begin(same, second_now);
    if same.metadata.namespace is Some && second_responses.len() > 0 {
        let (state1, turn1) = state.advance(second_responses[0]);
        let rest = run_from(state1, turn1, second_responses.skip(1));
        let first = Exchange { request: turn.next->Call_0, response: second_responses[0] };
        lemma_fetching(state1, turn1, second_responses.skip(1));
        lemma_after_first(between, first, rest.exchanges);
    }
}

/// The finalizer comes first: a resource that lacks the finalizer gets it
/// before anything is done about its `Deployment`. The first request
/// writes the finalizers, the operator's among them, and a `Deployment`
/// is applied only once that request was carried out.
pub proof fn lemma_finalizer_first(echo: EchoView, now: i64, responses: Seq<ResponseView>)
    requires
        echo.metadata.namespace is Some,
        action_for(echo) == EchoAction::Create,
    ensures
        ({
            let trace = run(echo, now, responses);
            let write = RequestView::WriteFinalizers {
                namespace: echo.metadata.namespace->0,
                name: echo.metadata.name_any(),
                finalizers: with_finalizer(echo.metadata.finalizers),
            };
            &&& trace.exchanges.len() == 0 ==> trace.pending == Some(write)
            &&& trace.exchanges.len() > 0 ==> trace.exchanges[0].request == write
            &&& forall|i: int|
                0 <= i < trace.exchanges.len() && (#[trigger] trace.exchanges[i]).request
                    is Apply ==> i > 0 && !(trace.exchanges[0].response is Failed)
            &&& trace.pending is Some && trace.pending->0 is Apply ==> trace.exchanges.len() > 0
                && !(trace.exchanges[0].response is Failed)
        }),
{
    let (state, turn) = begin(echo, now);
    if responses.len() > 0 {
        let (next_state, next_turn) = state.advance(responses[0]);
        let rest = run_from(next_state, next_turn, responses.skip(1));
    }
}

/// The phase of a reconciliation goes with the request that it waits for.
pub open spec fn awaits(state: ReconciliationView, turn: TurnView) -> bool {
    match state.phase {
        Phase::AddingFinalizer | Phase::Releasing => turn.next is Call && turn.next->Call_0
            is WriteFinalizers,
        Phase::Applying | Phase::Reapplying => turn.next is Call && turn.next->Call_0 is Apply,
        Phase::Recreating | Phase::Cleaning => turn.next is Call && turn.next->Call_0 is Delete,
        Phase::Fetching => turn.next is Call && turn.next->Call_0 is Fetch,
        Phase::PatchingStatus => turn.next is Call && turn.next->Call_0 is PatchStatus,
        Phase::Finished => turn.next is Finish,
    }
}

/// No request but a write to the status follows a lookup in the store.
pub open spec fn lookup_comes_last(trace: Trace) -> bool {
    &&& forall|i: int, j: int|
        0 <= i < j < trace.exchanges.len() && (#[trigger] trace.exchanges[i]).request is Fetch
            ==> (#[trigger] trace.exchanges[j]).request is PatchStatus
    &&& forall|i: int|
        0 <= i < trace.exchanges.len() && (#[trigger] trace.exchanges[i]).request is Fetch
            && trace.pending is Some ==> trace.pending->0 is PatchStatus
}

proof fn lemma_lookup_last(state: ReconciliationView, turn: TurnView, responses: Seq<ResponseView>)
    requires
        awaits(state, turn),
    ensures
        ({
            let trace = run_from(state, turn, responses);
            let writes_status = |request: RequestView| request is PatchStatus;
            &&& lookup_comes_last(trace)
            &&& state.phase == Phase::PatchingStatus || state.phase == Phase::Finished
                ==> trace.every_request(writes_status)
            &&& state.phase == Phase::Fetching ==> {
                &&& forall|i: int|
                    1 <= i < trace.exchanges.len() ==> (#[trigger] trace.exchanges[i]).request
                        is PatchStatus
                &&& trace.exchanges.len() > 0 && trace.pending is Some ==> trace.pending->0
                    is PatchStatus
            }
        }),
    decreases responses.len(),
{
    if turn.next is Call && responses.len() > 0 {
        let (next_state, next_turn) = state.advance(responses[0]);
        lemma_lookup_last(next_state, next_turn, responses.skip(1));
    }
}

/// The store is advisory: what it answers decides about the status of the
/// resource and about nothing else. Whatever the answers, a lookup in the
/// store is followed by nothing but a write to the status.
pub proof fn lemma_store_advisory(echo: EchoView, now: i64, responses: Seq<ResponseView>)
    ensures
        lookup_comes_last(run(echo, now, responses)),
{
    let (state, turn) = begin(echo, now);
    lemma_lookup_last(state, turn, responses);
}

} // verus!

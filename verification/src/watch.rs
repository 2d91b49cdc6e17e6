//! From what the watches report to the resources to reconcile.
//!
//! A resource is reconciled when it changes itself, when a `Deployment`
//! that it owns changes, and when a reload is asked for on its behalf. The
//! watch on the `Deployment`s asks for a reload whenever one of them is
//! deleted. It must never wait, so a reload that finds the queue full is
//! dropped.

use crate::crd::{Echo, EchoView, API_VERSION, KIND};
use crate::deployment::DeploymentView;
use crate::event::{Action, MetricEvent, MetricEventView};
use crate::keyed::{KeyView, TriggerKey};
use crate::queue::BoundedQueue;
use crate::store::{DeploymentEvent, DeploymentEventView};
use crate::text::same_text;
use vstd::prelude::*;

verus! {

/// Number of reloads that wait at most.
pub const RELOAD_BUFFER_SIZE: usize = 16;

/// Kind of the managed objects, as the trigger counter is labelled with it.
pub const DEPLOYMENT_KIND: &'static str = "Deployment";

/// What the watch on the resources reports.
#[derive(Debug)]
pub enum EchoEvent {
    /// The resource was created or changed, and is now as given.
    Applied(Echo),
    /// The resource was deleted; it was last seen as given.
    Deleted(Echo),
    /// The watch failed, for the reason given. It will be taken up again.
    Failed(String),
}

/// An `EchoEvent` as plain values.
pub enum EchoEventView {
    Applied(EchoView),
    Deleted(EchoView),
    Failed(Seq<char>),
}

impl View for EchoEvent {
    type V = EchoEventView;

    open spec fn view(&self) -> EchoEventView {
        match self {
            EchoEvent::Applied(echo) => EchoEventView::Applied(echo@),
            EchoEvent::Deleted(echo) => EchoEventView::Deleted(echo@),
            EchoEvent::Failed(reason) => EchoEventView::Failed(reason@),
        }
    }
}

/// The key of `echo`: its namespace, empty where it has none, and its name.
pub open spec fn echo_key(echo: EchoView) -> KeyView {
    (
        match echo.metadata.namespace {
            Some(namespace) => namespace,
            None => Seq::empty(),
        },
        echo.metadata.name_any(),
    )
}

/// The resource to reconcile on a report about a resource: the resource
/// itself, and none when the watch failed.
pub open spec fn echo_trigger_spec(event: EchoEventView) -> Option<KeyView> {
    match event {
        EchoEventView::Applied(echo) => Some(echo_key(echo)),
        EchoEventView::Deleted(echo) => Some(echo_key(echo)),
        EchoEventView::Failed(_) => None,
    }
}

/// The resource that owns `deployment`: the `Echo` that the `Deployment`
/// names as its controller, in the namespace of the `Deployment`.
pub open spec fn owner_key(deployment: DeploymentView) -> Option<KeyView> {
    match deployment.metadata.controller_owner() {
        Some(owner) => if owner.kind == KIND@ && owner.api_version == API_VERSION@ {
            Some(
                (
                    match deployment.metadata.namespace {
                        Some(namespace) => namespace,
                        None => Seq::empty(),
                    },
                    owner.name,
                ),
            )
        } else {
            None
        },
        None => None,
    }
}

/// The resource to reconcile on a report about a `Deployment`: its owner,
/// and none when it has no owner or the watch failed.
pub open spec fn owner_trigger_spec(event: DeploymentEventView) -> Option<KeyView> {
    match event {
        DeploymentEventView::Applied(deployment) => owner_key(deployment),
        DeploymentEventView::Deleted(deployment) => owner_key(deployment),
        DeploymentEventView::Failed(_) => None,
    }
}

/// The measurement that goes with a report of the watch on the
/// `Deployment`s.
pub open spec fn watch_event_spec(event: DeploymentEventView) -> MetricEventView {
    match event {
        DeploymentEventView::Applied(_) => MetricEventView::Triggered {
            action: Action::Apply,
            triggered_by: DEPLOYMENT_KIND@,
        },
        DeploymentEventView::Deleted(_) => MetricEventView::Triggered {
            action: Action::Delete,
            triggered_by: DEPLOYMENT_KIND@,
        },
        DeploymentEventView::Failed(_) => MetricEventView::WatchFailed,
    }
}

/// The measurement that goes with a report of the watch on the resources:
/// a failure of the watch is counted, a change is not.
pub open spec fn echo_watch_event_spec(event: EchoEventView) -> Option<MetricEventView> {
    match event {
        EchoEventView::Failed(_) => Some(MetricEventView::WatchFailed),
        _ => None,
    }
}

/// The measurement that goes with a report of the watch on the resources.
pub fn on_echo_event(event: &EchoEvent) -> (counted: Option<MetricEvent>)
    ensures
        counted.deep_view() == echo_watch_event_spec(event@),
{
    match event {
        EchoEvent::Failed(_) => Some(MetricEvent::WatchFailed),
        _ => None,
    }
}

/// The reload that a report of the watch on the `Deployment`s asks for:
/// one for the owner of a `Deployment` that was deleted.
pub open spec fn reload_wanted(event: DeploymentEventView) -> Option<KeyView> {
    match event {
        DeploymentEventView::Deleted(deployment) => owner_key(deployment),
        _ => None,
    }
}

/// The resource to reconcile on a report about a resource.
pub fn echo_trigger(event: &EchoEvent) -> (key: Option<TriggerKey>)
    ensures
        key.deep_view() == echo_trigger_spec(event@),
{
    let echo = match event {
        EchoEvent::Applied(echo) => echo,
        EchoEvent::Deleted(echo) => echo,
        EchoEvent::Failed(_) => {
            return None;
        },
    };
    let namespace = match &echo.metadata.namespace {
        Some(namespace) => namespace.clone(),
        None => String::new(),
    };
    Some(TriggerKey { namespace, name: echo.metadata.name_any() })
}

/// The resource to reconcile on a report about a `Deployment`.
pub fn owner_trigger(event: &DeploymentEvent) -> (key: Option<TriggerKey>)
    ensures
        key.deep_view() == owner_trigger_spec(event@),
{
    let deployment = match event {
        DeploymentEvent::Applied(deployment) => deployment,
        DeploymentEvent::Deleted(deployment) => deployment,
        DeploymentEvent::Failed(_) => {
            return None;
        },
    };
    match deployment.metadata.controller_owner() {
        Some(owner) => {
            if same_text(owner.kind.as_str(), KIND) && same_text(
                owner.api_version.as_str(),
                API_VERSION,
            ) {
                let namespace = match &deployment.metadata.namespace {
                    Some(namespace) => namespace.clone(),
                    None => String::new(),
                };
                Some(TriggerKey { namespace, name: owner.name.clone() })
            } else {
                None
            }
        },
        None => None,
    }
}

/// The reloads that wait to be served, oldest first.
#[derive(Debug)]
pub struct ReloadQueue {
    waiting: BoundedQueue<TriggerKey>,
}

impl View for ReloadQueue {
    type V = Seq<KeyView>;

    closed spec fn view(&self) -> Seq<KeyView> {
        self.waiting@.map_values(|key: TriggerKey| key@)
    }
}

impl ReloadQueue {
    /// The greatest number of reloads that wait.
    pub closed spec fn limit(self) -> nat {
        self.waiting.limit()
    }

    /// An empty queue for at most `RELOAD_BUFFER_SIZE` reloads.
    pub fn new() -> (queue: ReloadQueue)
        ensures
            queue.limit() == RELOAD_BUFFER_SIZE,
            queue@ == Seq::<KeyView>::empty(),
    {
        ReloadQueue { waiting: BoundedQueue::new(RELOAD_BUFFER_SIZE) }
    }

    /// Asks for a reload of `key` without waiting: where the queue is full
    /// the reload is dropped, and the answer is `false`.
    pub fn try_send(&mut self, key: TriggerKey) -> (sent: bool)
        ensures
            final(self).limit() == old(self).limit(),
            sent == (old(self)@.len() < old(self).limit()),
            sent ==> final(self)@ == old(self)@.push(key@),
            !sent ==> final(self)@ == old(self)@,
    {
        let rejected = self.waiting.try_push(key);
        match rejected {
            None => {
                true
            },
            Some(_) => false,
        }
    }

    /// Takes out the oldest reload that waits.
    pub fn recv(&mut self) -> (key: Option<TriggerKey>)
        ensures
            final(self).limit() == old(self).limit(),
            old(self)@.len() == 0 ==> key is None && final(self)@ == old(self)@,
            old(self)@.len() > 0 ==> key.deep_view() == Some(old(self)@[0]) && final(self)@
                == old(self)@.skip(1),
    {
        self.waiting.pop()
    }
}

/// What the watch on the `Deployment`s does about a report.
#[derive(Debug)]
pub struct Reaction {
    /// The measurement that goes with the report.
    pub event: MetricEvent,
    /// A reload was wanted and found the queue full.
    pub reload_dropped: bool,
}

/// Decides what the watch on the `Deployment`s does about `event`: it
/// counts the report, and for a `Deployment` that was deleted it asks for a
/// reload of the owner, if there is room for one.
pub fn on_deployment_event(event: &DeploymentEvent, reload: &mut ReloadQueue) -> (reaction: Reaction)
    ensures
        final(reload).limit() == old(reload).limit(),
        reaction.event@ == watch_event_spec(event@),
        reaction.reload_dropped == (reload_wanted(event@) is Some && old(reload)@.len() >= old(
            reload,
        ).limit()),
        final(reload)@ == if reload_wanted(event@) is Some && old(reload)@.len() < old(
            reload,
        ).limit() {
            old(reload)@.push(reload_wanted(event@)->0)
        } else {
            old(reload)@
        },
{
    match event {
        DeploymentEvent::Applied(_) => Reaction {
            event: MetricEvent::Triggered {
                action: Action::Apply,
                triggered_by: DEPLOYMENT_KIND.to_owned(),
            },
            reload_dropped: false,
        },
        DeploymentEvent::Deleted(_) => {
            let sent = match owner_trigger(event) {
                Some(owner) => reload.try_send(owner),
                None => true,
            };
            Reaction {
                event: MetricEvent::Triggered {
                    action: Action::Delete,
                    triggered_by: DEPLOYMENT_KIND.to_owned(),
                },
                reload_dropped: !sent,
            }
        },
        DeploymentEvent::Failed(_) => Reaction {
            event: MetricEvent::WatchFailed,
            reload_dropped: false,
        },
    }
}

} // verus!

//! The shared store: what the operator last heard of each `Deployment`.
//!
//! The watch on the `Deployment`s is the one writer. Whoever else holds
//! the store reads from it, and may subscribe to the changes. A subscriber
//! that falls behind loses the oldest changes that wait for it: every
//! reconciliation looks the state up again, so a lost change delays a
//! reconciliation and never falsifies one.

use crate::deployment::{Deployment, DeploymentView};
use crate::keyed::{KeyView, KeyedList, TriggerKey};
use crate::queue::BoundedQueue;
use vstd::prelude::*;

verus! {

/// Number of changes that wait for one subscriber at most.
pub const SUBSCRIBE_BUFFER_SIZE: usize = 256;

/// What a watch reports.
#[derive(Debug)]
pub enum DeploymentEvent {
    /// The object was created or changed, and is now as given.
    Applied(Deployment),
    /// The object was deleted; it was last seen as given.
    Deleted(Deployment),
    /// The watch failed, for the reason given. It will be taken up again.
    Failed(String),
}

/// A `DeploymentEvent` as plain values.
pub enum DeploymentEventView {
    Applied(DeploymentView),
    Deleted(DeploymentView),
    Failed(Seq<char>),
}

impl View for DeploymentEvent {
    type V = DeploymentEventView;

    open spec fn view(&self) -> DeploymentEventView {
        match self {
            DeploymentEvent::Applied(deployment) => DeploymentEventView::Applied(deployment@),
            DeploymentEvent::Deleted(deployment) => DeploymentEventView::Deleted(deployment@),
            DeploymentEvent::Failed(reason) => DeploymentEventView::Failed(reason@),
        }
    }
}

impl DeepView for DeploymentEvent {
    type V = DeploymentEventView;

    open spec fn deep_view(&self) -> DeploymentEventView {
        self@
    }
}

impl Clone for DeploymentEvent {
    fn clone(&self) -> (copy: DeploymentEvent)
        ensures
            copy@ == self@,
    {
        match self {
            DeploymentEvent::Applied(deployment) => DeploymentEvent::Applied(deployment.clone()),
            DeploymentEvent::Deleted(deployment) => DeploymentEvent::Deleted(deployment.clone()),
            DeploymentEvent::Failed(reason) => DeploymentEvent::Failed(reason.clone()),
        }
    }
}

/// The key under which the store holds `deployment`: its namespace, empty
/// where it has none, and its name.
pub open spec fn key_of(deployment: DeploymentView) -> KeyView {
    (
        match deployment.metadata.namespace {
            Some(namespace) => namespace,
            None => Seq::empty(),
        },
        deployment.metadata.name_any(),
    )
}

/// The objects after `event`: an object that was applied is held as it
/// now is, an object that was deleted is held no longer, and the failure
/// of a watch changes nothing.
pub open spec fn objects_after(
    objects: Map<KeyView, DeploymentView>,
    event: DeploymentEventView,
) -> Map<KeyView, DeploymentView> {
    match event {
        DeploymentEventView::Applied(deployment) => objects.insert(key_of(deployment), deployment),
        DeploymentEventView::Deleted(deployment) => objects.remove(key_of(deployment)),
        DeploymentEventView::Failed(_) => objects,
    }
}

/// The key of `deployment` in the store.
pub fn deployment_key(deployment: &Deployment) -> (key: TriggerKey)
    ensures
        key@ == key_of(deployment@),
{
    let namespace = match &deployment.metadata.namespace {
        Some(namespace) => namespace.clone(),
        None => String::new(),
    };
    TriggerKey { namespace, name: deployment.metadata.name_any() }
}

/// The store.
#[derive(Debug)]
pub struct Store {
    objects: KeyedList<Deployment>,
    subscribers: Vec<BoundedQueue<DeploymentEvent>>,
}

/// What waits for one subscriber.
pub struct Subscription {
    /// The changes that wait, oldest first.
    pub waiting: Seq<DeploymentEventView>,
    /// The greatest number of changes that wait.
    pub limit: nat,
}

/// A `Store` as plain values.
pub struct StoreView {
    /// The objects by namespace and name.
    pub objects: Map<KeyView, DeploymentView>,
    /// The subscribers, by number.
    pub subscribers: Seq<Subscription>,
}

impl View for Store {
    type V = StoreView;

    closed spec fn view(&self) -> StoreView {
        StoreView {
            objects: self.objects@.map_values(|deployment: Deployment| deployment@),
            subscribers: Seq::new(
                self.subscribers@.len(),
                |i: int|
                    Subscription {
                        waiting: self.subscribers@[i]@.map_values(
                            |event: DeploymentEvent| event@,
                        ),
                        limit: self.subscribers@[i].limit(),
                    },
            ),
        }
    }
}

impl Subscription {
    /// The subscription after one more change: the change comes last, and
    /// where the limit is reached the oldest goes.
    pub open spec fn after(self, event: DeploymentEventView) -> Subscription {
        Subscription {
            waiting: if self.waiting.len() < self.limit {
                self.waiting.push(event)
            } else if self.limit > 0 {
                self.waiting.skip(1).push(event)
            } else {
                self.waiting
            },
            ..self
        }
    }
}

impl StoreView {
    /// The store after `event` was taken in: the objects follow it, and
    /// unless it reports a failure, it waits for every subscriber.
    pub open spec fn after(self, event: DeploymentEventView) -> StoreView {
        StoreView {
            objects: objects_after(self.objects, event),
            subscribers: if event is Failed {
                self.subscribers
            } else {
                Seq::new(self.subscribers.len(), |i: int| self.subscribers[i].after(event))
            },
        }
    }
}

impl StoreView {
    /// The oldest change that waits for `subscriber`, if there is one.
    pub open spec fn oldest(self, subscriber: int) -> Option<DeploymentEventView> {
        if 0 <= subscriber < self.subscribers.len() && self.subscribers[subscriber].waiting.len()
            > 0 {
            Some(self.subscribers[subscriber].waiting[0])
        } else {
            None
        }
    }

    /// The store after the oldest change that waits for `subscriber` was
    /// taken out.
    pub open spec fn polled(self, subscriber: int) -> StoreView {
        if 0 <= subscriber < self.subscribers.len() && self.subscribers[subscriber].waiting.len()
            > 0 {
            StoreView {
                subscribers: self.subscribers.update(
                    subscriber,
                    Subscription {
                        waiting: self.subscribers[subscriber].waiting.skip(1),
                        ..self.subscribers[subscriber]
                    },
                ),
                ..self
            }
        } else {
            self
        }
    }
}

impl Store {
    /// An empty store without subscribers.
    pub fn new() -> (store: Store)
        ensures
            store@.objects == Map::<KeyView, DeploymentView>::empty(),
            store@.subscribers.len() == 0,
    {
        Store { objects: KeyedList::new(), subscribers: Vec::new() }
    }

    /// What the store holds under `namespace` and `name`.
    pub fn get(&self, namespace: &str, name: &str) -> (found: Option<&Deployment>)
        ensures
            found.deep_view() == if self@.objects.contains_key((namespace@, name@)) {
                Some(self@.objects[(namespace@, name@)])
            } else {
                None
            },
    {
        let key = TriggerKey::new(namespace, name);
        self.objects.get(&key)
    }

    /// Adds a subscriber and gives its number. Changes from now on wait for
    /// it, up to `SUBSCRIBE_BUFFER_SIZE` of them.
    pub fn subscribe(&mut self) -> (subscriber: usize)
        ensures
            subscriber == old(self)@.subscribers.len(),
            final(self)@.objects == old(self)@.objects,
            final(self)@.subscribers == old(self)@.subscribers.push(
                Subscription { waiting: Seq::empty(), limit: SUBSCRIBE_BUFFER_SIZE as nat },
            ),
    {
        let subscriber = self.subscribers.len();
        self.subscribers.push(BoundedQueue::new(SUBSCRIBE_BUFFER_SIZE));
        assert(self@.subscribers =~= old(self)@.subscribers.push(
            Subscription { waiting: Seq::empty(), limit: SUBSCRIBE_BUFFER_SIZE as nat },
        )) by {
            assert(Seq::<DeploymentEvent>::empty().map_values(|event: DeploymentEvent| event@)
                =~= Seq::<DeploymentEventView>::empty());
        }
        subscriber
    }

    /// Takes `event` in: the objects follow it, and unless it reports a
    /// failure, a copy of it waits for every subscriber.
    pub fn update(&mut self, event: DeploymentEvent)
        ensures
            final(self)@ == old(self)@.after(event@),
    {
        let ghost before = self@;
        let ghost wanted = before.after(event@);
        let ghost as_view = |deployment: Deployment| deployment@;
        let ghost event_view = |event: DeploymentEvent| event@;
        let forward = match &event {
            DeploymentEvent::Failed(_) => false,
            _ => true,
        };
        if forward {
            let mut i: usize = 0;
            while i < self.subscribers.len()
                invariant
                    i <= self.subscribers.len(),
                    self.subscribers.len() == before.subscribers.len(),
                    self.objects == old(self).objects,
                    event_view == |event: DeploymentEvent| event@,
                    !(event@ is Failed),
                    wanted == before.after(event@),
                    forall|j: int|
                        0 <= j < self.subscribers.len() ==> (#[trigger] self.subscribers@[j]).limit()
                            == before.subscribers[j].limit,
                    forall|j: int|
                        0 <= j < i ==> (#[trigger] self.subscribers@[j])@.map_values(event_view)
                            == wanted.subscribers[j].waiting,
                    forall|j: int|
                        i <= j < self.subscribers.len() ==> (#[trigger] self.subscribers@[j])@.map_values(
                            event_view,
                        ) == before.subscribers[j].waiting,
                decreases self.subscribers.len() - i,
            {
                let copy = event.clone();
                self.subscribers[i].push_evicting(copy);
                i += 1;
            }
        }
        let key = match &event {
            DeploymentEvent::Applied(deployment) => deployment_key(deployment),
            DeploymentEvent::Deleted(deployment) => deployment_key(deployment),
            DeploymentEvent::Failed(_) => TriggerKey::new("", ""),
        };
        match event {
            DeploymentEvent::Applied(deployment) => {
                self.objects.insert(key, deployment);
                assert(self.objects@.map_values(as_view) =~= old(self).objects@.map_values(
                    as_view,
                ).insert(key@, deployment@));
            },
            DeploymentEvent::Deleted(_) => {
                self.objects.remove(&key);
                assert(self.objects@.map_values(as_view) =~= old(self).objects@.map_values(
                    as_view,
                ).remove(key@));
            },
            DeploymentEvent::Failed(_) => {},
        }
        assert(self@.subscribers =~= wanted.subscribers);
    }

    /// Takes out the oldest change that waits for `subscriber`.
    pub fn poll(&mut self, subscriber: usize) -> (event: Option<DeploymentEvent>)
        ensures
            final(self)@ == old(self)@.polled(subscriber as int),
            event.deep_view() == old(self)@.oldest(subscriber as int),
    {
        if subscriber >= self.subscribers.len() {
            return None;
        }
        let ghost event_view = |event: DeploymentEvent| event@;
        let ghost waiting = self.subscribers@[subscriber as int]@;
        let event = self.subscribers[subscriber].pop();
        proof {
            let queue = self.subscribers@[subscriber as int];
            if waiting.len() > 0 {
                assert(queue@.map_values(event_view) =~= waiting.map_values(event_view).skip(1));
            }
        }
        assert(self@.subscribers =~= old(self)@.polled(subscriber as int).subscribers);
        event
    }
}

/// The store holds what it heard last: after an object was applied the
/// store holds it under its key, after it was deleted the store holds
/// nothing under its key, and what is held under other keys stays. Taking
/// the same object in twice is as taking it in once, so that no object is
/// held twice.
pub proof fn lemma_store_latest(
    objects: Map<KeyView, DeploymentView>,
    deployment: DeploymentView,
    other: KeyView,
)
    requires
        other != key_of(deployment),
    ensures
        ({
            let applied = objects_after(objects, DeploymentEventView::Applied(deployment));
            let deleted = objects_after(objects, DeploymentEventView::Deleted(deployment));
            &&& applied.contains_key(key_of(deployment))
            &&& applied[key_of(deployment)] == deployment
            &&& !deleted.contains_key(key_of(deployment))
            &&& applied.contains_key(other) == objects.contains_key(other)
            &&& deleted.contains_key(other) == objects.contains_key(other)
            &&& objects.contains_key(other) ==> applied[other] == objects[other] && deleted[other]
                == objects[other]
            &&& objects_after(applied, DeploymentEventView::Applied(deployment)) == applied
        }),
{
}

} // verus!

//! The `Echo` custom resource: how many replicas of the echo server a user
//! wants, and what the operator last reported about them.

use crate::meta::{Metadata, MetadataView, OwnerReference, OwnerReferenceView};
use vstd::prelude::*;

verus! {

/// API group and version of the custom resource.
pub const API_VERSION: &'static str = "example.com/v1";

/// Kind of the custom resource.
pub const KIND: &'static str = "Echo";

/// Condition type of a resource whose replicas are all up to date and ready.
pub const STATUS_READY: &'static str = "Ready";

/// Condition type of a resource whose rollout is under way.
pub const STATUS_PROGRESSING: &'static str = "Progressing";

/// One entry of `status.conditions`.
#[derive(Debug)]
pub struct Condition {
    pub type_: String,
    pub status: String,
    pub reason: String,
    pub message: String,
    /// Seconds since the epoch at which the condition was entered.
    pub last_transition_time: i64,
    pub observed_generation: Option<i64>,
}

/// A `Condition` as plain values.
pub struct ConditionView {
    pub type_: Seq<char>,
    pub status: Seq<char>,
    pub reason: Seq<char>,
    pub message: Seq<char>,
    pub last_transition_time: i64,
    pub observed_generation: Option<i64>,
}

impl View for Condition {
    type V = ConditionView;

    open spec fn view(&self) -> ConditionView {
        ConditionView {
            type_: self.type_@,
            status: self.status@,
            reason: self.reason@,
            message: self.message@,
            last_transition_time: self.last_transition_time,
            observed_generation: self.observed_generation,
        }
    }
}

impl DeepView for Condition {
    type V = ConditionView;

    open spec fn deep_view(&self) -> ConditionView {
        self@
    }
}

impl Clone for Condition {
    fn clone(&self) -> (copy: Condition)
        ensures
            copy@ == self@,
    {
        Condition {
            type_: self.type_.clone(),
            status: self.status.clone(),
            reason: self.reason.clone(),
            message: self.message.clone(),
            last_transition_time: self.last_transition_time,
            observed_generation: self.observed_generation,
        }
    }
}

/// A copy of a list of conditions.
pub fn clone_conditions(list: &Vec<Condition>) -> (copy: Vec<Condition>)
    ensures
        copy.deep_view() == list.deep_view(),
{
    let mut copy: Vec<Condition> = Vec::new();
    let mut i: usize = 0;
    while i < list.len()
        invariant
            i <= list.len(),
            copy.len() == i,
            forall|j: int| 0 <= j < i ==> (#[trigger] copy@[j])@ == list@[j]@,
        decreases list.len() - i,
    {
        copy.push(list[i].clone());
        i += 1;
    }
    copy
}

/// What the user asks for.
#[derive(Clone, Copy, Debug, PartialEq, Eq)]
pub struct EchoSpec {
    pub replicas: i32,
}

/// What the operator reports.
#[derive(Debug)]
pub struct EchoStatus {
    pub available_replicas: Option<i32>,
    pub observed_generation: Option<i64>,
    pub ready_replicas: Option<i32>,
    pub replicas: Option<i32>,
    pub updated_replicas: Option<i32>,
    pub conditions: Option<Vec<Condition>>,
}

/// An `EchoStatus` as plain values.
pub struct EchoStatusView {
    pub available_replicas: Option<i32>,
    pub observed_generation: Option<i64>,
    pub ready_replicas: Option<i32>,
    pub replicas: Option<i32>,
    pub updated_replicas: Option<i32>,
    pub conditions: Option<Seq<ConditionView>>,
}

impl View for EchoStatus {
    type V = EchoStatusView;

    open spec fn view(&self) -> EchoStatusView {
        EchoStatusView {
            available_replicas: self.available_replicas,
            observed_generation: self.observed_generation,
            ready_replicas: self.ready_replicas,
            replicas: self.replicas,
            updated_replicas: self.updated_replicas,
            conditions: self.conditions.deep_view(),
        }
    }
}

impl DeepView for EchoStatus {
    type V = EchoStatusView;

    open spec fn deep_view(&self) -> EchoStatusView {
        self@
    }
}

impl Clone for EchoStatus {
    fn clone(&self) -> (copy: EchoStatus)
        ensures
            copy@ == self@,
    {
        EchoStatus {
            available_replicas: self.available_replicas,
            observed_generation: self.observed_generation,
            ready_replicas: self.ready_replicas,
            replicas: self.replicas,
            updated_replicas: self.updated_replicas,
            conditions: match &self.conditions {
                Some(list) => Some(clone_conditions(list)),
                None => None,
            },
        }
    }
}

impl Default for EchoStatus {
    fn default() -> (status: EchoStatus)
        ensures
            status@ == (EchoStatusView {
                available_replicas: None,
                observed_generation: None,
                ready_replicas: None,
                replicas: None,
                updated_replicas: None,
                conditions: None,
            }),
    {
        EchoStatus {
            available_replicas: None,
            observed_generation: None,
            ready_replicas: None,
            replicas: None,
            updated_replicas: None,
            conditions: None,
        }
    }
}

/// The custom resource.
#[derive(Debug)]
pub struct Echo {
    pub metadata: Metadata,
    pub spec: EchoSpec,
    pub status: Option<EchoStatus>,
}

/// An `Echo` as plain values.
pub struct EchoView {
    pub metadata: MetadataView,
    pub spec: EchoSpec,
    pub status: Option<EchoStatusView>,
}

impl View for Echo {
    type V = EchoView;

    open spec fn view(&self) -> EchoView {
        EchoView { metadata: self.metadata@, spec: self.spec, status: self.status.deep_view() }
    }
}

impl DeepView for Echo {
    type V = EchoView;

    open spec fn deep_view(&self) -> EchoView {
        self@
    }
}

impl Clone for Echo {
    fn clone(&self) -> (copy: Echo)
        ensures
            copy@ == self@,
    {
        Echo {
            metadata: self.metadata.clone(),
            spec: self.spec,
            status: match &self.status {
                Some(status) => Some(status.clone()),
                None => None,
            },
        }
    }
}

impl EchoView {
    /// The conditions last reported, if any.
    pub open spec fn conditions(self) -> Option<Seq<ConditionView>> {
        match self.status {
            Some(status) => status.conditions,
            None => None,
        }
    }

    /// The reference by which an object names this resource as its
    /// controller. There is none for a resource without name or uid.
    pub open spec fn controller_owner_ref(self) -> Option<OwnerReferenceView> {
        if self.metadata.name is Some && self.metadata.uid is Some {
            Some(
                OwnerReferenceView {
                    api_version: API_VERSION@,
                    kind: KIND@,
                    name: self.metadata.name->0,
                    uid: self.metadata.uid->0,
                    controller: Some(true),
                },
            )
        } else {
            None
        }
    }
}

impl Echo {
    /// A resource of the given name and spec, with nothing else set.
    pub fn new(name: &str, spec: EchoSpec) -> (echo: Echo)
        ensures
            echo@ == (EchoView { metadata: MetadataView::named(name@), spec, status: None }),
    {
        Echo { metadata: Metadata::named(name), spec, status: None }
    }

    /// The namespace of the resource.
    pub fn get_namespace(&self) -> (namespace: String)
        requires
            self.metadata.namespace is Some,
        ensures
            Some(namespace@) == self@.metadata.namespace,
    {
        match &self.metadata.namespace {
            Some(namespace) => namespace.clone(),
            None => String::new(),
        }
    }

    /// The reference by which an object names this resource as its
    /// controller.
    pub fn controller_owner_ref(&self) -> (owner: Option<OwnerReference>)
        ensures
            owner.deep_view() == self@.controller_owner_ref(),
    {
        match (&self.metadata.name, &self.metadata.uid) {
            (Some(name), Some(uid)) => Some(
                OwnerReference {
                    api_version: API_VERSION.to_owned(),
                    kind: KIND.to_owned(),
                    name: name.clone(),
                    uid: uid.clone(),
                    controller: Some(true),
                },
            ),
            _ => None,
        }
    }
}

} // verus!

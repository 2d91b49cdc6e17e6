//! The managed workload: the `Deployment` that runs the echo server for one
//! `Echo`, as the operator asks for it and as the API server reports it.

use crate::crd::{Echo, EchoView};
use crate::labels::Labels;
use crate::meta::{Metadata, MetadataView, OwnerReference};
use vstd::prelude::*;

verus! {

/// Image that every managed container runs.
pub const ECHO_IMAGE: &'static str = "inanimate/echo-server:latest";

/// Port on which the echo server listens.
pub const ECHO_PORT: i32 = 8080;

/// Label that carries the name of the owning resource.
pub const LABEL_APP: &'static str = "app";

/// Label that names the application.
pub const LABEL_NAME: &'static str = "app.kubernetes.io/name";

/// Value of `LABEL_NAME`.
pub const APP_NAME: &'static str = "echo";

/// Label that marks an object as managed by this operator.
pub const LABEL_MANAGED_BY: &'static str = "app.kubernetes.io/managed-by";

/// Value of `LABEL_MANAGED_BY`.
pub const MANAGER: &'static str = "echo-operator";

/// Selector that finds the objects this operator manages.
pub const MANAGED_SELECTOR: &'static str = "app.kubernetes.io/managed-by=echo-operator";

/// Replica counters that the API server reports for a `Deployment`.
#[derive(Clone, Copy, Debug, PartialEq, Eq)]
pub struct DeploymentStatus {
    pub available_replicas: Option<i32>,
    pub ready_replicas: Option<i32>,
    pub replicas: Option<i32>,
    pub updated_replicas: Option<i32>,
}

impl Default for DeploymentStatus {
    fn default() -> (status: DeploymentStatus)
        ensures
            status == (DeploymentStatus {
                available_replicas: None,
                ready_replicas: None,
                replicas: None,
                updated_replicas: None,
            }),
    {
        DeploymentStatus {
            available_replicas: None,
            ready_replicas: None,
            replicas: None,
            updated_replicas: None,
        }
    }
}

impl DeploymentStatus {
    /// A rollout is complete when the total, updated and ready replica
    /// counts are all reported and all equal.
    pub open spec fn rolled_out(self) -> bool {
        &&& self.replicas is Some
        &&& self.updated_replicas == self.replicas
        &&& self.ready_replicas == self.replicas
    }

    /// Tells whether the rollout is complete.
    pub fn is_rolled_out(&self) -> (done: bool)
        ensures
            done == self.rolled_out(),
    {
        match (self.replicas, self.updated_replicas, self.ready_replicas) {
            (Some(total), Some(updated), Some(ready)) => total == updated && total == ready,
            _ => false,
        }
    }
}

/// One container of the pod template.
#[derive(Debug)]
pub struct Container {
    pub name: String,
    pub image: String,
    pub container_port: i32,
}

/// A `Container` as plain values.
pub struct ContainerView {
    pub name: Seq<char>,
    pub image: Seq<char>,
    pub container_port: i32,
}

impl View for Container {
    type V = ContainerView;

    open spec fn view(&self) -> ContainerView {
        ContainerView {
            name: self.name@,
            image: self.image@,
            container_port: self.container_port,
        }
    }
}

impl DeepView for Container {
    type V = ContainerView;

    open spec fn deep_view(&self) -> ContainerView {
        self@
    }
}

impl Clone for Container {
    fn clone(&self) -> (copy: Container)
        ensures
            copy@ == self@,
    {
        Container {
            name: self.name.clone(),
            image: self.image.clone(),
            container_port: self.container_port,
        }
    }
}

/// A copy of a list of containers.
pub fn clone_containers(list: &Vec<Container>) -> (copy: Vec<Container>)
    ensures
        copy.deep_view() == list.deep_view(),
{
    let mut copy: Vec<Container> = Vec::new();
    let mut i: usize = 0;
    while i < list.len()
        invariant
            i <= list.len(),
            copy.len() == i,
            forall|j: int| 0 <= j < i ==> (#[trigger] copy@[j])@ == list@[j]@,
        decreases list.len() - i,
    {
        copy.push(list[i].clone());
        i += 1;
    }
    copy
}

/// What a `Deployment` is to run.
#[derive(Debug)]
pub struct DeploymentSpec {
    pub replicas: Option<i32>,
    /// Labels by which the deployment finds its pods.
    pub selector: Labels,
    /// Labels that the pods get.
    pub template_labels: Labels,
    pub containers: Vec<Container>,
}

/// A `DeploymentSpec` as plain values.
pub struct DeploymentSpecView {
    pub replicas: Option<i32>,
    pub selector: Map<Seq<char>, Seq<char>>,
    pub template_labels: Map<Seq<char>, Seq<char>>,
    pub containers: Seq<ContainerView>,
}

impl View for DeploymentSpec {
    type V = DeploymentSpecView;

    open spec fn view(&self) -> DeploymentSpecView {
        DeploymentSpecView {
            replicas: self.replicas,
            selector: self.selector@,
            template_labels: self.template_labels@,
            containers: self.containers.deep_view(),
        }
    }
}

impl DeepView for DeploymentSpec {
    type V = DeploymentSpecView;

    open spec fn deep_view(&self) -> DeploymentSpecView {
        self@
    }
}

impl Clone for DeploymentSpec {
    fn clone(&self) -> (copy: DeploymentSpec)
        ensures
            copy@ == self@,
    {
        DeploymentSpec {
            replicas: self.replicas,
            selector: self.selector.clone(),
            template_labels: self.template_labels.clone(),
            containers: clone_containers(&self.containers),
        }
    }
}

/// A `Deployment`.
#[derive(Debug)]
pub struct Deployment {
    pub metadata: Metadata,
    pub spec: Option<DeploymentSpec>,
    pub status: Option<DeploymentStatus>,
}

/// A `Deployment` as plain values.
pub struct DeploymentView {
    pub metadata: MetadataView,
    pub spec: Option<DeploymentSpecView>,
    pub status: Option<DeploymentStatus>,
}

impl View for Deployment {
    type V = DeploymentView;

    open spec fn view(&self) -> DeploymentView {
        DeploymentView {
            metadata: self.metadata@,
            spec: self.spec.deep_view(),
            status: self.status,
        }
    }
}

impl DeepView for Deployment {
    type V = DeploymentView;

    open spec fn deep_view(&self) -> DeploymentView {
        self@
    }
}

impl Clone for Deployment {
    fn clone(&self) -> (copy: Deployment)
        ensures
            copy@ == self@,
    {
        Deployment {
            metadata: self.metadata.clone(),
            spec: match &self.spec {
                Some(spec) => Some(spec.clone()),
                None => None,
            },
            status: self.status,
        }
    }
}

/// The labels of the objects managed for `echo`: its own labels, and over
/// them the three that the operator sets.
pub open spec fn managed_labels(echo: EchoView) -> Map<Seq<char>, Seq<char>> {
    echo.metadata.labels.insert(LABEL_APP@, echo.metadata.name_any()).insert(
        LABEL_NAME@,
        APP_NAME@,
    ).insert(LABEL_MANAGED_BY@, MANAGER@)
}

/// The `Deployment` that realises `echo`: same name and namespace, owned by
/// `echo`, with as many replicas as `echo` asks for of one container that
/// runs the echo server.
pub open spec fn desired_deployment(echo: EchoView) -> DeploymentView {
    DeploymentView {
        metadata: MetadataView {
            name: Some(echo.metadata.name_any()),
            namespace: echo.metadata.namespace,
            uid: None,
            labels: managed_labels(echo),
            finalizers: Seq::empty(),
            owner_references: match echo.controller_owner_ref() {
                Some(owner) => seq![owner],
                None => Seq::empty(),
            },
            deletion_timestamp: None,
            generation: None,
        },
        spec: Some(
            DeploymentSpecView {
                replicas: Some(echo.spec.replicas),
                selector: managed_labels(echo),
                template_labels: managed_labels(echo),
                containers: seq![
                    ContainerView {
                        name: echo.metadata.name_any(),
                        image: ECHO_IMAGE@,
                        container_port: ECHO_PORT,
                    },
                ],
            },
        ),
        status: None,
    }
}

impl Echo {
    /// The labels of the objects managed for this resource.
    pub fn managed_labels(&self) -> (labels: Labels)
        ensures
            labels@ == managed_labels(self@),
    {
        let mut labels = self.metadata.labels.clone();
        labels.insert(LABEL_APP.to_owned(), self.metadata.name_any());
        labels.insert(LABEL_NAME.to_owned(), APP_NAME.to_owned());
        labels.insert(LABEL_MANAGED_BY.to_owned(), MANAGER.to_owned());
        labels
    }

    /// The `Deployment` that realises this resource.
    pub fn deployment(&self) -> (deployment: Deployment)
        ensures
            deployment@ == desired_deployment(self@),
    {
        let labels = self.managed_labels();
        let mut owners: Vec<OwnerReference> = Vec::new();
        match self.controller_owner_ref() {
            Some(owner) => {
                owners.push(owner);
            },
            None => {},
        }
        let mut containers: Vec<Container> = Vec::new();
        containers.push(
            Container {
                name: self.metadata.name_any(),
                image: ECHO_IMAGE.to_owned(),
                container_port: ECHO_PORT,
            },
        );
        let deployment = Deployment {
            metadata: Metadata {
                name: Some(self.metadata.name_any()),
                namespace: crate::meta::clone_text(&self.metadata.namespace),
                uid: None,
                labels: labels.clone(),
                finalizers: Vec::new(),
                owner_references: owners,
                deletion_timestamp: None,
                generation: None,
            },
            spec: Some(
                DeploymentSpec {
                    replicas: Some(self.spec.replicas),
                    selector: labels.clone(),
                    template_labels: labels,
                    containers,
                },
            ),
            status: None,
        };
        proof {
            let want = desired_deployment(self@);
            assert(deployment.metadata.finalizers.deep_view() =~= want.metadata.finalizers);
            assert(deployment.metadata.owner_references.deep_view()
                =~= want.metadata.owner_references);
            assert(deployment.spec->0.containers.deep_view() =~= want.spec->0.containers);
        }
        deployment
    }
}

} // verus!

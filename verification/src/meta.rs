//! What every Kubernetes object carries: its name, its owners, its
//! finalizers.

use crate::labels::Labels;
use vstd::prelude::*;

verus! {

/// A link from an object to one that owns it.
#[derive(Debug)]
pub struct OwnerReference {
    pub api_version: String,
    pub kind: String,
    pub name: String,
    pub uid: String,
    /// `Some(true)` on the one owner that manages the object.
    pub controller: Option<bool>,
}

/// An `OwnerReference` as plain values.
pub struct OwnerReferenceView {
    pub api_version: Seq<char>,
    pub kind: Seq<char>,
    pub name: Seq<char>,
    pub uid: Seq<char>,
    pub controller: Option<bool>,
}

impl View for OwnerReference {
    type V = OwnerReferenceView;

    open spec fn view(&self) -> OwnerReferenceView {
        OwnerReferenceView {
            api_version: self.api_version@,
            kind: self.kind@,
            name: self.name@,
            uid: self.uid@,
            controller: self.controller,
        }
    }
}

impl DeepView for OwnerReference {
    type V = OwnerReferenceView;

    open spec fn deep_view(&self) -> OwnerReferenceView {
        self@
    }
}

impl Clone for OwnerReference {
    fn clone(&self) -> (copy: OwnerReference)
        ensures
            copy@ == self@,
    {
        OwnerReference {
            api_version: self.api_version.clone(),
            kind: self.kind.clone(),
            name: self.name.clone(),
            uid: self.uid.clone(),
            controller: self.controller,
        }
    }
}

/// The metadata of an object.
#[derive(Debug)]
pub struct Metadata {
    pub name: Option<String>,
    pub namespace: Option<String>,
    pub uid: Option<String>,
    pub labels: Labels,
    pub finalizers: Vec<String>,
    pub owner_references: Vec<OwnerReference>,
    /// Seconds since the epoch at which deletion was asked for.
    pub deletion_timestamp: Option<i64>,
    pub generation: Option<i64>,
}

/// `Metadata` as plain values.
pub struct MetadataView {
    pub name: Option<Seq<char>>,
    pub namespace: Option<Seq<char>>,
    pub uid: Option<Seq<char>>,
    pub labels: Map<Seq<char>, Seq<char>>,
    pub finalizers: Seq<Seq<char>>,
    pub owner_references: Seq<OwnerReferenceView>,
    pub deletion_timestamp: Option<i64>,
    pub generation: Option<i64>,
}

impl View for Metadata {
    type V = MetadataView;

    open spec fn view(&self) -> MetadataView {
        MetadataView {
            name: self.name.deep_view(),
            namespace: self.namespace.deep_view(),
            uid: self.uid.deep_view(),
            labels: self.labels@,
            finalizers: self.finalizers.deep_view(),
            owner_references: self.owner_references.deep_view(),
            deletion_timestamp: self.deletion_timestamp,
            generation: self.generation,
        }
    }
}

impl DeepView for Metadata {
    type V = MetadataView;

    open spec fn deep_view(&self) -> MetadataView {
        self@
    }
}

impl MetadataView {
    /// Metadata that holds a name and nothing else.
    pub open spec fn named(name: Seq<char>) -> MetadataView {
        MetadataView {
            name: Some(name),
            namespace: None,
            uid: None,
            labels: Map::empty(),
            finalizers: Seq::empty(),
            owner_references: Seq::empty(),
            deletion_timestamp: None,
            generation: None,
        }
    }

    /// The name, or the empty string where the object has none.
    pub open spec fn name_any(self) -> Seq<char> {
        match self.name {
            Some(name) => name,
            None => Seq::empty(),
        }
    }

    /// The first owner that is marked as the controller.
    pub open spec fn controller_owner(self) -> Option<OwnerReferenceView> {
        first_controller(self.owner_references)
    }
}

/// The first of `owners` that is marked as the controller.
pub open spec fn first_controller(owners: Seq<OwnerReferenceView>) -> Option<OwnerReferenceView>
    decreases owners.len(),
{
    if owners.len() == 0 {
        None
    } else if owners[0].controller == Some(true) {
        Some(owners[0])
    } else {
        first_controller(owners.skip(1))
    }
}

/// A copy of a list of strings.
pub fn clone_strings(list: &Vec<String>) -> (copy: Vec<String>)
    ensures
        copy.deep_view() == list.deep_view(),
{
    let mut copy: Vec<String> = Vec::new();
    let mut i: usize = 0;
    while i < list.len()
        invariant
            i <= list.len(),
            copy.len() == i,
            forall|j: int| 0 <= j < i ==> (#[trigger] copy@[j])@ == list@[j]@,
        decreases list.len() - i,
    {
        copy.push(list[i].clone());
        i += 1;
    }
    copy
}

/// A copy of an optional string.
pub fn clone_text(text: &Option<String>) -> (copy: Option<String>)
    ensures
        copy.deep_view() == text.deep_view(),
{
    match text {
        Some(s) => Some(s.clone()),
        None => None,
    }
}

/// A copy of a list of owners.
pub fn clone_owners(list: &Vec<OwnerReference>) -> (copy: Vec<OwnerReference>)
    ensures
        copy.deep_view() == list.deep_view(),
{
    let mut copy: Vec<OwnerReference> = Vec::new();
    let mut i: usize = 0;
    while i < list.len()
        invariant
            i <= list.len(),
            copy.len() == i,
            forall|j: int| 0 <= j < i ==> (#[trigger] copy@[j])@ == list@[j]@,
        decreases list.len() - i,
    {
        copy.push(list[i].clone());
        i += 1;
    }
    copy
}

impl Clone for Metadata {
    fn clone(&self) -> (copy: Metadata)
        ensures
            copy@ == self@,
    {
        Metadata {
            name: clone_text(&self.name),
            namespace: clone_text(&self.namespace),
            uid: clone_text(&self.uid),
            labels: self.labels.clone(),
            finalizers: clone_strings(&self.finalizers),
            owner_references: clone_owners(&self.owner_references),
            deletion_timestamp: self.deletion_timestamp,
            generation: self.generation,
        }
    }
}

impl Metadata {
    /// Metadata that holds a name and nothing else.
    pub fn named(name: &str) -> (meta: Metadata)
        ensures
            meta@ == MetadataView::named(name@),
    {
        let meta = Metadata {
            name: Some(name.to_owned()),
            namespace: None,
            uid: None,
            labels: Labels::new(),
            finalizers: Vec::new(),
            owner_references: Vec::new(),
            deletion_timestamp: None,
            generation: None,
        };
        assert(meta.finalizers.deep_view() =~= Seq::<Seq<char>>::empty());
        assert(meta.owner_references.deep_view() =~= Seq::<OwnerReferenceView>::empty());
        meta
    }

    /// The name, or the empty string where the object has none.
    pub fn name_any(&self) -> (name: String)
        ensures
            name@ == self@.name_any(),
    {
        match &self.name {
            Some(name) => name.clone(),
            None => String::new(),
        }
    }

    /// The first owner that is marked as the controller.
    pub fn controller_owner(&self) -> (owner: Option<&OwnerReference>)
        ensures
            owner.deep_view() == self@.controller_owner(),
    {
        let mut i: usize = 0;
        let ghost owners = self.owner_references.deep_view();
        assert(owners.skip(0) =~= owners);
        while i < self.owner_references.len()
            invariant
                i <= self.owner_references.len(),
                owners == self.owner_references.deep_view(),
                first_controller(owners.skip(i as int)) == first_controller(owners),
            decreases self.owner_references.len() - i,
        {
            let owner = &self.owner_references[i];
            match owner.controller {
                Some(true) => {
                    return Some(owner);
                },
                _ => {},
            }
            assert(owners.skip(i as int).skip(1) =~= owners.skip(i + 1));
            i += 1;
        }
        None
    }
}

} // verus!

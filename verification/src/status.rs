//! From what a `Deployment` reports to the status of its `Echo`.

use crate::crd::{
    clone_conditions, Condition, ConditionView, Echo, EchoStatus, EchoStatusView, EchoView,
    STATUS_PROGRESSING, STATUS_READY,
};
use crate::deployment::{Deployment, DeploymentStatus, DeploymentView};
use crate::error::{Error, ErrorView};
use crate::text::same_text;
use vstd::prelude::*;

verus! {

/// The condition type that `status` calls for: `Ready` once the rollout is
/// complete, `Progressing` until then.
pub open spec fn status_type(status: DeploymentStatus) -> Seq<char> {
    if status.rolled_out() {
        STATUS_READY@
    } else {
        STATUS_PROGRESSING@
    }
}

/// The condition type that a condition of type `type_` takes the place of:
/// `Ready` and `Progressing` displace each other, other types displace none.
pub open spec fn displaced_by(type_: Seq<char>) -> Option<Seq<char>> {
    if type_ == STATUS_READY@ {
        Some(STATUS_PROGRESSING@)
    } else if type_ == STATUS_PROGRESSING@ {
        Some(STATUS_READY@)
    } else {
        None
    }
}

/// The test for being of type `type_`.
pub open spec fn of_type(type_: Seq<char>) -> spec_fn(ConditionView) -> bool {
    |condition: ConditionView| condition.type_ == type_
}

/// The test for staying when a condition of type `type_` comes in.
pub open spec fn survives(type_: Seq<char>) -> spec_fn(ConditionView) -> bool {
    |condition: ConditionView| Some(condition.type_) != displaced_by(type_)
}

/// The test for being of another type than `Ready` and `Progressing`.
pub open spec fn unrelated() -> spec_fn(ConditionView) -> bool {
    |condition: ConditionView|
        condition.type_ != STATUS_READY@ && condition.type_ != STATUS_PROGRESSING@
}

/// Number of conditions of type `type_` in `list`.
pub open spec fn count_of(list: Seq<ConditionView>, type_: Seq<char>) -> nat {
    list.filter(of_type(type_)).len()
}

/// A list of conditions is consistent when it holds at most one condition
/// that is `Ready` or `Progressing`.
pub open spec fn consistent(list: Seq<ConditionView>) -> bool {
    count_of(list, STATUS_READY@) + count_of(list, STATUS_PROGRESSING@) <= 1
}

/// The condition that reports `status` at time `now`.
pub open spec fn new_condition(
    status: DeploymentStatus,
    generation: Option<i64>,
    now: i64,
) -> ConditionView {
    ConditionView {
        type_: status_type(status),
        status: "True"@,
        reason: Seq::empty(),
        message: Seq::empty(),
        last_transition_time: now,
        observed_generation: generation,
    }
}

/// The conditions after `condition` has come in. Where a condition of that
/// type is there already nothing changes. Otherwise the conditions that it
/// displaces go, and it is added at the end.
pub open spec fn updated_conditions(
    previous: Option<Seq<ConditionView>>,
    condition: ConditionView,
) -> Seq<ConditionView> {
    match previous {
        None => seq![condition],
        Some(list) => if count_of(list, condition.type_) > 0 {
            list
        } else {
            list.filter(survives(condition.type_)).push(condition)
        },
    }
}

/// The status to report for `echo` when its `Deployment` reports `status`.
pub open spec fn generated_status(
    echo: EchoView,
    status: DeploymentStatus,
    generation: Option<i64>,
    now: i64,
) -> EchoStatusView {
    EchoStatusView {
        available_replicas: status.available_replicas,
        observed_generation: generation,
        ready_replicas: status.ready_replicas,
        replicas: status.replicas,
        updated_replicas: status.updated_replicas,
        conditions: Some(
            updated_conditions(echo.conditions(), new_condition(status, generation, now)),
        ),
    }
}

/// A write to the status of the `Echo` named `name`.
#[derive(Debug)]
pub struct StatusPatch {
    pub name: String,
    pub status: EchoStatus,
}

/// A `StatusPatch` as plain values.
pub struct StatusPatchView {
    pub name: Seq<char>,
    pub status: EchoStatusView,
}

impl View for StatusPatch {
    type V = StatusPatchView;

    open spec fn view(&self) -> StatusPatchView {
        StatusPatchView { name: self.name@, status: self.status@ }
    }
}

impl DeepView for StatusPatch {
    type V = StatusPatchView;

    open spec fn deep_view(&self) -> StatusPatchView {
        self@
    }
}

/// The write that brings the status of `echo` up to date with what was
/// `found` of its `Deployment`, or the reason why there is none to make:
/// the `Deployment` is not known yet, it names no controller, or it has not
/// reported yet.
pub open spec fn planned_status(
    echo: EchoView,
    found: Option<DeploymentView>,
    now: i64,
) -> Result<StatusPatchView, ErrorView> {
    match found {
        None => Err(ErrorView::MissingObject("deployment"@)),
        Some(deployment) => match deployment.metadata.controller_owner() {
            None => Err(ErrorView::MissingObjectKey("ownerReferences"@)),
            Some(owner) => match deployment.status {
                None => Err(ErrorView::MissingObjectKey("status"@)),
                Some(status) => Ok(
                    StatusPatchView {
                        name: owner.name,
                        status: generated_status(
                            echo,
                            status,
                            deployment.metadata.generation,
                            now,
                        ),
                    },
                ),
            },
        },
    }
}

/// Tells whether a condition of type `type_` is in `list`.
fn has_type(list: &Vec<Condition>, type_: &str) -> (found: bool)
    ensures
        found == (count_of(list.deep_view(), type_@) > 0),
{
    let ghost views = list.deep_view();
    let ghost wanted = of_type(type_@);
    let mut i: usize = 0;
    while i < list.len()
        invariant
            i <= list.len(),
            views == list.deep_view(),
            wanted == of_type(type_@),
            views.take(i as int).filter(wanted).len() == 0,
        decreases list.len() - i,
    {
        proof {
            views.take(i as int).lemma_filter_push(views[i as int], wanted);
            assert(views.take(i as int).push(views[i as int]) =~= views.take(i + 1));
        }
        if same_text(list[i].type_.as_str(), type_) {
            proof {
                lemma_count_grows(views.take(i + 1), views, type_@);
            }
            return true;
        }
        i += 1;
    }
    assert(views.take(i as int) =~= views);
    false
}

/// A list holds at least as many conditions of a type as any of its
/// prefixes.
pub proof fn lemma_count_grows(prefix: Seq<ConditionView>, list: Seq<ConditionView>, type_: Seq<char>)
    requires
        prefix.is_prefix_of(list),
    ensures
        count_of(prefix, type_) <= count_of(list, type_),
    decreases list.len() - prefix.len(),
{
    if prefix.len() < list.len() {
        let longer = prefix.push(list[prefix.len() as int]);
        prefix.lemma_filter_push(list[prefix.len() as int], of_type(type_));
        lemma_count_grows(longer, list, type_);
    } else {
        assert(prefix =~= list);
    }
}

/// `Ready` and `Progressing` are two types.
pub proof fn lemma_types_differ()
    ensures
        STATUS_READY@ != STATUS_PROGRESSING@,
{
    reveal_strlit("Ready");
    reveal_strlit("Progressing");
    assert(STATUS_READY@.len() != STATUS_PROGRESSING@.len());
}

/// One more condition raises the count of its type by one and no other.
pub proof fn lemma_count_push(list: Seq<ConditionView>, condition: ConditionView, type_: Seq<char>)
    ensures
        count_of(list.push(condition), type_) == count_of(list, type_) + if condition.type_
            == type_ {
            1nat
        } else {
            0nat
        },
{
    list.lemma_filter_push(condition, of_type(type_));
}

/// When a condition of type `incoming` comes in, the conditions that it
/// displaces are gone from what stays, and those of every other type are
/// all still there.
pub proof fn lemma_count_survivors(list: Seq<ConditionView>, incoming: Seq<char>, type_: Seq<char>)
    ensures
        count_of(list.filter(survives(incoming)), type_) == if Some(type_) == displaced_by(
            incoming,
        ) {
            0nat
        } else {
            count_of(list, type_)
        },
    decreases list.len(),
{
    if list.len() > 0 {
        let front = list.drop_last();
        assert(front.push(list.last()) =~= list);
        lemma_count_survivors(front, incoming, type_);
        front.lemma_filter_push(list.last(), survives(incoming));
        lemma_count_push(front, list.last(), type_);
        if survives(incoming)(list.last()) {
            lemma_count_push(front.filter(survives(incoming)), list.last(), type_);
        }
    }
}

/// The conditions of unrelated types are the same before and after those
/// displaced by a `Ready` or `Progressing` condition have gone.
pub proof fn lemma_unrelated_survive(list: Seq<ConditionView>, incoming: Seq<char>)
    ensures
        list.filter(survives(incoming)).filter(unrelated()) == list.filter(unrelated()),
    decreases list.len(),
{
    if list.len() > 0 {
        let front = list.drop_last();
        assert(front.push(list.last()) =~= list);
        lemma_unrelated_survive(front, incoming);
        front.lemma_filter_push(list.last(), survives(incoming));
        front.lemma_filter_push(list.last(), unrelated());
        if survives(incoming)(list.last()) {
            front.filter(survives(incoming)).lemma_filter_push(list.last(), unrelated());
        }
    }
}

/// After an update of the status the conditions hold the type that the
/// `Deployment` calls for exactly once and the opposite type not at all:
/// one `Ready` and no `Progressing` when the total, updated and ready
/// replica counts are reported and equal, one `Progressing` and no `Ready`
/// otherwise. The result is consistent again, and the conditions of other
/// types are those that were there before.
pub proof fn lemma_status_correct(
    echo: EchoView,
    status: DeploymentStatus,
    generation: Option<i64>,
    now: i64,
)
    requires
        echo.conditions() is Some ==> consistent(echo.conditions()->0),
    ensures
        ({
            let after = generated_status(echo, status, generation, now).conditions->0;
            let before = match echo.conditions() {
                Some(list) => list,
                None => Seq::empty(),
            };
            &&& status.rolled_out() ==> count_of(after, STATUS_READY@) == 1 && count_of(
                after,
                STATUS_PROGRESSING@,
            ) == 0
            &&& !status.rolled_out() ==> count_of(after, STATUS_PROGRESSING@) == 1 && count_of(
                after,
                STATUS_READY@,
            ) == 0
            &&& consistent(after)
            &&& after.filter(unrelated()) == before.filter(unrelated())
        }),
{
    lemma_types_differ();
    let condition = new_condition(status, generation, now);
    let wanted = condition.type_;
    let other = displaced_by(wanted)->0;
    match echo.conditions() {
        None => {
            let nothing = Seq::<ConditionView>::empty();
            lemma_count_push(nothing, condition, other);
            nothing.lemma_filter_push(condition, unrelated());
            reveal(Seq::filter);
        },
        Some(list) => {
            if count_of(list, wanted) == 0 {
                let kept = list.filter(survives(wanted));
                lemma_count_survivors(list, wanted, wanted);
                lemma_count_survivors(list, wanted, other);
                lemma_count_push(kept, condition, wanted);
                lemma_count_push(kept, condition, other);
                lemma_unrelated_survive(list, wanted);
                kept.lemma_filter_push(condition, unrelated());
            }
        },
    }
}

/// Bringing the status up to date a second time, with nothing new reported,
/// leaves the conditions as they are.
pub proof fn lemma_update_idempotent(
    previous: Option<Seq<ConditionView>>,
    first: ConditionView,
    second: ConditionView,
)
    requires
        first.type_ == second.type_,
    ensures
        updated_conditions(Some(updated_conditions(previous, first)), second)
            == updated_conditions(previous, first),
{
    match previous {
        None => {
            let nothing = Seq::<ConditionView>::empty();
            lemma_count_push(nothing, first, first.type_);
        },
        Some(list) => {
            if count_of(list, first.type_) == 0 {
                lemma_count_push(list.filter(survives(first.type_)), first, first.type_);
            }
        },
    }
}

impl Echo {
    /// The condition type that `deployment_status` calls for.
    pub fn determine_status_type(deployment_status: &DeploymentStatus) -> (type_: &'static str)
        ensures
            type_@ == status_type(*deployment_status),
    {
        if deployment_status.is_rolled_out() {
            STATUS_READY
        } else {
            STATUS_PROGRESSING
        }
    }

    /// The conditions of this resource after `new_condition` has come in.
    pub fn update_conditions(&self, new_condition: &Condition) -> (conditions: Vec<Condition>)
        ensures
            conditions.deep_view() == updated_conditions(self@.conditions(), new_condition@),
    {
        let previous = match &self.status {
            Some(status) => match &status.conditions {
                Some(list) => list,
                None => {
                    let mut fresh: Vec<Condition> = Vec::new();
                    fresh.push(new_condition.clone());
                    return fresh;
                },
            },
            None => {
                let mut fresh: Vec<Condition> = Vec::new();
                fresh.push(new_condition.clone());
                return fresh;
            },
        };
        if has_type(previous, new_condition.type_.as_str()) {
            return clone_conditions(previous);
        }
        let ghost views = previous.deep_view();
        let ghost stays = survives(new_condition@.type_);
        let to_ready = same_text(new_condition.type_.as_str(), STATUS_READY);
        let to_progressing = same_text(new_condition.type_.as_str(), STATUS_PROGRESSING);
        let mut kept: Vec<Condition> = Vec::new();
        let mut i: usize = 0;
        while i < previous.len()
            invariant
                i <= previous.len(),
                views == previous.deep_view(),
                stays == survives(new_condition@.type_),
                to_ready == (new_condition@.type_ == STATUS_READY@),
                to_progressing == (new_condition@.type_ == STATUS_PROGRESSING@),
                kept.deep_view() == views.take(i as int).filter(stays),
            decreases previous.len() - i,
        {
            let current = &previous[i];
            let goes = (to_ready && same_text(current.type_.as_str(), STATUS_PROGRESSING)) || (
            !to_ready && to_progressing && same_text(current.type_.as_str(), STATUS_READY));
            if !goes {
                kept.push(current.clone());
            }
            proof {
                views.take(i as int).lemma_filter_push(views[i as int], stays);
                assert(views.take(i as int).push(views[i as int]) =~= views.take(i + 1));
            }
            i += 1;
        }
        assert(views.take(i as int) =~= views);
        kept.push(new_condition.clone());
        kept
    }

    /// The status to report for this resource when its `Deployment` reports
    /// `deployment_status` at time `now`, in seconds since the epoch.
    pub fn generate_status(
        &self,
        deployment_status: &DeploymentStatus,
        deployment_metadata_generation: Option<i64>,
        now: i64,
    ) -> (status: EchoStatus)
        ensures
            status@ == generated_status(
                self@,
                *deployment_status,
                deployment_metadata_generation,
                now,
            ),
    {
        let status_type = Echo::determine_status_type(deployment_status);
        let new_condition = Condition {
            type_: status_type.to_owned(),
            status: "True".to_owned(),
            reason: String::new(),
            message: String::new(),
            last_transition_time: now,
            observed_generation: deployment_metadata_generation,
        };
        let conditions = self.update_conditions(&new_condition);
        EchoStatus {
            available_replicas: deployment_status.available_replicas,
            observed_generation: deployment_metadata_generation,
            ready_replicas: deployment_status.ready_replicas,
            replicas: deployment_status.replicas,
            updated_replicas: deployment_status.updated_replicas,
            conditions: Some(conditions),
        }
    }

    /// The write that brings the status of this resource up to date with
    /// what was found of its `Deployment`, or the reason why there is none
    /// to make.
    pub fn plan_status(&self, found: Option<&Deployment>, now: i64) -> (plan: Result<
        StatusPatch,
        Error,
    >)
        ensures
            planned_status(self@, found.deep_view(), now) == match plan {
                Ok(patch) => Ok::<StatusPatchView, ErrorView>(patch@),
                Err(error) => Err::<StatusPatchView, ErrorView>(error@),
            },
    {
        let deployment = match found {
            Some(deployment) => deployment,
            None => {
                return Err(Error::MissingObject("deployment"));
            },
        };
        let owner = match deployment.metadata.controller_owner() {
            Some(owner) => owner,
            None => {
                return Err(Error::MissingObjectKey("ownerReferences"));
            },
        };
        let status = match &deployment.status {
            Some(status) => status,
            None => {
                return Err(Error::MissingObjectKey("status"));
            },
        };
        Ok(
            StatusPatch {
                name: owner.name.clone(),
                status: self.generate_status(status, deployment.metadata.generation, now),
            },
        )
    }
}

} // verus!

//! Which answers the operations go on from.
use crate::controller::detach::{Detach, DetachView};
use crate::controller::eip::{any_named, EipApply, EipApplyView, EipCleanup, EipCleanupView};
use crate::controller::node::{NodeApply, NodeApplyView, NodeCleanup, NodeCleanupView};
use crate::controller::pod::{PodApply, PodApplyView, PodCleanup, PodCleanupView};
use crate::controller::Reconcile;
use crate::egress::{other_nodes, EgressLabelling, EgressLabellingView};
use crate::eip::{first_claimable, for_node};
use crate::error::Error;
use crate::legacy::{
    LegacyApply, LegacyApplyView, LegacyCleanup, LegacyCleanupView, LegacyOrphanCleanup,
    LegacyOrphanCleanupView,
};
use crate::operation::{Operation, Progress, ReplyView, RequestView};
use crate::orphans::{OrphanCleanup, OrphanCleanupView};
use crate::tasks::{TaskList, TaskListView};
use vstd::prelude::*;

verus! {

/// Whether a reply is of the kind that a request is answered with.
pub open spec fn is_reply_to(request: RequestView, reply: ReplyView) -> bool {
    match request {
        RequestView::CreateEipForPod { .. } => reply is Done,
        RequestView::DeleteEip { .. } => reply is Done,
        RequestView::ListEips { .. } => reply is Eips,
        RequestView::SetStatusCreated { .. } => reply is Done,
        RequestView::SetStatusShouldAttach { .. } => reply is Done,
        RequestView::SetStatusAssociationId { .. } => reply is Done,
        RequestView::SetStatusDetached { .. } => reply is Done,
        RequestView::ListMatchedResources { .. } => reply is Resources,
        RequestView::RefreshResource { .. } => reply is Done,
        RequestView::GetNode { .. } => reply is Node,
        RequestView::ListNodes { .. } => reply is Nodes,
        RequestView::ListPods { .. } => reply is Pods,
        RequestView::ApplyToPod { .. } => reply is Done,
        RequestView::ApplyToNode { .. } => reply is Done,
        RequestView::PatchPod { .. } => reply is Done,
        RequestView::ReadEniDescriptions { .. } => reply is EniIds,
        RequestView::DescribeAddress { .. } => reply is Addresses,
        RequestView::DescribeAddresses { .. } => reply is Addresses,
        RequestView::AllocateAddress { .. } => reply is Allocated,
        RequestView::AssociateAddress { .. } => reply is Associated,
        RequestView::DisassociateAddress { .. } => reply is Disassociated,
        RequestView::ReleaseAddress { .. } => reply is Done,
        RequestView::DescribeInstance { .. } => reply is Instances,
    }
}

/// Whether the first of what was described can be taken: no list that is there is empty.
pub open spec fn has_a_first(request: RequestView, reply: ReplyView) -> bool {
    match (request, reply) {
        (RequestView::DescribeAddress { .. }, ReplyView::Addresses(Some(addresses))) =>
            addresses.len() > 0,
        (RequestView::DescribeInstance { .. }, ReplyView::Instances(described)) =>
            described.reservations is None || ((described.reservations->0).len() > 0 && ((
            described.reservations->0)[0].instances is None || ((
            described.reservations->0)[0].instances->0).len() > 0)),
        _ => true,
    }
}

/// Reconciling a pod goes on from every error, and from every reply of the right kind whose lists
/// have a first element; but an association can only be recorded for an `Eip` with a name.
pub proof fn law_answers_to_a_pod(state: PodApplyView, reply: ReplyView, e: Error)
    ensures
        PodApply::fits(state, Err(e)),
        PodApply::fits(state, Ok(reply)) <==> is_reply_to(PodApply::ask(state), reply)
            && has_a_first(PodApply::ask(state), reply) && (match (state, reply) {
            (
                PodApplyView::Associating { attachment, .. },
                ReplyView::Associated(Some(_)),
            ) => attachment.eip.name is Some,
            _ => true,
        }),
{
}

/// Reconciling a node goes on from every error, and from every reply of the right kind whose lists
/// have a first element; but the `Eip` that a ready node takes has to have a name.
pub proof fn law_answers_to_a_node(state: NodeApplyView, reply: ReplyView, e: Error)
    ensures
        NodeApply::fits(state, Err(e)),
        NodeApply::fits(state, Ok(reply)) <==> is_reply_to(NodeApply::ask(state), reply)
            && has_a_first(NodeApply::ask(state), reply) && (match (state, reply) {
            (
                NodeApplyView::ListingEips { target, labels, ready_status },
                ReplyView::Eips(eips),
            ) => ready_status != Some("True"@) || first_claimable(
                for_node(eips, labels),
                target.name,
            ) is None || (first_claimable(for_node(eips, labels), target.name)->0).name is Some,
            _ => true,
        }),
{
}

/// Reconciling an `Eip` goes on from every error and from every reply of the right kind; but the
/// pods or nodes that are told of the `Eip` have to have names.
pub proof fn law_answers_to_an_eip(state: EipApplyView, reply: ReplyView, e: Error)
    ensures
        EipApply::fits(state, Err(e)),
        EipApply::fits(state, Ok(reply)) <==> is_reply_to(EipApply::ask(state), reply) && (match (
            state,
            reply,
        ) {
            (EipApplyView::Listing { job }, ReplyView::Resources(resources)) => {
                ||| job.eip.status is Some && (job.eip.status->0).resource_id is Some && any_named(
                    resources,
                    (job.eip.status->0).resource_id->0,
                )
                ||| forall|i: int|
                    0 <= i < resources.len() ==> (#[trigger] resources[i]).name is Some
            },
            _ => true,
        }),
{
}

/// Reconciling a pod that has an address without an `Eip` goes on from every error, and from every
/// reply of the right kind whose lists have a first element.
pub proof fn law_answers_to_a_bare_pod(state: LegacyApplyView, reply: ReplyView, e: Error)
    ensures
        LegacyApply::fits(state, Err(e)),
        LegacyApply::fits(state, Ok(reply)) <==> is_reply_to(LegacyApply::ask(state), reply)
            && has_a_first(LegacyApply::ask(state), reply),
{
}

/// Cleaning up goes on from every error and from every reply of the right kind.
pub proof fn law_answers_to_cleanup(
    pod: PodCleanupView,
    node: NodeCleanupView,
    eip: EipCleanupView,
    bare: LegacyCleanupView,
    orphans: OrphanCleanupView,
    bare_orphans: LegacyOrphanCleanupView,
    reply: ReplyView,
    e: Error,
)
    ensures
        PodCleanup::fits(pod, Err(e)),
        PodCleanup::fits(pod, Ok(reply)) <==> is_reply_to(PodCleanup::ask(pod), reply),
        NodeCleanup::fits(node, Err(e)),
        NodeCleanup::fits(node, Ok(reply)) <==> is_reply_to(NodeCleanup::ask(node), reply),
        EipCleanup::fits(eip, Err(e)),
        EipCleanup::fits(eip, Ok(reply)) <==> is_reply_to(EipCleanup::ask(eip), reply),
        LegacyCleanup::fits(bare, Err(e)),
        LegacyCleanup::fits(bare, Ok(reply)) <==> is_reply_to(LegacyCleanup::ask(bare), reply),
        OrphanCleanup::fits(orphans, Err(e)),
        OrphanCleanup::fits(orphans, Ok(reply)) <==> is_reply_to(
            OrphanCleanup::ask(orphans),
            reply,
        ),
        LegacyOrphanCleanup::fits(bare_orphans, Err(e)),
        LegacyOrphanCleanup::fits(bare_orphans, Ok(reply)) <==> is_reply_to(
            LegacyOrphanCleanup::ask(bare_orphans),
            reply,
        ),
{
}

/// Detaching and lists of tasks go on from every error and from every reply of the right kind. So
/// does labelling; but the nodes that give up their label have to have names.
pub proof fn law_answers_to_detaching_and_labelling(
    detach: DetachView,
    tasks: TaskListView,
    labelling: EgressLabellingView,
    reply: ReplyView,
    e: Error,
)
    ensures
        Detach::fits(detach, Err(e)),
        Detach::fits(detach, Ok(reply)) <==> is_reply_to(Detach::ask(detach), reply),
        TaskList::fits(tasks, Err(e)),
        TaskList::fits(tasks, Ok(reply)) <==> is_reply_to(TaskList::ask(tasks), reply),
        EgressLabelling::fits(labelling, Err(e)),
        EgressLabelling::fits(labelling, Ok(reply)) <==> is_reply_to(
            EgressLabelling::ask(labelling),
            reply,
        ) && (match (labelling, reply) {
            (EgressLabellingView::Listing { node, .. }, ReplyView::Nodes(nodes)) => forall|i: int|
                0 <= i < other_nodes(nodes, node).len() ==> (#[trigger] other_nodes(
                    nodes,
                    node,
                )[i]).name is Some,
            _ => true,
        }),
{
}

/// Reconciling a resource is seeing to it or cleaning up behind it, step by step and to the end.
pub proof fn law_reconciling_goes_on<A: Operation, C: Operation<Outcome = A::Outcome>>(
    a: A::V,
    c: C::V,
    answer: Result<ReplyView, Error>,
)
    ensures
        Reconcile::<A, C>::ask(Reconcile::Applying(a)) == A::ask(a),
        Reconcile::<A, C>::ask(Reconcile::CleaningUp(c)) == C::ask(c),
        Reconcile::<A, C>::fits(Reconcile::Applying(a), answer) == A::fits(a, answer),
        Reconcile::<A, C>::fits(Reconcile::CleaningUp(c), answer) == C::fits(c, answer),
        match A::next(a, answer) {
            Progress::Pending(x) => Reconcile::<A, C>::next(Reconcile::Applying(a), answer)
                == Progress::<Reconcile<A::V, C::V>, A::Outcome>::Pending(Reconcile::Applying(x)),
            Progress::Finished(outcome) => Reconcile::<A, C>::next(Reconcile::Applying(a), answer)
                == Progress::<Reconcile<A::V, C::V>, A::Outcome>::Finished(outcome),
        },
        match C::next(c, answer) {
            Progress::Pending(x) => Reconcile::<A, C>::next(Reconcile::CleaningUp(c), answer)
                == Progress::<Reconcile<A::V, C::V>, A::Outcome>::Pending(Reconcile::CleaningUp(x)),
            Progress::Finished(outcome) => Reconcile::<A, C>::next(Reconcile::CleaningUp(c), answer)
                == Progress::<Reconcile<A::V, C::V>, A::Outcome>::Finished(outcome),
        },
{
}

} // verus!

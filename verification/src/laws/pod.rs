//! What holds of reconciling pods.
use crate::aws::AddressView;
use crate::controller::pod::{
    job_of, start_apply, PodApply, PodApplyView, PodAttachmentView, PodTargetView,
};
use crate::eip::{for_pod, EipView};
use crate::error::Error;
use crate::kube_ext::PodView;
use crate::labels::dns_target_patch;
use crate::operation::{
    asked, is_history, lemma_just_answered, lemma_was_answered, requeue_after_secs, run,
    was_answered, Action, ApiScopeView, ApplyPatchView, Operation, Progress, ReplyView, RequestView,
};
use crate::search::lemma_filter_members;
use vstd::prelude::*;

verus! {

/// Whether a target is the pod.
pub open spec fn is_target(pod: PodView, target: PodTargetView) -> bool {
    &&& Some(target.name) == pod.name
    &&& Some(target.namespace) == pod.namespace
    &&& Some(target.pod_ip) == pod.ip()
}

/// Whether an attachment is one of the pod to an `Eip` that is meant for it.
pub open spec fn is_attachment(pod: PodView, attachment: PodAttachmentView) -> bool {
    &&& is_target(pod, attachment.target)
    &&& attachment.eip.matches_pod(attachment.target.name)
    &&& attachment.eip.allocation_id() == Some(attachment.allocation_id)
}

/// Whether, in the course of reconciling the pod, the address of an attachment was described as
/// `address`.
pub open spec fn was_described(
    pod: PodView,
    answers: Seq<Result<ReplyView, Error>>,
    attachment: PodAttachmentView,
    addresses: Seq<AddressView>,
) -> bool {
    &&& addresses.len() > 0
    &&& was_answered::<PodApply>(
        start_apply(pod),
        answers,
        RequestView::DescribeAddress { allocation_id: attachment.allocation_id },
        Ok(ReplyView::Addresses(Some(addresses))),
    )
}

/// Whether the address of an attachment was described with that public address, and as attached
/// to the pod or not.
pub open spec fn is_informed(
    pod: PodView,
    answers: Seq<Result<ReplyView, Error>>,
    attachment: PodAttachmentView,
    public_ip: Seq<char>,
    attached: Option<bool>,
) -> bool {
    exists|addresses: Seq<AddressView>| #[trigger]
        was_described(pod, answers, attachment, addresses) && addresses[0].public_ip == Some(
            public_ip,
        ) && (attached matches Some(a) ==> a == addresses[0].is_attached_to(
            attachment.eni_id,
            attachment.target.pod_ip,
        ))
}

/// What a state of reconciling the pod goes back to.
spec fn is_grounded(
    pod: PodView,
    answers: Seq<Result<ReplyView, Error>>,
    state: PodApplyView,
) -> bool {
    match state {
        PodApplyView::Creating { job } => Some(job.name) == pod.name && Some(job.namespace)
            == pod.namespace && job.pod_ip == pod.ip() && pod.wants_eip() && answers.len() == 0,
        PodApplyView::GettingNode { target, .. } => is_target(pod, target),
        PodApplyView::ReadingEnis { target, .. } => is_target(pod, target),
        PodApplyView::DescribingInstance { target, .. } => is_target(pod, target),
        PodApplyView::ListingEips { target, .. } => is_target(pod, target),
        PodApplyView::DescribingAddress { attachment } => is_attachment(pod, attachment),
        PodApplyView::Claiming { attachment, public_ip, attached } => is_attachment(pod, attachment)
            && is_informed(pod, answers, attachment, public_ip, Some(attached)),
        PodApplyView::Associating { attachment, public_ip } => is_attachment(pod, attachment)
            && is_informed(pod, answers, attachment, public_ip, Some(false)),
        PodApplyView::RecordingAssociation { attachment, public_ip, .. } => is_attachment(
            pod,
            attachment,
        ) && is_informed(pod, answers, attachment, public_ip, None),
        PodApplyView::Annotating { attachment, public_ip } => is_attachment(pod, attachment)
            && is_informed(pod, answers, attachment, public_ip, None),
    }
}

proof fn lemma_informed_later(
    pod: PodView,
    answers: Seq<Result<ReplyView, Error>>,
    attachment: PodAttachmentView,
    public_ip: Seq<char>,
    attached: Option<bool>,
)
    requires
        answers.len() > 0,
        is_informed(pod, answers.drop_last(), attachment, public_ip, attached),
    ensures
        is_informed(pod, answers, attachment, public_ip, attached),
        is_informed(pod, answers, attachment, public_ip, None),
{
    let before = answers.drop_last();
    let addresses = choose|addresses: Seq<AddressView>| #[trigger]
        was_described(pod, before, attachment, addresses) && addresses[0].public_ip == Some(
            public_ip,
        ) && (attached matches Some(a) ==> a == addresses[0].is_attached_to(
            attachment.eni_id,
            attachment.target.pod_ip,
        ));
    lemma_was_answered::<PodApply>(
        start_apply(pod),
        answers,
        RequestView::DescribeAddress { allocation_id: attachment.allocation_id },
        Ok(ReplyView::Addresses(Some(addresses))),
    );
    assert(was_described(pod, answers, attachment, addresses));
}

proof fn lemma_grounded(pod: PodView, answers: Seq<Result<ReplyView, Error>>)
    requires
        pod.name is Some,
        pod.namespace is Some,
        is_history::<PodApply>(start_apply(pod), answers),
    ensures
        run::<PodApply>(start_apply(pod), answers) matches Progress::Pending(state) ==> is_grounded(
            pod,
            answers,
            state,
        ),
    decreases answers.len(),
{
    let start = start_apply(pod);
    if answers.len() > 0 {
        let before = answers.drop_last();
        lemma_grounded(pod, before);
        if let Progress::Pending(state) = run::<PodApply>(start, before) {
            match (state, answers.last()) {
                (PodApplyView::ListingEips { target, .. }, Ok(ReplyView::Eips(eips))) => {
                    lemma_filter_members(eips, |e: EipView| e.matches_pod(target.name));
                    let mine = for_pod(eips, target.name);
                    if mine.len() == 1 {
                        assert(mine.contains(mine[0]));
                    }
                },
                (
                    PodApplyView::DescribingAddress { attachment },
                    Ok(ReplyView::Addresses(Some(addresses))),
                ) => {
                    lemma_just_answered::<PodApply>(start, answers, PodApply::ask(state));
                    assert(was_described(pod, answers, attachment, addresses));
                },
                (PodApplyView::Claiming { attachment, public_ip, attached }, _) => {
                    lemma_informed_later(pod, answers, attachment, public_ip, Some(attached));
                },
                (PodApplyView::Associating { attachment, public_ip }, _) => {
                    lemma_informed_later(pod, answers, attachment, public_ip, Some(false));
                },
                (PodApplyView::RecordingAssociation { attachment, public_ip, .. }, _) => {
                    lemma_informed_later(pod, answers, attachment, public_ip, None);
                },
                (PodApplyView::Annotating { attachment, public_ip }, _) => {
                    lemma_informed_later(pod, answers, attachment, public_ip, None);
                },
                _ => {},
            }
        }
    }
}

/// An address is associated only with the private address of the pod, only after the `Eip` has been
/// claimed for the pod with the very interface and private address, and only if the address had
/// been described as attached elsewhere or nowhere.
pub proof fn law_pod_claims_before_it_associates(
    pod: PodView,
    answers: Seq<Result<ReplyView, Error>>,
    allocation_id: Seq<char>,
    eni_id: Seq<char>,
    private_ip: Seq<char>,
)
    requires
        pod.name is Some,
        pod.namespace is Some,
        is_history::<PodApply>(start_apply(pod), answers),
        asked::<PodApply>(start_apply(pod), answers) == Some(
            RequestView::AssociateAddress { allocation_id, eni_id, private_ip },
        ),
    ensures
        pod.ip() == Some(private_ip),
        answers.len() > 0,
        answers.last() is Ok,
        exists|eip: EipView|
            eip.matches_pod(pod.name->0) && eip.allocation_id() == Some(allocation_id) && asked::<
                PodApply,
            >(start_apply(pod), answers.drop_last()) == Some(
                #[trigger] claim_request(pod, eip, eni_id, private_ip),
            ),
        exists|addresses: Seq<AddressView>| #[trigger]
            was_answered::<PodApply>(
                start_apply(pod),
                answers,
                RequestView::DescribeAddress { allocation_id },
                Ok(ReplyView::Addresses(Some(addresses))),
            ) && addresses.len() > 0 && !addresses[0].is_attached_to(eni_id, private_ip),
{
    let start = start_apply(pod);
    lemma_grounded(pod, answers);
    let before = answers.drop_last();
    lemma_grounded(pod, before);
    let state = run::<PodApply>(start, answers)->Pending_0;
    let earlier = run::<PodApply>(start, before)->Pending_0;
    assert(earlier is Claiming);
    let attachment = earlier->Claiming_attachment;
    assert(PodApply::ask(earlier) == claim_request(pod, attachment.eip, eni_id, private_ip));
    let public_ip = state->Associating_public_ip;
    let addresses = choose|addresses: Seq<AddressView>| #[trigger]
        was_described(pod, answers, attachment, addresses) && addresses[0].public_ip == Some(
            public_ip,
        ) && false == addresses[0].is_attached_to(attachment.eni_id, attachment.target.pod_ip);
    assert(was_described(pod, answers, attachment, addresses));
}

/// The request that claims an `Eip` for the pod.
pub open spec fn claim_request(
    pod: PodView,
    eip: EipView,
    eni_id: Seq<char>,
    private_ip: Seq<char>,
) -> RequestView {
    RequestView::SetStatusShouldAttach {
        scope: ApiScopeView::Namespaced(pod.namespace->0),
        eip,
        eni_id,
        private_ip,
        resource_id: pod.name->0,
    }
}

/// What is published on a pod is the public address of its `Eip`, as EC2 described it, and the
/// patch goes to the pod itself.
pub proof fn law_pod_publishes_the_address_of_its_eip(
    pod: PodView,
    answers: Seq<Result<ReplyView, Error>>,
    namespace: Seq<char>,
    name: Seq<char>,
    patch: ApplyPatchView,
)
    requires
        pod.name is Some,
        pod.namespace is Some,
        is_history::<PodApply>(start_apply(pod), answers),
        asked::<PodApply>(start_apply(pod), answers) == Some(
            RequestView::ApplyToPod { namespace, name, patch },
        ),
    ensures
        pod.namespace == Some(namespace),
        pod.name == Some(name),
        exists|allocation_id: Seq<char>, addresses: Seq<AddressView>| #[trigger]
            was_answered::<PodApply>(
                start_apply(pod),
                answers,
                RequestView::DescribeAddress { allocation_id },
                Ok(ReplyView::Addresses(Some(addresses))),
            ) && addresses.len() > 0 && addresses[0].public_ip is Some && patch == dns_target_patch(
                addresses[0].public_ip->0,
                allocation_id,
            ),
{
    lemma_grounded(pod, answers);
    let state = run::<PodApply>(start_apply(pod), answers)->Pending_0;
    let attachment = state->Annotating_attachment;
    let public_ip = state->Annotating_public_ip;
    let addresses = choose|addresses: Seq<AddressView>| #[trigger]
        was_described(pod, answers, attachment, addresses) && addresses[0].public_ip == Some(
            public_ip,
        );
    assert(was_described(pod, answers, attachment, addresses));
}

/// Reconciling a pod touches only its own namespace: the pod and its `Eip` are in the same one.
pub proof fn law_pod_keeps_to_its_namespace(pod: PodView, answers: Seq<Result<ReplyView, Error>>)
    requires
        pod.name is Some,
        pod.namespace is Some,
        is_history::<PodApply>(start_apply(pod), answers),
    ensures
        asked::<PodApply>(start_apply(pod), answers) matches Some(request) ==> request.is_within(
            pod.namespace->0,
        ),
{
    lemma_grounded(pod, answers);
}

/// An `Eip` is created for a pod exactly when the pod asks for one, before anything else is done,
/// and under the name of the pod.
pub proof fn law_pod_gets_the_eip_it_asks_for(pod: PodView, answers: Seq<Result<ReplyView, Error>>)
    requires
        pod.name is Some,
        pod.namespace is Some,
        is_history::<PodApply>(start_apply(pod), answers),
    ensures
        asked::<PodApply>(start_apply(pod), answers) is Some && asked::<PodApply>(
            start_apply(pod),
            answers,
        )->0 is CreateEipForPod <==> pod.wants_eip() && answers.len() == 0,
        pod.wants_eip() ==> asked::<PodApply>(start_apply(pod), Seq::empty()) == Some(
            RequestView::CreateEipForPod { namespace: pod.namespace->0, pod_name: pod.name->0 },
        ),
{
    lemma_grounded(pod, answers);
}

/// Whatever fails while a pod is reconciled ends the attempt with that very failure.
pub proof fn law_pod_reports_failures(state: PodApplyView, e: Error)
    ensures
        PodApply::next(state, Err(e)) == Progress::<PodApplyView, Option<Action>>::Finished(Err(e)),
{
}

/// The request that associates the address of an attachment.
pub open spec fn associate_request(attachment: PodAttachmentView) -> RequestView {
    RequestView::AssociateAddress {
        allocation_id: attachment.allocation_id,
        eni_id: attachment.eni_id,
        private_ip: attachment.target.pod_ip,
    }
}

/// Whether the `Eip` of an attachment was claimed for the pod.
pub open spec fn was_claimed(
    pod: PodView,
    answers: Seq<Result<ReplyView, Error>>,
    attachment: PodAttachmentView,
) -> bool {
    was_answered::<PodApply>(
        start_apply(pod),
        answers,
        claim_request(pod, attachment.eip, attachment.eni_id, attachment.target.pod_ip),
        Ok(ReplyView::Done),
    )
}

/// Whether the address of an attachment was associated.
pub open spec fn was_associated(
    pod: PodView,
    answers: Seq<Result<ReplyView, Error>>,
    attachment: PodAttachmentView,
    association_id: Seq<char>,
) -> bool {
    was_answered::<PodApply>(
        start_apply(pod),
        answers,
        associate_request(attachment),
        Ok(ReplyView::Associated(Some(association_id))),
    )
}

/// Whether an association was recorded in the status of the `Eip` of an attachment.
pub open spec fn was_recorded(
    pod: PodView,
    answers: Seq<Result<ReplyView, Error>>,
    attachment: PodAttachmentView,
    association_id: Seq<char>,
) -> bool {
    was_answered::<PodApply>(
        start_apply(pod),
        answers,
        RequestView::SetStatusAssociationId {
            scope: ApiScopeView::Namespaced(pod.namespace->0),
            name: attachment.eip.name->0,
            association_id,
        },
        Ok(ReplyView::Done),
    )
}

/// Whether the address of an attachment is attached to the pod: it was described so, or it was
/// associated and the association recorded.
pub open spec fn is_attached(
    pod: PodView,
    answers: Seq<Result<ReplyView, Error>>,
    attachment: PodAttachmentView,
    public_ip: Seq<char>,
) -> bool {
    ||| is_informed(pod, answers, attachment, public_ip, Some(true))
    ||| exists|association_id: Seq<char>| #[trigger]
        was_associated(pod, answers, attachment, association_id) && was_recorded(
            pod,
            answers,
            attachment,
            association_id,
        )
}

spec fn is_settled(
    pod: PodView,
    answers: Seq<Result<ReplyView, Error>>,
    state: PodApplyView,
) -> bool {
    match state {
        PodApplyView::Associating { attachment, .. } => was_claimed(pod, answers, attachment),
        PodApplyView::RecordingAssociation { attachment, eip_name, association_id, .. } => {
            &&& was_claimed(pod, answers, attachment)
            &&& attachment.eip.name == Some(eip_name)
            &&& was_associated(pod, answers, attachment, association_id)
        },
        PodApplyView::Annotating { attachment, public_ip } => {
            &&& was_claimed(pod, answers, attachment)
            &&& is_attached(pod, answers, attachment, public_ip)
        },
        _ => true,
    }
}

proof fn lemma_settled(pod: PodView, answers: Seq<Result<ReplyView, Error>>)
    requires
        pod.name is Some,
        pod.namespace is Some,
        is_history::<PodApply>(start_apply(pod), answers),
    ensures
        run::<PodApply>(start_apply(pod), answers) matches Progress::Pending(state) ==> is_settled(
            pod,
            answers,
            state,
        ),
    decreases answers.len(),
{
    let start = start_apply(pod);
    if answers.len() > 0 {
        let before = answers.drop_last();
        lemma_settled(pod, before);
        lemma_grounded(pod, before);
        lemma_grounded(pod, answers);
        if let Progress::Pending(state) = run::<PodApply>(start, before) {
            lemma_just_answered::<PodApply>(start, answers, PodApply::ask(state));
            match (state, answers.last()) {
                (
                    PodApplyView::Claiming { attachment, public_ip, attached },
                    Ok(ReplyView::Done),
                ) => {
                    lemma_informed_later(pod, answers, attachment, public_ip, Some(attached));
                    assert(was_claimed(pod, answers, attachment));
                },
                (
                    PodApplyView::Associating { attachment, .. },
                    Ok(ReplyView::Associated(Some(association_id))),
                ) => {
                    lemma_was_answered::<PodApply>(
                        start,
                        answers,
                        claim_request(
                            pod,
                            attachment.eip,
                            attachment.eni_id,
                            attachment.target.pod_ip,
                        ),
                        Ok(ReplyView::Done),
                    );
                    assert(was_associated(pod, answers, attachment, association_id));
                },
                (
                    PodApplyView::RecordingAssociation { attachment, association_id, .. },
                    Ok(ReplyView::Done),
                ) => {
                    lemma_was_answered::<PodApply>(
                        start,
                        answers,
                        claim_request(
                            pod,
                            attachment.eip,
                            attachment.eni_id,
                            attachment.target.pod_ip,
                        ),
                        Ok(ReplyView::Done),
                    );
                    lemma_was_answered::<PodApply>(
                        start,
                        answers,
                        associate_request(attachment),
                        Ok(ReplyView::Associated(Some(association_id))),
                    );
                    assert(was_associated(pod, answers, attachment, association_id));
                    assert(was_recorded(pod, answers, attachment, association_id));
                },
                _ => {},
            }
        }
    }
}

/// Whether the `Eip`s were just listed, and none is meant for the pod.
pub open spec fn has_no_eip(
    pod: PodView,
    state: PodApplyView,
    answer: Result<ReplyView, Error>,
) -> bool {
    PodApply::ask(state) is ListEips && match answer {
        Ok(ReplyView::Eips(eips)) => for_pod(eips, pod.name->0).len() == 0,
        _ => false,
    }
}

/// Whether the pod just published the address of its `Eip`, which is claimed for the pod and
/// whose address is attached to it.
pub open spec fn is_published(
    pod: PodView,
    answers: Seq<Result<ReplyView, Error>>,
    state: PodApplyView,
    answer: Result<ReplyView, Error>,
) -> bool {
    &&& answer == Ok::<ReplyView, Error>(ReplyView::Done)
    &&& exists|attachment: PodAttachmentView, public_ip: Seq<char>|
        PodApply::ask(state) == #[trigger] publishes(pod, attachment, public_ip) && is_attachment(
            pod,
            attachment,
        ) && is_informed(pod, answers, attachment, public_ip, None) && was_claimed(
            pod,
            answers,
            attachment,
        ) && is_attached(pod, answers, attachment, public_ip)
}

/// Where reconciling a pod succeeds, either no `Eip` is meant for the pod, or its one `Eip` is
/// claimed for the pod, its address is attached to the pod, and the pod publishes the address.
pub proof fn law_pod_success_means_attached(
    pod: PodView,
    answers: Seq<Result<ReplyView, Error>>,
    state: PodApplyView,
    answer: Result<ReplyView, Error>,
)
    requires
        pod.name is Some,
        pod.namespace is Some,
        is_history::<PodApply>(start_apply(pod), answers),
        run::<PodApply>(start_apply(pod), answers) == Progress::<
            PodApplyView,
            Option<Action>,
        >::Pending(state),
        PodApply::fits(state, answer),
        PodApply::next(state, answer) == Progress::<PodApplyView, Option<Action>>::Finished(
            Ok(None),
        ),
    ensures
        has_no_eip(pod, state, answer) || is_published(pod, answers, state, answer),
{
    lemma_grounded(pod, answers);
    lemma_settled(pod, answers);
    match state {
        PodApplyView::Annotating { attachment, public_ip } => {
            assert(publishes(pod, attachment, public_ip) == PodApply::ask(state));
        },
        _ => {},
    }
}

/// The request that publishes the address of an attachment on the pod.
pub open spec fn publishes(
    pod: PodView,
    attachment: PodAttachmentView,
    public_ip: Seq<char>,
) -> RequestView {
    RequestView::ApplyToPod {
        namespace: pod.namespace->0,
        name: pod.name->0,
        patch: dns_target_patch(public_ip, attachment.allocation_id),
    }
}

/// A pod is looked at again before its time only where it has no node yet.
pub proof fn law_pod_waits_for_its_node(
    pod: PodView,
    answers: Seq<Result<ReplyView, Error>>,
    action: Action,
)
    requires
        pod.name is Some,
        pod.namespace is Some,
        is_history::<PodApply>(start_apply(pod), answers),
        run::<PodApply>(start_apply(pod), answers) == Progress::<
            PodApplyView,
            Option<Action>,
        >::Finished(Ok(Some(action))),
    ensures
        pod.node_name() is None,
        action == requeue_after_secs(3),
    decreases answers.len(),
{
    if answers.len() > 0 {
        let before = answers.drop_last();
        lemma_job(pod, before);
        match run::<PodApply>(start_apply(pod), before) {
            Progress::Pending(_) => {},
            Progress::Finished(_) => {
                law_pod_waits_for_its_node(pod, before, action);
            },
        }
    }
}

proof fn lemma_job(pod: PodView, answers: Seq<Result<ReplyView, Error>>)
    requires
        is_history::<PodApply>(start_apply(pod), answers),
    ensures
        run::<PodApply>(start_apply(pod), answers) matches Progress::Pending(
            PodApplyView::Creating { job },
        ) ==> job == job_of(pod),
    decreases answers.len(),
{
    if answers.len() > 0 {
        lemma_job(pod, answers.drop_last());
    }
}

} // verus!

//! What holds of reconciling pods that have an address without an `Eip`.
use crate::aws::{tags_of, AddressView, TagView};
use crate::error::Error;
use crate::kube_ext::PodView;
use crate::laws::eip::answers_with;
use crate::legacy::{
    legacy_dns_target_patch, legacy_tags, start_apply, HeldAddressView, LegacyApply,
    LegacyApplyView, LegacyJobView,
};
use crate::operation::{
    asked, is_history, lemma_just_answered, requeue_after_secs, run, was_answered, Action,
    ApplyPatchView, Operation, Progress, ReplyView, RequestView,
};
use vstd::prelude::*;

verus! {

/// Whether a job is that of reconciling the pod.
pub open spec fn is_job(
    pod: PodView,
    namespace: Seq<char>,
    cluster_name: Seq<char>,
    default_tags: Seq<(Seq<char>, Seq<char>)>,
    job: LegacyJobView,
) -> bool {
    &&& pod.uid == Some(job.pod_uid)
    &&& pod.name == job.pod_name
    &&& pod.ip() == job.pod_ip
    &&& job.namespace == namespace
    &&& job.cluster_name == cluster_name
    &&& job.default_tags == default_tags
}

/// Whether an address is the one that is tagged for the pod, or the one that was allocated for it.
pub open spec fn is_held(
    answers: Seq<Result<ReplyView, Error>>,
    held: HeldAddressView,
) -> bool {
    ||| answers.len() > 0 && answers_with(
        answers[0],
        held.allocation_id,
        held.public_ip,
    )
    ||| answers.len() > 1 && answers_with(
        answers[1],
        held.allocation_id,
        held.public_ip,
    )
}

/// Whether an address was described as not attached to the pod.
pub open spec fn is_elsewhere(
    start: Progress<LegacyApplyView, Action>,
    answers: Seq<Result<ReplyView, Error>>,
    allocation_id: Seq<char>,
    eni_id: Seq<char>,
    pod_ip: Seq<char>,
) -> bool {
    exists|addresses: Seq<AddressView>| #[trigger]
        was_answered::<LegacyApply>(
            start,
            answers,
            RequestView::DescribeAddress { allocation_id },
            Ok(ReplyView::Addresses(Some(addresses))),
        ) && addresses.len() > 0 && !addresses[0].is_attached_to(eni_id, pod_ip)
}

spec fn is_grounded(
    pod: PodView,
    namespace: Seq<char>,
    cluster_name: Seq<char>,
    default_tags: Seq<(Seq<char>, Seq<char>)>,
    answers: Seq<Result<ReplyView, Error>>,
    state: LegacyApplyView,
) -> bool {
    match state {
        LegacyApplyView::Describing { job } => is_job(
            pod,
            namespace,
            cluster_name,
            default_tags,
            job,
        ) && answers.len() == 0,
        LegacyApplyView::Allocating { job, pod_name } => {
            &&& is_job(pod, namespace, cluster_name, default_tags, job)
            &&& pod.name == Some(pod_name)
            &&& answers.len() == 1
            &&& answers[0] matches Ok(ReplyView::Addresses(Some(addresses))) && addresses.len() == 0
        },
        LegacyApplyView::GettingNode { job, held, pod_ip, .. } => {
            &&& is_job(pod, namespace, cluster_name, default_tags, job)
            &&& is_held(answers, held)
            &&& pod.ip() == Some(pod_ip)
        },
        LegacyApplyView::DescribingInstance { job, held, pod_ip, .. } => {
            &&& is_job(pod, namespace, cluster_name, default_tags, job)
            &&& is_held(answers, held)
            &&& pod.ip() == Some(pod_ip)
        },
        LegacyApplyView::DescribingAddress { job, held, pod_ip, .. } => {
            &&& is_job(pod, namespace, cluster_name, default_tags, job)
            &&& is_held(answers, held)
            &&& pod.ip() == Some(pod_ip)
        },
        LegacyApplyView::Associating { job, held, pod_ip, eni_id } => {
            &&& is_job(pod, namespace, cluster_name, default_tags, job)
            &&& is_held(answers, held)
            &&& pod.ip() == Some(pod_ip)
            &&& is_elsewhere(
                start_apply(pod, namespace, cluster_name, default_tags),
                answers,
                held.allocation_id,
                eni_id,
                pod_ip,
            )
        },
        LegacyApplyView::Annotating { namespace: n, pod_name, held } => {
            &&& n == namespace
            &&& pod.name == Some(pod_name)
            &&& is_held(answers, held)
        },
    }
}

proof fn lemma_grounded(
    pod: PodView,
    namespace: Seq<char>,
    cluster_name: Seq<char>,
    default_tags: Seq<(Seq<char>, Seq<char>)>,
    answers: Seq<Result<ReplyView, Error>>,
)
    requires
        is_history::<LegacyApply>(
            start_apply(pod, namespace, cluster_name, default_tags),
            answers,
        ),
    ensures
        run::<LegacyApply>(
            start_apply(pod, namespace, cluster_name, default_tags),
            answers,
        ) matches Progress::Pending(state) ==> is_grounded(
            pod,
            namespace,
            cluster_name,
            default_tags,
            answers,
            state,
        ),
    decreases answers.len(),
{
    let start = start_apply(pod, namespace, cluster_name, default_tags);
    if answers.len() > 0 {
        let before = answers.drop_last();
        lemma_grounded(pod, namespace, cluster_name, default_tags, before);
        if before.len() > 0 {
            assert(before[0] == answers[0]);
        }
        if before.len() > 1 {
            assert(before[1] == answers[1]);
        }
        if let Progress::Pending(state) = run::<LegacyApply>(start, before) {
            lemma_just_answered::<LegacyApply>(start, answers, LegacyApply::ask(state));
        }
    }
}

/// An address is allocated for a pod at most once, and only where none is tagged for it; it is then
/// tagged for the pod.
pub proof fn law_pod_allocates_only_what_it_lacks(
    pod: PodView,
    namespace: Seq<char>,
    cluster_name: Seq<char>,
    default_tags: Seq<(Seq<char>, Seq<char>)>,
    answers: Seq<Result<ReplyView, Error>>,
    tags: Seq<TagView>,
)
    requires
        is_history::<LegacyApply>(
            start_apply(pod, namespace, cluster_name, default_tags),
            answers,
        ),
        asked::<LegacyApply>(start_apply(pod, namespace, cluster_name, default_tags), answers)
            == Some(RequestView::AllocateAddress { tags }),
    ensures
        answers.len() == 1,
        answers[0] matches Ok(ReplyView::Addresses(Some(addresses))) && addresses.len() == 0,
        pod.uid is Some,
        pod.name is Some,
        tags == tags_of(default_tags) + legacy_tags(pod.uid->0, pod.name->0, cluster_name),
{
    lemma_grounded(pod, namespace, cluster_name, default_tags, answers);
}

/// An address is associated only with the private address of the pod, only if it is the pod's own,
/// and only if it was described as attached elsewhere or nowhere.
pub proof fn law_pod_associates_only_its_own_address(
    pod: PodView,
    namespace: Seq<char>,
    cluster_name: Seq<char>,
    default_tags: Seq<(Seq<char>, Seq<char>)>,
    answers: Seq<Result<ReplyView, Error>>,
    allocation_id: Seq<char>,
    eni_id: Seq<char>,
    private_ip: Seq<char>,
)
    requires
        is_history::<LegacyApply>(
            start_apply(pod, namespace, cluster_name, default_tags),
            answers,
        ),
        asked::<LegacyApply>(start_apply(pod, namespace, cluster_name, default_tags), answers)
            == Some(RequestView::AssociateAddress { allocation_id, eni_id, private_ip }),
    ensures
        pod.ip() == Some(private_ip),
        exists|held: HeldAddressView| #[trigger]
            is_held(answers, held) && held.allocation_id == allocation_id,
        is_elsewhere(
            start_apply(pod, namespace, cluster_name, default_tags),
            answers,
            allocation_id,
            eni_id,
            private_ip,
        ),
{
    lemma_grounded(pod, namespace, cluster_name, default_tags, answers);
}

/// What is published on a pod is its own address, and the patch goes to the pod itself.
pub proof fn law_pod_publishes_its_own_address(
    pod: PodView,
    namespace: Seq<char>,
    cluster_name: Seq<char>,
    default_tags: Seq<(Seq<char>, Seq<char>)>,
    answers: Seq<Result<ReplyView, Error>>,
    n: Seq<char>,
    name: Seq<char>,
    patch: ApplyPatchView,
)
    requires
        is_history::<LegacyApply>(
            start_apply(pod, namespace, cluster_name, default_tags),
            answers,
        ),
        asked::<LegacyApply>(start_apply(pod, namespace, cluster_name, default_tags), answers)
            == Some(RequestView::ApplyToPod { namespace: n, name, patch }),
    ensures
        n == namespace,
        pod.name == Some(name),
        exists|held: HeldAddressView| #[trigger]
            is_held(answers, held) && patch == legacy_dns_target_patch(held),
{
    lemma_grounded(pod, namespace, cluster_name, default_tags, answers);
}

/// Reconciling a pod succeeds only by publishing its address, and the pod is then looked at again
/// after five minutes.
pub proof fn law_pod_success_means_published(
    state: LegacyApplyView,
    answer: Result<ReplyView, Error>,
    action: Action,
)
    requires
        LegacyApply::fits(state, answer),
        LegacyApply::next(state, answer) == Progress::<LegacyApplyView, Action>::Finished(
            Ok(action),
        ),
    ensures
        LegacyApply::ask(state) is ApplyToPod,
        answer == Ok::<ReplyView, Error>(ReplyView::Done),
        action == requeue_after_secs(300),
{
}

} // verus!

//! The course of reconciling a pod that has an address without an `Eip`: which request follows
//! which reply.
use crate::aws::{AddressView, InstancesDescriptionView};
use crate::error::Error;
use crate::kube_ext::{NodeView, PodView};
use crate::laws::course::{lemma_push, told, Answers};
use crate::legacy::{
    eni_or_error, legacy_dns_target_patch, pod_uid_filters, start_apply, HeldAddressView,
    LegacyApply, LegacyApplyView,
};
use crate::operation::{
    asked, run, Action, AllocatedAddressView, ApplyPatchView, Operation, Progress, ReplyView,
    RequestView,
};
use crate::text::after_last;
use vstd::prelude::*;

verus! {

/// How far reconciling such a pod has come.
pub type PodProgress = Progress<LegacyApplyView, Action>;

/// A pod without a uid is refused; for any other, the addresses that are tagged with its uid are
/// described.
pub proof fn law_course_of_a_bare_pod_begins(
    pod: PodView,
    namespace: Seq<char>,
    cluster_name: Seq<char>,
    default_tags: Seq<(Seq<char>, Seq<char>)>,
)
    ensures
        pod.uid is None ==> start_apply(pod, namespace, cluster_name, default_tags)
            == PodProgress::Finished(Err(Error::MissingPodUid)),
        pod.uid matches Some(uid) ==> asked::<LegacyApply>(
            start_apply(pod, namespace, cluster_name, default_tags),
            Seq::empty(),
        ) == Some(RequestView::DescribeAddresses { filters: pod_uid_filters(uid) }),
{
}

/// Whether the course of a pod goes on from an address with that id and that public address: what
/// is missing is reported, in this order, and then the node is looked up.
pub open spec fn goes_to_node(
    pod: PodView,
    progress: PodProgress,
    allocation_id: Option<Seq<char>>,
    public_ip: Option<Seq<char>>,
) -> bool {
    if allocation_id is None {
        progress == PodProgress::Finished(Err(Error::MissingAllocationId))
    } else if public_ip is None {
        progress == PodProgress::Finished(Err(Error::MissingPublicIp))
    } else if pod.ip() is None {
        progress == PodProgress::Finished(Err(Error::MissingPodIp))
    } else if pod.node_name() is None {
        progress == PodProgress::Finished(Err(Error::MissingNodeName))
    } else {
        progress is Pending && LegacyApply::ask(progress->Pending_0) == (RequestView::GetNode {
            name: pod.node_name()->0,
        })
    }
}

/// Where no address is tagged for a pod, one is allocated; where there is one, it is taken; and
/// more than one is an error.
pub proof fn law_course_of_a_bare_pod_to_its_address(
    pod: PodView,
    namespace: Seq<char>,
    cluster_name: Seq<char>,
    default_tags: Seq<(Seq<char>, Seq<char>)>,
    addresses: Seq<AddressView>,
    allocated: AllocatedAddressView,
)
    requires
        pod.uid is Some,
    ensures
        ({
            let start = start_apply(pod, namespace, cluster_name, default_tags);
            let described = seq![told(ReplyView::Addresses(Some(addresses)))];
            let added = described.push(told(ReplyView::Allocated(allocated)));
            &&& run::<LegacyApply>(start, seq![told(ReplyView::Addresses(None))])
                == PodProgress::Finished(Err(Error::MissingAddresses))
            &&& addresses.len() > 1 ==> run::<LegacyApply>(start, described)
                == PodProgress::Finished(Err(Error::MultipleEipsTaggedForPod))
            &&& addresses.len() == 1 ==> goes_to_node(
                pod,
                run::<LegacyApply>(start, described),
                addresses[0].allocation_id,
                addresses[0].public_ip,
            )
            &&& addresses.len() == 0 && pod.name is None ==> run::<LegacyApply>(start, described)
                == PodProgress::Finished(Err(Error::MissingPodName))
            &&& addresses.len() == 0 && pod.name is Some ==> {
                &&& asked::<LegacyApply>(start, described) is Some
                &&& asked::<LegacyApply>(start, described)->0 is AllocateAddress
                &&& goes_to_node(
                    pod,
                    run::<LegacyApply>(start, added),
                    allocated.allocation_id,
                    allocated.public_ip,
                )
            }
        }),
{
    let start = start_apply(pod, namespace, cluster_name, default_tags);
    let missing = told(ReplyView::Addresses(None));
    let first = told(ReplyView::Addresses(Some(addresses)));
    assert(seq![missing] =~= Seq::empty().push(missing));
    assert(seq![first] =~= Seq::empty().push(first));
    lemma_push::<LegacyApply>(start, Seq::empty(), missing);
    lemma_push::<LegacyApply>(start, Seq::empty(), first);
    lemma_push::<LegacyApply>(start, seq![first], told(ReplyView::Allocated(allocated)));
}

/// Whether answers lead to an address of a pod, with that id and that public address.
pub open spec fn leads_to_held(
    way: Answers,
    allocation_id: Seq<char>,
    public_ip: Seq<char>,
) -> bool {
    &&& way.len() >= 1
    &&& way[0] is Ok
    &&& way[0]->Ok_0 is Addresses
    &&& way[0]->Ok_0->Addresses_0 is Some
    &&& {
        let addresses = way[0]->Ok_0->Addresses_0->0;
        if addresses.len() == 0 {
            &&& way.len() == 2
            &&& way[1] is Ok
            &&& way[1]->Ok_0 is Allocated
            &&& way[1]->Ok_0->Allocated_0.allocation_id == Some(allocation_id)
            &&& way[1]->Ok_0->Allocated_0.public_ip == Some(public_ip)
        } else {
            &&& way.len() == 1
            &&& addresses.len() == 1
            &&& addresses[0].allocation_id == Some(allocation_id)
            &&& addresses[0].public_ip == Some(public_ip)
        }
    }
}

/// Once the address of a pod is known, the instance of its node is described and the interface is
/// looked for by the pod's address; the address is described, and associated with that interface
/// unless it is already; in the end it is published on the pod, and the pod is looked at again
/// after five minutes.
pub proof fn law_course_of_a_bare_pod(
    pod: PodView,
    namespace: Seq<char>,
    cluster_name: Seq<char>,
    default_tags: Seq<(Seq<char>, Seq<char>)>,
    way: Answers,
    allocation_id: Seq<char>,
    public_ip: Seq<char>,
    node: NodeView,
    described: InstancesDescriptionView,
    addresses: Seq<AddressView>,
    association_id: Option<Seq<char>>,
)
    requires
        pod.uid is Some,
        pod.name is Some,
        pod.ip() is Some,
        pod.node_name() is Some,
        leads_to_held(way, allocation_id, public_ip),
        described.is_populated(),
        addresses.len() > 0,
    ensures
        ({
            let start = start_apply(pod, namespace, cluster_name, default_tags);
            let placed = way.push(told(ReplyView::Node(node)));
            let found = placed.push(told(ReplyView::Instances(described)));
            let looked_up = found.push(told(ReplyView::Addresses(Some(addresses))));
            let associated = looked_up.push(told(ReplyView::Associated(association_id)));
            let ip = pod.ip()->0;
            &&& asked::<LegacyApply>(start, way) == Some(
                RequestView::GetNode { name: pod.node_name()->0 },
            )
            &&& node.provider_id() is None ==> run::<LegacyApply>(start, placed)
                == PodProgress::Finished(Err(Error::MissingProviderId))
            &&& node.provider_id() matches Some(provider_id) ==> {
                &&& after_last(provider_id, '/') is None ==> run::<LegacyApply>(start, placed)
                    == PodProgress::Finished(Err(Error::MalformedProviderId))
                &&& after_last(provider_id, '/') matches Some(instance_id) ==> {
                    &&& asked::<LegacyApply>(start, placed) == Some(
                        RequestView::DescribeInstance { instance_id },
                    )
                    &&& eni_or_error(described, ip) matches Err(e) ==> run::<LegacyApply>(
                        start,
                        found,
                    ) == PodProgress::Finished(Err(e))
                    &&& eni_or_error(described, ip) matches Ok(eni_id) ==> {
                        &&& asked::<LegacyApply>(start, found) == Some(
                            RequestView::DescribeAddress { allocation_id },
                        )
                        &&& run::<LegacyApply>(start, found.push(told(ReplyView::Addresses(None))))
                            == PodProgress::Finished(Err(Error::MissingAddresses))
                        &&& addresses[0].is_attached_to(eni_id, ip) ==> publishes(
                            pod,
                            namespace,
                            start,
                            looked_up,
                            allocation_id,
                            public_ip,
                        )
                        &&& !addresses[0].is_attached_to(eni_id, ip) ==> asked::<LegacyApply>(
                            start,
                            looked_up,
                        ) == Some(
                            RequestView::AssociateAddress { allocation_id, eni_id, private_ip: ip },
                        ) && publishes(pod, namespace, start, associated, allocation_id, public_ip)
                    }
                }
            }
        }),
{
    let start = start_apply(pod, namespace, cluster_name, default_tags);
    let placed = way.push(told(ReplyView::Node(node)));
    let found = placed.push(told(ReplyView::Instances(described)));
    let looked_up = found.push(told(ReplyView::Addresses(Some(addresses))));
    let associated = looked_up.push(told(ReplyView::Associated(association_id)));
    let none = Seq::<Result<ReplyView, Error>>::empty();
    lemma_push::<LegacyApply>(start, none, way[0]);
    if way.len() == 1 {
        assert(way =~= none.push(way[0]));
    } else {
        lemma_push::<LegacyApply>(start, none.push(way[0]), way[1]);
        assert(way =~= none.push(way[0]).push(way[1]));
    }
    lemma_push::<LegacyApply>(start, way, told(ReplyView::Node(node)));
    lemma_push::<LegacyApply>(start, placed, told(ReplyView::Instances(described)));
    lemma_push::<LegacyApply>(start, found, told(ReplyView::Addresses(None)));
    lemma_push::<LegacyApply>(start, found, told(ReplyView::Addresses(Some(addresses))));
    lemma_push::<LegacyApply>(start, looked_up, told(ReplyView::Associated(association_id)));
    lemma_push::<LegacyApply>(start, looked_up, told(ReplyView::Done));
    lemma_push::<LegacyApply>(start, associated, told(ReplyView::Done));
}

/// A pod without a name cannot have its address published: once the address is described as
/// attached, or has been associated, the attempt ends in an error.
pub proof fn law_bare_pod_needs_a_name(
    pod: PodView,
    namespace: Seq<char>,
    cluster_name: Seq<char>,
    default_tags: Seq<(Seq<char>, Seq<char>)>,
    held: AddressView,
    node: NodeView,
    described: InstancesDescriptionView,
    eni_id: Seq<char>,
    address: AddressView,
    association_id: Option<Seq<char>>,
)
    requires
        pod.uid is Some,
        pod.name is None,
        pod.ip() is Some,
        pod.node_name() is Some,
        held.allocation_id is Some,
        held.public_ip is Some,
        node.provider_id() is Some,
        after_last(node.provider_id()->0, '/') is Some,
        described.is_populated(),
        eni_or_error(described, pod.ip()->0) == Ok::<Seq<char>, Error>(eni_id),
    ensures
        ({
            let start = start_apply(pod, namespace, cluster_name, default_tags);
            let looked_up = Seq::<Result<ReplyView, Error>>::empty().push(
                told(ReplyView::Addresses(Some(seq![held]))),
            ).push(told(ReplyView::Node(node))).push(told(ReplyView::Instances(described))).push(
                told(ReplyView::Addresses(Some(seq![address]))),
            );
            let associated = looked_up.push(told(ReplyView::Associated(association_id)));
            if address.is_attached_to(eni_id, pod.ip()->0) {
                run::<LegacyApply>(start, looked_up) == PodProgress::Finished(
                    Err(Error::MissingPodName),
                )
            } else {
                run::<LegacyApply>(start, associated) == PodProgress::Finished(
                    Err(Error::MissingPodName),
                )
            }
        }),
{
    let start = start_apply(pod, namespace, cluster_name, default_tags);
    let none = Seq::<Result<ReplyView, Error>>::empty();
    let one = none.push(told(ReplyView::Addresses(Some(seq![held]))));
    let two = one.push(told(ReplyView::Node(node)));
    let three = two.push(told(ReplyView::Instances(described)));
    let four = three.push(told(ReplyView::Addresses(Some(seq![address]))));
    lemma_push::<LegacyApply>(start, none, told(ReplyView::Addresses(Some(seq![held]))));
    lemma_push::<LegacyApply>(start, one, told(ReplyView::Node(node)));
    lemma_push::<LegacyApply>(start, two, told(ReplyView::Instances(described)));
    lemma_push::<LegacyApply>(start, three, told(ReplyView::Addresses(Some(seq![address]))));
    lemma_push::<LegacyApply>(start, four, told(ReplyView::Associated(association_id)));
}

/// Whether, after these answers, an address is published on a pod, and that is all.
pub open spec fn publishes(
    pod: PodView,
    namespace: Seq<char>,
    start: PodProgress,
    answers: Answers,
    allocation_id: Seq<char>,
    public_ip: Seq<char>,
) -> bool {
    &&& asked::<LegacyApply>(start, answers) == Some(
        RequestView::ApplyToPod {
            namespace,
            name: pod.name->0,
            patch: legacy_dns_target_patch(HeldAddressView { allocation_id, public_ip }),
        },
    )
    &&& run::<LegacyApply>(start, answers.push(told(ReplyView::Done))) == PodProgress::Finished(
        Ok(Action { requeue_after_millis: Some(300_000) }),
    )
}

/// The patch that publishes an address on such a pod.
pub proof fn law_patch_of_a_bare_pod(held: HeldAddressView)
    ensures
        legacy_dns_target_patch(held) == (ApplyPatchView {
            field_manager: "eip.aws.materialize.com"@,
            kind: "Pod"@,
            annotations: seq![
                ("eip.aws.materialize.com/allocation_id"@, held.allocation_id),
                ("external-dns.alpha.kubernetes.io/target"@, held.public_ip),
            ],
            labels: Seq::empty(),
        }),
{
}

/// Whatever fails while such a pod is reconciled ends the attempt with that very failure.
pub proof fn law_bare_pod_reports_failures(
    pod: PodView,
    namespace: Seq<char>,
    cluster_name: Seq<char>,
    default_tags: Seq<(Seq<char>, Seq<char>)>,
    answers: Answers,
    e: Error,
)
    requires
        asked::<LegacyApply>(start_apply(pod, namespace, cluster_name, default_tags), answers)
            is Some,
    ensures
        run::<LegacyApply>(
            start_apply(pod, namespace, cluster_name, default_tags),
            answers.push(Err(e)),
        ) == PodProgress::Finished(Err(e)),
{
    lemma_push::<LegacyApply>(
        start_apply(pod, namespace, cluster_name, default_tags),
        answers,
        Err(e),
    );
}

} // verus!

//! The course of reconciling a pod, a node or an `Eip`: which request follows which reply.
use crate::aws::{AddressView, InstancesDescriptionView};
use crate::controller::node::{start_apply as start_node_apply, NodeApply, NodeApplyView};
use crate::controller::pod::{
    job_of, look_up_node, start_apply as start_pod_apply, PodApply, PodApplyView,
};
use crate::eip::{claimed_by, first_claimable, for_node, for_pod, EipView};
use crate::error::Error;
use crate::kube_ext::{NodeView, PodView};
use crate::labels::dns_target_patch;
use crate::laws::lookup::law_node_takes_the_first_open_eip;
use crate::laws::node::{lemma_selected, stands_first};
use crate::operation::{
    asked, run, Action, ApiScopeView, Operation, Progress, ReplyView, RequestView,
};
use crate::text::after_last;
use vstd::prelude::*;

verus! {

/// Answers in the order in which they came.
pub type Answers = Seq<Result<ReplyView, Error>>;

/// One answer more takes an operation one step on.
pub proof fn lemma_push<M: Operation>(
    start: Progress<M::V, M::Outcome>,
    answers: Answers,
    answer: Result<ReplyView, Error>,
)
    ensures
        run::<M>(start, answers.push(answer)) == (match run::<M>(start, answers) {
            Progress::Pending(state) => M::next(state, answer),
            Progress::Finished(outcome) => Progress::Finished(outcome),
        }),
{
    assert(answers.push(answer).drop_last() =~= answers);
}

/// What an answer holds, where it is no error.
pub open spec fn told(reply: ReplyView) -> Result<ReplyView, Error> {
    Ok(reply)
}

/// Where the objects of a namespace are found, or of all where none is given.
pub open spec fn within(namespace: Option<Seq<char>>) -> ApiScopeView {
    match namespace {
        Some(namespace) => ApiScopeView::Namespaced(namespace),
        None => ApiScopeView::All,
    }
}

/// Where an `Eip` is found that was listed within a namespace, or among all.
pub open spec fn home_of(eip: EipView, namespace: Option<Seq<char>>) -> ApiScopeView {
    match namespace {
        Some(namespace) => ApiScopeView::Namespaced(namespace),
        None => within(eip.namespace),
    }
}

// Nodes.

/// A node without an address, without a provider id, or with one in which no slash stands, is
/// refused before anything is asked for. Any other node has the `Eip`s listed first.
pub proof fn law_course_of_a_node_begins(node: NodeView, namespace: Option<Seq<char>>)
    requires
        node.name is Some,
    ensures
        ({
            let start = start_node_apply(node, namespace);
            &&& node.ip() is None ==> start == Progress::<NodeApplyView, Option<Action>>::Finished(
                Err(Error::MissingNodeIp),
            )
            &&& node.ip() is Some && node.provider_id() is None ==> start == Progress::<
                NodeApplyView,
                Option<Action>,
            >::Finished(Err(Error::MissingProviderId))
            &&& node.ip() is Some && node.provider_id() is Some && after_last(
                node.provider_id()->0,
                '/',
            ) is None ==> start == Progress::<NodeApplyView, Option<Action>>::Finished(
                Err(Error::MalformedProviderId),
            )
            &&& node.ip() is Some && node.provider_id() is Some && after_last(
                node.provider_id()->0,
                '/',
            ) is Some ==> asked::<NodeApply>(start, Seq::empty()) == Some(
                RequestView::ListEips { scope: within(namespace) },
            )
        }),
{
}

/// Whether a node is ready and has what an address is attached by, `ip` being its address and
/// `instance_id` its instance.
pub open spec fn is_attachable(node: NodeView, ip: Seq<char>, instance_id: Seq<char>) -> bool {
    &&& node.name is Some
    &&& node.ready_status() == Some("True"@)
    &&& node.ip() == Some(ip)
    &&& node.provider_id() is Some
    &&& after_last(node.provider_id()->0, '/') == Some(instance_id)
}

proof fn lemma_listed(node: NodeView, eips: Seq<EipView>, i: int)
    requires
        stands_first(node, eips, i),
    ensures
        for_node(eips, node.labels).len() > 0,
        first_claimable(for_node(eips, node.labels), node.name->0) == Some(eips[i]),
{
    law_node_takes_the_first_open_eip(eips, node.labels, node.name->0);
    lemma_selected(eips, node.labels, i);
}

/// How a ready node goes on once the `Eip`s are listed: the address of the first `Eip` open to it
/// is described, then the instance of the node, whose interface is looked for by the node's
/// address.
pub proof fn law_course_of_a_ready_node(
    node: NodeView,
    namespace: Option<Seq<char>>,
    ip: Seq<char>,
    instance_id: Seq<char>,
    eips: Seq<EipView>,
    i: int,
    allocation_id: Seq<char>,
    addresses: Seq<AddressView>,
    described: InstancesDescriptionView,
)
    requires
        is_attachable(node, ip, instance_id),
        stands_first(node, eips, i),
        eips[i].name is Some,
        eips[i].allocation_id() == Some(allocation_id),
        addresses.len() > 0,
        described.is_populated(),
    ensures
        ({
            let start = start_node_apply(node, namespace);
            let listed = seq![told(ReplyView::Eips(eips))];
            let looked_up = listed.push(told(ReplyView::Addresses(Some(addresses))));
            let found = looked_up.push(told(ReplyView::Instances(described)));
            &&& asked::<NodeApply>(start, listed) == Some(
                RequestView::DescribeAddress { allocation_id },
            )
            &&& run::<NodeApply>(start, listed.push(told(ReplyView::Addresses(None))))
                == Progress::<NodeApplyView, Option<Action>>::Finished(
                Err(Error::MissingAddresses),
            )
            &&& asked::<NodeApply>(start, looked_up) == Some(
                RequestView::DescribeInstance { instance_id },
            )
            &&& described.eni(ip) is None ==> run::<NodeApply>(start, found) == Progress::<
                NodeApplyView,
                Option<Action>,
            >::Finished(Err(Error::NoInterfaceWithThatIp))
            &&& described.eni(ip) matches Some(eni_id) ==> {
                if addresses[0].is_attached_to(eni_id, ip) {
                    run::<NodeApply>(start, found) == Progress::<
                        NodeApplyView,
                        Option<Action>,
                    >::Finished(Ok(None))
                } else {
                    asked::<NodeApply>(start, found) == Some(
                        RequestView::SetStatusShouldAttach {
                            scope: home_of(eips[i], namespace),
                            eip: eips[i],
                            eni_id,
                            private_ip: ip,
                            resource_id: node.name->0,
                        },
                    )
                }
            }
        }),
{
    let start = start_node_apply(node, namespace);
    let listed = seq![told(ReplyView::Eips(eips))];
    let looked_up = listed.push(told(ReplyView::Addresses(Some(addresses))));
    assert(listed =~= Seq::empty().push(told(ReplyView::Eips(eips))));
    lemma_push::<NodeApply>(start, Seq::empty(), told(ReplyView::Eips(eips)));
    lemma_listed(node, eips, i);
    lemma_push::<NodeApply>(start, listed, told(ReplyView::Addresses(None)));
    lemma_push::<NodeApply>(start, listed, told(ReplyView::Addresses(Some(addresses))));
    lemma_push::<NodeApply>(start, looked_up, told(ReplyView::Instances(described)));
}

/// How a node goes on once an `Eip` is to be claimed for it: the claim is followed by the
/// association, and that is recorded in the status of the same `Eip`. Where the claim was refused
/// because the `Eip` has changed, the node is looked at again after three seconds.
pub proof fn law_course_of_a_claiming_node(
    node: NodeView,
    namespace: Option<Seq<char>>,
    ip: Seq<char>,
    instance_id: Seq<char>,
    eips: Seq<EipView>,
    i: int,
    allocation_id: Seq<char>,
    addresses: Seq<AddressView>,
    described: InstancesDescriptionView,
    eni_id: Seq<char>,
    association_id: Seq<char>,
    e: Error,
)
    requires
        is_attachable(node, ip, instance_id),
        stands_first(node, eips, i),
        eips[i].name is Some,
        eips[i].allocation_id() == Some(allocation_id),
        addresses.len() > 0,
        described.is_populated(),
        described.eni(ip) == Some(eni_id),
        !addresses[0].is_attached_to(eni_id, ip),
    ensures
        ({
            let start = start_node_apply(node, namespace);
            let found = seq![told(ReplyView::Eips(eips))].push(
                told(ReplyView::Addresses(Some(addresses))),
            ).push(told(ReplyView::Instances(described)));
            let claimed = found.push(told(ReplyView::Done));
            let associated = claimed.push(told(ReplyView::Associated(Some(association_id))));
            &&& asked::<NodeApply>(start, claimed) == Some(
                RequestView::AssociateAddress { allocation_id, eni_id, private_ip: ip },
            )
            &&& run::<NodeApply>(start, claimed.push(told(ReplyView::Associated(None))))
                == Progress::<NodeApplyView, Option<Action>>::Finished(
                Err(Error::MissingAssociationId),
            )
            &&& asked::<NodeApply>(start, associated) == Some(
                RequestView::SetStatusAssociationId {
                    scope: home_of(eips[i], namespace),
                    name: eips[i].name->0,
                    association_id,
                },
            )
            &&& run::<NodeApply>(start, associated.push(told(ReplyView::Done))) == Progress::<
                NodeApplyView,
                Option<Action>,
            >::Finished(Ok(None))
            &&& run::<NodeApply>(start, found.push(Err(e))) == Progress::<
                NodeApplyView,
                Option<Action>,
            >::Finished(
                if e matches Error::Kube { source } && source.reason.deep_view() == Some(
                    "Conflict"@,
                ) {
                    Ok(Some(Action { requeue_after_millis: Some(3000) }))
                } else {
                    Err(e)
                },
            )
        }),
{
    let start = start_node_apply(node, namespace);
    let found = seq![told(ReplyView::Eips(eips))].push(
        told(ReplyView::Addresses(Some(addresses))),
    ).push(told(ReplyView::Instances(described)));
    let claimed = found.push(told(ReplyView::Done));
    let associated = claimed.push(told(ReplyView::Associated(Some(association_id))));
    lemma_found(
        node,
        namespace,
        ip,
        instance_id,
        eips,
        i,
        allocation_id,
        addresses,
        described,
        eni_id,
    );
    lemma_push::<NodeApply>(start, found, told(ReplyView::Done));
    lemma_push::<NodeApply>(start, found, Err(e));
    lemma_push::<NodeApply>(start, claimed, told(ReplyView::Associated(None)));
    lemma_push::<NodeApply>(start, claimed, told(ReplyView::Associated(Some(association_id))));
    lemma_push::<NodeApply>(start, associated, told(ReplyView::Done));
}

proof fn lemma_found(
    node: NodeView,
    namespace: Option<Seq<char>>,
    ip: Seq<char>,
    instance_id: Seq<char>,
    eips: Seq<EipView>,
    i: int,
    allocation_id: Seq<char>,
    addresses: Seq<AddressView>,
    described: InstancesDescriptionView,
    eni_id: Seq<char>,
)
    requires
        is_attachable(node, ip, instance_id),
        stands_first(node, eips, i),
        eips[i].name is Some,
        eips[i].allocation_id() == Some(allocation_id),
        addresses.len() > 0,
        described.is_populated(),
        described.eni(ip) == Some(eni_id),
        !addresses[0].is_attached_to(eni_id, ip),
    ensures
        run::<NodeApply>(
            start_node_apply(node, namespace),
            seq![told(ReplyView::Eips(eips))].push(
                told(ReplyView::Addresses(Some(addresses))),
            ).push(told(ReplyView::Instances(described))),
        ) matches Progress::Pending(NodeApplyView::Claiming { target, claim, eni_id: id }) && {
            &&& id == eni_id
            &&& target.name == node.name->0
            &&& target.scope == within(namespace)
            &&& target.node_ip == ip
            &&& claim.eip == eips[i]
            &&& claim.eip_name == eips[i].name->0
            &&& claim.allocation_id == allocation_id
        },
{
    let start = start_node_apply(node, namespace);
    let listed = seq![told(ReplyView::Eips(eips))];
    let looked_up = listed.push(told(ReplyView::Addresses(Some(addresses))));
    assert(listed =~= Seq::empty().push(told(ReplyView::Eips(eips))));
    lemma_push::<NodeApply>(start, Seq::empty(), told(ReplyView::Eips(eips)));
    lemma_listed(node, eips, i);
    lemma_push::<NodeApply>(start, listed, told(ReplyView::Addresses(Some(addresses))));
    lemma_push::<NodeApply>(start, looked_up, told(ReplyView::Instances(described)));
}

/// Whatever fails while a node is reconciled ends the attempt with that very failure, but for a
/// claim that was refused because the `Eip` has changed.
pub proof fn law_node_reports_failures(
    node: NodeView,
    namespace: Option<Seq<char>>,
    answers: Answers,
    e: Error,
)
    requires
        asked::<NodeApply>(start_node_apply(node, namespace), answers) is Some,
        !(asked::<NodeApply>(start_node_apply(node, namespace), answers)->0
            is SetStatusShouldAttach),
    ensures
        run::<NodeApply>(start_node_apply(node, namespace), answers.push(Err(e))) == Progress::<
            NodeApplyView,
            Option<Action>,
        >::Finished(Err(e)),
{
    lemma_push::<NodeApply>(start_node_apply(node, namespace), answers, Err(e));
}

/// A node whose readiness is not known is refused once the `Eip`s are listed; one that is known not
/// to be ready gives up the `Eip`s that it claims, one after the other in the order listed.
pub proof fn law_course_of_an_unready_node(
    node: NodeView,
    namespace: Option<Seq<char>>,
    eips: Seq<EipView>,
    rest: Answers,
)
    requires
        node.name is Some,
        start_node_apply(node, namespace) is Pending,
        node.ready_status() != Some("True"@),
        for_node(eips, node.labels).len() > 0,
        forall|k: int| 0 <= k < rest.len() ==> #[trigger] rest[k] == told(ReplyView::Done),
    ensures
        ({
            let start = start_node_apply(node, namespace);
            let mine = claimed_by(for_node(eips, node.labels), node.name->0);
            let answers = seq![told(ReplyView::Eips(eips))] + rest;
            &&& node.ready_status() is None ==> run::<NodeApply>(start, answers) == Progress::<
                NodeApplyView,
                Option<Action>,
            >::Finished(Err(Error::MissingNodeReadyCondition))
            &&& node.ready_status() is Some && rest.len() < mine.len() ==> asked::<NodeApply>(
                start,
                answers,
            ) == Some(
                RequestView::SetStatusDetached {
                    scope: home_of(mine[rest.len() as int], namespace),
                    eip: mine[rest.len() as int],
                },
            )
            &&& node.ready_status() is Some && rest.len() >= mine.len() ==> run::<NodeApply>(
                start,
                answers,
            ) == Progress::<NodeApplyView, Option<Action>>::Finished(Ok(None))
        }),
{
    lemma_unready(node, namespace, eips, rest);
}

proof fn lemma_unready(
    node: NodeView,
    namespace: Option<Seq<char>>,
    eips: Seq<EipView>,
    rest: Answers,
)
    requires
        node.name is Some,
        start_node_apply(node, namespace) is Pending,
        node.ready_status() != Some("True"@),
        for_node(eips, node.labels).len() > 0,
        forall|k: int| 0 <= k < rest.len() ==> #[trigger] rest[k] == told(ReplyView::Done),
    ensures
        ({
            let start = start_node_apply(node, namespace);
            let mine = claimed_by(for_node(eips, node.labels), node.name->0);
            let answers = seq![told(ReplyView::Eips(eips))] + rest;
            let n = rest.len() as int;
            run::<NodeApply>(start, answers) == (if node.ready_status() is None {
                Progress::<NodeApplyView, Option<Action>>::Finished(
                    Err(Error::MissingNodeReadyCondition),
                )
            } else if n >= mine.len() {
                Progress::Finished(Ok(None))
            } else {
                Progress::Pending(
                    NodeApplyView::Releasing {
                        scope: within(namespace),
                        eip: mine[n],
                        rest: mine.skip(n + 1),
                    },
                )
            })
        }),
    decreases rest.len(),
{
    let start = start_node_apply(node, namespace);
    let mine = claimed_by(for_node(eips, node.labels), node.name->0);
    let first = told(ReplyView::Eips(eips));
    let answers = seq![first] + rest;
    if rest.len() == 0 {
        assert(answers =~= Seq::empty().push(first));
        lemma_push::<NodeApply>(start, Seq::empty(), first);
        if mine.len() > 0 {
            assert(mine.drop_first() =~= mine.skip(1));
        }
    } else {
        let before = rest.drop_last();
        assert(answers =~= (seq![first] + before).push(rest.last()));
        lemma_unready(node, namespace, eips, before);
        lemma_push::<NodeApply>(start, seq![first] + before, rest.last());
        let n = before.len() as int;
        if n < mine.len() {
            let more = mine.skip(n + 1);
            if more.len() > 0 {
                assert(more[0] == mine[n + 1]);
                assert(more.drop_first() =~= mine.skip(n + 2));
            }
        }
    }
}

// Pods.

/// What is answered before the node of a pod is looked up: that the `Eip` was created, where the
/// pod asks for one.
pub open spec fn created(pod: PodView) -> Answers {
    if pod.wants_eip() {
        seq![told(ReplyView::Done)]
    } else {
        Seq::empty()
    }
}

/// Whether a pod has a name and a namespace.
pub open spec fn is_placed(pod: PodView) -> bool {
    pod.name is Some && pod.namespace is Some
}

/// A pod that asks for an `Eip` has it created. Then its node is looked up. A pod without a node is
/// looked at again after three seconds, and one without an address is refused.
pub proof fn law_course_of_a_pod_begins(pod: PodView)
    requires
        is_placed(pod),
    ensures
        pod.wants_eip() ==> asked::<PodApply>(start_pod_apply(pod), Seq::empty()) == Some(
            RequestView::CreateEipForPod { namespace: pod.namespace->0, pod_name: pod.name->0 },
        ),
        pod.node_name() is None ==> run::<PodApply>(start_pod_apply(pod), created(pod))
            == Progress::<PodApplyView, Option<Action>>::Finished(
            Ok(Some(Action { requeue_after_millis: Some(3000) })),
        ),
        pod.node_name() is Some && pod.ip() is None ==> run::<PodApply>(
            start_pod_apply(pod),
            created(pod),
        ) == Progress::<PodApplyView, Option<Action>>::Finished(Err(Error::MissingPodIp)),
        pod.node_name() is Some && pod.ip() is Some ==> asked::<PodApply>(
            start_pod_apply(pod),
            created(pod),
        ) == Some(RequestView::GetNode { name: pod.node_name()->0 }),
{
    lemma_created(pod);
}

proof fn lemma_created(pod: PodView)
    ensures
        run::<PodApply>(start_pod_apply(pod), created(pod))
            == look_up_node(job_of(pod)),
{
    if pod.wants_eip() {
        assert(created(pod) =~= Seq::empty().push(told(ReplyView::Done)));
        lemma_push::<PodApply>(start_pod_apply(pod), Seq::empty(), told(ReplyView::Done));
    }
}

/// Whether a pod has a node and an address, `ip` being its address.
pub open spec fn is_running(pod: PodView, ip: Seq<char>) -> bool {
    &&& is_placed(pod)
    &&& pod.node_name() is Some
    &&& pod.ip() == Some(ip)
}

/// Once the node of a pod is known, its provider id names the instance. Where the pod has an
/// annotation that describes its interfaces, that is read, and the first interface in it is the
/// one; where there is none in it, and where the pod has no such annotation, the interface is
/// looked for on the instance, by the pod's address.
pub proof fn law_course_of_a_pod_to_its_interface(
    pod: PodView,
    ip: Seq<char>,
    node: NodeView,
    ids: Option<Seq<Seq<char>>>,
)
    requires
        is_running(pod, ip),
    ensures
        ({
            let start = start_pod_apply(pod);
            let placed = created(pod).push(told(ReplyView::Node(node)));
            let read = placed.push(told(ReplyView::EniIds(ids)));
            let annotated = pod.annotations is Some && (pod.annotations->0).contains_key(
                "vpc.amazonaws.com/pod-eni"@,
            );
            &&& node.provider_id() is None ==> run::<PodApply>(start, placed) == Progress::<
                PodApplyView,
                Option<Action>,
            >::Finished(Err(Error::MissingProviderId))
            &&& node.provider_id() matches Some(provider_id) ==> {
                &&& after_last(provider_id, '/') is None ==> run::<PodApply>(start, placed)
                    == Progress::<PodApplyView, Option<Action>>::Finished(
                    Err(Error::MalformedProviderId),
                )
                &&& after_last(provider_id, '/') matches Some(instance_id) ==> {
                    &&& annotated ==> asked::<PodApply>(start, placed) == Some(
                        RequestView::ReadEniDescriptions {
                            annotation: (pod.annotations->0)["vpc.amazonaws.com/pod-eni"@],
                        },
                    )
                    &&& !annotated ==> asked::<PodApply>(start, placed) == Some(
                        RequestView::DescribeInstance { instance_id },
                    )
                    &&& annotated && (ids is None || (ids->0).len() == 0) ==> asked::<PodApply>(
                        start,
                        read,
                    ) == Some(RequestView::DescribeInstance { instance_id })
                    &&& annotated && ids is Some && (ids->0).len() > 0 ==> asked::<PodApply>(
                        start,
                        read,
                    ) == Some(
                        RequestView::ListEips {
                            scope: ApiScopeView::Namespaced(pod.namespace->0),
                        },
                    )
                }
            }
        }),
{
    let start = start_pod_apply(pod);
    let placed = created(pod).push(told(ReplyView::Node(node)));
    lemma_created(pod);
    lemma_push::<PodApply>(start, created(pod), told(ReplyView::Node(node)));
    lemma_push::<PodApply>(start, placed, told(ReplyView::EniIds(ids)));
}

/// Whether an answer describes an instance on which the interface with an address is found.
pub open spec fn shows_interface(
    answer: Result<ReplyView, Error>,
    ip: Seq<char>,
    eni_id: Seq<char>,
) -> bool {
    &&& answer is Ok
    &&& answer->Ok_0 is Instances
    &&& answer->Ok_0->Instances_0.is_populated()
    &&& answer->Ok_0->Instances_0.eni(ip) == Some(eni_id)
}

/// Whether answers lead from the node of a pod to its interface.
pub open spec fn leads_to_interface(
    pod: PodView,
    ip: Seq<char>,
    way: Answers,
    eni_id: Seq<char>,
) -> bool {
    let annotated = pod.annotations is Some && (pod.annotations->0).contains_key(
        "vpc.amazonaws.com/pod-eni"@,
    );
    &&& way.len() >= 2
    &&& way[0] is Ok
    &&& way[0]->Ok_0 is Node
    &&& way[0]->Ok_0->Node_0.provider_id() is Some
    &&& after_last(way[0]->Ok_0->Node_0.provider_id()->0, '/') is Some
    &&& if annotated {
        &&& way[1] is Ok
        &&& way[1]->Ok_0 is EniIds
        &&& match way[1]->Ok_0->EniIds_0 {
            Some(ids) if ids.len() > 0 => way.len() == 2 && ids[0] == eni_id,
            _ => way.len() == 3 && shows_interface(way[2], ip, eni_id),
        }
    } else {
        way.len() == 2 && shows_interface(way[1], ip, eni_id)
    }
}

proof fn lemma_interface(pod: PodView, ip: Seq<char>, way: Answers, eni_id: Seq<char>)
    requires
        is_running(pod, ip),
        leads_to_interface(pod, ip, way, eni_id),
    ensures
        run::<PodApply>(start_pod_apply(pod), created(pod) + way) matches Progress::Pending(
            PodApplyView::ListingEips { target, eni_id: id },
        ) && id == eni_id && target.name == pod.name->0 && target.namespace == pod.namespace->0
            && target.pod_ip == ip,
{
    let start = start_pod_apply(pod);
    let a = created(pod);
    lemma_created(pod);
    lemma_push::<PodApply>(start, a, way[0]);
    lemma_push::<PodApply>(start, a.push(way[0]), way[1]);
    if way.len() == 2 {
        assert(a + way =~= a.push(way[0]).push(way[1]));
    } else {
        lemma_push::<PodApply>(start, a.push(way[0]).push(way[1]), way[2]);
        assert(a + way =~= a.push(way[0]).push(way[1]).push(way[2]));
    }
}

/// Once the interface of a pod is known, the `Eip`s of its namespace are listed. None that names
/// the pod means that nothing is to be done, and more than one is an error. The address of the one
/// is described, and the `Eip` is claimed for the pod.
pub proof fn law_course_of_a_pod_to_its_eip(
    pod: PodView,
    ip: Seq<char>,
    way: Answers,
    eni_id: Seq<char>,
    eips: Seq<EipView>,
    addresses: Seq<AddressView>,
)
    requires
        is_running(pod, ip),
        leads_to_interface(pod, ip, way, eni_id),
        addresses.len() > 0,
    ensures
        ({
            let start = start_pod_apply(pod);
            let found = created(pod) + way;
            let listed = found.push(told(ReplyView::Eips(eips)));
            let looked_up = listed.push(told(ReplyView::Addresses(Some(addresses))));
            let mine = for_pod(eips, pod.name->0);
            &&& asked::<PodApply>(start, found) == Some(
                RequestView::ListEips { scope: ApiScopeView::Namespaced(pod.namespace->0) },
            )
            &&& mine.len() == 0 ==> run::<PodApply>(start, listed) == Progress::<
                PodApplyView,
                Option<Action>,
            >::Finished(Ok(None))
            &&& mine.len() > 1 ==> run::<PodApply>(start, listed) == Progress::<
                PodApplyView,
                Option<Action>,
            >::Finished(Err(Error::MultipleEipsTaggedForPod))
            &&& mine.len() == 1 && mine[0].allocation_id() is None ==> run::<PodApply>(
                start,
                listed,
            ) == Progress::<PodApplyView, Option<Action>>::Finished(
                Err(Error::MissingAllocationId),
            )
            &&& mine.len() == 1 && mine[0].allocation_id() is Some ==> {
                &&& asked::<PodApply>(start, listed) == Some(
                    RequestView::DescribeAddress { allocation_id: mine[0].allocation_id()->0 },
                )
                &&& run::<PodApply>(start, listed.push(told(ReplyView::Addresses(None))))
                    == Progress::<PodApplyView, Option<Action>>::Finished(
                    Err(Error::MissingAddresses),
                )
                &&& addresses[0].public_ip is None ==> run::<PodApply>(start, looked_up)
                    == Progress::<PodApplyView, Option<Action>>::Finished(
                    Err(Error::MissingPublicIp),
                )
                &&& addresses[0].public_ip is Some ==> asked::<PodApply>(start, looked_up) == Some(
                    RequestView::SetStatusShouldAttach {
                        scope: ApiScopeView::Namespaced(pod.namespace->0),
                        eip: mine[0],
                        eni_id,
                        private_ip: ip,
                        resource_id: pod.name->0,
                    },
                )
            }
        }),
{
    let start = start_pod_apply(pod);
    let found = created(pod) + way;
    let listed = found.push(told(ReplyView::Eips(eips)));
    lemma_interface(pod, ip, way, eni_id);
    lemma_push::<PodApply>(start, found, told(ReplyView::Eips(eips)));
    lemma_push::<PodApply>(start, listed, told(ReplyView::Addresses(None)));
    lemma_push::<PodApply>(start, listed, told(ReplyView::Addresses(Some(addresses))));
}

/// Once the `Eip` of a pod is claimed, its address is associated with the pod's interface, unless
/// it is already; the association is recorded in the status of that `Eip`; and in the end the
/// address is published on the pod.
pub proof fn law_course_of_a_claiming_pod(
    pod: PodView,
    ip: Seq<char>,
    way: Answers,
    eni_id: Seq<char>,
    eips: Seq<EipView>,
    addresses: Seq<AddressView>,
    association_id: Seq<char>,
)
    requires
        is_running(pod, ip),
        leads_to_interface(pod, ip, way, eni_id),
        addresses.len() > 0,
        addresses[0].public_ip is Some,
        for_pod(eips, pod.name->0).len() == 1,
        for_pod(eips, pod.name->0)[0].allocation_id() is Some,
        for_pod(eips, pod.name->0)[0].name is Some,
    ensures
        ({
            let start = start_pod_apply(pod);
            let eip = for_pod(eips, pod.name->0)[0];
            let claimed = (created(pod) + way).push(told(ReplyView::Eips(eips))).push(
                told(ReplyView::Addresses(Some(addresses))),
            ).push(told(ReplyView::Done));
            let associated = claimed.push(told(ReplyView::Associated(Some(association_id))));
            let recorded = associated.push(told(ReplyView::Done));
            let published = if addresses[0].is_attached_to(eni_id, ip) {
                claimed
            } else {
                recorded
            };
            &&& !addresses[0].is_attached_to(eni_id, ip) ==> {
                &&& asked::<PodApply>(start, claimed) == Some(
                    RequestView::AssociateAddress {
                        allocation_id: eip.allocation_id()->0,
                        eni_id,
                        private_ip: ip,
                    },
                )
                &&& run::<PodApply>(start, claimed.push(told(ReplyView::Associated(None))))
                    == Progress::<PodApplyView, Option<Action>>::Finished(
                    Err(Error::MissingAssociationId),
                )
                &&& asked::<PodApply>(start, associated) == Some(
                    RequestView::SetStatusAssociationId {
                        scope: ApiScopeView::Namespaced(pod.namespace->0),
                        name: eip.name->0,
                        association_id,
                    },
                )
            }
            &&& asked::<PodApply>(start, published) == Some(
                RequestView::ApplyToPod {
                    namespace: pod.namespace->0,
                    name: pod.name->0,
                    patch: dns_target_patch(addresses[0].public_ip->0, eip.allocation_id()->0),
                },
            )
            &&& run::<PodApply>(start, published.push(told(ReplyView::Done))) == Progress::<
                PodApplyView,
                Option<Action>,
            >::Finished(Ok(None))
        }),
{
    let start = start_pod_apply(pod);
    let found = created(pod) + way;
    let listed = found.push(told(ReplyView::Eips(eips)));
    let looked_up = listed.push(told(ReplyView::Addresses(Some(addresses))));
    let claimed = looked_up.push(told(ReplyView::Done));
    let associated = claimed.push(told(ReplyView::Associated(Some(association_id))));
    let recorded = associated.push(told(ReplyView::Done));
    lemma_interface(pod, ip, way, eni_id);
    lemma_push::<PodApply>(start, found, told(ReplyView::Eips(eips)));
    lemma_push::<PodApply>(start, listed, told(ReplyView::Addresses(Some(addresses))));
    lemma_push::<PodApply>(start, looked_up, told(ReplyView::Done));
    lemma_push::<PodApply>(start, claimed, told(ReplyView::Done));
    lemma_push::<PodApply>(start, claimed, told(ReplyView::Associated(None)));
    lemma_push::<PodApply>(start, claimed, told(ReplyView::Associated(Some(association_id))));
    lemma_push::<PodApply>(start, associated, told(ReplyView::Done));
    lemma_push::<PodApply>(start, recorded, told(ReplyView::Done));
}

} // verus!

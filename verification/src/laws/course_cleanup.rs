//! The course of cleaning up: which request follows which reply.
use crate::aws::{orphans, AddressView};
use crate::controller::detach::{association_ids, start_detach, Detach, DetachStepView, DetachView};
use crate::controller::eip::{
    releasing as releasing_of_eip, start_cleanup as start_eip_cleanup, uid_filters, EipCleanup,
    EipCleanupView,
};
use crate::controller::node::{start_cleanup as start_node_cleanup, NodeCleanup, NodeCleanupView};
use crate::controller::pod::{start_cleanup as start_pod_cleanup, PodCleanup, PodCleanupView};
use crate::egress::{
    egress_selector, label_tasks, labelling, other_nodes, start_labelling, ClaimedNodeView,
    EgressLabelling, EgressLabellingView,
};
use crate::eip::{claimed_by, for_node, EipView};
use crate::error::{Error, ServiceError};
use crate::kube_ext::{NodeView, PodView};
use crate::labels::gateway_status_patch;
use crate::laws::course::{home_of, lemma_push, told, within, Answers};
use crate::legacy::{
    pod_uid_filters, pod_uids, releasing as releasing_of_pod, releasing_orphans,
    start_cleanup as start_legacy_cleanup, LegacyCleanup, LegacyCleanupView, LegacyOrphanCleanup,
    LegacyOrphanCleanupView,
};
use crate::operation::{
    asked, run, Action, ApiScopeView, Operation, Progress, ReplyView, RequestView,
};
use crate::orphans::{
    cluster_filters, eip_uids, legacy_cluster_filters, releasing, unfinalize_plan, unfinalizing,
    OrphanCleanup, OrphanCleanupView,
};
use crate::tasks::{release_all, start_tasks, TaskList, TaskListView, TaskView};
use vstd::prelude::*;

verus! {

// Lists of tasks.

/// A task that was carried out is followed by the next, and the list ends in the error that it is
/// to end in, or else in success. Whatever fails ends it with that very failure, except that an
/// association that is gone counts as ended unless it has to exist.
pub proof fn law_course_of_tasks(
    task: TaskView,
    rest: Seq<TaskView>,
    end: Option<Error>,
    refusal: ServiceError,
    e: Error,
)
    ensures
        ({
            let start = start_tasks(seq![task] + rest, end);
            let onward = start_tasks(rest, end);
            let refused = run::<TaskList>(
                start,
                seq![told(ReplyView::Disassociated(Err(refusal)))],
            );
            &&& asked::<TaskList>(start, Seq::empty()) == Some(task.request())
            &&& run::<TaskList>(start, seq![told(ReplyView::Done)]) == onward
            &&& run::<TaskList>(start, seq![told(ReplyView::Disassociated(Ok(())))]) == onward
            &&& run::<TaskList>(start, seq![Err(e)]) == Progress::<TaskListView, ()>::Finished(
                Err(e),
            )
            &&& task matches TaskView::Disassociate { must_exist, .. } ==> {
                if !must_exist && refusal.code.deep_view() == Some(
                    "InvalidAssociationID.NotFound"@,
                ) {
                    refused == onward
                } else {
                    refused == Progress::<TaskListView, ()>::Finished(
                        Err(Error::AwsDisassociateAddress { source: refusal }),
                    )
                }
            }
        }),
        start_tasks(Seq::empty(), Some(e)) == Progress::<TaskListView, ()>::Finished(Err(e)),
        start_tasks(Seq::empty(), None) is Finished,
        start_tasks(Seq::empty(), None)->Finished_0 is Ok,
{
    let start = start_tasks(seq![task] + rest, end);
    let none = Seq::<Result<ReplyView, Error>>::empty();
    let done = told(ReplyView::Done);
    let ended = told(ReplyView::Disassociated(Ok(())));
    let failed = told(ReplyView::Disassociated(Err(refusal)));
    let broken = Err::<ReplyView, Error>(e);
    assert((seq![task] + rest).drop_first() =~= rest);
    assert(seq![done] =~= none.push(done));
    assert(seq![ended] =~= none.push(ended));
    assert(seq![failed] =~= none.push(failed));
    assert(seq![broken] =~= none.push(broken));
    lemma_push::<TaskList>(start, none, done);
    lemma_push::<TaskList>(start, none, ended);
    lemma_push::<TaskList>(start, none, failed);
    lemma_push::<TaskList>(start, none, broken);
}

/// An operation that has come to a list of tasks goes on as the list does.
proof fn lemma_tasks_inside<M: Operation>(
    start: Progress<M::V, M::Outcome>,
    first: Answers,
    tasks: Progress<TaskListView, ()>,
    inside: spec_fn(Progress<TaskListView, ()>) -> Progress<M::V, M::Outcome>,
    embed: spec_fn(TaskListView) -> M::V,
    rest: Answers,
)
    requires
        run::<M>(start, first) == inside(tasks),
        forall|x: TaskListView| #[trigger]
            inside(Progress::Pending(x)) == Progress::<M::V, M::Outcome>::Pending(embed(x)),
        forall|x: TaskListView, a: Result<ReplyView, Error>| #[trigger]
            M::next(embed(x), a) == inside(TaskList::next(x, a)),
        rest.len() > 0 ==> run::<TaskList>(tasks, rest.drop_last()) is Pending,
    ensures
        run::<M>(start, first + rest) == inside(run::<TaskList>(tasks, rest)),
    decreases rest.len(),
{
    if rest.len() == 0 {
        assert(first + rest =~= first);
    } else {
        let before = rest.drop_last();
        assert(first + rest =~= (first + before).push(rest.last()));
        assert(rest =~= before.push(rest.last()));
        lemma_push::<M>(start, first + before, rest.last());
        lemma_push::<TaskList>(tasks, before, rest.last());
        if before.len() > 0 {
            assert(before =~= before.drop_last().push(before.last()));
            lemma_push::<TaskList>(tasks, before.drop_last(), before.last());
        }
        lemma_tasks_inside::<M>(start, first, tasks, inside, embed, before);
        let x = run::<TaskList>(tasks, before)->Pending_0;
        assert(inside(Progress::Pending(x)) == Progress::<M::V, M::Outcome>::Pending(embed(x)));
        assert(M::next(embed(x), rest.last()) == inside(TaskList::next(x, rest.last())));
    }
}

/// Whether a list of tasks was not yet at its end before the last of these answers.
pub open spec fn are_needed(tasks: Progress<TaskListView, ()>, answers: Answers) -> bool {
    answers.len() > 0 ==> run::<TaskList>(tasks, answers.drop_last()) is Pending
}

// Addresses.

/// Cleaning up behind an `Eip` describes the addresses that are tagged with its uid, and gives each
/// of them back. An association that is gone counts as ended.
pub proof fn law_course_of_eip_cleanup(eip: EipView, addresses: Seq<AddressView>, rest: Answers)
    requires
        are_needed(start_tasks(release_all(addresses, false), None), rest),
    ensures
        eip.uid is None ==> start_eip_cleanup(eip) == Progress::<
            EipCleanupView,
            Option<Action>,
        >::Finished(Err(Error::MissingEipUid)),
        eip.uid matches Some(uid) ==> {
            let start = start_eip_cleanup(eip);
            let tasks = start_tasks(release_all(addresses, false), None);
            let answers = seq![told(ReplyView::Addresses(Some(addresses)))] + rest;
            &&& asked::<EipCleanup>(start, Seq::empty()) == Some(
                RequestView::DescribeAddresses { filters: uid_filters(uid) },
            )
            &&& run::<EipCleanup>(start, seq![told(ReplyView::Addresses(None))]) == Progress::<
                EipCleanupView,
                Option<Action>,
            >::Finished(Ok(None))
            &&& match run::<TaskList>(tasks, rest) {
                Progress::Pending(_) => asked::<EipCleanup>(start, answers) == asked::<TaskList>(
                    tasks,
                    rest,
                ),
                Progress::Finished(Ok(_)) => run::<EipCleanup>(start, answers) == Progress::<
                    EipCleanupView,
                    Option<Action>,
                >::Finished(Ok(None)),
                Progress::Finished(Err(e)) => run::<EipCleanup>(start, answers) == Progress::<
                    EipCleanupView,
                    Option<Action>,
                >::Finished(Err(e)),
            }
        },
{
    let start = start_eip_cleanup(eip);
    let tasks = start_tasks(release_all(addresses, false), None);
    let missing = told(ReplyView::Addresses(None));
    let first = told(ReplyView::Addresses(Some(addresses)));
    assert(seq![missing] =~= Seq::empty().push(missing));
    assert(seq![first] =~= Seq::empty().push(first));
    lemma_push::<EipCleanup>(start, Seq::empty(), missing);
    lemma_push::<EipCleanup>(start, Seq::empty(), first);
    if eip.uid is Some {
        lemma_tasks_inside::<EipCleanup>(
            start,
            seq![first],
            tasks,
            |p: Progress<TaskListView, ()>| releasing_of_eip(p),
            |x: TaskListView| EipCleanupView::Releasing { tasks: x },
            rest,
        );
    }
}

/// Cleaning up behind a pod that has an address without an `Eip` describes the addresses that are
/// tagged with its uid, and gives each of them back. An association that is gone is an error here.
pub proof fn law_course_of_bare_pod_cleanup(
    pod: PodView,
    addresses: Seq<AddressView>,
    rest: Answers,
)
    requires
        are_needed(start_tasks(release_all(addresses, true), None), rest),
    ensures
        pod.uid is None ==> start_legacy_cleanup(pod) == Progress::<
            LegacyCleanupView,
            Action,
        >::Finished(Err(Error::MissingPodUid)),
        pod.uid matches Some(uid) ==> {
            let start = start_legacy_cleanup(pod);
            let tasks = start_tasks(release_all(addresses, true), None);
            let answers = seq![told(ReplyView::Addresses(Some(addresses)))] + rest;
            &&& asked::<LegacyCleanup>(start, Seq::empty()) == Some(
                RequestView::DescribeAddresses { filters: pod_uid_filters(uid) },
            )
            &&& run::<LegacyCleanup>(start, seq![told(ReplyView::Addresses(None))]) == Progress::<
                LegacyCleanupView,
                Action,
            >::Finished(Err(Error::MissingAddresses))
            &&& match run::<TaskList>(tasks, rest) {
                Progress::Pending(_) => asked::<LegacyCleanup>(start, answers) == asked::<TaskList>(
                    tasks,
                    rest,
                ),
                Progress::Finished(Ok(_)) => run::<LegacyCleanup>(start, answers) == Progress::<
                    LegacyCleanupView,
                    Action,
                >::Finished(Ok(Action { requeue_after_millis: None })),
                Progress::Finished(Err(e)) => run::<LegacyCleanup>(start, answers) == Progress::<
                    LegacyCleanupView,
                    Action,
                >::Finished(Err(e)),
            }
        },
{
    let start = start_legacy_cleanup(pod);
    let tasks = start_tasks(release_all(addresses, true), None);
    let missing = told(ReplyView::Addresses(None));
    let first = told(ReplyView::Addresses(Some(addresses)));
    assert(seq![missing] =~= Seq::empty().push(missing));
    assert(seq![first] =~= Seq::empty().push(first));
    lemma_push::<LegacyCleanup>(start, Seq::empty(), missing);
    lemma_push::<LegacyCleanup>(start, Seq::empty(), first);
    if pod.uid is Some {
        lemma_tasks_inside::<LegacyCleanup>(
            start,
            seq![first],
            tasks,
            |p: Progress<TaskListView, ()>| releasing_of_pod(p),
            |x: TaskListView| LegacyCleanupView::Releasing { tasks: x },
            rest,
        );
    }
}

/// Cleaning up orphans describes the addresses of the cluster, those that pods have without an
/// `Eip` included, and lists the `Eip`s. The addresses that no `Eip` owns are given back; then the
/// pods are listed that have an address without an `Eip`.
pub proof fn law_course_of_orphan_cleanup(
    cluster_name: Seq<char>,
    namespace: Option<Seq<char>>,
    addresses: Seq<AddressView>,
    legacy: Seq<AddressView>,
    eips: Seq<EipView>,
    rest: Answers,
)
    requires
        are_needed(
            start_tasks(
                release_all(
                    orphans(
                        addresses + legacy,
                        "eip.materialize.cloud/eip_uid"@,
                        eip_uids(eips),
                    ),
                    false,
                ),
                None,
            ),
            rest,
        ),
    ensures
        ({
            let start = Progress::<OrphanCleanupView, ()>::Pending(
                OrphanCleanupView::Describing { cluster_name, namespace },
            );
            let gone = orphans(
                addresses + legacy,
                "eip.materialize.cloud/eip_uid"@,
                eip_uids(eips),
            );
            let tasks = start_tasks(release_all(gone, false), None);
            let one = seq![told(ReplyView::Addresses(Some(addresses)))];
            let two = one.push(told(ReplyView::Addresses(Some(legacy))));
            let three = two.push(told(ReplyView::Eips(eips)));
            let answers = three + rest;
            &&& asked::<OrphanCleanup>(start, Seq::empty()) == Some(
                RequestView::DescribeAddresses {
                    filters: cluster_filters(cluster_name, namespace),
                },
            )
            &&& run::<OrphanCleanup>(start, seq![told(ReplyView::Addresses(None))]) == Progress::<
                OrphanCleanupView,
                (),
            >::Finished(Err(Error::MissingAddresses))
            &&& asked::<OrphanCleanup>(start, one) == Some(
                RequestView::DescribeAddresses { filters: legacy_cluster_filters(cluster_name) },
            )
            &&& run::<OrphanCleanup>(start, one.push(told(ReplyView::Addresses(None))))
                == Progress::<OrphanCleanupView, ()>::Finished(Err(Error::MissingAddresses))
            &&& asked::<OrphanCleanup>(start, two) == Some(
                RequestView::ListEips { scope: within(namespace) },
            )
            &&& match run::<TaskList>(tasks, rest) {
                Progress::Pending(_) => asked::<OrphanCleanup>(start, answers) == asked::<TaskList>(
                    tasks,
                    rest,
                ),
                Progress::Finished(Ok(_)) => asked::<OrphanCleanup>(start, answers) == Some(
                    RequestView::ListPods {
                        scope: within(namespace),
                        label_selector: "eip.aws.materialize.com/manage"@,
                    },
                ),
                Progress::Finished(Err(e)) => run::<OrphanCleanup>(start, answers) == Progress::<
                    OrphanCleanupView,
                    (),
                >::Finished(Err(e)),
            }
        }),
{
    let start = Progress::<OrphanCleanupView, ()>::Pending(
        OrphanCleanupView::Describing { cluster_name, namespace },
    );
    let missing = told(ReplyView::Addresses(None));
    let first = told(ReplyView::Addresses(Some(addresses)));
    let one = seq![first];
    let two = one.push(told(ReplyView::Addresses(Some(legacy))));
    let three = two.push(told(ReplyView::Eips(eips)));
    assert(seq![missing] =~= Seq::empty().push(missing));
    assert(one =~= Seq::empty().push(first));
    lemma_push::<OrphanCleanup>(start, Seq::empty(), missing);
    lemma_push::<OrphanCleanup>(start, Seq::empty(), first);
    lemma_push::<OrphanCleanup>(start, one, missing);
    lemma_push::<OrphanCleanup>(start, one, told(ReplyView::Addresses(Some(legacy))));
    lemma_push::<OrphanCleanup>(start, two, told(ReplyView::Eips(eips)));
    let gone = orphans(addresses + legacy, "eip.materialize.cloud/eip_uid"@, eip_uids(eips));
    let tasks = start_tasks(release_all(gone, false), None);
    lemma_tasks_inside::<OrphanCleanup>(
        start,
        three,
        tasks,
        |p: Progress<TaskListView, ()>| releasing(namespace, p),
        |x: TaskListView| OrphanCleanupView::Releasing { namespace, tasks: x },
        rest,
    );
}

/// Once the pods are listed that have an address without an `Eip`, the finalizer is removed from
/// those that have it, and that is all.
pub proof fn law_course_of_finalizer_removal(
    start: Progress<OrphanCleanupView, ()>,
    before: Answers,
    namespace: Option<Seq<char>>,
    pods: Seq<PodView>,
    rest: Answers,
)
    requires
        asked::<OrphanCleanup>(start, before) == Some(
            RequestView::ListPods {
                scope: within(namespace),
                label_selector: "eip.aws.materialize.com/manage"@,
            },
        ),
        are_needed(
            start_tasks(
                unfinalize_plan(within(namespace), pods).tasks,
                unfinalize_plan(within(namespace), pods).end,
            ),
            rest,
        ),
    ensures
        ({
            let plan = unfinalize_plan(within(namespace), pods);
            let tasks = start_tasks(plan.tasks, plan.end);
            let answers = before.push(told(ReplyView::Pods(pods))) + rest;
            match run::<TaskList>(tasks, rest) {
                Progress::Pending(_) => asked::<OrphanCleanup>(start, answers) == asked::<TaskList>(
                    tasks,
                    rest,
                ),
                Progress::Finished(outcome) => run::<OrphanCleanup>(start, answers) == Progress::<
                    OrphanCleanupView,
                    (),
                >::Finished(outcome),
            }
        }),
{
    let plan = unfinalize_plan(within(namespace), pods);
    let tasks = start_tasks(plan.tasks, plan.end);
    let listed = before.push(told(ReplyView::Pods(pods)));
    lemma_push::<OrphanCleanup>(start, before, told(ReplyView::Pods(pods)));
    lemma_tasks_inside::<OrphanCleanup>(
        start,
        listed,
        tasks,
        |p: Progress<TaskListView, ()>| unfinalizing(p),
        |x: TaskListView| OrphanCleanupView::Unfinalizing { tasks: x },
        rest,
    );
}

/// Where pods own the addresses, cleaning up orphans describes the addresses of the cluster, lists
/// the pods of all namespaces, and gives back the addresses that no pod owns. An association that
/// is gone is an error here.
pub proof fn law_course_of_bare_orphan_cleanup(
    cluster_name: Seq<char>,
    addresses: Seq<AddressView>,
    pods: Seq<PodView>,
    rest: Answers,
)
    requires
        are_needed(
            start_tasks(
                release_all(
                    orphans(addresses, "eip.aws.materialize.com/pod_uid"@, pod_uids(pods)),
                    true,
                ),
                None,
            ),
            rest,
        ),
    ensures
        ({
            let start = Progress::<LegacyOrphanCleanupView, ()>::Pending(
                LegacyOrphanCleanupView::Describing { cluster_name },
            );
            let gone = orphans(addresses, "eip.aws.materialize.com/pod_uid"@, pod_uids(pods));
            let tasks = start_tasks(release_all(gone, true), None);
            let one = seq![told(ReplyView::Addresses(Some(addresses)))];
            let answers = one.push(told(ReplyView::Pods(pods))) + rest;
            &&& asked::<LegacyOrphanCleanup>(start, Seq::empty()) == Some(
                RequestView::DescribeAddresses { filters: legacy_cluster_filters(cluster_name) },
            )
            &&& run::<LegacyOrphanCleanup>(start, seq![told(ReplyView::Addresses(None))])
                == Progress::<LegacyOrphanCleanupView, ()>::Finished(Err(Error::MissingAddresses))
            &&& asked::<LegacyOrphanCleanup>(start, one) == Some(
                RequestView::ListPods {
                    scope: ApiScopeView::All,
                    label_selector: "eip.aws.materialize.com/manage"@,
                },
            )
            &&& match run::<TaskList>(tasks, rest) {
                Progress::Pending(_) => asked::<LegacyOrphanCleanup>(start, answers) == asked::<
                    TaskList,
                >(tasks, rest),
                Progress::Finished(outcome) => run::<LegacyOrphanCleanup>(start, answers)
                    == Progress::<LegacyOrphanCleanupView, ()>::Finished(outcome),
            }
        }),
{
    let start = Progress::<LegacyOrphanCleanupView, ()>::Pending(
        LegacyOrphanCleanupView::Describing { cluster_name },
    );
    let missing = told(ReplyView::Addresses(None));
    let first = told(ReplyView::Addresses(Some(addresses)));
    let one = seq![first];
    assert(seq![missing] =~= Seq::empty().push(missing));
    assert(one =~= Seq::empty().push(first));
    lemma_push::<LegacyOrphanCleanup>(start, Seq::empty(), missing);
    lemma_push::<LegacyOrphanCleanup>(start, Seq::empty(), first);
    lemma_push::<LegacyOrphanCleanup>(start, one, told(ReplyView::Pods(pods)));
    let gone = orphans(addresses, "eip.aws.materialize.com/pod_uid"@, pod_uids(pods));
    let tasks = start_tasks(release_all(gone, true), None);
    lemma_tasks_inside::<LegacyOrphanCleanup>(
        start,
        one.push(told(ReplyView::Pods(pods))),
        tasks,
        |p: Progress<TaskListView, ()>| releasing_orphans(p),
        |x: TaskListView| LegacyOrphanCleanupView::Releasing { tasks: x },
        rest,
    );
}

// Egress labels.

/// The tasks of labelling: the node with the address is labelled first, then the label is taken off
/// each other node that was found with it, in the order listed.
pub proof fn law_tasks_of_labelling(
    allocation_id: Seq<char>,
    node: Option<ClaimedNodeView>,
    nodes: Seq<NodeView>,
)
    ensures
        ({
            let tasks = label_tasks(allocation_id, node, nodes);
            let others = other_nodes(nodes, node);
            let n: int = if node is Some {
                1
            } else {
                0
            };
            &&& tasks.len() == others.len() + n
            &&& node matches Some(claimed) ==> tasks[0] == (TaskView::AddGatewayLabel {
                node_name: claimed.name,
                status: allocation_id,
            })
            &&& forall|k: int|
                0 <= k < others.len() ==> #[trigger] tasks[k + n] == (
                TaskView::RemoveGatewayLabel { node_name: others[k].name->0 })
        }),
{
}

/// Labelling lists the nodes with the label for an address, and then carries out its tasks.
pub proof fn law_course_of_labelling(
    eip: EipView,
    node: Option<NodeView>,
    nodes: Seq<NodeView>,
    rest: Answers,
)
    requires
        node matches Some(n) ==> n.name is Some,
        eip.allocation_id() is Some,
        are_needed(
            start_tasks(label_tasks(eip.allocation_id()->0, claimed_node(node), nodes), None),
            rest,
        ),
    ensures
        ({
            let start = start_labelling(eip, node);
            let tasks = start_tasks(
                label_tasks(eip.allocation_id()->0, claimed_node(node), nodes),
                None,
            );
            let answers = seq![told(ReplyView::Nodes(nodes))] + rest;
            &&& asked::<EgressLabelling>(start, Seq::empty()) == Some(
                RequestView::ListNodes { label_selector: egress_selector(eip.allocation_id()->0) },
            )
            &&& match run::<TaskList>(tasks, rest) {
                Progress::Pending(_) => asked::<EgressLabelling>(start, answers) == asked::<
                    TaskList,
                >(tasks, rest),
                Progress::Finished(outcome) => run::<EgressLabelling>(start, answers)
                    == Progress::<EgressLabellingView, ()>::Finished(outcome),
            }
        }),
{
    let start = start_labelling(eip, node);
    let tasks = start_tasks(label_tasks(eip.allocation_id()->0, claimed_node(node), nodes), None);
    let first = told(ReplyView::Nodes(nodes));
    assert(seq![first] =~= Seq::empty().push(first));
    lemma_push::<EgressLabelling>(start, Seq::empty(), first);
    lemma_tasks_inside::<EgressLabelling>(
        start,
        seq![first],
        tasks,
        |p: Progress<TaskListView, ()>| labelling(p),
        |x: TaskListView| EgressLabellingView::Labelling { tasks: x },
        rest,
    );
}

/// The name and the uid of a node.
pub open spec fn claimed_node(node: Option<NodeView>) -> Option<ClaimedNodeView> {
    match node {
        Some(node) => Some(ClaimedNodeView { name: node.name->0, uid: node.uid }),
        None => None,
    }
}

/// An `Eip` without an address cannot be labelled for.
pub proof fn law_labelling_needs_an_address(eip: EipView, node: Option<NodeView>)
    requires
        eip.allocation_id() is None,
    ensures
        start_labelling(eip, node) == Progress::<EgressLabellingView, ()>::Finished(
            Err(Error::MissingAllocationId),
        ),
{
}

// Detaching.

/// Whether an answer says that an association has ended, or that it was gone already.
pub open spec fn is_ended(answer: Result<ReplyView, Error>) -> bool {
    &&& answer is Ok
    &&& answer->Ok_0 is Disassociated
    &&& answer->Ok_0->Disassociated_0 is Err ==> (
    answer->Ok_0->Disassociated_0->Err_0).code.deep_view() == Some("InvalidAssociationID.NotFound"@)
}

/// Detaching takes the `Eip`s in order. The address of the first is described, and its associations
/// are ended one after the other; then the `Eip` is recorded as detached, and the rest follow.
pub proof fn law_course_of_detaching(
    namespace: Option<Seq<char>>,
    eips: Seq<EipView>,
    addresses: Seq<AddressView>,
    ended: Answers,
)
    requires
        eips.len() > 0,
        eips[0].allocation_id() is Some,
        ended.len() <= association_ids(addresses).len(),
        forall|k: int| 0 <= k < ended.len() ==> is_ended(#[trigger] ended[k]),
    ensures
        ({
            let start = start_detach(within(namespace), eips);
            let ids = association_ids(addresses);
            let answers = seq![told(ReplyView::Addresses(Some(addresses)))] + ended;
            let k = ended.len() as int;
            &&& asked::<Detach>(start, Seq::empty()) == Some(
                RequestView::DescribeAddress { allocation_id: eips[0].allocation_id()->0 },
            )
            &&& run::<Detach>(start, seq![told(ReplyView::Addresses(None))]) == Progress::<
                DetachView,
                (),
            >::Finished(Err(Error::MissingAddresses))
            &&& k < ids.len() ==> asked::<Detach>(start, answers) == Some(
                RequestView::DisassociateAddress { association_id: ids[k] },
            )
            &&& k == ids.len() ==> asked::<Detach>(start, answers) == Some(
                RequestView::SetStatusDetached {
                    scope: home_of(eips[0], namespace),
                    eip: eips[0],
                },
            ) && run::<Detach>(start, answers.push(told(ReplyView::Done))) == start_detach(
                within(namespace),
                eips.skip(1),
            )
        }),
{
    let start = start_detach(within(namespace), eips);
    let missing = told(ReplyView::Addresses(None));
    assert(seq![missing] =~= Seq::empty().push(missing));
    lemma_push::<Detach>(start, Seq::empty(), missing);
    lemma_ending(namespace, eips, addresses, ended);
    let answers = seq![told(ReplyView::Addresses(Some(addresses)))] + ended;
    lemma_push::<Detach>(start, answers, told(ReplyView::Done));
    assert(eips.drop_first() =~= eips.skip(1));
}

proof fn lemma_ending(
    namespace: Option<Seq<char>>,
    eips: Seq<EipView>,
    addresses: Seq<AddressView>,
    ended: Answers,
)
    requires
        eips.len() > 0,
        eips[0].allocation_id() is Some,
        ended.len() <= association_ids(addresses).len(),
        forall|k: int| 0 <= k < ended.len() ==> is_ended(#[trigger] ended[k]),
    ensures
        ({
            let ids = association_ids(addresses);
            let k = ended.len() as int;
            run::<Detach>(
                start_detach(within(namespace), eips),
                seq![told(ReplyView::Addresses(Some(addresses)))] + ended,
            ) == Progress::<DetachView, ()>::Pending(
                DetachView {
                    scope: within(namespace),
                    eip: eips[0],
                    allocation_id: eips[0].allocation_id()->0,
                    rest: eips.drop_first(),
                    step: if k < ids.len() {
                        DetachStepView::Disassociating {
                            association_id: ids[k],
                            more: ids.skip(k + 1),
                        }
                    } else {
                        DetachStepView::Recording
                    },
                },
            )
        }),
    decreases ended.len(),
{
    let start = start_detach(within(namespace), eips);
    let ids = association_ids(addresses);
    let first = told(ReplyView::Addresses(Some(addresses)));
    if ended.len() == 0 {
        assert(seq![first] + ended =~= Seq::empty().push(first));
        lemma_push::<Detach>(start, Seq::empty(), first);
        if ids.len() > 0 {
            assert(ids.drop_first() =~= ids.skip(1));
        }
    } else {
        let before = ended.drop_last();
        lemma_ending(namespace, eips, addresses, before);
        assert(seq![first] + ended =~= (seq![first] + before).push(ended.last()));
        lemma_push::<Detach>(start, seq![first] + before, ended.last());
        assert(is_ended(ended[ended.len() - 1]));
        let k = before.len() as int;
        let more = ids.skip(k + 1);
        if more.len() > 0 {
            assert(more[0] == ids[k + 1]);
            assert(more.drop_first() =~= ids.skip(k + 2));
        }
    }
}

/// Detaching ends where an `Eip` has no address, and where none is left.
pub proof fn law_detaching_ends(scope: ApiScopeView, eips: Seq<EipView>)
    ensures
        eips.len() == 0 ==> start_detach(scope, eips) is Finished && start_detach(
            scope,
            eips,
        )->Finished_0 is Ok,
        eips.len() > 0 && eips[0].allocation_id() is None ==> start_detach(scope, eips)
            == Progress::<DetachView, ()>::Finished(Err(Error::MissingAllocationId)),
{
}

/// Cleaning up behind a pod lists the `Eip`s of its namespace and detaches those that the pod
/// claims. Then the `Eip` that was created for the pod is deleted, where the pod asked for one.
pub proof fn law_course_of_pod_cleanup(pod: PodView, eips: Seq<EipView>)
    requires
        pod.name is Some,
        pod.namespace is Some,
    ensures
        ({
            let start = start_pod_cleanup(pod);
            let listed = seq![told(ReplyView::Eips(eips))];
            let mine = claimed_by(eips, pod.name->0);
            let detach = start_detach(ApiScopeView::Namespaced(pod.namespace->0), mine);
            &&& asked::<PodCleanup>(start, Seq::empty()) == Some(
                RequestView::ListEips { scope: ApiScopeView::Namespaced(pod.namespace->0) },
            )
            &&& detach is Pending ==> asked::<PodCleanup>(start, listed) == asked::<Detach>(
                detach,
                Seq::empty(),
            )
            &&& mine.len() == 0 && pod.wants_eip() ==> asked::<PodCleanup>(start, listed) == Some(
                RequestView::DeleteEip { namespace: pod.namespace->0, name: pod.name->0 },
            ) && run::<PodCleanup>(start, listed.push(told(ReplyView::Done))) == Progress::<
                PodCleanupView,
                Option<Action>,
            >::Finished(Ok(None))
            &&& mine.len() == 0 && !pod.wants_eip() ==> run::<PodCleanup>(start, listed)
                == Progress::<PodCleanupView, Option<Action>>::Finished(Ok(None))
        }),
{
    let start = start_pod_cleanup(pod);
    let first = told(ReplyView::Eips(eips));
    assert(seq![first] =~= Seq::empty().push(first));
    lemma_push::<PodCleanup>(start, Seq::empty(), first);
    lemma_push::<PodCleanup>(start, seq![first], told(ReplyView::Done));
}

/// Cleaning up behind a node lists the `Eip`s and detaches those that select the node and that it
/// claims. Then the node is labelled as one that no traffic may leave through.
pub proof fn law_course_of_node_cleanup(
    node: NodeView,
    namespace: Option<Seq<char>>,
    eips: Seq<EipView>,
)
    requires
        node.name is Some,
    ensures
        ({
            let start = start_node_cleanup(node, namespace);
            let listed = seq![told(ReplyView::Eips(eips))];
            let mine = claimed_by(for_node(eips, node.labels), node.name->0);
            let detach = start_detach(within(namespace), mine);
            &&& asked::<NodeCleanup>(start, Seq::empty()) == Some(
                RequestView::ListEips { scope: within(namespace) },
            )
            &&& detach is Pending ==> asked::<NodeCleanup>(start, listed) == asked::<Detach>(
                detach,
                Seq::empty(),
            )
            &&& mine.len() == 0 ==> asked::<NodeCleanup>(start, listed) == Some(
                RequestView::ApplyToNode {
                    name: node.name->0,
                    patch: gateway_status_patch(Some("false"@)),
                },
            ) && run::<NodeCleanup>(start, listed.push(told(ReplyView::Done))) == Progress::<
                NodeCleanupView,
                Option<Action>,
            >::Finished(Ok(None))
        }),
{
    let start = start_node_cleanup(node, namespace);
    let first = told(ReplyView::Eips(eips));
    assert(seq![first] =~= Seq::empty().push(first));
    lemma_push::<NodeCleanup>(start, Seq::empty(), first);
    lemma_push::<NodeCleanup>(start, seq![first], told(ReplyView::Done));
}

/// Whatever fails while cleaning up, detaching or labelling ends the attempt with that very
/// failure.
pub proof fn law_cleanup_reports_failures(
    pod: PodCleanupView,
    node: NodeCleanupView,
    eip: EipCleanupView,
    bare: LegacyCleanupView,
    gone: OrphanCleanupView,
    bare_gone: LegacyOrphanCleanupView,
    detach: DetachView,
    label: EgressLabellingView,
    e: Error,
)
    ensures
        PodCleanup::next(pod, Err(e)) == Progress::<PodCleanupView, Option<Action>>::Finished(
            Err(e),
        ),
        NodeCleanup::next(node, Err(e)) == Progress::<NodeCleanupView, Option<Action>>::Finished(
            Err(e),
        ),
        EipCleanup::next(eip, Err(e)) == Progress::<EipCleanupView, Option<Action>>::Finished(
            Err(e),
        ),
        LegacyCleanup::next(bare, Err(e)) == Progress::<LegacyCleanupView, Action>::Finished(Err(e)),
        OrphanCleanup::next(gone, Err(e)) == Progress::<OrphanCleanupView, ()>::Finished(Err(e)),
        LegacyOrphanCleanup::next(bare_gone, Err(e)) == Progress::<
            LegacyOrphanCleanupView,
            (),
        >::Finished(Err(e)),
        Detach::next(detach, Err(e)) == Progress::<DetachView, ()>::Finished(Err(e)),
        EgressLabelling::next(label, Err(e)) == Progress::<EgressLabellingView, ()>::Finished(
            Err(e),
        ),
{
}

/// An association that could not be ended while an `Eip` is detached ends the attempt, unless it is
/// gone.
pub proof fn law_detaching_reports_refusals(state: DetachView, refusal: ServiceError)
    requires
        Detach::ask(state) is DisassociateAddress,
        refusal.code.deep_view() != Some("InvalidAssociationID.NotFound"@),
    ensures
        Detach::next(state, Ok(ReplyView::Disassociated(Err(refusal)))) == Progress::<
            DetachView,
            (),
        >::Finished(Err(Error::AwsDisassociateAddress { source: refusal })),
{
}

} // verus!

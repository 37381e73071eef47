//! What holds of cleaning up behind pods and nodes.
use crate::controller::detach::{start_detach, Detach, DetachView};
use crate::controller::node::{
    start_cleanup as start_node_cleanup, NodeCleanup, NodeCleanupView,
};
use crate::controller::pod::{
    start_cleanup as start_pod_cleanup, PodCleanup, PodCleanupView,
};
use crate::eip::{claimed_by, for_node, EipView};
use crate::error::Error;
use crate::kube_ext::{NodeView, PodView};
use crate::labels::gateway_status_patch;
use crate::laws::detach::{law_detach_covers_every_eip, was_recorded};
use crate::laws::tasks::lemma_history_prefix;
use crate::operation::{
    asked, is_history, lemma_just_answered, lemma_was_answered, run, scope_of, succeeded,
    was_answered, Action, ApiScopeView, Operation, Progress, ReplyView, RequestView,
};
use crate::search::lemma_filter_members;
use vstd::prelude::*;

verus! {

/// How detaching starts once the `Eip`s have been listed for a pod.
pub open spec fn pod_detach(pod: PodView, eips: Seq<EipView>) -> Progress<DetachView, ()> {
    start_detach(ApiScopeView::Namespaced(pod.namespace->0), claimed_by(eips, pod.name->0))
}

/// While addresses are being detached, cleaning up behind a pod is detaching; it fails as detaching
/// fails; and it goes on to the `Eip` of the pod's own, if there is one, once detaching is done.
proof fn lemma_pod_cleanup(pod: PodView, eips: Seq<EipView>, answers: Seq<Result<ReplyView, Error>>)
    requires
        pod.name is Some,
        pod.namespace is Some,
        answers.len() > 0,
        answers[0] == Ok::<ReplyView, Error>(ReplyView::Eips(eips)),
        is_history::<PodCleanup>(start_pod_cleanup(pod), answers),
    ensures
        is_history::<Detach>(pod_detach(pod, eips), answers.skip(1)),
        match run::<Detach>(pod_detach(pod, eips), answers.skip(1)) {
            Progress::Pending(detach) => run::<PodCleanup>(start_pod_cleanup(pod), answers)
                == Progress::<PodCleanupView, Option<Action>>::Pending(
                PodCleanupView::Detaching {
                    name: pod.name->0,
                    namespace: pod.namespace->0,
                    autocreated: pod.wants_eip(),
                    detach,
                },
            ),
            Progress::Finished(Err(e)) => run::<PodCleanup>(start_pod_cleanup(pod), answers)
                == Progress::<PodCleanupView, Option<Action>>::Finished(Err(e)),
            Progress::Finished(Ok(_)) => match run::<PodCleanup>(start_pod_cleanup(pod), answers) {
                Progress::Pending(state) => pod.wants_eip() && state == (PodCleanupView::Deleting {
                    name: pod.name->0,
                    namespace: pod.namespace->0,
                }),
                Progress::Finished(Ok(outcome)) => outcome is None && (pod.wants_eip()
                    ==> was_answered::<PodCleanup>(
                    start_pod_cleanup(pod),
                    answers,
                    delete_request(pod),
                    Ok(ReplyView::Done),
                )),
                Progress::Finished(Err(_)) => pod.wants_eip(),
            },
        },
    decreases answers.len(),
{
    let start = start_pod_cleanup(pod);
    let detach = pod_detach(pod, eips);
    let before = answers.drop_last();
    if answers.len() == 1 {
        assert(answers.skip(1) =~= Seq::empty());
        assert(before =~= Seq::empty());
        assert(run::<PodCleanup>(start, before) == start);
    } else {
        assert(before[0] == answers[0]);
        lemma_pod_cleanup(pod, eips, before);
        assert(answers.skip(1).drop_last() =~= before.skip(1));
        assert(answers.skip(1).last() == answers.last());
        match run::<PodCleanup>(start, before) {
            Progress::Pending(state) => {
                lemma_just_answered::<PodCleanup>(start, answers, PodCleanup::ask(state));
            },
            Progress::Finished(Ok(_)) => {
                if pod.wants_eip() {
                    lemma_was_answered::<PodCleanup>(
                        start,
                        answers,
                        delete_request(pod),
                        Ok(ReplyView::Done),
                    );
                }
            },
            _ => {},
        }
    }
}

/// The request that deletes the `Eip` that was created for the pod.
pub open spec fn delete_request(pod: PodView) -> RequestView {
    RequestView::DeleteEip { namespace: pod.namespace->0, name: pod.name->0 }
}

/// What detaching asked for and was answered, cleaning up behind the pod asked for and was
/// answered.
proof fn lemma_pod_cleanup_asks(
    pod: PodView,
    eips: Seq<EipView>,
    answers: Seq<Result<ReplyView, Error>>,
    request: RequestView,
    answer: Result<ReplyView, Error>,
)
    requires
        pod.name is Some,
        pod.namespace is Some,
        answers.len() > 0,
        answers[0] == Ok::<ReplyView, Error>(ReplyView::Eips(eips)),
        is_history::<PodCleanup>(start_pod_cleanup(pod), answers),
        was_answered::<Detach>(pod_detach(pod, eips), answers.skip(1), request, answer),
    ensures
        was_answered::<PodCleanup>(start_pod_cleanup(pod), answers, request, answer),
{
    let rest = answers.skip(1);
    let k = choose|k: int|
        0 <= k < rest.len() && #[trigger] rest[k] == answer && asked::<Detach>(
            pod_detach(pod, eips),
            rest.take(k),
        ) == Some(request);
    let prefix = answers.take(k + 1);
    lemma_history_prefix::<PodCleanup>(start_pod_cleanup(pod), answers, k + 1);
    assert(prefix[0] == answers[0]);
    lemma_pod_cleanup(pod, eips, prefix);
    assert(prefix.skip(1) =~= rest.take(k));
    assert(answers[k + 1] == answer);
}

/// Cleaning up behind a pod succeeds only once every `Eip` that the pod claims has been recorded as
/// detached, and the `Eip` that was created for the pod, if any, has been deleted.
pub proof fn law_pod_cleanup_is_complete(
    pod: PodView,
    eips: Seq<EipView>,
    answers: Seq<Result<ReplyView, Error>>,
    outcome: Option<Action>,
)
    requires
        pod.name is Some,
        pod.namespace is Some,
        answers.len() > 0,
        answers[0] == Ok::<ReplyView, Error>(ReplyView::Eips(eips)),
        is_history::<PodCleanup>(start_pod_cleanup(pod), answers),
        run::<PodCleanup>(start_pod_cleanup(pod), answers) == Progress::<
            PodCleanupView,
            Option<Action>,
        >::Finished(Ok(outcome)),
    ensures
        outcome is None,
        forall|eip: EipView|
            eips.contains(eip) && eip.is_claimed_by(pod.name->0) ==> #[trigger] was_answered::<
                PodCleanup,
            >(
                start_pod_cleanup(pod),
                answers,
                RequestView::SetStatusDetached {
                    scope: ApiScopeView::Namespaced(pod.namespace->0),
                    eip,
                },
                Ok(ReplyView::Done),
            ),
        pod.wants_eip() ==> was_answered::<PodCleanup>(
            start_pod_cleanup(pod),
            answers,
            delete_request(pod),
            Ok(ReplyView::Done),
        ),
{
    let scope = ApiScopeView::Namespaced(pod.namespace->0);
    let mine = claimed_by(eips, pod.name->0);
    lemma_pod_cleanup(pod, eips, answers);
    law_detach_covers_every_eip(scope, mine, answers.skip(1));
    assert forall|eip: EipView|
        eips.contains(eip) && eip.is_claimed_by(pod.name->0) implies #[trigger] was_answered::<
        PodCleanup,
    >(
        start_pod_cleanup(pod),
        answers,
        RequestView::SetStatusDetached { scope, eip },
        Ok(ReplyView::Done),
    ) by {
        lemma_filter_members(eips, |e: EipView| e.is_claimed_by(pod.name->0));
        assert(mine.contains(eip));
        let i = choose|i: int| 0 <= i < mine.len() && mine[i] == eip;
        assert(was_recorded(scope, mine, answers.skip(1), mine[i]));
        lemma_pod_cleanup_asks(
            pod,
            eips,
            answers,
            RequestView::SetStatusDetached { scope, eip },
            Ok(ReplyView::Done),
        );
    }
}

/// The `Eip` that was created for a pod is deleted only where the pod asked for it, and only once
/// everything that the pod claims is detached.
pub proof fn law_pod_cleanup_deletes_last(
    pod: PodView,
    eips: Seq<EipView>,
    answers: Seq<Result<ReplyView, Error>>,
    namespace: Seq<char>,
    name: Seq<char>,
)
    requires
        pod.name is Some,
        pod.namespace is Some,
        answers.len() > 0,
        answers[0] == Ok::<ReplyView, Error>(ReplyView::Eips(eips)),
        is_history::<PodCleanup>(start_pod_cleanup(pod), answers),
        asked::<PodCleanup>(start_pod_cleanup(pod), answers) == Some(
            RequestView::DeleteEip { namespace, name },
        ),
    ensures
        pod.wants_eip(),
        Some(namespace) == pod.namespace,
        Some(name) == pod.name,
        is_history::<Detach>(pod_detach(pod, eips), answers.skip(1)),
        succeeded::<Detach>(pod_detach(pod, eips), answers.skip(1)),
{
    lemma_pod_cleanup(pod, eips, answers);
}

/// How detaching starts once the `Eip`s have been listed for a node.
pub open spec fn node_detach(
    node: NodeView,
    namespace: Option<Seq<char>>,
    eips: Seq<EipView>,
) -> Progress<DetachView, ()> {
    start_detach(
        scope_of(namespace),
        claimed_by(for_node(eips, node.labels), node.name->0),
    )
}

/// The request that closes a node for traffic that leaves the cluster.
pub open spec fn close_request(node: NodeView) -> RequestView {
    RequestView::ApplyToNode {
        name: node.name->0,
        patch: gateway_status_patch(Some("false"@)),
    }
}

/// While addresses are being detached, cleaning up behind a node is detaching; it fails as
/// detaching fails; and it goes on to the label of the node once detaching is done.
proof fn lemma_node_cleanup(
    node: NodeView,
    namespace: Option<Seq<char>>,
    eips: Seq<EipView>,
    answers: Seq<Result<ReplyView, Error>>,
)
    requires
        node.name is Some,
        answers.len() > 0,
        answers[0] == Ok::<ReplyView, Error>(ReplyView::Eips(eips)),
        is_history::<NodeCleanup>(start_node_cleanup(node, namespace), answers),
    ensures
        is_history::<Detach>(node_detach(node, namespace, eips), answers.skip(1)),
        match run::<Detach>(node_detach(node, namespace, eips), answers.skip(1)) {
            Progress::Pending(detach) => run::<NodeCleanup>(
                start_node_cleanup(node, namespace),
                answers,
            ) == Progress::<NodeCleanupView, Option<Action>>::Pending(
                NodeCleanupView::Detaching { name: node.name->0, detach },
            ),
            Progress::Finished(Err(e)) => run::<NodeCleanup>(
                start_node_cleanup(node, namespace),
                answers,
            ) == Progress::<NodeCleanupView, Option<Action>>::Finished(Err(e)),
            Progress::Finished(Ok(_)) => match run::<NodeCleanup>(
                start_node_cleanup(node, namespace),
                answers,
            ) {
                Progress::Pending(state) => state == (NodeCleanupView::Labelling {
                    name: node.name->0,
                }),
                Progress::Finished(Ok(outcome)) => outcome is None && was_answered::<NodeCleanup>(
                    start_node_cleanup(node, namespace),
                    answers,
                    close_request(node),
                    Ok(ReplyView::Done),
                ),
                Progress::Finished(Err(_)) => true,
            },
        },
    decreases answers.len(),
{
    let start = start_node_cleanup(node, namespace);
    let before = answers.drop_last();
    if answers.len() == 1 {
        assert(answers.skip(1) =~= Seq::empty());
        assert(before =~= Seq::empty());
        assert(run::<NodeCleanup>(start, before) == start);
    } else {
        assert(before[0] == answers[0]);
        lemma_node_cleanup(node, namespace, eips, before);
        assert(answers.skip(1).drop_last() =~= before.skip(1));
        assert(answers.skip(1).last() == answers.last());
        match run::<NodeCleanup>(start, before) {
            Progress::Pending(state) => {
                lemma_just_answered::<NodeCleanup>(start, answers, NodeCleanup::ask(state));
            },
            Progress::Finished(Ok(_)) => {
                lemma_was_answered::<NodeCleanup>(
                    start,
                    answers,
                    close_request(node),
                    Ok(ReplyView::Done),
                );
            },
            _ => {},
        }
    }
}

/// What detaching asked for and was answered, cleaning up behind the node asked for and was
/// answered.
proof fn lemma_node_cleanup_asks(
    node: NodeView,
    namespace: Option<Seq<char>>,
    eips: Seq<EipView>,
    answers: Seq<Result<ReplyView, Error>>,
    request: RequestView,
    answer: Result<ReplyView, Error>,
)
    requires
        node.name is Some,
        answers.len() > 0,
        answers[0] == Ok::<ReplyView, Error>(ReplyView::Eips(eips)),
        is_history::<NodeCleanup>(start_node_cleanup(node, namespace), answers),
        was_answered::<Detach>(
            node_detach(node, namespace, eips),
            answers.skip(1),
            request,
            answer,
        ),
    ensures
        was_answered::<NodeCleanup>(start_node_cleanup(node, namespace), answers, request, answer),
{
    let rest = answers.skip(1);
    let k = choose|k: int|
        0 <= k < rest.len() && #[trigger] rest[k] == answer && asked::<Detach>(
            node_detach(node, namespace, eips),
            rest.take(k),
        ) == Some(request);
    let prefix = answers.take(k + 1);
    lemma_history_prefix::<NodeCleanup>(start_node_cleanup(node, namespace), answers, k + 1);
    assert(prefix[0] == answers[0]);
    lemma_node_cleanup(node, namespace, eips, prefix);
    assert(prefix.skip(1) =~= rest.take(k));
    assert(answers[k + 1] == answer);
}

/// Cleaning up behind a node succeeds only once every `Eip` that selects the node and that the node
/// claims has been recorded as detached, and the node has been closed for traffic that leaves the
/// cluster.
pub proof fn law_node_cleanup_is_complete(
    node: NodeView,
    namespace: Option<Seq<char>>,
    eips: Seq<EipView>,
    answers: Seq<Result<ReplyView, Error>>,
    outcome: Option<Action>,
)
    requires
        node.name is Some,
        answers.len() > 0,
        answers[0] == Ok::<ReplyView, Error>(ReplyView::Eips(eips)),
        is_history::<NodeCleanup>(start_node_cleanup(node, namespace), answers),
        run::<NodeCleanup>(start_node_cleanup(node, namespace), answers) == Progress::<
            NodeCleanupView,
            Option<Action>,
        >::Finished(Ok(outcome)),
    ensures
        outcome is None,
        forall|eip: EipView|
            eips.contains(eip) && eip.matches_node(node.labels) && eip.is_claimed_by(node.name->0)
                ==> #[trigger] was_answered::<NodeCleanup>(
                start_node_cleanup(node, namespace),
                answers,
                RequestView::SetStatusDetached {
                    scope: eip.scope_within(scope_of(namespace)),
                    eip,
                },
                Ok(ReplyView::Done),
            ),
        was_answered::<NodeCleanup>(
            start_node_cleanup(node, namespace),
            answers,
            close_request(node),
            Ok(ReplyView::Done),
        ),
{
    let scope = scope_of(namespace);
    let selected = for_node(eips, node.labels);
    let mine = claimed_by(selected, node.name->0);
    lemma_node_cleanup(node, namespace, eips, answers);
    law_detach_covers_every_eip(scope, mine, answers.skip(1));
    assert forall|eip: EipView|
        eips.contains(eip) && eip.matches_node(node.labels) && eip.is_claimed_by(
            node.name->0,
        ) implies #[trigger] was_answered::<NodeCleanup>(
        start_node_cleanup(node, namespace),
        answers,
        RequestView::SetStatusDetached { scope: eip.scope_within(scope), eip },
        Ok(ReplyView::Done),
    ) by {
        lemma_filter_members(eips, |e: EipView| e.matches_node(node.labels));
        lemma_filter_members(selected, |e: EipView| e.is_claimed_by(node.name->0));
        assert(selected.contains(eip));
        assert(mine.contains(eip));
        let i = choose|i: int| 0 <= i < mine.len() && mine[i] == eip;
        assert(was_recorded(scope, mine, answers.skip(1), mine[i]));
        lemma_node_cleanup_asks(
            node,
            namespace,
            eips,
            answers,
            RequestView::SetStatusDetached { scope: eip.scope_within(scope), eip },
            Ok(ReplyView::Done),
        );
    }
}

/// The address of an `Eip` survives the pod: cleaning up behind a pod gives no address back, and
/// deletes an `Eip` only where the pod asked for it.
pub proof fn law_address_survives_its_pod(pod: PodView, answers: Seq<Result<ReplyView, Error>>)
    requires
        is_history::<PodCleanup>(start_pod_cleanup(pod), answers),
    ensures
        asked::<PodCleanup>(start_pod_cleanup(pod), answers) matches Some(request)
            ==> request !is ReleaseAddress && (request is DeleteEip ==> pod.wants_eip()),
{
    lemma_autocreated(pod, answers);
}

proof fn lemma_autocreated(pod: PodView, answers: Seq<Result<ReplyView, Error>>)
    requires
        is_history::<PodCleanup>(start_pod_cleanup(pod), answers),
    ensures
        run::<PodCleanup>(start_pod_cleanup(pod), answers) matches Progress::Pending(state)
            ==> match state {
            PodCleanupView::ListingEips { autocreated, .. } => autocreated == pod.wants_eip(),
            PodCleanupView::Detaching { autocreated, .. } => autocreated == pod.wants_eip(),
            PodCleanupView::Deleting { .. } => pod.wants_eip(),
        },
    decreases answers.len(),
{
    if answers.len() > 0 {
        lemma_autocreated(pod, answers.drop_last());
    }
}

/// The address of an `Eip` survives the node: cleaning up behind a node gives no address back and
/// deletes no `Eip`.
pub proof fn law_address_survives_its_node(
    node: NodeView,
    namespace: Option<Seq<char>>,
    answers: Seq<Result<ReplyView, Error>>,
)
    requires
        is_history::<NodeCleanup>(start_node_cleanup(node, namespace), answers),
    ensures
        asked::<NodeCleanup>(start_node_cleanup(node, namespace), answers) matches Some(request)
            ==> request !is ReleaseAddress && request !is DeleteEip,
{
}

} // verus!

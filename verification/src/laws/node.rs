//! What holds of reconciling nodes.
use crate::aws::AddressView;
use crate::controller::node::{
    is_conflict, start_apply, NodeApply, NodeApplyView, NodeClaimView, NodeTargetView,
};
use crate::eip::{claimed_by, first_claimable, for_node, EipView};
use crate::error::Error;
use crate::kube_ext::NodeView;
use crate::laws::lookup::{
    is_open_to, law_eips_are_chosen_one_by_one, law_node_takes_the_first_open_eip, selects,
};
use crate::operation::{
    asked, is_history, lemma_just_answered, lemma_was_answered, requeue_after_secs, run, scope_of,
    succeeded, was_answered, Action, ApiScopeView, Operation, Progress, ReplyView, RequestView,
};
use crate::search::{law_first_where, lemma_filter_members};
use vstd::prelude::*;

verus! {

/// Whether a target is the node.
pub open spec fn is_target(
    node: NodeView,
    namespace: Option<Seq<char>>,
    target: NodeTargetView,
) -> bool {
    &&& Some(target.name) == node.name
    &&& target.scope == scope_of(namespace)
    &&& Some(target.node_ip) == node.ip()
}

/// Whether an `Eip` is one that the node may claim: it selects the node, and nothing else claims
/// it.
pub open spec fn is_free_for(node: NodeView, eip: EipView) -> bool {
    eip.matches_node(node.labels) && eip.is_claimable_by(node.name->0)
}

/// Whether an `Eip` is one that the node has a claim to: it selects the node, and the node claims
/// it.
pub open spec fn is_claim_of(node: NodeView, eip: EipView) -> bool {
    eip.matches_node(node.labels) && eip.is_claimed_by(node.name->0)
}

/// Whether a claim is one that the node may make.
pub open spec fn is_claim(node: NodeView, claim: NodeClaimView) -> bool {
    &&& node.ready_status() == Some("True"@)
    &&& is_free_for(node, claim.eip)
    &&& claim.eip.name == Some(claim.eip_name)
    &&& claim.eip.allocation_id() == Some(claim.allocation_id)
}

/// The request that claims an `Eip` for the node.
pub open spec fn claim_request(
    node: NodeView,
    namespace: Option<Seq<char>>,
    eip: EipView,
    eni_id: Seq<char>,
    private_ip: Seq<char>,
) -> RequestView {
    RequestView::SetStatusShouldAttach {
        scope: eip.scope_within(scope_of(namespace)),
        eip,
        eni_id,
        private_ip,
        resource_id: node.name->0,
    }
}

/// Whether the address of a claim was described as `addresses`.
pub open spec fn was_described(
    node: NodeView,
    namespace: Option<Seq<char>>,
    answers: Seq<Result<ReplyView, Error>>,
    claim: NodeClaimView,
    addresses: Seq<AddressView>,
) -> bool {
    &&& addresses.len() > 0
    &&& was_answered::<NodeApply>(
        start_apply(node, namespace),
        answers,
        RequestView::DescribeAddress { allocation_id: claim.allocation_id },
        Ok(ReplyView::Addresses(Some(addresses))),
    )
}

/// Whether the address of a claim was described as not attached to the node.
pub open spec fn is_elsewhere(
    node: NodeView,
    namespace: Option<Seq<char>>,
    answers: Seq<Result<ReplyView, Error>>,
    claim: NodeClaimView,
    eni_id: Seq<char>,
) -> bool {
    exists|addresses: Seq<AddressView>| #[trigger]
        was_described(node, namespace, answers, claim, addresses) && !addresses[0].is_attached_to(
            eni_id,
            node.ip()->0,
        )
}

spec fn is_grounded(
    node: NodeView,
    namespace: Option<Seq<char>>,
    answers: Seq<Result<ReplyView, Error>>,
    state: NodeApplyView,
) -> bool {
    match state {
        NodeApplyView::ListingEips { target, labels, ready_status } => is_target(
            node,
            namespace,
            target,
        ) && labels == node.labels && ready_status == node.ready_status() && answers.len() == 0,
        NodeApplyView::Releasing { scope, eip, rest } => scope == scope_of(namespace)
            && is_claim_of(node, eip) && node.ready_status() != Some("True"@) && forall|i: int|
            0 <= i < rest.len() ==> is_claim_of(node, #[trigger] rest[i]),
        NodeApplyView::DescribingAddress { target, claim } => is_target(node, namespace, target)
            && is_claim(node, claim),
        NodeApplyView::DescribingInstance { target, claim, address } => is_target(
            node,
            namespace,
            target,
        ) && is_claim(node, claim) && exists|addresses: Seq<AddressView>| #[trigger]
            was_described(node, namespace, answers, claim, addresses) && addresses[0] == address,
        NodeApplyView::Claiming { target, claim, eni_id } => is_target(node, namespace, target)
            && is_claim(node, claim) && is_elsewhere(node, namespace, answers, claim, eni_id),
        NodeApplyView::Associating { target, claim, eni_id } => is_target(node, namespace, target)
            && is_claim(node, claim) && is_elsewhere(node, namespace, answers, claim, eni_id)
            && was_claimed(node, namespace, answers, claim, eni_id),
        NodeApplyView::RecordingAssociation { target, claim, association_id } => is_target(
            node,
            namespace,
            target,
        ) && is_claim(node, claim) && is_associated(
            node,
            namespace,
            answers,
            claim.eip_name,
            association_id,
        ),
    }
}

/// Whether the `Eip` of a claim was claimed for the node.
pub open spec fn was_claimed(
    node: NodeView,
    namespace: Option<Seq<char>>,
    answers: Seq<Result<ReplyView, Error>>,
    claim: NodeClaimView,
    eni_id: Seq<char>,
) -> bool {
    was_answered::<NodeApply>(
        start_apply(node, namespace),
        answers,
        claim_request(node, namespace, claim.eip, eni_id, node.ip()->0),
        Ok(ReplyView::Done),
    )
}

/// Whether the address of a claim was associated with the node.
pub open spec fn was_associated(
    node: NodeView,
    namespace: Option<Seq<char>>,
    answers: Seq<Result<ReplyView, Error>>,
    claim: NodeClaimView,
    eni_id: Seq<char>,
    association_id: Seq<char>,
) -> bool {
    was_answered::<NodeApply>(
        start_apply(node, namespace),
        answers,
        RequestView::AssociateAddress {
            allocation_id: claim.allocation_id,
            eni_id,
            private_ip: node.ip()->0,
        },
        Ok(ReplyView::Associated(Some(association_id))),
    )
}

/// Whether an association is that of the address of an `Eip` of that name, which was claimed for
/// the node and associated with it.
pub open spec fn is_associated(
    node: NodeView,
    namespace: Option<Seq<char>>,
    answers: Seq<Result<ReplyView, Error>>,
    eip_name: Seq<char>,
    association_id: Seq<char>,
) -> bool {
    exists|claim: NodeClaimView, eni_id: Seq<char>| #[trigger]
        was_associated(node, namespace, answers, claim, eni_id, association_id) && is_claim(
            node,
            claim,
        ) && claim.eip_name == eip_name && was_claimed(node, namespace, answers, claim, eni_id)
}

proof fn lemma_elsewhere_later(
    node: NodeView,
    namespace: Option<Seq<char>>,
    answers: Seq<Result<ReplyView, Error>>,
    claim: NodeClaimView,
    eni_id: Seq<char>,
)
    requires
        answers.len() > 0,
        is_elsewhere(node, namespace, answers.drop_last(), claim, eni_id),
    ensures
        is_elsewhere(node, namespace, answers, claim, eni_id),
{
    let before = answers.drop_last();
    let addresses = choose|addresses: Seq<AddressView>| #[trigger]
        was_described(node, namespace, before, claim, addresses) && !addresses[0].is_attached_to(
            eni_id,
            node.ip()->0,
        );
    lemma_was_answered::<NodeApply>(
        start_apply(node, namespace),
        answers,
        RequestView::DescribeAddress { allocation_id: claim.allocation_id },
        Ok(ReplyView::Addresses(Some(addresses))),
    );
    assert(was_described(node, namespace, answers, claim, addresses));
}

proof fn lemma_first_claimable(node: NodeView, eips: Seq<EipView>)
    ensures
        first_claimable(for_node(eips, node.labels), node.name->0) matches Some(eip)
            ==> is_free_for(node, eip) && eips.contains(eip),
{
    let matched = for_node(eips, node.labels);
    law_first_where(matched, |e: EipView| e.is_claimable_by(node.name->0));
    lemma_filter_members(eips, |e: EipView| e.matches_node(node.labels));
}

proof fn lemma_grounded(
    node: NodeView,
    namespace: Option<Seq<char>>,
    answers: Seq<Result<ReplyView, Error>>,
)
    requires
        node.name is Some,
        is_history::<NodeApply>(start_apply(node, namespace), answers),
    ensures
        run::<NodeApply>(start_apply(node, namespace), answers) matches Progress::Pending(state)
            ==> is_grounded(node, namespace, answers, state),
    decreases answers.len(),
{
    let start = start_apply(node, namespace);
    if answers.len() > 0 {
        let before = answers.drop_last();
        lemma_grounded(node, namespace, before);
        if let Progress::Pending(state) = run::<NodeApply>(start, before) {
            lemma_just_answered::<NodeApply>(start, answers, NodeApply::ask(state));
            match (state, answers.last()) {
                (NodeApplyView::ListingEips { .. }, Ok(ReplyView::Eips(eips))) => {
                    lemma_first_claimable(node, eips);
                    let mine = claims_of(node, eips);
                    assert forall|i: int| 0 <= i < mine.len() implies is_claim_of(
                        node,
                        #[trigger] mine[i],
                    ) by {
                        lemma_claims_of(node, eips, mine[i]);
                        assert(mine.contains(mine[i]));
                    }
                },
                (
                    NodeApplyView::DescribingAddress { claim, .. },
                    Ok(ReplyView::Addresses(Some(addresses))),
                ) => {
                    assert(was_described(node, namespace, answers, claim, addresses));
                },
                (
                    NodeApplyView::DescribingInstance { claim, address, .. },
                    Ok(ReplyView::Instances(_)),
                ) => {
                    let addresses = choose|addresses: Seq<AddressView>| #[trigger]
                        was_described(node, namespace, before, claim, addresses) && addresses[0]
                            == address;
                    lemma_was_answered::<NodeApply>(
                        start,
                        answers,
                        RequestView::DescribeAddress { allocation_id: claim.allocation_id },
                        Ok(ReplyView::Addresses(Some(addresses))),
                    );
                    assert(was_described(node, namespace, answers, claim, addresses));
                },
                (NodeApplyView::Claiming { claim, eni_id, .. }, Ok(ReplyView::Done)) => {
                    lemma_elsewhere_later(node, namespace, answers, claim, eni_id);
                    assert(was_claimed(node, namespace, answers, claim, eni_id));
                },
                (
                    NodeApplyView::Associating { claim, eni_id, .. },
                    Ok(ReplyView::Associated(Some(association_id))),
                ) => {
                    lemma_was_answered::<NodeApply>(
                        start,
                        answers,
                        claim_request(node, namespace, claim.eip, eni_id, node.ip()->0),
                        Ok(ReplyView::Done),
                    );
                    assert(was_associated(
                        node,
                        namespace,
                        answers,
                        claim,
                        eni_id,
                        association_id,
                    ));
                },
                _ => {},
            }
        }
    }
}

/// A node claims only an `Eip` that selects it and that nothing else claims, and only while it is
/// ready; and only if the address of the `Eip` was described as attached elsewhere or nowhere.
pub proof fn law_node_claims_only_what_is_free(
    node: NodeView,
    namespace: Option<Seq<char>>,
    answers: Seq<Result<ReplyView, Error>>,
    scope: ApiScopeView,
    eip: EipView,
    eni_id: Seq<char>,
    private_ip: Seq<char>,
    resource_id: Seq<char>,
)
    requires
        node.name is Some,
        is_history::<NodeApply>(start_apply(node, namespace), answers),
        asked::<NodeApply>(start_apply(node, namespace), answers) == Some(
            RequestView::SetStatusShouldAttach { scope, eip, eni_id, private_ip, resource_id },
        ),
    ensures
        node.ready_status() == Some("True"@),
        is_free_for(node, eip),
        node.name == Some(resource_id),
        node.ip() == Some(private_ip),
        scope == eip.scope_within(scope_of(namespace)),
        eip.allocation_id() is Some,
        exists|addresses: Seq<AddressView>| #[trigger]
            was_answered::<NodeApply>(
                start_apply(node, namespace),
                answers,
                RequestView::DescribeAddress { allocation_id: eip.allocation_id()->0 },
                Ok(ReplyView::Addresses(Some(addresses))),
            ) && addresses.len() > 0 && !addresses[0].is_attached_to(eni_id, private_ip),
{
    lemma_grounded(node, namespace, answers);
    let state = run::<NodeApply>(start_apply(node, namespace), answers)->Pending_0;
    let claim = state->Claiming_claim;
    let addresses = choose|addresses: Seq<AddressView>| #[trigger]
        was_described(node, namespace, answers, claim, addresses) && !addresses[0].is_attached_to(
            eni_id,
            node.ip()->0,
        );
    assert(was_described(node, namespace, answers, claim, addresses));
}

/// An address is associated with a node only right after its `Eip` was claimed for the node, with
/// the very interface and private address.
pub proof fn law_node_claims_before_it_associates(
    node: NodeView,
    namespace: Option<Seq<char>>,
    answers: Seq<Result<ReplyView, Error>>,
    allocation_id: Seq<char>,
    eni_id: Seq<char>,
    private_ip: Seq<char>,
)
    requires
        node.name is Some,
        is_history::<NodeApply>(start_apply(node, namespace), answers),
        asked::<NodeApply>(start_apply(node, namespace), answers) == Some(
            RequestView::AssociateAddress { allocation_id, eni_id, private_ip },
        ),
    ensures
        node.ip() == Some(private_ip),
        answers.len() > 0,
        answers.last() == Ok::<ReplyView, Error>(ReplyView::Done),
        exists|eip: EipView|
            eip.allocation_id() == Some(allocation_id) && asked::<NodeApply>(
                start_apply(node, namespace),
                answers.drop_last(),
            ) == Some(#[trigger] claim_request(node, namespace, eip, eni_id, private_ip)),
{
    let start = start_apply(node, namespace);
    lemma_grounded(node, namespace, answers);
    let before = answers.drop_last();
    lemma_grounded(node, namespace, before);
    let earlier = run::<NodeApply>(start, before)->Pending_0;
    assert(earlier is Claiming);
    let claim = earlier->Claiming_claim;
    assert(NodeApply::ask(earlier) == claim_request(
        node,
        namespace,
        claim.eip,
        eni_id,
        private_ip,
    ));
}

/// A node that is not ready neither claims an `Eip` nor gets an address associated.
pub proof fn law_unready_node_claims_nothing(
    node: NodeView,
    namespace: Option<Seq<char>>,
    answers: Seq<Result<ReplyView, Error>>,
)
    requires
        node.name is Some,
        node.ready_status() != Some("True"@),
        is_history::<NodeApply>(start_apply(node, namespace), answers),
    ensures
        asked::<NodeApply>(start_apply(node, namespace), answers) matches Some(request)
            ==> request !is SetStatusShouldAttach && request !is AssociateAddress
            && request !is SetStatusAssociationId,
{
    lemma_grounded(node, namespace, answers);
}

/// The request that records an `Eip` as detached.
pub open spec fn detach_request(namespace: Option<Seq<char>>, eip: EipView) -> RequestView {
    RequestView::SetStatusDetached { scope: eip.scope_within(scope_of(namespace)), eip }
}

/// Whether that an `Eip` is detached was recorded in its status.
pub open spec fn was_detached(
    node: NodeView,
    namespace: Option<Seq<char>>,
    answers: Seq<Result<ReplyView, Error>>,
    eip: EipView,
) -> bool {
    was_answered::<NodeApply>(
        start_apply(node, namespace),
        answers,
        detach_request(namespace, eip),
        Ok(ReplyView::Done),
    )
}

/// The `Eip`s that select a node and that it claims.
pub open spec fn claims_of(node: NodeView, eips: Seq<EipView>) -> Seq<EipView> {
    claimed_by(for_node(eips, node.labels), node.name->0)
}

proof fn lemma_claims_of(node: NodeView, eips: Seq<EipView>, eip: EipView)
    ensures
        claims_of(node, eips).contains(eip) <==> eips.contains(eip) && eip.matches_node(node.labels)
            && eip.is_claimed_by(node.name->0),
{
    let selected = for_node(eips, node.labels);
    lemma_filter_members(eips, |e: EipView| e.matches_node(node.labels));
    lemma_filter_members(selected, |e: EipView| e.is_claimed_by(node.name->0));
    assert(selected.contains(eip) <==> eips.contains(eip) && eip.matches_node(node.labels));
}

/// Whether the claims of a node are being given up in order: those before the current one have
/// been recorded as detached.
spec fn is_giving_up(
    node: NodeView,
    namespace: Option<Seq<char>>,
    eips: Seq<EipView>,
    answers: Seq<Result<ReplyView, Error>>,
    state: NodeApplyView,
) -> bool {
    match state {
        NodeApplyView::Releasing { scope, eip, rest } => {
            let mine = claims_of(node, eips);
            let at = mine.len() - rest.len() - 1;
            &&& scope == scope_of(namespace)
            &&& 0 <= at
            &&& eip == mine[at]
            &&& rest == mine.skip(at + 1)
            &&& forall|i: int|
                0 <= i < at ==> was_detached(node, namespace, answers, #[trigger] mine[i])
        },
        _ => false,
    }
}

proof fn lemma_gives_up(
    node: NodeView,
    namespace: Option<Seq<char>>,
    eips: Seq<EipView>,
    answers: Seq<Result<ReplyView, Error>>,
)
    requires
        node.name is Some,
        node.ready_status() != Some("True"@),
        answers.len() > 0,
        answers[0] == Ok::<ReplyView, Error>(ReplyView::Eips(eips)),
        is_history::<NodeApply>(start_apply(node, namespace), answers),
    ensures
        match run::<NodeApply>(start_apply(node, namespace), answers) {
            Progress::Pending(state) => is_giving_up(node, namespace, eips, answers, state),
            Progress::Finished(Ok(outcome)) => outcome is None && forall|i: int|
                0 <= i < claims_of(node, eips).len() ==> was_detached(
                    node,
                    namespace,
                    answers,
                    #[trigger] claims_of(node, eips)[i],
                ),
            Progress::Finished(Err(_)) => true,
        },
    decreases answers.len(),
{
    let start = start_apply(node, namespace);
    let mine = claims_of(node, eips);
    let before = answers.drop_last();
    if answers.len() == 1 {
        assert(before =~= Seq::empty());
        assert(run::<NodeApply>(start, before) == start);
        if mine.len() > 0 {
            assert(mine.drop_first() =~= mine.skip(1));
        }
    } else {
        assert(before[0] == answers[0]);
        lemma_gives_up(node, namespace, eips, before);
        assert forall|i: int|
            0 <= i < mine.len() && was_detached(node, namespace, before, mine[i]) implies
            was_detached(node, namespace, answers, #[trigger] mine[i]) by {
            lemma_was_answered::<NodeApply>(
                start,
                answers,
                detach_request(namespace, mine[i]),
                Ok(ReplyView::Done),
            );
        }
        if let Progress::Pending(state) = run::<NodeApply>(start, before) {
            lemma_just_answered::<NodeApply>(start, answers, NodeApply::ask(state));
            let rest = state->Releasing_rest;
            let at = mine.len() - rest.len() - 1;
            if answers.last() is Ok {
                assert(was_detached(node, namespace, answers, mine[at]));
                if rest.len() > 0 {
                    assert(rest.drop_first() =~= mine.skip(at + 2));
                    assert(rest[0] == mine[at + 1]);
                }
            }
        }
    }
}

/// A node that is not ready keeps no claim: reconciling it succeeds only once every `Eip` that
/// selects it and that it claims has been recorded as detached.
pub proof fn law_unready_node_gives_up_every_claim(
    node: NodeView,
    namespace: Option<Seq<char>>,
    eips: Seq<EipView>,
    answers: Seq<Result<ReplyView, Error>>,
)
    requires
        node.name is Some,
        node.ready_status() != Some("True"@),
        answers.len() > 0,
        answers[0] == Ok::<ReplyView, Error>(ReplyView::Eips(eips)),
        is_history::<NodeApply>(start_apply(node, namespace), answers),
        succeeded::<NodeApply>(start_apply(node, namespace), answers),
    ensures
        forall|i: int|
            0 <= i < eips.len() && (#[trigger] eips[i]).matches_node(node.labels)
                && eips[i].is_claimed_by(node.name->0) ==> was_answered::<NodeApply>(
                start_apply(node, namespace),
                answers,
                detach_request(namespace, eips[i]),
                Ok(ReplyView::Done),
            ),
{
    let mine = claims_of(node, eips);
    lemma_gives_up(node, namespace, eips, answers);
    assert forall|i: int|
        0 <= i < eips.len() && (#[trigger] eips[i]).matches_node(node.labels)
            && eips[i].is_claimed_by(node.name->0) implies was_detached(
        node,
        namespace,
        answers,
        eips[i],
    ) by {
        lemma_claims_of(node, eips, eips[i]);
        assert(eips.contains(eips[i]));
        let k = choose|k: int| 0 <= k < mine.len() && mine[k] == eips[i];
        assert(was_detached(node, namespace, answers, mine[k]));
    }
}

/// A node gives up no `Eip` but one that selects it and that it claims, and only while it is not
/// ready.
pub proof fn law_node_gives_up_only_its_own_claims(
    node: NodeView,
    namespace: Option<Seq<char>>,
    answers: Seq<Result<ReplyView, Error>>,
    scope: ApiScopeView,
    eip: EipView,
)
    requires
        node.name is Some,
        is_history::<NodeApply>(start_apply(node, namespace), answers),
        asked::<NodeApply>(start_apply(node, namespace), answers) == Some(
            RequestView::SetStatusDetached { scope, eip },
        ),
    ensures
        node.ready_status() != Some("True"@),
        eip.matches_node(node.labels),
        eip.is_claimed_by(node.name->0),
{
    lemma_grounded(node, namespace, answers);
}

/// A node that finds its claim overtaken looks for another `Eip` in three seconds; any other
/// failure ends the attempt with that very failure.
pub proof fn law_node_tries_again_when_overtaken(state: NodeApplyView, e: Error)
    ensures
        NodeApply::next(state, Err(e)) == (if state is Claiming && is_conflict(e) {
            Progress::<NodeApplyView, Option<Action>>::Finished(Ok(Some(requeue_after_secs(3))))
        } else {
            Progress::<NodeApplyView, Option<Action>>::Finished(Err(e))
        }),
{
}

/// The `Eip`s for a node are looked for in the namespace that is given, or else in all namespaces;
/// and the status of an `Eip` is set only where that `Eip` is: in the namespace that is given, or
/// else in its own.
pub proof fn law_node_keeps_to_the_namespace_of_the_eips(
    node: NodeView,
    namespace: Option<Seq<char>>,
    answers: Seq<Result<ReplyView, Error>>,
)
    requires
        node.name is Some,
        is_history::<NodeApply>(start_apply(node, namespace), answers),
    ensures
        asked::<NodeApply>(start_apply(node, namespace), answers) matches Some(request) ==> {
            &&& namespace matches Some(n) ==> request.is_within(n)
            &&& match request {
                RequestView::ListEips { scope } => scope == scope_of(namespace),
                RequestView::SetStatusShouldAttach { scope, eip, .. } => scope == eip.scope_within(
                    scope_of(namespace),
                ),
                RequestView::SetStatusDetached { scope, eip } => scope == eip.scope_within(
                    scope_of(namespace),
                ),
                RequestView::SetStatusAssociationId { scope, name, .. } => exists|eip: EipView|
                    is_free_for(node, eip) && eip.name == Some(name)
                        && #[trigger] eip.scope_within(scope_of(namespace)) == scope,
                _ => true,
            }
        },
{
    lemma_grounded(node, namespace, answers);
}

/// Where reconciling a ready node succeeds at once, either every `Eip` that selects the node is
/// taken or without a status, or the address that the node claims is attached to it: it was
/// described so, or it was associated and the association recorded.
pub proof fn law_node_success_means_attached(
    node: NodeView,
    namespace: Option<Seq<char>>,
    answers: Seq<Result<ReplyView, Error>>,
    state: NodeApplyView,
    answer: Result<ReplyView, Error>,
)
    requires
        node.name is Some,
        node.ready_status() == Some("True"@),
        is_history::<NodeApply>(start_apply(node, namespace), answers),
        run::<NodeApply>(start_apply(node, namespace), answers) == Progress::<
            NodeApplyView,
            Option<Action>,
        >::Pending(state),
        NodeApply::fits(state, answer),
        NodeApply::next(state, answer) == Progress::<NodeApplyView, Option<Action>>::Finished(
            Ok(None),
        ),
    ensures
        finds_nothing_free(node, state, answer) || finds_itself_attached(node, state, answer)
            || records_its_association(node, namespace, answers, state, answer),
{
    lemma_grounded(node, namespace, answers);
    match (state, answer) {
        (NodeApplyView::ListingEips { .. }, Ok(ReplyView::Eips(eips))) => {
            let matched = for_node(eips, node.labels);
            let claimable = |e: EipView| e.is_claimable_by(node.name->0);
            law_first_where(matched, claimable);
            lemma_filter_members(eips, |e: EipView| e.matches_node(node.labels));
            assert forall|i: int| 0 <= i < eips.len() implies !is_free_for(
                node,
                #[trigger] eips[i],
            ) by {
                if is_free_for(node, eips[i]) {
                    assert(eips.contains(eips[i]));
                    assert(matched.contains(eips[i]));
                    let k = choose|k: int| 0 <= k < matched.len() && matched[k] == eips[i];
                    assert(claimable(matched[k]));
                }
            }
        },
        _ => {},
    }
}

/// Whether the `Eip`s were just listed, and none is free for the node.
pub open spec fn finds_nothing_free(
    node: NodeView,
    state: NodeApplyView,
    answer: Result<ReplyView, Error>,
) -> bool {
    NodeApply::ask(state) is ListEips && match answer {
        Ok(ReplyView::Eips(eips)) => forall|i: int|
            0 <= i < eips.len() ==> !is_free_for(node, #[trigger] eips[i]),
        _ => false,
    }
}

/// Whether the instance was just described, and the address of the claim turns out to be attached
/// to the node.
pub open spec fn finds_itself_attached(
    node: NodeView,
    state: NodeApplyView,
    answer: Result<ReplyView, Error>,
) -> bool {
    match (state, answer) {
        (
            NodeApplyView::DescribingInstance { claim, address, .. },
            Ok(ReplyView::Instances(instances)),
        ) => is_claim(node, claim) && (instances.eni(node.ip()->0) matches Some(eni_id)
            && address.is_attached_to(eni_id, node.ip()->0)),
        _ => false,
    }
}

/// Whether the association of an address that the node claimed was just recorded.
pub open spec fn records_its_association(
    node: NodeView,
    namespace: Option<Seq<char>>,
    answers: Seq<Result<ReplyView, Error>>,
    state: NodeApplyView,
    answer: Result<ReplyView, Error>,
) -> bool {
    match NodeApply::ask(state) {
        RequestView::SetStatusAssociationId { name, association_id, .. } => is_associated(
            node,
            namespace,
            answers,
            name,
            association_id,
        ),
        _ => false,
    }
}

/// Whether the `Eip` at position `i` is the first of those listed that selects the node, and whose
/// status records no resource or the node itself.
pub open spec fn stands_first(node: NodeView, eips: Seq<EipView>, i: int) -> bool {
    &&& 0 <= i < eips.len()
    &&& selects(eips[i], node.labels) && is_open_to(eips[i], node.name->0)
    &&& forall|j: int|
        0 <= j < i ==> !(selects(#[trigger] eips[j], node.labels) && is_open_to(
            eips[j],
            node.name->0,
        ))
}

/// Whether a request is one about that `Eip` or its address, or about the instance of the node.
pub open spec fn concerns(request: RequestView, of: EipView) -> bool {
    match request {
        RequestView::DescribeAddress { allocation_id } => of.status is Some && (
        of.status->0).allocation_id == Some(allocation_id),
        RequestView::DescribeInstance { .. } => true,
        RequestView::SetStatusShouldAttach { eip, .. } => eip == of,
        RequestView::AssociateAddress { allocation_id, .. } => of.status is Some && (
        of.status->0).allocation_id == Some(allocation_id),
        RequestView::SetStatusAssociationId { name, .. } => of.name == Some(name),
        _ => false,
    }
}

/// The claim that an operation on a ready node is about.
spec fn claim_in(state: NodeApplyView) -> Option<NodeClaimView> {
    match state {
        NodeApplyView::DescribingAddress { claim, .. } => Some(claim),
        NodeApplyView::DescribingInstance { claim, .. } => Some(claim),
        NodeApplyView::Claiming { claim, .. } => Some(claim),
        NodeApplyView::Associating { claim, .. } => Some(claim),
        NodeApplyView::RecordingAssociation { claim, .. } => Some(claim),
        _ => None,
    }
}

proof fn lemma_taken(
    node: NodeView,
    namespace: Option<Seq<char>>,
    eips: Seq<EipView>,
    answers: Seq<Result<ReplyView, Error>>,
    i: int,
)
    requires
        node.name is Some,
        node.ready_status() == Some("True"@),
        answers.len() > 0,
        answers[0] == Ok::<ReplyView, Error>(ReplyView::Eips(eips)),
        is_history::<NodeApply>(start_apply(node, namespace), answers),
        stands_first(node, eips, i),
    ensures
        run::<NodeApply>(start_apply(node, namespace), answers) matches Progress::Pending(state)
            ==> (claim_in(state) matches Some(claim) && claim.eip == eips[i] && Some(claim.eip_name)
            == eips[i].name && Some(claim.allocation_id) == eips[i].allocation_id()),
    decreases answers.len(),
{
    let start = start_apply(node, namespace);
    let before = answers.drop_last();
    if answers.len() == 1 {
        assert(before =~= Seq::empty());
        assert(run::<NodeApply>(start, before) == start);
        law_node_takes_the_first_open_eip(eips, node.labels, node.name->0);
    } else {
        lemma_taken(node, namespace, eips, before, i);
    }
}

/// A ready node takes the `Eip` that stands first among those listed that select it and whose
/// status records no resource or the node itself, and makes requests about no other. In particular,
/// where the `Eip` that it already holds is listed before every free one, it keeps to that one.
pub proof fn law_ready_node_takes_the_first_eip_open_to_it(
    node: NodeView,
    namespace: Option<Seq<char>>,
    eips: Seq<EipView>,
    answers: Seq<Result<ReplyView, Error>>,
    i: int,
)
    requires
        node.name is Some,
        node.ready_status() == Some("True"@),
        answers.len() > 0,
        answers[0] == Ok::<ReplyView, Error>(ReplyView::Eips(eips)),
        is_history::<NodeApply>(start_apply(node, namespace), answers),
        stands_first(node, eips, i),
    ensures
        asked::<NodeApply>(start_apply(node, namespace), answers) matches Some(request)
            ==> concerns(request, eips[i]),
        answers.len() == 1 && start_apply(node, namespace) is Pending && eips[i].allocation_id()
            is Some ==> asked::<NodeApply>(start_apply(node, namespace), answers) == Some(
            RequestView::DescribeAddress { allocation_id: eips[i].allocation_id()->0 },
        ),
{
    lemma_taken(node, namespace, eips, answers, i);
    if answers.len() == 1 {
        let start = start_apply(node, namespace);
        assert(answers.drop_last() =~= Seq::empty());
        assert(run::<NodeApply>(start, answers.drop_last()) == start);
        law_node_takes_the_first_open_eip(eips, node.labels, node.name->0);
        lemma_selected(eips, node.labels, i);
    }
}

/// Where an `Eip` that is listed selects a node, the node is selected by one at least.
pub proof fn lemma_selected(
    eips: Seq<EipView>,
    labels: Option<Map<Seq<char>, Seq<char>>>,
    i: int,
)
    requires
        0 <= i < eips.len(),
        selects(eips[i], labels),
    ensures
        for_node(eips, labels).len() > 0,
    decreases eips.len(),
{
    let front = eips.drop_last();
    assert(eips =~= front.push(eips.last()));
    law_eips_are_chosen_one_by_one(front, eips.last(), Seq::empty(), labels);
    if i < front.len() {
        assert(front[i] == eips[i]);
        lemma_selected(front, labels, i);
    }
}

/// A node that none of the listed `Eip`s selects is refused, whether it is ready or not.
pub proof fn law_node_that_nothing_selects_is_refused(
    node: NodeView,
    namespace: Option<Seq<char>>,
    eips: Seq<EipView>,
)
    requires
        node.name is Some,
        start_apply(node, namespace) is Pending,
        forall|i: int| 0 <= i < eips.len() ==> !selects(#[trigger] eips[i], node.labels),
    ensures
        run::<NodeApply>(
            start_apply(node, namespace),
            seq![Ok::<ReplyView, Error>(ReplyView::Eips(eips))],
        ) == Progress::<NodeApplyView, Option<Action>>::Finished(
            Err(Error::NoEipResourceWithThatNodeSelector),
        ),
{
    let answers = seq![Ok::<ReplyView, Error>(ReplyView::Eips(eips))];
    let start = start_apply(node, namespace);
    assert(answers.drop_last() =~= Seq::empty());
    assert(run::<NodeApply>(start, answers.drop_last()) == start);
    lemma_none_selected(eips, node.labels);
}

/// A ready node for which none of the listed `Eip`s is open makes no further request.
pub proof fn law_ready_node_without_an_open_eip_is_done(
    node: NodeView,
    namespace: Option<Seq<char>>,
    eips: Seq<EipView>,
)
    requires
        node.name is Some,
        node.ready_status() == Some("True"@),
        start_apply(node, namespace) is Pending,
        forall|i: int|
            0 <= i < eips.len() ==> !(selects(#[trigger] eips[i], node.labels) && is_open_to(
                eips[i],
                node.name->0,
            )),
    ensures
        ({
            let answers = seq![Ok::<ReplyView, Error>(ReplyView::Eips(eips))];
            let end = run::<NodeApply>(start_apply(node, namespace), answers);
            &&& (exists|i: int| 0 <= i < eips.len() && selects(#[trigger] eips[i], node.labels))
                ==> end == Progress::<NodeApplyView, Option<Action>>::Finished(Ok(None))
            &&& !(exists|i: int| 0 <= i < eips.len() && selects(#[trigger] eips[i], node.labels))
                ==> end == Progress::<NodeApplyView, Option<Action>>::Finished(
                Err(Error::NoEipResourceWithThatNodeSelector),
            )
        }),
{
    let answers = seq![Ok::<ReplyView, Error>(ReplyView::Eips(eips))];
    let start = start_apply(node, namespace);
    assert(answers.drop_last() =~= Seq::empty());
    assert(run::<NodeApply>(start, answers.drop_last()) == start);
    law_node_takes_the_first_open_eip(eips, node.labels, node.name->0);
    if exists|i: int| 0 <= i < eips.len() && selects(#[trigger] eips[i], node.labels) {
        let i = choose|i: int| 0 <= i < eips.len() && selects(#[trigger] eips[i], node.labels);
        lemma_selected(eips, node.labels, i);
    } else {
        lemma_none_selected(eips, node.labels);
    }
}

proof fn lemma_none_selected(eips: Seq<EipView>, labels: Option<Map<Seq<char>, Seq<char>>>)
    requires
        forall|i: int| 0 <= i < eips.len() ==> !selects(#[trigger] eips[i], labels),
    ensures
        for_node(eips, labels).len() == 0,
    decreases eips.len(),
{
    if eips.len() == 0 {
        assert(eips =~= Seq::empty());
        law_eips_are_chosen_one_by_one(eips, arbitrary(), Seq::empty(), labels);
    } else {
        let front = eips.drop_last();
        assert(eips =~= front.push(eips.last()));
        assert forall|i: int| 0 <= i < front.len() implies !selects(#[trigger] front[i], labels) by {
            assert(front[i] == eips[i]);
        }
        assert(!selects(eips[eips.len() - 1], labels));
        lemma_none_selected(front, labels);
        law_eips_are_chosen_one_by_one(front, eips.last(), Seq::empty(), labels);
    }
}

} // verus!

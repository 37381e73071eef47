//! Reconciling a node: attaching the address of an `Eip` that selects it, and detaching it again.
use crate::aws::{
    get_eni_from_private_ip, is_attached_to, is_populated, Address, AddressView,
    InstancesDescriptionView,
};
use crate::controller::Context as ControllerContext;
use crate::controller::detach::{start_detach, Detach, DetachView};
use crate::eip::{
    claimed_by, eips_claimed_by, eips_for_node, first_claimable, first_claimable_eip, for_node, Eip,
    EipView,
};
use crate::error::Error;
use crate::kube_ext::{Node, NodeView};
use crate::labels::{add_gateway_status_label, gateway_status_patch};
use crate::node::get_ready_status_from_node;
use crate::operation::{
    api_scope, progress_view, requeue_after_secs, scope_of, Action, ApiScope, ApiScopeView,
    Operation, Progress, Reply, ReplyView, Request, RequestView,
};
use crate::string_map::StringMap;
use crate::text::{after_last, ascii_lower, opt_eq, str_eq, text_after_last};
use vstd::pervasive::unreached;
use vstd::prelude::*;
use vstd::utf8::is_ascii_chars;

verus! {

/// What attaching an address to a node has to know of the node.
#[derive(Debug)]
pub struct NodeTarget {
    pub name: String,
    /// Where `Eip`s are looked for.
    pub scope: ApiScope,
    pub node_ip: String,
    pub instance_id: String,
}

/// The `Eip` that is to be attached to a node.
#[derive(Debug)]
pub struct NodeClaim {
    pub eip: Eip,
    pub eip_name: String,
    pub allocation_id: String,
}

/// Attaching the address of an `Eip` to a node that it selects.
#[allow(inconsistent_fields)]
#[derive(Debug)]
pub enum NodeApply {
    /// The `Eip`s are being listed.
    ListingEips { target: NodeTarget, labels: Option<StringMap>, ready_status: Option<String> },
    /// The claims of a node that is not ready are being given up.
    Releasing { scope: ApiScope, eip: Eip, rest: Vec<Eip> },
    /// The address of the `Eip` is being described.
    DescribingAddress { target: NodeTarget, claim: NodeClaim },
    /// The instance behind the node is being described.
    DescribingInstance { target: NodeTarget, claim: NodeClaim, address: Address },
    /// The status of the `Eip` is being set to what it is about to be attached to.
    Claiming { target: NodeTarget, claim: NodeClaim, eni_id: String },
    /// The address is being associated.
    Associating { target: NodeTarget, claim: NodeClaim, eni_id: String },
    /// The association is being recorded in the status of the `Eip`.
    RecordingAssociation { target: NodeTarget, claim: NodeClaim, association_id: String },
}

/// A `NodeTarget` as a mathematical value.
pub struct NodeTargetView {
    pub name: Seq<char>,
    pub scope: ApiScopeView,
    pub node_ip: Seq<char>,
    pub instance_id: Seq<char>,
}

/// A `NodeClaim` as a mathematical value.
pub struct NodeClaimView {
    pub eip: EipView,
    pub eip_name: Seq<char>,
    pub allocation_id: Seq<char>,
}

/// A `NodeApply` as a mathematical value.
#[allow(inconsistent_fields)]
pub enum NodeApplyView {
    ListingEips {
        target: NodeTargetView,
        labels: Option<Map<Seq<char>, Seq<char>>>,
        ready_status: Option<Seq<char>>,
    },
    Releasing { scope: ApiScopeView, eip: EipView, rest: Seq<EipView> },
    DescribingAddress { target: NodeTargetView, claim: NodeClaimView },
    DescribingInstance { target: NodeTargetView, claim: NodeClaimView, address: AddressView },
    Claiming { target: NodeTargetView, claim: NodeClaimView, eni_id: Seq<char> },
    Associating { target: NodeTargetView, claim: NodeClaimView, eni_id: Seq<char> },
    RecordingAssociation {
        target: NodeTargetView,
        claim: NodeClaimView,
        association_id: Seq<char>,
    },
}

impl DeepView for NodeTarget {
    type V = NodeTargetView;

    open spec fn deep_view(&self) -> NodeTargetView {
        NodeTargetView {
            name: self.name@,
            scope: self.scope.deep_view(),
            node_ip: self.node_ip@,
            instance_id: self.instance_id@,
        }
    }
}

impl DeepView for NodeClaim {
    type V = NodeClaimView;

    open spec fn deep_view(&self) -> NodeClaimView {
        NodeClaimView {
            eip: self.eip.deep_view(),
            eip_name: self.eip_name@,
            allocation_id: self.allocation_id@,
        }
    }
}

impl DeepView for NodeApply {
    type V = NodeApplyView;

    open spec fn deep_view(&self) -> NodeApplyView {
        match self {
            NodeApply::ListingEips { target, labels, ready_status } => NodeApplyView::ListingEips {
                target: target.deep_view(),
                labels: labels.deep_view(),
                ready_status: ready_status.deep_view(),
            },
            NodeApply::Releasing { scope, eip, rest } => NodeApplyView::Releasing {
                scope: scope.deep_view(),
                eip: eip.deep_view(),
                rest: rest.deep_view(),
            },
            NodeApply::DescribingAddress { target, claim } => NodeApplyView::DescribingAddress {
                target: target.deep_view(),
                claim: claim.deep_view(),
            },
            NodeApply::DescribingInstance { target, claim, address } =>
                NodeApplyView::DescribingInstance {
                target: target.deep_view(),
                claim: claim.deep_view(),
                address: address.deep_view(),
            },
            NodeApply::Claiming { target, claim, eni_id } => NodeApplyView::Claiming {
                target: target.deep_view(),
                claim: claim.deep_view(),
                eni_id: eni_id@,
            },
            NodeApply::Associating { target, claim, eni_id } => NodeApplyView::Associating {
                target: target.deep_view(),
                claim: claim.deep_view(),
                eni_id: eni_id@,
            },
            NodeApply::RecordingAssociation { target, claim, association_id } =>
                NodeApplyView::RecordingAssociation {
                target: target.deep_view(),
                claim: claim.deep_view(),
                association_id: association_id@,
            },
        }
    }
}

/// How an operation on a node goes on.
pub type NodeProgress = Progress<NodeApplyView, Option<Action>>;

/// Attaching an address to a node starts with a look at the `Eip`s. The node has to have an
/// address and a provider id with a slash in it.
pub open spec fn start_apply(node: NodeView, namespace: Option<Seq<char>>) -> NodeProgress {
    match (node.ip(), node.provider_id()) {
        (None, _) => Progress::Finished(Err(Error::MissingNodeIp)),
        (Some(_), None) => Progress::Finished(Err(Error::MissingProviderId)),
        (Some(node_ip), Some(provider_id)) => match after_last(provider_id, '/') {
            None => Progress::Finished(Err(Error::MalformedProviderId)),
            Some(instance_id) => Progress::Pending(
                NodeApplyView::ListingEips {
                    target: NodeTargetView {
                        name: node.name->0,
                        scope: scope_of(namespace),
                        node_ip,
                        instance_id,
                    },
                    labels: node.labels,
                    ready_status: node.ready_status(),
                },
            ),
        },
    }
}

/// A node that is not ready gives up every `Eip` that selects it and that it claims. One that is
/// ready takes the first of the `Eip`s that select it and that nothing else claims.
pub open spec fn after_eips(
    target: NodeTargetView,
    labels: Option<Map<Seq<char>, Seq<char>>>,
    ready_status: Option<Seq<char>>,
    eips: Seq<EipView>,
) -> NodeProgress {
    let matched = for_node(eips, labels);
    let eip = first_claimable(matched, target.name);
    if matched.len() == 0 {
        Progress::Finished(Err(Error::NoEipResourceWithThatNodeSelector))
    } else if ready_status is None {
        Progress::Finished(Err(Error::MissingNodeReadyCondition))
    } else if ready_status != Some("True"@) {
        release_claims(target.scope, claimed_by(matched, target.name))
    } else if eip is None {
        Progress::Finished(Ok(None))
    } else {
        match (eip->0).allocation_id() {
            Some(allocation_id) => Progress::Pending(
                NodeApplyView::DescribingAddress {
                    target,
                    claim: NodeClaimView {
                        eip: eip->0,
                        eip_name: (eip->0).name->0,
                        allocation_id,
                    },
                },
            ),
            None => Progress::Finished(Err(Error::MissingAllocationId)),
        }
    }
}

/// Claims are given up one by one.
pub open spec fn release_claims(scope: ApiScopeView, eips: Seq<EipView>) -> NodeProgress {
    if eips.len() == 0 {
        Progress::Finished(Ok(None))
    } else {
        Progress::Pending(
            NodeApplyView::Releasing { scope, eip: eips[0], rest: eips.drop_first() },
        )
    }
}

/// Whether an `Eip` is taken from those listed, and has no name.
pub open spec fn takes_nameless(
    name: Seq<char>,
    labels: Option<Map<Seq<char>, Seq<char>>>,
    ready_status: Option<Seq<char>>,
    eips: Seq<EipView>,
) -> bool {
    ready_status == Some("True"@) && (first_claimable(for_node(eips, labels), name) matches Some(
        eip,
    ) && eip.name is None)
}

/// The address is claimed for the node, unless it is attached to the node already.
pub open spec fn after_instance(
    target: NodeTargetView,
    claim: NodeClaimView,
    address: AddressView,
    instances: InstancesDescriptionView,
) -> NodeProgress {
    match instances.eni(target.node_ip) {
        None => Progress::Finished(Err(Error::NoInterfaceWithThatIp)),
        Some(eni_id) => if address.is_attached_to(eni_id, target.node_ip) {
            Progress::Finished(Ok(None))
        } else {
            Progress::Pending(NodeApplyView::Claiming { target, claim, eni_id })
        },
    }
}

/// Whether an error says that someone else changed the object in the meantime.
pub open spec fn is_conflict(e: Error) -> bool {
    e matches Error::Kube { source } && source.reason.deep_view() == Some("Conflict"@)
}

/// Whether an error says that someone else changed the object in the meantime.
pub fn is_conflict_error(e: &Error) -> (r: bool)
    ensures
        r == is_conflict(*e),
{
    match e {
        Error::Kube { source } => opt_eq(&source.reason, "Conflict"),
        _ => false,
    }
}

impl NodeApply {
    /// Starts to attach an address to a node.
    pub fn start(node: &Node, namespace: &Option<String>) -> (r: Progress<
        NodeApply,
        Option<Action>,
    >)
        requires
            node.name is Some,
        ensures
            progress_view(r) == start_apply(node.deep_view(), namespace.deep_view()),
    {
        let node_ip = match node.ip() {
            Some(ip) => ip.to_owned(),
            None => {
                return Progress::Finished(Err(Error::MissingNodeIp));
            },
        };
        let instance_id = match node.provider_id() {
            Some(provider_id) => match text_after_last(provider_id, '/') {
                Some(instance_id) => instance_id.to_owned(),
                None => {
                    return Progress::Finished(Err(Error::MalformedProviderId));
                },
            },
            None => {
                return Progress::Finished(Err(Error::MissingProviderId));
            },
        };
        Progress::Pending(
            NodeApply::ListingEips {
                target: NodeTarget {
                    name: node.name.clone().unwrap(),
                    scope: api_scope(namespace),
                    node_ip,
                    instance_id,
                },
                labels: match node.labels() {
                    Some(labels) => Some(labels.clone()),
                    None => None,
                },
                ready_status: get_ready_status_from_node(node),
            },
        )
    }

    fn after_eips(
        target: NodeTarget,
        labels: Option<StringMap>,
        ready_status: Option<String>,
        eips: &Vec<Eip>,
    ) -> (r: Progress<NodeApply, Option<Action>>)
        requires
            !takes_nameless(
                target.name@,
                labels.deep_view(),
                ready_status.deep_view(),
                eips.deep_view(),
            ),
        ensures
            progress_view(r) == after_eips(
                target.deep_view(),
                labels.deep_view(),
                ready_status.deep_view(),
                eips.deep_view(),
            ),
    {
        let matched = eips_for_node(eips, labels.as_ref());
        if matched.len() == 0 {
            return Progress::Finished(Err(Error::NoEipResourceWithThatNodeSelector));
        }
        let ready = match &ready_status {
            Some(status) => str_eq(status.as_str(), "True"),
            None => {
                return Progress::Finished(Err(Error::MissingNodeReadyCondition));
            },
        };
        if !ready {
            let mine = eips_claimed_by(&matched, target.name.as_str());
            return Self::release_claims(target.scope, mine);
        }
        let eip = match first_claimable_eip(&matched, target.name.as_str()) {
            Some(eip) => eip.clone(),
            None => {
                return Progress::Finished(Ok(None));
            },
        };
        let allocation_id = match eip.allocation_id() {
            Some(id) => id.clone(),
            None => {
                return Progress::Finished(Err(Error::MissingAllocationId));
            },
        };
        let eip_name = eip.name.clone().unwrap();
        Progress::Pending(
            NodeApply::DescribingAddress {
                target,
                claim: NodeClaim { eip, eip_name, allocation_id },
            },
        )
    }

    fn release_claims(scope: ApiScope, eips: Vec<Eip>) -> (r: Progress<NodeApply, Option<Action>>)
        ensures
            progress_view(r) == release_claims(scope.deep_view(), eips.deep_view()),
    {
        if eips.len() == 0 {
            return Progress::Finished(Ok(None));
        }
        let ghost all = eips.deep_view();
        let mut rest = eips;
        let eip = rest.remove(0);
        proof {
            assert(all[0] == eip.deep_view());
            assert(rest.deep_view() =~= all.drop_first());
        }
        Progress::Pending(NodeApply::Releasing { scope, eip, rest })
    }

    fn takes_nameless(
        name: &str,
        labels: Option<&StringMap>,
        ready_status: &Option<String>,
        eips: &Vec<Eip>,
    ) -> (r: bool)
        ensures
            r == takes_nameless(
                name@,
                labels.deep_view(),
                ready_status.deep_view(),
                eips.deep_view(),
            ),
    {
        let matched = eips_for_node(eips, labels);
        opt_eq(ready_status, "True") && match first_claimable_eip(&matched, name) {
            Some(eip) => eip.name.is_none(),
            None => false,
        }
    }
}

impl Operation for NodeApply {
    type Outcome = Option<Action>;

    open spec fn ask(state: NodeApplyView) -> RequestView {
        match state {
            NodeApplyView::ListingEips { target, .. } => RequestView::ListEips {
                scope: target.scope,
            },
            NodeApplyView::Releasing { scope, eip, .. } => RequestView::SetStatusDetached {
                scope: eip.scope_within(scope),
                eip,
            },
            NodeApplyView::DescribingAddress { claim, .. } => RequestView::DescribeAddress {
                allocation_id: claim.allocation_id,
            },
            NodeApplyView::DescribingInstance { target, .. } => RequestView::DescribeInstance {
                instance_id: target.instance_id,
            },
            NodeApplyView::Claiming { target, claim, eni_id } =>
                RequestView::SetStatusShouldAttach {
                scope: claim.eip.scope_within(target.scope),
                eip: claim.eip,
                eni_id,
                private_ip: target.node_ip,
                resource_id: target.name,
            },
            NodeApplyView::Associating { target, claim, eni_id } => RequestView::AssociateAddress {
                allocation_id: claim.allocation_id,
                eni_id,
                private_ip: target.node_ip,
            },
            NodeApplyView::RecordingAssociation { target, claim, association_id } =>
                RequestView::SetStatusAssociationId {
                scope: claim.eip.scope_within(target.scope),
                name: claim.eip_name,
                association_id,
            },
        }
    }

    open spec fn fits(state: NodeApplyView, answer: Result<ReplyView, Error>) -> bool {
        match answer {
            Err(_) => true,
            Ok(reply) => match state {
                NodeApplyView::ListingEips { target, labels, ready_status } =>
                    reply matches ReplyView::Eips(eips) && !takes_nameless(
                    target.name,
                    labels,
                    ready_status,
                    eips,
                ),
                NodeApplyView::Releasing { .. } => reply is Done,
                NodeApplyView::DescribingAddress { .. } => reply matches ReplyView::Addresses(a)
                    && (a matches Some(addresses) ==> addresses.len() > 0),
                NodeApplyView::DescribingInstance { .. } => reply matches ReplyView::Instances(d)
                    && d.is_populated(),
                NodeApplyView::Claiming { .. } => reply is Done,
                NodeApplyView::Associating { .. } => reply is Associated,
                NodeApplyView::RecordingAssociation { .. } => reply is Done,
            },
        }
    }

    open spec fn next(state: NodeApplyView, answer: Result<ReplyView, Error>) -> NodeProgress {
        match (state, answer) {
            // Another node was faster: look for another `Eip` in three seconds.
            (NodeApplyView::Claiming { .. }, Err(e)) if is_conflict(e) => Progress::Finished(
                Ok(Some(requeue_after_secs(3))),
            ),
            (_, Err(e)) => Progress::Finished(Err(e)),
            (
                NodeApplyView::ListingEips { target, labels, ready_status },
                Ok(ReplyView::Eips(eips)),
            ) => after_eips(target, labels, ready_status, eips),
            (NodeApplyView::Releasing { scope, rest, .. }, Ok(ReplyView::Done)) => release_claims(
                scope,
                rest,
            ),
            (
                NodeApplyView::DescribingAddress { target, claim },
                Ok(ReplyView::Addresses(addresses)),
            ) => match addresses {
                None => Progress::Finished(Err(Error::MissingAddresses)),
                Some(addresses) => Progress::Pending(
                    NodeApplyView::DescribingInstance { target, claim, address: addresses[0] },
                ),
            },
            (
                NodeApplyView::DescribingInstance { target, claim, address },
                Ok(ReplyView::Instances(instances)),
            ) => after_instance(target, claim, address, instances),
            (
                NodeApplyView::Claiming { target, claim, eni_id },
                Ok(ReplyView::Done),
            ) => Progress::Pending(NodeApplyView::Associating { target, claim, eni_id }),
            (
                NodeApplyView::Associating { target, claim, .. },
                Ok(ReplyView::Associated(id)),
            ) => match id {
                None => Progress::Finished(Err(Error::MissingAssociationId)),
                Some(association_id) => Progress::Pending(
                    NodeApplyView::RecordingAssociation { target, claim, association_id },
                ),
            },
            (NodeApplyView::RecordingAssociation { .. }, Ok(ReplyView::Done)) => Progress::Finished(
                Ok(None),
            ),
            _ => arbitrary(),
        }
    }

    fn request(&self) -> (r: Request) {
        match self {
            NodeApply::ListingEips { target, .. } => Request::ListEips {
                scope: target.scope.clone(),
            },
            NodeApply::Releasing { scope, eip, .. } => Request::SetStatusDetached {
                scope: eip.scope_within(scope),
                eip: eip.clone(),
            },
            NodeApply::DescribingAddress { claim, .. } => Request::DescribeAddress {
                allocation_id: claim.allocation_id.clone(),
            },
            NodeApply::DescribingInstance { target, .. } => Request::DescribeInstance {
                instance_id: target.instance_id.clone(),
            },
            NodeApply::Claiming { target, claim, eni_id } => Request::SetStatusShouldAttach {
                scope: claim.eip.scope_within(&target.scope),
                eip: claim.eip.clone(),
                eni_id: eni_id.clone(),
                private_ip: target.node_ip.clone(),
                resource_id: target.name.clone(),
            },
            NodeApply::Associating { target, claim, eni_id } => Request::AssociateAddress {
                allocation_id: claim.allocation_id.clone(),
                eni_id: eni_id.clone(),
                private_ip: target.node_ip.clone(),
            },
            NodeApply::RecordingAssociation { target, claim, association_id } =>
                Request::SetStatusAssociationId {
                scope: claim.eip.scope_within(&target.scope),
                name: claim.eip_name.clone(),
                association_id: association_id.clone(),
            },
        }
    }

    fn accepts(&self, answer: &Result<Reply, Error>) -> (r: bool) {
        match (self, answer) {
            (_, Err(_)) => true,
            (
                NodeApply::ListingEips { target, labels, ready_status },
                Ok(Reply::Eips(eips)),
            ) => !Self::takes_nameless(target.name.as_str(), labels.as_ref(), ready_status, eips),
            (NodeApply::Releasing { .. }, Ok(Reply::Done)) => true,
            (NodeApply::DescribingAddress { .. }, Ok(Reply::Addresses(a))) => match a {
                Some(addresses) => addresses.len() > 0,
                None => true,
            },
            (NodeApply::DescribingInstance { .. }, Ok(Reply::Instances(d))) => is_populated(d),
            (NodeApply::Claiming { .. }, Ok(Reply::Done)) => true,
            (NodeApply::Associating { .. }, Ok(Reply::Associated(_))) => true,
            (NodeApply::RecordingAssociation { .. }, Ok(Reply::Done)) => true,
            _ => false,
        }
    }

    fn resume(self, answer: Result<Reply, Error>) -> (r: Progress<Self, Option<Action>>) {
        match (self, answer) {
            (NodeApply::Claiming { .. }, Err(e)) => if is_conflict_error(&e) {
                Progress::Finished(Ok(Some(Action::requeue_secs(3))))
            } else {
                Progress::Finished(Err(e))
            },
            (_, Err(e)) => Progress::Finished(Err(e)),
            (
                NodeApply::ListingEips { target, labels, ready_status },
                Ok(Reply::Eips(eips)),
            ) => Self::after_eips(target, labels, ready_status, &eips),
            (NodeApply::Releasing { scope, rest, .. }, Ok(Reply::Done)) => Self::release_claims(
                scope,
                rest,
            ),
            (
                NodeApply::DescribingAddress { target, claim },
                Ok(Reply::Addresses(addresses)),
            ) => match addresses {
                None => Progress::Finished(Err(Error::MissingAddresses)),
                Some(addresses) => {
                    let ghost all = addresses.deep_view();
                    let mut addresses = addresses;
                    let address = addresses.swap_remove(0);
                    assert(all[0] == address.deep_view());
                    Progress::Pending(NodeApply::DescribingInstance { target, claim, address })
                },
            },
            (
                NodeApply::DescribingInstance { target, claim, address },
                Ok(Reply::Instances(instances)),
            ) => match get_eni_from_private_ip(&instances, target.node_ip.as_str()) {
                None => Progress::Finished(Err(Error::NoInterfaceWithThatIp)),
                Some(eni_id) => if is_attached_to(
                    &address,
                    eni_id.as_str(),
                    target.node_ip.as_str(),
                ) {
                    Progress::Finished(Ok(None))
                } else {
                    Progress::Pending(NodeApply::Claiming { target, claim, eni_id })
                },
            },
            (NodeApply::Claiming { target, claim, eni_id }, Ok(Reply::Done)) => Progress::Pending(
                NodeApply::Associating { target, claim, eni_id },
            ),
            (NodeApply::Associating { target, claim, .. }, Ok(Reply::Associated(id))) => match id {
                None => Progress::Finished(Err(Error::MissingAssociationId)),
                Some(association_id) => Progress::Pending(
                    NodeApply::RecordingAssociation { target, claim, association_id },
                ),
            },
            (NodeApply::RecordingAssociation { .. }, Ok(Reply::Done)) => Progress::Finished(
                Ok(None),
            ),
            _ => unreached(),
        }
    }
}

/// Detaching the addresses that a node claims, when the node goes away.
#[allow(inconsistent_fields)]
#[derive(Debug)]
pub enum NodeCleanup {
    /// The `Eip`s are being listed.
    ListingEips { name: String, scope: ApiScope, labels: Option<StringMap> },
    /// The addresses that the node claims are being detached.
    Detaching { name: String, detach: Detach },
    /// That no traffic may leave through the node is being recorded in its label.
    Labelling { name: String },
}

/// A `NodeCleanup` as a mathematical value.
#[allow(inconsistent_fields)]
pub enum NodeCleanupView {
    ListingEips {
        name: Seq<char>,
        scope: ApiScopeView,
        labels: Option<Map<Seq<char>, Seq<char>>>,
    },
    Detaching { name: Seq<char>, detach: DetachView },
    Labelling { name: Seq<char> },
}

impl DeepView for NodeCleanup {
    type V = NodeCleanupView;

    open spec fn deep_view(&self) -> NodeCleanupView {
        match self {
            NodeCleanup::ListingEips { name, scope, labels } => NodeCleanupView::ListingEips {
                name: name@,
                scope: scope.deep_view(),
                labels: labels.deep_view(),
            },
            NodeCleanup::Detaching { name, detach } => NodeCleanupView::Detaching {
                name: name@,
                detach: detach.deep_view(),
            },
            NodeCleanup::Labelling { name } => NodeCleanupView::Labelling { name: name@ },
        }
    }
}

/// How the detaching of what a node claims goes on.
pub type NodeCleanupProgress = Progress<NodeCleanupView, Option<Action>>;

/// Detaching what a node claims starts with a look at the `Eip`s.
pub open spec fn start_cleanup(
    node: NodeView,
    namespace: Option<Seq<char>>,
) -> NodeCleanupProgress {
    Progress::Pending(
        NodeCleanupView::ListingEips {
            name: node.name->0,
            scope: scope_of(namespace),
            labels: node.labels,
        },
    )
}

/// Once everything is detached, the node is labelled as one that no traffic may leave through.
pub open spec fn detaching(
    name: Seq<char>,
    progress: Progress<DetachView, ()>,
) -> NodeCleanupProgress {
    match progress {
        Progress::Pending(detach) => Progress::Pending(NodeCleanupView::Detaching { name, detach }),
        Progress::Finished(Err(e)) => Progress::Finished(Err(e)),
        Progress::Finished(Ok(_)) => Progress::Pending(NodeCleanupView::Labelling { name }),
    }
}

impl NodeCleanup {
    /// Starts to detach what a node claims.
    pub fn start(node: &Node, namespace: &Option<String>) -> (r: Progress<
        NodeCleanup,
        Option<Action>,
    >)
        requires
            node.name is Some,
        ensures
            progress_view(r) == start_cleanup(node.deep_view(), namespace.deep_view()),
    {
        Progress::Pending(
            NodeCleanup::ListingEips {
                name: node.name.clone().unwrap(),
                scope: api_scope(namespace),
                labels: match node.labels() {
                    Some(labels) => Some(labels.clone()),
                    None => None,
                },
            },
        )
    }

    fn detaching(name: String, progress: Progress<Detach, ()>) -> (r: Progress<
        NodeCleanup,
        Option<Action>,
    >)
        ensures
            progress_view(r) == detaching(name@, progress_view(progress)),
    {
        match progress {
            Progress::Pending(detach) => Progress::Pending(NodeCleanup::Detaching { name, detach }),
            Progress::Finished(Err(e)) => Progress::Finished(Err(e)),
            Progress::Finished(Ok(_)) => Progress::Pending(NodeCleanup::Labelling { name }),
        }
    }
}

impl Operation for NodeCleanup {
    type Outcome = Option<Action>;

    open spec fn ask(state: NodeCleanupView) -> RequestView {
        match state {
            NodeCleanupView::ListingEips { scope, .. } => RequestView::ListEips { scope },
            NodeCleanupView::Detaching { detach, .. } => Detach::ask(detach),
            NodeCleanupView::Labelling { name } => RequestView::ApplyToNode {
                name,
                patch: gateway_status_patch(Some("false"@)),
            },
        }
    }

    open spec fn fits(state: NodeCleanupView, answer: Result<ReplyView, Error>) -> bool {
        match state {
            NodeCleanupView::ListingEips { .. } => answer matches Ok(reply) ==> reply is Eips,
            NodeCleanupView::Detaching { detach, .. } => Detach::fits(detach, answer),
            NodeCleanupView::Labelling { .. } => answer matches Ok(reply) ==> reply is Done,
        }
    }

    open spec fn next(
        state: NodeCleanupView,
        answer: Result<ReplyView, Error>,
    ) -> NodeCleanupProgress {
        match (state, answer) {
            (NodeCleanupView::Detaching { name, detach }, _) => detaching(
                name,
                Detach::next(detach, answer),
            ),
            (_, Err(e)) => Progress::Finished(Err(e)),
            (
                NodeCleanupView::ListingEips { name, scope, labels },
                Ok(ReplyView::Eips(eips)),
            ) => detaching(name, start_detach(scope, claimed_by(for_node(eips, labels), name))),
            (NodeCleanupView::Labelling { .. }, Ok(ReplyView::Done)) => Progress::Finished(
                Ok(None),
            ),
            _ => arbitrary(),
        }
    }

    fn request(&self) -> (r: Request) {
        match self {
            NodeCleanup::ListingEips { scope, .. } => Request::ListEips { scope: scope.clone() },
            NodeCleanup::Detaching { detach, .. } => detach.request(),
            NodeCleanup::Labelling { name } => {
                let patch = add_gateway_status_label("false");
                proof {
                    reveal_strlit("false");
                    assert(is_ascii_chars("false"@));
                    assert("false"@.map_values(|c: char| ascii_lower(c)) =~= "false"@);
                }
                Request::ApplyToNode { name: name.clone(), patch }
            },
        }
    }

    fn accepts(&self, answer: &Result<Reply, Error>) -> (r: bool) {
        match (self, answer) {
            (NodeCleanup::Detaching { detach, .. }, _) => detach.accepts(answer),
            (_, Err(_)) => true,
            (NodeCleanup::ListingEips { .. }, Ok(Reply::Eips(_))) => true,
            (NodeCleanup::Labelling { .. }, Ok(Reply::Done)) => true,
            _ => false,
        }
    }

    fn resume(self, answer: Result<Reply, Error>) -> (r: Progress<Self, Option<Action>>) {
        match self {
            NodeCleanup::Detaching { name, detach } => Self::detaching(name, detach.resume(answer)),
            NodeCleanup::ListingEips { name, scope, labels } => match answer {
                Err(e) => Progress::Finished(Err(e)),
                Ok(Reply::Eips(eips)) => {
                    let matched = eips_for_node(&eips, labels.as_ref());
                    let mine = eips_claimed_by(&matched, name.as_str());
                    Self::detaching(name, Detach::start(scope, mine))
                },
                Ok(_) => unreached(),
            },
            NodeCleanup::Labelling { .. } => match answer {
                Err(e) => Progress::Finished(Err(e)),
                Ok(_) => Progress::Finished(Ok(None)),
            },
        }
    }
}

/// How nodes are reconciled.
#[derive(Debug)]
pub struct Context {
    /// The namespace whose `Eip`s are meant for nodes. Without one those of all namespaces are.
    pub namespace: Option<String>,
}

impl Context {
    /// Nodes are reconciled with the `Eip`s of that namespace, or else with all.
    pub fn new(namespace: Option<String>) -> (r: Self)
        ensures
            r.namespace == namespace,
    {
        Context { namespace }
    }
}

impl ControllerContext for Context {
    type Resource = Node;

    type Apply = NodeApply;

    type Cleanup = NodeCleanup;

    open spec fn finalizer() -> Seq<char> {
        "eip.materialize.cloud/disassociate_node"@
    }

    open spec fn namespace_of(node: NodeView) -> Option<Seq<char>> {
        None
    }

    open spec fn is_applicable(node: NodeView) -> bool {
        node.name is Some
    }

    open spec fn is_cleanable(node: NodeView) -> bool {
        node.name is Some
    }

    open spec fn apply_start(&self, node: NodeView) -> NodeProgress {
        start_apply(node, self.namespace.deep_view())
    }

    open spec fn cleanup_start(&self, node: NodeView) -> NodeCleanupProgress {
        start_cleanup(node, self.namespace.deep_view())
    }

    fn finalizer_name() -> (r: &'static str) {
        "eip.materialize.cloud/disassociate_node"
    }

    fn resource_namespace(_node: &Node) -> (r: Option<String>) {
        None
    }

    fn can_apply(node: &Node) -> (r: bool) {
        node.name.is_some()
    }

    fn can_cleanup(node: &Node) -> (r: bool) {
        node.name.is_some()
    }

    fn apply(&self, node: &Node) -> (r: Progress<NodeApply, Option<Action>>) {
        NodeApply::start(node, &self.namespace)
    }

    fn cleanup(&self, node: &Node) -> (r: Progress<NodeCleanup, Option<Action>>) {
        NodeCleanup::start(node, &self.namespace)
    }
}

} // verus!

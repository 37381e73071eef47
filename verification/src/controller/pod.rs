//! Reconciling a pod: attaching the address of its `Eip`, and detaching it again.
use crate::aws::{
    get_eni_from_private_ip, is_attached_to, is_populated, Address, AddressView,
    InstancesDescriptionView,
};
use crate::controller::Context as ControllerContext;
use crate::controller::detach::{start_detach, Detach, DetachView};
use crate::eip::{claimed_by, eips_claimed_by, eips_for_pod, for_pod, Eip, EipView};
use crate::error::Error;
use crate::kube_ext::{Pod, PodView};
use crate::labels::{
    add_dns_target_annotation, dns_target_patch, pod_eni_annotation, should_autocreate_eip,
    POD_ENI_ANNOTATION,
};
use crate::operation::{
    progress_view, requeue_after_secs, Action, ApiScope, ApiScopeView, Operation, Progress, Reply,
    ReplyView, Request, RequestView,
};
use crate::text::{after_last, text_after_last};
use vstd::pervasive::unreached;
use vstd::prelude::*;

verus! {

/// What attaching an address to a pod has to know of the pod.
#[derive(Debug)]
pub struct PodJob {
    pub name: String,
    pub namespace: String,
    pub node_name: Option<String>,
    pub pod_ip: Option<String>,
    /// The text that describes the pod's branch network interfaces.
    pub pod_eni: Option<String>,
}

/// A pod that has an address and a node.
#[derive(Debug)]
pub struct PodTarget {
    pub name: String,
    pub namespace: String,
    pub pod_ip: String,
}

/// An attachment that is being made.
#[derive(Debug)]
pub struct PodAttachment {
    pub target: PodTarget,
    pub eni_id: String,
    pub eip: Eip,
    pub allocation_id: String,
}

/// Attaching the address of an `Eip` to the pod that it is meant for.
#[allow(inconsistent_fields)]
#[derive(Debug)]
pub enum PodApply {
    /// The `Eip` that the pod asks for is being created.
    Creating { job: PodJob },
    /// The node of the pod is being looked up.
    GettingNode { target: PodTarget, pod_eni: Option<String>, node_name: String },
    /// The description of the pod's branch network interfaces is being read.
    ReadingEnis { target: PodTarget, pod_eni: String, instance_id: String },
    /// The instance behind the node is being described.
    DescribingInstance { target: PodTarget, instance_id: String },
    /// The `Eip`s of the namespace are being listed.
    ListingEips { target: PodTarget, eni_id: String },
    /// The address of the `Eip` is being described.
    DescribingAddress { attachment: PodAttachment },
    /// The status of the `Eip` is being set to what it is about to be attached to.
    Claiming { attachment: PodAttachment, public_ip: String, attached: bool },
    /// The address is being associated.
    Associating { attachment: PodAttachment, public_ip: String },
    /// The association is being recorded in the status of the `Eip`.
    RecordingAssociation {
        attachment: PodAttachment,
        public_ip: String,
        eip_name: String,
        association_id: String,
    },
    /// The address is being published on the pod.
    Annotating { attachment: PodAttachment, public_ip: String },
}

/// A `PodJob` as a mathematical value.
pub struct PodJobView {
    pub name: Seq<char>,
    pub namespace: Seq<char>,
    pub node_name: Option<Seq<char>>,
    pub pod_ip: Option<Seq<char>>,
    pub pod_eni: Option<Seq<char>>,
}

/// A `PodTarget` as a mathematical value.
pub struct PodTargetView {
    pub name: Seq<char>,
    pub namespace: Seq<char>,
    pub pod_ip: Seq<char>,
}

/// A `PodAttachment` as a mathematical value.
pub struct PodAttachmentView {
    pub target: PodTargetView,
    pub eni_id: Seq<char>,
    pub eip: EipView,
    pub allocation_id: Seq<char>,
}

/// A `PodApply` as a mathematical value.
#[allow(inconsistent_fields)]
pub enum PodApplyView {
    Creating { job: PodJobView },
    GettingNode { target: PodTargetView, pod_eni: Option<Seq<char>>, node_name: Seq<char> },
    ReadingEnis { target: PodTargetView, pod_eni: Seq<char>, instance_id: Seq<char> },
    DescribingInstance { target: PodTargetView, instance_id: Seq<char> },
    ListingEips { target: PodTargetView, eni_id: Seq<char> },
    DescribingAddress { attachment: PodAttachmentView },
    Claiming { attachment: PodAttachmentView, public_ip: Seq<char>, attached: bool },
    Associating { attachment: PodAttachmentView, public_ip: Seq<char> },
    RecordingAssociation {
        attachment: PodAttachmentView,
        public_ip: Seq<char>,
        eip_name: Seq<char>,
        association_id: Seq<char>,
    },
    Annotating { attachment: PodAttachmentView, public_ip: Seq<char> },
}

impl DeepView for PodJob {
    type V = PodJobView;

    open spec fn deep_view(&self) -> PodJobView {
        PodJobView {
            name: self.name@,
            namespace: self.namespace@,
            node_name: self.node_name.deep_view(),
            pod_ip: self.pod_ip.deep_view(),
            pod_eni: self.pod_eni.deep_view(),
        }
    }
}

impl DeepView for PodTarget {
    type V = PodTargetView;

    open spec fn deep_view(&self) -> PodTargetView {
        PodTargetView { name: self.name@, namespace: self.namespace@, pod_ip: self.pod_ip@ }
    }
}

impl DeepView for PodAttachment {
    type V = PodAttachmentView;

    open spec fn deep_view(&self) -> PodAttachmentView {
        PodAttachmentView {
            target: self.target.deep_view(),
            eni_id: self.eni_id@,
            eip: self.eip.deep_view(),
            allocation_id: self.allocation_id@,
        }
    }
}

impl DeepView for PodApply {
    type V = PodApplyView;

    open spec fn deep_view(&self) -> PodApplyView {
        match self {
            PodApply::Creating { job } => PodApplyView::Creating { job: job.deep_view() },
            PodApply::GettingNode { target, pod_eni, node_name } => PodApplyView::GettingNode {
                target: target.deep_view(),
                pod_eni: pod_eni.deep_view(),
                node_name: node_name@,
            },
            PodApply::ReadingEnis { target, pod_eni, instance_id } => PodApplyView::ReadingEnis {
                target: target.deep_view(),
                pod_eni: pod_eni@,
                instance_id: instance_id@,
            },
            PodApply::DescribingInstance { target, instance_id } =>
                PodApplyView::DescribingInstance {
                target: target.deep_view(),
                instance_id: instance_id@,
            },
            PodApply::ListingEips { target, eni_id } => PodApplyView::ListingEips {
                target: target.deep_view(),
                eni_id: eni_id@,
            },
            PodApply::DescribingAddress { attachment } => PodApplyView::DescribingAddress {
                attachment: attachment.deep_view(),
            },
            PodApply::Claiming { attachment, public_ip, attached } => PodApplyView::Claiming {
                attachment: attachment.deep_view(),
                public_ip: public_ip@,
                attached: *attached,
            },
            PodApply::Associating { attachment, public_ip } => PodApplyView::Associating {
                attachment: attachment.deep_view(),
                public_ip: public_ip@,
            },
            PodApply::RecordingAssociation { attachment, public_ip, eip_name, association_id } =>
                PodApplyView::RecordingAssociation {
                attachment: attachment.deep_view(),
                public_ip: public_ip@,
                eip_name: eip_name@,
                association_id: association_id@,
            },
            PodApply::Annotating { attachment, public_ip } => PodApplyView::Annotating {
                attachment: attachment.deep_view(),
                public_ip: public_ip@,
            },
        }
    }
}

/// How an operation on a pod goes on.
pub type PodProgress = Progress<PodApplyView, Option<Action>>;

/// What is read off the pod.
pub open spec fn job_of(pod: PodView) -> PodJobView {
    PodJobView {
        name: pod.name->0,
        namespace: pod.namespace->0,
        node_name: pod.node_name(),
        pod_ip: pod.ip(),
        pod_eni: pod.annotation(POD_ENI_ANNOTATION@),
    }
}

/// Attaching an address to a pod starts with the creation of the `Eip`, where the pod asks for
/// one.
pub open spec fn start_apply(pod: PodView) -> PodProgress {
    if pod.wants_eip() {
        Progress::Pending(PodApplyView::Creating { job: job_of(pod) })
    } else {
        look_up_node(job_of(pod))
    }
}

/// A pod that is not scheduled is tried again in three seconds; one that is scheduled has to have
/// an address.
pub open spec fn look_up_node(job: PodJobView) -> PodProgress {
    match (job.node_name, job.pod_ip) {
        (None, _) => Progress::Finished(Ok(Some(requeue_after_secs(3)))),
        (Some(_), None) => Progress::Finished(Err(Error::MissingPodIp)),
        (Some(node_name), Some(pod_ip)) => Progress::Pending(
            PodApplyView::GettingNode {
                target: PodTargetView { name: job.name, namespace: job.namespace, pod_ip },
                pod_eni: job.pod_eni,
                node_name,
            },
        ),
    }
}

/// The instance id is what the node's provider id holds behind its last slash. Where the pod
/// describes interfaces of its own, they are read first.
pub open spec fn after_node(
    target: PodTargetView,
    pod_eni: Option<Seq<char>>,
    provider_id: Option<Seq<char>>,
) -> PodProgress {
    match provider_id {
        None => Progress::Finished(Err(Error::MissingProviderId)),
        Some(provider_id) => match after_last(provider_id, '/') {
            None => Progress::Finished(Err(Error::MalformedProviderId)),
            Some(instance_id) => match pod_eni {
                Some(pod_eni) => Progress::Pending(
                    PodApplyView::ReadingEnis { target, pod_eni, instance_id },
                ),
                None => Progress::Pending(PodApplyView::DescribingInstance { target, instance_id }),
            },
        },
    }
}

/// The first interface that the pod describes is the one to use. Where there is none, the
/// instance is asked.
pub open spec fn after_enis(
    target: PodTargetView,
    instance_id: Seq<char>,
    eni_ids: Option<Seq<Seq<char>>>,
) -> PodProgress {
    match eni_ids {
        Some(ids) if ids.len() > 0 => Progress::Pending(
            PodApplyView::ListingEips { target, eni_id: ids[0] },
        ),
        _ => Progress::Pending(PodApplyView::DescribingInstance { target, instance_id }),
    }
}

/// The interface of the instance that carries the pod's address is the one to use.
pub open spec fn after_instance(
    target: PodTargetView,
    instances: InstancesDescriptionView,
) -> PodProgress {
    match instances.eni(target.pod_ip) {
        Some(eni_id) => Progress::Pending(PodApplyView::ListingEips { target, eni_id }),
        None => Progress::Finished(Err(Error::NoInterfaceWithThatIp)),
    }
}

/// No `Eip` for the pod means that there is nothing to do; more than one is an error.
pub open spec fn after_eips(
    target: PodTargetView,
    eni_id: Seq<char>,
    eips: Seq<EipView>,
) -> PodProgress {
    let mine = for_pod(eips, target.name);
    if mine.len() == 0 {
        Progress::Finished(Ok(None))
    } else if mine.len() > 1 {
        Progress::Finished(Err(Error::MultipleEipsTaggedForPod))
    } else {
        match mine[0].allocation_id() {
            Some(allocation_id) => Progress::Pending(
                PodApplyView::DescribingAddress {
                    attachment: PodAttachmentView { target, eni_id, eip: mine[0], allocation_id },
                },
            ),
            None => Progress::Finished(Err(Error::MissingAllocationId)),
        }
    }
}

/// The address is claimed for the pod, once it is known to have a public address.
pub open spec fn after_address(
    attachment: PodAttachmentView,
    addresses: Option<Seq<AddressView>>,
) -> PodProgress {
    match addresses {
        None => Progress::Finished(Err(Error::MissingAddresses)),
        Some(addresses) => match addresses[0].public_ip {
            None => Progress::Finished(Err(Error::MissingPublicIp)),
            Some(public_ip) => Progress::Pending(
                PodApplyView::Claiming {
                    attachment,
                    public_ip,
                    attached: addresses[0].is_attached_to(
                        attachment.eni_id,
                        attachment.target.pod_ip,
                    ),
                },
            ),
        },
    }
}

impl PodJob {
    /// What is read off the pod.
    fn new(pod: &Pod) -> (r: PodJob)
        requires
            pod.name is Some,
            pod.namespace is Some,
        ensures
            r.deep_view() == job_of(pod.deep_view()),
    {
        PodJob {
            name: pod.name.clone().unwrap(),
            namespace: pod.namespace.clone().unwrap(),
            node_name: match pod.node_name() {
                Some(name) => Some(name.to_owned()),
                None => None,
            },
            pod_ip: match pod.ip() {
                Some(ip) => Some(ip.to_owned()),
                None => None,
            },
            pod_eni: match pod_eni_annotation(pod) {
                Some(text) => Some(text.clone()),
                None => None,
            },
        }
    }
}

impl PodApply {
    /// Starts to attach an address to a pod.
    pub fn start(pod: &Pod) -> (r: Progress<PodApply, Option<Action>>)
        requires
            pod.name is Some,
            pod.namespace is Some,
        ensures
            progress_view(r) == start_apply(pod.deep_view()),
    {
        let job = PodJob::new(pod);
        if should_autocreate_eip(pod) {
            Progress::Pending(PodApply::Creating { job })
        } else {
            Self::look_up_node(job)
        }
    }

    fn look_up_node(job: PodJob) -> (r: Progress<PodApply, Option<Action>>)
        ensures
            progress_view(r) == look_up_node(job.deep_view()),
    {
        match job.node_name {
            None => Progress::Finished(Ok(Some(Action::requeue_secs(3)))),
            Some(node_name) => match job.pod_ip {
                None => Progress::Finished(Err(Error::MissingPodIp)),
                Some(pod_ip) => Progress::Pending(
                    PodApply::GettingNode {
                        target: PodTarget { name: job.name, namespace: job.namespace, pod_ip },
                        pod_eni: job.pod_eni,
                        node_name,
                    },
                ),
            },
        }
    }

    fn after_node(
        target: PodTarget,
        pod_eni: Option<String>,
        provider_id: Option<&str>,
    ) -> (r: Progress<PodApply, Option<Action>>)
        ensures
            progress_view(r) == after_node(
                target.deep_view(),
                pod_eni.deep_view(),
                provider_id.deep_view(),
            ),
    {
        match provider_id {
            None => Progress::Finished(Err(Error::MissingProviderId)),
            Some(provider_id) => match text_after_last(provider_id, '/') {
                None => Progress::Finished(Err(Error::MalformedProviderId)),
                Some(instance_id) => {
                    let instance_id = instance_id.to_owned();
                    match pod_eni {
                        Some(pod_eni) => Progress::Pending(
                            PodApply::ReadingEnis { target, pod_eni, instance_id },
                        ),
                        None => Progress::Pending(
                            PodApply::DescribingInstance { target, instance_id },
                        ),
                    }
                },
            },
        }
    }

    fn after_enis(target: PodTarget, instance_id: String, eni_ids: Option<Vec<String>>) -> (r:
        Progress<PodApply, Option<Action>>)
        ensures
            progress_view(r) == after_enis(
                target.deep_view(),
                instance_id@,
                eni_ids.deep_view(),
            ),
    {
        match eni_ids {
            Some(ids) => {
                if ids.len() > 0 {
                    assert(ids.deep_view()[0] == ids[0]@);
                    Progress::Pending(PodApply::ListingEips { target, eni_id: ids[0].clone() })
                } else {
                    Progress::Pending(PodApply::DescribingInstance { target, instance_id })
                }
            },
            None => Progress::Pending(PodApply::DescribingInstance { target, instance_id }),
        }
    }

    fn after_eips(target: PodTarget, eni_id: String, eips: &Vec<Eip>) -> (r: Progress<
        PodApply,
        Option<Action>,
    >)
        ensures
            progress_view(r) == after_eips(target.deep_view(), eni_id@, eips.deep_view()),
    {
        let mine = eips_for_pod(eips, target.name.as_str());
        if mine.len() == 0 {
            Progress::Finished(Ok(None))
        } else if mine.len() > 1 {
            Progress::Finished(Err(Error::MultipleEipsTaggedForPod))
        } else {
            let eip = mine[0].clone();
            assert(mine.deep_view()[0] == mine[0].deep_view());
            let allocation_id = match eip.allocation_id() {
                Some(id) => id.clone(),
                None => {
                    return Progress::Finished(Err(Error::MissingAllocationId));
                },
            };
            Progress::Pending(
                PodApply::DescribingAddress {
                    attachment: PodAttachment { target, eni_id, eip, allocation_id },
                },
            )
        }
    }

    fn after_address(attachment: PodAttachment, addresses: Option<Vec<Address>>) -> (r: Progress<
        PodApply,
        Option<Action>,
    >)
        requires
            addresses matches Some(a) ==> a.len() > 0,
        ensures
            progress_view(r) == after_address(attachment.deep_view(), addresses.deep_view()),
    {
        match addresses {
            None => Progress::Finished(Err(Error::MissingAddresses)),
            Some(addresses) => {
                let address = &addresses[0];
                assert(addresses.deep_view()[0] == address.deep_view());
                match &address.public_ip {
                    None => Progress::Finished(Err(Error::MissingPublicIp)),
                    Some(public_ip) => {
                        let attached = is_attached_to(
                            address,
                            attachment.eni_id.as_str(),
                            attachment.target.pod_ip.as_str(),
                        );
                        Progress::Pending(
                            PodApply::Claiming {
                                attachment,
                                public_ip: public_ip.clone(),
                                attached,
                            },
                        )
                    },
                }
            },
        }
    }
}

impl Operation for PodApply {
    type Outcome = Option<Action>;

    open spec fn ask(state: PodApplyView) -> RequestView {
        match state {
            PodApplyView::Creating { job } => RequestView::CreateEipForPod {
                namespace: job.namespace,
                pod_name: job.name,
            },
            PodApplyView::GettingNode { node_name, .. } => RequestView::GetNode { name: node_name },
            PodApplyView::ReadingEnis { pod_eni, .. } => RequestView::ReadEniDescriptions {
                annotation: pod_eni,
            },
            PodApplyView::DescribingInstance { instance_id, .. } => RequestView::DescribeInstance {
                instance_id,
            },
            PodApplyView::ListingEips { target, .. } => RequestView::ListEips {
                scope: ApiScopeView::Namespaced(target.namespace),
            },
            PodApplyView::DescribingAddress { attachment } => RequestView::DescribeAddress {
                allocation_id: attachment.allocation_id,
            },
            PodApplyView::Claiming { attachment, .. } => RequestView::SetStatusShouldAttach {
                scope: ApiScopeView::Namespaced(attachment.target.namespace),
                eip: attachment.eip,
                eni_id: attachment.eni_id,
                private_ip: attachment.target.pod_ip,
                resource_id: attachment.target.name,
            },
            PodApplyView::Associating { attachment, .. } => RequestView::AssociateAddress {
                allocation_id: attachment.allocation_id,
                eni_id: attachment.eni_id,
                private_ip: attachment.target.pod_ip,
            },
            PodApplyView::RecordingAssociation { attachment, eip_name, association_id, .. } =>
                RequestView::SetStatusAssociationId {
                scope: ApiScopeView::Namespaced(attachment.target.namespace),
                name: eip_name,
                association_id,
            },
            PodApplyView::Annotating { attachment, public_ip } => RequestView::ApplyToPod {
                namespace: attachment.target.namespace,
                name: attachment.target.name,
                patch: dns_target_patch(public_ip, attachment.allocation_id),
            },
        }
    }

    open spec fn fits(state: PodApplyView, answer: Result<ReplyView, Error>) -> bool {
        match answer {
            Err(_) => true,
            Ok(reply) => match state {
                PodApplyView::Creating { .. } => reply is Done,
                PodApplyView::GettingNode { .. } => reply is Node,
                PodApplyView::ReadingEnis { .. } => reply is EniIds,
                PodApplyView::DescribingInstance { .. } => reply matches ReplyView::Instances(d)
                    && d.is_populated(),
                PodApplyView::ListingEips { .. } => reply is Eips,
                PodApplyView::DescribingAddress { .. } => reply matches ReplyView::Addresses(a) && (
                a matches Some(addresses) ==> addresses.len() > 0),
                PodApplyView::Claiming { .. } => reply is Done,
                PodApplyView::Associating { attachment, .. } => reply matches ReplyView::Associated(
                    id,
                ) && (id is Some ==> attachment.eip.name is Some),
                PodApplyView::RecordingAssociation { .. } => reply is Done,
                PodApplyView::Annotating { .. } => reply is Done,
            },
        }
    }

    open spec fn next(state: PodApplyView, answer: Result<ReplyView, Error>) -> PodProgress {
        match answer {
            Err(e) => Progress::Finished(Err(e)),
            Ok(reply) => match (state, reply) {
                (PodApplyView::Creating { job }, ReplyView::Done) => look_up_node(job),
                (
                    PodApplyView::GettingNode { target, pod_eni, .. },
                    ReplyView::Node(node),
                ) => after_node(target, pod_eni, node.provider_id()),
                (
                    PodApplyView::ReadingEnis { target, instance_id, .. },
                    ReplyView::EniIds(ids),
                ) => after_enis(target, instance_id, ids),
                (
                    PodApplyView::DescribingInstance { target, .. },
                    ReplyView::Instances(instances),
                ) => after_instance(target, instances),
                (PodApplyView::ListingEips { target, eni_id }, ReplyView::Eips(eips)) => after_eips(
                    target,
                    eni_id,
                    eips,
                ),
                (
                    PodApplyView::DescribingAddress { attachment },
                    ReplyView::Addresses(addresses),
                ) => after_address(attachment, addresses),
                (
                    PodApplyView::Claiming { attachment, public_ip, attached },
                    ReplyView::Done,
                ) => if attached {
                    Progress::Pending(PodApplyView::Annotating { attachment, public_ip })
                } else {
                    Progress::Pending(PodApplyView::Associating { attachment, public_ip })
                },
                (
                    PodApplyView::Associating { attachment, public_ip },
                    ReplyView::Associated(id),
                ) => match id {
                    None => Progress::Finished(Err(Error::MissingAssociationId)),
                    Some(association_id) => Progress::Pending(
                        PodApplyView::RecordingAssociation {
                            attachment,
                            public_ip,
                            eip_name: attachment.eip.name->0,
                            association_id,
                        },
                    ),
                },
                (
                    PodApplyView::RecordingAssociation { attachment, public_ip, .. },
                    ReplyView::Done,
                ) => Progress::Pending(PodApplyView::Annotating { attachment, public_ip }),
                (PodApplyView::Annotating { .. }, ReplyView::Done) => Progress::Finished(Ok(None)),
                _ => arbitrary(),
            },
        }
    }

    fn request(&self) -> (r: Request) {
        match self {
            PodApply::Creating { job } => Request::CreateEipForPod {
                namespace: job.namespace.clone(),
                pod_name: job.name.clone(),
            },
            PodApply::GettingNode { node_name, .. } => Request::GetNode { name: node_name.clone() },
            PodApply::ReadingEnis { pod_eni, .. } => Request::ReadEniDescriptions {
                annotation: pod_eni.clone(),
            },
            PodApply::DescribingInstance { instance_id, .. } => Request::DescribeInstance {
                instance_id: instance_id.clone(),
            },
            PodApply::ListingEips { target, .. } => Request::ListEips {
                scope: ApiScope::Namespaced(target.namespace.clone()),
            },
            PodApply::DescribingAddress { attachment } => Request::DescribeAddress {
                allocation_id: attachment.allocation_id.clone(),
            },
            PodApply::Claiming { attachment, .. } => Request::SetStatusShouldAttach {
                scope: ApiScope::Namespaced(attachment.target.namespace.clone()),
                eip: attachment.eip.clone(),
                eni_id: attachment.eni_id.clone(),
                private_ip: attachment.target.pod_ip.clone(),
                resource_id: attachment.target.name.clone(),
            },
            PodApply::Associating { attachment, .. } => Request::AssociateAddress {
                allocation_id: attachment.allocation_id.clone(),
                eni_id: attachment.eni_id.clone(),
                private_ip: attachment.target.pod_ip.clone(),
            },
            PodApply::RecordingAssociation { attachment, eip_name, association_id, .. } =>
                Request::SetStatusAssociationId {
                scope: ApiScope::Namespaced(attachment.target.namespace.clone()),
                name: eip_name.clone(),
                association_id: association_id.clone(),
            },
            PodApply::Annotating { attachment, public_ip } => Request::ApplyToPod {
                namespace: attachment.target.namespace.clone(),
                name: attachment.target.name.clone(),
                patch: add_dns_target_annotation(
                    public_ip.as_str(),
                    attachment.allocation_id.as_str(),
                ),
            },
        }
    }

    fn accepts(&self, answer: &Result<Reply, Error>) -> (r: bool) {
        let reply = match answer {
            Err(_) => {
                return true;
            },
            Ok(reply) => reply,
        };
        match (self, reply) {
            (PodApply::Creating { .. }, Reply::Done) => true,
            (PodApply::GettingNode { .. }, Reply::Node(_)) => true,
            (PodApply::ReadingEnis { .. }, Reply::EniIds(_)) => true,
            (PodApply::DescribingInstance { .. }, Reply::Instances(d)) => is_populated(d),
            (PodApply::ListingEips { .. }, Reply::Eips(_)) => true,
            (PodApply::DescribingAddress { .. }, Reply::Addresses(a)) => match a {
                Some(addresses) => addresses.len() > 0,
                None => true,
            },
            (PodApply::Claiming { .. }, Reply::Done) => true,
            (PodApply::Associating { attachment, .. }, Reply::Associated(id)) => id.is_none()
                || attachment.eip.name.is_some(),
            (PodApply::RecordingAssociation { .. }, Reply::Done) => true,
            (PodApply::Annotating { .. }, Reply::Done) => true,
            _ => false,
        }
    }

    fn resume(self, answer: Result<Reply, Error>) -> (r: Progress<Self, Option<Action>>) {
        let reply = match answer {
            Err(e) => {
                return Progress::Finished(Err(e));
            },
            Ok(reply) => reply,
        };
        match (self, reply) {
            (PodApply::Creating { job }, Reply::Done) => Self::look_up_node(job),
            (PodApply::GettingNode { target, pod_eni, .. }, Reply::Node(node)) => Self::after_node(
                target,
                pod_eni,
                node.provider_id(),
            ),
            (PodApply::ReadingEnis { target, instance_id, .. }, Reply::EniIds(ids)) =>
                Self::after_enis(target, instance_id, ids),
            (PodApply::DescribingInstance { target, .. }, Reply::Instances(instances)) => {
                match get_eni_from_private_ip(&instances, target.pod_ip.as_str()) {
                    Some(eni_id) => Progress::Pending(PodApply::ListingEips { target, eni_id }),
                    None => Progress::Finished(Err(Error::NoInterfaceWithThatIp)),
                }
            },
            (PodApply::ListingEips { target, eni_id }, Reply::Eips(eips)) => Self::after_eips(
                target,
                eni_id,
                &eips,
            ),
            (PodApply::DescribingAddress { attachment }, Reply::Addresses(addresses)) =>
                Self::after_address(attachment, addresses),
            (PodApply::Claiming { attachment, public_ip, attached }, Reply::Done) => if attached {
                Progress::Pending(PodApply::Annotating { attachment, public_ip })
            } else {
                Progress::Pending(PodApply::Associating { attachment, public_ip })
            },
            (PodApply::Associating { attachment, public_ip }, Reply::Associated(id)) => match id {
                None => Progress::Finished(Err(Error::MissingAssociationId)),
                Some(association_id) => {
                    let eip_name = attachment.eip.name.clone().unwrap();
                    Progress::Pending(
                        PodApply::RecordingAssociation {
                            attachment,
                            public_ip,
                            eip_name,
                            association_id,
                        },
                    )
                },
            },
            (PodApply::RecordingAssociation { attachment, public_ip, .. }, Reply::Done) =>
                Progress::Pending(PodApply::Annotating { attachment, public_ip }),
            (PodApply::Annotating { .. }, Reply::Done) => Progress::Finished(Ok(None)),
            _ => unreached(),
        }
    }
}

/// Detaching the addresses that a pod claims, when the pod goes away.
#[allow(inconsistent_fields)]
#[derive(Debug)]
pub enum PodCleanup {
    /// The `Eip`s of the namespace are being listed.
    ListingEips { name: String, namespace: String, autocreated: bool },
    /// The addresses that the pod claims are being detached.
    Detaching { name: String, namespace: String, autocreated: bool, detach: Detach },
    /// The `Eip` that was created for the pod is being deleted.
    Deleting { name: String, namespace: String },
}

/// A `PodCleanup` as a mathematical value.
#[allow(inconsistent_fields)]
pub enum PodCleanupView {
    ListingEips { name: Seq<char>, namespace: Seq<char>, autocreated: bool },
    Detaching { name: Seq<char>, namespace: Seq<char>, autocreated: bool, detach: DetachView },
    Deleting { name: Seq<char>, namespace: Seq<char> },
}

impl DeepView for PodCleanup {
    type V = PodCleanupView;

    open spec fn deep_view(&self) -> PodCleanupView {
        match self {
            PodCleanup::ListingEips { name, namespace, autocreated } =>
                PodCleanupView::ListingEips {
                name: name@,
                namespace: namespace@,
                autocreated: *autocreated,
            },
            PodCleanup::Detaching { name, namespace, autocreated, detach } =>
                PodCleanupView::Detaching {
                name: name@,
                namespace: namespace@,
                autocreated: *autocreated,
                detach: detach.deep_view(),
            },
            PodCleanup::Deleting { name, namespace } => PodCleanupView::Deleting {
                name: name@,
                namespace: namespace@,
            },
        }
    }
}

/// How the detaching of what a pod claims goes on.
pub type PodCleanupProgress = Progress<PodCleanupView, Option<Action>>;

/// Detaching what a pod claims starts with a look at the `Eip`s of its namespace.
pub open spec fn start_cleanup(pod: PodView) -> PodCleanupProgress {
    Progress::Pending(
        PodCleanupView::ListingEips {
            name: pod.name->0,
            namespace: pod.namespace->0,
            autocreated: pod.wants_eip(),
        },
    )
}

/// Once everything is detached, the `Eip` that was created for the pod is deleted.
pub open spec fn detaching(
    name: Seq<char>,
    namespace: Seq<char>,
    autocreated: bool,
    progress: Progress<DetachView, ()>,
) -> PodCleanupProgress {
    match progress {
        Progress::Pending(detach) => Progress::Pending(
            PodCleanupView::Detaching { name, namespace, autocreated, detach },
        ),
        Progress::Finished(Err(e)) => Progress::Finished(Err(e)),
        Progress::Finished(Ok(_)) => if autocreated {
            Progress::Pending(PodCleanupView::Deleting { name, namespace })
        } else {
            Progress::Finished(Ok(None))
        },
    }
}

impl PodCleanup {
    /// Starts to detach what a pod claims.
    pub fn start(pod: &Pod) -> (r: Progress<PodCleanup, Option<Action>>)
        requires
            pod.name is Some,
            pod.namespace is Some,
        ensures
            progress_view(r) == start_cleanup(pod.deep_view()),
    {
        Progress::Pending(
            PodCleanup::ListingEips {
                name: pod.name.clone().unwrap(),
                namespace: pod.namespace.clone().unwrap(),
                autocreated: should_autocreate_eip(pod),
            },
        )
    }

    fn detaching(
        name: String,
        namespace: String,
        autocreated: bool,
        progress: Progress<Detach, ()>,
    ) -> (r: Progress<PodCleanup, Option<Action>>)
        ensures
            progress_view(r) == detaching(
                name@,
                namespace@,
                autocreated,
                progress_view(progress),
            ),
    {
        match progress {
            Progress::Pending(detach) => Progress::Pending(
                PodCleanup::Detaching { name, namespace, autocreated, detach },
            ),
            Progress::Finished(Err(e)) => Progress::Finished(Err(e)),
            Progress::Finished(Ok(_)) => if autocreated {
                Progress::Pending(PodCleanup::Deleting { name, namespace })
            } else {
                Progress::Finished(Ok(None))
            },
        }
    }
}

impl Operation for PodCleanup {
    type Outcome = Option<Action>;

    open spec fn ask(state: PodCleanupView) -> RequestView {
        match state {
            PodCleanupView::ListingEips { namespace, .. } => RequestView::ListEips {
                scope: ApiScopeView::Namespaced(namespace),
            },
            PodCleanupView::Detaching { detach, .. } => Detach::ask(detach),
            PodCleanupView::Deleting { name, namespace } => RequestView::DeleteEip {
                namespace,
                name,
            },
        }
    }

    open spec fn fits(state: PodCleanupView, answer: Result<ReplyView, Error>) -> bool {
        match state {
            PodCleanupView::ListingEips { .. } => answer matches Ok(reply) ==> reply is Eips,
            PodCleanupView::Detaching { detach, .. } => Detach::fits(detach, answer),
            PodCleanupView::Deleting { .. } => answer matches Ok(reply) ==> reply is Done,
        }
    }

    open spec fn next(
        state: PodCleanupView,
        answer: Result<ReplyView, Error>,
    ) -> PodCleanupProgress {
        match (state, answer) {
            (PodCleanupView::Detaching { name, namespace, autocreated, detach }, _) => detaching(
                name,
                namespace,
                autocreated,
                Detach::next(detach, answer),
            ),
            (_, Err(e)) => Progress::Finished(Err(e)),
            (
                PodCleanupView::ListingEips { name, namespace, autocreated },
                Ok(ReplyView::Eips(eips)),
            ) => detaching(
                name,
                namespace,
                autocreated,
                start_detach(ApiScopeView::Namespaced(namespace), claimed_by(eips, name)),
            ),
            (PodCleanupView::Deleting { .. }, Ok(ReplyView::Done)) => Progress::Finished(Ok(None)),
            _ => arbitrary(),
        }
    }

    fn request(&self) -> (r: Request) {
        match self {
            PodCleanup::ListingEips { namespace, .. } => Request::ListEips {
                scope: ApiScope::Namespaced(namespace.clone()),
            },
            PodCleanup::Detaching { detach, .. } => detach.request(),
            PodCleanup::Deleting { name, namespace } => Request::DeleteEip {
                namespace: namespace.clone(),
                name: name.clone(),
            },
        }
    }

    fn accepts(&self, answer: &Result<Reply, Error>) -> (r: bool) {
        match (self, answer) {
            (PodCleanup::Detaching { detach, .. }, _) => detach.accepts(answer),
            (_, Err(_)) => true,
            (PodCleanup::ListingEips { .. }, Ok(Reply::Eips(_))) => true,
            (PodCleanup::Deleting { .. }, Ok(Reply::Done)) => true,
            _ => false,
        }
    }

    fn resume(self, answer: Result<Reply, Error>) -> (r: Progress<Self, Option<Action>>) {
        match self {
            PodCleanup::Detaching { name, namespace, autocreated, detach } => Self::detaching(
                name,
                namespace,
                autocreated,
                detach.resume(answer),
            ),
            PodCleanup::ListingEips { name, namespace, autocreated } => match answer {
                Err(e) => Progress::Finished(Err(e)),
                Ok(Reply::Eips(eips)) => {
                    let mine = eips_claimed_by(&eips, name.as_str());
                    let scope = ApiScope::Namespaced(namespace.clone());
                    Self::detaching(name, namespace, autocreated, Detach::start(scope, mine))
                },
                Ok(_) => unreached(),
            },
            PodCleanup::Deleting { .. } => match answer {
                Err(e) => Progress::Finished(Err(e)),
                Ok(_) => Progress::Finished(Ok(None)),
            },
        }
    }
}

/// How pods are reconciled.
#[derive(Debug)]
pub struct Context {}

impl Context {
    /// Pods are reconciled by what they and the `Eip`s say alone.
    pub fn new() -> (r: Self)
        ensures
            r == (Context {  }),
    {
        Context {  }
    }
}

impl ControllerContext for Context {
    type Resource = Pod;

    type Apply = PodApply;

    type Cleanup = PodCleanup;

    open spec fn finalizer() -> Seq<char> {
        "eip.materialize.cloud/disassociate"@
    }

    open spec fn namespace_of(pod: PodView) -> Option<Seq<char>> {
        pod.namespace
    }

    open spec fn is_applicable(pod: PodView) -> bool {
        pod.name is Some && pod.namespace is Some
    }

    open spec fn is_cleanable(pod: PodView) -> bool {
        pod.name is Some && pod.namespace is Some
    }

    open spec fn apply_start(&self, pod: PodView) -> PodProgress {
        start_apply(pod)
    }

    open spec fn cleanup_start(&self, pod: PodView) -> PodCleanupProgress {
        start_cleanup(pod)
    }

    fn finalizer_name() -> (r: &'static str) {
        "eip.materialize.cloud/disassociate"
    }

    fn resource_namespace(pod: &Pod) -> (r: Option<String>) {
        pod.namespace.clone()
    }

    fn can_apply(pod: &Pod) -> (r: bool) {
        pod.name.is_some() && pod.namespace.is_some()
    }

    fn can_cleanup(pod: &Pod) -> (r: bool) {
        pod.name.is_some() && pod.namespace.is_some()
    }

    fn apply(&self, pod: &Pod) -> (r: Progress<PodApply, Option<Action>>) {
        PodApply::start(pod)
    }

    fn cleanup(&self, pod: &Pod) -> (r: Progress<PodCleanup, Option<Action>>) {
        PodCleanup::start(pod)
    }
}

} // verus!

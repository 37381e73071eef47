//! The operator for clusters without `Eip` resources: every managed pod has an address of its own,
//! which is tagged with the uid of the pod.
use crate::aws::{
    default_tag_list, eni_with_ip, find_eni_with_ip, is_attached_to, is_populated, new_tag, orphans,
    tag, tag_filter, tag_filter_view, tags_of, Address, AddressView, Filter, FilterView,
    InstancesDescription, InstancesDescriptionView, Tag, TagView, LEGACY_CLUSTER_NAME_TAG, NAME_TAG,
};
use crate::controller::{applying, cleaning_up, Event, Reconcile};
use crate::error::Error;
use crate::kube_ext::{Node, NodeView, Pod, PodView};
use crate::labels::EXTERNAL_DNS_TARGET_ANNOTATION;
use crate::laws::lookup::{is_uid_of_a_pod, law_live_uids_are_those_listed};
use crate::operation::{
    progress_view, requeue_after_secs, Action, ApiScope, ApiScopeView, ApplyPatch, ApplyPatchView,
    Operation, Progress, Reply, ReplyView, Request, RequestView,
};
use crate::orphans::{legacy_cluster_filters, LEGACY_MANAGE_EIP_LABEL};
use crate::search::lemma_filter_step;
use crate::string_map::StringMap;
use crate::tasks::{
    release_all, release_orphans, release_tasks, start_tasks, TaskList, TaskListView,
};
use crate::text::{after_last, text_after_last};
use vstd::pervasive::unreached;
use vstd::prelude::*;

verus! {

/// The manager under which the operator owns the fields that it sets.
pub const LEGACY_FIELD_MANAGER: &'static str = "eip.aws.materialize.com";

/// The annotation of a pod that holds the id of its address.
pub const LEGACY_EIP_ALLOCATION_ID_ANNOTATION: &'static str =
    "eip.aws.materialize.com/allocation_id";

/// The tag that names the pod that an address belongs to, by its uid.
pub const LEGACY_POD_UID_TAG: &'static str = "eip.aws.materialize.com/pod_uid";

/// The tag that names the pod that an address belongs to, by its name.
pub const LEGACY_POD_NAME_TAG: &'static str = "eip.aws.materialize.com/pod_name";

/// The pod that is being reconciled, and what its address is tagged with besides.
#[derive(Debug)]
pub struct LegacyJob {
    pub pod_uid: String,
    pub pod_name: Option<String>,
    pub pod_ip: Option<String>,
    pub node_name: Option<String>,
    pub namespace: String,
    pub cluster_name: String,
    pub default_tags: Vec<(String, String)>,
}

/// The address that a pod has.
#[derive(Debug)]
pub struct HeldAddress {
    pub allocation_id: String,
    pub public_ip: String,
}

/// Seeing to it that a pod has an address, and that the address is attached to it.
#[allow(inconsistent_fields)]
#[derive(Debug)]
pub enum LegacyApply {
    /// The addresses that are tagged for the pod are being described.
    Describing { job: LegacyJob },
    /// An address is being allocated.
    Allocating { job: LegacyJob, pod_name: String },
    /// The node of the pod is being looked up.
    GettingNode { job: LegacyJob, held: HeldAddress, pod_ip: String, node_name: String },
    /// The instance behind the node is being described.
    DescribingInstance { job: LegacyJob, held: HeldAddress, pod_ip: String, instance_id: String },
    /// The address is being described.
    DescribingAddress { job: LegacyJob, held: HeldAddress, pod_ip: String, eni_id: String },
    /// The address is being associated.
    Associating { job: LegacyJob, held: HeldAddress, pod_ip: String, eni_id: String },
    /// The address is being published on the pod.
    Annotating { namespace: String, pod_name: String, held: HeldAddress },
}

/// A `LegacyJob` as a mathematical value.
pub struct LegacyJobView {
    pub pod_uid: Seq<char>,
    pub pod_name: Option<Seq<char>>,
    pub pod_ip: Option<Seq<char>>,
    pub node_name: Option<Seq<char>>,
    pub namespace: Seq<char>,
    pub cluster_name: Seq<char>,
    pub default_tags: Seq<(Seq<char>, Seq<char>)>,
}

/// A `HeldAddress` as a mathematical value.
pub struct HeldAddressView {
    pub allocation_id: Seq<char>,
    pub public_ip: Seq<char>,
}

/// A `LegacyApply` as a mathematical value.
#[allow(inconsistent_fields)]
pub enum LegacyApplyView {
    Describing { job: LegacyJobView },
    Allocating { job: LegacyJobView, pod_name: Seq<char> },
    GettingNode {
        job: LegacyJobView,
        held: HeldAddressView,
        pod_ip: Seq<char>,
        node_name: Seq<char>,
    },
    DescribingInstance {
        job: LegacyJobView,
        held: HeldAddressView,
        pod_ip: Seq<char>,
        instance_id: Seq<char>,
    },
    DescribingAddress {
        job: LegacyJobView,
        held: HeldAddressView,
        pod_ip: Seq<char>,
        eni_id: Seq<char>,
    },
    Associating { job: LegacyJobView, held: HeldAddressView, pod_ip: Seq<char>, eni_id: Seq<char> },
    Annotating { namespace: Seq<char>, pod_name: Seq<char>, held: HeldAddressView },
}

impl DeepView for LegacyJob {
    type V = LegacyJobView;

    open spec fn deep_view(&self) -> LegacyJobView {
        LegacyJobView {
            pod_uid: self.pod_uid@,
            pod_name: self.pod_name.deep_view(),
            pod_ip: self.pod_ip.deep_view(),
            node_name: self.node_name.deep_view(),
            namespace: self.namespace@,
            cluster_name: self.cluster_name@,
            default_tags: self.default_tags.deep_view(),
        }
    }
}

impl DeepView for HeldAddress {
    type V = HeldAddressView;

    open spec fn deep_view(&self) -> HeldAddressView {
        HeldAddressView { allocation_id: self.allocation_id@, public_ip: self.public_ip@ }
    }
}

impl DeepView for LegacyApply {
    type V = LegacyApplyView;

    open spec fn deep_view(&self) -> LegacyApplyView {
        match self {
            LegacyApply::Describing { job } => LegacyApplyView::Describing { job: job.deep_view() },
            LegacyApply::Allocating { job, pod_name } => LegacyApplyView::Allocating {
                job: job.deep_view(),
                pod_name: pod_name@,
            },
            LegacyApply::GettingNode { job, held, pod_ip, node_name } =>
                LegacyApplyView::GettingNode {
                job: job.deep_view(),
                held: held.deep_view(),
                pod_ip: pod_ip@,
                node_name: node_name@,
            },
            LegacyApply::DescribingInstance { job, held, pod_ip, instance_id } =>
                LegacyApplyView::DescribingInstance {
                job: job.deep_view(),
                held: held.deep_view(),
                pod_ip: pod_ip@,
                instance_id: instance_id@,
            },
            LegacyApply::DescribingAddress { job, held, pod_ip, eni_id } =>
                LegacyApplyView::DescribingAddress {
                job: job.deep_view(),
                held: held.deep_view(),
                pod_ip: pod_ip@,
                eni_id: eni_id@,
            },
            LegacyApply::Associating { job, held, pod_ip, eni_id } => LegacyApplyView::Associating {
                job: job.deep_view(),
                held: held.deep_view(),
                pod_ip: pod_ip@,
                eni_id: eni_id@,
            },
            LegacyApply::Annotating { namespace, pod_name, held } => LegacyApplyView::Annotating {
                namespace: namespace@,
                pod_name: pod_name@,
                held: held.deep_view(),
            },
        }
    }
}

/// How reconciling a pod goes on.
pub type LegacyProgress = Progress<LegacyApplyView, Action>;

/// The tags with which an address is marked that is allocated for a pod.
pub open spec fn legacy_tags(
    pod_uid: Seq<char>,
    pod_name: Seq<char>,
    cluster_name: Seq<char>,
) -> Seq<TagView> {
    seq![
        tag(LEGACY_POD_UID_TAG@, pod_uid),
        tag(LEGACY_CLUSTER_NAME_TAG@, cluster_name),
        tag(LEGACY_POD_NAME_TAG@, pod_name),
        tag(NAME_TAG@, "eip-operator:"@ + cluster_name + ":"@ + pod_name),
    ]
}

/// The tags for an address that is allocated for a pod: the default tags, then the operator's own.
pub fn legacy_allocate_address_tags(
    pod_uid: &str,
    pod_name: &str,
    cluster_name: &str,
    default_tags: &Vec<(String, String)>,
) -> (r: Vec<Tag>)
    ensures
        r.deep_view() == tags_of(default_tags.deep_view()) + legacy_tags(
            pod_uid@,
            pod_name@,
            cluster_name@,
        ),
{
    let mut tags = default_tag_list(default_tags);
    let ghost defaults = tags.deep_view();
    tags.push(new_tag(LEGACY_POD_UID_TAG, pod_uid));
    tags.push(new_tag(LEGACY_CLUSTER_NAME_TAG, cluster_name));
    tags.push(new_tag(LEGACY_POD_NAME_TAG, pod_name));
    let label = "eip-operator:".to_owned().concat(cluster_name).concat(":").concat(pod_name);
    tags.push(new_tag(NAME_TAG, label.as_str()));
    assert(tags.deep_view() =~= defaults + legacy_tags(pod_uid@, pod_name@, cluster_name@));
    tags
}

/// The patch that publishes an address on a pod.
pub open spec fn legacy_dns_target_patch(held: HeldAddressView) -> ApplyPatchView {
    ApplyPatchView {
        field_manager: LEGACY_FIELD_MANAGER@,
        kind: "Pod"@,
        annotations: seq![
            (LEGACY_EIP_ALLOCATION_ID_ANNOTATION@, held.allocation_id),
            (EXTERNAL_DNS_TARGET_ANNOTATION@, held.public_ip),
        ],
        labels: Seq::empty(),
    }
}

/// The patch that tells external-dns which address to publish for a pod.
pub fn legacy_add_dns_target_annotation(held: &HeldAddress) -> (r: ApplyPatch)
    ensures
        r.deep_view() == legacy_dns_target_patch(held.deep_view()),
{
    let mut annotations: Vec<(String, String)> = Vec::new();
    annotations.push(
        (LEGACY_EIP_ALLOCATION_ID_ANNOTATION.to_owned(), held.allocation_id.clone()),
    );
    annotations.push((EXTERNAL_DNS_TARGET_ANNOTATION.to_owned(), held.public_ip.clone()));
    let patch = ApplyPatch {
        field_manager: LEGACY_FIELD_MANAGER.to_owned(),
        kind: "Pod".to_owned(),
        annotations,
        labels: Vec::new(),
    };
    proof {
        let wanted = legacy_dns_target_patch(held.deep_view());
        assert(patch.annotations.deep_view() =~= wanted.annotations);
        assert(patch.labels.deep_view() =~= wanted.labels);
    }
    patch
}

/// The filter for the addresses that are tagged for a pod.
pub open spec fn pod_uid_filters(pod_uid: Seq<char>) -> Seq<FilterView> {
    seq![tag_filter_view(LEGACY_POD_UID_TAG@, pod_uid)]
}

/// The filter for the resources whose tag `key` has that value, as a list.
fn single_filter(key: &str, value: &str) -> (r: Vec<Filter>)
    ensures
        r.deep_view() == seq![tag_filter_view(key@, value@)],
{
    let mut filters: Vec<Filter> = Vec::new();
    filters.push(tag_filter(key, value));
    assert(filters.deep_view() =~= seq![tag_filter_view(key@, value@)]);
    filters
}

/// Reconciling a pod starts with a look for its address. The pod has to have a uid.
pub open spec fn start_apply(
    pod: PodView,
    namespace: Seq<char>,
    cluster_name: Seq<char>,
    default_tags: Seq<(Seq<char>, Seq<char>)>,
) -> LegacyProgress {
    match pod.uid {
        None => Progress::Finished(Err(Error::MissingPodUid)),
        Some(pod_uid) => Progress::Pending(
            LegacyApplyView::Describing {
                job: LegacyJobView {
                    pod_uid,
                    pod_name: pod.name,
                    pod_ip: pod.ip(),
                    node_name: pod.node_name(),
                    namespace,
                    cluster_name,
                    default_tags,
                },
            },
        ),
    }
}

/// Once the address is known, the node of the pod is looked up. The pod has to have an address of
/// its own and a node.
pub open spec fn hold_address(
    job: LegacyJobView,
    allocation_id: Option<Seq<char>>,
    public_ip: Option<Seq<char>>,
) -> LegacyProgress {
    match (allocation_id, public_ip, job.pod_ip, job.node_name) {
        (None, _, _, _) => Progress::Finished(Err(Error::MissingAllocationId)),
        (_, None, _, _) => Progress::Finished(Err(Error::MissingPublicIp)),
        (_, _, None, _) => Progress::Finished(Err(Error::MissingPodIp)),
        (_, _, _, None) => Progress::Finished(Err(Error::MissingNodeName)),
        (Some(allocation_id), Some(public_ip), Some(pod_ip), Some(node_name)) => Progress::Pending(
            LegacyApplyView::GettingNode {
                job,
                held: HeldAddressView { allocation_id, public_ip },
                pod_ip,
                node_name,
            },
        ),
    }
}

/// The one address that is tagged for the pod is its address. Where there is none, one is
/// allocated; more than one is an error.
pub open spec fn after_addresses(
    job: LegacyJobView,
    addresses: Option<Seq<AddressView>>,
) -> LegacyProgress {
    match addresses {
        None => Progress::Finished(Err(Error::MissingAddresses)),
        Some(addresses) => if addresses.len() == 0 {
            match job.pod_name {
                Some(pod_name) => Progress::Pending(LegacyApplyView::Allocating { job, pod_name }),
                None => Progress::Finished(Err(Error::MissingPodName)),
            }
        } else if addresses.len() == 1 {
            hold_address(job, addresses[0].allocation_id, addresses[0].public_ip)
        } else {
            Progress::Finished(Err(Error::MultipleEipsTaggedForPod))
        },
    }
}

/// The instance behind the node is described. The node has to have a provider id with a slash in
/// it.
pub open spec fn after_node(
    job: LegacyJobView,
    held: HeldAddressView,
    pod_ip: Seq<char>,
    node: NodeView,
) -> LegacyProgress {
    match node.provider_id() {
        None => Progress::Finished(Err(Error::MissingProviderId)),
        Some(provider_id) => match after_last(provider_id, '/') {
            None => Progress::Finished(Err(Error::MalformedProviderId)),
            Some(instance_id) => Progress::Pending(
                LegacyApplyView::DescribingInstance { job, held, pod_ip, instance_id },
            ),
        },
    }
}

/// The id of the first interface of the instance with that private address, or what is missing.
pub open spec fn eni_or_error(
    instances: InstancesDescriptionView,
    private_ip: Seq<char>,
) -> Result<Seq<char>, Error> {
    match instances.reservations {
        None => Err(Error::MissingReservations),
        Some(reservations) => match reservations[0].instances {
            None => Err(Error::MissingInstances),
            Some(instances) => match instances[0].network_interfaces {
                None => Err(Error::MissingNetworkInterfaces),
                Some(interfaces) => match eni_with_ip(interfaces, private_ip) {
                    None => Err(Error::NoInterfaceWithThatIp),
                    Some(eni_id) => Ok(eni_id),
                },
            },
        },
    }
}

/// The id of the first interface of the instance with that private address, or what is missing.
pub fn find_eni_or_error(instances: &InstancesDescription, private_ip: &str) -> (r: Result<
    String,
    Error,
>)
    requires
        instances.deep_view().is_populated(),
    ensures
        match eni_or_error(instances.deep_view(), private_ip@) {
            Ok(eni_id) => r matches Ok(id) && id@ == eni_id,
            Err(e) => r == Err::<String, Error>(e),
        },
{
    let reservations = match &instances.reservations {
        Some(reservations) => reservations,
        None => {
            return Err(Error::MissingReservations);
        },
    };
    assert(reservations.deep_view()[0] == reservations[0].deep_view());
    let machines = match &reservations[0].instances {
        Some(machines) => machines,
        None => {
            return Err(Error::MissingInstances);
        },
    };
    assert(machines.deep_view()[0] == machines[0].deep_view());
    let interfaces = match &machines[0].network_interfaces {
        Some(interfaces) => interfaces,
        None => {
            return Err(Error::MissingNetworkInterfaces);
        },
    };
    match find_eni_with_ip(interfaces, private_ip) {
        Some(eni_id) => Ok(eni_id),
        None => Err(Error::NoInterfaceWithThatIp),
    }
}

/// The address is published on the pod, which has to have a name.
pub open spec fn annotate(job: LegacyJobView, held: HeldAddressView) -> LegacyProgress {
    match job.pod_name {
        Some(pod_name) => Progress::Pending(
            LegacyApplyView::Annotating { namespace: job.namespace, pod_name, held },
        ),
        None => Progress::Finished(Err(Error::MissingPodName)),
    }
}

/// The address is associated, unless it is attached to the pod already, and then published.
pub open spec fn after_address(
    job: LegacyJobView,
    held: HeldAddressView,
    pod_ip: Seq<char>,
    eni_id: Seq<char>,
    address: AddressView,
) -> LegacyProgress {
    if address.is_attached_to(eni_id, pod_ip) {
        annotate(job, held)
    } else {
        Progress::Pending(LegacyApplyView::Associating { job, held, pod_ip, eni_id })
    }
}

impl LegacyApply {
    /// Starts to reconcile a pod.
    pub fn start(
        pod: &Pod,
        namespace: &str,
        cluster_name: &str,
        default_tags: Vec<(String, String)>,
    ) -> (r: Progress<LegacyApply, Action>)
        ensures
            progress_view(r) == start_apply(
                pod.deep_view(),
                namespace@,
                cluster_name@,
                default_tags.deep_view(),
            ),
    {
        let pod_uid = match &pod.uid {
            Some(uid) => uid.clone(),
            None => {
                return Progress::Finished(Err(Error::MissingPodUid));
            },
        };
        Progress::Pending(
            LegacyApply::Describing {
                job: LegacyJob {
                    pod_uid,
                    pod_name: pod.name.clone(),
                    pod_ip: match pod.ip() {
                        Some(ip) => Some(ip.to_owned()),
                        None => None,
                    },
                    node_name: match pod.node_name() {
                        Some(name) => Some(name.to_owned()),
                        None => None,
                    },
                    namespace: namespace.to_owned(),
                    cluster_name: cluster_name.to_owned(),
                    default_tags,
                },
            },
        )
    }

    fn hold_address(
        job: LegacyJob,
        allocation_id: Option<String>,
        public_ip: Option<String>,
    ) -> (r: Progress<LegacyApply, Action>)
        ensures
            progress_view(r) == hold_address(
                job.deep_view(),
                allocation_id.deep_view(),
                public_ip.deep_view(),
            ),
    {
        let allocation_id = match allocation_id {
            Some(id) => id,
            None => {
                return Progress::Finished(Err(Error::MissingAllocationId));
            },
        };
        let public_ip = match public_ip {
            Some(ip) => ip,
            None => {
                return Progress::Finished(Err(Error::MissingPublicIp));
            },
        };
        let pod_ip = match &job.pod_ip {
            Some(ip) => ip.clone(),
            None => {
                return Progress::Finished(Err(Error::MissingPodIp));
            },
        };
        let node_name = match &job.node_name {
            Some(name) => name.clone(),
            None => {
                return Progress::Finished(Err(Error::MissingNodeName));
            },
        };
        Progress::Pending(
            LegacyApply::GettingNode {
                job,
                held: HeldAddress { allocation_id, public_ip },
                pod_ip,
                node_name,
            },
        )
    }

    fn after_addresses(job: LegacyJob, addresses: Option<Vec<Address>>) -> (r: Progress<
        LegacyApply,
        Action,
    >)
        ensures
            progress_view(r) == after_addresses(job.deep_view(), addresses.deep_view()),
    {
        match addresses {
            None => Progress::Finished(Err(Error::MissingAddresses)),
            Some(addresses) => {
                if addresses.len() == 0 {
                    match &job.pod_name {
                        Some(pod_name) => {
                            let pod_name = pod_name.clone();
                            Progress::Pending(LegacyApply::Allocating { job, pod_name })
                        },
                        None => Progress::Finished(Err(Error::MissingPodName)),
                    }
                } else if addresses.len() == 1 {
                    let address = &addresses[0];
                    assert(addresses.deep_view()[0] == address.deep_view());
                    Self::hold_address(
                        job,
                        address.allocation_id.clone(),
                        address.public_ip.clone(),
                    )
                } else {
                    Progress::Finished(Err(Error::MultipleEipsTaggedForPod))
                }
            },
        }
    }

    fn after_node(job: LegacyJob, held: HeldAddress, pod_ip: String, node: &Node) -> (r: Progress<
        LegacyApply,
        Action,
    >)
        ensures
            progress_view(r) == after_node(
                job.deep_view(),
                held.deep_view(),
                pod_ip@,
                node.deep_view(),
            ),
    {
        match node.provider_id() {
            None => Progress::Finished(Err(Error::MissingProviderId)),
            Some(provider_id) => match text_after_last(provider_id, '/') {
                None => Progress::Finished(Err(Error::MalformedProviderId)),
                Some(instance_id) => Progress::Pending(
                    LegacyApply::DescribingInstance {
                        job,
                        held,
                        pod_ip,
                        instance_id: instance_id.to_owned(),
                    },
                ),
            },
        }
    }

    fn annotate(job: LegacyJob, held: HeldAddress) -> (r: Progress<LegacyApply, Action>)
        ensures
            progress_view(r) == annotate(job.deep_view(), held.deep_view()),
    {
        match job.pod_name {
            Some(pod_name) => Progress::Pending(
                LegacyApply::Annotating { namespace: job.namespace, pod_name, held },
            ),
            None => Progress::Finished(Err(Error::MissingPodName)),
        }
    }
}

impl Operation for LegacyApply {
    type Outcome = Action;

    open spec fn ask(state: LegacyApplyView) -> RequestView {
        match state {
            LegacyApplyView::Describing { job } => RequestView::DescribeAddresses {
                filters: pod_uid_filters(job.pod_uid),
            },
            LegacyApplyView::Allocating { job, pod_name } => RequestView::AllocateAddress {
                tags: tags_of(job.default_tags) + legacy_tags(
                    job.pod_uid,
                    pod_name,
                    job.cluster_name,
                ),
            },
            LegacyApplyView::GettingNode { node_name, .. } => RequestView::GetNode {
                name: node_name,
            },
            LegacyApplyView::DescribingInstance { instance_id, .. } =>
                RequestView::DescribeInstance { instance_id },
            LegacyApplyView::DescribingAddress { held, .. } => RequestView::DescribeAddress {
                allocation_id: held.allocation_id,
            },
            LegacyApplyView::Associating { held, pod_ip, eni_id, .. } =>
                RequestView::AssociateAddress {
                allocation_id: held.allocation_id,
                eni_id,
                private_ip: pod_ip,
            },
            LegacyApplyView::Annotating { namespace, pod_name, held } => RequestView::ApplyToPod {
                namespace,
                name: pod_name,
                patch: legacy_dns_target_patch(held),
            },
        }
    }

    open spec fn fits(state: LegacyApplyView, answer: Result<ReplyView, Error>) -> bool {
        match answer {
            Err(_) => true,
            Ok(reply) => match state {
                LegacyApplyView::Describing { .. } => reply is Addresses,
                LegacyApplyView::Allocating { .. } => reply is Allocated,
                LegacyApplyView::GettingNode { .. } => reply is Node,
                LegacyApplyView::DescribingInstance { .. } => reply matches ReplyView::Instances(d)
                    && d.is_populated(),
                LegacyApplyView::DescribingAddress { .. } => reply matches ReplyView::Addresses(a)
                    && (a matches Some(addresses) ==> addresses.len() > 0),
                LegacyApplyView::Associating { .. } => reply is Associated,
                LegacyApplyView::Annotating { .. } => reply is Done,
            },
        }
    }

    open spec fn next(state: LegacyApplyView, answer: Result<ReplyView, Error>) -> LegacyProgress {
        match (state, answer) {
            (_, Err(e)) => Progress::Finished(Err(e)),
            (
                LegacyApplyView::Describing { job },
                Ok(ReplyView::Addresses(addresses)),
            ) => after_addresses(job, addresses),
            (
                LegacyApplyView::Allocating { job, .. },
                Ok(ReplyView::Allocated(address)),
            ) => hold_address(job, address.allocation_id, address.public_ip),
            (
                LegacyApplyView::GettingNode { job, held, pod_ip, .. },
                Ok(ReplyView::Node(node)),
            ) => after_node(job, held, pod_ip, node),
            (
                LegacyApplyView::DescribingInstance { job, held, pod_ip, .. },
                Ok(ReplyView::Instances(instances)),
            ) => match eni_or_error(instances, pod_ip) {
                Err(e) => Progress::Finished(Err(e)),
                Ok(eni_id) => Progress::Pending(
                    LegacyApplyView::DescribingAddress { job, held, pod_ip, eni_id },
                ),
            },
            (
                LegacyApplyView::DescribingAddress { job, held, pod_ip, eni_id },
                Ok(ReplyView::Addresses(addresses)),
            ) => match addresses {
                None => Progress::Finished(Err(Error::MissingAddresses)),
                Some(addresses) => after_address(job, held, pod_ip, eni_id, addresses[0]),
            },
            (
                LegacyApplyView::Associating { job, held, .. },
                Ok(ReplyView::Associated(_)),
            ) => annotate(job, held),
            (LegacyApplyView::Annotating { .. }, Ok(ReplyView::Done)) => Progress::Finished(
                Ok(requeue_after_secs(300)),
            ),
            _ => arbitrary(),
        }
    }

    fn request(&self) -> (r: Request) {
        match self {
            LegacyApply::Describing { job } => Request::DescribeAddresses {
                filters: single_filter(LEGACY_POD_UID_TAG, job.pod_uid.as_str()),
            },
            LegacyApply::Allocating { job, pod_name } => Request::AllocateAddress {
                tags: legacy_allocate_address_tags(
                    job.pod_uid.as_str(),
                    pod_name.as_str(),
                    job.cluster_name.as_str(),
                    &job.default_tags,
                ),
            },
            LegacyApply::GettingNode { node_name, .. } => Request::GetNode {
                name: node_name.clone(),
            },
            LegacyApply::DescribingInstance { instance_id, .. } => Request::DescribeInstance {
                instance_id: instance_id.clone(),
            },
            LegacyApply::DescribingAddress { held, .. } => Request::DescribeAddress {
                allocation_id: held.allocation_id.clone(),
            },
            LegacyApply::Associating { held, pod_ip, eni_id, .. } => Request::AssociateAddress {
                allocation_id: held.allocation_id.clone(),
                eni_id: eni_id.clone(),
                private_ip: pod_ip.clone(),
            },
            LegacyApply::Annotating { namespace, pod_name, held } => Request::ApplyToPod {
                namespace: namespace.clone(),
                name: pod_name.clone(),
                patch: legacy_add_dns_target_annotation(held),
            },
        }
    }

    fn accepts(&self, answer: &Result<Reply, Error>) -> (r: bool) {
        match (self, answer) {
            (_, Err(_)) => true,
            (LegacyApply::Describing { .. }, Ok(Reply::Addresses(_))) => true,
            (LegacyApply::Allocating { .. }, Ok(Reply::Allocated(_))) => true,
            (LegacyApply::GettingNode { .. }, Ok(Reply::Node(_))) => true,
            (LegacyApply::DescribingInstance { .. }, Ok(Reply::Instances(d))) => is_populated(d),
            (LegacyApply::DescribingAddress { .. }, Ok(Reply::Addresses(a))) => match a {
                Some(addresses) => addresses.len() > 0,
                None => true,
            },
            (LegacyApply::Associating { .. }, Ok(Reply::Associated(_))) => true,
            (LegacyApply::Annotating { .. }, Ok(Reply::Done)) => true,
            _ => false,
        }
    }

    fn resume(self, answer: Result<Reply, Error>) -> (r: Progress<Self, Action>) {
        match (self, answer) {
            (_, Err(e)) => Progress::Finished(Err(e)),
            (LegacyApply::Describing { job }, Ok(Reply::Addresses(addresses))) =>
                Self::after_addresses(job, addresses),
            (LegacyApply::Allocating { job, .. }, Ok(Reply::Allocated(address))) =>
                Self::hold_address(job, address.allocation_id, address.public_ip),
            (LegacyApply::GettingNode { job, held, pod_ip, .. }, Ok(Reply::Node(node))) =>
                Self::after_node(job, held, pod_ip, &node),
            (
                LegacyApply::DescribingInstance { job, held, pod_ip, .. },
                Ok(Reply::Instances(instances)),
            ) => match find_eni_or_error(&instances, pod_ip.as_str()) {
                Err(e) => Progress::Finished(Err(e)),
                Ok(eni_id) => Progress::Pending(
                    LegacyApply::DescribingAddress { job, held, pod_ip, eni_id },
                ),
            },
            (
                LegacyApply::DescribingAddress { job, held, pod_ip, eni_id },
                Ok(Reply::Addresses(addresses)),
            ) => match addresses {
                None => Progress::Finished(Err(Error::MissingAddresses)),
                Some(addresses) => {
                    assert(addresses.deep_view()[0] == addresses[0].deep_view());
                    if is_attached_to(&addresses[0], eni_id.as_str(), pod_ip.as_str()) {
                        Self::annotate(job, held)
                    } else {
                        Progress::Pending(LegacyApply::Associating { job, held, pod_ip, eni_id })
                    }
                },
            },
            (LegacyApply::Associating { job, held, .. }, Ok(Reply::Associated(_))) =>
                Self::annotate(job, held),
            (LegacyApply::Annotating { .. }, Ok(Reply::Done)) => Progress::Finished(
                Ok(Action::requeue_secs(300)),
            ),
            _ => unreached(),
        }
    }
}

/// Giving back the addresses of a pod that goes away.
#[allow(inconsistent_fields)]
#[derive(Debug)]
pub enum LegacyCleanup {
    /// The addresses are being described.
    Describing { pod_uid: String },
    /// The addresses are being given back.
    Releasing { tasks: TaskList },
}

/// A `LegacyCleanup` as a mathematical value.
#[allow(inconsistent_fields)]
pub enum LegacyCleanupView {
    Describing { pod_uid: Seq<char> },
    Releasing { tasks: TaskListView },
}

impl DeepView for LegacyCleanup {
    type V = LegacyCleanupView;

    open spec fn deep_view(&self) -> LegacyCleanupView {
        match self {
            LegacyCleanup::Describing { pod_uid } => LegacyCleanupView::Describing {
                pod_uid: pod_uid@,
            },
            LegacyCleanup::Releasing { tasks } => LegacyCleanupView::Releasing {
                tasks: tasks.deep_view(),
            },
        }
    }
}

/// How giving back the addresses of a pod goes on.
pub type LegacyCleanupProgress = Progress<LegacyCleanupView, Action>;

/// Giving back the addresses of a pod starts with a look for them. The pod has to have a uid.
pub open spec fn start_cleanup(pod: PodView) -> LegacyCleanupProgress {
    match pod.uid {
        Some(pod_uid) => Progress::Pending(LegacyCleanupView::Describing { pod_uid }),
        None => Progress::Finished(Err(Error::MissingPodUid)),
    }
}

/// Giving addresses back goes on as the list of tasks does. Then the pod is left alone.
pub open spec fn releasing(progress: Progress<TaskListView, ()>) -> LegacyCleanupProgress {
    match progress {
        Progress::Pending(tasks) => Progress::Pending(LegacyCleanupView::Releasing { tasks }),
        Progress::Finished(Ok(_)) => Progress::Finished(Ok(Action { requeue_after_millis: None })),
        Progress::Finished(Err(e)) => Progress::Finished(Err(e)),
    }
}

impl LegacyCleanup {
    /// Starts to give back the addresses of a pod.
    pub fn cleanup_pod_eip(pod: &Pod) -> (r: Progress<LegacyCleanup, Action>)
        ensures
            progress_view(r) == start_cleanup(pod.deep_view()),
    {
        match &pod.uid {
            Some(uid) => Progress::Pending(LegacyCleanup::Describing { pod_uid: uid.clone() }),
            None => Progress::Finished(Err(Error::MissingPodUid)),
        }
    }

    fn releasing(progress: Progress<TaskList, ()>) -> (r: Progress<LegacyCleanup, Action>)
        ensures
            progress_view(r) == releasing(progress_view(progress)),
    {
        match progress {
            Progress::Pending(tasks) => Progress::Pending(LegacyCleanup::Releasing { tasks }),
            Progress::Finished(Ok(_)) => Progress::Finished(
                Ok(Action { requeue_after_millis: None }),
            ),
            Progress::Finished(Err(e)) => Progress::Finished(Err(e)),
        }
    }
}

impl Operation for LegacyCleanup {
    type Outcome = Action;

    open spec fn ask(state: LegacyCleanupView) -> RequestView {
        match state {
            LegacyCleanupView::Describing { pod_uid } => RequestView::DescribeAddresses {
                filters: pod_uid_filters(pod_uid),
            },
            LegacyCleanupView::Releasing { tasks } => TaskList::ask(tasks),
        }
    }

    open spec fn fits(state: LegacyCleanupView, answer: Result<ReplyView, Error>) -> bool {
        match state {
            LegacyCleanupView::Describing { .. } => answer matches Ok(reply) ==> reply is Addresses,
            LegacyCleanupView::Releasing { tasks } => TaskList::fits(tasks, answer),
        }
    }

    open spec fn next(
        state: LegacyCleanupView,
        answer: Result<ReplyView, Error>,
    ) -> LegacyCleanupProgress {
        match (state, answer) {
            (LegacyCleanupView::Releasing { tasks }, _) => releasing(TaskList::next(tasks, answer)),
            (_, Err(e)) => Progress::Finished(Err(e)),
            (_, Ok(ReplyView::Addresses(Some(addresses)))) => releasing(
                start_tasks(release_all(addresses, true), None),
            ),
            (_, Ok(ReplyView::Addresses(None))) => Progress::Finished(Err(Error::MissingAddresses)),
            _ => arbitrary(),
        }
    }

    fn request(&self) -> (r: Request) {
        match self {
            LegacyCleanup::Describing { pod_uid } => Request::DescribeAddresses {
                filters: single_filter(LEGACY_POD_UID_TAG, pod_uid.as_str()),
            },
            LegacyCleanup::Releasing { tasks } => tasks.request(),
        }
    }

    fn accepts(&self, answer: &Result<Reply, Error>) -> (r: bool) {
        match self {
            LegacyCleanup::Describing { .. } => match answer {
                Ok(Reply::Addresses(_)) => true,
                Ok(_) => false,
                Err(_) => true,
            },
            LegacyCleanup::Releasing { tasks } => tasks.accepts(answer),
        }
    }

    fn resume(self, answer: Result<Reply, Error>) -> (r: Progress<Self, Action>) {
        match self {
            LegacyCleanup::Releasing { tasks } => Self::releasing(tasks.resume(answer)),
            LegacyCleanup::Describing { .. } => match answer {
                Err(e) => Progress::Finished(Err(e)),
                Ok(Reply::Addresses(Some(addresses))) => Self::releasing(
                    TaskList::start(release_tasks(&addresses, true), None),
                ),
                Ok(Reply::Addresses(None)) => Progress::Finished(Err(Error::MissingAddresses)),
                Ok(_) => unreached(),
            },
        }
    }
}

/// Giving back the addresses whose pod is gone from the cluster, before the controller starts.
#[allow(inconsistent_fields)]
#[derive(Debug)]
pub enum LegacyOrphanCleanup {
    /// The addresses that are tagged for the cluster are being described.
    Describing { cluster_name: String },
    /// The pods of the cluster are being listed.
    ListingPods { addresses: Vec<Address> },
    /// The orphaned addresses are being given back.
    Releasing { tasks: TaskList },
}

/// A `LegacyOrphanCleanup` as a mathematical value.
#[allow(inconsistent_fields)]
pub enum LegacyOrphanCleanupView {
    Describing { cluster_name: Seq<char> },
    ListingPods { addresses: Seq<AddressView> },
    Releasing { tasks: TaskListView },
}

impl DeepView for LegacyOrphanCleanup {
    type V = LegacyOrphanCleanupView;

    open spec fn deep_view(&self) -> LegacyOrphanCleanupView {
        match self {
            LegacyOrphanCleanup::Describing { cluster_name } =>
                LegacyOrphanCleanupView::Describing { cluster_name: cluster_name@ },
            LegacyOrphanCleanup::ListingPods { addresses } =>
                LegacyOrphanCleanupView::ListingPods { addresses: addresses.deep_view() },
            LegacyOrphanCleanup::Releasing { tasks } => LegacyOrphanCleanupView::Releasing {
                tasks: tasks.deep_view(),
            },
        }
    }
}

/// How giving back orphaned addresses goes on.
pub type LegacyOrphanProgress = Progress<LegacyOrphanCleanupView, ()>;

/// The uids of the pods that have one.
pub open spec fn pod_uids(pods: Seq<PodView>) -> Seq<Seq<char>> {
    pods.filter(|p: PodView| p.uid is Some).map_values(|p: PodView| p.uid->0)
}

/// Giving orphaned addresses back goes on as the list of tasks does.
pub open spec fn releasing_orphans(progress: Progress<TaskListView, ()>) -> LegacyOrphanProgress {
    match progress {
        Progress::Pending(tasks) => Progress::Pending(LegacyOrphanCleanupView::Releasing { tasks }),
        Progress::Finished(outcome) => Progress::Finished(outcome),
    }
}

/// The uids of the pods that have one.
fn collect_pod_uids(pods: &Vec<Pod>) -> (r: Vec<String>)
    ensures
        r.deep_view() == pod_uids(pods.deep_view()),
        forall|uid: Seq<char>| #[trigger]
            r.deep_view().contains(uid) <==> is_uid_of_a_pod(pods.deep_view(), uid),
{
    proof {
        law_live_uids_are_those_listed(Seq::empty(), pods.deep_view());
    }
    let ghost all = pods.deep_view();
    let ghost known = |p: PodView| p.uid is Some;
    let mut uids: Vec<String> = Vec::new();
    let mut i: usize = 0;
    proof {
        reveal(Seq::filter);
        assert(all.take(0) =~= Seq::empty());
        assert(uids.deep_view() =~= pod_uids(all.take(0)));
    }
    while i < pods.len()
        invariant
            all == pods.deep_view(),
            known == (|p: PodView| p.uid is Some),
            i <= pods.len(),
            uids.deep_view() == pod_uids(all.take(i as int)),
        decreases pods.len() - i,
    {
        let ghost before = uids.deep_view();
        proof {
            lemma_filter_step(all, known, i as int);
        }
        if let Some(uid) = &pods[i].uid {
            uids.push(uid.clone());
            assert(uids.deep_view() =~= before.push(uid@));
            assert(pod_uids(all.take(i + 1)) =~= before.push(uid@));
        }
        i = i + 1;
    }
    proof {
        assert(all.take(all.len() as int) =~= all);
    }
    uids
}

impl LegacyOrphanCleanup {
    /// Starts to give back the orphaned addresses of a cluster.
    pub fn cleanup_orphan_eips(cluster_name: &str) -> (r: Progress<LegacyOrphanCleanup, ()>)
        ensures
            progress_view(r) == Progress::<LegacyOrphanCleanupView, ()>::Pending(
                LegacyOrphanCleanupView::Describing { cluster_name: cluster_name@ },
            ),
    {
        Progress::Pending(
            LegacyOrphanCleanup::Describing { cluster_name: cluster_name.to_owned() },
        )
    }

    fn releasing(progress: Progress<TaskList, ()>) -> (r: Progress<LegacyOrphanCleanup, ()>)
        ensures
            progress_view(r) == releasing_orphans(progress_view(progress)),
    {
        match progress {
            Progress::Pending(tasks) => Progress::Pending(LegacyOrphanCleanup::Releasing { tasks }),
            Progress::Finished(outcome) => Progress::Finished(outcome),
        }
    }
}

impl Operation for LegacyOrphanCleanup {
    type Outcome = ();

    open spec fn ask(state: LegacyOrphanCleanupView) -> RequestView {
        match state {
            LegacyOrphanCleanupView::Describing { cluster_name } => RequestView::DescribeAddresses {
                filters: legacy_cluster_filters(cluster_name),
            },
            LegacyOrphanCleanupView::ListingPods { .. } => RequestView::ListPods {
                scope: ApiScopeView::All,
                label_selector: LEGACY_MANAGE_EIP_LABEL@,
            },
            LegacyOrphanCleanupView::Releasing { tasks } => TaskList::ask(tasks),
        }
    }

    open spec fn fits(state: LegacyOrphanCleanupView, answer: Result<ReplyView, Error>) -> bool {
        match state {
            LegacyOrphanCleanupView::Describing { .. } => answer matches Ok(reply)
                ==> reply is Addresses,
            LegacyOrphanCleanupView::ListingPods { .. } => answer matches Ok(reply)
                ==> reply is Pods,
            LegacyOrphanCleanupView::Releasing { tasks } => TaskList::fits(tasks, answer),
        }
    }

    open spec fn next(
        state: LegacyOrphanCleanupView,
        answer: Result<ReplyView, Error>,
    ) -> LegacyOrphanProgress {
        match (state, answer) {
            (LegacyOrphanCleanupView::Releasing { tasks }, _) => releasing_orphans(
                TaskList::next(tasks, answer),
            ),
            (_, Err(e)) => Progress::Finished(Err(e)),
            (
                LegacyOrphanCleanupView::Describing { .. },
                Ok(ReplyView::Addresses(addresses)),
            ) => match addresses {
                None => Progress::Finished(Err(Error::MissingAddresses)),
                Some(addresses) => Progress::Pending(
                    LegacyOrphanCleanupView::ListingPods { addresses },
                ),
            },
            (
                LegacyOrphanCleanupView::ListingPods { addresses },
                Ok(ReplyView::Pods(pods)),
            ) => releasing_orphans(
                start_tasks(
                    release_all(orphans(addresses, LEGACY_POD_UID_TAG@, pod_uids(pods)), true),
                    None,
                ),
            ),
            _ => arbitrary(),
        }
    }

    fn request(&self) -> (r: Request) {
        match self {
            LegacyOrphanCleanup::Describing { cluster_name } => Request::DescribeAddresses {
                filters: single_filter(LEGACY_CLUSTER_NAME_TAG, cluster_name.as_str()),
            },
            LegacyOrphanCleanup::ListingPods { .. } => Request::ListPods {
                scope: ApiScope::All,
                label_selector: LEGACY_MANAGE_EIP_LABEL.to_owned(),
            },
            LegacyOrphanCleanup::Releasing { tasks } => tasks.request(),
        }
    }

    fn accepts(&self, answer: &Result<Reply, Error>) -> (r: bool) {
        match (self, answer) {
            (LegacyOrphanCleanup::Releasing { tasks }, _) => tasks.accepts(answer),
            (_, Err(_)) => true,
            (LegacyOrphanCleanup::Describing { .. }, Ok(Reply::Addresses(_))) => true,
            (LegacyOrphanCleanup::ListingPods { .. }, Ok(Reply::Pods(_))) => true,
            _ => false,
        }
    }

    fn resume(self, answer: Result<Reply, Error>) -> (r: Progress<Self, ()>) {
        match self {
            LegacyOrphanCleanup::Releasing { tasks } => Self::releasing(tasks.resume(answer)),
            LegacyOrphanCleanup::Describing { .. } => match answer {
                Err(e) => Progress::Finished(Err(e)),
                Ok(Reply::Addresses(Some(addresses))) => Progress::Pending(
                    LegacyOrphanCleanup::ListingPods { addresses },
                ),
                Ok(Reply::Addresses(None)) => Progress::Finished(Err(Error::MissingAddresses)),
                Ok(_) => unreached(),
            },
            LegacyOrphanCleanup::ListingPods { addresses } => match answer {
                Err(e) => Progress::Finished(Err(e)),
                Ok(Reply::Pods(pods)) => {
                    let live = collect_pod_uids(&pods);
                    let tasks = release_orphans(&addresses, LEGACY_POD_UID_TAG, &live, true);
                    Self::releasing(TaskList::start(tasks, None))
                },
                Ok(_) => unreached(),
            },
        }
    }
}

/// How pods are reconciled.
#[derive(Debug)]
pub struct ContextData {
    pub namespace: String,
    pub cluster_name: String,
    pub default_tags: StringMap,
}

impl ContextData {
    /// Pods of that namespace get addresses that are tagged for that cluster.
    pub fn new(namespace: String, cluster_name: String, default_tags: StringMap) -> (r: ContextData)
        ensures
            r.namespace == namespace,
            r.cluster_name == cluster_name,
            r.default_tags == default_tags,
    {
        ContextData { namespace, cluster_name, default_tags }
    }

    /// Starts to reconcile a pod.
    pub fn reconcile(&self, event: &Event<Pod>) -> (r: Progress<
        Reconcile<LegacyApply, LegacyCleanup>,
        Action,
    >)
        ensures
            progress_view(r) == (match *event {
                Event::Apply(pod) => applying(
                    start_apply(
                        pod.deep_view(),
                        self.namespace@,
                        self.cluster_name@,
                        self.default_tags.listed(),
                    ),
                ),
                Event::Cleanup(pod) => cleaning_up(start_cleanup(pod.deep_view())),
            }),
    {
        match event {
            Event::Apply(pod) => Reconcile::applying(
                LegacyApply::start(
                    pod,
                    self.namespace.as_str(),
                    self.cluster_name.as_str(),
                    self.default_tags.to_pairs(),
                ),
            ),
            Event::Cleanup(pod) => Reconcile::cleaning_up(LegacyCleanup::cleanup_pod_eip(pod)),
        }
    }

    /// What to do once reconciling a pod has failed: try again after five seconds.
    pub fn on_error(&self) -> (r: Action)
        ensures
            r == requeue_after_secs(5),
    {
        Action::requeue_secs(5)
    }
}

/// An error in the words that this operator reports it in.
pub open spec fn legacy_text(e: Error) -> Seq<char> {
    match e {
        Error::AllocateAddress { source } => "Rusoto allocate_address reported error: "@ + source@,
        Error::AwsDescribeInstances { source } => "Rusoto describe_instances reported error: "@
            + source@,
        Error::AwsDescribeAddresses { source } => "Rusoto describe_addresses reported error: "@
            + source@,
        Error::AwsAssociateAddress { source } => "Rusoto associate_address reported error: "@
            + source@,
        Error::AwsDisassociateAddress { source } => "Rusoto disassociate_address reported error: "@
            + source.message@,
        Error::AwsReleaseAddress { source } => "Rusoto release_address reported error: "@ + source@,
        Error::MissingNetworkInterfaces =>
            "DescribeInstancesResult.reservations[0].instances[0].network_insterfaces was None."@,
        e => e.text(),
    }
}

/// An error in the words that this operator reports it in.
pub fn legacy_message(e: &Error) -> (r: String)
    ensures
        r@ == legacy_text(*e),
{
    match e {
        Error::AllocateAddress { source } =>
            "Rusoto allocate_address reported error: ".to_owned().concat(source.as_str()),
        Error::AwsDescribeInstances { source } =>
            "Rusoto describe_instances reported error: ".to_owned().concat(source.as_str()),
        Error::AwsDescribeAddresses { source } =>
            "Rusoto describe_addresses reported error: ".to_owned().concat(source.as_str()),
        Error::AwsAssociateAddress { source } =>
            "Rusoto associate_address reported error: ".to_owned().concat(source.as_str()),
        Error::AwsDisassociateAddress { source } =>
            "Rusoto disassociate_address reported error: ".to_owned().concat(
            source.message.as_str(),
        ),
        Error::AwsReleaseAddress { source } =>
            "Rusoto release_address reported error: ".to_owned().concat(source.as_str()),
        Error::MissingNetworkInterfaces =>
            "DescribeInstancesResult.reservations[0].instances[0].network_insterfaces was None.".to_owned(),
        e => e.message(),
    }
}

} // verus!

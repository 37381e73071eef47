//! Reconciling an `Eip`: allocating its address, watching over what it is attached to, and giving
//! the address back.
use crate::aws::{
    allocate_address_tags, disassociate_eip, eip_tags, is_already_gone, tag_filter, tag_filter_view,
    tags_of, Address, AddressView, Filter, FilterView, EIP_UID_TAG,
};
use crate::controller::Context as ControllerContext;
use crate::eip::{Eip, EipView};
use crate::error::Error;
use crate::operation::{
    progress_view, Action, ApiScope, ApiScopeView, MatchedResource, MatchedResourceView, Operation,
    Progress, Reply, ReplyView, Request, RequestView,
};
use crate::string_map::StringMap;
use crate::tasks::{release_all, release_tasks, start_tasks, TaskList, TaskListView};
use crate::text::str_eq;
use vstd::pervasive::unreached;
use vstd::prelude::*;

verus! {

/// The `Eip` that is being reconciled, and what its address is tagged with besides.
#[derive(Debug)]
pub struct EipJob {
    pub eip: Eip,
    pub uid: String,
    pub name: String,
    pub namespace: String,
    pub cluster_name: String,
    pub default_tags: Vec<(String, String)>,
}

/// Seeing to it that an `Eip` has an address, and that what it is meant for takes it up.
#[allow(inconsistent_fields)]
#[derive(Debug)]
pub enum EipApply {
    /// The addresses that are tagged for the `Eip` are being described.
    Describing { job: EipJob },
    /// An address is being allocated.
    Allocating { job: EipJob },
    /// The address is being recorded in the status of the `Eip`.
    Recording { job: EipJob, allocation_id: String, public_ip: String },
    /// The pods or nodes that the `Eip` is meant for are being listed.
    Listing { job: EipJob },
    /// The association with something that the `Eip` is not meant for is being ended.
    Disassociating { job: EipJob, association_id: String, names: Vec<String> },
    /// That the `Eip` is detached is being recorded in its status.
    Detaching { job: EipJob, names: Vec<String> },
    /// A pod or node that the `Eip` is meant for is being asked to take it up.
    Refreshing { job: EipJob, name: String, rest: Vec<String> },
}

/// An `EipJob` as a mathematical value.
pub struct EipJobView {
    pub eip: EipView,
    pub uid: Seq<char>,
    pub name: Seq<char>,
    pub namespace: Seq<char>,
    pub cluster_name: Seq<char>,
    pub default_tags: Seq<(Seq<char>, Seq<char>)>,
}

/// An `EipApply` as a mathematical value.
#[allow(inconsistent_fields)]
pub enum EipApplyView {
    Describing { job: EipJobView },
    Allocating { job: EipJobView },
    Recording { job: EipJobView, allocation_id: Seq<char>, public_ip: Seq<char> },
    Listing { job: EipJobView },
    Disassociating { job: EipJobView, association_id: Seq<char>, names: Seq<Seq<char>> },
    Detaching { job: EipJobView, names: Seq<Seq<char>> },
    Refreshing { job: EipJobView, name: Seq<char>, rest: Seq<Seq<char>> },
}

impl DeepView for EipJob {
    type V = EipJobView;

    open spec fn deep_view(&self) -> EipJobView {
        EipJobView {
            eip: self.eip.deep_view(),
            uid: self.uid@,
            name: self.name@,
            namespace: self.namespace@,
            cluster_name: self.cluster_name@,
            default_tags: self.default_tags.deep_view(),
        }
    }
}

impl DeepView for EipApply {
    type V = EipApplyView;

    open spec fn deep_view(&self) -> EipApplyView {
        match self {
            EipApply::Describing { job } => EipApplyView::Describing { job: job.deep_view() },
            EipApply::Allocating { job } => EipApplyView::Allocating { job: job.deep_view() },
            EipApply::Recording { job, allocation_id, public_ip } => EipApplyView::Recording {
                job: job.deep_view(),
                allocation_id: allocation_id@,
                public_ip: public_ip@,
            },
            EipApply::Listing { job } => EipApplyView::Listing { job: job.deep_view() },
            EipApply::Disassociating { job, association_id, names } =>
                EipApplyView::Disassociating {
                job: job.deep_view(),
                association_id: association_id@,
                names: names.deep_view(),
            },
            EipApply::Detaching { job, names } => EipApplyView::Detaching {
                job: job.deep_view(),
                names: names.deep_view(),
            },
            EipApply::Refreshing { job, name, rest } => EipApplyView::Refreshing {
                job: job.deep_view(),
                name: name@,
                rest: rest.deep_view(),
            },
        }
    }
}

/// How an operation on an `Eip` goes on.
pub type EipProgress = Progress<EipApplyView, Option<Action>>;

impl MatchedResourceView {
    /// The name of the resource, or else the stem of the name that it asks for.
    pub open spec fn any_name(self) -> Seq<char> {
        match self.name {
            Some(name) => name,
            None => match self.generate_name {
                Some(stem) => stem,
                None => Seq::empty(),
            },
        }
    }
}

/// Whether one of the resources has that name.
pub open spec fn any_named(resources: Seq<MatchedResourceView>, name: Seq<char>) -> bool {
    exists|i: int| 0 <= i < resources.len() && (#[trigger] resources[i]).any_name() == name
}

/// Whether every resource has a name.
pub open spec fn all_have_names(resources: Seq<MatchedResourceView>) -> bool {
    forall|i: int| 0 <= i < resources.len() ==> (#[trigger] resources[i]).name is Some
}

/// The names of the resources.
pub open spec fn names_of(resources: Seq<MatchedResourceView>) -> Seq<Seq<char>> {
    resources.map_values(|r: MatchedResourceView| r.name->0)
}

/// The pod or node that the status of the `Eip` says it is claimed by.
pub open spec fn recorded_resource(eip: EipView) -> Option<Seq<char>> {
    match eip.status {
        Some(status) => status.resource_id,
        None => None,
    }
}

/// The association that the status of the `Eip` records.
pub open spec fn recorded_association(eip: EipView) -> Option<Seq<char>> {
    match eip.status {
        Some(status) => status.association_id,
        None => None,
    }
}

/// The filter for the addresses that are tagged for an `Eip`.
pub open spec fn uid_filters(uid: Seq<char>) -> Seq<FilterView> {
    seq![tag_filter_view(EIP_UID_TAG@, uid)]
}

/// Reconciling an `Eip` starts with a look for its address. The `Eip` has to have a uid.
pub open spec fn start_apply(
    eip: EipView,
    cluster_name: Seq<char>,
    default_tags: Seq<(Seq<char>, Seq<char>)>,
) -> EipProgress {
    match eip.uid {
        Some(uid) => Progress::Pending(
            EipApplyView::Describing {
                job: EipJobView {
                    eip,
                    uid,
                    name: eip.name->0,
                    namespace: eip.namespace->0,
                    cluster_name,
                    default_tags,
                },
            },
        ),
        None => Progress::Finished(Err(Error::MissingEipUid)),
    }
}

/// An address is recorded once both its ids are known.
pub open spec fn record_address(
    job: EipJobView,
    allocation_id: Option<Seq<char>>,
    public_ip: Option<Seq<char>>,
) -> EipProgress {
    match (allocation_id, public_ip) {
        (None, _) => Progress::Finished(Err(Error::MissingAllocationId)),
        (Some(_), None) => Progress::Finished(Err(Error::MissingPublicIp)),
        (Some(allocation_id), Some(public_ip)) => Progress::Pending(
            EipApplyView::Recording { job, allocation_id, public_ip },
        ),
    }
}

/// The one address that is tagged for the `Eip` is its address. Where there is none, one is
/// allocated; more than one is an error.
pub open spec fn after_addresses(
    job: EipJobView,
    addresses: Option<Seq<AddressView>>,
) -> EipProgress {
    match addresses {
        None => Progress::Finished(Err(Error::MissingAddresses)),
        Some(addresses) => if addresses.len() == 0 {
            Progress::Pending(EipApplyView::Allocating { job })
        } else if addresses.len() == 1 {
            record_address(job, addresses[0].allocation_id, addresses[0].public_ip)
        } else {
            Progress::Finished(Err(Error::MultipleEipsTaggedForPod))
        },
    }
}

/// An `Eip` that is claimed by something that it is meant for is left alone. One that is claimed by
/// something else is detached first. Then all that it is meant for is asked to take it up.
pub open spec fn after_resources(
    job: EipJobView,
    resources: Seq<MatchedResourceView>,
) -> EipProgress {
    match recorded_resource(job.eip) {
        Some(resource_id) => if any_named(resources, resource_id) {
            Progress::Finished(Ok(None))
        } else {
            match recorded_association(job.eip) {
                Some(association_id) => Progress::Pending(
                    EipApplyView::Disassociating {
                        job,
                        association_id,
                        names: names_of(resources),
                    },
                ),
                None => Progress::Pending(
                    EipApplyView::Detaching { job, names: names_of(resources) },
                ),
            }
        },
        None => refresh(job, names_of(resources)),
    }
}

/// The resources are asked one by one.
pub open spec fn refresh(job: EipJobView, names: Seq<Seq<char>>) -> EipProgress {
    if names.len() == 0 {
        Progress::Finished(Ok(None))
    } else {
        Progress::Pending(
            EipApplyView::Refreshing { job, name: names[0], rest: names.drop_first() },
        )
    }
}

/// Whether one of the resources has that name.
fn is_any_named(resources: &Vec<MatchedResource>, name: &str) -> (r: bool)
    ensures
        r == any_named(resources.deep_view(), name@),
{
    let ghost all = resources.deep_view();
    let mut i: usize = 0;
    while i < resources.len()
        invariant
            all == resources.deep_view(),
            i <= resources.len(),
            forall|j: int| 0 <= j < i ==> (#[trigger] all[j]).any_name() != name@,
        decreases resources.len() - i,
    {
        let resource = &resources[i];
        assert(all[i as int] == resource.deep_view());
        let named = match &resource.name {
            Some(n) => str_eq(n.as_str(), name),
            None => match &resource.generate_name {
                Some(stem) => str_eq(stem.as_str(), name),
                None => {
                    let nothing = String::new();
                    str_eq(nothing.as_str(), name)
                },
            },
        };
        if named {
            return true;
        }
        i = i + 1;
    }
    false
}

/// Whether every resource has a name.
fn do_all_have_names(resources: &Vec<MatchedResource>) -> (r: bool)
    ensures
        r == all_have_names(resources.deep_view()),
{
    let ghost all = resources.deep_view();
    let mut i: usize = 0;
    while i < resources.len()
        invariant
            all == resources.deep_view(),
            i <= resources.len(),
            forall|j: int| 0 <= j < i ==> (#[trigger] all[j]).name is Some,
        decreases resources.len() - i,
    {
        assert(all[i as int] == resources[i as int].deep_view());
        if resources[i].name.is_none() {
            return false;
        }
        i = i + 1;
    }
    true
}

/// The names of the resources.
fn collect_names(resources: &Vec<MatchedResource>) -> (r: Vec<String>)
    requires
        all_have_names(resources.deep_view()),
    ensures
        r.deep_view() == names_of(resources.deep_view()),
{
    let ghost all = resources.deep_view();
    let mut names: Vec<String> = Vec::new();
    let mut i: usize = 0;
    while i < resources.len()
        invariant
            all == resources.deep_view(),
            all_have_names(all),
            i <= resources.len(),
            names.deep_view() =~= names_of(all.take(i as int)),
        decreases resources.len() - i,
    {
        let ghost before = names.deep_view();
        assert(all[i as int] == resources[i as int].deep_view());
        assert(all[i as int].name is Some);
        let name = resources[i].name.clone().unwrap();
        names.push(name);
        assert(names.deep_view() =~= before.push(name@));
        i = i + 1;
    }
    proof {
        assert(all.take(all.len() as int) =~= all);
    }
    names
}

/// The filter for the addresses that are tagged for an `Eip`.
pub fn filters_for_uid(uid: &str) -> (r: Vec<Filter>)
    ensures
        r.deep_view() == uid_filters(uid@),
{
    let mut filters: Vec<Filter> = Vec::new();
    filters.push(tag_filter(EIP_UID_TAG, uid));
    assert(filters.deep_view() =~= uid_filters(uid@));
    filters
}

impl EipApply {
    /// Starts to reconcile an `Eip`.
    pub fn start(eip: Eip, cluster_name: &str, default_tags: Vec<(String, String)>) -> (r: Progress<
        EipApply,
        Option<Action>,
    >)
        requires
            eip.namespace is Some,
            eip.uid is Some ==> eip.name is Some,
        ensures
            progress_view(r) == start_apply(
                eip.deep_view(),
                cluster_name@,
                default_tags.deep_view(),
            ),
    {
        let uid = match &eip.uid {
            Some(uid) => uid.clone(),
            None => {
                return Progress::Finished(Err(Error::MissingEipUid));
            },
        };
        let name = eip.name.clone().unwrap();
        let namespace = eip.namespace.clone().unwrap();
        Progress::Pending(
            EipApply::Describing {
                job: EipJob {
                    eip,
                    uid,
                    name,
                    namespace,
                    cluster_name: cluster_name.to_owned(),
                    default_tags,
                },
            },
        )
    }

    fn record_address(
        job: EipJob,
        allocation_id: Option<String>,
        public_ip: Option<String>,
    ) -> (r: Progress<EipApply, Option<Action>>)
        ensures
            progress_view(r) == record_address(
                job.deep_view(),
                allocation_id.deep_view(),
                public_ip.deep_view(),
            ),
    {
        match allocation_id {
            None => Progress::Finished(Err(Error::MissingAllocationId)),
            Some(allocation_id) => match public_ip {
                None => Progress::Finished(Err(Error::MissingPublicIp)),
                Some(public_ip) => Progress::Pending(
                    EipApply::Recording { job, allocation_id, public_ip },
                ),
            },
        }
    }

    fn after_addresses(job: EipJob, addresses: Option<Vec<Address>>) -> (r: Progress<
        EipApply,
        Option<Action>,
    >)
        ensures
            progress_view(r) == after_addresses(job.deep_view(), addresses.deep_view()),
    {
        match addresses {
            None => Progress::Finished(Err(Error::MissingAddresses)),
            Some(addresses) => {
                if addresses.len() == 0 {
                    Progress::Pending(EipApply::Allocating { job })
                } else if addresses.len() == 1 {
                    let address = &addresses[0];
                    assert(addresses.deep_view()[0] == address.deep_view());
                    Self::record_address(
                        job,
                        address.allocation_id.clone(),
                        address.public_ip.clone(),
                    )
                } else {
                    Progress::Finished(Err(Error::MultipleEipsTaggedForPod))
                }
            },
        }
    }

    fn after_resources(job: EipJob, resources: Vec<MatchedResource>) -> (r: Progress<
        EipApply,
        Option<Action>,
    >)
        requires
            recorded_resource(job.eip.deep_view()) matches Some(resource_id) && any_named(
                resources.deep_view(),
                resource_id,
            ) || all_have_names(resources.deep_view()),
        ensures
            progress_view(r) == after_resources(job.deep_view(), resources.deep_view()),
    {
        let (resource_id, association_id) = match &job.eip.status {
            Some(status) => (status.resource_id.clone(), status.association_id.clone()),
            None => (None, None),
        };
        match resource_id {
            Some(resource_id) => {
                if is_any_named(&resources, resource_id.as_str()) {
                    Progress::Finished(Ok(None))
                } else {
                    let names = collect_names(&resources);
                    match association_id {
                        Some(association_id) => Progress::Pending(
                            EipApply::Disassociating { job, association_id, names },
                        ),
                        None => Progress::Pending(EipApply::Detaching { job, names }),
                    }
                }
            },
            None => Self::refresh(job, collect_names(&resources)),
        }
    }

    fn refresh(job: EipJob, names: Vec<String>) -> (r: Progress<EipApply, Option<Action>>)
        ensures
            progress_view(r) == refresh(job.deep_view(), names.deep_view()),
    {
        if names.len() == 0 {
            return Progress::Finished(Ok(None));
        }
        let ghost all = names.deep_view();
        let mut rest = names;
        let name = rest.remove(0);
        proof {
            assert(all[0] == name@);
            assert(rest.deep_view() =~= all.drop_first());
        }
        Progress::Pending(EipApply::Refreshing { job, name, rest })
    }
}

impl EipJob {
    fn scope(&self) -> (r: ApiScope)
        ensures
            r.deep_view() == ApiScopeView::Namespaced(self.namespace@),
    {
        ApiScope::Namespaced(self.namespace.clone())
    }
}

impl Operation for EipApply {
    type Outcome = Option<Action>;

    open spec fn ask(state: EipApplyView) -> RequestView {
        match state {
            EipApplyView::Describing { job } => RequestView::DescribeAddresses {
                filters: uid_filters(job.uid),
            },
            EipApplyView::Allocating { job } => RequestView::AllocateAddress {
                tags: tags_of(job.default_tags) + eip_tags(
                    job.uid,
                    job.name,
                    job.eip.selector,
                    job.cluster_name,
                    job.namespace,
                ),
            },
            EipApplyView::Recording { job, allocation_id, public_ip } =>
                RequestView::SetStatusCreated {
                namespace: job.namespace,
                name: job.name,
                allocation_id,
                public_ip,
            },
            EipApplyView::Listing { job } => RequestView::ListMatchedResources {
                namespace: job.namespace,
                selector: job.eip.selector,
            },
            EipApplyView::Disassociating { association_id, .. } =>
                RequestView::DisassociateAddress { association_id },
            EipApplyView::Detaching { job, .. } => RequestView::SetStatusDetached {
                scope: ApiScopeView::Namespaced(job.namespace),
                eip: job.eip,
            },
            EipApplyView::Refreshing { job, name, .. } => RequestView::RefreshResource {
                namespace: job.namespace,
                selector: job.eip.selector,
                name,
            },
        }
    }

    open spec fn fits(state: EipApplyView, answer: Result<ReplyView, Error>) -> bool {
        match answer {
            Err(_) => true,
            Ok(reply) => match state {
                EipApplyView::Describing { .. } => reply is Addresses,
                EipApplyView::Allocating { .. } => reply is Allocated,
                EipApplyView::Recording { .. } => reply is Done,
                EipApplyView::Listing { job } => reply matches ReplyView::Resources(resources) && (
                recorded_resource(job.eip) matches Some(resource_id) && any_named(
                    resources,
                    resource_id,
                ) || all_have_names(resources)),
                EipApplyView::Disassociating { .. } => reply is Disassociated,
                EipApplyView::Detaching { .. } => reply is Done,
                EipApplyView::Refreshing { .. } => reply is Done,
            },
        }
    }

    open spec fn next(state: EipApplyView, answer: Result<ReplyView, Error>) -> EipProgress {
        match (state, answer) {
            (EipApplyView::Refreshing { job, rest, .. }, _) => refresh(job, rest),
            (_, Err(e)) => Progress::Finished(Err(e)),
            (
                EipApplyView::Describing { job },
                Ok(ReplyView::Addresses(addresses)),
            ) => after_addresses(job, addresses),
            (EipApplyView::Allocating { job }, Ok(ReplyView::Allocated(address))) => record_address(
                job,
                address.allocation_id,
                address.public_ip,
            ),
            (EipApplyView::Recording { job, .. }, Ok(ReplyView::Done)) => Progress::Pending(
                EipApplyView::Listing { job },
            ),
            (
                EipApplyView::Listing { job },
                Ok(ReplyView::Resources(resources)),
            ) => after_resources(job, resources),
            (
                EipApplyView::Disassociating { job, names, .. },
                Ok(ReplyView::Disassociated(response)),
            ) => match response {
                Err(e) if !is_already_gone(e) => Progress::Finished(
                    Err(Error::AwsDisassociateAddress { source: e }),
                ),
                _ => Progress::Pending(EipApplyView::Detaching { job, names }),
            },
            (EipApplyView::Detaching { job, names }, Ok(ReplyView::Done)) => refresh(job, names),
            _ => arbitrary(),
        }
    }

    fn request(&self) -> (r: Request) {
        match self {
            EipApply::Describing { job } => Request::DescribeAddresses {
                filters: filters_for_uid(job.uid.as_str()),
            },
            EipApply::Allocating { job } => Request::AllocateAddress {
                tags: allocate_address_tags(
                    job.uid.as_str(),
                    job.name.as_str(),
                    &job.eip.selector,
                    job.cluster_name.as_str(),
                    job.namespace.as_str(),
                    &job.default_tags,
                ),
            },
            EipApply::Recording { job, allocation_id, public_ip } => Request::SetStatusCreated {
                namespace: job.namespace.clone(),
                name: job.name.clone(),
                allocation_id: allocation_id.clone(),
                public_ip: public_ip.clone(),
            },
            EipApply::Listing { job } => Request::ListMatchedResources {
                namespace: job.namespace.clone(),
                selector: job.eip.selector.clone(),
            },
            EipApply::Disassociating { association_id, .. } => Request::DisassociateAddress {
                association_id: association_id.clone(),
            },
            EipApply::Detaching { job, .. } => Request::SetStatusDetached {
                scope: job.scope(),
                eip: job.eip.clone(),
            },
            EipApply::Refreshing { job, name, .. } => Request::RefreshResource {
                namespace: job.namespace.clone(),
                selector: job.eip.selector.clone(),
                name: name.clone(),
            },
        }
    }

    fn accepts(&self, answer: &Result<Reply, Error>) -> (r: bool) {
        match (self, answer) {
            (_, Err(_)) => true,
            (EipApply::Describing { .. }, Ok(Reply::Addresses(_))) => true,
            (EipApply::Allocating { .. }, Ok(Reply::Allocated(_))) => true,
            (EipApply::Recording { .. }, Ok(Reply::Done)) => true,
            (EipApply::Listing { job }, Ok(Reply::Resources(resources))) => {
                let settled = match &job.eip.status {
                    Some(status) => match &status.resource_id {
                        Some(resource_id) => is_any_named(resources, resource_id.as_str()),
                        None => false,
                    },
                    None => false,
                };
                settled || do_all_have_names(resources)
            },
            (EipApply::Disassociating { .. }, Ok(Reply::Disassociated(_))) => true,
            (EipApply::Detaching { .. }, Ok(Reply::Done)) => true,
            (EipApply::Refreshing { .. }, Ok(Reply::Done)) => true,
            _ => false,
        }
    }

    fn resume(self, answer: Result<Reply, Error>) -> (r: Progress<Self, Option<Action>>) {
        match (self, answer) {
            (EipApply::Refreshing { job, rest, .. }, _) => Self::refresh(job, rest),
            (_, Err(e)) => Progress::Finished(Err(e)),
            (EipApply::Describing { job }, Ok(Reply::Addresses(addresses))) =>
                Self::after_addresses(job, addresses),
            (EipApply::Allocating { job }, Ok(Reply::Allocated(address))) => Self::record_address(
                job,
                address.allocation_id,
                address.public_ip,
            ),
            (EipApply::Recording { job, .. }, Ok(Reply::Done)) => Progress::Pending(
                EipApply::Listing { job },
            ),
            (EipApply::Listing { job }, Ok(Reply::Resources(resources))) => Self::after_resources(
                job,
                resources,
            ),
            (EipApply::Disassociating { job, names, .. }, Ok(Reply::Disassociated(response))) => {
                match disassociate_eip(response) {
                    Ok(_) => Progress::Pending(EipApply::Detaching { job, names }),
                    Err(e) => Progress::Finished(Err(e)),
                }
            },
            (EipApply::Detaching { job, names }, Ok(Reply::Done)) => Self::refresh(job, names),
            _ => unreached(),
        }
    }
}

/// Giving back the addresses that are tagged for an `Eip`.
#[allow(inconsistent_fields)]
#[derive(Debug)]
pub enum EipCleanup {
    /// The addresses are being described.
    Describing { uid: String },
    /// The addresses are being given back.
    Releasing { tasks: TaskList },
}

/// An `EipCleanup` as a mathematical value.
#[allow(inconsistent_fields)]
pub enum EipCleanupView {
    Describing { uid: Seq<char> },
    Releasing { tasks: TaskListView },
}

impl DeepView for EipCleanup {
    type V = EipCleanupView;

    open spec fn deep_view(&self) -> EipCleanupView {
        match self {
            EipCleanup::Describing { uid } => EipCleanupView::Describing { uid: uid@ },
            EipCleanup::Releasing { tasks } => EipCleanupView::Releasing {
                tasks: tasks.deep_view(),
            },
        }
    }
}

/// How giving back the addresses of an `Eip` goes on.
pub type EipCleanupProgress = Progress<EipCleanupView, Option<Action>>;

/// Giving back the addresses of an `Eip` starts with a look for them. The `Eip` has to have a uid.
pub open spec fn start_cleanup(eip: EipView) -> EipCleanupProgress {
    match eip.uid {
        Some(uid) => Progress::Pending(EipCleanupView::Describing { uid }),
        None => Progress::Finished(Err(Error::MissingEipUid)),
    }
}

/// Giving addresses back goes on as the list of tasks does, and asks for nothing further.
pub open spec fn releasing(progress: Progress<TaskListView, ()>) -> EipCleanupProgress {
    match progress {
        Progress::Pending(tasks) => Progress::Pending(EipCleanupView::Releasing { tasks }),
        Progress::Finished(Ok(_)) => Progress::Finished(Ok(None)),
        Progress::Finished(Err(e)) => Progress::Finished(Err(e)),
    }
}

impl EipCleanup {
    /// Starts to give back the addresses of an `Eip`.
    pub fn start(eip: &Eip) -> (r: Progress<EipCleanup, Option<Action>>)
        ensures
            progress_view(r) == start_cleanup(eip.deep_view()),
    {
        match &eip.uid {
            Some(uid) => Progress::Pending(EipCleanup::Describing { uid: uid.clone() }),
            None => Progress::Finished(Err(Error::MissingEipUid)),
        }
    }

    fn releasing(progress: Progress<TaskList, ()>) -> (r: Progress<EipCleanup, Option<Action>>)
        ensures
            progress_view(r) == releasing(progress_view(progress)),
    {
        match progress {
            Progress::Pending(tasks) => Progress::Pending(EipCleanup::Releasing { tasks }),
            Progress::Finished(Ok(_)) => Progress::Finished(Ok(None)),
            Progress::Finished(Err(e)) => Progress::Finished(Err(e)),
        }
    }
}

impl Operation for EipCleanup {
    type Outcome = Option<Action>;

    open spec fn ask(state: EipCleanupView) -> RequestView {
        match state {
            EipCleanupView::Describing { uid } => RequestView::DescribeAddresses {
                filters: uid_filters(uid),
            },
            EipCleanupView::Releasing { tasks } => TaskList::ask(tasks),
        }
    }

    open spec fn fits(state: EipCleanupView, answer: Result<ReplyView, Error>) -> bool {
        match state {
            EipCleanupView::Describing { .. } => answer matches Ok(reply) ==> reply is Addresses,
            EipCleanupView::Releasing { tasks } => TaskList::fits(tasks, answer),
        }
    }

    open spec fn next(
        state: EipCleanupView,
        answer: Result<ReplyView, Error>,
    ) -> EipCleanupProgress {
        match (state, answer) {
            (EipCleanupView::Releasing { tasks }, _) => releasing(TaskList::next(tasks, answer)),
            (_, Err(e)) => Progress::Finished(Err(e)),
            (_, Ok(ReplyView::Addresses(Some(addresses)))) => releasing(
                start_tasks(release_all(addresses, false), None),
            ),
            (_, Ok(ReplyView::Addresses(None))) => Progress::Finished(Ok(None)),
            _ => arbitrary(),
        }
    }

    fn request(&self) -> (r: Request) {
        match self {
            EipCleanup::Describing { uid } => Request::DescribeAddresses {
                filters: filters_for_uid(uid.as_str()),
            },
            EipCleanup::Releasing { tasks } => tasks.request(),
        }
    }

    fn accepts(&self, answer: &Result<Reply, Error>) -> (r: bool) {
        match self {
            EipCleanup::Describing { .. } => match answer {
                Ok(Reply::Addresses(_)) => true,
                Ok(_) => false,
                Err(_) => true,
            },
            EipCleanup::Releasing { tasks } => tasks.accepts(answer),
        }
    }

    fn resume(self, answer: Result<Reply, Error>) -> (r: Progress<Self, Option<Action>>) {
        match self {
            EipCleanup::Releasing { tasks } => Self::releasing(tasks.resume(answer)),
            EipCleanup::Describing { .. } => match answer {
                Err(e) => Progress::Finished(Err(e)),
                Ok(Reply::Addresses(Some(addresses))) => Self::releasing(
                    TaskList::start(release_tasks(&addresses, false), None),
                ),
                Ok(Reply::Addresses(None)) => Progress::Finished(Ok(None)),
                Ok(_) => unreached(),
            },
        }
    }
}

/// How `Eip`s are reconciled.
#[derive(Debug)]
pub struct Context {
    pub cluster_name: String,
    /// What every address is tagged with besides the operator's own tags.
    pub default_tags: StringMap,
}

impl Context {
    /// Addresses are tagged for that cluster, and with the default tags.
    pub fn new(cluster_name: String, default_tags: StringMap) -> (r: Self)
        ensures
            r.cluster_name == cluster_name,
            r.default_tags == default_tags,
    {
        Context { cluster_name, default_tags }
    }
}

impl ControllerContext for Context {
    type Resource = Eip;

    type Apply = EipApply;

    type Cleanup = EipCleanup;

    open spec fn finalizer() -> Seq<char> {
        "eip.materialize.cloud/destroy"@
    }

    open spec fn namespace_of(eip: EipView) -> Option<Seq<char>> {
        eip.namespace
    }

    open spec fn is_applicable(eip: EipView) -> bool {
        eip.namespace is Some && (eip.uid is Some ==> eip.name is Some)
    }

    open spec fn is_cleanable(eip: EipView) -> bool {
        true
    }

    open spec fn apply_start(&self, eip: EipView) -> EipProgress {
        start_apply(eip, self.cluster_name@, self.default_tags.listed())
    }

    open spec fn cleanup_start(&self, eip: EipView) -> EipCleanupProgress {
        start_cleanup(eip)
    }

    fn finalizer_name() -> (r: &'static str) {
        "eip.materialize.cloud/destroy"
    }

    fn resource_namespace(eip: &Eip) -> (r: Option<String>) {
        eip.namespace.clone()
    }

    fn can_apply(eip: &Eip) -> (r: bool) {
        eip.namespace.is_some() && (eip.uid.is_none() || eip.name.is_some())
    }

    fn can_cleanup(_eip: &Eip) -> (r: bool) {
        true
    }

    fn apply(&self, eip: &Eip) -> (r: Progress<EipApply, Option<Action>>) {
        EipApply::start(eip.clone(), self.cluster_name.as_str(), self.default_tags.to_pairs())
    }

    fn cleanup(&self, eip: &Eip) -> (r: Progress<EipCleanup, Option<Action>>) {
        EipCleanup::start(eip)
    }
}

} // verus!

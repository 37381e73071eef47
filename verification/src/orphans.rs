//! Giving back the addresses whose `Eip` is gone, before the controllers start.
use crate::aws::{
    orphans, tag_filter, tag_filter_view, Address, AddressView, Filter, FilterView,
    CLUSTER_NAME_TAG, EIP_UID_TAG, LEGACY_CLUSTER_NAME_TAG, NAMESPACE_TAG,
};
use crate::eip::{Eip, EipView};
use crate::error::Error;
use crate::kube_ext::{Pod, PodView};
use crate::laws::lookup::{is_uid_of_one, law_live_uids_are_those_listed};
use crate::operation::{
    api_scope, api_scope_of_listed, progress_view, scope_of, scope_of_listed, ApiScope,
    ApiScopeView, Operation, Progress, Reply, ReplyView, Request, RequestView,
};
use crate::search::lemma_filter_step;
use crate::tasks::{
    release_all, release_orphans, start_tasks, Task, TaskList, TaskListView, TaskView,
};
use crate::text::str_eq;
use vstd::pervasive::unreached;
use vstd::prelude::*;

verus! {

/// The label of the pods that have an address without an `Eip` resource.
pub const LEGACY_MANAGE_EIP_LABEL: &'static str = "eip.aws.materialize.com/manage";

/// The finalizer of those pods.
pub const LEGACY_POD_FINALIZER_NAME: &'static str = "eip.aws.materialize.com/disassociate";

/// Giving back orphaned addresses.
#[allow(inconsistent_fields)]
#[derive(Debug)]
pub enum OrphanCleanup {
    /// The addresses that are tagged for the cluster are being described.
    Describing { cluster_name: String, namespace: Option<String> },
    /// The addresses that pods of the cluster have without an `Eip` are being described.
    DescribingLegacy { cluster_name: String, namespace: Option<String>, addresses: Vec<Address> },
    /// The `Eip`s are being listed.
    ListingEips { namespace: Option<String>, addresses: Vec<Address> },
    /// The orphaned addresses are being given back.
    Releasing { namespace: Option<String>, tasks: TaskList },
    /// The pods that have an address without an `Eip` are being listed.
    ListingPods { namespace: Option<String> },
    /// The finalizer of those pods is being removed.
    Unfinalizing { tasks: TaskList },
}

/// An `OrphanCleanup` as a mathematical value.
#[allow(inconsistent_fields)]
pub enum OrphanCleanupView {
    Describing { cluster_name: Seq<char>, namespace: Option<Seq<char>> },
    DescribingLegacy {
        cluster_name: Seq<char>,
        namespace: Option<Seq<char>>,
        addresses: Seq<AddressView>,
    },
    ListingEips { namespace: Option<Seq<char>>, addresses: Seq<AddressView> },
    Releasing { namespace: Option<Seq<char>>, tasks: TaskListView },
    ListingPods { namespace: Option<Seq<char>> },
    Unfinalizing { tasks: TaskListView },
}

impl DeepView for OrphanCleanup {
    type V = OrphanCleanupView;

    open spec fn deep_view(&self) -> OrphanCleanupView {
        match self {
            OrphanCleanup::Describing { cluster_name, namespace } =>
                OrphanCleanupView::Describing {
                cluster_name: cluster_name@,
                namespace: namespace.deep_view(),
            },
            OrphanCleanup::DescribingLegacy { cluster_name, namespace, addresses } =>
                OrphanCleanupView::DescribingLegacy {
                cluster_name: cluster_name@,
                namespace: namespace.deep_view(),
                addresses: addresses.deep_view(),
            },
            OrphanCleanup::ListingEips { namespace, addresses } => OrphanCleanupView::ListingEips {
                namespace: namespace.deep_view(),
                addresses: addresses.deep_view(),
            },
            OrphanCleanup::Releasing { namespace, tasks } => OrphanCleanupView::Releasing {
                namespace: namespace.deep_view(),
                tasks: tasks.deep_view(),
            },
            OrphanCleanup::ListingPods { namespace } => OrphanCleanupView::ListingPods {
                namespace: namespace.deep_view(),
            },
            OrphanCleanup::Unfinalizing { tasks } => OrphanCleanupView::Unfinalizing {
                tasks: tasks.deep_view(),
            },
        }
    }
}

/// How giving back orphaned addresses goes on.
pub type OrphanProgress = Progress<OrphanCleanupView, ()>;

/// The filters for the addresses of the cluster, and of the namespace where there is one.
pub open spec fn cluster_filters(
    cluster_name: Seq<char>,
    namespace: Option<Seq<char>>,
) -> Seq<FilterView> {
    match namespace {
        Some(namespace) => seq![
            tag_filter_view(CLUSTER_NAME_TAG@, cluster_name),
            tag_filter_view(NAMESPACE_TAG@, namespace),
        ],
        None => seq![tag_filter_view(CLUSTER_NAME_TAG@, cluster_name)],
    }
}

/// The filters for the addresses that pods of the cluster have without an `Eip`.
pub open spec fn legacy_cluster_filters(cluster_name: Seq<char>) -> Seq<FilterView> {
    seq![tag_filter_view(LEGACY_CLUSTER_NAME_TAG@, cluster_name)]
}

/// The uids of the `Eip`s that have one.
pub open spec fn eip_uids(eips: Seq<EipView>) -> Seq<Seq<char>> {
    eips.filter(|e: EipView| e.uid is Some).map_values(|e: EipView| e.uid->0)
}

/// The tasks that remove a finalizer, and the error that they end in, if any.
pub struct UnfinalizePlan {
    pub tasks: Seq<TaskView>,
    pub end: Option<Error>,
}

/// From each pod that has the finalizer, it is removed where it stands first, in the namespace whose
/// pods were listed, or in the pod's own where all were. A pod with the finalizer and without a name
/// ends the list in an error.
pub open spec fn unfinalize_plan(scope: ApiScopeView, pods: Seq<PodView>) -> UnfinalizePlan
    decreases pods.len(),
{
    if pods.len() == 0 {
        UnfinalizePlan { tasks: Seq::empty(), end: None }
    } else {
        let before = unfinalize_plan(scope, pods.drop_last());
        let pod = pods.last();
        match (before.end, pod.finalizers.index_of_first(LEGACY_POD_FINALIZER_NAME@)) {
            (None, Some(position)) => match pod.name {
                Some(pod_name) => UnfinalizePlan {
                    tasks: before.tasks.push(
                        TaskView::RemoveFinalizer {
                            scope: scope_of_listed(scope, pod.namespace),
                            pod_name,
                            position: position as nat,
                            finalizer: LEGACY_POD_FINALIZER_NAME@,
                        },
                    ),
                    end: None,
                },
                None => UnfinalizePlan { tasks: before.tasks, end: Some(Error::MissingPodName) },
            },
            _ => before,
        }
    }
}

/// Giving addresses back goes on as the list of tasks does; then the pods are looked at.
pub open spec fn releasing(
    namespace: Option<Seq<char>>,
    progress: Progress<TaskListView, ()>,
) -> OrphanProgress {
    match progress {
        Progress::Pending(tasks) => Progress::Pending(
            OrphanCleanupView::Releasing { namespace, tasks },
        ),
        Progress::Finished(Ok(_)) => Progress::Pending(
            OrphanCleanupView::ListingPods { namespace },
        ),
        Progress::Finished(Err(e)) => Progress::Finished(Err(e)),
    }
}

/// Removing finalizers goes on as the list of tasks does.
pub open spec fn unfinalizing(progress: Progress<TaskListView, ()>) -> OrphanProgress {
    match progress {
        Progress::Pending(tasks) => Progress::Pending(OrphanCleanupView::Unfinalizing { tasks }),
        Progress::Finished(outcome) => Progress::Finished(outcome),
    }
}

/// The filters for the addresses of the cluster, and of the namespace where there is one.
fn filters_for_cluster(cluster_name: &str, namespace: &Option<String>) -> (r: Vec<Filter>)
    ensures
        r.deep_view() == cluster_filters(cluster_name@, namespace.deep_view()),
{
    let mut filters: Vec<Filter> = Vec::new();
    filters.push(tag_filter(CLUSTER_NAME_TAG, cluster_name));
    if let Some(namespace) = namespace {
        filters.push(tag_filter(NAMESPACE_TAG, namespace.as_str()));
    }
    assert(filters.deep_view() =~= cluster_filters(cluster_name@, namespace.deep_view()));
    filters
}

/// The filters for the addresses that pods of the cluster have without an `Eip`.
fn filters_for_legacy_cluster(cluster_name: &str) -> (r: Vec<Filter>)
    ensures
        r.deep_view() == legacy_cluster_filters(cluster_name@),
{
    let mut filters: Vec<Filter> = Vec::new();
    filters.push(tag_filter(LEGACY_CLUSTER_NAME_TAG, cluster_name));
    assert(filters.deep_view() =~= legacy_cluster_filters(cluster_name@));
    filters
}

/// The uids of the `Eip`s that have one.
fn collect_eip_uids(eips: &Vec<Eip>) -> (r: Vec<String>)
    ensures
        r.deep_view() == eip_uids(eips.deep_view()),
        forall|uid: Seq<char>| #[trigger]
            r.deep_view().contains(uid) <==> is_uid_of_one(eips.deep_view(), uid),
{
    proof {
        law_live_uids_are_those_listed(eips.deep_view(), Seq::empty());
    }
    let ghost all = eips.deep_view();
    let ghost owned = |e: EipView| e.uid is Some;
    let mut uids: Vec<String> = Vec::new();
    let mut i: usize = 0;
    proof {
        reveal(Seq::filter);
        assert(all.take(0) =~= Seq::empty());
        assert(uids.deep_view() =~= eip_uids(all.take(0)));
    }
    while i < eips.len()
        invariant
            all == eips.deep_view(),
            owned == (|e: EipView| e.uid is Some),
            i <= eips.len(),
            uids.deep_view() == eip_uids(all.take(i as int)),
        decreases eips.len() - i,
    {
        let ghost before = uids.deep_view();
        proof {
            lemma_filter_step(all, owned, i as int);
        }
        if let Some(uid) = &eips[i].uid {
            uids.push(uid.clone());
            assert(uids.deep_view() =~= before.push(uid@));
            assert(eip_uids(all.take(i + 1)) =~= before.push(uid@));
        }
        i = i + 1;
    }
    proof {
        assert(all.take(all.len() as int) =~= all);
    }
    uids
}

/// Where `finalizer` stands first among `finalizers`.
fn position_of(finalizers: &Vec<String>, finalizer: &str) -> (r: Option<usize>)
    ensures
        match finalizers.deep_view().index_of_first(finalizer@) {
            Some(i) => r matches Some(k) && k == i,
            None => r is None,
        },
{
    let ghost all = finalizers.deep_view();
    let mut i: usize = 0;
    proof {
        all.index_of_first_ensures(finalizer@);
    }
    while i < finalizers.len()
        invariant
            all == finalizers.deep_view(),
            i <= finalizers.len(),
            forall|j: int| 0 <= j < i ==> #[trigger] all[j] != finalizer@,
        decreases finalizers.len() - i,
    {
        if str_eq(finalizers[i].as_str(), finalizer) {
            proof {
                all.index_of_first_ensures(finalizer@);
                assert(all[i as int] == finalizer@);
            }
            return Some(i);
        }
        i = i + 1;
    }
    proof {
        all.index_of_first_ensures(finalizer@);
    }
    None
}

/// The tasks that remove the finalizer, and the error that they end in, if any.
fn plan_unfinalize(scope: &ApiScope, pods: &Vec<Pod>) -> (r: (Vec<Task>, Option<Error>))
    ensures
        r.0.deep_view() == unfinalize_plan(scope.deep_view(), pods.deep_view()).tasks,
        r.1 == unfinalize_plan(scope.deep_view(), pods.deep_view()).end,
{
    let ghost all = pods.deep_view();
    let mut tasks: Vec<Task> = Vec::new();
    let mut end: Option<Error> = None;
    let mut i: usize = 0;
    proof {
        assert(all.take(0) =~= Seq::empty());
        assert(tasks.deep_view() =~= Seq::empty());
    }
    while i < pods.len()
        invariant
            all == pods.deep_view(),
            i <= pods.len(),
            tasks.deep_view() == unfinalize_plan(scope.deep_view(), all.take(i as int)).tasks,
            end == unfinalize_plan(scope.deep_view(), all.take(i as int)).end,
        decreases pods.len() - i,
    {
        let ghost before = tasks.deep_view();
        proof {
            assert(all.take(i + 1).drop_last() =~= all.take(i as int));
            assert(all.take(i + 1).last() == all[i as int]);
        }
        if end.is_none() {
            if let Some(position) = position_of(&pods[i].finalizers, LEGACY_POD_FINALIZER_NAME) {
                match &pods[i].name {
                    Some(pod_name) => {
                        let task = Task::RemoveFinalizer {
                            scope: api_scope_of_listed(scope, &pods[i].namespace),
                            pod_name: pod_name.clone(),
                            position: position as u64,
                            finalizer: LEGACY_POD_FINALIZER_NAME.to_owned(),
                        };
                        tasks.push(task);
                        assert(tasks.deep_view() =~= before.push(task.deep_view()));
                    },
                    None => {
                        end = Some(Error::MissingPodName);
                    },
                }
            }
        }
        i = i + 1;
    }
    proof {
        assert(all.take(all.len() as int) =~= all);
    }
    (tasks, end)
}

impl OrphanCleanup {
    /// Starts to give back the orphaned addresses of a cluster, or of one namespace of it.
    pub fn start(cluster_name: &str, namespace: Option<String>) -> (r: Progress<OrphanCleanup, ()>)
        ensures
            progress_view(r) == Progress::<OrphanCleanupView, ()>::Pending(
                OrphanCleanupView::Describing {
                    cluster_name: cluster_name@,
                    namespace: namespace.deep_view(),
                },
            ),
    {
        Progress::Pending(
            OrphanCleanup::Describing { cluster_name: cluster_name.to_owned(), namespace },
        )
    }

    fn releasing(namespace: Option<String>, progress: Progress<TaskList, ()>) -> (r: Progress<
        OrphanCleanup,
        (),
    >)
        ensures
            progress_view(r) == releasing(namespace.deep_view(), progress_view(progress)),
    {
        match progress {
            Progress::Pending(tasks) => Progress::Pending(
                OrphanCleanup::Releasing { namespace, tasks },
            ),
            Progress::Finished(Ok(_)) => Progress::Pending(OrphanCleanup::ListingPods { namespace }),
            Progress::Finished(Err(e)) => Progress::Finished(Err(e)),
        }
    }

    fn unfinalizing(progress: Progress<TaskList, ()>) -> (r: Progress<OrphanCleanup, ()>)
        ensures
            progress_view(r) == unfinalizing(progress_view(progress)),
    {
        match progress {
            Progress::Pending(tasks) => Progress::Pending(OrphanCleanup::Unfinalizing { tasks }),
            Progress::Finished(outcome) => Progress::Finished(outcome),
        }
    }
}

impl Operation for OrphanCleanup {
    type Outcome = ();

    open spec fn ask(state: OrphanCleanupView) -> RequestView {
        match state {
            OrphanCleanupView::Describing { cluster_name, namespace } =>
                RequestView::DescribeAddresses { filters: cluster_filters(cluster_name, namespace) },
            OrphanCleanupView::DescribingLegacy { cluster_name, .. } =>
                RequestView::DescribeAddresses { filters: legacy_cluster_filters(cluster_name) },
            OrphanCleanupView::ListingEips { namespace, .. } => RequestView::ListEips {
                scope: scope_of(namespace),
            },
            OrphanCleanupView::Releasing { tasks, .. } => TaskList::ask(tasks),
            OrphanCleanupView::ListingPods { namespace } => RequestView::ListPods {
                scope: scope_of(namespace),
                label_selector: LEGACY_MANAGE_EIP_LABEL@,
            },
            OrphanCleanupView::Unfinalizing { tasks } => TaskList::ask(tasks),
        }
    }

    open spec fn fits(state: OrphanCleanupView, answer: Result<ReplyView, Error>) -> bool {
        match state {
            OrphanCleanupView::Describing { .. } => answer matches Ok(reply) ==> reply is Addresses,
            OrphanCleanupView::DescribingLegacy { .. } => answer matches Ok(reply)
                ==> reply is Addresses,
            OrphanCleanupView::ListingEips { .. } => answer matches Ok(reply) ==> reply is Eips,
            OrphanCleanupView::Releasing { tasks, .. } => TaskList::fits(tasks, answer),
            OrphanCleanupView::ListingPods { .. } => answer matches Ok(reply) ==> reply is Pods,
            OrphanCleanupView::Unfinalizing { tasks } => TaskList::fits(tasks, answer),
        }
    }

    open spec fn next(
        state: OrphanCleanupView,
        answer: Result<ReplyView, Error>,
    ) -> OrphanProgress {
        match (state, answer) {
            (OrphanCleanupView::Releasing { namespace, tasks }, _) => releasing(
                namespace,
                TaskList::next(tasks, answer),
            ),
            (OrphanCleanupView::Unfinalizing { tasks }, _) => unfinalizing(
                TaskList::next(tasks, answer),
            ),
            (_, Err(e)) => Progress::Finished(Err(e)),
            (_, Ok(ReplyView::Addresses(None))) => Progress::Finished(Err(Error::MissingAddresses)),
            (
                OrphanCleanupView::Describing { cluster_name, namespace },
                Ok(ReplyView::Addresses(Some(addresses))),
            ) => Progress::Pending(
                OrphanCleanupView::DescribingLegacy { cluster_name, namespace, addresses },
            ),
            (
                OrphanCleanupView::DescribingLegacy { namespace, addresses, .. },
                Ok(ReplyView::Addresses(Some(legacy))),
            ) => Progress::Pending(
                OrphanCleanupView::ListingEips { namespace, addresses: addresses + legacy },
            ),
            (
                OrphanCleanupView::ListingEips { namespace, addresses },
                Ok(ReplyView::Eips(eips)),
            ) => releasing(
                namespace,
                start_tasks(
                    release_all(orphans(addresses, EIP_UID_TAG@, eip_uids(eips)), false),
                    None,
                ),
            ),
            (OrphanCleanupView::ListingPods { namespace }, Ok(ReplyView::Pods(pods))) => {
                let plan = unfinalize_plan(scope_of(namespace), pods);
                unfinalizing(start_tasks(plan.tasks, plan.end))
            },
            _ => arbitrary(),
        }
    }

    fn request(&self) -> (r: Request) {
        match self {
            OrphanCleanup::Describing { cluster_name, namespace } => Request::DescribeAddresses {
                filters: filters_for_cluster(cluster_name.as_str(), namespace),
            },
            OrphanCleanup::DescribingLegacy { cluster_name, .. } => Request::DescribeAddresses {
                filters: filters_for_legacy_cluster(cluster_name.as_str()),
            },
            OrphanCleanup::ListingEips { namespace, .. } => Request::ListEips {
                scope: api_scope(namespace),
            },
            OrphanCleanup::Releasing { tasks, .. } => tasks.request(),
            OrphanCleanup::ListingPods { namespace } => Request::ListPods {
                scope: api_scope(namespace),
                label_selector: LEGACY_MANAGE_EIP_LABEL.to_owned(),
            },
            OrphanCleanup::Unfinalizing { tasks } => tasks.request(),
        }
    }

    fn accepts(&self, answer: &Result<Reply, Error>) -> (r: bool) {
        match (self, answer) {
            (OrphanCleanup::Releasing { tasks, .. }, _) => tasks.accepts(answer),
            (OrphanCleanup::Unfinalizing { tasks }, _) => tasks.accepts(answer),
            (_, Err(_)) => true,
            (OrphanCleanup::Describing { .. }, Ok(Reply::Addresses(_))) => true,
            (OrphanCleanup::DescribingLegacy { .. }, Ok(Reply::Addresses(_))) => true,
            (OrphanCleanup::ListingEips { .. }, Ok(Reply::Eips(_))) => true,
            (OrphanCleanup::ListingPods { .. }, Ok(Reply::Pods(_))) => true,
            _ => false,
        }
    }

    fn resume(self, answer: Result<Reply, Error>) -> (r: Progress<Self, ()>) {
        match self {
            OrphanCleanup::Releasing { namespace, tasks } => Self::releasing(
                namespace,
                tasks.resume(answer),
            ),
            OrphanCleanup::Unfinalizing { tasks } => Self::unfinalizing(tasks.resume(answer)),
            OrphanCleanup::Describing { cluster_name, namespace } => match answer {
                Err(e) => Progress::Finished(Err(e)),
                Ok(Reply::Addresses(Some(addresses))) => Progress::Pending(
                    OrphanCleanup::DescribingLegacy { cluster_name, namespace, addresses },
                ),
                Ok(Reply::Addresses(None)) => Progress::Finished(Err(Error::MissingAddresses)),
                Ok(_) => unreached(),
            },
            OrphanCleanup::DescribingLegacy { namespace, addresses, .. } => match answer {
                Err(e) => Progress::Finished(Err(e)),
                Ok(Reply::Addresses(Some(legacy))) => {
                    let ghost first = addresses.deep_view();
                    let ghost second = legacy.deep_view();
                    let mut addresses = addresses;
                    let mut legacy = legacy;
                    addresses.append(&mut legacy);
                    assert(addresses.deep_view() =~= first + second);
                    Progress::Pending(OrphanCleanup::ListingEips { namespace, addresses })
                },
                Ok(Reply::Addresses(None)) => Progress::Finished(Err(Error::MissingAddresses)),
                Ok(_) => unreached(),
            },
            OrphanCleanup::ListingEips { namespace, addresses } => match answer {
                Err(e) => Progress::Finished(Err(e)),
                Ok(Reply::Eips(eips)) => {
                    let live = collect_eip_uids(&eips);
                    let tasks = release_orphans(&addresses, EIP_UID_TAG, &live, false);
                    Self::releasing(namespace, TaskList::start(tasks, None))
                },
                Ok(_) => unreached(),
            },
            OrphanCleanup::ListingPods { namespace } => match answer {
                Err(e) => Progress::Finished(Err(e)),
                Ok(Reply::Pods(pods)) => {
                    let (tasks, end) = plan_unfinalize(&api_scope(&namespace), &pods);
                    Self::unfinalizing(TaskList::start(tasks, end))
                },
                Ok(_) => unreached(),
            },
        }
    }
}

} // verus!

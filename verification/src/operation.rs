//! Operations: work that alternates requests to the cluster and to EC2 with decisions.
//!
//! An operation is a value that knows what it asks for next. Whoever drives it makes the request,
//! hands back the reply, and goes on with the operation that comes out, until there is an outcome.
use crate::aws::{
    Address, AddressView, Filter, FilterView, InstancesDescription, InstancesDescriptionView, Tag,
    TagView,
};
use crate::eip::{Eip, EipSelector, EipSelectorView, EipView};
use crate::error::{Error, ServiceError};
use crate::kube_ext::{Node, NodeView, Pod, PodView};
use vstd::prelude::*;

verus! {

/// Where the objects of a kind are looked up.
#[derive(Debug)]
pub enum ApiScope {
    /// In one namespace.
    Namespaced(String),
    /// In the whole cluster.
    All,
}

/// An `ApiScope` as a mathematical value.
pub enum ApiScopeView {
    Namespaced(Seq<char>),
    All,
}

/// A patch that sets annotations and labels of an object. A label without a value is removed.
#[derive(Debug)]
pub struct ApplyPatch {
    pub field_manager: String,
    pub kind: String,
    pub annotations: Vec<(String, String)>,
    pub labels: Vec<(String, Option<String>)>,
}

/// An `ApplyPatch` as a mathematical value.
pub struct ApplyPatchView {
    pub field_manager: Seq<char>,
    pub kind: Seq<char>,
    pub annotations: Seq<(Seq<char>, Seq<char>)>,
    pub labels: Seq<(Seq<char>, Option<Seq<char>>)>,
}

/// A step of a patch.
#[derive(Debug)]
pub enum PatchOperation {
    /// Hold only if the value at `path` is `value`.
    Test { path: String, value: String },
    /// Remove what is at `path`.
    Remove { path: String },
}

/// A `PatchOperation` as a mathematical value.
pub enum PatchOperationView {
    Test { path: Seq<char>, value: Seq<char> },
    Remove { path: Seq<char> },
}

/// An address that was just allocated.
#[derive(Debug)]
pub struct AllocatedAddress {
    pub allocation_id: Option<String>,
    pub public_ip: Option<String>,
}

/// An `AllocatedAddress` as a mathematical value.
pub struct AllocatedAddressView {
    pub allocation_id: Option<Seq<char>>,
    pub public_ip: Option<Seq<char>>,
}

/// A pod or node that an `Eip` is meant for.
#[derive(Debug)]
pub struct MatchedResource {
    pub name: Option<String>,
    pub generate_name: Option<String>,
}

/// A `MatchedResource` as a mathematical value.
pub struct MatchedResourceView {
    pub name: Option<Seq<char>>,
    pub generate_name: Option<Seq<char>>,
}

impl DeepView for ApiScope {
    type V = ApiScopeView;

    open spec fn deep_view(&self) -> ApiScopeView {
        match self {
            ApiScope::Namespaced(namespace) => ApiScopeView::Namespaced(namespace@),
            ApiScope::All => ApiScopeView::All,
        }
    }
}

impl Clone for ApiScope {
    fn clone(&self) -> (r: Self)
        ensures
            r == self,
    {
        match self {
            ApiScope::Namespaced(namespace) => ApiScope::Namespaced(namespace.clone()),
            ApiScope::All => ApiScope::All,
        }
    }
}

/// Where objects are looked up that are meant for one namespace, or for the whole cluster.
pub open spec fn scope_of(namespace: Option<Seq<char>>) -> ApiScopeView {
    match namespace {
        Some(namespace) => ApiScopeView::Namespaced(namespace),
        None => ApiScopeView::All,
    }
}

/// Where objects are looked up that are meant for one namespace, or for the whole cluster.
pub fn api_scope(namespace: &Option<String>) -> (r: ApiScope)
    ensures
        r.deep_view() == scope_of(namespace.deep_view()),
{
    match namespace {
        Some(namespace) => ApiScope::Namespaced(namespace.clone()),
        None => ApiScope::All,
    }
}

/// Where an object is found that was listed there: in the namespace whose objects were listed, or in
/// its own where all were.
pub open spec fn scope_of_listed(
    listed: ApiScopeView,
    namespace: Option<Seq<char>>,
) -> ApiScopeView {
    match listed {
        ApiScopeView::Namespaced(_) => listed,
        ApiScopeView::All => scope_of(namespace),
    }
}

/// Where an object is found that was listed there.
pub fn api_scope_of_listed(listed: &ApiScope, namespace: &Option<String>) -> (r: ApiScope)
    ensures
        r.deep_view() == scope_of_listed(listed.deep_view(), namespace.deep_view()),
{
    match listed {
        ApiScope::Namespaced(_) => listed.clone(),
        ApiScope::All => api_scope(namespace),
    }
}

impl DeepView for ApplyPatch {
    type V = ApplyPatchView;

    open spec fn deep_view(&self) -> ApplyPatchView {
        ApplyPatchView {
            field_manager: self.field_manager@,
            kind: self.kind@,
            annotations: self.annotations.deep_view(),
            labels: self.labels.deep_view(),
        }
    }
}

impl DeepView for PatchOperation {
    type V = PatchOperationView;

    open spec fn deep_view(&self) -> PatchOperationView {
        match self {
            PatchOperation::Test { path, value } => PatchOperationView::Test {
                path: path@,
                value: value@,
            },
            PatchOperation::Remove { path } => PatchOperationView::Remove { path: path@ },
        }
    }
}

impl DeepView for AllocatedAddress {
    type V = AllocatedAddressView;

    open spec fn deep_view(&self) -> AllocatedAddressView {
        AllocatedAddressView {
            allocation_id: self.allocation_id.deep_view(),
            public_ip: self.public_ip.deep_view(),
        }
    }
}

impl DeepView for MatchedResource {
    type V = MatchedResourceView;

    open spec fn deep_view(&self) -> MatchedResourceView {
        MatchedResourceView {
            name: self.name.deep_view(),
            generate_name: self.generate_name.deep_view(),
        }
    }
}

/// What an operation asks for.
#[derive(Debug)]
pub enum Request {
    /// Create the `Eip` for a pod that asks for one.
    CreateEipForPod { namespace: String, pod_name: String },
    /// Delete the `Eip` of that name.
    DeleteEip { namespace: String, name: String },
    /// List the `Eip`s.
    ListEips { scope: ApiScope },
    /// Record the allocated address in the status of an `Eip`.
    SetStatusCreated { namespace: String, name: String, allocation_id: String, public_ip: String },
    /// Record in the status of an `Eip` what it is about to be attached to. The update holds only
    /// for the version of the `Eip` given here.
    SetStatusShouldAttach {
        scope: ApiScope,
        eip: Eip,
        eni_id: String,
        private_ip: String,
        resource_id: String,
    },
    /// Record the association of an `Eip` in its status.
    SetStatusAssociationId { scope: ApiScope, name: String, association_id: String },
    /// Clear from the status of an `Eip` what it was attached to.
    SetStatusDetached { scope: ApiScope, eip: Eip },
    /// List the pods or nodes that an `Eip` is meant for.
    ListMatchedResources { namespace: String, selector: EipSelector },
    /// Change the refresh label of a pod or node, so that it is reconciled again.
    RefreshResource { namespace: String, selector: EipSelector, name: String },
    /// Get a node.
    GetNode { name: String },
    /// List the nodes that a label selector selects.
    ListNodes { label_selector: String },
    /// List the pods that a label selector selects.
    ListPods { scope: ApiScope, label_selector: String },
    /// Apply a patch to a pod.
    ApplyToPod { namespace: String, name: String, patch: ApplyPatch },
    /// Apply a patch to a node.
    ApplyToNode { name: String, patch: ApplyPatch },
    /// Patch a pod step by step; a failed test undoes the whole patch.
    PatchPod { scope: ApiScope, name: String, operations: Vec<PatchOperation> },
    /// Read the interface ids from the JSON text of an annotation.
    ReadEniDescriptions { annotation: String },
    /// Describe the address with that allocation id.
    DescribeAddress { allocation_id: String },
    /// Describe the addresses that pass all filters.
    DescribeAddresses { filters: Vec<Filter> },
    /// Allocate an address with these tags.
    AllocateAddress { tags: Vec<Tag> },
    /// Associate an address with a private address of an interface, away from wherever it was.
    AssociateAddress { allocation_id: String, eni_id: String, private_ip: String },
    /// End an association.
    DisassociateAddress { association_id: String },
    /// Give an address back.
    ReleaseAddress { allocation_id: String },
    /// Describe an instance.
    DescribeInstance { instance_id: String },
}

/// A `Request` as a mathematical value.
#[allow(inconsistent_fields)]
pub enum RequestView {
    CreateEipForPod { namespace: Seq<char>, pod_name: Seq<char> },
    DeleteEip { namespace: Seq<char>, name: Seq<char> },
    ListEips { scope: ApiScopeView },
    SetStatusCreated {
        namespace: Seq<char>,
        name: Seq<char>,
        allocation_id: Seq<char>,
        public_ip: Seq<char>,
    },
    SetStatusShouldAttach {
        scope: ApiScopeView,
        eip: EipView,
        eni_id: Seq<char>,
        private_ip: Seq<char>,
        resource_id: Seq<char>,
    },
    SetStatusAssociationId { scope: ApiScopeView, name: Seq<char>, association_id: Seq<char> },
    SetStatusDetached { scope: ApiScopeView, eip: EipView },
    ListMatchedResources { namespace: Seq<char>, selector: EipSelectorView },
    RefreshResource { namespace: Seq<char>, selector: EipSelectorView, name: Seq<char> },
    GetNode { name: Seq<char> },
    ListNodes { label_selector: Seq<char> },
    ListPods { scope: ApiScopeView, label_selector: Seq<char> },
    ApplyToPod { namespace: Seq<char>, name: Seq<char>, patch: ApplyPatchView },
    ApplyToNode { name: Seq<char>, patch: ApplyPatchView },
    PatchPod { scope: ApiScopeView, name: Seq<char>, operations: Seq<PatchOperationView> },
    ReadEniDescriptions { annotation: Seq<char> },
    DescribeAddress { allocation_id: Seq<char> },
    DescribeAddresses { filters: Seq<FilterView> },
    AllocateAddress { tags: Seq<TagView> },
    AssociateAddress { allocation_id: Seq<char>, eni_id: Seq<char>, private_ip: Seq<char> },
    DisassociateAddress { association_id: Seq<char> },
    ReleaseAddress { allocation_id: Seq<char> },
    DescribeInstance { instance_id: Seq<char> },
}

impl DeepView for Request {
    type V = RequestView;

    open spec fn deep_view(&self) -> RequestView {
        match self {
            Request::CreateEipForPod { namespace, pod_name } => RequestView::CreateEipForPod {
                namespace: namespace@,
                pod_name: pod_name@,
            },
            Request::DeleteEip { namespace, name } => RequestView::DeleteEip {
                namespace: namespace@,
                name: name@,
            },
            Request::ListEips { scope } => RequestView::ListEips {
                scope: scope.deep_view(),
            },
            Request::SetStatusCreated { namespace, name, allocation_id, public_ip } =>
                RequestView::SetStatusCreated {
                namespace: namespace@,
                name: name@,
                allocation_id: allocation_id@,
                public_ip: public_ip@,
            },
            Request::SetStatusShouldAttach { scope, eip, eni_id, private_ip, resource_id } =>
                RequestView::SetStatusShouldAttach {
                scope: scope.deep_view(),
                eip: eip.deep_view(),
                eni_id: eni_id@,
                private_ip: private_ip@,
                resource_id: resource_id@,
            },
            Request::SetStatusAssociationId { scope, name, association_id } =>
                RequestView::SetStatusAssociationId {
                scope: scope.deep_view(),
                name: name@,
                association_id: association_id@,
            },
            Request::SetStatusDetached { scope, eip } => RequestView::SetStatusDetached {
                scope: scope.deep_view(),
                eip: eip.deep_view(),
            },
            Request::ListMatchedResources { namespace, selector } =>
                RequestView::ListMatchedResources {
                namespace: namespace@,
                selector: selector.deep_view(),
            },
            Request::RefreshResource { namespace, selector, name } => RequestView::RefreshResource {
                namespace: namespace@,
                selector: selector.deep_view(),
                name: name@,
            },
            Request::GetNode { name } => RequestView::GetNode {
                name: name@,
            },
            Request::ListNodes { label_selector } => RequestView::ListNodes {
                label_selector: label_selector@,
            },
            Request::ListPods { scope, label_selector } => RequestView::ListPods {
                scope: scope.deep_view(),
                label_selector: label_selector@,
            },
            Request::ApplyToPod { namespace, name, patch } => RequestView::ApplyToPod {
                namespace: namespace@,
                name: name@,
                patch: patch.deep_view(),
            },
            Request::ApplyToNode { name, patch } => RequestView::ApplyToNode {
                name: name@,
                patch: patch.deep_view(),
            },
            Request::PatchPod { scope, name, operations } => RequestView::PatchPod {
                scope: scope.deep_view(),
                name: name@,
                operations: operations.deep_view(),
            },
            Request::ReadEniDescriptions { annotation } => RequestView::ReadEniDescriptions {
                annotation: annotation@,
            },
            Request::DescribeAddress { allocation_id } => RequestView::DescribeAddress {
                allocation_id: allocation_id@,
            },
            Request::DescribeAddresses { filters } => RequestView::DescribeAddresses {
                filters: filters.deep_view(),
            },
            Request::AllocateAddress { tags } => RequestView::AllocateAddress {
                tags: tags.deep_view(),
            },
            Request::AssociateAddress { allocation_id, eni_id, private_ip } =>
                RequestView::AssociateAddress {
                allocation_id: allocation_id@,
                eni_id: eni_id@,
                private_ip: private_ip@,
            },
            Request::DisassociateAddress { association_id } => RequestView::DisassociateAddress {
                association_id: association_id@,
            },
            Request::ReleaseAddress { allocation_id } => RequestView::ReleaseAddress {
                allocation_id: allocation_id@,
            },
            Request::DescribeInstance { instance_id } => RequestView::DescribeInstance {
                instance_id: instance_id@,
            },
        }
    }
}

impl RequestView {
    /// Whether a request on namespaced objects is about objects of that namespace.
    pub open spec fn is_within(self, namespace: Seq<char>) -> bool {
        match self {
            RequestView::CreateEipForPod { namespace: n, .. } => n == namespace,
            RequestView::DeleteEip { namespace: n, .. } => n == namespace,
            RequestView::SetStatusCreated { namespace: n, .. } => n == namespace,
            RequestView::ListMatchedResources { namespace: n, .. } => n == namespace,
            RequestView::RefreshResource { namespace: n, .. } => n == namespace,
            RequestView::ApplyToPod { namespace: n, .. } => n == namespace,
            RequestView::ListEips { scope } => scope == ApiScopeView::Namespaced(namespace),
            RequestView::SetStatusShouldAttach { scope, .. } => scope == ApiScopeView::Namespaced(
                namespace,
            ),
            RequestView::SetStatusAssociationId { scope, .. } => scope == ApiScopeView::Namespaced(
                namespace,
            ),
            RequestView::SetStatusDetached { scope, .. } => scope == ApiScopeView::Namespaced(
                namespace,
            ),
            RequestView::ListPods { scope, .. } => scope == ApiScopeView::Namespaced(namespace),
            RequestView::PatchPod { scope, .. } => scope == ApiScopeView::Namespaced(namespace),
            _ => true,
        }
    }
}

/// What a request was answered with.
#[derive(Debug)]
pub enum Reply {
    /// The request was carried out, and there is nothing to tell.
    Done,
    /// A node.
    Node(Node),
    /// Nodes.
    Nodes(Vec<Node>),
    /// Pods.
    Pods(Vec<Pod>),
    /// `Eip`s.
    Eips(Vec<Eip>),
    /// Pods or nodes that an `Eip` is meant for.
    Resources(Vec<MatchedResource>),
    /// The interface ids that a text describes; none where the text could not be read.
    EniIds(Option<Vec<String>>),
    /// Addresses.
    Addresses(Option<Vec<Address>>),
    /// The address that was allocated.
    Allocated(AllocatedAddress),
    /// The id of the association that was made.
    Associated(Option<String>),
    /// Whether EC2 ended the association.
    Disassociated(Result<(), ServiceError>),
    /// Instances.
    Instances(InstancesDescription),
}

/// A `Reply` as a mathematical value.
pub enum ReplyView {
    Done,
    Node(NodeView),
    Nodes(Seq<NodeView>),
    Pods(Seq<PodView>),
    Eips(Seq<EipView>),
    Resources(Seq<MatchedResourceView>),
    EniIds(Option<Seq<Seq<char>>>),
    Addresses(Option<Seq<AddressView>>),
    Allocated(AllocatedAddressView),
    Associated(Option<Seq<char>>),
    Disassociated(Result<(), ServiceError>),
    Instances(InstancesDescriptionView),
}

impl DeepView for Reply {
    type V = ReplyView;

    open spec fn deep_view(&self) -> ReplyView {
        match self {
            Reply::Done => ReplyView::Done,
            Reply::Node(x) => ReplyView::Node(x.deep_view()),
            Reply::Nodes(x) => ReplyView::Nodes(x.deep_view()),
            Reply::Pods(x) => ReplyView::Pods(x.deep_view()),
            Reply::Eips(x) => ReplyView::Eips(x.deep_view()),
            Reply::Resources(x) => ReplyView::Resources(x.deep_view()),
            Reply::EniIds(x) => ReplyView::EniIds(x.deep_view()),
            Reply::Addresses(x) => ReplyView::Addresses(x.deep_view()),
            Reply::Allocated(x) => ReplyView::Allocated(x.deep_view()),
            Reply::Associated(x) => ReplyView::Associated(x.deep_view()),
            Reply::Disassociated(x) => ReplyView::Disassociated(*x),
            Reply::Instances(x) => ReplyView::Instances(x.deep_view()),
        }
    }
}

/// The answer to a request as a mathematical value: a reply, or the error that came instead.
pub open spec fn answer_view(answer: Result<Reply, Error>) -> Result<ReplyView, Error> {
    match answer {
        Ok(reply) => Ok(reply.deep_view()),
        Err(e) => Err(e),
    }
}

/// How far an operation has come: it asks for something, or it has an outcome.
#[derive(Debug)]
pub enum Progress<S, T> {
    Pending(S),
    Finished(Result<T, Error>),
}

/// Progress as a mathematical value.
pub open spec fn progress_view<S: DeepView, T>(progress: Progress<S, T>) -> Progress<S::V, T> {
    match progress {
        Progress::Pending(state) => Progress::Pending(state.deep_view()),
        Progress::Finished(outcome) => Progress::Finished(outcome),
    }
}

/// What a controller is to do once a resource has been reconciled.
#[derive(Debug, Clone, Copy, PartialEq, Eq, Structural)]
pub struct Action {
    /// Reconcile the resource again after so many milliseconds, or only once it changes.
    pub requeue_after_millis: Option<u64>,
}

/// Reconcile again after so many seconds.
pub open spec fn requeue_after_secs(secs: u64) -> Action {
    Action { requeue_after_millis: Some((secs * 1000) as u64) }
}

/// Reconcile again after so many milliseconds.
pub open spec fn requeue_after_millis(millis: u64) -> Action {
    Action { requeue_after_millis: Some(millis) }
}

impl Action {
    /// Reconcile again after so many milliseconds.
    pub fn requeue_millis(millis: u64) -> (r: Action)
        ensures
            r == requeue_after_millis(millis),
    {
        Action { requeue_after_millis: Some(millis) }
    }

    /// Reconcile again after so many seconds.
    pub fn requeue_secs(secs: u64) -> (r: Action)
        requires
            secs * 1000 <= u64::MAX,
        ensures
            r == requeue_after_secs(secs),
    {
        Action { requeue_after_millis: Some(secs * 1000) }
    }
}

/// Work that alternates requests with decisions.
pub trait Operation: DeepView + Sized {
    /// What comes out in the end.
    type Outcome;

    /// What the operation asks for.
    spec fn ask(state: Self::V) -> RequestView;

    /// Whether an answer is one to what the operation asks for, and not an answer that the
    /// operation cannot go on from.
    spec fn fits(state: Self::V, answer: Result<ReplyView, Error>) -> bool;

    /// How the operation goes on.
    spec fn next(state: Self::V, answer: Result<ReplyView, Error>) -> Progress<
        Self::V,
        Self::Outcome,
    >;

    /// What the operation asks for.
    fn request(&self) -> (r: Request)
        ensures
            r.deep_view() == Self::ask(self.deep_view()),
    ;

    /// Whether the operation can go on from an answer.
    fn accepts(&self, answer: &Result<Reply, Error>) -> (r: bool)
        ensures
            r == Self::fits(self.deep_view(), answer_view(*answer)),
    ;

    /// Goes on with the answer to what the operation asked for.
    fn resume(self, answer: Result<Reply, Error>) -> (r: Progress<Self, Self::Outcome>)
        requires
            Self::fits(self.deep_view(), answer_view(answer)),
        ensures
            progress_view(r) == Self::next(self.deep_view(), answer_view(answer)),
    ;
}

/// How far an operation has come after a sequence of answers.
pub open spec fn run<M: Operation>(
    start: Progress<M::V, M::Outcome>,
    answers: Seq<Result<ReplyView, Error>>,
) -> Progress<M::V, M::Outcome>
    decreases answers.len(),
{
    if answers.len() == 0 {
        start
    } else {
        match run::<M>(start, answers.drop_last()) {
            Progress::Pending(state) => M::next(state, answers.last()),
            Progress::Finished(outcome) => Progress::Finished(outcome),
        }
    }
}

/// What an operation asks for after a sequence of answers, if it still asks for anything.
pub open spec fn asked<M: Operation>(
    start: Progress<M::V, M::Outcome>,
    answers: Seq<Result<ReplyView, Error>>,
) -> Option<RequestView> {
    match run::<M>(start, answers) {
        Progress::Pending(state) => Some(M::ask(state)),
        Progress::Finished(_) => None,
    }
}

/// Whether an operation has succeeded after a sequence of answers.
pub open spec fn succeeded<M: Operation>(
    start: Progress<M::V, M::Outcome>,
    answers: Seq<Result<ReplyView, Error>>,
) -> bool {
    run::<M>(start, answers) matches Progress::Finished(outcome) && outcome is Ok
}

/// Whether an operation can go on from each of a sequence of answers, when they come in order, as
/// long as it has no outcome.
pub open spec fn is_history<M: Operation>(
    start: Progress<M::V, M::Outcome>,
    answers: Seq<Result<ReplyView, Error>>,
) -> bool
    decreases answers.len(),
{
    answers.len() > 0 ==> {
        &&& is_history::<M>(start, answers.drop_last())
        &&& run::<M>(start, answers.drop_last()) matches Progress::Pending(state) ==> M::fits(
            state,
            answers.last(),
        )
    }
}

/// Whether, at some point of a history, the operation made that request and got that answer.
pub open spec fn was_answered<M: Operation>(
    start: Progress<M::V, M::Outcome>,
    answers: Seq<Result<ReplyView, Error>>,
    request: RequestView,
    answer: Result<ReplyView, Error>,
) -> bool {
    exists|k: int|
        0 <= k < answers.len() && #[trigger] answers[k] == answer && asked::<M>(
            start,
            answers.take(k),
        ) == Some(request)
}

/// What was answered stays answered as the history goes on.
pub proof fn lemma_was_answered<M: Operation>(
    start: Progress<M::V, M::Outcome>,
    answers: Seq<Result<ReplyView, Error>>,
    request: RequestView,
    answer: Result<ReplyView, Error>,
)
    requires
        answers.len() > 0,
        was_answered::<M>(start, answers.drop_last(), request, answer),
    ensures
        was_answered::<M>(start, answers, request, answer),
{
    let before = answers.drop_last();
    let k = choose|k: int|
        0 <= k < before.len() && #[trigger] before[k] == answer && asked::<M>(start, before.take(k))
            == Some(request);
    assert(answers[k] == answer);
    assert(answers.take(k) =~= before.take(k));
}

/// The last answer was an answer to the last request.
pub proof fn lemma_just_answered<M: Operation>(
    start: Progress<M::V, M::Outcome>,
    answers: Seq<Result<ReplyView, Error>>,
    request: RequestView,
)
    requires
        answers.len() > 0,
        asked::<M>(start, answers.drop_last()) == Some(request),
    ensures
        was_answered::<M>(start, answers, request, answers.last()),
{
    let k = answers.len() - 1;
    assert(answers[k] == answers.last());
    assert(answers.take(k) =~= answers.drop_last());
}

} // verus!

//! Lists of tasks that are carried out in order, until one fails.
use crate::aws::{disassociate_eip, is_already_gone, is_orphan, orphans, Address, AddressView};
use crate::error::Error;
use crate::labels::{add_gateway_status_label, gateway_status_patch, remove_gateway_status_label};
use crate::operation::{
    progress_view, ApiScope, ApiScopeView, Operation, PatchOperation, PatchOperationView, Progress,
    Reply, ReplyView, Request, RequestView,
};
use crate::search::lemma_filter_step;
use crate::text::{decimal, decimal_text, lowercase};
use vstd::prelude::*;

verus! {

/// Something to be done.
#[derive(Debug)]
pub enum Task {
    /// End an association. Unless it `must_exist`, one that is gone already counts as ended.
    Disassociate { association_id: String, must_exist: bool },
    /// Give an address back.
    Release { allocation_id: String },
    /// Set the egress label of a node.
    AddGatewayLabel { node_name: String, status: String },
    /// Remove the egress label of a node.
    RemoveGatewayLabel { node_name: String },
    /// Remove the finalizer at a position from a pod, if it is the one given.
    RemoveFinalizer { scope: ApiScope, pod_name: String, position: u64, finalizer: String },
}

/// A `Task` as a mathematical value.
pub enum TaskView {
    Disassociate { association_id: Seq<char>, must_exist: bool },
    Release { allocation_id: Seq<char> },
    AddGatewayLabel { node_name: Seq<char>, status: Seq<char> },
    RemoveGatewayLabel { node_name: Seq<char> },
    RemoveFinalizer {
        scope: ApiScopeView,
        pod_name: Seq<char>,
        position: nat,
        finalizer: Seq<char>,
    },
}

impl DeepView for Task {
    type V = TaskView;

    open spec fn deep_view(&self) -> TaskView {
        match self {
            Task::Disassociate { association_id, must_exist } => TaskView::Disassociate {
                association_id: association_id@,
                must_exist: *must_exist,
            },
            Task::Release { allocation_id } => TaskView::Release { allocation_id: allocation_id@ },
            Task::AddGatewayLabel { node_name, status } => TaskView::AddGatewayLabel {
                node_name: node_name@,
                status: status@,
            },
            Task::RemoveGatewayLabel { node_name } => TaskView::RemoveGatewayLabel {
                node_name: node_name@,
            },
            Task::RemoveFinalizer { scope, pod_name, position, finalizer } =>
                TaskView::RemoveFinalizer {
                scope: scope.deep_view(),
                pod_name: pod_name@,
                position: *position as nat,
                finalizer: finalizer@,
            },
        }
    }
}

/// Where the finalizer at a position stands in a pod.
pub open spec fn finalizer_path(position: nat) -> Seq<char> {
    "/metadata/finalizers/"@ + decimal(position)
}

/// The patch that removes the finalizer at a position, if it is the one given.
pub open spec fn remove_finalizer_patch(position: nat, finalizer: Seq<char>) -> Seq<
    PatchOperationView,
> {
    seq![
        PatchOperationView::Test { path: finalizer_path(position), value: finalizer },
        PatchOperationView::Remove { path: finalizer_path(position) },
    ]
}

impl TaskView {
    /// Whether the task ends an association that has to exist.
    pub open spec fn is_strict(self) -> bool {
        self matches TaskView::Disassociate { must_exist, .. } && must_exist
    }

    /// What the task asks for.
    pub open spec fn request(self) -> RequestView {
        match self {
            TaskView::Disassociate { association_id, .. } => RequestView::DisassociateAddress {
                association_id,
            },
            TaskView::Release { allocation_id } => RequestView::ReleaseAddress { allocation_id },
            TaskView::AddGatewayLabel { node_name, status } => RequestView::ApplyToNode {
                name: node_name,
                patch: gateway_status_patch(Some(lowercase(status))),
            },
            TaskView::RemoveGatewayLabel { node_name } => RequestView::ApplyToNode {
                name: node_name,
                patch: gateway_status_patch(None),
            },
            TaskView::RemoveFinalizer { scope, pod_name, position, finalizer } =>
                RequestView::PatchPod {
                scope,
                name: pod_name,
                operations: remove_finalizer_patch(position, finalizer),
            },
        }
    }
}

impl Task {
    /// What the task asks for.
    pub fn request(&self) -> (r: Request)
        ensures
            r.deep_view() == self.deep_view().request(),
    {
        match self {
            Task::Disassociate { association_id, .. } => Request::DisassociateAddress {
                association_id: association_id.clone(),
            },
            Task::Release { allocation_id } => Request::ReleaseAddress {
                allocation_id: allocation_id.clone(),
            },
            Task::AddGatewayLabel { node_name, status } => Request::ApplyToNode {
                name: node_name.clone(),
                patch: add_gateway_status_label(status.as_str()),
            },
            Task::RemoveGatewayLabel { node_name } => Request::ApplyToNode {
                name: node_name.clone(),
                patch: remove_gateway_status_label(),
            },
            Task::RemoveFinalizer { scope, pod_name, position, finalizer } => {
                let path = "/metadata/finalizers/".to_owned().concat(
                    decimal_text(*position).as_str(),
                );
                let mut operations: Vec<PatchOperation> = Vec::new();
                operations.push(
                    PatchOperation::Test { path: path.clone(), value: finalizer.clone() },
                );
                operations.push(PatchOperation::Remove { path });
                assert(operations.deep_view() =~= remove_finalizer_patch(
                    *position as nat,
                    finalizer@,
                ));
                Request::PatchPod { scope: scope.clone(), name: pod_name.clone(), operations }
            },
        }
    }
}

/// Tasks that are being carried out. Once none is left, the list ends in `end`, if there is such
/// an error, and else in success.
#[derive(Debug)]
pub struct TaskList {
    pub current: Task,
    pub rest: Vec<Task>,
    pub end: Option<Error>,
}

/// A `TaskList` as a mathematical value.
pub struct TaskListView {
    pub current: TaskView,
    pub rest: Seq<TaskView>,
    pub end: Option<Error>,
}

impl DeepView for TaskList {
    type V = TaskListView;

    open spec fn deep_view(&self) -> TaskListView {
        TaskListView {
            current: self.current.deep_view(),
            rest: self.rest.deep_view(),
            end: self.end,
        }
    }
}

/// Carrying out a list of tasks starts with the first one.
pub open spec fn start_tasks(tasks: Seq<TaskView>, end: Option<Error>) -> Progress<
    TaskListView,
    (),
> {
    if tasks.len() == 0 {
        Progress::Finished(
            match end {
                Some(e) => Err(e),
                None => Ok(()),
            },
        )
    } else {
        Progress::Pending(TaskListView { current: tasks[0], rest: tasks.drop_first(), end })
    }
}

impl TaskList {
    /// Starts to carry out tasks.
    pub fn start(tasks: Vec<Task>, end: Option<Error>) -> (r: Progress<TaskList, ()>)
        ensures
            progress_view(r) == start_tasks(tasks.deep_view(), end),
    {
        if tasks.len() == 0 {
            return match end {
                Some(e) => Progress::Finished(Err(e)),
                None => Progress::Finished(Ok(())),
            };
        }
        let ghost all = tasks.deep_view();
        let mut rest = tasks;
        let current = rest.remove(0);
        proof {
            assert(all[0] == current.deep_view());
            assert(rest.deep_view() =~= all.drop_first());
        }
        Progress::Pending(TaskList { current, rest, end })
    }
}

impl Operation for TaskList {
    type Outcome = ();

    open spec fn ask(state: TaskListView) -> RequestView {
        state.current.request()
    }

    open spec fn fits(state: TaskListView, answer: Result<ReplyView, Error>) -> bool {
        match answer {
            Err(_) => true,
            Ok(reply) => if state.current is Disassociate {
                reply is Disassociated
            } else {
                reply is Done
            },
        }
    }

    open spec fn next(state: TaskListView, answer: Result<ReplyView, Error>) -> Progress<
        TaskListView,
        (),
    > {
        match answer {
            Err(e) => Progress::Finished(Err(e)),
            Ok(ReplyView::Disassociated(Err(e))) if state.current.is_strict() || !is_already_gone(
                e,
            ) => Progress::Finished(Err(Error::AwsDisassociateAddress { source: e })),
            Ok(_) => start_tasks(state.rest, state.end),
        }
    }

    fn request(&self) -> (r: Request) {
        self.current.request()
    }

    fn accepts(&self, answer: &Result<Reply, Error>) -> (r: bool) {
        match answer {
            Err(_) => true,
            Ok(reply) => match (&self.current, reply) {
                (Task::Disassociate { .. }, Reply::Disassociated(_)) => true,
                (Task::Disassociate { .. }, _) => false,
                (_, Reply::Done) => true,
                _ => false,
            },
        }
    }

    fn resume(self, answer: Result<Reply, Error>) -> (r: Progress<Self, ()>) {
        match answer {
            Err(e) => Progress::Finished(Err(e)),
            Ok(Reply::Disassociated(response)) => {
                let strict = match &self.current {
                    Task::Disassociate { must_exist, .. } => *must_exist,
                    _ => false,
                };
                let ended = match response {
                    Err(e) if strict => Err(Error::AwsDisassociateAddress { source: e }),
                    response => disassociate_eip(response),
                };
                match ended {
                    Ok(_) => TaskList::start(self.rest, self.end),
                    Err(e) => Progress::Finished(Err(e)),
                }
            },
            Ok(_) => TaskList::start(self.rest, self.end),
        }
    }
}

// Releasing addresses.

/// To give one address back, its association is ended first, if it has one.
pub open spec fn release_one(address: AddressView, must_exist: bool) -> Seq<TaskView> {
    (match address.association_id {
        Some(association_id) => seq![TaskView::Disassociate { association_id, must_exist }],
        None => Seq::empty(),
    }) + (match address.allocation_id {
        Some(allocation_id) => seq![TaskView::Release { allocation_id }],
        None => Seq::empty(),
    })
}

/// To give addresses back, they are given back in order.
pub open spec fn release_all(addresses: Seq<AddressView>, must_exist: bool) -> Seq<TaskView>
    decreases addresses.len(),
{
    if addresses.len() == 0 {
        Seq::empty()
    } else {
        release_all(addresses.drop_last(), must_exist) + release_one(addresses.last(), must_exist)
    }
}

/// Adds what it takes to disassociate an address, if it is attached to anything, and to give it
/// back.
pub fn disassociate_and_release_address(
    tasks: &mut Vec<Task>,
    address: &Address,
    must_exist: bool,
)
    ensures
        final(tasks).deep_view() == old(tasks).deep_view() + release_one(
            address.deep_view(),
            must_exist,
        ),
{
    let ghost before = tasks.deep_view();
    if let Some(association_id) = &address.association_id {
        tasks.push(Task::Disassociate { association_id: association_id.clone(), must_exist });
    }
    if let Some(allocation_id) = &address.allocation_id {
        tasks.push(Task::Release { allocation_id: allocation_id.clone() });
    }
    assert(tasks.deep_view() =~= before + release_one(address.deep_view(), must_exist));
}

/// What it takes to give addresses back.
pub fn release_tasks(addresses: &Vec<Address>, must_exist: bool) -> (r: Vec<Task>)
    ensures
        r.deep_view() == release_all(addresses.deep_view(), must_exist),
{
    let ghost all = addresses.deep_view();
    let mut tasks: Vec<Task> = Vec::new();
    let mut i: usize = 0;
    proof {
        assert(all.take(0) =~= Seq::empty());
        assert(tasks.deep_view() =~= Seq::empty());
    }
    while i < addresses.len()
        invariant
            all == addresses.deep_view(),
            i <= addresses.len(),
            tasks.deep_view() == release_all(all.take(i as int), must_exist),
        decreases addresses.len() - i,
    {
        disassociate_and_release_address(&mut tasks, &addresses[i], must_exist);
        proof {
            assert(all.take(i + 1).drop_last() =~= all.take(i as int));
            assert(all.take(i + 1).last() == all[i as int]);
        }
        i = i + 1;
    }
    proof {
        assert(all.take(all.len() as int) =~= all);
    }
    tasks
}

/// What it takes to give the addresses back that no live resource owns.
pub fn release_orphans(
    addresses: &Vec<Address>,
    owner_tag: &str,
    live: &Vec<String>,
    must_exist: bool,
) -> (r: Vec<Task>)
    ensures
        r.deep_view() == release_all(
            orphans(addresses.deep_view(), owner_tag@, live.deep_view()),
            must_exist,
        ),
{
    let ghost all = addresses.deep_view();
    let ghost orphaned = |a: AddressView| a.is_orphan(owner_tag@, live.deep_view());
    let mut tasks: Vec<Task> = Vec::new();
    let mut i: usize = 0;
    proof {
        reveal(Seq::filter);
        assert(all.take(0) =~= Seq::empty());
        assert(tasks.deep_view() =~= release_all(all.take(0).filter(orphaned), must_exist));
    }
    while i < addresses.len()
        invariant
            all == addresses.deep_view(),
            orphaned == (|a: AddressView| a.is_orphan(owner_tag@, live.deep_view())),
            i <= addresses.len(),
            tasks.deep_view() == release_all(all.take(i as int).filter(orphaned), must_exist),
        decreases addresses.len() - i,
    {
        proof {
            lemma_filter_step(all, orphaned, i as int);
            let kept = all.take(i as int).filter(orphaned);
            assert(kept.push(all[i as int]).drop_last() =~= kept);
        }
        if is_orphan(&addresses[i], owner_tag, live) {
            disassociate_and_release_address(&mut tasks, &addresses[i], must_exist);
        }
        i = i + 1;
    }
    proof {
        assert(all.take(all.len() as int) =~= all);
    }
    tasks
}

} // verus!

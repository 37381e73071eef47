//! Labelling the nodes through which traffic may leave the cluster.
use crate::eip::{Eip, EipView};
use crate::error::Error;
use crate::kube_ext::{Node, NodeView};
use crate::labels::EGRESS_NODE_STATUS_LABEL;
use crate::operation::{progress_view, Operation, Progress, Reply, ReplyView, Request, RequestView};
use crate::search::{lemma_filter_members, lemma_filter_step};
use crate::tasks::{start_tasks, Task, TaskList, TaskListView, TaskView};
use vstd::pervasive::unreached;
use vstd::prelude::*;

verus! {

/// The node that takes over an address: its name, and the uid by which it is known.
#[derive(Debug)]
pub struct ClaimedNode {
    pub name: String,
    pub uid: Option<String>,
}

/// A `ClaimedNode` as a mathematical value.
pub struct ClaimedNodeView {
    pub name: Seq<char>,
    pub uid: Option<Seq<char>>,
}

/// Moving the egress label of an address to the node that has the address, if any has it.
#[allow(inconsistent_fields)]
#[derive(Debug)]
pub enum EgressLabelling {
    /// The nodes that carry the label for the address are being listed.
    Listing { allocation_id: String, node: Option<ClaimedNode> },
    /// The labels are being set and removed.
    Labelling { tasks: TaskList },
}

/// An `EgressLabelling` as a mathematical value.
#[allow(inconsistent_fields)]
pub enum EgressLabellingView {
    Listing { allocation_id: Seq<char>, node: Option<ClaimedNodeView> },
    Labelling { tasks: TaskListView },
}

impl DeepView for ClaimedNode {
    type V = ClaimedNodeView;

    open spec fn deep_view(&self) -> ClaimedNodeView {
        ClaimedNodeView { name: self.name@, uid: self.uid.deep_view() }
    }
}

impl DeepView for EgressLabelling {
    type V = EgressLabellingView;

    open spec fn deep_view(&self) -> EgressLabellingView {
        match self {
            EgressLabelling::Listing { allocation_id, node } => EgressLabellingView::Listing {
                allocation_id: allocation_id@,
                node: node.deep_view(),
            },
            EgressLabelling::Labelling { tasks } => EgressLabellingView::Labelling {
                tasks: tasks.deep_view(),
            },
        }
    }
}

/// How the labelling goes on.
pub type EgressProgress = Progress<EgressLabellingView, ()>;

/// The label selector for the nodes that carry the label for an address.
pub open spec fn egress_selector(allocation_id: Seq<char>) -> Seq<char> {
    EGRESS_NODE_STATUS_LABEL@ + "="@ + allocation_id
}

/// Labelling starts with a look for the nodes that carry the label for the address. An address
/// has to have been allocated.
pub open spec fn start_labelling(eip: EipView, node: Option<NodeView>) -> EgressProgress {
    match eip.allocation_id() {
        None => Progress::Finished(Err(Error::MissingAllocationId)),
        Some(allocation_id) => Progress::Pending(
            EgressLabellingView::Listing {
                allocation_id,
                node: match node {
                    Some(node) => Some(ClaimedNodeView { name: node.name->0, uid: node.uid }),
                    None => None,
                },
            },
        ),
    }
}

/// Whether a node is not the one with the address.
pub open spec fn is_other_node(n: NodeView, node: Option<ClaimedNodeView>) -> bool {
    match node {
        Some(claimed) => claimed.uid != n.uid,
        None => true,
    }
}

/// The nodes that are not the one with the address.
pub open spec fn other_nodes(nodes: Seq<NodeView>, node: Option<ClaimedNodeView>) -> Seq<NodeView> {
    nodes.filter(|n: NodeView| is_other_node(n, node))
}

/// Whether every node has a name.
pub open spec fn all_named(nodes: Seq<NodeView>) -> bool {
    forall|i: int| 0 <= i < nodes.len() ==> (#[trigger] nodes[i]).name is Some
}

/// Removing the label from nodes, one by one.
pub open spec fn unlabel_tasks(nodes: Seq<NodeView>) -> Seq<TaskView> {
    nodes.map_values(|n: NodeView| TaskView::RemoveGatewayLabel { node_name: n.name->0 })
}

/// The node with the address gets the label, and all others that carry it lose it.
pub open spec fn label_tasks(
    allocation_id: Seq<char>,
    node: Option<ClaimedNodeView>,
    nodes: Seq<NodeView>,
) -> Seq<TaskView> {
    (match node {
        Some(node) => seq![
            TaskView::AddGatewayLabel { node_name: node.name, status: allocation_id },
        ],
        None => Seq::empty(),
    }) + unlabel_tasks(other_nodes(nodes, node))
}

/// Labelling goes on as the list of tasks does.
pub open spec fn labelling(progress: Progress<TaskListView, ()>) -> EgressProgress {
    match progress {
        Progress::Pending(tasks) => Progress::Pending(EgressLabellingView::Labelling { tasks }),
        Progress::Finished(outcome) => Progress::Finished(outcome),
    }
}

/// Whether two optional strings are equal.
fn same(a: &Option<String>, b: &Option<String>) -> (r: bool)
    ensures
        r == (a.deep_view() == b.deep_view()),
{
    match (a, b) {
        (Some(a), Some(b)) => *a == *b,
        (None, None) => true,
        _ => false,
    }
}

/// Whether a node is not the one with the address.
fn is_other(n: &Node, node: &Option<ClaimedNode>) -> (r: bool)
    ensures
        r == is_other_node(n.deep_view(), node.deep_view()),
{
    match node {
        Some(claimed) => !same(&claimed.uid, &n.uid),
        None => true,
    }
}

/// Whether every node that is not the one with the address has a name.
fn others_named(nodes: &Vec<Node>, node: &Option<ClaimedNode>) -> (r: bool)
    ensures
        r == all_named(other_nodes(nodes.deep_view(), node.deep_view())),
{
    let ghost all = nodes.deep_view();
    let ghost other = |n: NodeView| is_other_node(n, node.deep_view());
    let mut named = true;
    let mut i: usize = 0;
    proof {
        reveal(Seq::filter);
        assert(all.take(0) =~= Seq::empty());
    }
    while i < nodes.len()
        invariant
            all == nodes.deep_view(),
            other == (|n: NodeView| is_other_node(n, node.deep_view())),
            i <= nodes.len(),
            named == all_named(all.take(i as int).filter(other)),
        decreases nodes.len() - i,
    {
        assert(all[i as int] == nodes[i as int].deep_view());
        proof {
            lemma_filter_step(all, other, i as int);
            let kept = all.take(i as int).filter(other);
            let grown = kept.push(all[i as int]);
            assert(grown[kept.len() as int] == all[i as int]);
            assert(forall|j: int| 0 <= j < kept.len() ==> #[trigger] kept[j] == grown[j]);
            assert(all_named(grown) <==> all_named(kept) && all[i as int].name is Some);
        }
        if is_other(&nodes[i], node) && nodes[i].name.is_none() {
            named = false;
        }
        i = i + 1;
    }
    proof {
        assert(all.take(all.len() as int) =~= all);
    }
    named
}

/// The tasks that give the label to the node with the address, and take it from all others.
fn plan_labels(allocation_id: &str, node: &Option<ClaimedNode>, nodes: &Vec<Node>) -> (r: Vec<Task>)
    requires
        all_named(other_nodes(nodes.deep_view(), node.deep_view())),
    ensures
        r.deep_view() == label_tasks(allocation_id@, node.deep_view(), nodes.deep_view()),
{
    let ghost all = nodes.deep_view();
    let ghost other = |n: NodeView| is_other_node(n, node.deep_view());
    let mut tasks: Vec<Task> = Vec::new();
    if let Some(claimed) = node {
        tasks.push(
            Task::AddGatewayLabel {
                node_name: claimed.name.clone(),
                status: allocation_id.to_owned(),
            },
        );
    }
    let ghost first = tasks.deep_view();
    let mut i: usize = 0;
    proof {
        reveal(Seq::filter);
        assert(all.take(0) =~= Seq::empty());
        assert(first =~= label_tasks(allocation_id@, node.deep_view(), all.take(0)));
    }
    while i < nodes.len()
        invariant
            all == nodes.deep_view(),
            other == (|n: NodeView| is_other_node(n, node.deep_view())),
            all_named(all.filter(other)),
            i <= nodes.len(),
            tasks.deep_view() == first + unlabel_tasks(all.take(i as int).filter(other)),
        decreases nodes.len() - i,
    {
        assert(all[i as int] == nodes[i as int].deep_view());
        let ghost before = tasks.deep_view();
        proof {
            lemma_filter_step(all, other, i as int);
        }
        if is_other(&nodes[i], node) {
            proof {
                lemma_filter_members(all, other);
                assert(all.contains(all[i as int]));
                assert(all.filter(other).contains(all[i as int]));
            }
            let node_name = nodes[i].name.clone().unwrap();
            let task = Task::RemoveGatewayLabel { node_name };
            tasks.push(task);
            proof {
                let kept = all.take(i as int).filter(other);
                assert(tasks.deep_view() =~= before.push(task.deep_view()));
                assert(unlabel_tasks(kept.push(all[i as int])) =~= unlabel_tasks(kept).push(
                    task.deep_view(),
                ));
                assert(first + unlabel_tasks(kept.push(all[i as int])) =~= before.push(
                    task.deep_view(),
                ));
            }
        }
        i = i + 1;
    }
    proof {
        assert(all.take(all.len() as int) =~= all);
        assert(tasks.deep_view() =~= label_tasks(allocation_id@, node.deep_view(), all));
    }
    tasks
}

/// Starts to move the egress label of the address of `eip` to `node`, or to take it from every
/// node.
pub fn label_egress_nodes_ready(eip: &Eip, node: &Option<Node>) -> (r: Progress<
    EgressLabelling,
    (),
>)
    requires
        node.deep_view() matches Some(node) ==> node.name is Some,
    ensures
        progress_view(r) == start_labelling(eip.deep_view(), node.deep_view()),
{
    let allocation_id = match eip.allocation_id() {
        Some(id) => id.clone(),
        None => {
            return Progress::Finished(Err(Error::MissingAllocationId));
        },
    };
    let node = match node {
        Some(node) => Some(ClaimedNode { name: node.name.clone().unwrap(), uid: node.uid.clone() }),
        None => None,
    };
    Progress::Pending(EgressLabelling::Listing { allocation_id, node })
}

impl EgressLabelling {
    fn labelling(progress: Progress<TaskList, ()>) -> (r: Progress<EgressLabelling, ()>)
        ensures
            progress_view(r) == labelling(progress_view(progress)),
    {
        match progress {
            Progress::Pending(tasks) => Progress::Pending(EgressLabelling::Labelling { tasks }),
            Progress::Finished(outcome) => Progress::Finished(outcome),
        }
    }
}

impl Operation for EgressLabelling {
    type Outcome = ();

    open spec fn ask(state: EgressLabellingView) -> RequestView {
        match state {
            EgressLabellingView::Listing { allocation_id, .. } => RequestView::ListNodes {
                label_selector: egress_selector(allocation_id),
            },
            EgressLabellingView::Labelling { tasks } => TaskList::ask(tasks),
        }
    }

    open spec fn fits(state: EgressLabellingView, answer: Result<ReplyView, Error>) -> bool {
        match state {
            EgressLabellingView::Listing { node, .. } => answer matches Ok(reply) ==> (
            reply matches ReplyView::Nodes(nodes) && all_named(other_nodes(nodes, node))),
            EgressLabellingView::Labelling { tasks } => TaskList::fits(tasks, answer),
        }
    }

    open spec fn next(
        state: EgressLabellingView,
        answer: Result<ReplyView, Error>,
    ) -> EgressProgress {
        match (state, answer) {
            (EgressLabellingView::Labelling { tasks }, _) => labelling(
                TaskList::next(tasks, answer),
            ),
            (_, Err(e)) => Progress::Finished(Err(e)),
            (
                EgressLabellingView::Listing { allocation_id, node },
                Ok(ReplyView::Nodes(nodes)),
            ) => labelling(start_tasks(label_tasks(allocation_id, node, nodes), None)),
            _ => arbitrary(),
        }
    }

    fn request(&self) -> (r: Request) {
        match self {
            EgressLabelling::Listing { allocation_id, .. } => Request::ListNodes {
                label_selector: EGRESS_NODE_STATUS_LABEL.to_owned().concat("=").concat(
                    allocation_id.as_str(),
                ),
            },
            EgressLabelling::Labelling { tasks } => tasks.request(),
        }
    }

    fn accepts(&self, answer: &Result<Reply, Error>) -> (r: bool) {
        match self {
            EgressLabelling::Listing { node, .. } => match answer {
                Ok(Reply::Nodes(nodes)) => others_named(nodes, node),
                Ok(_) => false,
                Err(_) => true,
            },
            EgressLabelling::Labelling { tasks } => tasks.accepts(answer),
        }
    }

    fn resume(self, answer: Result<Reply, Error>) -> (r: Progress<Self, ()>) {
        match self {
            EgressLabelling::Labelling { tasks } => Self::labelling(tasks.resume(answer)),
            EgressLabelling::Listing { allocation_id, node } => match answer {
                Err(e) => Progress::Finished(Err(e)),
                Ok(Reply::Nodes(nodes)) => Self::labelling(
                    TaskList::start(plan_labels(allocation_id.as_str(), &node, &nodes), None),
                ),
                Ok(_) => unreached(),
            },
        }
    }
}

} // verus!

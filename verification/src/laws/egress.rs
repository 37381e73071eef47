//! What holds of labelling the nodes through which traffic may leave the cluster.
use crate::egress::{
    is_other_node, label_tasks, other_nodes, start_labelling, unlabel_tasks, ClaimedNodeView,
    EgressLabelling, EgressLabellingView,
};
use crate::eip::{label_selector, EipView};
use crate::error::Error;
use crate::kube_ext::NodeView;
use crate::labels::{gateway_status_patch, EGRESS_NODE_STATUS_LABEL};
use crate::laws::tasks::{
    continues, embeds, law_tasks_success_means_all_done, lemma_embedded, lemma_embedded_done,
    was_done,
};
use crate::operation::{asked, is_history, run, succeeded, Operation, ReplyView, RequestView};
use crate::search::lemma_filter_members;
use crate::tasks::{start_tasks, TaskList, TaskListView, TaskView};
use crate::text::lowercase;
use vstd::prelude::*;

verus! {

/// The node that has the address gets the label, and it alone; the label is taken from every other
/// node that was listed, and from no other node.
pub proof fn law_label_goes_to_the_node_with_the_address(
    allocation_id: Seq<char>,
    node: Option<ClaimedNodeView>,
    nodes: Seq<NodeView>,
    i: int,
)
    requires
        0 <= i < label_tasks(allocation_id, node, nodes).len(),
    ensures
        match label_tasks(allocation_id, node, nodes)[i] {
            TaskView::AddGatewayLabel { node_name, status } => i == 0 && status == allocation_id && (
            node matches Some(claimed) && claimed.name == node_name),
            TaskView::RemoveGatewayLabel { node_name } => exists|j: int|
                0 <= j < nodes.len() && is_other_node(#[trigger] nodes[j], node) && nodes[j].name->0
                    == node_name,
            _ => false,
        },
{
    let tasks = label_tasks(allocation_id, node, nodes);
    let others = other_nodes(nodes, node);
    let n = if node is Some {
        1
    } else {
        0int
    };
    if i >= n {
        let k = i - n;
        assert(tasks[i] == unlabel_tasks(others)[k]);
        lemma_filter_members(nodes, |m: NodeView| is_other_node(m, node));
        assert(others.contains(others[k]));
        let j = choose|j: int| 0 <= j < nodes.len() && nodes[j] == others[k];
        assert(is_other_node(nodes[j], node));
    }
}

/// The label that the node with an address gets is the one that the nodes with that address are
/// looked for by, provided that the lower case of the allocation id is the allocation id itself.
pub proof fn law_labelled_node_is_looked_for(
    eip: EipView,
    node: Option<NodeView>,
    node_name: Seq<char>,
)
    requires
        eip.allocation_id() is Some,
    ensures
        lowercase(eip.allocation_id()->0) == eip.allocation_id()->0 ==> {
            let labels = seq![(EGRESS_NODE_STATUS_LABEL@, eip.allocation_id()->0)];
            let set = TaskView::AddGatewayLabel { node_name, status: eip.allocation_id()->0 };
            &&& set.request() == RequestView::ApplyToNode {
                name: node_name,
                patch: gateway_status_patch(Some(labels[0].1)),
            }
            &&& asked::<EgressLabelling>(start_labelling(eip, node), Seq::empty()) == Some(
                RequestView::ListNodes { label_selector: label_selector(labels) },
            )
        },
{
}

/// The state of labelling in which tasks are carried out.
pub open spec fn labelling_tasks() -> spec_fn(TaskListView) -> EgressLabellingView {
    |tasks: TaskListView| EgressLabellingView::Labelling { tasks }
}

/// Labelling succeeds only once the node that has the address, if any has it, got the label, and
/// every other node that was listed has lost it.
pub proof fn law_labelling_is_complete(
    eip: EipView,
    node: Option<NodeView>,
    nodes: Seq<NodeView>,
    answers: Seq<Result<ReplyView, Error>>,
)
    requires
        node matches Some(n) ==> n.name is Some,
        eip.allocation_id() is Some,
        answers.len() > 0,
        answers[0] == Ok::<ReplyView, Error>(ReplyView::Nodes(nodes)),
        is_history::<EgressLabelling>(start_labelling(eip, node), answers),
        succeeded::<EgressLabelling>(start_labelling(eip, node), answers),
    ensures
        node matches Some(n) ==> was_done::<EgressLabelling>(
            start_labelling(eip, node),
            answers,
            TaskView::AddGatewayLabel { node_name: n.name->0, status: eip.allocation_id()->0 },
        ),
        forall|j: int|
            0 <= j < nodes.len() && (node matches Some(n) ==> n.uid != (#[trigger] nodes[j]).uid)
                ==> was_done::<EgressLabelling>(
                start_labelling(eip, node),
                answers,
                TaskView::RemoveGatewayLabel { node_name: nodes[j].name->0 },
            ),
{
    let start = start_labelling(eip, node);
    let claimed = start->Pending_0->node;
    let allocation_id = eip.allocation_id()->0;
    let list = label_tasks(allocation_id, claimed, nodes);
    let tasks = start_tasks(list, None);
    let first = seq![answers[0]];
    let rest = answers.skip(1);
    assert(first + rest =~= answers);
    assert(first.drop_last() =~= Seq::empty());
    assert(run::<EgressLabelling>(start, first.drop_last()) == start);
    assert(embeds::<EgressLabelling>(labelling_tasks()));
    assert(continues::<EgressLabelling>(
        labelling_tasks(),
        tasks,
        run::<EgressLabelling>(start, first),
    ));
    lemma_embedded::<EgressLabelling>(start, first, tasks, labelling_tasks(), rest);
    law_tasks_success_means_all_done(list, None, rest);
    assert forall|i: int| 0 <= i < list.len() implies was_done::<EgressLabelling>(
        start,
        answers,
        #[trigger] list[i],
    ) by {
        assert(was_done::<TaskList>(tasks, rest, list[i]));
        lemma_embedded_done::<EgressLabelling>(
            start,
            first,
            tasks,
            labelling_tasks(),
            rest,
            list[i],
        );
    }
    if let Some(n) = node {
        assert(list[0] == (TaskView::AddGatewayLabel {
            node_name: n.name->0,
            status: allocation_id,
        }));
    }
    assert forall|j: int|
        0 <= j < nodes.len() && (node matches Some(n) ==> n.uid != (
        #[trigger] nodes[j]).uid) implies was_done::<EgressLabelling>(
        start,
        answers,
        TaskView::RemoveGatewayLabel { node_name: nodes[j].name->0 },
    ) by {
        let others = other_nodes(nodes, claimed);
        lemma_filter_members(nodes, |m: NodeView| is_other_node(m, claimed));
        assert(nodes.contains(nodes[j]));
        assert(others.contains(nodes[j]));
        let k = choose|k: int| 0 <= k < others.len() && others[k] == nodes[j];
        let m = if node is Some {
            k + 1
        } else {
            k
        };
        assert(list[m] == unlabel_tasks(others)[k]);
        assert(was_done::<EgressLabelling>(start, answers, list[m]));
    }
}

} // verus!

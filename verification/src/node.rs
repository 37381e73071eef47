//! The readiness of nodes.
use crate::error::Error;
use crate::kube_ext::{Node, NodeConditionView, NodeView};
use crate::search::{
    first_where, is_first, lemma_filter_step, lemma_first_absent, lemma_first_found,
};
use crate::string_map::{pairs_map, StringMap};
use crate::text::str_eq;
use vstd::prelude::*;

verus! {

/// The status of the node's `Ready` condition, if it has one.
pub fn get_ready_status_from_node(node: &Node) -> (r: Option<String>)
    ensures
        r.deep_view() == node.deep_view().ready_status(),
{
    let conditions = match &node.status {
        Some(status) => match &status.conditions {
            Some(conditions) => conditions,
            None => {
                return None;
            },
        },
        None => {
            return None;
        },
    };
    let ghost all = conditions.deep_view();
    let ghost ready = |c: NodeConditionView| c.type_ == "Ready"@;
    let mut i: usize = 0;
    while i < conditions.len()
        invariant
            i <= conditions.len(),
            all == conditions.deep_view(),
            ready == (|c: NodeConditionView| c.type_ == "Ready"@),
            forall|j: int| 0 <= j < i ==> !#[trigger] ready(all[j]),
            node.deep_view().ready_status() == (match first_where(all, ready) {
                Some(c) => Some(c.status),
                None => None,
            }),
        decreases conditions.len() - i,
    {
        if str_eq(conditions[i].type_.as_str(), "Ready") {
            proof {
                assert(is_first(all, ready, i as int));
                lemma_first_found(all, ready, i as int);
            }
            return Some(conditions[i].status.clone());
        }
        i = i + 1;
    }
    proof {
        lemma_first_absent(all, ready);
    }
    None
}

/// Whether a node has a name.
pub open spec fn is_named() -> spec_fn(NodeView) -> bool {
    |n: NodeView| n.name is Some
}

/// The names of the named nodes with their readiness, in order.
pub open spec fn named_statuses(nodes: Seq<NodeView>) -> Seq<(Seq<char>, Seq<char>)> {
    nodes.filter(is_named()).map_values(|n: NodeView| (n.name->0, n.ready_status()->0))
}

/// The readiness of each named node, by name; a later node overrides an earlier one of the same
/// name. A named node without a `Ready` condition is an error.
pub fn get_nodes_ready_status(node_list: &Vec<Node>) -> (r: Result<StringMap, Error>)
    ensures
        match r {
            Ok(map) => {
                &&& forall|i: int|
                    0 <= i < node_list.len() && (#[trigger] node_list.deep_view()[i]).name is Some
                        ==> node_list.deep_view()[i].ready_status() is Some
                &&& map@ == pairs_map(named_statuses(node_list.deep_view()))
            },
            Err(e) => {
                &&& e == Error::MissingNodeReadyCondition
                &&& exists|i: int|
                    0 <= i < node_list.len() && (#[trigger] node_list.deep_view()[i]).name is Some
                        && node_list.deep_view()[i].ready_status() is None
            },
        },
{
    let mut map = StringMap::new();
    let ghost all = node_list.deep_view();
    let mut i: usize = 0;
    proof {
        reveal(Seq::filter);
        assert(all.take(0) =~= Seq::empty());
        assert(named_statuses(all.take(0)) =~= Seq::empty());
    }
    while i < node_list.len()
        invariant
            all == node_list.deep_view(),
            i <= node_list.len(),
            forall|j: int|
                0 <= j < i && (#[trigger] all[j]).name is Some ==> all[j].ready_status() is Some,
            map@ == pairs_map(named_statuses(all.take(i as int))),
        decreases node_list.len() - i,
    {
        let node = &node_list[i];
        assert(all[i as int] == node.deep_view());
        proof {
            lemma_filter_step(all, is_named(), i as int);
        }
        if let Some(name) = &node.name {
            match get_ready_status_from_node(node) {
                Some(status) => {
                    proof {
                        let next = named_statuses(all.take(i + 1));
                        assert(next =~= named_statuses(all.take(i as int)).push(
                            (name@, status@),
                        ));
                        assert(next.drop_last() =~= named_statuses(all.take(i as int)));
                    }
                    map.insert(name.clone(), status);
                },
                None => {
                    return Err(Error::MissingNodeReadyCondition);
                },
            }
        }
        i = i + 1;
    }
    proof {
        assert(all.take(all.len() as int) =~= all);
    }
    Ok(map)
}

} // verus!

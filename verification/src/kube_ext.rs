//! Pods and nodes, as far as the operator reads them.
use crate::search::{first_where, is_first, lemma_first_absent, lemma_first_found};
use crate::string_map::StringMap;
use crate::text::str_eq;
use vstd::prelude::*;

verus! {

/// The part of a pod's specification that the operator reads.
#[derive(Debug)]
pub struct PodSpec {
    pub node_name: Option<String>,
}

/// The part of a pod's status that the operator reads.
#[derive(Debug)]
pub struct PodStatus {
    pub pod_ip: Option<String>,
}

/// A pod.
#[derive(Debug)]
pub struct Pod {
    pub name: Option<String>,
    pub namespace: Option<String>,
    pub uid: Option<String>,
    pub labels: Option<StringMap>,
    pub annotations: Option<StringMap>,
    pub finalizers: Vec<String>,
    pub spec: Option<PodSpec>,
    pub status: Option<PodStatus>,
}

/// The part of a node's specification that the operator reads.
#[derive(Debug)]
pub struct NodeSpec {
    pub provider_id: Option<String>,
}

/// An address of a node, with its kind.
#[derive(Debug)]
pub struct NodeAddress {
    pub type_: String,
    pub address: String,
}

/// A condition of a node, with its kind.
#[derive(Debug)]
pub struct NodeCondition {
    pub type_: String,
    pub status: String,
}

/// The part of a node's status that the operator reads.
#[derive(Debug)]
pub struct NodeStatus {
    pub addresses: Option<Vec<NodeAddress>>,
    pub conditions: Option<Vec<NodeCondition>>,
}

/// A node.
#[derive(Debug)]
pub struct Node {
    pub name: Option<String>,
    pub uid: Option<String>,
    pub labels: Option<StringMap>,
    pub spec: Option<NodeSpec>,
    pub status: Option<NodeStatus>,
}

/// A pod as a mathematical value.
pub struct PodView {
    pub name: Option<Seq<char>>,
    pub namespace: Option<Seq<char>>,
    pub uid: Option<Seq<char>>,
    pub labels: Option<Map<Seq<char>, Seq<char>>>,
    pub annotations: Option<Map<Seq<char>, Seq<char>>>,
    pub finalizers: Seq<Seq<char>>,
    pub spec: Option<PodSpecView>,
    pub status: Option<PodStatusView>,
}

/// A pod's specification as a mathematical value.
pub struct PodSpecView {
    pub node_name: Option<Seq<char>>,
}

/// A pod's status as a mathematical value.
pub struct PodStatusView {
    pub pod_ip: Option<Seq<char>>,
}

/// A node as a mathematical value.
pub struct NodeView {
    pub name: Option<Seq<char>>,
    pub uid: Option<Seq<char>>,
    pub labels: Option<Map<Seq<char>, Seq<char>>>,
    pub spec: Option<NodeSpecView>,
    pub status: Option<NodeStatusView>,
}

/// A node's specification as a mathematical value.
pub struct NodeSpecView {
    pub provider_id: Option<Seq<char>>,
}

/// A node's status as a mathematical value.
pub struct NodeStatusView {
    pub addresses: Option<Seq<NodeAddressView>>,
    pub conditions: Option<Seq<NodeConditionView>>,
}

/// A node's address as a mathematical value.
pub struct NodeAddressView {
    pub type_: Seq<char>,
    pub address: Seq<char>,
}

/// A node's condition as a mathematical value.
pub struct NodeConditionView {
    pub type_: Seq<char>,
    pub status: Seq<char>,
}

impl DeepView for PodSpec {
    type V = PodSpecView;

    open spec fn deep_view(&self) -> PodSpecView {
        PodSpecView { node_name: self.node_name.deep_view() }
    }
}

impl DeepView for PodStatus {
    type V = PodStatusView;

    open spec fn deep_view(&self) -> PodStatusView {
        PodStatusView { pod_ip: self.pod_ip.deep_view() }
    }
}

impl DeepView for Pod {
    type V = PodView;

    open spec fn deep_view(&self) -> PodView {
        PodView {
            name: self.name.deep_view(),
            namespace: self.namespace.deep_view(),
            uid: self.uid.deep_view(),
            labels: self.labels.deep_view(),
            annotations: self.annotations.deep_view(),
            finalizers: self.finalizers.deep_view(),
            spec: self.spec.deep_view(),
            status: self.status.deep_view(),
        }
    }
}

impl DeepView for NodeSpec {
    type V = NodeSpecView;

    open spec fn deep_view(&self) -> NodeSpecView {
        NodeSpecView { provider_id: self.provider_id.deep_view() }
    }
}

impl DeepView for NodeAddress {
    type V = NodeAddressView;

    open spec fn deep_view(&self) -> NodeAddressView {
        NodeAddressView { type_: self.type_@, address: self.address@ }
    }
}

impl DeepView for NodeCondition {
    type V = NodeConditionView;

    open spec fn deep_view(&self) -> NodeConditionView {
        NodeConditionView { type_: self.type_@, status: self.status@ }
    }
}

impl DeepView for NodeStatus {
    type V = NodeStatusView;

    open spec fn deep_view(&self) -> NodeStatusView {
        NodeStatusView {
            addresses: self.addresses.deep_view(),
            conditions: self.conditions.deep_view(),
        }
    }
}

impl DeepView for Node {
    type V = NodeView;

    open spec fn deep_view(&self) -> NodeView {
        NodeView {
            name: self.name.deep_view(),
            uid: self.uid.deep_view(),
            labels: self.labels.deep_view(),
            spec: self.spec.deep_view(),
            status: self.status.deep_view(),
        }
    }
}

impl PodView {
    /// The IP address that the pod's status reports.
    pub open spec fn ip(self) -> Option<Seq<char>> {
        match self.status {
            Some(status) => status.pod_ip,
            None => None,
        }
    }

    /// The node that the pod is scheduled on.
    pub open spec fn node_name(self) -> Option<Seq<char>> {
        match self.spec {
            Some(spec) => spec.node_name,
            None => None,
        }
    }
}

impl NodeView {
    /// The first address of kind `InternalIP` that the node's status reports.
    pub open spec fn ip(self) -> Option<Seq<char>> {
        match self.status {
            Some(NodeStatusView { addresses: Some(addresses), .. }) => match first_where(
                addresses,
                |a: NodeAddressView| a.type_ == "InternalIP"@,
            ) {
                Some(a) => Some(a.address),
                None => None,
            },
            _ => None,
        }
    }

    /// The id that the cloud provider gave the node.
    pub open spec fn provider_id(self) -> Option<Seq<char>> {
        match self.spec {
            Some(spec) => spec.provider_id,
            None => None,
        }
    }

    /// The status of the first condition of kind `Ready` that the node's status reports.
    pub open spec fn ready_status(self) -> Option<Seq<char>> {
        match self.status {
            Some(NodeStatusView { conditions: Some(conditions), .. }) => match first_where(
                conditions,
                |c: NodeConditionView| c.type_ == "Ready"@,
            ) {
                Some(c) => Some(c.status),
                None => None,
            },
            _ => None,
        }
    }
}

impl Pod {
    /// The IP address that the pod's status reports.
    pub fn ip(&self) -> (r: Option<&str>)
        ensures
            r.deep_view() == self.deep_view().ip(),
    {
        match &self.status {
            Some(status) => match &status.pod_ip {
                Some(ip) => Some(ip.as_str()),
                None => None,
            },
            None => None,
        }
    }

    /// The node that the pod is scheduled on.
    pub fn node_name(&self) -> (r: Option<&str>)
        ensures
            r.deep_view() == self.deep_view().node_name(),
    {
        match &self.spec {
            Some(spec) => match &spec.node_name {
                Some(name) => Some(name.as_str()),
                None => None,
            },
            None => None,
        }
    }
}

impl Node {
    /// The first address of kind `InternalIP` that the node's status reports.
    pub fn ip(&self) -> (r: Option<&str>)
        ensures
            r.deep_view() == self.deep_view().ip(),
    {
        let addresses = match &self.status {
            Some(status) => match &status.addresses {
                Some(addresses) => addresses,
                None => {
                    return None;
                },
            },
            None => {
                return None;
            },
        };
        let ghost all = addresses.deep_view();
        let ghost internal = |a: NodeAddressView| a.type_ == "InternalIP"@;
        let mut i: usize = 0;
        while i < addresses.len()
            invariant
                i <= addresses.len(),
                all == addresses.deep_view(),
                internal == (|a: NodeAddressView| a.type_ == "InternalIP"@),
                forall|j: int| 0 <= j < i ==> !#[trigger] internal(all[j]),
                self.deep_view().ip() == (match first_where(all, internal) {
                    Some(a) => Some(a.address),
                    None => None,
                }),
            decreases addresses.len() - i,
        {
            if str_eq(addresses[i].type_.as_str(), "InternalIP") {
                proof {
                    assert(is_first(all, internal, i as int));
                    lemma_first_found(all, internal, i as int);
                }
                return Some(addresses[i].address.as_str());
            }
            i = i + 1;
        }
        proof {
            lemma_first_absent(all, internal);
        }
        None
    }

    /// The labels of the node.
    pub fn labels(&self) -> (r: Option<&StringMap>)
        ensures
            r.deep_view() == self.deep_view().labels,
    {
        self.labels.as_ref()
    }

    /// The id that the cloud provider gave the node.
    pub fn provider_id(&self) -> (r: Option<&str>)
        ensures
            r.deep_view() == self.deep_view().provider_id(),
    {
        match &self.spec {
            Some(spec) => match &spec.provider_id {
                Some(id) => Some(id.as_str()),
                None => None,
            },
            None => None,
        }
    }
}

} // verus!

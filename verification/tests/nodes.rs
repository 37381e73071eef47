use eip_operator::error::Error;
use eip_operator::kube_ext::{
    Node, NodeAddress, NodeCondition, NodeSpec, NodeStatus, Pod, PodSpec, PodStatus,
};
use eip_operator::node::{get_nodes_ready_status, get_ready_status_from_node};
use eip_operator::string_map::StringMap;

fn node(name: Option<&str>, conditions: Option<Vec<(&str, &str)>>) -> Node {
    Node {
        name: name.map(|s| s.to_owned()),
        uid: None,
        labels: None,
        spec: None,
        status: Some(NodeStatus {
            addresses: None,
            conditions: conditions.map(|cs| {
                cs.into_iter()
                    .map(|(t, s)| NodeCondition { type_: t.to_owned(), status: s.to_owned() })
                    .collect()
            }),
        }),
    }
}

#[test]
fn the_internal_address_of_a_node_is_read() {
    let mut n = node(Some("n"), None);
    assert_eq!(n.ip(), None);
    n.status = Some(NodeStatus {
        addresses: Some(vec![
            NodeAddress { type_: "ExternalIP".to_owned(), address: "1.1.1.1".to_owned() },
            NodeAddress { type_: "InternalIP".to_owned(), address: "10.0.0.1".to_owned() },
            NodeAddress { type_: "InternalIP".to_owned(), address: "10.0.0.2".to_owned() },
        ]),
        conditions: None,
    });
    assert_eq!(n.ip(), Some("10.0.0.1"));
    n.status = None;
    assert_eq!(n.ip(), None);
}

#[test]
fn labels_and_provider_of_a_node_are_read() {
    let mut n = node(Some("n"), None);
    assert!(n.labels().is_none());
    assert_eq!(n.provider_id(), None);
    n.labels = Some(StringMap::from_pairs(vec![("a".to_owned(), "b".to_owned())]));
    n.spec = Some(NodeSpec { provider_id: None });
    assert_eq!(n.labels().unwrap().get("a"), Some(&"b".to_owned()));
    assert_eq!(n.provider_id(), None);
    n.spec = Some(NodeSpec { provider_id: Some("aws:///z/i-1".to_owned()) });
    assert_eq!(n.provider_id(), Some("aws:///z/i-1"));
}

#[test]
fn address_and_node_of_a_pod_are_read() {
    let mut p = Pod {
        name: None,
        namespace: None,
        uid: None,
        labels: None,
        annotations: None,
        finalizers: Vec::new(),
        spec: None,
        status: None,
    };
    assert_eq!(p.ip(), None);
    assert_eq!(p.node_name(), None);
    p.spec = Some(PodSpec { node_name: Some("n".to_owned()) });
    p.status = Some(PodStatus { pod_ip: Some("10.0.0.7".to_owned()) });
    assert_eq!(p.ip(), Some("10.0.0.7"));
    assert_eq!(p.node_name(), Some("n"));
}

#[test]
fn the_first_ready_condition_counts() {
    let conditions = vec![("DiskPressure", "False"), ("Ready", "True"), ("Ready", "Unknown")];
    let n = node(Some("n"), Some(conditions));
    assert_eq!(get_ready_status_from_node(&n), Some("True".to_owned()));
    assert_eq!(get_ready_status_from_node(&node(Some("n"), Some(Vec::new()))), None);
    assert_eq!(get_ready_status_from_node(&node(Some("n"), None)), None);
}

#[test]
fn readiness_is_listed_by_name() {
    let map = get_nodes_ready_status(&vec![
        node(Some("a"), Some(vec![("Ready", "True")])),
        node(None, None),
        node(Some("b"), Some(vec![("Ready", "False")])),
        node(Some("a"), Some(vec![("Ready", "Unknown")])),
    ])
    .unwrap();
    assert_eq!(map.pairs().len(), 2);
    assert_eq!(map.get("a"), Some(&"Unknown".to_owned()));
    assert_eq!(map.get("b"), Some(&"False".to_owned()));
}

#[test]
fn a_named_node_without_readiness_is_an_error() {
    let r = get_nodes_ready_status(&vec![node(Some("a"), None)]);
    assert!(matches!(r, Err(Error::MissingNodeReadyCondition)));
}

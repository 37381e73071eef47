use eip_operator::aws::{
    Address, Instance, InstancesDescription, NetworkInterface, PrivateIpAddress, Reservation,
};
use eip_operator::controller::node::{is_conflict_error, NodeApply, NodeCleanup};
use eip_operator::eip::{Eip, EipSelector, EipStatus};
use eip_operator::error::{Error, KubeError};
use eip_operator::kube_ext::{Node, NodeAddress, NodeCondition, NodeSpec, NodeStatus};
use eip_operator::labels::add_gateway_status_label;
use eip_operator::operation::{ApiScope, Operation, Progress, Reply, Request};
use eip_operator::string_map::StringMap;

fn s(text: &str) -> String {
    text.to_owned()
}

fn map(key: &str, value: &str) -> StringMap {
    StringMap::from_pairs(vec![(s(key), s(value))])
}

fn node(ready: Option<&str>) -> Node {
    Node {
        name: Some(s("node-1")),
        uid: Some(s("node-uid")),
        labels: Some(map("workload", "egress")),
        spec: Some(NodeSpec { provider_id: Some(s("aws:///z/i-1")) }),
        status: Some(NodeStatus {
            addresses: Some(vec![NodeAddress { type_: s("InternalIP"), address: s("10.0.0.1") }]),
            conditions: ready
                .map(|r| vec![NodeCondition { type_: s("Ready"), status: s(r) }]),
        }),
    }
}

fn eip(name: &str, value: &str, resource_id: Option<&str>) -> Eip {
    Eip {
        name: Some(s(name)),
        namespace: Some(s("default")),
        uid: None,
        resource_version: None,
        selector: EipSelector::Node { selector: map("workload", value) },
        status: Some(EipStatus {
            allocation_id: Some(format!("alloc-{name}")),
            public_ip_address: None,
            association_id: None,
            resource_id: resource_id.map(s),
        }),
    }
}

fn address(eni: Option<&str>, ip: Option<&str>) -> Address {
    Address {
        allocation_id: None,
        association_id: Some(s("as-1")),
        public_ip: None,
        network_interface_id: eni.map(s),
        private_ip_address: ip.map(s),
        tags: None,
    }
}

fn instances(ip: &str) -> InstancesDescription {
    InstancesDescription {
        reservations: Some(vec![Reservation {
            instances: Some(vec![Instance {
                network_interfaces: Some(vec![NetworkInterface {
                    network_interface_id: Some(s("eni-1")),
                    private_ip_addresses: Some(vec![PrivateIpAddress {
                        private_ip_address: Some(s(ip)),
                    }]),
                }]),
            }]),
        }]),
    }
}

fn scope() -> ApiScope {
    ApiScope::Namespaced(s("default"))
}

fn drive<M: Operation>(
    start: Progress<M, M::Outcome>,
    answers: Vec<Result<Reply, Error>>,
) -> (Vec<String>, Option<Result<M::Outcome, Error>>) {
    let mut asked = Vec::new();
    let mut answers = answers.into_iter();
    let mut progress = start;
    loop {
        match progress {
            Progress::Finished(outcome) => {
                assert!(answers.next().is_none());
                return (asked, Some(outcome));
            }
            Progress::Pending(operation) => {
                asked.push(format!("{:?}", operation.request()));
                match answers.next() {
                    None => return (asked, None),
                    Some(answer) => {
                        assert!(operation.accepts(&answer));
                        progress = operation.resume(answer);
                    }
                }
            }
        }
    }
}

fn shown(requests: Vec<Request>) -> Vec<String> {
    requests.iter().map(|r| format!("{r:?}")).collect()
}

fn kube_error(reason: &str) -> Error {
    Error::Kube { source: KubeError { reason: Some(s(reason)), message: s("no") } }
}

fn claim() -> Request {
    Request::SetStatusShouldAttach {
        scope: scope(),
        eip: eip("e", "egress", None),
        eni_id: s("eni-1"),
        private_ip: s("10.0.0.1"),
        resource_id: s("node-1"),
    }
}

#[test]
fn a_ready_node_takes_the_first_free_eip() {
    let (asked, outcome) = drive(
        NodeApply::start(&node(Some("True")), &None),
        vec![
            Ok(Reply::Eips(vec![
                eip("x", "batch", None),
                eip("y", "egress", Some("node-2")),
                eip("e", "egress", None),
                eip("z", "egress", None),
            ])),
            Ok(Reply::Addresses(Some(vec![address(None, None)]))),
            Ok(Reply::Instances(instances("10.0.0.1"))),
            Ok(Reply::Done),
            Ok(Reply::Associated(Some(s("as-2")))),
            Ok(Reply::Done),
        ],
    );
    assert_eq!(
        asked,
        shown(vec![
            Request::ListEips { scope: ApiScope::All },
            Request::DescribeAddress { allocation_id: s("alloc-e") },
            Request::DescribeInstance { instance_id: s("i-1") },
            claim(),
            Request::AssociateAddress {
                allocation_id: s("alloc-e"),
                eni_id: s("eni-1"),
                private_ip: s("10.0.0.1"),
            },
            Request::SetStatusAssociationId {
                scope: scope(),
                name: s("e"),
                association_id: s("as-2"),
            },
        ])
    );
    assert!(matches!(outcome, Some(Ok(None))));
}

#[test]
fn a_node_whose_address_is_attached_asks_for_nothing_more() {
    let (asked, outcome) = drive(
        NodeApply::start(&node(Some("True")), &None),
        vec![
            Ok(Reply::Eips(vec![eip("e", "egress", Some("node-1"))])),
            Ok(Reply::Addresses(Some(vec![address(Some("eni-1"), Some("10.0.0.1"))]))),
            Ok(Reply::Instances(instances("10.0.0.1"))),
        ],
    );
    assert_eq!(asked.len(), 3);
    assert!(matches!(outcome, Some(Ok(None))));
}

#[test]
fn a_node_that_is_overtaken_tries_again_in_three_seconds() {
    let answers = |last| {
        vec![
            Ok(Reply::Eips(vec![eip("e", "egress", None)])),
            Ok(Reply::Addresses(Some(vec![address(None, None)]))),
            Ok(Reply::Instances(instances("10.0.0.1"))),
            Err(last),
        ]
    };
    let (asked, outcome) =
        drive(NodeApply::start(&node(Some("True")), &None), answers(kube_error("Conflict")));
    assert_eq!(asked[3], format!("{:?}", claim()));
    match outcome {
        Some(Ok(Some(action))) => assert_eq!(action.requeue_after_millis, Some(3000)),
        _ => panic!("the node does not try again"),
    }
    let (_, outcome) =
        drive(NodeApply::start(&node(Some("True")), &None), answers(kube_error("Forbidden")));
    assert!(matches!(outcome, Some(Err(Error::Kube { .. }))));
    assert!(is_conflict_error(&kube_error("Conflict")));
    assert!(!is_conflict_error(&kube_error("conflict")));
    assert!(!is_conflict_error(&Error::MissingNodeIp));
}

fn detach(eip: Eip) -> Request {
    Request::SetStatusDetached { scope: scope(), eip }
}

#[test]
fn a_node_that_is_not_ready_gives_up_its_claim() {
    for status in ["False", "Unknown"] {
        let (asked, outcome) = drive(
            NodeApply::start(&node(Some(status)), &None),
            vec![
                Ok(Reply::Eips(vec![
                    eip("free", "egress", None),
                    eip("y", "egress", Some("node-2")),
                    eip("e", "egress", Some("node-1")),
                ])),
                Ok(Reply::Done),
            ],
        );
        assert_eq!(
            asked,
            shown(vec![
                Request::ListEips { scope: ApiScope::All },
                detach(eip("e", "egress", Some("node-1"))),
            ])
        );
        assert!(matches!(outcome, Some(Ok(None))));
    }
}

#[test]
fn a_node_that_is_not_ready_gives_up_every_claim() {
    let eips = || {
        Ok(Reply::Eips(vec![
            eip("a", "egress", Some("node-1")),
            eip("x", "batch", Some("node-1")),
            eip("free", "egress", None),
            eip("b", "egress", Some("node-1")),
        ]))
    };
    let (asked, outcome) = drive(
        NodeApply::start(&node(Some("False")), &None),
        vec![eips(), Ok(Reply::Done), Ok(Reply::Done)],
    );
    assert_eq!(
        asked,
        shown(vec![
            Request::ListEips { scope: ApiScope::All },
            detach(eip("a", "egress", Some("node-1"))),
            detach(eip("b", "egress", Some("node-1"))),
        ])
    );
    assert!(matches!(outcome, Some(Ok(None))));
    let (asked, outcome) = drive(
        NodeApply::start(&node(Some("False")), &None),
        vec![eips(), Err(kube_error("Conflict"))],
    );
    assert_eq!(asked.len(), 2);
    assert!(matches!(outcome, Some(Err(Error::Kube { .. }))));
}

#[test]
fn a_node_without_a_claim_has_none_to_give_up() {
    for status in ["True", "False"] {
        let (asked, outcome) = drive(
            NodeApply::start(&node(Some(status)), &None),
            vec![Ok(Reply::Eips(vec![eip("y", "egress", Some("node-2"))]))],
        );
        assert_eq!(asked.len(), 1);
        assert!(matches!(outcome, Some(Ok(None))));
    }
    let (asked, outcome) = drive(
        NodeApply::start(&node(Some("False")), &None),
        vec![Ok(Reply::Eips(vec![eip("free", "egress", None)]))],
    );
    assert_eq!(asked.len(), 1);
    assert!(matches!(outcome, Some(Ok(None))));
}

#[test]
fn what_a_node_lacks_is_an_error() {
    let error = |n: &Node, answers| match drive(NodeApply::start(n, &None), answers).1 {
        Some(Err(e)) => e,
        _ => panic!("no error"),
    };
    let eips = || Ok(Reply::Eips(vec![eip("e", "egress", None)]));
    let mut n = node(Some("True"));
    n.spec = None;
    assert!(matches!(error(&n, Vec::new()), Error::MissingProviderId));
    n.spec = Some(NodeSpec { provider_id: Some(s("i-1")) });
    assert!(matches!(error(&n, Vec::new()), Error::MalformedProviderId));
    n.status = None;
    assert!(matches!(error(&n, Vec::new()), Error::MissingNodeIp));
    let n = node(Some("True"));
    assert!(matches!(
        error(&n, vec![Ok(Reply::Eips(vec![eip("x", "batch", None)]))]),
        Error::NoEipResourceWithThatNodeSelector
    ));
    assert!(matches!(error(&node(None), vec![eips()]), Error::MissingNodeReadyCondition));
    let mut bare = eip("e", "egress", None);
    if let Some(status) = &mut bare.status {
        status.allocation_id = None;
    }
    assert!(matches!(
        error(&n, vec![Ok(Reply::Eips(vec![bare]))]),
        Error::MissingAllocationId
    ));
    assert!(matches!(
        error(&n, vec![eips(), Ok(Reply::Addresses(None))]),
        Error::MissingAddresses
    ));
    assert!(matches!(
        error(
            &n,
            vec![
                eips(),
                Ok(Reply::Addresses(Some(vec![address(None, None)]))),
                Ok(Reply::Instances(instances("10.0.0.9"))),
            ]
        ),
        Error::NoInterfaceWithThatIp
    ));
    assert!(matches!(
        error(
            &n,
            vec![
                eips(),
                Ok(Reply::Addresses(Some(vec![address(None, None)]))),
                Ok(Reply::Instances(instances("10.0.0.1"))),
                Ok(Reply::Done),
                Ok(Reply::Associated(None)),
            ]
        ),
        Error::MissingAssociationId
    ));
}

#[test]
fn the_eips_of_the_namespace_are_looked_at() {
    let (asked, _) = drive(NodeCleanup::start(&node(None), &Some(s("apps"))), Vec::new());
    assert_eq!(
        asked,
        shown(vec![Request::ListEips { scope: ApiScope::Namespaced(s("apps")) }])
    );
    let (asked, _) = drive(NodeApply::start(&node(Some("True")), &Some(s("apps"))), Vec::new());
    assert_eq!(
        asked,
        shown(vec![Request::ListEips { scope: ApiScope::Namespaced(s("apps")) }])
    );
}

#[test]
fn an_eip_without_a_status_or_a_name_is_not_taken() {
    let mut bare = eip("e", "egress", None);
    bare.status = None;
    let (_, outcome) = drive(
        NodeApply::start(&node(Some("True")), &None),
        vec![Ok(Reply::Eips(vec![bare]))],
    );
    assert!(matches!(outcome, Some(Ok(None))));
    let mut nameless = eip("e", "egress", None);
    nameless.name = None;
    match NodeApply::start(&node(Some("True")), &None) {
        Progress::Pending(operation) => {
            assert!(!operation.accepts(&Ok(Reply::Eips(vec![nameless]))));
        }
        Progress::Finished(_) => panic!("finished at once"),
    }
}

#[test]
fn every_claim_of_a_node_is_detached_and_the_node_closed() {
    let (asked, outcome) = drive(
        NodeCleanup::start(&node(None), &None),
        vec![
            Ok(Reply::Eips(vec![
                eip("x", "batch", Some("node-1")),
                eip("y", "egress", Some("node-2")),
                eip("e", "egress", Some("node-1")),
            ])),
            Ok(Reply::Addresses(Some(vec![address(None, None)]))),
            Ok(Reply::Disassociated(Ok(()))),
            Ok(Reply::Done),
            Ok(Reply::Done),
        ],
    );
    assert_eq!(
        asked,
        shown(vec![
            Request::ListEips { scope: ApiScope::All },
            Request::DescribeAddress { allocation_id: s("alloc-e") },
            Request::DisassociateAddress { association_id: s("as-1") },
            Request::SetStatusDetached {
                scope: scope(),
                eip: eip("e", "egress", Some("node-1")),
            },
            Request::ApplyToNode { name: s("node-1"), patch: add_gateway_status_label("false") },
        ])
    );
    assert!(matches!(outcome, Some(Ok(None))));
    assert_eq!(add_gateway_status_label("false").labels[0].1, Some(s("false")));
}

#[test]
fn an_eip_is_found_and_updated_in_whatever_namespace_it_is() {
    let in_team = |resource_id| {
        let mut e = eip("e", "egress", resource_id);
        e.namespace = Some(s("team-a"));
        e
    };
    let team = || ApiScope::Namespaced(s("team-a"));
    let (asked, outcome) = drive(
        NodeApply::start(&node(Some("True")), &None),
        vec![
            Ok(Reply::Eips(vec![in_team(None)])),
            Ok(Reply::Addresses(Some(vec![address(None, None)]))),
            Ok(Reply::Instances(instances("10.0.0.1"))),
            Ok(Reply::Done),
            Ok(Reply::Associated(Some(s("as-2")))),
            Ok(Reply::Done),
        ],
    );
    assert_eq!(asked[0], format!("{:?}", Request::ListEips { scope: ApiScope::All }));
    assert_eq!(
        asked[3],
        format!("{:?}", Request::SetStatusShouldAttach {
            scope: team(),
            eip: in_team(None),
            eni_id: s("eni-1"),
            private_ip: s("10.0.0.1"),
            resource_id: s("node-1"),
        })
    );
    assert_eq!(
        asked[5],
        format!("{:?}", Request::SetStatusAssociationId {
            scope: team(),
            name: s("e"),
            association_id: s("as-2"),
        })
    );
    assert!(matches!(outcome, Some(Ok(None))));

    let released = |start| {
        let (asked, _) = drive(start, vec![Ok(Reply::Eips(vec![in_team(Some("node-1"))]))]);
        asked[1].clone()
    };
    let detached = format!("{:?}", Request::SetStatusDetached {
        scope: team(),
        eip: in_team(Some("node-1")),
    });
    assert_eq!(released(NodeApply::start(&node(Some("False")), &None)), detached);
    let (asked, _) = drive(
        NodeCleanup::start(&node(None), &None),
        vec![
            Ok(Reply::Eips(vec![in_team(Some("node-1"))])),
            Ok(Reply::Addresses(Some(Vec::new()))),
        ],
    );
    assert_eq!(asked[2], detached);
}

use eip_operator::aws::{
    Address, Instance, InstancesDescription, NetworkInterface, PrivateIpAddress, Reservation,
};
use eip_operator::controller::pod::{PodApply, PodCleanup};
use eip_operator::eip::{Eip, EipSelector, EipStatus};
use eip_operator::error::{Error, KubeError, ServiceError};
use eip_operator::kube_ext::{Node, NodeSpec, Pod, PodSpec, PodStatus};
use eip_operator::labels::add_dns_target_annotation;
use eip_operator::operation::{Action, ApiScope, Operation, Progress, Reply, Request};
use eip_operator::string_map::StringMap;

fn s(text: &str) -> String {
    text.to_owned()
}

fn scope() -> ApiScope {
    ApiScope::Namespaced(s("apps"))
}

fn pod() -> Pod {
    Pod {
        name: Some(s("web-0")),
        namespace: Some(s("apps")),
        uid: Some(s("pod-uid")),
        labels: None,
        annotations: None,
        finalizers: Vec::new(),
        spec: Some(PodSpec { node_name: Some(s("node-1")) }),
        status: Some(PodStatus { pod_ip: Some(s("10.0.0.7")) }),
    }
}

fn autocreating() -> Pod {
    let mut p = pod();
    p.labels = Some(StringMap::from_pairs(vec![(
        s("eip.materialize.cloud/autocreate_eip"),
        s("True"),
    )]));
    p
}

fn node(provider_id: Option<&str>) -> Node {
    Node {
        name: Some(s("node-1")),
        uid: None,
        labels: None,
        spec: Some(NodeSpec { provider_id: provider_id.map(s) }),
        status: None,
    }
}

fn instances(eni: &str, ip: &str) -> InstancesDescription {
    InstancesDescription {
        reservations: Some(vec![Reservation {
            instances: Some(vec![Instance {
                network_interfaces: Some(vec![NetworkInterface {
                    network_interface_id: Some(s(eni)),
                    private_ip_addresses: Some(vec![PrivateIpAddress {
                        private_ip_address: Some(s(ip)),
                    }]),
                }]),
            }]),
        }]),
    }
}

fn eip(name: &str, pod_name: &str, resource_id: Option<&str>) -> Eip {
    Eip {
        name: Some(s(name)),
        namespace: Some(s("apps")),
        uid: Some(s("uid")),
        resource_version: Some(s("7")),
        selector: EipSelector::Pod { pod_name: s(pod_name) },
        status: Some(EipStatus {
            allocation_id: Some(format!("alloc-{name}")),
            public_ip_address: Some(s("3.3.3.3")),
            association_id: None,
            resource_id: resource_id.map(s),
        }),
    }
}

fn address(public_ip: Option<&str>, eni: Option<&str>, ip: Option<&str>) -> Address {
    Address {
        allocation_id: Some(s("alloc-e")),
        association_id: None,
        public_ip: public_ip.map(s),
        network_interface_id: eni.map(s),
        private_ip_address: ip.map(s),
        tags: None,
    }
}

fn drive<M: Operation>(
    start: Progress<M, M::Outcome>,
    answers: Vec<Result<Reply, Error>>,
) -> (Vec<String>, Option<Result<M::Outcome, Error>>) {
    let mut asked = Vec::new();
    let mut answers = answers.into_iter();
    let mut progress = start;
    loop {
        match progress {
            Progress::Finished(outcome) => {
                assert!(answers.next().is_none());
                return (asked, Some(outcome));
            }
            Progress::Pending(operation) => {
                asked.push(format!("{:?}", operation.request()));
                match answers.next() {
                    None => return (asked, None),
                    Some(answer) => {
                        assert!(operation.accepts(&answer));
                        progress = operation.resume(answer);
                    }
                }
            }
        }
    }
}

fn shown(requests: Vec<Request>) -> Vec<String> {
    requests.iter().map(|r| format!("{r:?}")).collect()
}

fn nothing(outcome: Option<Result<Option<Action>, Error>>) -> bool {
    matches!(outcome, Some(Ok(None)))
}

fn claim() -> Request {
    Request::SetStatusShouldAttach {
        scope: scope(),
        eip: eip("e", "web-0", None),
        eni_id: s("eni-1"),
        private_ip: s("10.0.0.7"),
        resource_id: s("web-0"),
    }
}

fn publish() -> Request {
    Request::ApplyToPod {
        namespace: s("apps"),
        name: s("web-0"),
        patch: add_dns_target_annotation("3.3.3.3", "alloc-e"),
    }
}

#[test]
fn a_pod_gets_the_address_of_its_eip() {
    let (asked, outcome) = drive(
        PodApply::start(&autocreating()),
        vec![
            Ok(Reply::Done),
            Ok(Reply::Node(node(Some("aws:///us-east-1a/i-9")))),
            Ok(Reply::Instances(instances("eni-1", "10.0.0.7"))),
            Ok(Reply::Eips(vec![eip("other", "web-1", None), eip("e", "web-0", None)])),
            Ok(Reply::Addresses(Some(vec![address(Some("3.3.3.3"), None, None)]))),
            Ok(Reply::Done),
            Ok(Reply::Associated(Some(s("assoc-1")))),
            Ok(Reply::Done),
            Ok(Reply::Done),
        ],
    );
    assert_eq!(
        asked,
        shown(vec![
            Request::CreateEipForPod { namespace: s("apps"), pod_name: s("web-0") },
            Request::GetNode { name: s("node-1") },
            Request::DescribeInstance { instance_id: s("i-9") },
            Request::ListEips { scope: scope() },
            Request::DescribeAddress { allocation_id: s("alloc-e") },
            claim(),
            Request::AssociateAddress {
                allocation_id: s("alloc-e"),
                eni_id: s("eni-1"),
                private_ip: s("10.0.0.7"),
            },
            Request::SetStatusAssociationId {
                scope: scope(),
                name: s("e"),
                association_id: s("assoc-1"),
            },
            publish(),
        ])
    );
    assert!(nothing(outcome));
}

#[test]
fn an_attached_address_is_not_associated_again() {
    let (asked, outcome) = drive(
        PodApply::start(&pod()),
        vec![
            Ok(Reply::Node(node(Some("aws:///us-east-1a/i-9")))),
            Ok(Reply::Instances(instances("eni-1", "10.0.0.7"))),
            Ok(Reply::Eips(vec![eip("e", "web-0", None)])),
            Ok(Reply::Addresses(Some(vec![address(
                Some("3.3.3.3"),
                Some("eni-1"),
                Some("10.0.0.7"),
            )]))),
            Ok(Reply::Done),
            Ok(Reply::Done),
        ],
    );
    assert_eq!(asked.len(), 6);
    assert_eq!(asked[4], format!("{:?}", claim()));
    assert_eq!(asked[5], format!("{:?}", publish()));
    assert!(nothing(outcome));
}

#[test]
fn the_interface_that_the_pod_describes_is_used() {
    let mut p = pod();
    p.annotations = Some(StringMap::from_pairs(vec![(
        s("vpc.amazonaws.com/pod-eni"),
        s("[{\"eniId\":\"eni-7\"}]"),
    )]));
    let (asked, _) = drive(
        PodApply::start(&p),
        vec![
            Ok(Reply::Node(node(Some("a/i-9")))),
            Ok(Reply::EniIds(Some(vec![s("eni-7"), s("eni-8")]))),
            Ok(Reply::Eips(vec![eip("e", "web-0", None)])),
            Ok(Reply::Addresses(Some(vec![address(Some("3.3.3.3"), None, None)]))),
            Ok(Reply::Done),
        ],
    );
    assert_eq!(
        asked[1],
        format!("{:?}", Request::ReadEniDescriptions { annotation: s("[{\"eniId\":\"eni-7\"}]") })
    );
    assert_eq!(
        asked[5],
        format!(
            "{:?}",
            Request::AssociateAddress {
                allocation_id: s("alloc-e"),
                eni_id: s("eni-7"),
                private_ip: s("10.0.0.7"),
            }
        )
    );
}

#[test]
fn a_description_that_cannot_be_read_is_passed_over() {
    for ids in [None, Some(Vec::new())] {
        let mut p = pod();
        p.annotations =
            Some(StringMap::from_pairs(vec![(s("vpc.amazonaws.com/pod-eni"), s("?"))]));
        let (asked, _) = drive(
            PodApply::start(&p),
            vec![Ok(Reply::Node(node(Some("a/i-9")))), Ok(Reply::EniIds(ids))],
        );
        assert_eq!(
            asked[2],
            format!("{:?}", Request::DescribeInstance { instance_id: s("i-9") })
        );
    }
}

#[test]
fn a_pod_without_a_node_is_tried_again_in_three_seconds() {
    let mut p = pod();
    p.spec = None;
    let (asked, outcome) = drive(PodApply::start(&p), Vec::new());
    assert!(asked.is_empty());
    match outcome {
        Some(Ok(Some(action))) => assert_eq!(action.requeue_after_millis, Some(3000)),
        _ => panic!("the pod is not tried again"),
    }
}

#[test]
fn a_pod_without_an_eip_is_left_alone() {
    let (_, outcome) = drive(
        PodApply::start(&pod()),
        vec![
            Ok(Reply::Node(node(Some("a/i-9")))),
            Ok(Reply::Instances(instances("eni-1", "10.0.0.7"))),
            Ok(Reply::Eips(vec![eip("other", "web-1", None)])),
        ],
    );
    assert!(nothing(outcome));
}

#[test]
fn what_a_pod_lacks_is_an_error() {
    let error = |p: &Pod, answers| match drive(PodApply::start(p), answers).1 {
        Some(Err(e)) => e,
        _ => panic!("no error"),
    };
    let found = |last| {
        vec![
            Ok(Reply::Node(node(Some("a/i-9")))),
            Ok(Reply::Instances(instances("eni-1", "10.0.0.7"))),
            Ok(last),
        ]
    };
    let mut p = pod();
    p.status = None;
    assert!(matches!(error(&p, Vec::new()), Error::MissingPodIp));
    let p = pod();
    assert!(matches!(
        error(&p, vec![Ok(Reply::Node(node(None)))]),
        Error::MissingProviderId
    ));
    assert!(matches!(
        error(&p, vec![Ok(Reply::Node(node(Some("i-9"))))]),
        Error::MalformedProviderId
    ));
    assert!(matches!(
        error(
            &p,
            vec![
                Ok(Reply::Node(node(Some("a/i-9")))),
                Ok(Reply::Instances(instances("eni-1", "10.0.0.8"))),
            ]
        ),
        Error::NoInterfaceWithThatIp
    ));
    assert!(matches!(
        error(&p, found(Reply::Eips(vec![eip("a", "web-0", None), eip("b", "web-0", None)]))),
        Error::MultipleEipsTaggedForPod
    ));
    let mut bare = eip("a", "web-0", None);
    bare.status = None;
    assert!(matches!(
        error(&p, found(Reply::Eips(vec![bare]))),
        Error::MissingAllocationId
    ));
    let mut answers = found(Reply::Eips(vec![eip("e", "web-0", None)]));
    answers.push(Ok(Reply::Addresses(None)));
    assert!(matches!(error(&p, answers), Error::MissingAddresses));
    let mut answers = found(Reply::Eips(vec![eip("e", "web-0", None)]));
    answers.push(Ok(Reply::Addresses(Some(vec![address(None, None, None)]))));
    assert!(matches!(error(&p, answers), Error::MissingPublicIp));
    let mut answers = found(Reply::Eips(vec![eip("e", "web-0", None)]));
    answers.push(Ok(Reply::Addresses(Some(vec![address(Some("3.3.3.3"), None, None)]))));
    answers.push(Ok(Reply::Done));
    answers.push(Ok(Reply::Associated(None)));
    assert!(matches!(error(&p, answers), Error::MissingAssociationId));
}

#[test]
fn a_failed_request_ends_the_attempt() {
    let failure = Error::Kube {
        source: KubeError { reason: Some(s("Forbidden")), message: s("no") },
    };
    let (asked, outcome) = drive(PodApply::start(&autocreating()), vec![Err(failure)]);
    assert_eq!(asked.len(), 1);
    match outcome {
        Some(Err(Error::Kube { source })) => assert_eq!(source.reason, Some(s("Forbidden"))),
        _ => panic!("another outcome"),
    }
}

#[test]
fn answers_that_cannot_be_gone_on_from_are_recognised() {
    match PodApply::start(&pod()) {
        Progress::Pending(operation) => {
            assert!(!operation.accepts(&Ok(Reply::Done)));
            assert!(operation.accepts(&Ok(Reply::Node(node(None)))));
            assert!(operation.accepts(&Err(Error::MissingPodIp)));
        }
        Progress::Finished(_) => panic!("finished at once"),
    }
}

fn detach(name: &str) -> Request {
    Request::SetStatusDetached { scope: scope(), eip: eip(name, "web-0", Some("web-0")) }
}

fn attached(association_id: Option<&str>) -> Address {
    let mut a = address(None, None, None);
    a.association_id = association_id.map(s);
    a
}

#[test]
fn every_claim_of_a_pod_is_detached_and_its_own_eip_deleted() {
    let gone = ServiceError { code: Some(s("InvalidAssociationID.NotFound")), message: s("gone") };
    let (asked, outcome) = drive(
        PodCleanup::start(&autocreating()),
        vec![
            Ok(Reply::Eips(vec![
                eip("a", "web-0", Some("web-0")),
                eip("b", "web-0", None),
                eip("c", "web-0", Some("web-1")),
                eip("d", "web-0", Some("web-0")),
            ])),
            Ok(Reply::Addresses(Some(vec![
                attached(Some("as-1")),
                attached(None),
                attached(Some("as-2")),
            ]))),
            Ok(Reply::Disassociated(Ok(()))),
            Ok(Reply::Disassociated(Err(gone))),
            Ok(Reply::Done),
            Ok(Reply::Addresses(Some(Vec::new()))),
            Ok(Reply::Done),
            Ok(Reply::Done),
        ],
    );
    assert_eq!(
        asked,
        shown(vec![
            Request::ListEips { scope: scope() },
            Request::DescribeAddress { allocation_id: s("alloc-a") },
            Request::DisassociateAddress { association_id: s("as-1") },
            Request::DisassociateAddress { association_id: s("as-2") },
            detach("a"),
            Request::DescribeAddress { allocation_id: s("alloc-d") },
            detach("d"),
            Request::DeleteEip { namespace: s("apps"), name: s("web-0") },
        ])
    );
    assert!(nothing(outcome));
}

#[test]
fn a_pod_that_claims_nothing_is_cleaned_up_at_once() {
    let (asked, outcome) = drive(
        PodCleanup::start(&pod()),
        vec![Ok(Reply::Eips(vec![eip("b", "web-0", None)]))],
    );
    assert_eq!(asked.len(), 1);
    assert!(nothing(outcome));
}

#[test]
fn detaching_fails_as_ec2_refuses() {
    let refusal = ServiceError { code: Some(s("AuthFailure")), message: s("no") };
    let (_, outcome) = drive(
        PodCleanup::start(&pod()),
        vec![
            Ok(Reply::Eips(vec![eip("a", "web-0", Some("web-0"))])),
            Ok(Reply::Addresses(Some(vec![attached(Some("as-1"))]))),
            Ok(Reply::Disassociated(Err(refusal))),
        ],
    );
    assert!(matches!(outcome, Some(Err(Error::AwsDisassociateAddress { .. }))));
    let (_, outcome) = drive(
        PodCleanup::start(&pod()),
        vec![
            Ok(Reply::Eips(vec![eip("a", "web-0", Some("web-0"))])),
            Ok(Reply::Addresses(None)),
        ],
    );
    assert!(matches!(outcome, Some(Err(Error::MissingAddresses))));
    let mut bare = eip("a", "web-0", Some("web-0"));
    if let Some(status) = &mut bare.status {
        status.allocation_id = None;
    }
    let (_, outcome) = drive(PodCleanup::start(&pod()), vec![Ok(Reply::Eips(vec![bare]))]);
    assert!(matches!(outcome, Some(Err(Error::MissingAllocationId))));
}

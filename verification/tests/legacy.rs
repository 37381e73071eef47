use eip_operator::aws::{
    new_tag, tag_filter, Address, Instance, InstancesDescription, NetworkInterface,
    PrivateIpAddress, Reservation,
};
use eip_operator::controller::Event;
use eip_operator::error::{Error, ServiceError};
use eip_operator::kube_ext::{Node, NodeSpec, Pod, PodSpec, PodStatus};
use eip_operator::legacy::{
    find_eni_or_error, legacy_add_dns_target_annotation, legacy_allocate_address_tags, ContextData,
    HeldAddress, LegacyApply, LegacyCleanup, LegacyOrphanCleanup,
};
use eip_operator::operation::{
    Action, AllocatedAddress, ApiScope, Operation, Progress, Reply, Request,
};
use eip_operator::string_map::StringMap;

fn s(text: &str) -> String {
    text.to_owned()
}

fn pod() -> Pod {
    Pod {
        name: Some(s("web-0")),
        namespace: Some(s("apps")),
        uid: Some(s("uid-1")),
        labels: None,
        annotations: None,
        finalizers: Vec::new(),
        spec: Some(PodSpec { node_name: Some(s("node-1")) }),
        status: Some(PodStatus { pod_ip: Some(s("10.0.0.7")) }),
    }
}

fn node(provider_id: Option<&str>) -> Node {
    Node {
        name: Some(s("node-1")),
        uid: None,
        labels: None,
        spec: Some(NodeSpec { provider_id: provider_id.map(s) }),
        status: None,
    }
}

fn address(eni: Option<&str>, ip: Option<&str>) -> Address {
    Address {
        allocation_id: Some(s("alloc-1")),
        association_id: None,
        public_ip: Some(s("3.3.3.3")),
        network_interface_id: eni.map(s),
        private_ip_address: ip.map(s),
        tags: None,
    }
}

fn instances(ip: &str) -> InstancesDescription {
    InstancesDescription {
        reservations: Some(vec![Reservation {
            instances: Some(vec![Instance {
                network_interfaces: Some(vec![NetworkInterface {
                    network_interface_id: Some(s("eni-1")),
                    private_ip_addresses: Some(vec![PrivateIpAddress {
                        private_ip_address: Some(s(ip)),
                    }]),
                }]),
            }]),
        }]),
    }
}

fn drive<M: Operation>(
    start: Progress<M, M::Outcome>,
    answers: Vec<Result<Reply, Error>>,
) -> (Vec<String>, Option<Result<M::Outcome, Error>>) {
    let mut asked = Vec::new();
    let mut answers = answers.into_iter();
    let mut progress = start;
    loop {
        match progress {
            Progress::Finished(outcome) => {
                assert!(answers.next().is_none());
                return (asked, Some(outcome));
            }
            Progress::Pending(operation) => {
                asked.push(format!("{:?}", operation.request()));
                match answers.next() {
                    None => return (asked, None),
                    Some(answer) => {
                        assert!(operation.accepts(&answer));
                        progress = operation.resume(answer);
                    }
                }
            }
        }
    }
}

fn shown(requests: Vec<Request>) -> Vec<String> {
    requests.iter().map(|r| format!("{r:?}")).collect()
}

fn start(p: &Pod) -> Progress<LegacyApply, Action> {
    LegacyApply::start(p, "apps", "prod", vec![(s("team"), s("infra"))])
}

fn publish() -> Request {
    Request::ApplyToPod {
        namespace: s("apps"),
        name: s("web-0"),
        patch: legacy_add_dns_target_annotation(&HeldAddress {
            allocation_id: s("alloc-1"),
            public_ip: s("3.3.3.3"),
        }),
    }
}

#[test]
fn a_pod_gets_an_address_of_its_own() {
    let (asked, outcome) = drive(
        start(&pod()),
        vec![
            Ok(Reply::Addresses(Some(Vec::new()))),
            Ok(Reply::Allocated(AllocatedAddress {
                allocation_id: Some(s("alloc-1")),
                public_ip: Some(s("3.3.3.3")),
            })),
            Ok(Reply::Node(node(Some("aws:///z/i-1")))),
            Ok(Reply::Instances(instances("10.0.0.7"))),
            Ok(Reply::Addresses(Some(vec![address(None, None)]))),
            Ok(Reply::Associated(None)),
            Ok(Reply::Done),
        ],
    );
    assert_eq!(
        asked,
        shown(vec![
            Request::DescribeAddresses {
                filters: vec![tag_filter("eip.aws.materialize.com/pod_uid", "uid-1")],
            },
            Request::AllocateAddress {
                tags: vec![
                    new_tag("team", "infra"),
                    new_tag("eip.aws.materialize.com/pod_uid", "uid-1"),
                    new_tag("eip.aws.materialize.com/cluster_name", "prod"),
                    new_tag("eip.aws.materialize.com/pod_name", "web-0"),
                    new_tag("Name", "eip-operator:prod:web-0"),
                ],
            },
            Request::GetNode { name: s("node-1") },
            Request::DescribeInstance { instance_id: s("i-1") },
            Request::DescribeAddress { allocation_id: s("alloc-1") },
            Request::AssociateAddress {
                allocation_id: s("alloc-1"),
                eni_id: s("eni-1"),
                private_ip: s("10.0.0.7"),
            },
            publish(),
        ])
    );
    match outcome {
        Some(Ok(action)) => assert_eq!(action.requeue_after_millis, Some(300000)),
        _ => panic!("another outcome"),
    }
    assert_eq!(
        legacy_allocate_address_tags("u", "p", "c", &Vec::new()).len(),
        4
    );
}

#[test]
fn the_annotations_of_a_pod_name_its_address() {
    let patch = legacy_add_dns_target_annotation(&HeldAddress {
        allocation_id: s("alloc-1"),
        public_ip: s("3.3.3.3"),
    });
    assert_eq!(patch.field_manager, "eip.aws.materialize.com");
    assert_eq!(patch.kind, "Pod");
    assert_eq!(
        patch.annotations,
        vec![
            (s("eip.aws.materialize.com/allocation_id"), s("alloc-1")),
            (s("external-dns.alpha.kubernetes.io/target"), s("3.3.3.3")),
        ]
    );
    assert!(patch.labels.is_empty());
}

#[test]
fn an_attached_pod_is_only_annotated() {
    let (asked, _) = drive(
        start(&pod()),
        vec![
            Ok(Reply::Addresses(Some(vec![address(None, None)]))),
            Ok(Reply::Node(node(Some("aws:///z/i-1")))),
            Ok(Reply::Instances(instances("10.0.0.7"))),
            Ok(Reply::Addresses(Some(vec![address(Some("eni-1"), Some("10.0.0.7"))]))),
        ],
    );
    assert_eq!(asked.len(), 5);
    assert_eq!(asked[4], format!("{:?}", publish()));
}

#[test]
fn what_the_pod_lacks_is_an_error() {
    let error = |p: &Pod, answers| match drive(start(p), answers).1 {
        Some(Err(e)) => e,
        _ => panic!("no error"),
    };
    let held = || Ok(Reply::Addresses(Some(vec![address(None, None)])));
    let p = pod();
    let mut unknown = pod();
    unknown.uid = None;
    assert!(matches!(error(&unknown, Vec::new()), Error::MissingPodUid));
    assert!(matches!(error(&p, vec![Ok(Reply::Addresses(None))]), Error::MissingAddresses));
    assert!(matches!(
        error(
            &p,
            vec![Ok(Reply::Addresses(Some(vec![address(None, None), address(None, None)])))]
        ),
        Error::MultipleEipsTaggedForPod
    ));
    let mut nameless = pod();
    nameless.name = None;
    assert!(matches!(
        error(&nameless, vec![Ok(Reply::Addresses(Some(Vec::new())))]),
        Error::MissingPodName
    ));
    assert!(matches!(
        error(
            &nameless,
            vec![
                held(),
                Ok(Reply::Node(node(Some("z/i-1")))),
                Ok(Reply::Instances(instances("10.0.0.7"))),
                Ok(Reply::Addresses(Some(vec![address(None, None)]))),
                Ok(Reply::Associated(Some(s("as-1")))),
            ]
        ),
        Error::MissingPodName
    ));
    let mut a = address(None, None);
    a.allocation_id = None;
    assert!(matches!(
        error(&p, vec![Ok(Reply::Addresses(Some(vec![a])))]),
        Error::MissingAllocationId
    ));
    let mut a = address(None, None);
    a.public_ip = None;
    assert!(matches!(
        error(&p, vec![Ok(Reply::Addresses(Some(vec![a])))]),
        Error::MissingPublicIp
    ));
    let mut homeless = pod();
    homeless.spec = None;
    assert!(matches!(error(&homeless, vec![held()]), Error::MissingNodeName));
    homeless.status = None;
    assert!(matches!(error(&homeless, vec![held()]), Error::MissingPodIp));
    assert!(matches!(
        error(&p, vec![held(), Ok(Reply::Node(node(None)))]),
        Error::MissingProviderId
    ));
    assert!(matches!(
        error(&p, vec![held(), Ok(Reply::Node(node(Some("i-1"))))]),
        Error::MalformedProviderId
    ));
    assert!(matches!(
        error(
            &p,
            vec![
                held(),
                Ok(Reply::Node(node(Some("z/i-1")))),
                Ok(Reply::Instances(instances("10.0.0.7"))),
                Ok(Reply::Addresses(None)),
            ]
        ),
        Error::MissingAddresses
    ));
}

#[test]
fn what_the_instance_lacks_is_an_error() {
    let d = |reservations| InstancesDescription { reservations };
    assert!(matches!(
        find_eni_or_error(&d(None), "10.0.0.7"),
        Err(Error::MissingReservations)
    ));
    assert!(matches!(
        find_eni_or_error(&d(Some(vec![Reservation { instances: None }])), "10.0.0.7"),
        Err(Error::MissingInstances)
    ));
    assert!(matches!(
        find_eni_or_error(
            &d(Some(vec![Reservation {
                instances: Some(vec![Instance { network_interfaces: None }]),
            }])),
            "10.0.0.7"
        ),
        Err(Error::MissingNetworkInterfaces)
    ));
    assert!(matches!(
        find_eni_or_error(&instances("10.0.0.8"), "10.0.0.7"),
        Err(Error::NoInterfaceWithThatIp)
    ));
    assert_eq!(find_eni_or_error(&instances("10.0.0.7"), "10.0.0.7").unwrap(), "eni-1");
}

#[test]
fn the_address_of_a_pod_that_goes_away_is_given_back() {
    let mut a = address(None, None);
    a.association_id = Some(s("as-1"));
    let (asked, outcome) = drive(
        LegacyCleanup::cleanup_pod_eip(&pod()),
        vec![
            Ok(Reply::Addresses(Some(vec![a]))),
            Ok(Reply::Disassociated(Ok(()))),
            Ok(Reply::Done),
        ],
    );
    assert_eq!(
        asked,
        shown(vec![
            Request::DescribeAddresses {
                filters: vec![tag_filter("eip.aws.materialize.com/pod_uid", "uid-1")],
            },
            Request::DisassociateAddress { association_id: s("as-1") },
            Request::ReleaseAddress { allocation_id: s("alloc-1") },
        ])
    );
    match outcome {
        Some(Ok(action)) => assert_eq!(action.requeue_after_millis, None),
        _ => panic!("another outcome"),
    }
    let mut a = address(None, None);
    a.association_id = Some(s("as-1"));
    let gone = ServiceError { code: Some(s("InvalidAssociationID.NotFound")), message: s("gone") };
    let (_, outcome) = drive(
        LegacyCleanup::cleanup_pod_eip(&pod()),
        vec![Ok(Reply::Addresses(Some(vec![a]))), Ok(Reply::Disassociated(Err(gone)))],
    );
    assert!(matches!(outcome, Some(Err(Error::AwsDisassociateAddress { .. }))));
    let (_, outcome) =
        drive(LegacyCleanup::cleanup_pod_eip(&pod()), vec![Ok(Reply::Addresses(None))]);
    assert!(matches!(outcome, Some(Err(Error::MissingAddresses))));
    let mut unknown = pod();
    unknown.uid = None;
    let (_, outcome) = drive(LegacyCleanup::cleanup_pod_eip(&unknown), Vec::new());
    assert!(matches!(outcome, Some(Err(Error::MissingPodUid))));
}

#[test]
fn addresses_without_a_living_pod_are_given_back() {
    let tagged = |id: &str, uid: &str| {
        let mut a = address(None, None);
        a.allocation_id = Some(s(id));
        a.tags = Some(vec![new_tag("eip.aws.materialize.com/pod_uid", uid)]);
        a
    };
    let (asked, outcome) = drive(
        LegacyOrphanCleanup::cleanup_orphan_eips("prod"),
        vec![
            Ok(Reply::Addresses(Some(vec![
                tagged("live", "uid-1"),
                tagged("dead", "uid-2"),
                address(None, None),
            ]))),
            Ok(Reply::Pods(vec![pod()])),
            Ok(Reply::Done),
            Ok(Reply::Done),
        ],
    );
    assert_eq!(
        asked,
        shown(vec![
            Request::DescribeAddresses {
                filters: vec![tag_filter("eip.aws.materialize.com/cluster_name", "prod")],
            },
            Request::ListPods {
                scope: ApiScope::All,
                label_selector: s("eip.aws.materialize.com/manage"),
            },
            Request::ReleaseAddress { allocation_id: s("dead") },
            Request::ReleaseAddress { allocation_id: s("alloc-1") },
        ])
    );
    assert!(matches!(outcome, Some(Ok(()))));
    let (_, outcome) = drive(
        LegacyOrphanCleanup::cleanup_orphan_eips("prod"),
        vec![Ok(Reply::Addresses(None))],
    );
    assert!(matches!(outcome, Some(Err(Error::MissingAddresses))));
}

#[test]
fn pods_are_reconciled_by_what_happens_to_them() {
    let data = ContextData::new(
        s("apps"),
        s("prod"),
        StringMap::from_pairs(vec![(s("team"), s("infra"))]),
    );
    let (asked, _) = drive(
        data.reconcile(&Event::Apply(pod())),
        vec![Ok(Reply::Addresses(Some(Vec::new())))],
    );
    assert!(asked[1].starts_with("AllocateAddress"));
    let (_, outcome) = drive(
        data.reconcile(&Event::Cleanup(pod())),
        vec![Ok(Reply::Addresses(Some(Vec::new())))],
    );
    match outcome {
        Some(Ok(action)) => assert_eq!(action.requeue_after_millis, None),
        _ => panic!("another outcome"),
    }
    assert_eq!(data.on_error().requeue_after_millis, Some(5000));
}

use eip_operator::aws::{allocate_address_tags, tag_filter, Address};
use eip_operator::controller::eip::{filters_for_uid, EipApply, EipCleanup};
use eip_operator::eip::{
    eips_claimed_by, eips_for_node, eips_for_pod, first_claimable_eip, Eip, EipSelector, EipStatus,
};
use eip_operator::error::{Error, KubeError, ServiceError};
use eip_operator::operation::{
    AllocatedAddress, ApiScope, MatchedResource, Operation, Progress, Reply, Request,
};
use eip_operator::string_map::StringMap;

fn s(text: &str) -> String {
    text.to_owned()
}

fn selector() -> EipSelector {
    EipSelector::Pod { pod_name: s("web-0") }
}

fn eip(resource_id: Option<&str>, association_id: Option<&str>) -> Eip {
    Eip {
        name: Some(s("e")),
        namespace: Some(s("apps")),
        uid: Some(s("uid-1")),
        resource_version: None,
        selector: selector(),
        status: Some(EipStatus {
            allocation_id: Some(s("alloc-1")),
            public_ip_address: Some(s("3.3.3.3")),
            association_id: association_id.map(s),
            resource_id: resource_id.map(s),
        }),
    }
}

fn address(allocation_id: Option<&str>, public_ip: Option<&str>) -> Address {
    Address {
        allocation_id: allocation_id.map(s),
        association_id: None,
        public_ip: public_ip.map(s),
        network_interface_id: None,
        private_ip_address: None,
        tags: None,
    }
}

fn resource(name: &str) -> MatchedResource {
    MatchedResource { name: Some(s(name)), generate_name: None }
}

fn tags() -> Vec<(String, String)> {
    vec![(s("team"), s("infra"))]
}

fn drive<M: Operation>(
    start: Progress<M, M::Outcome>,
    answers: Vec<Result<Reply, Error>>,
) -> (Vec<String>, Option<Result<M::Outcome, Error>>) {
    let mut asked = Vec::new();
    let mut answers = answers.into_iter();
    let mut progress = start;
    loop {
        match progress {
            Progress::Finished(outcome) => {
                assert!(answers.next().is_none());
                return (asked, Some(outcome));
            }
            Progress::Pending(operation) => {
                asked.push(format!("{:?}", operation.request()));
                match answers.next() {
                    None => return (asked, None),
                    Some(answer) => {
                        assert!(operation.accepts(&answer));
                        progress = operation.resume(answer);
                    }
                }
            }
        }
    }
}

fn shown(requests: Vec<Request>) -> Vec<String> {
    requests.iter().map(|r| format!("{r:?}")).collect()
}

fn refresh(name: &str) -> Request {
    Request::RefreshResource { namespace: s("apps"), selector: selector(), name: s(name) }
}

fn record() -> Request {
    Request::SetStatusCreated {
        namespace: s("apps"),
        name: s("e"),
        allocation_id: s("alloc-1"),
        public_ip: s("3.3.3.3"),
    }
}

fn list() -> Request {
    Request::ListMatchedResources { namespace: s("apps"), selector: selector() }
}

#[test]
fn an_eip_without_an_address_gets_one_and_is_offered() {
    let (asked, outcome) = drive(
        EipApply::start(eip(None, None), "prod", tags()),
        vec![
            Ok(Reply::Addresses(Some(Vec::new()))),
            Ok(Reply::Allocated(AllocatedAddress {
                allocation_id: Some(s("alloc-1")),
                public_ip: Some(s("3.3.3.3")),
            })),
            Ok(Reply::Done),
            Ok(Reply::Resources(vec![resource("a"), resource("b")])),
            Err(Error::Kube { source: KubeError { reason: None, message: s("no") } }),
            Ok(Reply::Done),
        ],
    );
    assert_eq!(
        asked,
        shown(vec![
            Request::DescribeAddresses {
                filters: vec![tag_filter("eip.materialize.cloud/eip_uid", "uid-1")],
            },
            Request::AllocateAddress {
                tags: allocate_address_tags("uid-1", "e", &selector(), "prod", "apps", &tags()),
            },
            record(),
            list(),
            refresh("a"),
            refresh("b"),
        ])
    );
    assert!(matches!(outcome, Some(Ok(None))));
}

#[test]
fn an_eip_with_an_address_keeps_it() {
    let (asked, outcome) = drive(
        EipApply::start(eip(Some("web-0"), None), "prod", tags()),
        vec![
            Ok(Reply::Addresses(Some(vec![address(Some("alloc-1"), Some("3.3.3.3"))]))),
            Ok(Reply::Done),
            Ok(Reply::Resources(vec![
                MatchedResource { name: None, generate_name: Some(s("web-")) },
                resource("web-0"),
            ])),
        ],
    );
    assert_eq!(asked[1..], shown(vec![record(), list()])[..]);
    assert!(matches!(outcome, Some(Ok(None))));
}

#[test]
fn a_wrong_claim_is_ended_before_the_eip_is_offered() {
    let gone = ServiceError { code: Some(s("InvalidAssociationID.NotFound")), message: s("gone") };
    let (asked, outcome) = drive(
        EipApply::start(eip(Some("old"), Some("as-1")), "prod", tags()),
        vec![
            Ok(Reply::Addresses(Some(vec![address(Some("alloc-1"), Some("3.3.3.3"))]))),
            Ok(Reply::Done),
            Ok(Reply::Resources(vec![resource("web-0")])),
            Ok(Reply::Disassociated(Err(gone))),
            Ok(Reply::Done),
            Ok(Reply::Done),
        ],
    );
    assert_eq!(
        asked[3..],
        shown(vec![
            Request::DisassociateAddress { association_id: s("as-1") },
            Request::SetStatusDetached {
                scope: ApiScope::Namespaced(s("apps")),
                eip: eip(Some("old"), Some("as-1")),
            },
            refresh("web-0"),
        ])[..]
    );
    assert!(matches!(outcome, Some(Ok(None))));
    let (asked, outcome) = drive(
        EipApply::start(eip(Some("old"), None), "prod", tags()),
        vec![
            Ok(Reply::Addresses(Some(vec![address(Some("alloc-1"), Some("3.3.3.3"))]))),
            Ok(Reply::Done),
            Ok(Reply::Resources(Vec::new())),
            Ok(Reply::Done),
        ],
    );
    assert!(asked[3].starts_with("SetStatusDetached"));
    assert!(matches!(outcome, Some(Ok(None))));
}

#[test]
fn an_eip_without_a_status_is_offered() {
    let mut e = eip(None, None);
    e.status = None;
    let (asked, _) = drive(
        EipApply::start(e, "prod", tags()),
        vec![
            Ok(Reply::Addresses(Some(vec![address(Some("alloc-1"), Some("3.3.3.3"))]))),
            Ok(Reply::Done),
            Ok(Reply::Resources(vec![resource("web-0")])),
        ],
    );
    assert_eq!(asked[3], format!("{:?}", refresh("web-0")));
}

#[test]
fn what_an_eip_lacks_is_an_error() {
    let error = |e: Eip, answers| match drive(EipApply::start(e, "prod", tags()), answers).1 {
        Some(Err(e)) => e,
        _ => panic!("no error"),
    };
    let mut nobody = eip(None, None);
    nobody.uid = None;
    assert!(matches!(error(nobody, Vec::new()), Error::MissingEipUid));
    let described = |a| vec![Ok(Reply::Addresses(a))];
    assert!(matches!(error(eip(None, None), described(None)), Error::MissingAddresses));
    assert!(matches!(
        error(
            eip(None, None),
            described(Some(vec![address(Some("a"), None), address(Some("b"), None)]))
        ),
        Error::MultipleEipsTaggedForPod
    ));
    assert!(matches!(
        error(eip(None, None), described(Some(vec![address(None, Some("3.3.3.3"))]))),
        Error::MissingAllocationId
    ));
    assert!(matches!(
        error(eip(None, None), described(Some(vec![address(Some("a"), None)]))),
        Error::MissingPublicIp
    ));
    let allocated = |allocation_id: Option<&str>, public_ip: Option<&str>| {
        vec![
            Ok(Reply::Addresses(Some(Vec::new()))),
            Ok(Reply::Allocated(AllocatedAddress {
                allocation_id: allocation_id.map(s),
                public_ip: public_ip.map(s),
            })),
        ]
    };
    assert!(matches!(
        error(eip(None, None), allocated(None, Some("3.3.3.3"))),
        Error::MissingAllocationId
    ));
    assert!(matches!(
        error(eip(None, None), allocated(Some("a"), None)),
        Error::MissingPublicIp
    ));
    let refusal = ServiceError { code: None, message: s("no") };
    assert!(matches!(
        error(
            eip(Some("old"), Some("as-1")),
            vec![
                Ok(Reply::Addresses(Some(vec![address(Some("a"), Some("b"))]))),
                Ok(Reply::Done),
                Ok(Reply::Resources(Vec::new())),
                Ok(Reply::Disassociated(Err(refusal))),
            ]
        ),
        Error::AwsDisassociateAddress { .. }
    ));
}

#[test]
fn nameless_resources_cannot_be_asked() {
    let nameless = || MatchedResource { name: None, generate_name: Some(s("web-")) };
    let listing = |e: Eip| {
        match EipApply::start(e, "prod", tags()) {
            Progress::Pending(describing) => match describing.resume(Ok(Reply::Addresses(Some(
                vec![address(Some("a"), Some("b"))],
            )))) {
                Progress::Pending(recording) => match recording.resume(Ok(Reply::Done)) {
                    Progress::Pending(listing) => listing,
                    Progress::Finished(_) => panic!("finished"),
                },
                Progress::Finished(_) => panic!("finished"),
            },
            Progress::Finished(_) => panic!("finished"),
        }
    };
    assert!(!listing(eip(None, None)).accepts(&Ok(Reply::Resources(vec![nameless()]))));
    assert!(listing(eip(Some("web-"), None)).accepts(&Ok(Reply::Resources(vec![nameless()]))));
    assert!(listing(eip(None, None)).accepts(&Ok(Reply::Resources(Vec::new()))));
}

#[test]
fn every_address_of_an_eip_is_given_back() {
    let mut a = address(Some("alloc-1"), None);
    a.association_id = Some(s("as-1"));
    let mut c = address(None, None);
    c.association_id = Some(s("as-3"));
    let gone = ServiceError { code: Some(s("InvalidAssociationID.NotFound")), message: s("gone") };
    let (asked, outcome) = drive(
        EipCleanup::start(&eip(None, None)),
        vec![
            Ok(Reply::Addresses(Some(vec![a, address(Some("alloc-2"), None), c]))),
            Ok(Reply::Disassociated(Ok(()))),
            Ok(Reply::Done),
            Ok(Reply::Done),
            Ok(Reply::Disassociated(Err(gone))),
        ],
    );
    assert_eq!(
        asked,
        shown(vec![
            Request::DescribeAddresses { filters: filters_for_uid("uid-1") },
            Request::DisassociateAddress { association_id: s("as-1") },
            Request::ReleaseAddress { allocation_id: s("alloc-1") },
            Request::ReleaseAddress { allocation_id: s("alloc-2") },
            Request::DisassociateAddress { association_id: s("as-3") },
        ])
    );
    assert!(matches!(outcome, Some(Ok(None))));
}

#[test]
fn an_eip_without_addresses_has_none_to_give_back() {
    for addresses in [None, Some(Vec::new())] {
        let (asked, outcome) = drive(
            EipCleanup::start(&eip(None, None)),
            vec![Ok(Reply::Addresses(addresses))],
        );
        assert_eq!(asked.len(), 1);
        assert!(matches!(outcome, Some(Ok(None))));
    }
    let mut nobody = eip(None, None);
    nobody.uid = None;
    let (_, outcome) = drive(EipCleanup::start(&nobody), Vec::new());
    assert!(matches!(outcome, Some(Err(Error::MissingEipUid))));
}

#[test]
fn eips_are_picked_by_selector_and_claim() {
    let node_eip = |pairs: Vec<(&str, &str)>| {
        let mut e = eip(None, None);
        e.selector = EipSelector::Node {
            selector: StringMap::from_pairs(
                pairs.into_iter().map(|(k, v)| (s(k), s(v))).collect(),
            ),
        };
        e
    };
    let labels = StringMap::from_pairs(vec![(s("a"), s("1")), (s("b"), s("2"))]);
    assert!(node_eip(vec![("a", "1")]).matches_node(Some(&labels)));
    assert!(node_eip(vec![]).matches_node(None));
    assert!(!node_eip(vec![("a", "1")]).matches_node(None));
    assert!(!node_eip(vec![("a", "2")]).matches_node(Some(&labels)));
    assert!(!eip(None, None).matches_node(Some(&labels)));
    assert!(eip(None, None).matches_pod("web-0"));
    assert!(!eip(None, None).matches_pod("web-1"));
    assert!(!node_eip(vec![]).matches_pod("web-0"));
    let all = vec![eip(Some("x"), None), eip(None, None), node_eip(vec![("a", "1")])];
    assert_eq!(eips_for_pod(&all, "web-0").len(), 2);
    assert_eq!(eips_for_node(&all, Some(&labels)).len(), 1);
    assert_eq!(eips_claimed_by(&all, "x").len(), 1);
    assert_eq!(eips_claimed_by(&all, "y").len(), 0);
    assert!(all[0].is_claimed_by("x") && !all[1].is_claimed_by("x"));
    assert!(all[0].is_claimable_by("x") && !all[0].is_claimable_by("y"));
    assert!(all[1].is_claimable_by("y"));
    assert_eq!(
        format!("{:?}", first_claimable_eip(&all, "y")),
        format!("{:?}", Some(&all[1]))
    );
    assert!(first_claimable_eip(&vec![eip(Some("x"), None)], "y").is_none());
    assert_eq!(eip(None, None).allocation_id(), Some(&s("alloc-1")));
}

#[test]
fn matched_resources_are_listed_by_name_or_by_labels() {
    let params = EipSelector::Pod { pod_name: "web-0".to_owned() }.get_resource_list_params();
    assert_eq!(params.field_selector.as_deref(), Some("metadata.name=web-0"));
    assert_eq!(params.label_selector, None);

    let labels = StringMap::from_pairs(vec![("role".to_owned(), "egress".to_owned())]);
    let params = EipSelector::Node { selector: labels }.get_resource_list_params();
    assert_eq!(params.field_selector, None);
    assert_eq!(params.label_selector.as_deref(), Some("role=egress"));

    let labels = StringMap::from_pairs(vec![
        ("role".to_owned(), "egress".to_owned()),
        ("zone".to_owned(), "a".to_owned()),
    ]);
    let params = EipSelector::Node { selector: labels }.get_resource_list_params();
    assert_eq!(params.label_selector.as_deref(), Some("role=egress,zone=a"));

    let params = EipSelector::Node { selector: StringMap::new() }.get_resource_list_params();
    assert_eq!(params.label_selector.as_deref(), Some(""));
}

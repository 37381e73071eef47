use eip_operator::aws::{
    allocate_address_tags, disassociate_eip, find_eni_with_ip, get_eni_from_private_ip,
    get_tag_from_address, is_attached_to, is_orphan, is_populated, new_tag, tag_filter, Address,
    Instance, InstancesDescription, NetworkInterface, PrivateIpAddress, Reservation, Tag,
};
use eip_operator::eip::EipSelector;
use eip_operator::error::{Error, ServiceError};
use eip_operator::string_map::StringMap;

fn address(tags: Option<Vec<Tag>>) -> Address {
    Address {
        allocation_id: None,
        association_id: None,
        public_ip: None,
        network_interface_id: None,
        private_ip_address: None,
        tags,
    }
}

fn interface(id: Option<&str>, ips: Option<Vec<Option<&str>>>) -> NetworkInterface {
    NetworkInterface {
        network_interface_id: id.map(|s| s.to_owned()),
        private_ip_addresses: ips.map(|ips| {
            ips.into_iter()
                .map(|ip| PrivateIpAddress { private_ip_address: ip.map(|s| s.to_owned()) })
                .collect()
        }),
    }
}

fn pairs(tags: &[Tag]) -> Vec<(String, String)> {
    tags.iter()
        .map(|t| (t.key.clone().unwrap(), t.value.clone().unwrap()))
        .collect()
}

#[test]
fn the_first_tag_with_the_key_counts() {
    let a = address(Some(vec![
        Tag { key: None, value: Some("x".to_owned()) },
        new_tag("k", "1"),
        new_tag("k", "2"),
        Tag { key: Some("empty".to_owned()), value: None },
    ]));
    assert_eq!(get_tag_from_address(&a, "k"), Some("1"));
    assert_eq!(get_tag_from_address(&a, "empty"), None);
    assert_eq!(get_tag_from_address(&a, "other"), None);
    assert_eq!(get_tag_from_address(&address(None), "k"), None);
}

#[test]
fn filters_name_the_tag() {
    let f = tag_filter("eip.materialize.cloud/eip_uid", "u-1");
    assert_eq!(f.name, "tag:eip.materialize.cloud/eip_uid");
    assert_eq!(f.value, "u-1");
}

#[test]
fn an_address_for_a_pod_is_tagged() {
    let tags = allocate_address_tags(
        "uid-1",
        "my-eip",
        &EipSelector::Pod { pod_name: "web-0".to_owned() },
        "prod",
        "apps",
        &vec![("team".to_owned(), "infra".to_owned())],
    );
    let expected: Vec<(String, String)> = vec![
        ("team", "infra"),
        ("eip.materialize.cloud/eip_uid", "uid-1"),
        ("eip.materialize.cloud/eip_name", "my-eip"),
        ("eip.materialize.cloud/namespace", "apps"),
        ("eip.materialize.cloud/cluster_name", "prod"),
        ("eip.materialize.cloud/pod_name", "web-0"),
        ("Name", "eip-operator:prod:apps:my-eip"),
    ]
    .into_iter()
    .map(|(k, v)| (k.to_owned(), v.to_owned()))
    .collect();
    assert_eq!(pairs(&tags), expected);
}

#[test]
fn an_address_for_nodes_is_tagged_with_the_selector() {
    let selector = StringMap::from_pairs(vec![
        ("workload".to_owned(), "egress".to_owned()),
        ("arch".to_owned(), "arm64".to_owned()),
    ]);
    let tags = allocate_address_tags(
        "u",
        "n",
        &EipSelector::Node { selector },
        "c",
        "ns",
        &Vec::new(),
    );
    assert_eq!(
        pairs(&tags)[4],
        (
            "eip.materialize.cloud/node_selector".to_owned(),
            "{\"arch\":\"arm64\",\"workload\":\"egress\"}".to_owned()
        )
    );
}

#[test]
fn an_allocated_address_is_found_again_by_its_uid() {
    let tags = allocate_address_tags(
        "uid-1",
        "e",
        &EipSelector::Pod { pod_name: "p".to_owned() },
        "c",
        "ns",
        &vec![("a".to_owned(), "b".to_owned())],
    );
    let a = address(Some(tags));
    assert_eq!(get_tag_from_address(&a, "eip.materialize.cloud/eip_uid"), Some("uid-1"));
    assert_eq!(get_tag_from_address(&a, "eip.materialize.cloud/cluster_name"), Some("c"));
    assert_eq!(get_tag_from_address(&a, "eip.materialize.cloud/namespace"), Some("ns"));
    assert!(!is_orphan(&a, "eip.materialize.cloud/eip_uid", &vec!["uid-1".to_owned()]));
    assert!(is_orphan(&a, "eip.materialize.cloud/eip_uid", &vec!["uid-2".to_owned()]));
    assert!(is_orphan(&a, "eip.aws.materialize.com/pod_uid", &vec!["uid-1".to_owned()]));
    assert!(is_orphan(&address(None), "eip.materialize.cloud/eip_uid", &vec!["uid-1".to_owned()]));
}

#[test]
fn attachment_is_to_an_interface_and_a_private_address() {
    let mut a = address(None);
    assert!(!is_attached_to(&a, "eni-1", "10.0.0.1"));
    a.network_interface_id = Some("eni-1".to_owned());
    assert!(!is_attached_to(&a, "eni-1", "10.0.0.1"));
    a.private_ip_address = Some("10.0.0.1".to_owned());
    assert!(is_attached_to(&a, "eni-1", "10.0.0.1"));
    assert!(!is_attached_to(&a, "eni-2", "10.0.0.1"));
    assert!(!is_attached_to(&a, "eni-1", "10.0.0.2"));
}

#[test]
fn the_interface_with_the_private_address_is_found() {
    let interfaces = vec![
        interface(Some("eni-0"), None),
        interface(None, Some(vec![Some("10.0.0.1")])),
        interface(Some("eni-1"), Some(vec![None, Some("10.0.0.1")])),
        interface(Some("eni-2"), Some(vec![Some("10.0.0.1")])),
    ];
    assert_eq!(find_eni_with_ip(&interfaces, "10.0.0.1"), Some("eni-1".to_owned()));
    assert_eq!(find_eni_with_ip(&interfaces, "10.0.0.9"), None);
}

#[test]
fn only_the_first_instance_of_the_first_reservation_counts() {
    let instance = |id: &str| Instance {
        network_interfaces: Some(vec![interface(Some(id), Some(vec![Some("10.0.0.1")]))]),
    };
    let d = InstancesDescription {
        reservations: Some(vec![
            Reservation { instances: Some(vec![instance("eni-1"), instance("eni-2")]) },
            Reservation { instances: None },
        ]),
    };
    assert!(is_populated(&d));
    assert_eq!(get_eni_from_private_ip(&d, "10.0.0.1"), Some("eni-1".to_owned()));
    assert_eq!(get_eni_from_private_ip(&d, "10.0.0.2"), None);
    let none = InstancesDescription { reservations: None };
    assert!(is_populated(&none));
    assert_eq!(get_eni_from_private_ip(&none, "10.0.0.1"), None);
    let bare = InstancesDescription {
        reservations: Some(vec![Reservation { instances: None }]),
    };
    assert!(is_populated(&bare));
    assert_eq!(get_eni_from_private_ip(&bare, "10.0.0.1"), None);
    let dark = InstancesDescription {
        reservations: Some(vec![Reservation {
            instances: Some(vec![Instance { network_interfaces: None }]),
        }]),
    };
    assert_eq!(get_eni_from_private_ip(&dark, "10.0.0.1"), None);
}

#[test]
fn empty_lists_of_instances_are_recognised() {
    assert!(!is_populated(&InstancesDescription { reservations: Some(Vec::new()) }));
    assert!(!is_populated(&InstancesDescription {
        reservations: Some(vec![Reservation { instances: Some(Vec::new()) }]),
    }));
}

#[test]
fn an_association_that_is_gone_counts_as_ended() {
    let refusal = |code: Option<&str>| ServiceError {
        code: code.map(|c| c.to_owned()),
        message: "no".to_owned(),
    };
    assert!(disassociate_eip(Ok(())).is_ok());
    assert!(disassociate_eip(Err(refusal(Some("InvalidAssociationID.NotFound")))).is_ok());
    assert!(matches!(
        disassociate_eip(Err(refusal(Some("AuthFailure")))),
        Err(Error::AwsDisassociateAddress { .. })
    ));
    assert!(matches!(
        disassociate_eip(Err(refusal(None))),
        Err(Error::AwsDisassociateAddress { .. })
    ));
}

use eip_operator::error::{Error, KubeError, ServiceError};
use eip_operator::json::{parse_string_map, string_map_from};
use eip_operator::legacy::legacy_message;
use std::collections::HashMap;

fn source() -> String {
    "why".to_owned()
}

#[test]
fn errors_are_put_into_words() {
    let kube = Error::Kube {
        source: KubeError { reason: None, message: source() },
    };
    assert_eq!(kube.message(), "Kubernetes error: why");
    let gone = Error::AwsDisassociateAddress {
        source: ServiceError { code: Some("X".to_owned()), message: source() },
    };
    assert_eq!(gone.message(), "AWS disassociate_address reported error: why");
    assert_eq!(
        Error::NoEipResourceWithThatPodName("web".to_owned()).message(),
        "No EIP found with that podName `web`."
    );
    let cases = vec![
        (Error::Io { source: source() }, "io error: why"),
        (Error::SerdeJson { source: source() }, "serde_json error: why"),
        (Error::KubeRuntimeWaitError { source: source() }, "Kubernetes error: why"),
        (Error::AllocateAddress { source: source() }, "AWS allocate_address reported error: why"),
        (
            Error::AwsDescribeInstances { source: source() },
            "AWS describe_instances reported error: why",
        ),
        (
            Error::AwsDescribeAddresses { source: source() },
            "AWS describe_addresses reported error: why",
        ),
        (
            Error::AwsAssociateAddress { source: source() },
            "AWS associate_address reported error: why",
        ),
        (Error::AwsReleaseAddress { source: source() }, "AWS release_address reported error: why"),
        (
            Error::AwsGetServiceQuota { source: source() },
            "AWS get service quota reported error: why",
        ),
        (Error::TracingSubscriberParse { source: source() }, "tracing_subscriber error: why"),
        (Error::TokioTimeoutElapsed { source: source() }, "Tokio Timeout Elapsed: why"),
        (Error::HyperUrl { source: source() }, "Hyper url error: why"),
        (Error::TonicTransport { source: source() }, "Tonic transport error: why"),
        (Error::TonicInvalidMetadataKey { source: source() }, "Tonic metadata key error: why"),
        (Error::TonicInvalidMetadataValue { source: source() }, "Tonic metadata value error: why"),
        (Error::AddrParse { source: source() }, "AddrParse error: why"),
        (Error::RtNetlink { source: source() }, "RtNetlink error: why"),
        (Error::NoEipResourceWithThatNodeSelector, "No EIP found with that node selector."),
        (Error::MissingEipStatus, "EIP does not have a status."),
        (Error::MissingEipUid, "EIP does not have a UID in its metadata."),
        (Error::MissingPodUid, "Pod does not have a UID in it's metadata."),
        (Error::MissingPodName, "Pod does not have a name in its metadata."),
        (Error::MissingPodIp, "Pod does not have an IP address."),
        (Error::MissingNodeIp, "Node does not have an IP address."),
        (Error::MissingNodeName, "Pod does not have a node name in its spec."),
        (Error::MissingNodeLabels, "Node does not have labels."),
        (Error::MissingNodeStatus, "Node does not have a status."),
        (Error::MissingNodeReadyCondition, "Node does not have a ready condition."),
        (Error::MissingProviderId, "Node does not have a provider_id in its spec."),
        (Error::MalformedProviderId, "Node provider_id is not in expected format."),
        (
            Error::MultipleEipsTaggedForPod,
            "Multiple elastic IPs are tagged with this pod's UID.",
        ),
        (Error::MissingAllocationId, "allocation_id was None."),
        (Error::MissingAssociationId, "aassociation_id was None."),
        (Error::MissingPublicIp, "public_ip was None."),
        (Error::MissingReservations, "DescribeInstancesResult.reservations was None."),
        (
            Error::MissingInstances,
            "DescribeInstancesResult.reservations[0].instances was None.",
        ),
        (
            Error::MissingNetworkInterfaces,
            "DescribeInstancesResult.reservations[0].instances[0].network_interfaces was None.",
        ),
        (Error::MissingAddresses, "No interface found with IP matching pod."),
        (Error::NoInterfaceWithThatIp, "DescribeAddressesResult.addresses was None."),
        (
            Error::CiliumRuleNotFound,
            "Could not find a rule for that pod installed by Cilium.",
        ),
    ];
    for (error, words) in cases {
        assert_eq!(error.message(), words);
    }
}

#[test]
fn json_errors_carry_the_words_of_the_parser() {
    for text in ["{\"a\": 1}", "team=infra", "[]", "", "{\"a\":\"b\"} x"] {
        let refused = serde_json::from_str::<HashMap<String, String>>(text).unwrap_err();
        let error = parse_string_map(text).unwrap_err();
        assert_eq!(error.message(), format!("serde_json error: {refused}"));
        assert_eq!(legacy_message(&error), error.message());
    }
    match parse_string_map("") {
        Err(Error::SerdeJson { source }) => {
            assert_eq!(source, "EOF while parsing a value at line 1 column 0");
        }
        _ => panic!("nothing was read as a map"),
    }
    assert!(matches!(
        string_map_from(Err(source())),
        Err(Error::SerdeJson { source }) if source == "why"
    ));
}

#[test]
fn the_operator_without_eip_resources_has_words_of_its_own() {
    assert_eq!(
        legacy_message(&Error::AllocateAddress { source: source() }),
        "Rusoto allocate_address reported error: why"
    );
    assert_eq!(
        legacy_message(&Error::AwsDescribeInstances { source: source() }),
        "Rusoto describe_instances reported error: why"
    );
    assert_eq!(
        legacy_message(&Error::AwsDescribeAddresses { source: source() }),
        "Rusoto describe_addresses reported error: why"
    );
    assert_eq!(
        legacy_message(&Error::AwsAssociateAddress { source: source() }),
        "Rusoto associate_address reported error: why"
    );
    assert_eq!(
        legacy_message(&Error::AwsDisassociateAddress {
            source: ServiceError { code: None, message: source() },
        }),
        "Rusoto disassociate_address reported error: why"
    );
    assert_eq!(
        legacy_message(&Error::AwsReleaseAddress { source: source() }),
        "Rusoto release_address reported error: why"
    );
    assert_eq!(
        legacy_message(&Error::MissingNetworkInterfaces),
        "DescribeInstancesResult.reservations[0].instances[0].network_insterfaces was None."
    );
    assert_eq!(legacy_message(&Error::MissingPodUid), "Pod does not have a UID in it's metadata.");
}

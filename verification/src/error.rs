//! What can go wrong, and how it is put into words.
use vstd::prelude::*;

verus! {

/// A failed request to the Kubernetes API.
#[derive(Debug)]
pub struct KubeError {
    /// The reason that the API server gave, where it was the API server that refused.
    pub reason: Option<String>,
    /// The failure in words.
    pub message: String,
}

/// A request that an AWS service refused.
#[derive(Debug)]
pub struct ServiceError {
    /// The service's error code, where it gave one.
    pub code: Option<String>,
    /// The failure in words.
    pub message: String,
}

/// Everything that an operation of the operator can end in besides success.
///
/// Where a failure came from another service or library, `source` is that failure in words.
#[allow(inconsistent_fields)]
#[derive(Debug)]
pub enum Error {
    Kube { source: KubeError },
    AwsDisassociateAddress { source: ServiceError },
    SerdeJson { source: String },
    NoEipResourceWithThatPodName(String),
    Io { source: String },
    KubeRuntimeWaitError { source: String },
    AllocateAddress { source: String },
    AwsDescribeInstances { source: String },
    AwsDescribeAddresses { source: String },
    AwsAssociateAddress { source: String },
    AwsReleaseAddress { source: String },
    AwsGetServiceQuota { source: String },
    TracingSubscriberParse { source: String },
    TokioTimeoutElapsed { source: String },
    HyperUrl { source: String },
    TonicTransport { source: String },
    TonicInvalidMetadataKey { source: String },
    TonicInvalidMetadataValue { source: String },
    AddrParse { source: String },
    RtNetlink { source: String },
    NoEipResourceWithThatNodeSelector,
    MissingEipStatus,
    MissingEipUid,
    MissingPodUid,
    MissingPodName,
    MissingPodIp,
    MissingNodeIp,
    MissingNodeName,
    MissingNodeLabels,
    MissingNodeStatus,
    MissingNodeReadyCondition,
    MissingProviderId,
    MalformedProviderId,
    MultipleEipsTaggedForPod,
    MissingAllocationId,
    MissingAssociationId,
    MissingPublicIp,
    MissingReservations,
    MissingInstances,
    MissingNetworkInterfaces,
    MissingAddresses,
    NoInterfaceWithThatIp,
    CiliumRuleNotFound,
}

impl Error {
    /// The error in words.
    pub open spec fn text(self) -> Seq<char> {
        match self {
            Error::Kube { source } => "Kubernetes error: "@ + source.message@,
            Error::AwsDisassociateAddress { source } => "AWS disassociate_address reported error: "@
                + source.message@,
            Error::SerdeJson { source } => "serde_json error: "@ + source@,
            Error::NoEipResourceWithThatPodName(name) => "No EIP found with that podName `"@ + name@
                + "`."@,
            Error::Io { source } => "io error: "@ + source@,
            Error::KubeRuntimeWaitError { source } => "Kubernetes error: "@ + source@,
            Error::AllocateAddress { source } => "AWS allocate_address reported error: "@ + source@,
            Error::AwsDescribeInstances { source } =>
                "AWS describe_instances reported error: "@ + source@,
            Error::AwsDescribeAddresses { source } =>
                "AWS describe_addresses reported error: "@ + source@,
            Error::AwsAssociateAddress { source } =>
                "AWS associate_address reported error: "@ + source@,
            Error::AwsReleaseAddress { source } =>
                "AWS release_address reported error: "@ + source@,
            Error::AwsGetServiceQuota { source } =>
                "AWS get service quota reported error: "@ + source@,
            Error::TracingSubscriberParse { source } => "tracing_subscriber error: "@ + source@,
            Error::TokioTimeoutElapsed { source } => "Tokio Timeout Elapsed: "@ + source@,
            Error::HyperUrl { source } => "Hyper url error: "@ + source@,
            Error::TonicTransport { source } => "Tonic transport error: "@ + source@,
            Error::TonicInvalidMetadataKey { source } => "Tonic metadata key error: "@ + source@,
            Error::TonicInvalidMetadataValue { source } =>
                "Tonic metadata value error: "@ + source@,
            Error::AddrParse { source } => "AddrParse error: "@ + source@,
            Error::RtNetlink { source } => "RtNetlink error: "@ + source@,
            Error::NoEipResourceWithThatNodeSelector => "No EIP found with that node selector."@,
            Error::MissingEipStatus => "EIP does not have a status."@,
            Error::MissingEipUid => "EIP does not have a UID in its metadata."@,
            Error::MissingPodUid => "Pod does not have a UID in it's metadata."@,
            Error::MissingPodName => "Pod does not have a name in its metadata."@,
            Error::MissingPodIp => "Pod does not have an IP address."@,
            Error::MissingNodeIp => "Node does not have an IP address."@,
            Error::MissingNodeName => "Pod does not have a node name in its spec."@,
            Error::MissingNodeLabels => "Node does not have labels."@,
            Error::MissingNodeStatus => "Node does not have a status."@,
            Error::MissingNodeReadyCondition => "Node does not have a ready condition."@,
            Error::MissingProviderId => "Node does not have a provider_id in its spec."@,
            Error::MalformedProviderId => "Node provider_id is not in expected format."@,
            Error::MultipleEipsTaggedForPod =>
                "Multiple elastic IPs are tagged with this pod's UID."@,
            Error::MissingAllocationId => "allocation_id was None."@,
            Error::MissingAssociationId => "aassociation_id was None."@,
            Error::MissingPublicIp => "public_ip was None."@,
            Error::MissingReservations => "DescribeInstancesResult.reservations was None."@,
            Error::MissingInstances =>
                "DescribeInstancesResult.reservations[0].instances was None."@,
            Error::MissingNetworkInterfaces =>
                "DescribeInstancesResult.reservations[0].instances[0].network_interfaces was None."@,
            Error::MissingAddresses => "No interface found with IP matching pod."@,
            Error::NoInterfaceWithThatIp => "DescribeAddressesResult.addresses was None."@,
            Error::CiliumRuleNotFound => "Could not find a rule for that pod installed by Cilium."@,
        }
    }

    /// The error in words.
    pub fn message(&self) -> (r: String)
        ensures
            r@ == self.text(),
    {
        match self {
            Error::Kube { source } => "Kubernetes error: ".to_owned().concat(
                source.message.as_str(),
            ),
            Error::AwsDisassociateAddress { source } =>
                "AWS disassociate_address reported error: ".to_owned().concat(
                source.message.as_str(),
            ),
            Error::SerdeJson { source } => "serde_json error: ".to_owned().concat(source.as_str()),
            Error::NoEipResourceWithThatPodName(name) =>
                "No EIP found with that podName `".to_owned().concat(name.as_str()).concat("`."),
            Error::Io { source } => "io error: ".to_owned().concat(source.as_str()),
            Error::KubeRuntimeWaitError { source } =>
                "Kubernetes error: ".to_owned().concat(source.as_str()),
            Error::AllocateAddress { source } =>
                "AWS allocate_address reported error: ".to_owned().concat(source.as_str()),
            Error::AwsDescribeInstances { source } =>
                "AWS describe_instances reported error: ".to_owned().concat(source.as_str()),
            Error::AwsDescribeAddresses { source } =>
                "AWS describe_addresses reported error: ".to_owned().concat(source.as_str()),
            Error::AwsAssociateAddress { source } =>
                "AWS associate_address reported error: ".to_owned().concat(source.as_str()),
            Error::AwsReleaseAddress { source } =>
                "AWS release_address reported error: ".to_owned().concat(source.as_str()),
            Error::AwsGetServiceQuota { source } =>
                "AWS get service quota reported error: ".to_owned().concat(source.as_str()),
            Error::TracingSubscriberParse { source } =>
                "tracing_subscriber error: ".to_owned().concat(source.as_str()),
            Error::TokioTimeoutElapsed { source } =>
                "Tokio Timeout Elapsed: ".to_owned().concat(source.as_str()),
            Error::HyperUrl { source } => "Hyper url error: ".to_owned().concat(source.as_str()),
            Error::TonicTransport { source } =>
                "Tonic transport error: ".to_owned().concat(source.as_str()),
            Error::TonicInvalidMetadataKey { source } =>
                "Tonic metadata key error: ".to_owned().concat(source.as_str()),
            Error::TonicInvalidMetadataValue { source } =>
                "Tonic metadata value error: ".to_owned().concat(source.as_str()),
            Error::AddrParse { source } => "AddrParse error: ".to_owned().concat(source.as_str()),
            Error::RtNetlink { source } => "RtNetlink error: ".to_owned().concat(source.as_str()),
            Error::NoEipResourceWithThatNodeSelector =>
                "No EIP found with that node selector.".to_owned(),
            Error::MissingEipStatus => "EIP does not have a status.".to_owned(),
            Error::MissingEipUid => "EIP does not have a UID in its metadata.".to_owned(),
            Error::MissingPodUid => "Pod does not have a UID in it's metadata.".to_owned(),
            Error::MissingPodName => "Pod does not have a name in its metadata.".to_owned(),
            Error::MissingPodIp => "Pod does not have an IP address.".to_owned(),
            Error::MissingNodeIp => "Node does not have an IP address.".to_owned(),
            Error::MissingNodeName => "Pod does not have a node name in its spec.".to_owned(),
            Error::MissingNodeLabels => "Node does not have labels.".to_owned(),
            Error::MissingNodeStatus => "Node does not have a status.".to_owned(),
            Error::MissingNodeReadyCondition => "Node does not have a ready condition.".to_owned(),
            Error::MissingProviderId => "Node does not have a provider_id in its spec.".to_owned(),
            Error::MalformedProviderId => "Node provider_id is not in expected format.".to_owned(),
            Error::MultipleEipsTaggedForPod =>
                "Multiple elastic IPs are tagged with this pod's UID.".to_owned(),
            Error::MissingAllocationId => "allocation_id was None.".to_owned(),
            Error::MissingAssociationId => "aassociation_id was None.".to_owned(),
            Error::MissingPublicIp => "public_ip was None.".to_owned(),
            Error::MissingReservations =>
                "DescribeInstancesResult.reservations was None.".to_owned(),
            Error::MissingInstances =>
                "DescribeInstancesResult.reservations[0].instances was None.".to_owned(),
            Error::MissingNetworkInterfaces =>
                "DescribeInstancesResult.reservations[0].instances[0].network_interfaces was None.".to_owned(),
            Error::MissingAddresses => "No interface found with IP matching pod.".to_owned(),
            Error::NoInterfaceWithThatIp =>
                "DescribeAddressesResult.addresses was None.".to_owned(),
            Error::CiliumRuleNotFound =>
                "Could not find a rule for that pod installed by Cilium.".to_owned(),
        }
    }
}

} // verus!

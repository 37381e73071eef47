//! The names under which the operator marks objects, and the patches that set the marks.
use crate::kube_ext::{Pod, PodView};
use crate::operation::{ApplyPatch, ApplyPatchView};
use crate::random::random_u64;
use crate::text::{ascii_lower, decimal, decimal_text, lowercase, str_eq, to_lowercase};
use vstd::prelude::*;
use vstd::utf8::is_ascii_chars;

verus! {

/// The label of the pods and nodes that the operator looks after.
pub const MANAGE_EIP_LABEL: &'static str = "eip.materialize.cloud/manage";

/// The manager under which the operator owns the fields that it sets.
pub const FIELD_MANAGER: &'static str = "eip.materialize.cloud";

/// The label of a pod that asks for an `Eip` of its own.
pub const AUTOCREATE_EIP_LABEL: &'static str = "eip.materialize.cloud/autocreate_eip";

/// The annotation of a pod that holds the id of its address.
pub const EIP_ALLOCATION_ID_ANNOTATION: &'static str = "eip.materialize.cloud/allocation_id";

/// The annotation of a pod from which external-dns takes the address to publish.
pub const EXTERNAL_DNS_TARGET_ANNOTATION: &'static str = "external-dns.alpha.kubernetes.io/target";

/// The annotation of a pod that describes its branch network interfaces.
pub const POD_ENI_ANNOTATION: &'static str = "vpc.amazonaws.com/pod-eni";

/// The label that changes when a pod or node is to be reconciled again.
pub const REFRESH_LABEL: &'static str = "eip.materialize.cloud/refresh";

/// The label of a node that tells whether traffic may leave through it.
pub const EGRESS_NODE_STATUS_LABEL: &'static str =
    "egress-gateway.materialize.cloud/ready-status";

impl PodView {
    /// The value of a label of the pod.
    pub open spec fn label(self, key: Seq<char>) -> Option<Seq<char>> {
        match self.labels {
            Some(labels) => if labels.contains_key(key) {
                Some(labels[key])
            } else {
                None
            },
            None => None,
        }
    }

    /// The value of an annotation of the pod.
    pub open spec fn annotation(self, key: Seq<char>) -> Option<Seq<char>> {
        match self.annotations {
            Some(annotations) => if annotations.contains_key(key) {
                Some(annotations[key])
            } else {
                None
            },
            None => None,
        }
    }

    /// Whether the pod asks for an `Eip` of its own: its label says `true`, in whatever case.
    pub open spec fn wants_eip(self) -> bool {
        self.label(AUTOCREATE_EIP_LABEL@) matches Some(value) && lowercase(value) == "true"@
    }
}

/// Whether the pod asks for an `Eip` of its own.
pub fn should_autocreate_eip(pod: &Pod) -> (r: bool)
    ensures
        r == pod.deep_view().wants_eip(),
        pod.deep_view().label(AUTOCREATE_EIP_LABEL@) matches Some(value) ==> (is_ascii_chars(value)
            ==> r == (value.map_values(|c: char| ascii_lower(c)) == "true"@)),
{
    match &pod.labels {
        Some(labels) => match labels.get(AUTOCREATE_EIP_LABEL) {
            Some(value) => str_eq(to_lowercase(value.as_str()).as_str(), "true"),
            None => false,
        },
        None => false,
    }
}

/// The text of the annotation that describes the pod's branch network interfaces.
pub fn pod_eni_annotation(pod: &Pod) -> (r: Option<&String>)
    ensures
        r.deep_view() == pod.deep_view().annotation(POD_ENI_ANNOTATION@),
{
    match &pod.annotations {
        Some(annotations) => annotations.get(POD_ENI_ANNOTATION),
        None => None,
    }
}

/// The patch that publishes an address on a pod.
pub open spec fn dns_target_patch(
    eip_address: Seq<char>,
    allocation_id: Seq<char>,
) -> ApplyPatchView {
    ApplyPatchView {
        field_manager: FIELD_MANAGER@,
        kind: "Pod"@,
        annotations: seq![
            (EIP_ALLOCATION_ID_ANNOTATION@, allocation_id),
            (EXTERNAL_DNS_TARGET_ANNOTATION@, eip_address),
        ],
        labels: Seq::empty(),
    }
}

/// The patch that tells external-dns which address to publish for a pod.
pub fn add_dns_target_annotation(eip_address: &str, allocation_id: &str) -> (r: ApplyPatch)
    ensures
        r.deep_view() == dns_target_patch(eip_address@, allocation_id@),
{
    let mut annotations: Vec<(String, String)> = Vec::new();
    annotations.push((EIP_ALLOCATION_ID_ANNOTATION.to_owned(), allocation_id.to_owned()));
    annotations.push((EXTERNAL_DNS_TARGET_ANNOTATION.to_owned(), eip_address.to_owned()));
    let patch = ApplyPatch {
        field_manager: FIELD_MANAGER.to_owned(),
        kind: "Pod".to_owned(),
        annotations,
        labels: Vec::new(),
    };
    proof {
        let wanted = dns_target_patch(eip_address@, allocation_id@);
        assert(patch.annotations.deep_view() =~= wanted.annotations);
        assert(patch.labels.deep_view() =~= wanted.labels);
    }
    patch
}

/// The patch that sets or removes the egress label of a node.
pub open spec fn gateway_status_patch(status: Option<Seq<char>>) -> ApplyPatchView {
    ApplyPatchView {
        field_manager: FIELD_MANAGER@,
        kind: "Node"@,
        annotations: Seq::empty(),
        labels: seq![(EGRESS_NODE_STATUS_LABEL@, status)],
    }
}

/// The patch that sets the egress label of a node, in lower case.
pub fn add_gateway_status_label(status: &str) -> (r: ApplyPatch)
    ensures
        r.deep_view() == gateway_status_patch(Some(lowercase(status@))),
        is_ascii_chars(status@) ==> r.deep_view() == gateway_status_patch(
            Some(status@.map_values(|c: char| ascii_lower(c))),
        ),
{
    let mut labels: Vec<(String, Option<String>)> = Vec::new();
    let value = to_lowercase(status);
    labels.push((EGRESS_NODE_STATUS_LABEL.to_owned(), Some(value)));
    let patch = ApplyPatch {
        field_manager: FIELD_MANAGER.to_owned(),
        kind: "Node".to_owned(),
        annotations: Vec::new(),
        labels,
    };
    proof {
        let wanted = gateway_status_patch(Some(lowercase(status@)));
        assert(patch.annotations.deep_view() =~= wanted.annotations);
        assert(patch.labels.deep_view() =~= wanted.labels);
    }
    patch
}

/// The patch that removes the egress label of a node.
pub fn remove_gateway_status_label() -> (r: ApplyPatch)
    ensures
        r.deep_view() == gateway_status_patch(None),
{
    let mut labels: Vec<(String, Option<String>)> = Vec::new();
    labels.push((EGRESS_NODE_STATUS_LABEL.to_owned(), None));
    let patch = ApplyPatch {
        field_manager: FIELD_MANAGER.to_owned(),
        kind: "Node".to_owned(),
        annotations: Vec::new(),
        labels,
    };
    proof {
        let wanted = gateway_status_patch(None);
        assert(patch.annotations.deep_view() =~= wanted.annotations);
        assert(patch.labels.deep_view() =~= wanted.labels);
    }
    patch
}

/// The labels that make a pod or node be reconciled again, for a given random number.
pub fn refresh_labels_for(nonce: u64) -> (r: Vec<(String, String)>)
    ensures
        r.deep_view() == seq![(REFRESH_LABEL@, decimal(nonce as nat))],
{
    let mut labels: Vec<(String, String)> = Vec::new();
    labels.push((REFRESH_LABEL.to_owned(), decimal_text(nonce)));
    assert(labels.deep_view() =~= seq![(REFRESH_LABEL@, decimal(nonce as nat))]);
    labels
}

/// The labels that make a pod or node be reconciled again. The value is random, so that it differs
/// from the one that was there.
pub fn refresh_labels() -> (r: Vec<(String, String)>)
    ensures
        exists|nonce: u64|
            r.deep_view() == seq![(REFRESH_LABEL@, #[trigger] decimal(nonce as nat))],
{
    refresh_labels_for(random_u64())
}

} // verus!

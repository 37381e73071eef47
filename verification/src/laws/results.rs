//! What the functions hand back, told by what they are given.
use crate::agent::{
    get_eni_indexes_for_existing_ip_rules, mark_iptables_rule, new_ip_rule,
    restore_mark_iptables_rule, Agent, AgentView, IpRule, NewIpRule,
};
use crate::aws::{
    allocate_address_tags, default_tag_list, disassociate_eip, find_eni_with_ip,
    get_eni_from_private_ip, get_tag_from_address, is_attached_to, is_orphan, is_populated, new_tag,
    tag_filter, Address, Filter, InstancesDescription, NetworkInterface, Tag,
};
use crate::controller::detach::{
    association_ids, collect_association_ids, start_detach, Detach,
};
use crate::controller::eip::{
    start_apply as start_eip_apply, start_cleanup as start_eip_cleanup, Context as EipContext,
    EipApply, EipCleanup,
};
use crate::controller::node::{
    is_conflict_error, start_apply as start_node_apply, start_cleanup as start_node_cleanup,
    Context as NodeContext, NodeApply, NodeCleanup,
};
use crate::controller::pod::{
    start_apply as start_pod_apply, start_cleanup as start_pod_cleanup, Context as PodContext,
    PodApply, PodCleanup,
};
use crate::controller::{Context, Controller, Event, Reconcile};
use crate::egress::{label_egress_nodes_ready, start_labelling, EgressLabelling};
use crate::eip::{
    eips_claimed_by, eips_for_node, eips_for_pod, first_claimable_eip, label_selector, Eip,
    EipSelector, EipView, ResourceListParams,
};
use crate::error::{Error, ServiceError};
use crate::json::{json_string_map, parse_string_map, string_map_json, string_map_text};
use crate::kube_ext::{Node, NodeView, Pod};
use crate::labels::{
    add_dns_target_annotation, add_gateway_status_label, pod_eni_annotation, refresh_labels_for,
    remove_gateway_status_label, should_autocreate_eip,
};
use crate::laws::agent::{
    is_readable, law_listed_interfaces, lemma_texts, mark_text, restore_text, shows,
};
use crate::laws::course::within;
use crate::laws::lookup::{
    has_address, is_open_to, law_eips_are_chosen_one_by_one, law_first_open_eip_is_taken,
    law_interface_is_found_by_any_address, law_readiness_is_gathered_from_named_nodes,
    law_tag_is_the_first_with_its_key, lemma_selects, selects,
};
use crate::legacy::{
    legacy_allocate_address_tags, start_apply as start_legacy_apply,
    start_cleanup as start_legacy_cleanup, ContextData, LegacyApply, LegacyCleanup,
    LegacyOrphanCleanup, LegacyOrphanCleanupView,
};
use crate::node::{get_nodes_ready_status, get_ready_status_from_node, named_statuses};
use crate::operation::{progress_view, Action, ApiScope, ApplyPatch, Progress};
use crate::orphans::{OrphanCleanup, OrphanCleanupView};
use crate::settings::{
    legacy_settings, operator_settings, tracing_settings, tracing_settings_from, OperatorSettings,
    TracingSettings, TracingVariables,
};
use crate::string_map::{pairs_map, StringMap};
use crate::tasks::{release_all, release_tasks, start_tasks, Task, TaskList};
use crate::telemetry::{
    are_headers, headers_of, is_header, is_metadata_value, is_refusal, metadata_key, read_headers,
};
use crate::text::{
    decimal, decimal_text, law_after_last, lowercase, numeral, numeral_text, opt_eq, str_eq,
    text_after_last,
};
use std::collections::HashSet;
use tonic::transport::Endpoint;
use tracing_subscriber::filter::Targets;
use vstd::prelude::*;

verus! {

// The agent.

/// The routing rule that is made for an interface is about the packets with the interface's mark,
/// and looks up the table whose number lies ten above the interface's.
pub proof fn law_routing_rule_of_an_interface(interface_index: u32, r: NewIpRule)
    requires
        10 + interface_index <= u32::MAX,
        call_ensures(new_ip_rule, (interface_index,), r),
    ensures
        r.table_id == interface_index + 10,
        r.action == 1,
        r.priority == 200,
        r.fw_mark == interface_index,
        r.fw_mask == 15,
{
}

/// The routing rules of two interfaces look up different tables.
pub proof fn law_routing_rules_differ(i: u32, j: u32, r: NewIpRule, s: NewIpRule)
    requires
        10 + i <= u32::MAX,
        10 + j <= u32::MAX,
        i != j,
        call_ensures(new_ip_rule, (i,), r),
        call_ensures(new_ip_rule, (j,), s),
    ensures
        r.table_id != s.table_id,
        r.fw_mark != s.fw_mark,
{
}

/// The texts of the rules of the chain.
pub proof fn law_texts_of_the_chain(interface_index: u32, restore: String, mark: String)
    requires
        call_ensures(restore_mark_iptables_rule, (), restore),
        call_ensures(mark_iptables_rule, (interface_index,), mark),
    ensures
        restore@ == restore_text(),
        mark@ == mark_text(interface_index),
{
    lemma_texts();
}

/// The interfaces that routing rules are found for are those that a listed rule is about.
pub proof fn law_interfaces_with_a_rule(
    rules: Vec<IpRule>,
    r: HashSet<u32>,
    i: u32,
)
    requires
        is_readable(rules.deep_view()),
        call_ensures(get_eni_indexes_for_existing_ip_rules, (&rules,), r),
    ensures
        r@.contains(i) <==> shows(rules.deep_view(), i),
{
    law_listed_interfaces(rules.deep_view());
    assert(call_requires(get_eni_indexes_for_existing_ip_rules, (&rules,)));
}

// Tags.

/// Tags and filters hold the key and the value that they are made of, and the tag of an address
/// under a key is the first one with that key.
pub proof fn law_tags_and_filters(
    address: Address,
    key: &str,
    value: &str,
    i: int,
    made: Tag,
    filter: Filter,
    found: Option<&str>,
)
    requires
        call_ensures(new_tag, (key, value), made),
        call_ensures(tag_filter, (key, value), filter),
        call_ensures(get_tag_from_address, (&address, key), found),
    ensures
        made.key.deep_view() == Some(key@),
        made.value.deep_view() == Some(value@),
        filter.name@ == "tag:"@ + key@,
        filter.value@ == value@,
        address.tags is None ==> found is None,
        address.tags matches Some(tags) ==> (0 <= i < tags.len() && tags.deep_view()[i].key == Some(
            key@,
        ) && (forall|j: int| 0 <= j < i ==> (#[trigger] tags.deep_view()[j]).key != Some(key@))
            ==> found.deep_view() == tags.deep_view()[i].value),
{
    assert(made.deep_view().key == Some(key@));
    assert(filter.deep_view().name == "tag:"@ + key@);
    law_tag_is_the_first_with_its_key(address.deep_view(), key@);
    if let Some(tags) = address.tags {
        assert(address.deep_view().tags == Some(tags.deep_view()));
    }
}

/// The tags of an address for an `Eip`: every default tag in the order given, and then the
/// operator's own.
pub proof fn law_tags_of_an_address(
    eip_uid: &str,
    eip_name: &str,
    selector: EipSelector,
    cluster_name: &str,
    namespace: &str,
    default_tags: Vec<(String, String)>,
    r: Vec<Tag>,
)
    requires
        call_ensures(
            allocate_address_tags,
            (eip_uid, eip_name, &selector, cluster_name, namespace, &default_tags),
            r,
        ),
    ensures
        ({
            let tags = r.deep_view();
            let n = default_tags.len() as int;
            &&& tags.len() == n + 6
            &&& forall|i: int|
                0 <= i < n ==> (#[trigger] tags[i]).key == Some(default_tags[i].0@)
                    && tags[i].value == Some(default_tags[i].1@)
            &&& tags[n].key == Some("eip.materialize.cloud/eip_uid"@)
            &&& tags[n].value == Some(eip_uid@)
            &&& tags[n + 1].key == Some("eip.materialize.cloud/eip_name"@)
            &&& tags[n + 1].value == Some(eip_name@)
            &&& tags[n + 2].key == Some("eip.materialize.cloud/namespace"@)
            &&& tags[n + 2].value == Some(namespace@)
            &&& tags[n + 3].key == Some("eip.materialize.cloud/cluster_name"@)
            &&& tags[n + 3].value == Some(cluster_name@)
            &&& selector matches EipSelector::Pod { pod_name } ==> tags[n + 4].key == Some(
                "eip.materialize.cloud/pod_name"@,
            ) && tags[n + 4].value == Some(pod_name@)
            &&& selector matches EipSelector::Node { selector } ==> tags[n + 4].key == Some(
                "eip.materialize.cloud/node_selector"@,
            ) && tags[n + 4].value == Some(string_map_json(selector@))
            &&& tags[n + 5].key == Some("Name"@)
            &&& tags[n + 5].value == Some(
                "eip-operator:"@ + cluster_name@ + ":"@ + namespace@ + ":"@ + eip_name@,
            )
        }),
{
    assert forall|i: int| 0 <= i < default_tags.len() implies (#[trigger] r.deep_view()[i]).key
        == Some(default_tags[i].0@) && r.deep_view()[i].value == Some(default_tags[i].1@) by {
        assert(default_tags.deep_view()[i] == (default_tags[i].0@, default_tags[i].1@));
    }
}

/// The tags of an address for a pod: every default tag in the order given, and then the operator's
/// own.
pub proof fn law_tags_of_a_bare_address(
    pod_uid: &str,
    pod_name: &str,
    cluster_name: &str,
    default_tags: Vec<(String, String)>,
    r: Vec<Tag>,
)
    requires
        call_ensures(
            legacy_allocate_address_tags,
            (pod_uid, pod_name, cluster_name, &default_tags),
            r,
        ),
    ensures
        ({
            let tags = r.deep_view();
            let n = default_tags.len() as int;
            &&& tags.len() == n + 4
            &&& forall|i: int|
                0 <= i < n ==> (#[trigger] tags[i]).key == Some(default_tags[i].0@)
                    && tags[i].value == Some(default_tags[i].1@)
            &&& tags[n].key == Some("eip.aws.materialize.com/pod_uid"@)
            &&& tags[n].value == Some(pod_uid@)
            &&& tags[n + 1].key == Some("eip.aws.materialize.com/cluster_name"@)
            &&& tags[n + 1].value == Some(cluster_name@)
            &&& tags[n + 2].key == Some("eip.aws.materialize.com/pod_name"@)
            &&& tags[n + 2].value == Some(pod_name@)
            &&& tags[n + 3].key == Some("Name"@)
            &&& tags[n + 3].value == Some("eip-operator:"@ + cluster_name@ + ":"@ + pod_name@)
        }),
{
    assert forall|i: int| 0 <= i < default_tags.len() implies (#[trigger] r.deep_view()[i]).key
        == Some(default_tags[i].0@) && r.deep_view()[i].value == Some(default_tags[i].1@) by {
        assert(default_tags.deep_view()[i] == (default_tags[i].0@, default_tags[i].1@));
    }
}

/// The default tags, every one of them in the order given.
pub proof fn law_default_tags(default_tags: Vec<(String, String)>, r: Vec<Tag>, i: int)
    requires
        call_ensures(default_tag_list, (&default_tags,), r),
        0 <= i < default_tags.len(),
    ensures
        r.len() == default_tags.len(),
        r[i].key.deep_view() == Some(default_tags[i].0@),
        r[i].value.deep_view() == Some(default_tags[i].1@),
{
    assert(r.deep_view()[i] == r[i].deep_view());
}

// Interfaces.

/// An interface is found where one with an id lists the address at any place, and it is the first
/// such one.
pub proof fn law_interface_found(
    interfaces: Vec<NetworkInterface>,
    private_ip: &str,
    r: Option<String>,
    i: int,
)
    requires
        call_ensures(find_eni_with_ip, (&interfaces, private_ip), r),
        0 <= i < interfaces.len(),
        has_address(interfaces[i].deep_view(), private_ip@),
        forall|j: int|
            0 <= j < i ==> !has_address((#[trigger] interfaces[j]).deep_view(), private_ip@),
    ensures
        r.deep_view() == interfaces[i].network_interface_id.deep_view(),
        r is Some,
{
    let all = interfaces.deep_view();
    law_interface_is_found_by_any_address(all, private_ip@);
    assert(all[i] == interfaces[i].deep_view());
    assert forall|j: int| 0 <= j < i implies !has_address(#[trigger] all[j], private_ip@) by {
        assert(all[j] == interfaces[j].deep_view());
    }
    assert(has_address(all[i], private_ip@));
}

/// No interface is found where none with an id lists the address.
pub proof fn law_no_interface_found(
    interfaces: Vec<NetworkInterface>,
    private_ip: &str,
    r: Option<String>,
)
    requires
        call_ensures(find_eni_with_ip, (&interfaces, private_ip), r),
        forall|j: int|
            0 <= j < interfaces.len() ==> !has_address(
                (#[trigger] interfaces[j]).deep_view(),
                private_ip@,
            ),
    ensures
        r is None,
{
    let all = interfaces.deep_view();
    law_interface_is_found_by_any_address(all, private_ip@);
    assert forall|j: int| 0 <= j < all.len() implies !has_address(
        #[trigger] all[j],
        private_ip@,
    ) by {
        assert(all[j] == interfaces[j].deep_view());
    }
}

/// On described instances, the interface is looked for on the first instance of the first
/// reservation; and whether there is a first one can be told.
pub proof fn law_interface_of_an_instance(
    described: InstancesDescription,
    private_ip: &str,
    populated: bool,
    r: Option<String>,
)
    requires
        call_ensures(is_populated, (&described,), populated),
        call_ensures(get_eni_from_private_ip, (&described, private_ip), r),
    ensures
        populated == described.deep_view().is_populated(),
        populated ==> r.deep_view() == described.deep_view().eni(private_ip@),
{
}

/// Whether an address is attached, and how the end of an association is taken.
pub proof fn law_attachment(
    address: Address,
    eni_id: &str,
    private_ip: &str,
    attached: bool,
    response: Result<(), ServiceError>,
    r: Result<(), Error>,
)
    requires
        call_ensures(is_attached_to, (&address, eni_id, private_ip), attached),
        call_ensures(disassociate_eip, (response,), r),
    ensures
        attached <==> address.network_interface_id.deep_view() == Some(eni_id@)
            && address.private_ip_address.deep_view() == Some(private_ip@),
        response is Ok ==> r is Ok,
        response matches Err(e) ==> (if e.code.deep_view() == Some(
            "InvalidAssociationID.NotFound"@,
        ) {
            r is Ok
        } else {
            r == Err::<(), Error>(Error::AwsDisassociateAddress { source: e })
        }),
{
    assert(address.deep_view().network_interface_id == address.network_interface_id.deep_view());
}

// Eips.

/// What is told of one `Eip`.
pub proof fn law_told_of_an_eip(
    eip: Eip,
    name: &str,
    labels: Option<&StringMap>,
    address: Option<&String>,
    names_pod: bool,
    selects_node: bool,
    claimed: bool,
    claimable: bool,
)
    requires
        call_ensures(Eip::allocation_id, (&eip,), address),
        call_ensures(Eip::matches_pod, (&eip, name), names_pod),
        call_ensures(Eip::matches_node, (&eip, labels), selects_node),
        call_ensures(Eip::is_claimed_by, (&eip, name), claimed),
        call_ensures(Eip::is_claimable_by, (&eip, name), claimable),
    ensures
        eip.status is None ==> address is None && !claimed && !claimable,
        eip.status matches Some(status) ==> {
            &&& address.deep_view() == status.allocation_id.deep_view()
            &&& claimed <==> status.resource_id.deep_view() == Some(name@)
            &&& claimable <==> status.resource_id is None || status.resource_id.deep_view() == Some(
                name@,
            )
        },
        names_pod <==> (eip.selector matches EipSelector::Pod { pod_name } && pod_name@ == name@),
        selects_node <==> selects(eip.deep_view(), labels.deep_view()),
{
    lemma_selects(eip.deep_view(), labels.deep_view());
    if let Some(status) = eip.status {
        assert(eip.deep_view().status == Some(status.deep_view()));
    }
}

/// The `Eip`s that are chosen from one listed behind others: what was chosen from the others, and
/// that one if it is meant.
pub proof fn law_chosen_eips(
    eips: Vec<Eip>,
    more: Vec<Eip>,
    last: EipView,
    name: &str,
    labels: Option<&StringMap>,
    for_pod: (Vec<Eip>, Vec<Eip>),
    for_node: (Vec<Eip>, Vec<Eip>),
    claimed: (Vec<Eip>, Vec<Eip>),
)
    requires
        more.deep_view() == eips.deep_view().push(last),
        call_ensures(eips_for_pod, (&eips, name), for_pod.0),
        call_ensures(eips_for_pod, (&more, name), for_pod.1),
        call_ensures(eips_for_node, (&eips, labels), for_node.0),
        call_ensures(eips_for_node, (&more, labels), for_node.1),
        call_ensures(eips_claimed_by, (&eips, name), claimed.0),
        call_ensures(eips_claimed_by, (&more, name), claimed.1),
    ensures
        for_pod.1.deep_view() == (if last.selector is Pod && last.selector->pod_name == name@ {
            for_pod.0.deep_view().push(last)
        } else {
            for_pod.0.deep_view()
        }),
        for_node.1.deep_view() == (if selects(last, labels.deep_view()) {
            for_node.0.deep_view().push(last)
        } else {
            for_node.0.deep_view()
        }),
        claimed.1.deep_view() == (if last.status is Some && (last.status->0).resource_id == Some(
            name@,
        ) {
            claimed.0.deep_view().push(last)
        } else {
            claimed.0.deep_view()
        }),
{
    law_eips_are_chosen_one_by_one(
        eips.deep_view(),
        last,
        name@,
        labels.deep_view(),
    );
}

/// What a resource takes is the first `Eip` listed whose status records no resource or that one.
pub proof fn law_taken_eip(eips: Vec<Eip>, resource: &str, r: Option<&Eip>, i: int)
    requires
        call_ensures(first_claimable_eip, (&eips, resource), r),
        0 <= i < eips.len(),
        is_open_to(eips[i].deep_view(), resource@),
        forall|j: int| 0 <= j < i ==> !is_open_to((#[trigger] eips[j]).deep_view(), resource@),
    ensures
        r.deep_view() == Some(eips[i].deep_view()),
{
    let all = eips.deep_view();
    law_first_open_eip_is_taken(all, resource@);
    assert(all[i] == eips[i].deep_view());
    assert forall|j: int| 0 <= j < i implies !is_open_to(#[trigger] all[j], resource@) by {
        assert(all[j] == eips[j].deep_view());
    }
    assert(is_open_to(all[i], resource@));
}

/// The pod of a selector is listed by its name, the nodes by the labels that are asked for.
pub proof fn law_listing_of_resources(selector: EipSelector, r: ResourceListParams)
    requires
        call_ensures(EipSelector::get_resource_list_params, (&selector,), r),
    ensures
        selector matches EipSelector::Pod { pod_name } ==> r.field_selector.deep_view() == Some(
            "metadata.name="@ + pod_name@,
        ) && r.label_selector is None,
        selector matches EipSelector::Node { selector: labels } ==> r.label_selector.deep_view()
            == Some(label_selector(labels.listed())) && r.field_selector is None,
{
}

// Pods and nodes.

/// What is told of a pod.
pub proof fn law_told_of_a_pod(
    pod: Pod,
    ip: Option<&str>,
    node_name: Option<&str>,
    wants: bool,
    interfaces: Option<&String>,
)
    requires
        call_ensures(Pod::ip, (&pod,), ip),
        call_ensures(Pod::node_name, (&pod,), node_name),
        call_ensures(should_autocreate_eip, (&pod,), wants),
        call_ensures(pod_eni_annotation, (&pod,), interfaces),
    ensures
        pod.status is None ==> ip is None,
        pod.status matches Some(status) ==> ip.deep_view() == status.pod_ip.deep_view(),
        pod.spec is None ==> node_name is None,
        pod.spec matches Some(spec) ==> node_name.deep_view() == spec.node_name.deep_view(),
        wants <==> (pod.labels matches Some(labels) && labels@.contains_key(
            "eip.materialize.cloud/autocreate_eip"@,
        ) && lowercase(labels@["eip.materialize.cloud/autocreate_eip"@]) == "true"@),
        interfaces.deep_view() == (match pod.annotations {
            Some(annotations) => if annotations@.contains_key("vpc.amazonaws.com/pod-eni"@) {
                Some(annotations@["vpc.amazonaws.com/pod-eni"@])
            } else {
                None
            },
            None => None,
        }),
{
    if let Some(status) = pod.status {
        assert(pod.deep_view().status == Some(status.deep_view()));
    }
    if let Some(spec) = pod.spec {
        assert(pod.deep_view().spec == Some(spec.deep_view()));
    }
    if let Some(labels) = pod.labels {
        assert(pod.deep_view().labels == Some(labels@));
    }
    if let Some(annotations) = pod.annotations {
        assert(pod.deep_view().annotations == Some(annotations@));
    }
}

/// What is told of a node.
pub proof fn law_told_of_a_node(
    node: Node,
    ip: Option<&str>,
    provider_id: Option<&str>,
    labels: Option<&StringMap>,
    ready: Option<String>,
)
    requires
        call_ensures(Node::ip, (&node,), ip),
        call_ensures(Node::provider_id, (&node,), provider_id),
        call_ensures(Node::labels, (&node,), labels),
        call_ensures(get_ready_status_from_node, (&node,), ready),
    ensures
        ip.deep_view() == node.deep_view().ip(),
        provider_id.deep_view() == node.deep_view().provider_id(),
        labels.deep_view() == node.deep_view().labels,
        ready.deep_view() == node.deep_view().ready_status(),
{
}

/// The patches that publish an address on a pod and that set or remove the egress label of a node.
pub proof fn law_patches_made(
    public_ip: &str,
    allocation_id: &str,
    status: &str,
    publish: ApplyPatch,
    set_label: ApplyPatch,
    drop_label: ApplyPatch,
)
    requires
        call_ensures(add_dns_target_annotation, (public_ip, allocation_id), publish),
        call_ensures(add_gateway_status_label, (status,), set_label),
        call_ensures(remove_gateway_status_label, (), drop_label),
    ensures
        publish.deep_view().field_manager == "eip.materialize.cloud"@,
        publish.deep_view().kind == "Pod"@,
        publish.deep_view().labels.len() == 0,
        publish.deep_view().annotations == seq![
            ("eip.materialize.cloud/allocation_id"@, allocation_id@),
            ("external-dns.alpha.kubernetes.io/target"@, public_ip@),
        ],
        set_label.deep_view().field_manager == "eip.materialize.cloud"@,
        set_label.deep_view().kind == "Node"@,
        set_label.deep_view().annotations.len() == 0,
        set_label.deep_view().labels == seq![
            ("egress-gateway.materialize.cloud/ready-status"@, Some(lowercase(status@))),
        ],
        drop_label.deep_view().field_manager == "eip.materialize.cloud"@,
        drop_label.deep_view().kind == "Node"@,
        drop_label.deep_view().annotations.len() == 0,
        drop_label.deep_view().labels == seq![
            ("egress-gateway.materialize.cloud/ready-status"@, None::<Seq<char>>),
        ],
{
}

/// The label that makes a pod or node be reconciled again holds a number.
pub proof fn law_refresh_label(nonce: u64, r: Vec<(String, String)>)
    requires
        call_ensures(refresh_labels_for, (nonce,), r),
    ensures
        r.len() == 1,
        r[0].0@ == "eip.materialize.cloud/refresh"@,
        r[0].1@ == decimal(nonce as nat),
{
    assert(r.deep_view().len() == 1);
    assert(r.deep_view()[0] == (r[0].0@, r[0].1@));
}

// Addresses that are given back.

/// Whether an address is an orphan, which associations addresses have, and what it takes to give
/// them back.
pub proof fn law_giving_back(
    address: Address,
    owner_tag: &str,
    live: Vec<String>,
    orphan: bool,
    addresses: Vec<Address>,
    must_exist: bool,
    tasks: Vec<Task>,
    ids: Vec<String>,
)
    requires
        call_ensures(is_orphan, (&address, owner_tag, &live), orphan),
        call_ensures(release_tasks, (&addresses, must_exist), tasks),
        call_ensures(collect_association_ids, (&addresses,), ids),
    ensures
        orphan <==> (address.deep_view().tag(owner_tag@) is None || !live.deep_view().contains(
            address.deep_view().tag(owner_tag@)->0,
        )),
        tasks.deep_view() == release_all(addresses.deep_view(), must_exist),
        ids.deep_view() == association_ids(addresses.deep_view()),
{
}

// Beginnings.

/// How the operations on pods begin.
pub proof fn law_pods_begin(
    pod: Pod,
    apply: Progress<PodApply, Option<Action>>,
    cleanup: Progress<PodCleanup, Option<Action>>,
)
    requires
        pod.name is Some,
        pod.namespace is Some,
        call_ensures(PodApply::start, (&pod,), apply),
        call_ensures(PodCleanup::start, (&pod,), cleanup),
    ensures
        progress_view(apply) == start_pod_apply(pod.deep_view()),
        progress_view(cleanup) == start_pod_cleanup(pod.deep_view()),
{
}

/// How the operations on nodes begin.
pub proof fn law_nodes_begin(
    node: Node,
    namespace: Option<String>,
    apply: Progress<NodeApply, Option<Action>>,
    cleanup: Progress<NodeCleanup, Option<Action>>,
)
    requires
        node.name is Some,
        call_ensures(NodeApply::start, (&node, &namespace), apply),
        call_ensures(NodeCleanup::start, (&node, &namespace), cleanup),
    ensures
        progress_view(apply) == start_node_apply(node.deep_view(), namespace.deep_view()),
        progress_view(cleanup) == start_node_cleanup(node.deep_view(), namespace.deep_view()),
{
}

/// How the operations on `Eip`s begin.
pub proof fn law_eips_begin(
    eip: Eip,
    cluster_name: &str,
    default_tags: Vec<(String, String)>,
    node: Option<Node>,
    apply: Progress<EipApply, Option<Action>>,
    cleanup: Progress<EipCleanup, Option<Action>>,
    labelling: Progress<EgressLabelling, ()>,
)
    requires
        eip.namespace is Some,
        eip.name is Some,
        node.deep_view() matches Some(n) ==> n.name is Some,
        call_ensures(EipApply::start, (eip, cluster_name, default_tags), apply),
        call_ensures(EipCleanup::start, (&eip,), cleanup),
        call_ensures(label_egress_nodes_ready, (&eip, &node), labelling),
    ensures
        progress_view(apply) == start_eip_apply(
            eip.deep_view(),
            cluster_name@,
            default_tags.deep_view(),
        ),
        progress_view(cleanup) == start_eip_cleanup(eip.deep_view()),
        progress_view(labelling) == start_labelling(eip.deep_view(), node.deep_view()),
{
}

/// How the operations on pods that have an address without an `Eip` begin, and how orphans are
/// cleaned up.
pub proof fn law_others_begin(
    pod: Pod,
    namespace: &str,
    cluster_name: &str,
    default_tags: Vec<(String, String)>,
    within_one: Option<String>,
    apply: Progress<LegacyApply, Action>,
    cleanup: Progress<LegacyCleanup, Action>,
    bare_orphans: Progress<LegacyOrphanCleanup, ()>,
    orphans: Progress<OrphanCleanup, ()>,
)
    requires
        call_ensures(LegacyApply::start, (&pod, namespace, cluster_name, default_tags), apply),
        call_ensures(LegacyCleanup::cleanup_pod_eip, (&pod,), cleanup),
        call_ensures(LegacyOrphanCleanup::cleanup_orphan_eips, (cluster_name,), bare_orphans),
        call_ensures(OrphanCleanup::start, (cluster_name, within_one), orphans),
    ensures
        progress_view(apply) == start_legacy_apply(
            pod.deep_view(),
            namespace@,
            cluster_name@,
            default_tags.deep_view(),
        ),
        progress_view(cleanup) == start_legacy_cleanup(pod.deep_view()),
        progress_view(bare_orphans) == Progress::<LegacyOrphanCleanupView, ()>::Pending(
            LegacyOrphanCleanupView::Describing { cluster_name: cluster_name@ },
        ),
        progress_view(orphans) == Progress::<OrphanCleanupView, ()>::Pending(
            OrphanCleanupView::Describing {
                cluster_name: cluster_name@,
                namespace: within_one.deep_view(),
            },
        ),
{
}

/// How detaching, a list of tasks and the agent begin.
pub proof fn law_parts_begin(
    scope: ApiScope,
    eips: Vec<Eip>,
    tasks: Vec<Task>,
    end: Option<Error>,
    detach: Progress<Detach, ()>,
    list: Progress<TaskList, ()>,
    agent: Agent,
)
    requires
        call_ensures(Detach::start, (scope, eips), detach),
        call_ensures(TaskList::start, (tasks, end), list),
        call_ensures(Agent::start, (), agent),
    ensures
        progress_view(detach) == start_detach(scope.deep_view(), eips.deep_view()),
        progress_view(list) == start_tasks(tasks.deep_view(), end),
        agent.deep_view() == AgentView::LookingForChain,
{
}

// Times.

/// After success a resource is looked at again within forty to sixty minutes, unless its outcome
/// says otherwise, and after a failure within four to eight seconds.
pub proof fn law_waiting_times(
    pods: PodContext,
    nodes: NodeContext,
    eips: EipContext,
    outcome: Option<Action>,
    r: Action,
)
    ensures
        call_ensures(PodContext::on_success, (&pods,), r) || call_ensures(
            NodeContext::on_success,
            (&nodes,),
            r,
        ) || call_ensures(EipContext::on_success, (&eips,), r) ==> r.requeue_after_millis is Some
            && 2_400_000 <= r.requeue_after_millis->0 < 3_600_000,
        call_ensures(PodContext::on_error, (&pods,), r) || call_ensures(
            NodeContext::on_error,
            (&nodes,),
            r,
        ) || call_ensures(EipContext::on_error, (&eips,), r) ==> r.requeue_after_millis is Some
            && 4000 <= r.requeue_after_millis->0 < 8000,
        call_ensures(PodContext::on_outcome, (&pods, outcome), r) && outcome is Some ==> Some(r)
            == outcome,
        call_ensures(NodeContext::on_outcome, (&nodes, outcome), r) && outcome is Some ==> Some(r)
            == outcome,
        call_ensures(EipContext::on_outcome, (&eips, outcome), r) && outcome is Some ==> Some(r)
            == outcome,
        outcome is None && (call_ensures(PodContext::on_outcome, (&pods, outcome), r)
            || call_ensures(NodeContext::on_outcome, (&nodes, outcome), r) || call_ensures(
            EipContext::on_outcome,
            (&eips, outcome),
            r,
        )) ==> r.requeue_after_millis is Some && 2_400_000 <= r.requeue_after_millis->0
            < 3_600_000,
{
}

/// A resource in a namespace is looked up there, any other among all.
pub proof fn law_where_resources_are_looked_up(
    pods: Controller<PodContext>,
    pod: Pod,
    eips: Controller<EipContext>,
    eip: Eip,
    nodes: Controller<NodeContext>,
    node: Node,
    pod_scope: ApiScope,
    eip_scope: ApiScope,
    node_scope: ApiScope,
)
    requires
        pods.is_namespaced && pod.namespace is Some,
        eips.is_namespaced && eip.namespace is Some,
        !nodes.is_namespaced,
        call_ensures(Controller::<PodContext>::make_api, (&pods, &pod), pod_scope),
        call_ensures(Controller::<EipContext>::make_api, (&eips, &eip), eip_scope),
        call_ensures(Controller::<NodeContext>::make_api, (&nodes, &node), node_scope),
    ensures
        pod_scope.deep_view() == within(pod.namespace.deep_view()),
        eip_scope.deep_view() == within(eip.namespace.deep_view()),
        node_scope.deep_view() == within(None),
{
    assert(pod.deep_view().namespace == pod.namespace.deep_view());
    assert(eip.deep_view().namespace == eip.namespace.deep_view());
}

/// Whether reconciling begins as seeing to a resource does.
pub open spec fn sees_to<A, C, T>(
    reconciling: Progress<Reconcile<A, C>, T>,
    start: Progress<A, T>,
) -> bool {
    match start {
        Progress::Pending(a) => reconciling is Pending && reconciling->Pending_0 is Applying
            && reconciling->Pending_0->Applying_0 == a,
        Progress::Finished(outcome) => reconciling is Finished && reconciling->Finished_0
            == outcome,
    }
}

/// Whether reconciling begins as cleaning up behind a resource does.
pub open spec fn cleans_up<A, C, T>(
    reconciling: Progress<Reconcile<A, C>, T>,
    start: Progress<C, T>,
) -> bool {
    match start {
        Progress::Pending(c) => reconciling is Pending && reconciling->Pending_0 is CleaningUp
            && reconciling->Pending_0->CleaningUp_0 == c,
        Progress::Finished(outcome) => reconciling is Finished && reconciling->Finished_0
            == outcome,
    }
}

/// Reconciling starts with seeing to a resource that is there, and with cleaning up behind one that
/// is going away.
pub proof fn law_reconciling_begins(
    data: ContextData,
    pod: Pod,
    event: Event<Pod>,
    r: Progress<Reconcile<LegacyApply, LegacyCleanup>, Action>,
)
    requires
        call_ensures(ContextData::reconcile, (&data, &event), r),
    ensures
        event == Event::Apply(pod) ==> sees_to(
            progress_view(r),
            start_legacy_apply(
                pod.deep_view(),
                data.namespace@,
                data.cluster_name@,
                data.default_tags.listed(),
            ),
        ),
        event == Event::Cleanup(pod) ==> cleans_up(
            progress_view(r),
            start_legacy_cleanup(pod.deep_view()),
        ),
{
}

/// So it does for pods and nodes.
pub proof fn law_reconciling_begins_with_the_event(
    pods: PodContext,
    pod: Pod,
    pod_event: Event<Pod>,
    of_pod: Progress<Reconcile<PodApply, PodCleanup>, Option<Action>>,
    nodes: NodeContext,
    node: Node,
    node_event: Event<Node>,
    of_node: Progress<Reconcile<NodeApply, NodeCleanup>, Option<Action>>,
)
    requires
        pod.name is Some && pod.namespace is Some,
        pod_event == Event::Apply(pod) || pod_event == Event::Cleanup(pod),
        call_ensures(PodContext::reconcile, (&pods, &pod_event), of_pod),
        node.name is Some,
        node_event == Event::Apply(node) || node_event == Event::Cleanup(node),
        call_ensures(NodeContext::reconcile, (&nodes, &node_event), of_node),
    ensures
        pod_event == Event::Apply(pod) ==> sees_to(
            progress_view(of_pod),
            start_pod_apply(pod.deep_view()),
        ),
        pod_event == Event::Cleanup(pod) ==> cleans_up(
            progress_view(of_pod),
            start_pod_cleanup(pod.deep_view()),
        ),
        node_event == Event::Apply(node) ==> sees_to(
            progress_view(of_node),
            start_node_apply(node.deep_view(), nodes.namespace.deep_view()),
        ),
        node_event == Event::Cleanup(node) ==> cleans_up(
            progress_view(of_node),
            start_node_cleanup(node.deep_view(), nodes.namespace.deep_view()),
        ),
{
}

/// The readiness of nodes is gathered by their names, the last node of a name counting; a named
/// node whose readiness is not known is an error.
pub proof fn law_readiness_of_nodes(
    nodes: Vec<Node>,
    r: Result<StringMap, Error>,
    i: int,
    name: Seq<char>,
)
    requires
        call_ensures(get_nodes_ready_status, (&nodes,), r),
    ensures
        r is Err <==> exists|k: int|
            0 <= k < nodes.len() && (#[trigger] nodes.deep_view()[k]).name is Some
                && nodes.deep_view()[k].ready_status() is None,
        r matches Err(e) ==> e == Error::MissingNodeReadyCondition,
        r matches Ok(statuses) ==> (0 <= i < nodes.len() && nodes.deep_view()[i].name == Some(name)
            && (forall|j: int|
            i < j < nodes.len() ==> (#[trigger] nodes.deep_view()[j]).name != Some(name))
            ==> statuses@.contains_key(name) && Some(statuses@[name])
            == nodes.deep_view()[i].ready_status()),
{
    let all = nodes.deep_view();
    if r is Ok && 0 <= i < nodes.len() && all[i].name == Some(name) && (forall|j: int|
        i < j < nodes.len() ==> (#[trigger] all[j]).name != Some(name)) {
        lemma_last_named(all, i, name);
        assert(all[i].ready_status() is Some);
    }
}

proof fn lemma_last_named(nodes: Seq<NodeView>, i: int, name: Seq<char>)
    requires
        0 <= i < nodes.len(),
        nodes[i].name == Some(name),
        forall|j: int| i < j < nodes.len() ==> (#[trigger] nodes[j]).name != Some(name),
    ensures
        pairs_map(named_statuses(nodes)).contains_key(name),
        pairs_map(named_statuses(nodes))[name] == nodes[i].ready_status()->0,
    decreases nodes.len(),
{
    let front = nodes.drop_last();
    let last = nodes.last();
    assert(nodes =~= front.push(last));
    law_readiness_is_gathered_from_named_nodes(front, last);
    let before = named_statuses(front);
    let after = named_statuses(nodes);
    if last.name is Some {
        let pair = (last.name->0, last.ready_status()->0);
        assert(after == before.push(pair));
        assert(after.drop_last() =~= before);
        assert(after.last() == pair);
        assert(pairs_map(after) == pairs_map(before).insert(pair.0, pair.1));
    }
    if i < front.len() {
        assert(nodes[nodes.len() - 1].name != Some(name));
        assert(front[i] == nodes[i]);
        assert forall|j: int| i < j < front.len() implies (#[trigger] front[j]).name != Some(
            name,
        ) by {
            assert(nodes[j].name != Some(name));
        }
        lemma_last_named(front, i, name);
    }
}

/// The operator for clusters without `Eip` resources tries again after five seconds.
pub proof fn law_waiting_time_of_a_bare_pod(data: ContextData, r: Action)
    requires
        call_ensures(ContextData::on_error, (&data,), r),
    ensures
        r.requeue_after_millis == Some(5000u64),
{
}

/// Times to wait are counted in milliseconds, and a conflict is told by its reason.
pub proof fn law_waiting_and_conflicts(n: u64, a: Action, b: Action, e: Error, conflict: bool)
    requires
        n * 1000 <= u64::MAX,
        call_ensures(Action::requeue_millis, (n,), a),
        call_ensures(Action::requeue_secs, (n,), b),
        call_ensures(is_conflict_error, (&e,), conflict),
    ensures
        a.requeue_after_millis == Some(n),
        b.requeue_after_millis == Some((n * 1000) as u64),
        conflict <==> (e matches Error::Kube { source } && source.reason.deep_view() == Some(
            "Conflict"@,
        )),
{
}

// Settings.

/// What the operator is told is taken as it is; without default tags there are those of an empty
/// object.
pub proof fn law_operator_is_told(
    namespace: Option<String>,
    cluster_name: String,
    default_tags: Option<String>,
    r: Result<OperatorSettings, Error>,
)
    requires
        call_ensures(operator_settings, (namespace, cluster_name, default_tags), r),
    ensures
        ({
            let text = match default_tags {
                Some(text) => text@,
                None => "{}"@,
            };
            match json_string_map(text) {
                Ok(tags) => r is Ok && r->Ok_0.namespace == namespace && r->Ok_0.cluster_name
                    == cluster_name && r->Ok_0.default_tags@ == tags,
                Err(words) => r is Err && r->Err_0 is SerdeJson && r->Err_0->SerdeJson_source@
                    == words,
            }
        }),
{
}

/// So is what the operator for clusters without `Eip` resources is told, except that it works in
/// the namespace `default` where none is given.
pub proof fn law_bare_operator_is_told(
    namespace: Option<String>,
    cluster_name: String,
    default_tags: Option<String>,
    r: Result<ContextData, Error>,
)
    requires
        call_ensures(legacy_settings, (namespace, cluster_name, default_tags), r),
    ensures
        ({
            let text = match default_tags {
                Some(text) => text@,
                None => "{}"@,
            };
            match json_string_map(text) {
                Ok(tags) => {
                    &&& r is Ok
                    &&& namespace matches Some(given) ==> r->Ok_0.namespace@ == given@
                    &&& namespace is None ==> r->Ok_0.namespace@ == "default"@
                    &&& r->Ok_0.cluster_name == cluster_name
                    &&& r->Ok_0.default_tags@ == tags
                },
                Err(words) => r is Err && r->Err_0 is SerdeJson && r->Err_0->SerdeJson_source@
                    == words,
            }
        }),
{
}

/// Which resources the controllers watch: pods and `Eip`s in the namespace that is given or else in
/// all, and nodes everywhere; pods and nodes only where they ask to be managed.
pub proof fn law_controllers_watch(
    settings: OperatorSettings,
    pods: Controller<PodContext>,
    nodes: Controller<NodeContext>,
    eips: Controller<EipContext>,
)
    requires
        call_ensures(OperatorSettings::pod_controller, (&settings,), pods),
        call_ensures(OperatorSettings::node_controller, (&settings,), nodes),
        call_ensures(OperatorSettings::eip_controller, (&settings,), eips),
    ensures
        pods.watched.deep_view() == within(settings.namespace.deep_view()),
        pods.is_namespaced,
        pods.list_params.labels.deep_view() == Some("eip.materialize.cloud/manage"@),
        nodes.watched.deep_view() == within(None),
        !nodes.is_namespaced,
        nodes.list_params.labels.deep_view() == Some("eip.materialize.cloud/manage"@),
        nodes.context.namespace == settings.namespace,
        eips.watched.deep_view() == within(settings.namespace.deep_view()),
        eips.is_namespaced,
        eips.list_params.labels is None,
        eips.context.cluster_name == settings.cluster_name,
        eips.context.default_tags@ == settings.default_tags@,
{
}

/// Traces carry the fields that are given and then the name of the service, and one in twenty is
/// sent where no rate is given.
pub proof fn law_traces(
    level_targets: Targets,
    endpoint: Endpoint,
    headers: Vec<(String, String)>,
    fields: StringMap,
    sample_rate: Option<String>,
    service_name: &str,
    r: TracingSettings,
)
    requires
        call_ensures(
            tracing_settings_from,
            (level_targets, endpoint, headers, fields, sample_rate, service_name),
            r,
        ),
    ensures
        r.level_targets == level_targets,
        r.endpoint == endpoint,
        r.headers == headers,
        r.attributes.deep_view() == fields.listed().push(("service.name"@, service_name@)),
        sample_rate matches Some(given) ==> r.sample_rate@ == given@,
        sample_rate is None ==> r.sample_rate@ == "0.05"@,
{
}

/// Headers are read where each has a key and a value that may stand in one; what is refused is the
/// first that has not, and its key before its value.
pub proof fn law_headers_are_read(
    pairs: Vec<(String, String)>,
    r: Result<Vec<(String, String)>, Error>,
)
    requires
        call_ensures(read_headers, (&pairs,), r),
    ensures
        r is Ok <==> forall|i: int|
            0 <= i < pairs.len() ==> metadata_key((#[trigger] pairs.deep_view()[i]).0) is Some
                && is_metadata_value(pairs.deep_view()[i].1),
        r matches Ok(headers) ==> headers.deep_view() == headers_of(pairs.deep_view()),
        r matches Err(e) ==> exists|i: int|
            {
                &&& 0 <= i < pairs.len()
                &&& forall|j: int|
                    0 <= j < i ==> metadata_key((#[trigger] pairs.deep_view()[j]).0) is Some
                        && is_metadata_value(pairs.deep_view()[j].1)
                &&& metadata_key((#[trigger] pairs.deep_view()[i]).0) is None ==> e
                    is TonicInvalidMetadataKey
                &&& metadata_key(pairs.deep_view()[i].0) is Some ==> !is_metadata_value(
                    pairs.deep_view()[i].1,
                ) && e is TonicInvalidMetadataValue
            },
{
    let all = pairs.deep_view();
    if let Err(e) = r {
        let i = choose|i: int|
            0 <= i < all.len() && !is_header(#[trigger] all[i]) && are_headers(all.take(i))
                && is_refusal(all[i], e);
        assert forall|j: int| 0 <= j < i implies metadata_key((#[trigger] all[j]).0) is Some
            && is_metadata_value(all[j].1) by {
            assert(all.take(i)[j] == all[j]);
            assert(is_header(all.take(i)[j]));
        }
        assert(metadata_key(all[i].0) is None ==> e is TonicInvalidMetadataKey);
    }
    if r is Ok {
        assert forall|i: int| 0 <= i < all.len() implies metadata_key((#[trigger] all[i]).0) is Some
            && is_metadata_value(all[i].1) by {
            assert(is_header(all[i]));
        }
    }
}

/// Without a place to send them to, no traces are sent.
pub proof fn law_no_traces_without_a_place(
    variables: TracingVariables,
    service_name: &str,
    r: Result<Option<TracingSettings>, Error>,
)
    requires
        variables.endpoint is None,
        call_ensures(tracing_settings, (variables, service_name), r),
    ensures
        r is Ok && r->Ok_0 is None,
{
}

// Texts and maps.

/// Texts are compared by what they hold, and numbers are written by their numerals.
pub proof fn law_texts(
    a: &str,
    b: &str,
    o: Option<String>,
    n: u64,
    base: u64,
    c: char,
    same: bool,
    same_option: bool,
    digits: String,
    digits_in_base: String,
    tail: Option<&str>,
)
    requires
        2 <= base <= 16,
        call_ensures(str_eq, (a, b), same),
        call_ensures(opt_eq, (&o, b), same_option),
        call_ensures(decimal_text, (n,), digits),
        call_ensures(numeral_text, (n, base), digits_in_base),
        call_ensures(text_after_last, (a, c), tail),
    ensures
        same <==> a@ == b@,
        same_option <==> o.deep_view() == Some(b@),
        digits@ == numeral(n as nat, 10),
        digits_in_base@ == numeral(n as nat, base as nat),
        tail is None <==> !a@.contains(c),
        tail matches Some(t) ==> !t@.contains(c) && a@ == a@.take(a@.len() - t@.len() - 1) + seq![
            c,
        ] + t@,
{
    law_after_last(a@, c);
}

/// A map is read from and written as a JSON object, holds what is looked up in it, and is contained
/// in another where that holds each of its entries.
pub proof fn law_maps(
    text: &str,
    map: StringMap,
    other: StringMap,
    key: &str,
    read: Result<StringMap, Error>,
    written: String,
    found: Option<&String>,
    contained: bool,
)
    requires
        call_ensures(parse_string_map, (text,), read),
        call_ensures(string_map_text, (&map,), written),
        call_ensures(StringMap::get, (&map, key), found),
        call_ensures(StringMap::is_contained_in, (&map, &other), contained),
    ensures
        match json_string_map(text@) {
            Ok(m) => read is Ok && read->Ok_0@ == m,
            Err(words) => read is Err && read->Err_0 is SerdeJson && read->Err_0->SerdeJson_source@
                == words,
        },
        written@ == string_map_json(map@),
        found.deep_view() == (if map@.contains_key(key@) {
            Some(map@[key@])
        } else {
            None
        }),
        contained <==> forall|k: Seq<char>| #[trigger]
            map@.contains_key(k) ==> other@.contains_key(k) && other@[k] == map@[k],
{
    if forall|k: Seq<char>| #[trigger]
        map@.contains_key(k) ==> other@.contains_key(k) && other@[k] == map@[k] {
        assert(map@.submap_of(other@));
    }
    if map@.submap_of(other@) {
        assert forall|k: Seq<char>| #[trigger] map@.contains_key(k) implies other@.contains_key(k)
            && other@[k] == map@[k] by {}
    }
}

} // verus!

//! What is found among the things that are listed and described, in terms of what they hold.
use crate::aws::{
    eni_with_ip, orphans, AddressView, FilterView, InstancesDescriptionView, NetworkInterfaceView,
    PrivateIpAddressView, TagView,
};
use crate::controller::detach::association_ids;
use crate::controller::eip::{
    any_named, names_of, recorded_association, recorded_resource, uid_filters,
};
use crate::egress::{egress_selector, is_other_node, other_nodes, ClaimedNodeView};
use crate::eip::{
    claimed_by, first_claimable, for_node, for_pod, label_selector, EipSelectorView, EipView,
};
use crate::error::Error;
use crate::kube_ext::{NodeAddressView, NodeConditionView, NodeView, PodView};
use crate::labels::{dns_target_patch, gateway_status_patch};
use crate::legacy::{eni_or_error, pod_uid_filters, pod_uids};
use crate::node::{is_named, named_statuses};
use crate::operation::{ApiScopeView, MatchedResourceView, PatchOperationView, RequestView};
use crate::orphans::{cluster_filters, eip_uids, legacy_cluster_filters, unfinalize_plan};
use crate::search::{
    law_first_where, law_first_where_is_first, lemma_filter_members, lemma_filter_push,
};
use crate::tasks::{release_all, TaskView};
use crate::text::{decimal, lowercase};
use vstd::prelude::*;

verus! {

// Tags.

/// The tag of an address under a key is the first one with that key.
pub proof fn law_tag_is_the_first_with_its_key(address: AddressView, key: Seq<char>)
    ensures
        address.tags is None ==> address.tag(key) is None,
        address.tags matches Some(tags) ==> {
            &&& (forall|i: int| 0 <= i < tags.len() ==> (#[trigger] tags[i]).key != Some(key))
                ==> address.tag(key) is None
            &&& forall|i: int|
                0 <= i < tags.len() && (#[trigger] tags[i]).key == Some(key) && (forall|j: int|
                    0 <= j < i ==> (#[trigger] tags[j]).key != Some(key)) ==> address.tag(key)
                    == tags[i].value
        },
{
    if let Some(tags) = address.tags {
        law_first_where_is_first(tags, |t: TagView| t.key == Some(key));
    }
}

/// The filters that addresses are asked for with name the tags that addresses are given.
pub proof fn law_filters_name_the_tags(
    uid: Seq<char>,
    cluster_name: Seq<char>,
    namespace: Seq<char>,
)
    ensures
        uid_filters(uid) == seq![
            (FilterView { name: "tag:"@ + "eip.materialize.cloud/eip_uid"@, value: uid }),
        ],
        cluster_filters(cluster_name, None) == seq![
            (FilterView {
                name: "tag:"@ + "eip.materialize.cloud/cluster_name"@,
                value: cluster_name,
            }),
        ],
        cluster_filters(cluster_name, Some(namespace)) == seq![
            (FilterView {
                name: "tag:"@ + "eip.materialize.cloud/cluster_name"@,
                value: cluster_name,
            }),
            (FilterView {
                name: "tag:"@ + "eip.materialize.cloud/namespace"@,
                value: namespace,
            }),
        ],
        legacy_cluster_filters(cluster_name) == seq![
            (FilterView {
                name: "tag:"@ + "eip.aws.materialize.com/cluster_name"@,
                value: cluster_name,
            }),
        ],
        pod_uid_filters(uid) == seq![
            (FilterView { name: "tag:"@ + "eip.aws.materialize.com/pod_uid"@, value: uid }),
        ],
{
}

// Interfaces.

/// Whether an interface has an id, and a private address stands somewhere in its list.
pub open spec fn has_address(interface: NetworkInterfaceView, private_ip: Seq<char>) -> bool {
    &&& interface.network_interface_id is Some
    &&& interface.private_ip_addresses is Some
    &&& (interface.private_ip_addresses->0).contains(
        PrivateIpAddressView { private_ip_address: Some(private_ip) },
    )
}

/// An address is looked for at every place of every interface: the interface that is found is the
/// first one with an id that lists the address anywhere, and none is found only where no interface
/// with an id lists it.
pub proof fn law_interface_is_found_by_any_address(
    interfaces: Seq<NetworkInterfaceView>,
    private_ip: Seq<char>,
)
    ensures
        eni_with_ip(interfaces, private_ip) is None <==> forall|i: int|
            0 <= i < interfaces.len() ==> !has_address(#[trigger] interfaces[i], private_ip),
        forall|i: int|
            0 <= i < interfaces.len() && has_address(#[trigger] interfaces[i], private_ip) && (
            forall|j: int| 0 <= j < i ==> !has_address(#[trigger] interfaces[j], private_ip))
                ==> eni_with_ip(interfaces, private_ip) == interfaces[i].network_interface_id,
        eni_with_ip(interfaces, private_ip) matches Some(eni_id) ==> exists|i: int|
            {
                &&& 0 <= i < interfaces.len()
                &&& has_address(#[trigger] interfaces[i], private_ip)
                &&& interfaces[i].network_interface_id == Some(eni_id)
                &&& forall|j: int| 0 <= j < i ==> !has_address(#[trigger] interfaces[j], private_ip)
            },
{
    let wanted = |n: NetworkInterfaceView| n.carries(private_ip);
    assert forall|i: int| 0 <= i < interfaces.len() implies (wanted(#[trigger] interfaces[i])
        <==> has_address(interfaces[i], private_ip)) by {
        let n = interfaces[i];
        let entry = PrivateIpAddressView { private_ip_address: Some(private_ip) };
        if let Some(ips) = n.private_ip_addresses {
            if ips.contains(entry) {
                let k = choose|k: int| 0 <= k < ips.len() && ips[k] == entry;
                assert(ips[k].private_ip_address == Some(private_ip));
            }
            if n.carries(private_ip) {
                let k = choose|k: int|
                    0 <= k < ips.len() && (#[trigger] ips[k]).private_ip_address == Some(
                        private_ip,
                    );
                assert(ips[k] == entry);
            }
        }
    }
    law_first_where_is_first(interfaces, wanted);
    law_first_where(interfaces, wanted);
    if eni_with_ip(interfaces, private_ip) is None {
        assert forall|i: int| 0 <= i < interfaces.len() implies !has_address(
            #[trigger] interfaces[i],
            private_ip,
        ) by {
            assert(!wanted(interfaces[i]));
        }
    }
}

/// An interface is looked for on the first instance of the first reservation. Where that has no
/// interfaces, none is found, and the strict form of the search names what is missing.
pub proof fn law_interface_is_one_of_the_first_instance(
    described: InstancesDescriptionView,
    private_ip: Seq<char>,
)
    requires
        described.is_populated(),
    ensures
        described.reservations is None ==> described.eni(private_ip) is None && eni_or_error(
            described,
            private_ip,
        ) == Err::<Seq<char>, Error>(Error::MissingReservations),
        described.reservations matches Some(reservations) ==> {
            let first = reservations[0];
            &&& reservations.len() > 0
            &&& first.instances is None ==> described.eni(private_ip) is None && eni_or_error(
                described,
                private_ip,
            ) == Err::<Seq<char>, Error>(Error::MissingInstances)
            &&& first.instances matches Some(instances) ==> {
                &&& instances.len() > 0
                &&& instances[0].network_interfaces is None ==> described.eni(private_ip) is None
                    && eni_or_error(described, private_ip) == Err::<Seq<char>, Error>(
                    Error::MissingNetworkInterfaces,
                )
                &&& instances[0].network_interfaces matches Some(interfaces) ==> {
                    &&& described.eni(private_ip) == eni_with_ip(interfaces, private_ip)
                    &&& eni_with_ip(interfaces, private_ip) matches Some(eni_id) ==> eni_or_error(
                        described,
                        private_ip,
                    ) == Ok::<Seq<char>, Error>(eni_id)
                    &&& eni_with_ip(interfaces, private_ip) is None ==> eni_or_error(
                        described,
                        private_ip,
                    ) == Err::<Seq<char>, Error>(Error::NoInterfaceWithThatIp)
                }
            }
        },
{
}

/// Instances are described in a form that can be searched where no list that is there is empty.
pub proof fn law_populated_means_no_list_is_empty(described: InstancesDescriptionView)
    ensures
        described.is_populated() <==> (described.reservations is None || ((
        described.reservations->0).len() > 0 && ((described.reservations->0)[0].instances is None
            || ((described.reservations->0)[0].instances->0).len() > 0))),
{
}

/// An address is attached to an interface where both the interface and the private address are
/// those of the description.
pub proof fn law_attached_means_both_agree(
    address: AddressView,
    eni_id: Seq<char>,
    private_ip: Seq<char>,
)
    ensures
        address.is_attached_to(eni_id, private_ip) <==> (address.network_interface_id == Some(
            eni_id,
        ) && address.private_ip_address == Some(private_ip)),
{
}

// Eips.

/// Whether an `Eip` selects a node with these labels: each label that it asks for is one of them.
pub open spec fn selects(eip: EipView, labels: Option<Map<Seq<char>, Seq<char>>>) -> bool {
    &&& eip.selector is Node
    &&& forall|key: Seq<char>| #[trigger]
        eip.selector->selector.contains_key(key) ==> labels is Some && (labels->0).contains_key(key)
            && (labels->0)[key] == eip.selector->selector[key]
}

/// Whether an `Eip` has a status in which no resource, or the one of that name, is recorded.
pub open spec fn is_open_to(eip: EipView, resource: Seq<char>) -> bool {
    &&& eip.status is Some
    &&& (eip.status->0).resource_id is None || (eip.status->0).resource_id == Some(resource)
}

/// Selecting a node is carrying the labels that are asked for.
pub proof fn lemma_selects(eip: EipView, labels: Option<Map<Seq<char>, Seq<char>>>)
    ensures
        eip.matches_node(labels) <==> selects(eip, labels),
{
    if let EipSelectorView::Node { selector } = eip.selector {
        let all = match labels {
            Some(labels) => labels,
            None => Map::empty(),
        };
        if selects(eip, labels) {
            assert forall|key: Seq<char>| selector.contains_key(
                key,
            ) implies #[trigger] all.contains_key(key) && selector[key] == all[key] by {
                assert(eip.selector->selector.contains_key(key));
            }
            assert(selector.submap_of(all));
        }
        if selector.submap_of(all) {
            assert forall|key: Seq<char>| #[trigger]
                eip.selector->selector.contains_key(key) implies labels is Some && (
            labels->0).contains_key(key) && (labels->0)[key] == eip.selector->selector[key] by {
                assert(all.contains_key(key));
            }
        }
    }
}

/// Choosing among `Eip`s goes through them one by one and keeps their order: for a pod those that
/// name it, for a node those whose labels it carries, and of what a resource claims those whose
/// status records it.
pub proof fn law_eips_are_chosen_one_by_one(
    eips: Seq<EipView>,
    eip: EipView,
    name: Seq<char>,
    labels: Option<Map<Seq<char>, Seq<char>>>,
)
    ensures
        for_pod(Seq::empty(), name) == Seq::<EipView>::empty(),
        for_node(Seq::empty(), labels) == Seq::<EipView>::empty(),
        claimed_by(Seq::empty(), name) == Seq::<EipView>::empty(),
        for_pod(eips.push(eip), name) == (if eip.selector is Pod && eip.selector->pod_name == name {
            for_pod(eips, name).push(eip)
        } else {
            for_pod(eips, name)
        }),
        for_node(eips.push(eip), labels) == (if selects(eip, labels) {
            for_node(eips, labels).push(eip)
        } else {
            for_node(eips, labels)
        }),
        claimed_by(eips.push(eip), name) == (if eip.status is Some && (eip.status->0).resource_id
            == Some(name) {
            claimed_by(eips, name).push(eip)
        } else {
            claimed_by(eips, name)
        }),
{
    lemma_filter_push(eips, eip, |e: EipView| e.matches_pod(name));
    lemma_filter_push(eips, eip, |e: EipView| e.matches_node(labels));
    lemma_filter_push(eips, eip, |e: EipView| e.is_claimed_by(name));
    lemma_selects(eip, labels);
}

/// What is taken stands first: every `Eip` before it has no status or is claimed by another
/// resource. Nothing is taken only where that holds of every `Eip`.
pub proof fn law_first_open_eip_is_taken(eips: Seq<EipView>, resource: Seq<char>)
    ensures
        forall|i: int|
            0 <= i < eips.len() && is_open_to(#[trigger] eips[i], resource) && (forall|j: int|
                0 <= j < i ==> !is_open_to(#[trigger] eips[j], resource)) ==> first_claimable(
                eips,
                resource,
            ) == Some(eips[i]),
        first_claimable(eips, resource) is None <==> forall|i: int|
            0 <= i < eips.len() ==> !is_open_to(#[trigger] eips[i], resource),
        first_claimable(eips, resource) matches Some(eip) ==> exists|i: int|
            {
                &&& 0 <= i < eips.len()
                &&& #[trigger] eips[i] == eip
                &&& is_open_to(eip, resource)
                &&& forall|j: int| 0 <= j < i ==> !is_open_to(#[trigger] eips[j], resource)
            },
{
    let wanted = |e: EipView| e.is_claimable_by(resource);
    assert(forall|e: EipView| #[trigger] wanted(e) <==> is_open_to(e, resource));
    law_first_where_is_first(eips, wanted);
    law_first_where(eips, wanted);
}

/// The first `Eip` that a node may take among those that select it is the first of all that are
/// listed that selects it and is open to it.
pub proof fn law_node_takes_the_first_open_eip(
    eips: Seq<EipView>,
    labels: Option<Map<Seq<char>, Seq<char>>>,
    resource: Seq<char>,
)
    ensures
        first_claimable(for_node(eips, labels), resource) matches Some(eip) ==> exists|i: int|
            {
                &&& 0 <= i < eips.len()
                &&& #[trigger] eips[i] == eip
                &&& selects(eip, labels) && is_open_to(eip, resource)
                &&& forall|j: int|
                    0 <= j < i ==> !(selects(#[trigger] eips[j], labels) && is_open_to(
                        eips[j],
                        resource,
                    ))
            },
        first_claimable(for_node(eips, labels), resource) is None ==> forall|i: int|
            0 <= i < eips.len() ==> !(selects(#[trigger] eips[i], labels) && is_open_to(
                eips[i],
                resource,
            )),
    decreases eips.len(),
{
    let matched = for_node(eips, labels);
    let wanted = |e: EipView| e.is_claimable_by(resource);
    if eips.len() == 0 {
        assert(eips =~= Seq::empty());
        law_eips_are_chosen_one_by_one(eips, arbitrary(), resource, labels);
        law_first_open_eip_is_taken(matched, resource);
    } else {
        let front = eips.drop_last();
        let last = eips.last();
        let before = for_node(front, labels);
        assert(eips =~= front.push(last));
        law_eips_are_chosen_one_by_one(front, last, resource, labels);
        law_node_takes_the_first_open_eip(front, labels, resource);
        law_first_open_eip_is_taken(before, resource);
        law_first_open_eip_is_taken(matched, resource);
        match first_claimable(before, resource) {
            Some(eip) => {
                let k = choose|k: int|
                    {
                        &&& 0 <= k < before.len()
                        &&& #[trigger] before[k] == eip
                        &&& is_open_to(eip, resource)
                        &&& forall|j: int|
                            0 <= j < k ==> !is_open_to(#[trigger] before[j], resource)
                    };
                assert(matched[k] == eip);
                assert forall|j: int| 0 <= j < k implies !is_open_to(
                    #[trigger] matched[j],
                    resource,
                ) by {
                    assert(matched[j] == before[j]);
                }
                assert(first_claimable(matched, resource) == Some(eip));
                let i = choose|i: int|
                    {
                        &&& 0 <= i < front.len()
                        &&& #[trigger] front[i] == eip
                        &&& selects(eip, labels) && is_open_to(eip, resource)
                        &&& forall|j: int|
                            0 <= j < i ==> !(selects(#[trigger] front[j], labels) && is_open_to(
                                front[j],
                                resource,
                            ))
                    };
                assert(eips[i] == eip);
                assert forall|j: int| 0 <= j < i implies !(selects(#[trigger] eips[j], labels)
                    && is_open_to(eips[j], resource)) by {
                    assert(eips[j] == front[j]);
                }
            },
            None => {
                assert forall|j: int| 0 <= j < eips.len() - 1 implies !(selects(
                    #[trigger] eips[j],
                    labels,
                ) && is_open_to(eips[j], resource)) by {
                    assert(eips[j] == front[j]);
                }
                if selects(last, labels) && is_open_to(last, resource) {
                    let k = before.len() as int;
                    assert(matched[k] == last);
                    assert forall|j: int| 0 <= j < k implies !is_open_to(
                        #[trigger] matched[j],
                        resource,
                    ) by {
                        assert(matched[j] == before[j]);
                    }
                    assert(first_claimable(matched, resource) == Some(last));
                    assert(eips[eips.len() - 1] == last);
                } else {
                    assert forall|j: int| 0 <= j < matched.len() implies !is_open_to(
                        #[trigger] matched[j],
                        resource,
                    ) by {
                        if j < before.len() {
                            assert(matched[j] == before[j]);
                        }
                    }
                    assert(first_claimable(matched, resource) is None);
                    assert(eips[eips.len() - 1] == last);
                }
            },
        }
    }
}

/// What an `Eip` records in its status, and where it is found.
pub proof fn law_what_an_eip_records(eip: EipView, namespace: Seq<char>)
    ensures
        eip.status is None ==> eip.allocation_id() is None && recorded_resource(eip) is None
            && recorded_association(eip) is None,
        eip.status matches Some(status) ==> {
            &&& eip.allocation_id() == status.allocation_id
            &&& recorded_resource(eip) == status.resource_id
            &&& recorded_association(eip) == status.association_id
        },
        eip.scope_within(ApiScopeView::Namespaced(namespace)) == ApiScopeView::Namespaced(
            namespace,
        ),
        eip.namespace matches Some(own) ==> eip.scope_within(ApiScopeView::All)
            == ApiScopeView::Namespaced(own),
        eip.namespace is None ==> eip.scope_within(ApiScopeView::All) == ApiScopeView::All,
{
}

/// A label selector asks for each label, in the order given, with commas between.
pub proof fn law_label_selector_asks_for_each_label(
    labels: Seq<(Seq<char>, Seq<char>)>,
    key: Seq<char>,
    value: Seq<char>,
)
    ensures
        label_selector(Seq::empty()) == Seq::<char>::empty(),
        labels.len() == 0 ==> label_selector(labels.push((key, value))) == key + "="@ + value,
        labels.len() > 0 ==> label_selector(labels.push((key, value))) == label_selector(labels)
            + ","@ + key + "="@ + value,
{
    assert(labels.push((key, value)).drop_last() =~= labels);
}

// Uids and orphans.

/// Whether some listed `Eip` has that uid.
pub open spec fn is_uid_of_one(eips: Seq<EipView>, uid: Seq<char>) -> bool {
    exists|i: int| 0 <= i < eips.len() && (#[trigger] eips[i]).uid == Some(uid)
}

/// Whether some listed pod has that uid.
pub open spec fn is_uid_of_a_pod(pods: Seq<PodView>, uid: Seq<char>) -> bool {
    exists|i: int| 0 <= i < pods.len() && (#[trigger] pods[i]).uid == Some(uid)
}

/// The uids of the living are those of the `Eip`s, and of the pods, that are listed: all of them
/// and no others.
pub proof fn law_live_uids_are_those_listed(eips: Seq<EipView>, pods: Seq<PodView>)
    ensures
        forall|uid: Seq<char>| #[trigger]
            eip_uids(eips).contains(uid) <==> is_uid_of_one(eips, uid),
        forall|uid: Seq<char>| #[trigger]
            pod_uids(pods).contains(uid) <==> is_uid_of_a_pod(pods, uid),
{
    let eip_has = |e: EipView| e.uid is Some;
    let of_eip = |e: EipView| e.uid->0;
    lemma_filter_members(eips, eip_has);
    let kept = eips.filter(eip_has);
    assert forall|uid: Seq<char>| #[trigger]
        eip_uids(eips).contains(uid) <==> is_uid_of_one(eips, uid) by {
        let uids = kept.map_values(of_eip);
        if uids.contains(uid) {
            let k = choose|k: int| 0 <= k < uids.len() && uids[k] == uid;
            assert(kept.contains(kept[k]));
            let i = choose|i: int| 0 <= i < eips.len() && eips[i] == kept[k];
            assert(eips[i].uid == Some(uid));
        }
        if is_uid_of_one(eips, uid) {
            let i = choose|i: int| 0 <= i < eips.len() && (#[trigger] eips[i]).uid == Some(uid);
            assert(eips.contains(eips[i]));
            assert(kept.contains(eips[i]));
            let k = choose|k: int| 0 <= k < kept.len() && kept[k] == eips[i];
            assert(uids[k] == uid);
        }
    }
    let pod_has = |p: PodView| p.uid is Some;
    let of_pod = |p: PodView| p.uid->0;
    lemma_filter_members(pods, pod_has);
    let left = pods.filter(pod_has);
    assert forall|uid: Seq<char>| #[trigger]
        pod_uids(pods).contains(uid) <==> is_uid_of_a_pod(pods, uid) by {
        let uids = left.map_values(of_pod);
        if uids.contains(uid) {
            let k = choose|k: int| 0 <= k < uids.len() && uids[k] == uid;
            assert(left.contains(left[k]));
            let i = choose|i: int| 0 <= i < pods.len() && pods[i] == left[k];
            assert(pods[i].uid == Some(uid));
        }
        if is_uid_of_a_pod(pods, uid) {
            let i = choose|i: int| 0 <= i < pods.len() && (#[trigger] pods[i]).uid == Some(uid);
            assert(pods.contains(pods[i]));
            assert(left.contains(pods[i]));
            let k = choose|k: int| 0 <= k < left.len() && left[k] == pods[i];
            assert(uids[k] == uid);
        }
    }
}

/// An address is an orphan exactly where its owner's tag names no listed `Eip`, or no listed pod;
/// an address without that tag is one too.
pub proof fn law_orphans_are_those_without_a_listed_owner(
    address: AddressView,
    eips: Seq<EipView>,
    pods: Seq<PodView>,
)
    ensures
        address.is_orphan("eip.materialize.cloud/eip_uid"@, eip_uids(eips)) <==> forall|i: int|
            0 <= i < eips.len() && (#[trigger] eips[i]).uid is Some ==> eips[i].uid != address.tag(
                "eip.materialize.cloud/eip_uid"@,
            ),
        address.is_orphan("eip.aws.materialize.com/pod_uid"@, pod_uids(pods)) <==> forall|i: int|
            0 <= i < pods.len() && (#[trigger] pods[i]).uid is Some ==> pods[i].uid != address.tag(
                "eip.aws.materialize.com/pod_uid"@,
            ),
{
    law_live_uids_are_those_listed(eips, pods);
    if let Some(owner) = address.tag("eip.materialize.cloud/eip_uid"@) {
        assert(eip_uids(eips).contains(owner) <==> is_uid_of_one(eips, owner));
    }
    if let Some(owner) = address.tag("eip.aws.materialize.com/pod_uid"@) {
        assert(pod_uids(pods).contains(owner) <==> is_uid_of_a_pod(pods, owner));
    }
}

/// The orphans among addresses, and the associations that addresses have, are gone through one by
/// one.
pub proof fn law_addresses_are_gone_through_one_by_one(
    addresses: Seq<AddressView>,
    address: AddressView,
    owner_tag: Seq<char>,
    live: Seq<Seq<char>>,
)
    ensures
        orphans(Seq::empty(), owner_tag, live) == Seq::<AddressView>::empty(),
        orphans(addresses.push(address), owner_tag, live) == (if address.tag(owner_tag) is None
            || !live.contains(address.tag(owner_tag)->0) {
            orphans(addresses, owner_tag, live).push(address)
        } else {
            orphans(addresses, owner_tag, live)
        }),
        association_ids(Seq::empty()) == Seq::<Seq<char>>::empty(),
        association_ids(addresses.push(address)) == (match address.association_id {
            Some(association_id) => association_ids(addresses).push(association_id),
            None => association_ids(addresses),
        }),
{
    lemma_filter_push(addresses, address, |a: AddressView| a.is_orphan(owner_tag, live));
    let has = |a: AddressView| a.association_id is Some;
    lemma_filter_push(addresses, address, has);
    let of = |a: AddressView| a.association_id->0;
    assert(Seq::<AddressView>::empty().map_values(of) =~= Seq::empty());
    if address.association_id is Some {
        assert(addresses.filter(has).push(address).map_values(of) =~= addresses.filter(
            has,
        ).map_values(of).push(address.association_id->0));
    }
}

/// To give addresses back, each one's association is ended, if it has one, and then the address is
/// released, in the order of the addresses.
pub proof fn law_addresses_are_released_in_order(
    addresses: Seq<AddressView>,
    address: AddressView,
    must_exist: bool,
)
    ensures
        release_all(Seq::empty(), must_exist) == Seq::<TaskView>::empty(),
        ({
            let before = release_all(addresses, must_exist);
            let after = release_all(addresses.push(address), must_exist);
            match (address.association_id, address.allocation_id) {
                (Some(association_id), Some(allocation_id)) => after == before.push(
                    TaskView::Disassociate { association_id, must_exist },
                ).push(TaskView::Release { allocation_id }),
                (Some(association_id), None) => after == before.push(
                    TaskView::Disassociate { association_id, must_exist },
                ),
                (None, Some(allocation_id)) => after == before.push(
                    TaskView::Release { allocation_id },
                ),
                (None, None) => after == before,
            }
        }),
{
    let before = release_all(addresses, must_exist);
    let after = release_all(addresses.push(address), must_exist);
    assert(addresses.push(address).drop_last() =~= addresses);
    match (address.association_id, address.allocation_id) {
        (Some(association_id), Some(allocation_id)) => {
            assert(after =~= before.push(
                TaskView::Disassociate { association_id, must_exist },
            ).push(TaskView::Release { allocation_id }));
        },
        (Some(association_id), None) => {
            assert(after =~= before.push(TaskView::Disassociate { association_id, must_exist }));
        },
        (None, Some(allocation_id)) => {
            assert(after =~= before.push(TaskView::Release { allocation_id }));
        },
        (None, None) => {
            assert(after =~= before);
        },
    }
}

/// The finalizer is removed from one pod after the other, where it stands first, in the namespace
/// that was looked at or else in the pod's own. A pod without it is passed over; one that has it
/// and no name ends the removal.
pub proof fn law_finalizers_are_removed_one_by_one(
    scope: ApiScopeView,
    pods: Seq<PodView>,
    pod: PodView,
    position: int,
)
    requires
        0 <= position < pod.finalizers.len(),
        pod.finalizers[position] == "eip.aws.materialize.com/disassociate"@,
        forall|i: int|
            0 <= i < position ==> #[trigger] pod.finalizers[i]
                != "eip.aws.materialize.com/disassociate"@,
    ensures
        ({
            let before = unfinalize_plan(scope, pods);
            let after = unfinalize_plan(scope, pods.push(pod));
            let home = match (scope, pod.namespace) {
                (ApiScopeView::All, Some(namespace)) => ApiScopeView::Namespaced(namespace),
                (ApiScopeView::All, None) => ApiScopeView::All,
                (ApiScopeView::Namespaced(namespace), _) => ApiScopeView::Namespaced(namespace),
            };
            &&& before.end is Some ==> after == before
            &&& before.end is None && pod.name is None ==> after.tasks == before.tasks && after.end
                == Some(Error::MissingPodName)
            &&& before.end is None && pod.name is Some ==> after.end is None && after.tasks
                == before.tasks.push(
                TaskView::RemoveFinalizer {
                    scope: home,
                    pod_name: pod.name->0,
                    position: position as nat,
                    finalizer: "eip.aws.materialize.com/disassociate"@,
                },
            )
        }),
{
    assert(pods.push(pod).drop_last() =~= pods);
    pod.finalizers.index_of_first_ensures("eip.aws.materialize.com/disassociate"@);
    assert(pod.finalizers.contains("eip.aws.materialize.com/disassociate"@));
    let found = pod.finalizers.index_of_first("eip.aws.materialize.com/disassociate"@)->0;
    if found < position {
        assert(pod.finalizers[found] != "eip.aws.materialize.com/disassociate"@);
    }
}

/// A pod without the finalizer is passed over when finalizers are removed.
pub proof fn law_pods_without_the_finalizer_are_passed_over(
    scope: ApiScopeView,
    pods: Seq<PodView>,
    pod: PodView,
)
    requires
        !pod.finalizers.contains("eip.aws.materialize.com/disassociate"@),
    ensures
        unfinalize_plan(scope, Seq::empty()).tasks == Seq::<TaskView>::empty(),
        unfinalize_plan(scope, Seq::empty()).end is None,
        unfinalize_plan(scope, pods.push(pod)) == unfinalize_plan(scope, pods),
{
    assert(pods.push(pod).drop_last() =~= pods);
    pod.finalizers.index_of_first_ensures("eip.aws.materialize.com/disassociate"@);
}

/// What each task asks for.
pub proof fn law_task_requests(
    id: Seq<char>,
    must_exist: bool,
    status: Seq<char>,
    scope: ApiScopeView,
    position: nat,
)
    ensures
        (TaskView::Disassociate { association_id: id, must_exist }).request()
            == (RequestView::DisassociateAddress { association_id: id }),
        (TaskView::Release { allocation_id: id }).request() == (RequestView::ReleaseAddress {
            allocation_id: id,
        }),
        ({
            let request = (TaskView::AddGatewayLabel { node_name: id, status }).request();
            &&& request is ApplyToNode
            &&& request->ApplyToNode_name == id
            &&& request->ApplyToNode_patch.field_manager == "eip.materialize.cloud"@
            &&& request->ApplyToNode_patch.kind == "Node"@
            &&& request->ApplyToNode_patch.annotations.len() == 0
            &&& request->ApplyToNode_patch.labels == seq![
                ("egress-gateway.materialize.cloud/ready-status"@, Some(lowercase(status))),
            ]
        }),
        ({
            let request = (TaskView::RemoveGatewayLabel { node_name: id }).request();
            &&& request is ApplyToNode
            &&& request->ApplyToNode_name == id
            &&& request->ApplyToNode_patch.field_manager == "eip.materialize.cloud"@
            &&& request->ApplyToNode_patch.kind == "Node"@
            &&& request->ApplyToNode_patch.annotations.len() == 0
            &&& request->ApplyToNode_patch.labels == seq![
                ("egress-gateway.materialize.cloud/ready-status"@, None::<Seq<char>>),
            ]
        }),
        ({
            let path = "/metadata/finalizers/"@ + decimal(position);
            let request = (TaskView::RemoveFinalizer {
                scope,
                pod_name: id,
                position,
                finalizer: status,
            }).request();
            request == (RequestView::PatchPod {
                scope,
                name: id,
                operations: seq![
                    (PatchOperationView::Test { path, value: status }),
                    (PatchOperationView::Remove { path }),
                ],
            })
        }),
{
}

// Pods, nodes and other resources.

/// The address of a node is its first internal one, and its readiness the status of its first
/// condition of that type.
pub proof fn law_node_address_and_readiness(node: NodeView)
    ensures
        node.status is None ==> node.ip() is None && node.ready_status() is None,
        node.status matches Some(status) ==> {
            &&& status.addresses is None ==> node.ip() is None
            &&& status.addresses matches Some(addresses) ==> {
                &&& (forall|i: int|
                    0 <= i < addresses.len() ==> (#[trigger] addresses[i]).type_ != "InternalIP"@)
                    ==> node.ip() is None
                &&& forall|i: int|
                    0 <= i < addresses.len() && (#[trigger] addresses[i]).type_ == "InternalIP"@
                        && (forall|j: int|
                        0 <= j < i ==> (#[trigger] addresses[j]).type_ != "InternalIP"@)
                        ==> node.ip() == Some(addresses[i].address)
            }
            &&& status.conditions is None ==> node.ready_status() is None
            &&& status.conditions matches Some(conditions) ==> {
                &&& (forall|i: int|
                    0 <= i < conditions.len() ==> (#[trigger] conditions[i]).type_ != "Ready"@)
                    ==> node.ready_status() is None
                &&& forall|i: int|
                    0 <= i < conditions.len() && (#[trigger] conditions[i]).type_ == "Ready"@ && (
                    forall|j: int| 0 <= j < i ==> (#[trigger] conditions[j]).type_ != "Ready"@)
                        ==> node.ready_status() == Some(conditions[i].status)
            }
        },
        node.spec is None ==> node.provider_id() is None,
        node.spec matches Some(spec) ==> node.provider_id() == spec.provider_id,
{
    if let Some(status) = node.status {
        if let Some(addresses) = status.addresses {
            law_first_where_is_first(addresses, |a: NodeAddressView| a.type_ == "InternalIP"@);
        }
        if let Some(conditions) = status.conditions {
            law_first_where_is_first(conditions, |c: NodeConditionView| c.type_ == "Ready"@);
        }
    }
}

/// What is read off a pod: its address, its node, and whether it asks for an `Eip` of its own.
pub proof fn law_what_a_pod_tells(pod: PodView)
    ensures
        pod.status is None ==> pod.ip() is None,
        pod.status matches Some(status) ==> pod.ip() == status.pod_ip,
        pod.spec is None ==> pod.node_name() is None,
        pod.spec matches Some(spec) ==> pod.node_name() == spec.node_name,
        pod.wants_eip() <==> (pod.labels is Some && (pod.labels->0).contains_key(
            "eip.materialize.cloud/autocreate_eip"@,
        ) && lowercase((pod.labels->0)["eip.materialize.cloud/autocreate_eip"@]) == "true"@),
{
}

/// The readiness of nodes is gathered from every node that has a name.
pub proof fn law_readiness_is_gathered_from_named_nodes(nodes: Seq<NodeView>, node: NodeView)
    ensures
        named_statuses(Seq::empty()) == Seq::<(Seq<char>, Seq<char>)>::empty(),
        named_statuses(nodes.push(node)) == (match node.name {
            Some(name) => named_statuses(nodes).push((name, node.ready_status()->0)),
            None => named_statuses(nodes),
        }),
{
    let has = is_named();
    let of = |n: NodeView| (n.name->0, n.ready_status()->0);
    lemma_filter_push(nodes, node, has);
    assert(Seq::<NodeView>::empty().map_values(of) =~= Seq::empty());
    if node.name is Some {
        assert(nodes.filter(has).push(node).map_values(of) =~= nodes.filter(has).map_values(
            of,
        ).push((node.name->0, node.ready_status()->0)));
    }
}

/// The name that a resource goes by is its own, or else the stem of the one that it would be given;
/// one of that name is among resources where any of them goes by it.
pub proof fn law_resources_go_by_their_names(
    resources: Seq<MatchedResourceView>,
    resource: MatchedResourceView,
    name: Seq<char>,
)
    ensures
        !any_named(Seq::empty(), name),
        any_named(resources.push(resource), name) <==> any_named(resources, name)
            || resource.name == Some(name) || (resource.name is None && (resource.generate_name
            == Some(name) || (resource.generate_name is None && name.len() == 0))),
        names_of(Seq::empty()) == Seq::<Seq<char>>::empty(),
        resource.name matches Some(own) ==> names_of(resources.push(resource)) == names_of(
            resources,
        ).push(own),
{
    let more = resources.push(resource);
    if any_named(resources, name) {
        let i = choose|i: int|
            0 <= i < resources.len() && (#[trigger] resources[i]).any_name() == name;
        assert(more[i].any_name() == name);
    }
    if any_named(more, name) {
        let i = choose|i: int| 0 <= i < more.len() && (#[trigger] more[i]).any_name() == name;
        if i < resources.len() {
            assert(resources[i].any_name() == name);
        }
    }
    assert(more[resources.len() as int] == resource);
    if name.len() == 0 {
        assert(name =~= Seq::empty());
    }
    assert(names_of(Seq::empty()) =~= Seq::<Seq<char>>::empty());
    if let Some(own) = resource.name {
        assert(names_of(more) =~= names_of(resources).push(own));
    }
}

/// The nodes that give up the egress label are those that were found with it and that do not have
/// the uid of the node with the address. They are looked for by the label's value.
pub proof fn law_other_nodes_are_told_by_their_uid(
    nodes: Seq<NodeView>,
    n: NodeView,
    node: Option<ClaimedNodeView>,
    allocation_id: Seq<char>,
)
    ensures
        egress_selector(allocation_id) == "egress-gateway.materialize.cloud/ready-status"@ + "="@
            + allocation_id,
        other_nodes(Seq::empty(), node) == Seq::<NodeView>::empty(),
        other_nodes(nodes.push(n), node) == (if node is Some && (node->0).uid == n.uid {
            other_nodes(nodes, node)
        } else {
            other_nodes(nodes, node).push(n)
        }),
{
    lemma_filter_push(nodes, n, |n: NodeView| is_other_node(n, node));
}

/// The patch that publishes an address on a pod, and the one that sets or removes the egress label
/// of a node.
pub proof fn law_patches(public_ip: Seq<char>, allocation_id: Seq<char>, status: Option<Seq<char>>)
    ensures
        dns_target_patch(public_ip, allocation_id).field_manager == "eip.materialize.cloud"@,
        dns_target_patch(public_ip, allocation_id).kind == "Pod"@,
        dns_target_patch(public_ip, allocation_id).labels.len() == 0,
        dns_target_patch(public_ip, allocation_id).annotations == seq![
            ("eip.materialize.cloud/allocation_id"@, allocation_id),
            ("external-dns.alpha.kubernetes.io/target"@, public_ip),
        ],
        gateway_status_patch(status).field_manager == "eip.materialize.cloud"@,
        gateway_status_patch(status).kind == "Node"@,
        gateway_status_patch(status).annotations.len() == 0,
        gateway_status_patch(status).labels == seq![
            ("egress-gateway.materialize.cloud/ready-status"@, status),
        ],
{
}

} // verus!

//! Elastic IP addresses and instances, as EC2 describes them.
use crate::eip::{EipSelector, EipSelectorView};
use crate::error::{Error, ServiceError};
use crate::json::{string_map_json, string_map_text};
use crate::laws::lookup::{has_address, law_interface_is_found_by_any_address};
use crate::search::{first_where, is_first, lemma_first_absent, lemma_first_found};
use crate::text::{opt_eq, str_eq};
use vstd::prelude::*;

verus! {

/// The tag that names the cluster on the addresses that pods have without an `Eip` resource.
pub const LEGACY_CLUSTER_NAME_TAG: &'static str = "eip.aws.materialize.com/cluster_name";

pub const POD_NAME_TAG: &'static str = "eip.materialize.cloud/pod_name";

pub const NODE_SELECTOR_TAG: &'static str = "eip.materialize.cloud/node_selector";

pub const EIP_UID_TAG: &'static str = "eip.materialize.cloud/eip_uid";

pub const EIP_NAME_TAG: &'static str = "eip.materialize.cloud/eip_name";

pub const CLUSTER_NAME_TAG: &'static str = "eip.materialize.cloud/cluster_name";

pub const NAMESPACE_TAG: &'static str = "eip.materialize.cloud/namespace";

pub const NAME_TAG: &'static str = "Name";

/// The code with which EC2 answers that an association does not exist any more.
pub const ASSOCIATION_NOT_FOUND: &'static str = "InvalidAssociationID.NotFound";

/// A tag of an EC2 resource.
#[derive(Debug)]
pub struct Tag {
    pub key: Option<String>,
    pub value: Option<String>,
}

/// An elastic IP address.
#[derive(Debug)]
pub struct Address {
    pub allocation_id: Option<String>,
    pub association_id: Option<String>,
    pub public_ip: Option<String>,
    pub network_interface_id: Option<String>,
    pub private_ip_address: Option<String>,
    pub tags: Option<Vec<Tag>>,
}

/// A private address of a network interface.
#[derive(Debug)]
pub struct PrivateIpAddress {
    pub private_ip_address: Option<String>,
}

/// A network interface of an instance.
#[derive(Debug)]
pub struct NetworkInterface {
    pub network_interface_id: Option<String>,
    pub private_ip_addresses: Option<Vec<PrivateIpAddress>>,
}

/// An instance.
#[derive(Debug)]
pub struct Instance {
    pub network_interfaces: Option<Vec<NetworkInterface>>,
}

/// Instances that were launched together.
#[derive(Debug)]
pub struct Reservation {
    pub instances: Option<Vec<Instance>>,
}

/// The answer to a request to describe instances.
#[derive(Debug)]
pub struct InstancesDescription {
    pub reservations: Option<Vec<Reservation>>,
}

/// A filter on what is described: the resources where `name` has the value `value`.
#[derive(Debug)]
pub struct Filter {
    pub name: String,
    pub value: String,
}

/// A `Tag` as a mathematical value.
pub struct TagView {
    pub key: Option<Seq<char>>,
    pub value: Option<Seq<char>>,
}

/// An `Address` as a mathematical value.
pub struct AddressView {
    pub allocation_id: Option<Seq<char>>,
    pub association_id: Option<Seq<char>>,
    pub public_ip: Option<Seq<char>>,
    pub network_interface_id: Option<Seq<char>>,
    pub private_ip_address: Option<Seq<char>>,
    pub tags: Option<Seq<TagView>>,
}

/// A `PrivateIpAddress` as a mathematical value.
pub struct PrivateIpAddressView {
    pub private_ip_address: Option<Seq<char>>,
}

/// A `NetworkInterface` as a mathematical value.
pub struct NetworkInterfaceView {
    pub network_interface_id: Option<Seq<char>>,
    pub private_ip_addresses: Option<Seq<PrivateIpAddressView>>,
}

/// An `Instance` as a mathematical value.
pub struct InstanceView {
    pub network_interfaces: Option<Seq<NetworkInterfaceView>>,
}

/// A `Reservation` as a mathematical value.
pub struct ReservationView {
    pub instances: Option<Seq<InstanceView>>,
}

/// An `InstancesDescription` as a mathematical value.
pub struct InstancesDescriptionView {
    pub reservations: Option<Seq<ReservationView>>,
}

/// A `Filter` as a mathematical value.
pub struct FilterView {
    pub name: Seq<char>,
    pub value: Seq<char>,
}

impl DeepView for Tag {
    type V = TagView;

    open spec fn deep_view(&self) -> TagView {
        TagView { key: self.key.deep_view(), value: self.value.deep_view() }
    }
}

impl DeepView for Address {
    type V = AddressView;

    open spec fn deep_view(&self) -> AddressView {
        AddressView {
            allocation_id: self.allocation_id.deep_view(),
            association_id: self.association_id.deep_view(),
            public_ip: self.public_ip.deep_view(),
            network_interface_id: self.network_interface_id.deep_view(),
            private_ip_address: self.private_ip_address.deep_view(),
            tags: self.tags.deep_view(),
        }
    }
}

impl DeepView for PrivateIpAddress {
    type V = PrivateIpAddressView;

    open spec fn deep_view(&self) -> PrivateIpAddressView {
        PrivateIpAddressView { private_ip_address: self.private_ip_address.deep_view() }
    }
}

impl DeepView for NetworkInterface {
    type V = NetworkInterfaceView;

    open spec fn deep_view(&self) -> NetworkInterfaceView {
        NetworkInterfaceView {
            network_interface_id: self.network_interface_id.deep_view(),
            private_ip_addresses: self.private_ip_addresses.deep_view(),
        }
    }
}

impl DeepView for Instance {
    type V = InstanceView;

    open spec fn deep_view(&self) -> InstanceView {
        InstanceView { network_interfaces: self.network_interfaces.deep_view() }
    }
}

impl DeepView for Reservation {
    type V = ReservationView;

    open spec fn deep_view(&self) -> ReservationView {
        ReservationView { instances: self.instances.deep_view() }
    }
}

impl DeepView for InstancesDescription {
    type V = InstancesDescriptionView;

    open spec fn deep_view(&self) -> InstancesDescriptionView {
        InstancesDescriptionView { reservations: self.reservations.deep_view() }
    }
}

impl DeepView for Filter {
    type V = FilterView;

    open spec fn deep_view(&self) -> FilterView {
        FilterView { name: self.name@, value: self.value@ }
    }
}

// Tags.

/// The tag with that key and value.
pub open spec fn tag(key: Seq<char>, value: Seq<char>) -> TagView {
    TagView { key: Some(key), value: Some(value) }
}

/// The value of the first tag with that key.
pub open spec fn tag_value(tags: Seq<TagView>, key: Seq<char>) -> Option<Seq<char>> {
    match first_where(tags, |t: TagView| t.key == Some(key)) {
        Some(t) => t.value,
        None => None,
    }
}

impl AddressView {
    /// The value of the first tag with that key that the address carries.
    pub open spec fn tag(self, key: Seq<char>) -> Option<Seq<char>> {
        match self.tags {
            Some(tags) => tag_value(tags, key),
            None => None,
        }
    }

    /// Whether the address is attached to that private address of that network interface.
    pub open spec fn is_attached_to(self, eni_id: Seq<char>, private_ip: Seq<char>) -> bool {
        self.network_interface_id == Some(eni_id) && self.private_ip_address == Some(private_ip)
    }

    /// Whether no live resource owns the address: the tag that names its owner is missing or
    /// names none of `live`.
    pub open spec fn is_orphan(self, owner_tag: Seq<char>, live: Seq<Seq<char>>) -> bool {
        match self.tag(owner_tag) {
            Some(owner) => !live.contains(owner),
            None => true,
        }
    }
}

/// A tag with that key and value.
pub fn new_tag(key: &str, value: &str) -> (r: Tag)
    ensures
        r.deep_view() == tag(key@, value@),
{
    Tag { key: Some(key.to_owned()), value: Some(value.to_owned()) }
}

/// The value of the first tag with that key that the address carries.
pub fn get_tag_from_address<'a>(address: &'a Address, key: &str) -> (r: Option<&'a str>)
    ensures
        r.deep_view() == address.deep_view().tag(key@),
{
    let tags = match &address.tags {
        Some(tags) => tags,
        None => {
            return None;
        },
    };
    let ghost all = tags.deep_view();
    let ghost wanted = |t: TagView| t.key == Some(key@);
    let mut i: usize = 0;
    while i < tags.len()
        invariant
            all == tags.deep_view(),
            wanted == (|t: TagView| t.key == Some(key@)),
            i <= tags.len(),
            forall|j: int| 0 <= j < i ==> !#[trigger] wanted(all[j]),
            address.deep_view().tag(key@) == tag_value(all, key@),
        decreases tags.len() - i,
    {
        if opt_eq(&tags[i].key, key) {
            proof {
                assert(is_first(all, wanted, i as int));
                lemma_first_found(all, wanted, i as int);
            }
            return match &tags[i].value {
                Some(value) => Some(value.as_str()),
                None => None,
            };
        }
        i = i + 1;
    }
    proof {
        lemma_first_absent(all, wanted);
    }
    None
}

/// The filter for resources whose tag `key` has that value.
pub open spec fn tag_filter_view(key: Seq<char>, value: Seq<char>) -> FilterView {
    FilterView { name: "tag:"@ + key, value }
}

/// The filter for resources whose tag `key` has that value.
pub fn tag_filter(key: &str, value: &str) -> (r: Filter)
    ensures
        r.deep_view() == tag_filter_view(key@, value@),
{
    Filter { name: "tag:".to_owned().concat(key), value: value.to_owned() }
}

/// The tags that a list of pairs describes.
pub open spec fn tags_of(pairs: Seq<(Seq<char>, Seq<char>)>) -> Seq<TagView> {
    pairs.map_values(|p: (Seq<char>, Seq<char>)| tag(p.0, p.1))
}

/// The tag that records what an `Eip` is meant for.
pub open spec fn selector_tag(selector: EipSelectorView) -> TagView {
    match selector {
        EipSelectorView::Pod { pod_name } => tag(POD_NAME_TAG@, pod_name),
        EipSelectorView::Node { selector } => tag(NODE_SELECTOR_TAG@, string_map_json(selector)),
    }
}

/// The tags with which the operator marks an address that it allocates for an `Eip`.
pub open spec fn eip_tags(
    eip_uid: Seq<char>,
    eip_name: Seq<char>,
    selector: EipSelectorView,
    cluster_name: Seq<char>,
    namespace: Seq<char>,
) -> Seq<TagView> {
    seq![
        tag(EIP_UID_TAG@, eip_uid),
        tag(EIP_NAME_TAG@, eip_name),
        tag(NAMESPACE_TAG@, namespace),
        tag(CLUSTER_NAME_TAG@, cluster_name),
        selector_tag(selector),
        tag(
            NAME_TAG@,
            "eip-operator:"@ + cluster_name + ":"@ + namespace + ":"@ + eip_name,
        ),
    ]
}

/// The default tags as tags, in the order given.
pub fn default_tag_list(default_tags: &Vec<(String, String)>) -> (r: Vec<Tag>)
    ensures
        r.deep_view() == tags_of(default_tags.deep_view()),
        r.len() == default_tags.len(),
        forall|i: int|
            0 <= i < r.len() ==> (#[trigger] r.deep_view()[i]).key == Some(default_tags[i].0@)
                && r.deep_view()[i].value == Some(default_tags[i].1@),
{
    let ghost pairs = default_tags.deep_view();
    let mut tags: Vec<Tag> = Vec::new();
    let mut i: usize = 0;
    while i < default_tags.len()
        invariant
            pairs == default_tags.deep_view(),
            i <= default_tags.len(),
            tags.deep_view() =~= tags_of(pairs.take(i as int)),
        decreases default_tags.len() - i,
    {
        let ghost before = tags.deep_view();
        tags.push(new_tag(default_tags[i].0.as_str(), default_tags[i].1.as_str()));
        proof {
            assert(tags.deep_view() =~= before.push(tag(pairs[i as int].0, pairs[i as int].1)));
            assert(tags_of(pairs.take(i + 1)) =~= tags_of(pairs.take(i as int)).push(
                tag(pairs[i as int].0, pairs[i as int].1),
            ));
        }
        i = i + 1;
    }
    proof {
        assert(pairs.take(pairs.len() as int) =~= pairs);
        assert(tags.deep_view().len() == tags.len());
        assert forall|i: int| 0 <= i < tags.len() implies (#[trigger] tags.deep_view()[i]).key
            == Some(default_tags[i].0@) && tags.deep_view()[i].value == Some(default_tags[i].1@) by {
            assert(pairs[i] == (default_tags[i].0@, default_tags[i].1@));
        }
    }
    tags
}

/// The tags for an address that is allocated for an `Eip`: the default tags, then the operator's
/// own.
pub fn allocate_address_tags(
    eip_uid: &str,
    eip_name: &str,
    eip_selector: &EipSelector,
    cluster_name: &str,
    namespace: &str,
    default_tags: &Vec<(String, String)>,
) -> (r: Vec<Tag>)
    ensures
        r.deep_view() == tags_of(default_tags.deep_view()) + eip_tags(
            eip_uid@,
            eip_name@,
            eip_selector.deep_view(),
            cluster_name@,
            namespace@,
        ),
{
    let mut tags = default_tag_list(default_tags);
    let ghost defaults = tags.deep_view();
    tags.push(new_tag(EIP_UID_TAG, eip_uid));
    tags.push(new_tag(EIP_NAME_TAG, eip_name));
    tags.push(new_tag(NAMESPACE_TAG, namespace));
    tags.push(new_tag(CLUSTER_NAME_TAG, cluster_name));
    match eip_selector {
        EipSelector::Pod { pod_name } => {
            tags.push(new_tag(POD_NAME_TAG, pod_name.as_str()));
        },
        EipSelector::Node { selector } => {
            tags.push(new_tag(NODE_SELECTOR_TAG, string_map_text(selector).as_str()));
        },
    }
    let label = "eip-operator:".to_owned().concat(cluster_name).concat(":").concat(
        namespace,
    ).concat(":").concat(eip_name);
    tags.push(new_tag(NAME_TAG, label.as_str()));
    proof {
        let own = eip_tags(
            eip_uid@,
            eip_name@,
            eip_selector.deep_view(),
            cluster_name@,
            namespace@,
        );
        assert(tags.deep_view() =~= defaults + own);
    }
    tags
}

// Attachment.

/// Whether the address is attached to that private address of that network interface.
pub fn is_attached_to(address: &Address, eni_id: &str, private_ip: &str) -> (r: bool)
    ensures
        r == address.deep_view().is_attached_to(eni_id@, private_ip@),
{
    opt_eq(&address.network_interface_id, eni_id) && opt_eq(&address.private_ip_address, private_ip)
}

impl NetworkInterfaceView {
    /// Whether the interface has an id and that private address.
    pub open spec fn carries(self, private_ip: Seq<char>) -> bool {
        &&& self.network_interface_id is Some
        &&& self.private_ip_addresses matches Some(ips) && exists|i: int|
            0 <= i < ips.len() && (#[trigger] ips[i]).private_ip_address == Some(private_ip)
    }
}

/// The id of the first interface that has an id and that private address.
pub open spec fn eni_with_ip(
    interfaces: Seq<NetworkInterfaceView>,
    private_ip: Seq<char>,
) -> Option<Seq<char>> {
    match first_where(interfaces, |n: NetworkInterfaceView| n.carries(private_ip)) {
        Some(n) => n.network_interface_id,
        None => None,
    }
}

impl InstancesDescriptionView {
    /// Whether no list that has to be looked into is empty: the reservations, and the instances
    /// of the first of them.
    pub open spec fn is_populated(self) -> bool {
        self.reservations matches Some(reservations) ==> reservations.len() > 0 && (
        reservations[0].instances matches Some(instances) ==> instances.len() > 0)
    }

    /// The interfaces of the first instance of the first reservation.
    pub open spec fn interfaces(self) -> Option<Seq<NetworkInterfaceView>> {
        match self.reservations {
            Some(reservations) => match reservations[0].instances {
                Some(instances) => instances[0].network_interfaces,
                None => None,
            },
            None => None,
        }
    }

    /// The id of the first interface of the instance with that private address.
    pub open spec fn eni(self, private_ip: Seq<char>) -> Option<Seq<char>> {
        match self.interfaces() {
            Some(interfaces) => eni_with_ip(interfaces, private_ip),
            None => None,
        }
    }
}

/// Whether the interface has that private address.
fn has_private_ip(interface: &NetworkInterface, private_ip: &str) -> (r: bool)
    ensures
        r == (interface.deep_view().private_ip_addresses matches Some(ips) && exists|i: int|
            0 <= i < ips.len() && (#[trigger] ips[i]).private_ip_address == Some(private_ip@)),
{
    match &interface.private_ip_addresses {
        Some(ips) => {
            let ghost all = ips.deep_view();
            let mut i: usize = 0;
            while i < ips.len()
                invariant
                    all == ips.deep_view(),
                    interface.deep_view().private_ip_addresses == Some(all),
                    i <= ips.len(),
                    forall|j: int|
                        0 <= j < i ==> (#[trigger] all[j]).private_ip_address != Some(private_ip@),
                decreases ips.len() - i,
            {
                if opt_eq(&ips[i].private_ip_address, private_ip) {
                    assert(all[i as int].private_ip_address == Some(private_ip@));
                    return true;
                }
                i = i + 1;
            }
            false
        },
        None => false,
    }
}

/// The id of the first interface that has an id and that private address.
pub fn find_eni_with_ip(interfaces: &Vec<NetworkInterface>, private_ip: &str) -> (r: Option<String>)
    ensures
        r.deep_view() == eni_with_ip(interfaces.deep_view(), private_ip@),
        r is None <==> forall|i: int|
            0 <= i < interfaces.len() ==> !has_address(
                #[trigger] interfaces.deep_view()[i],
                private_ip@,
            ),
        r is Some ==> exists|i: int|
            {
                &&& 0 <= i < interfaces.len()
                &&& has_address(#[trigger] interfaces.deep_view()[i], private_ip@)
                &&& interfaces.deep_view()[i].network_interface_id == r.deep_view()
                &&& forall|j: int|
                    0 <= j < i ==> !has_address(
                        #[trigger] interfaces.deep_view()[j],
                        private_ip@,
                    )
            },
{
    let ghost all = interfaces.deep_view();
    let ghost wanted = |n: NetworkInterfaceView| n.carries(private_ip@);
    let mut i: usize = 0;
    while i < interfaces.len()
        invariant
            all == interfaces.deep_view(),
            wanted == (|n: NetworkInterfaceView| n.carries(private_ip@)),
            i <= interfaces.len(),
            forall|j: int| 0 <= j < i ==> !#[trigger] wanted(all[j]),
        decreases interfaces.len() - i,
    {
        let interface = &interfaces[i];
        assert(all[i as int] == interface.deep_view());
        if let Some(id) = &interface.network_interface_id {
            if has_private_ip(interface, private_ip) {
                proof {
                    assert(is_first(all, wanted, i as int));
                    lemma_first_found(all, wanted, i as int);
                    law_interface_is_found_by_any_address(all, private_ip@);
                }
                return Some(id.clone());
            }
        }
        i = i + 1;
    }
    proof {
        lemma_first_absent(all, wanted);
        law_interface_is_found_by_any_address(all, private_ip@);
    }
    None
}

/// The id of the first interface with that private address, among those of the first instance of
/// the first reservation.
pub fn get_eni_from_private_ip(
    instance: &InstancesDescription,
    private_ip_address: &str,
) -> (r: Option<String>)
    requires
        instance.deep_view().is_populated(),
    ensures
        r.deep_view() == instance.deep_view().eni(private_ip_address@),
{
    match &instance.reservations {
        Some(reservations) => {
            let ghost rs = reservations.deep_view();
            assert(rs[0] == reservations[0].deep_view());
            match &reservations[0].instances {
                Some(instances) => {
                    let ghost is = instances.deep_view();
                    assert(is[0] == instances[0].deep_view());
                    match &instances[0].network_interfaces {
                        Some(interfaces) => find_eni_with_ip(interfaces, private_ip_address),
                        None => None,
                    }
                },
                None => None,
            }
        },
        None => None,
    }
}

/// Whether no list that `get_eni_from_private_ip` looks into is empty.
pub fn is_populated(instance: &InstancesDescription) -> (r: bool)
    ensures
        r == instance.deep_view().is_populated(),
{
    match &instance.reservations {
        Some(reservations) => {
            if reservations.len() == 0 {
                return false;
            }
            let ghost rs = reservations.deep_view();
            assert(rs[0] == reservations[0].deep_view());
            match &reservations[0].instances {
                Some(instances) => instances.len() > 0,
                None => true,
            }
        },
        None => true,
    }
}

// Detachment.

/// Whether a refusal to disassociate means that the association is gone already.
pub open spec fn is_already_gone(e: ServiceError) -> bool {
    e.code.deep_view() == Some(ASSOCIATION_NOT_FOUND@)
}

/// Takes up the answer to a request to disassociate an address. That the association is gone
/// already counts as success.
pub fn disassociate_eip(response: Result<(), ServiceError>) -> (r: Result<(), Error>)
    ensures
        match response {
            Ok(_) => r is Ok,
            Err(e) => if is_already_gone(e) {
                r is Ok
            } else {
                r == Err::<(), Error>(Error::AwsDisassociateAddress { source: e })
            },
        },
{
    match response {
        Ok(_) => Ok(()),
        Err(e) => {
            if opt_eq(&e.code, ASSOCIATION_NOT_FOUND) {
                Ok(())
            } else {
                Err(Error::AwsDisassociateAddress { source: e })
            }
        },
    }
}

// Orphans.

/// The addresses that no live resource owns.
pub open spec fn orphans(
    addresses: Seq<AddressView>,
    owner_tag: Seq<char>,
    live: Seq<Seq<char>>,
) -> Seq<AddressView> {
    addresses.filter(|a: AddressView| a.is_orphan(owner_tag, live))
}

/// Whether `uid` stands among `uids`.
fn contains_uid(uids: &Vec<String>, uid: &str) -> (r: bool)
    ensures
        r == uids.deep_view().contains(uid@),
{
    let ghost all = uids.deep_view();
    let mut i: usize = 0;
    while i < uids.len()
        invariant
            all == uids.deep_view(),
            i <= uids.len(),
            forall|j: int| 0 <= j < i ==> #[trigger] all[j] != uid@,
        decreases uids.len() - i,
    {
        if str_eq(uids[i].as_str(), uid) {
            assert(all[i as int] == uid@);
            return true;
        }
        i = i + 1;
    }
    false
}

/// Whether no live resource owns the address.
pub fn is_orphan(address: &Address, owner_tag: &str, live: &Vec<String>) -> (r: bool)
    ensures
        r == address.deep_view().is_orphan(owner_tag@, live.deep_view()),
{
    match get_tag_from_address(address, owner_tag) {
        Some(owner) => !contains_uid(live, owner),
        None => true,
    }
}

} // verus!

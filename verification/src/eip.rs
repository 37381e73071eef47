//! The `Eip` resource: which pod or nodes it is meant for, and what its status records.
use crate::laws::lookup::{is_open_to, law_first_open_eip_is_taken};
use crate::operation::{api_scope_of_listed, scope_of_listed, ApiScope, ApiScopeView};
use crate::search::{
    first_where, is_first, lemma_filter_step, lemma_first_absent, lemma_first_found,
};
use crate::string_map::StringMap;
use crate::text::{opt_eq, str_eq};
use vstd::prelude::*;

verus! {

/// What an `Eip` is to be attached to.
#[derive(Debug)]
pub enum EipSelector {
    /// The pod of that name, in the namespace of the `Eip`.
    Pod { pod_name: String },
    /// A node that carries all of these labels.
    Node { selector: StringMap },
}

/// What the status of an `Eip` records.
#[derive(Debug)]
pub struct EipStatus {
    pub allocation_id: Option<String>,
    pub public_ip_address: Option<String>,
    pub association_id: Option<String>,
    /// The name of the pod or node that claims the `Eip`.
    pub resource_id: Option<String>,
}

/// An `Eip` resource.
#[derive(Debug)]
pub struct Eip {
    pub name: Option<String>,
    pub namespace: Option<String>,
    pub uid: Option<String>,
    pub resource_version: Option<String>,
    pub selector: EipSelector,
    pub status: Option<EipStatus>,
}

/// An `EipSelector` as a mathematical value.
pub enum EipSelectorView {
    Pod { pod_name: Seq<char> },
    Node { selector: Map<Seq<char>, Seq<char>> },
}

/// An `EipStatus` as a mathematical value.
pub struct EipStatusView {
    pub allocation_id: Option<Seq<char>>,
    pub public_ip_address: Option<Seq<char>>,
    pub association_id: Option<Seq<char>>,
    pub resource_id: Option<Seq<char>>,
}

/// An `Eip` as a mathematical value.
pub struct EipView {
    pub name: Option<Seq<char>>,
    pub namespace: Option<Seq<char>>,
    pub uid: Option<Seq<char>>,
    pub resource_version: Option<Seq<char>>,
    pub selector: EipSelectorView,
    pub status: Option<EipStatusView>,
}

impl DeepView for EipSelector {
    type V = EipSelectorView;

    open spec fn deep_view(&self) -> EipSelectorView {
        match self {
            EipSelector::Pod { pod_name } => EipSelectorView::Pod { pod_name: pod_name@ },
            EipSelector::Node { selector } => EipSelectorView::Node { selector: selector@ },
        }
    }
}

impl DeepView for EipStatus {
    type V = EipStatusView;

    open spec fn deep_view(&self) -> EipStatusView {
        EipStatusView {
            allocation_id: self.allocation_id.deep_view(),
            public_ip_address: self.public_ip_address.deep_view(),
            association_id: self.association_id.deep_view(),
            resource_id: self.resource_id.deep_view(),
        }
    }
}

impl DeepView for Eip {
    type V = EipView;

    open spec fn deep_view(&self) -> EipView {
        EipView {
            name: self.name.deep_view(),
            namespace: self.namespace.deep_view(),
            uid: self.uid.deep_view(),
            resource_version: self.resource_version.deep_view(),
            selector: self.selector.deep_view(),
            status: self.status.deep_view(),
        }
    }
}

impl EipView {
    /// The id of the address that was allocated for the `Eip`.
    pub open spec fn allocation_id(self) -> Option<Seq<char>> {
        match self.status {
            Some(status) => status.allocation_id,
            None => None,
        }
    }

    /// Whether the `Eip` is meant for the pod of that name.
    pub open spec fn matches_pod(self, pod_name: Seq<char>) -> bool {
        self.selector == EipSelectorView::Pod { pod_name }
    }

    /// Whether the `Eip` is meant for a node with these labels.
    pub open spec fn matches_node(self, labels: Option<Map<Seq<char>, Seq<char>>>) -> bool {
        match self.selector {
            EipSelectorView::Node { selector } => selector.submap_of(
                match labels {
                    Some(labels) => labels,
                    None => Map::empty(),
                },
            ),
            EipSelectorView::Pod { .. } => false,
        }
    }

    /// Where the `Eip` is found, once it was listed there: in the namespace whose `Eip`s were
    /// listed, or in its own where all were.
    pub open spec fn scope_within(self, listed: ApiScopeView) -> ApiScopeView {
        scope_of_listed(listed, self.namespace)
    }

    /// Whether the pod or node of that name claims the `Eip`.
    pub open spec fn is_claimed_by(self, resource: Seq<char>) -> bool {
        self.status matches Some(status) && status.resource_id == Some(resource)
    }

    /// Whether the pod or node of that name may claim the `Eip`: its status is known, and nothing
    /// else claims it.
    pub open spec fn is_claimable_by(self, resource: Seq<char>) -> bool {
        self.status matches Some(status) && (status.resource_id is None || status.resource_id
            == Some(resource))
    }
}

impl Clone for EipSelector {
    fn clone(&self) -> (r: Self)
        ensures
            r.deep_view() == self.deep_view(),
    {
        match self {
            EipSelector::Pod { pod_name } => EipSelector::Pod { pod_name: pod_name.clone() },
            EipSelector::Node { selector } => EipSelector::Node { selector: selector.clone() },
        }
    }
}

impl Clone for EipStatus {
    fn clone(&self) -> (r: Self)
        ensures
            r == self,
    {
        EipStatus {
            allocation_id: self.allocation_id.clone(),
            public_ip_address: self.public_ip_address.clone(),
            association_id: self.association_id.clone(),
            resource_id: self.resource_id.clone(),
        }
    }
}

impl Clone for Eip {
    fn clone(&self) -> (r: Self)
        ensures
            r.deep_view() == self.deep_view(),
    {
        Eip {
            name: self.name.clone(),
            namespace: self.namespace.clone(),
            uid: self.uid.clone(),
            resource_version: self.resource_version.clone(),
            selector: self.selector.clone(),
            status: match &self.status {
                Some(status) => Some(status.clone()),
                None => None,
            },
        }
    }
}

impl Eip {
    /// The id of the address that was allocated for the `Eip`.
    pub fn allocation_id(&self) -> (r: Option<&String>)
        ensures
            r.deep_view() == self.deep_view().allocation_id(),
    {
        match &self.status {
            Some(status) => status.allocation_id.as_ref(),
            None => None,
        }
    }

    /// Whether the `Eip` is meant for the pod of that name.
    pub fn matches_pod(&self, pod_name: &str) -> (r: bool)
        ensures
            r == self.deep_view().matches_pod(pod_name@),
    {
        match &self.selector {
            EipSelector::Pod { pod_name: wanted } => str_eq(wanted.as_str(), pod_name),
            EipSelector::Node { .. } => false,
        }
    }

    /// Whether the `Eip` is meant for a node with these labels.
    pub fn matches_node(&self, node_labels: Option<&StringMap>) -> (r: bool)
        ensures
            r == self.deep_view().matches_node(node_labels.deep_view()),
    {
        match &self.selector {
            EipSelector::Node { selector } => match node_labels {
                Some(labels) => selector.is_contained_in(labels),
                None => selector.is_contained_in(&StringMap::new()),
            },
            EipSelector::Pod { .. } => false,
        }
    }

    /// Where the `Eip` is found, once it was listed there.
    pub fn scope_within(&self, listed: &ApiScope) -> (r: ApiScope)
        ensures
            r.deep_view() == self.deep_view().scope_within(listed.deep_view()),
    {
        api_scope_of_listed(listed, &self.namespace)
    }

    /// Whether the pod or node of that name claims the `Eip`.
    pub fn is_claimed_by(&self, resource: &str) -> (r: bool)
        ensures
            r == self.deep_view().is_claimed_by(resource@),
    {
        match &self.status {
            Some(status) => opt_eq(&status.resource_id, resource),
            None => false,
        }
    }

    /// Whether the pod or node of that name may claim the `Eip`.
    pub fn is_claimable_by(&self, resource: &str) -> (r: bool)
        ensures
            r == self.deep_view().is_claimable_by(resource@),
    {
        match &self.status {
            Some(status) => status.resource_id.is_none() || opt_eq(&status.resource_id, resource),
            None => false,
        }
    }
}

/// Which pods or nodes are listed: those whose fields and labels meet these selectors.
#[derive(Debug)]
pub struct ResourceListParams {
    pub field_selector: Option<String>,
    pub label_selector: Option<String>,
}

/// A label selector that asks for all of these labels.
pub open spec fn label_selector(labels: Seq<(Seq<char>, Seq<char>)>) -> Seq<char>
    decreases labels.len(),
{
    if labels.len() == 0 {
        Seq::empty()
    } else {
        let (key, value) = labels.last();
        if labels.len() == 1 {
            key + "="@ + value
        } else {
            label_selector(labels.drop_last()) + ","@ + key + "="@ + value
        }
    }
}

/// A label selector that asks for all of these labels.
fn label_selector_text(labels: &Vec<(String, String)>) -> (r: String)
    ensures
        r@ == label_selector(labels.deep_view()),
{
    let ghost all = labels.deep_view();
    let mut text = String::new();
    let mut i: usize = 0;
    assert(all.take(0) =~= Seq::empty());
    while i < labels.len()
        invariant
            all == labels.deep_view(),
            i <= labels.len(),
            text@ == label_selector(all.take(i as int)),
        decreases labels.len() - i,
    {
        let (key, value) = &labels[i];
        proof {
            assert(all.take(i + 1).drop_last() =~= all.take(i as int));
            assert(all.take(i + 1).last() == (key@, value@));
        }
        if i > 0 {
            text.append(",");
        }
        text.append(key.as_str());
        text.append("=");
        text.append(value.as_str());
        assert(i == 0 ==> text@ =~= key@ + "="@ + value@);
        i = i + 1;
    }
    assert(all.take(all.len() as int) =~= all);
    text
}

impl EipSelector {
    /// How the pods or nodes are listed that an `Eip` is meant for: the pod by its name, the nodes
    /// by the labels that they carry.
    pub fn get_resource_list_params(&self) -> (r: ResourceListParams)
        ensures
            match *self {
                EipSelector::Pod { pod_name } => r.label_selector is None
                    && r.field_selector.deep_view() == Some("metadata.name="@ + pod_name@),
                EipSelector::Node { selector } => r.field_selector is None
                    && r.label_selector.deep_view() == Some(label_selector(selector.listed())),
            },
    {
        match self {
            EipSelector::Pod { pod_name } => ResourceListParams {
                field_selector: Some("metadata.name=".to_owned().concat(pod_name.as_str())),
                label_selector: None,
            },
            EipSelector::Node { selector } => ResourceListParams {
                field_selector: None,
                label_selector: Some(label_selector_text(selector.pairs())),
            },
        }
    }
}

/// The `Eip`s that are meant for the pod of that name.
pub open spec fn for_pod(eips: Seq<EipView>, pod_name: Seq<char>) -> Seq<EipView> {
    eips.filter(|e: EipView| e.matches_pod(pod_name))
}

/// The `Eip`s that are meant for a node with these labels.
pub open spec fn for_node(
    eips: Seq<EipView>,
    labels: Option<Map<Seq<char>, Seq<char>>>,
) -> Seq<EipView> {
    eips.filter(|e: EipView| e.matches_node(labels))
}

/// The `Eip`s that the pod or node of that name claims.
pub open spec fn claimed_by(eips: Seq<EipView>, resource: Seq<char>) -> Seq<EipView> {
    eips.filter(|e: EipView| e.is_claimed_by(resource))
}

/// The first `Eip` that the pod or node of that name may claim.
pub open spec fn first_claimable(eips: Seq<EipView>, resource: Seq<char>) -> Option<EipView> {
    first_where(eips, |e: EipView| e.is_claimable_by(resource))
}

/// The `Eip`s that are meant for the pod of that name.
pub fn eips_for_pod(eips: &Vec<Eip>, pod_name: &str) -> (r: Vec<Eip>)
    ensures
        r.deep_view() == for_pod(eips.deep_view(), pod_name@),
{
    let ghost all = eips.deep_view();
    let ghost wanted = |e: EipView| e.matches_pod(pod_name@);
    let mut kept: Vec<Eip> = Vec::new();
    let mut i: usize = 0;
    proof {
        reveal(Seq::filter);
        assert(all.take(0) =~= Seq::empty());
        assert(kept.deep_view() =~= all.take(0).filter(wanted));
    }
    while i < eips.len()
        invariant
            all == eips.deep_view(),
            wanted == (|e: EipView| e.matches_pod(pod_name@)),
            i <= eips.len(),
            kept.deep_view() == all.take(i as int).filter(wanted),
        decreases eips.len() - i,
    {
        let ghost before = kept.deep_view();
        if eips[i].matches_pod(pod_name) {
            kept.push(eips[i].clone());
            assert(kept.deep_view() =~= before.push(all[i as int]));
        }
        proof {
            lemma_filter_step(all, wanted, i as int);
        }
        i = i + 1;
    }
    proof {
        assert(all.take(all.len() as int) =~= all);
    }
    kept
}

/// The `Eip`s that are meant for a node with these labels.
pub fn eips_for_node(eips: &Vec<Eip>, labels: Option<&StringMap>) -> (r: Vec<Eip>)
    ensures
        r.deep_view() == for_node(eips.deep_view(), labels.deep_view()),
{
    let ghost all = eips.deep_view();
    let ghost wanted = |e: EipView| e.matches_node(labels.deep_view());
    let mut kept: Vec<Eip> = Vec::new();
    let mut i: usize = 0;
    proof {
        reveal(Seq::filter);
        assert(all.take(0) =~= Seq::empty());
        assert(kept.deep_view() =~= all.take(0).filter(wanted));
    }
    while i < eips.len()
        invariant
            all == eips.deep_view(),
            wanted == (|e: EipView| e.matches_node(labels.deep_view())),
            i <= eips.len(),
            kept.deep_view() == all.take(i as int).filter(wanted),
        decreases eips.len() - i,
    {
        let ghost before = kept.deep_view();
        if eips[i].matches_node(labels) {
            kept.push(eips[i].clone());
            assert(kept.deep_view() =~= before.push(all[i as int]));
        }
        proof {
            lemma_filter_step(all, wanted, i as int);
        }
        i = i + 1;
    }
    proof {
        assert(all.take(all.len() as int) =~= all);
    }
    kept
}

/// The `Eip`s that the pod or node of that name claims.
pub fn eips_claimed_by(eips: &Vec<Eip>, resource: &str) -> (r: Vec<Eip>)
    ensures
        r.deep_view() == claimed_by(eips.deep_view(), resource@),
{
    let ghost all = eips.deep_view();
    let ghost wanted = |e: EipView| e.is_claimed_by(resource@);
    let mut kept: Vec<Eip> = Vec::new();
    let mut i: usize = 0;
    proof {
        reveal(Seq::filter);
        assert(all.take(0) =~= Seq::empty());
        assert(kept.deep_view() =~= all.take(0).filter(wanted));
    }
    while i < eips.len()
        invariant
            all == eips.deep_view(),
            wanted == (|e: EipView| e.is_claimed_by(resource@)),
            i <= eips.len(),
            kept.deep_view() == all.take(i as int).filter(wanted),
        decreases eips.len() - i,
    {
        let ghost before = kept.deep_view();
        if eips[i].is_claimed_by(resource) {
            kept.push(eips[i].clone());
            assert(kept.deep_view() =~= before.push(all[i as int]));
        }
        proof {
            lemma_filter_step(all, wanted, i as int);
        }
        i = i + 1;
    }
    proof {
        assert(all.take(all.len() as int) =~= all);
    }
    kept
}

/// The first `Eip` that the pod or node of that name may claim.
pub fn first_claimable_eip<'a>(eips: &'a Vec<Eip>, resource: &str) -> (r: Option<&'a Eip>)
    ensures
        r.deep_view() == first_claimable(eips.deep_view(), resource@),
        r is None <==> forall|i: int|
            0 <= i < eips.len() ==> !is_open_to(#[trigger] eips.deep_view()[i], resource@),
        r matches Some(eip) ==> exists|i: int|
            {
                &&& 0 <= i < eips.len()
                &&& #[trigger] eips.deep_view()[i] == eip.deep_view()
                &&& is_open_to(eips.deep_view()[i], resource@)
                &&& forall|j: int|
                    0 <= j < i ==> !is_open_to(#[trigger] eips.deep_view()[j], resource@)
            },
{
    let ghost all = eips.deep_view();
    let ghost wanted = |e: EipView| e.is_claimable_by(resource@);
    let mut i: usize = 0;
    while i < eips.len()
        invariant
            all == eips.deep_view(),
            wanted == (|e: EipView| e.is_claimable_by(resource@)),
            i <= eips.len(),
            forall|j: int| 0 <= j < i ==> !#[trigger] wanted(all[j]),
        decreases eips.len() - i,
    {
        if eips[i].is_claimable_by(resource) {
            proof {
                assert(is_first(all, wanted, i as int));
                lemma_first_found(all, wanted, i as int);
                law_first_open_eip_is_taken(all, resource@);
            }
            return Some(&eips[i]);
        }
        i = i + 1;
    }
    proof {
        lemma_first_absent(all, wanted);
        law_first_open_eip_is_taken(all, resource@);
    }
    None
}

} // verus!

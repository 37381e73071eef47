//! What holds of the tags that addresses carry.
use crate::aws::{
    eip_tags, tag, tag_filter_view, tag_value, tags_of, AddressView, FilterView, TagView,
    CLUSTER_NAME_TAG, EIP_NAME_TAG, EIP_UID_TAG, LEGACY_CLUSTER_NAME_TAG, NAMESPACE_TAG, NAME_TAG,
};
use crate::controller::eip::{start_apply, uid_filters, Context, EipApply};
use crate::controller::Context as ControllerContext;
use crate::eip::{EipSelectorView, EipView};
use crate::error::Error;
use crate::json::string_map_json;
use crate::kube_ext::PodView;
use crate::legacy::{
    legacy_tags, pod_uid_filters, start_apply as start_pod_apply, LegacyApply, LEGACY_POD_NAME_TAG,
    LEGACY_POD_UID_TAG,
};
use crate::operation::{asked, run, ReplyView, RequestView};
use crate::orphans::{cluster_filters, legacy_cluster_filters};
use crate::search::{is_first, lemma_first_absent, lemma_first_found};
use crate::string_map::{law_last_pair_counts, law_map_holds_what_it_lists};
use vstd::prelude::*;

verus! {

/// Whether none of the default tags has that key.
pub open spec fn is_unused(default_tags: Seq<(Seq<char>, Seq<char>)>, key: Seq<char>) -> bool {
    forall|i: int| 0 <= i < default_tags.len() ==> (#[trigger] default_tags[i]).0 != key
}

/// Whether a filter lets an address pass.
pub open spec fn passes(address: AddressView, filter: FilterView) -> bool {
    exists|key: Seq<char>|
        filter == #[trigger] tag_filter_view(key, filter.value) && address.tag(key) == Some(
            filter.value,
        )
}

/// Whether all filters let an address pass.
pub open spec fn passes_all(address: AddressView, filters: Seq<FilterView>) -> bool {
    forall|i: int| 0 <= i < filters.len() ==> passes(address, #[trigger] filters[i])
}

/// A tag that stands behind the default tags is found under its key, if no tag before it has the
/// same key.
proof fn lemma_tag_value(
    default_tags: Seq<(Seq<char>, Seq<char>)>,
    own: Seq<TagView>,
    k: int,
    key: Seq<char>,
    value: Seq<char>,
)
    requires
        is_unused(default_tags, key),
        0 <= k < own.len(),
        own[k] == tag(key, value),
        forall|j: int| 0 <= j < k ==> (#[trigger] own[j]).key != Some(key),
    ensures
        tag_value(tags_of(default_tags) + own, key) == Some(value),
{
    let defaults = tags_of(default_tags);
    let all = defaults + own;
    let wanted = |t: TagView| t.key == Some(key);
    let n = defaults.len() + k;
    assert(all[n] == own[k]);
    assert forall|j: int| 0 <= j < n implies !#[trigger] wanted(all[j]) by {
        if j < defaults.len() {
            assert(all[j] == tag(default_tags[j].0, default_tags[j].1));
        } else {
            assert(all[j] == own[j - defaults.len()]);
        }
    }
    assert(is_first(all, wanted, n));
    lemma_first_found(all, wanted, n);
}

proof fn lemma_distinct_keys()
    ensures
        EIP_UID_TAG@ != EIP_NAME_TAG@,
        EIP_UID_TAG@ != NAMESPACE_TAG@,
        EIP_UID_TAG@ != CLUSTER_NAME_TAG@,
        EIP_NAME_TAG@ != NAMESPACE_TAG@,
        EIP_NAME_TAG@ != CLUSTER_NAME_TAG@,
        NAMESPACE_TAG@ != CLUSTER_NAME_TAG@,
        LEGACY_POD_UID_TAG@ != LEGACY_CLUSTER_NAME_TAG@,
        EIP_UID_TAG@ != LEGACY_POD_UID_TAG@,
        EIP_UID_TAG@ != LEGACY_CLUSTER_NAME_TAG@,
        EIP_UID_TAG@ != LEGACY_POD_NAME_TAG@,
        EIP_UID_TAG@ != NAME_TAG@,
{
    reveal_strlit("eip.materialize.cloud/eip_uid");
    reveal_strlit("eip.materialize.cloud/eip_name");
    reveal_strlit("eip.materialize.cloud/namespace");
    reveal_strlit("eip.materialize.cloud/cluster_name");
    reveal_strlit("eip.aws.materialize.com/pod_uid");
    reveal_strlit("eip.aws.materialize.com/pod_name");
    reveal_strlit("eip.aws.materialize.com/cluster_name");
    reveal_strlit("Name");
    assert(EIP_UID_TAG@.len() == 29);
    assert(EIP_NAME_TAG@.len() == 30);
    assert(NAMESPACE_TAG@.len() == 31);
    assert(CLUSTER_NAME_TAG@.len() == 34);
    assert(LEGACY_POD_UID_TAG@.len() == 31);
    assert(LEGACY_POD_NAME_TAG@.len() == 32);
    assert(LEGACY_CLUSTER_NAME_TAG@.len() == 36);
    assert(NAME_TAG@.len() == 4);
}

/// An address that is allocated for an `Eip` is tagged with its uid and its name, its namespace and
/// its cluster, provided that no default tag takes the key.
pub proof fn law_allocated_address_is_identified(
    default_tags: Seq<(Seq<char>, Seq<char>)>,
    uid: Seq<char>,
    name: Seq<char>,
    selector: EipSelectorView,
    cluster_name: Seq<char>,
    namespace: Seq<char>,
)
    ensures
        ({
            let tags = tags_of(default_tags) + eip_tags(
                uid,
                name,
                selector,
                cluster_name,
                namespace,
            );
            &&& is_unused(default_tags, EIP_UID_TAG@) ==> tag_value(tags, EIP_UID_TAG@) == Some(uid)
            &&& is_unused(default_tags, EIP_NAME_TAG@) ==> tag_value(tags, EIP_NAME_TAG@) == Some(
                name,
            )
            &&& is_unused(default_tags, NAMESPACE_TAG@) ==> tag_value(tags, NAMESPACE_TAG@) == Some(
                namespace,
            )
            &&& is_unused(default_tags, CLUSTER_NAME_TAG@) ==> tag_value(tags, CLUSTER_NAME_TAG@)
                == Some(cluster_name)
        }),
{
    lemma_distinct_keys();
    let own = eip_tags(uid, name, selector, cluster_name, namespace);
    if is_unused(default_tags, EIP_UID_TAG@) {
        lemma_tag_value(default_tags, own, 0, EIP_UID_TAG@, uid);
    }
    if is_unused(default_tags, EIP_NAME_TAG@) {
        lemma_tag_value(default_tags, own, 1, EIP_NAME_TAG@, name);
    }
    if is_unused(default_tags, NAMESPACE_TAG@) {
        lemma_tag_value(default_tags, own, 2, NAMESPACE_TAG@, namespace);
    }
    if is_unused(default_tags, CLUSTER_NAME_TAG@) {
        lemma_tag_value(default_tags, own, 3, CLUSTER_NAME_TAG@, cluster_name);
    }
}

/// An address that was allocated for an `Eip` is found again: by the uid of the `Eip`, so that no
/// second one is allocated for it, and by the cluster and the namespace, so that it can be given
/// back once the `Eip` is gone. It is an orphan exactly when no live `Eip` has that uid.
pub proof fn law_allocated_address_is_found_again(
    default_tags: Seq<(Seq<char>, Seq<char>)>,
    uid: Seq<char>,
    name: Seq<char>,
    selector: EipSelectorView,
    cluster_name: Seq<char>,
    namespace: Seq<char>,
    address: AddressView,
    live: Seq<Seq<char>>,
)
    requires
        is_unused(default_tags, EIP_UID_TAG@),
        is_unused(default_tags, NAMESPACE_TAG@),
        is_unused(default_tags, CLUSTER_NAME_TAG@),
        address.tags == Some(
            tags_of(default_tags) + eip_tags(uid, name, selector, cluster_name, namespace),
        ),
    ensures
        passes_all(address, uid_filters(uid)),
        passes_all(address, cluster_filters(cluster_name, Some(namespace))),
        passes_all(address, cluster_filters(cluster_name, None)),
        address.is_orphan(EIP_UID_TAG@, live) <==> !live.contains(uid),
{
    law_allocated_address_is_identified(
        default_tags,
        uid,
        name,
        selector,
        cluster_name,
        namespace,
    );
    lemma_passes(address, EIP_UID_TAG@, uid);
    lemma_passes(address, CLUSTER_NAME_TAG@, cluster_name);
    lemma_passes(address, NAMESPACE_TAG@, namespace);
}

proof fn lemma_passes(address: AddressView, key: Seq<char>, value: Seq<char>)
    requires
        address.tag(key) == Some(value),
    ensures
        passes(address, tag_filter_view(key, value)),
{
    let filter = tag_filter_view(key, value);
    assert(filter == tag_filter_view(key, filter.value));
}

/// An address that was allocated for a pod is found again by the uid of the pod and by the cluster,
/// provided that no default tag takes these keys. It is an orphan exactly when no live pod has that
/// uid.
pub proof fn law_address_of_a_pod_is_found_again(
    default_tags: Seq<(Seq<char>, Seq<char>)>,
    pod_uid: Seq<char>,
    pod_name: Seq<char>,
    cluster_name: Seq<char>,
    address: AddressView,
    live: Seq<Seq<char>>,
)
    requires
        is_unused(default_tags, LEGACY_POD_UID_TAG@),
        is_unused(default_tags, LEGACY_CLUSTER_NAME_TAG@),
        address.tags == Some(tags_of(default_tags) + legacy_tags(pod_uid, pod_name, cluster_name)),
    ensures
        passes_all(address, pod_uid_filters(pod_uid)),
        passes_all(address, legacy_cluster_filters(cluster_name)),
        address.is_orphan(LEGACY_POD_UID_TAG@, live) <==> !live.contains(pod_uid),
{
    lemma_distinct_keys();
    let own = legacy_tags(pod_uid, pod_name, cluster_name);
    lemma_tag_value(default_tags, own, 0, LEGACY_POD_UID_TAG@, pod_uid);
    lemma_tag_value(default_tags, own, 1, LEGACY_CLUSTER_NAME_TAG@, cluster_name);
    lemma_passes(address, LEGACY_POD_UID_TAG@, pod_uid);
    lemma_passes(address, LEGACY_CLUSTER_NAME_TAG@, cluster_name);
}

/// To the operator that keeps `Eip` resources, an address that was allocated for a pod is an
/// orphan, provided that no default tag takes the key of the `Eip`'s uid.
pub proof fn law_address_of_a_pod_belongs_to_no_eip(
    default_tags: Seq<(Seq<char>, Seq<char>)>,
    pod_uid: Seq<char>,
    pod_name: Seq<char>,
    cluster_name: Seq<char>,
    address: AddressView,
    live: Seq<Seq<char>>,
)
    requires
        is_unused(default_tags, EIP_UID_TAG@),
        address.tags == Some(tags_of(default_tags) + legacy_tags(pod_uid, pod_name, cluster_name)),
    ensures
        address.is_orphan(EIP_UID_TAG@, live),
{
    lemma_distinct_keys();
    let defaults = tags_of(default_tags);
    let own = legacy_tags(pod_uid, pod_name, cluster_name);
    let all = defaults + own;
    let wanted = |t: TagView| t.key == Some(EIP_UID_TAG@);
    assert forall|j: int| 0 <= j < all.len() implies !#[trigger] wanted(all[j]) by {
        if j < defaults.len() {
            assert(all[j] == tag(default_tags[j].0, default_tags[j].1));
        } else {
            assert(all[j] == own[j - defaults.len()]);
        }
    }
    lemma_first_absent(all, wanted);
}

/// The tags of an address that is allocated for an `Eip` begin with the default tags, every one of
/// them in the order given, and the operator's own follow.
pub proof fn law_every_default_tag_is_given(
    eip: EipView,
    cluster_name: Seq<char>,
    default_tags: Seq<(Seq<char>, Seq<char>)>,
)
    requires
        eip.uid is Some,
        eip.name is Some,
        eip.namespace is Some,
    ensures
        ({
            let answers = seq![Ok::<ReplyView, Error>(ReplyView::Addresses(Some(Seq::empty())))];
            let n = default_tags.len() as int;
            asked::<EipApply>(start_apply(eip, cluster_name, default_tags), answers) matches Some(
                RequestView::AllocateAddress { tags },
            ) && {
                &&& tags.len() == n + 6
                &&& forall|i: int|
                    0 <= i < n ==> (#[trigger] tags[i]).key == Some(default_tags[i].0)
                        && tags[i].value == Some(default_tags[i].1)
                &&& tags[n].key == Some("eip.materialize.cloud/eip_uid"@)
                &&& tags[n].value == eip.uid
                &&& tags[n + 1].key == Some("eip.materialize.cloud/eip_name"@)
                &&& tags[n + 1].value == eip.name
                &&& tags[n + 2].key == Some("eip.materialize.cloud/namespace"@)
                &&& tags[n + 2].value == eip.namespace
                &&& tags[n + 3].key == Some("eip.materialize.cloud/cluster_name"@)
                &&& tags[n + 3].value == Some(cluster_name)
                &&& eip.selector matches EipSelectorView::Pod { pod_name } ==> tags[n + 4].key
                    == Some("eip.materialize.cloud/pod_name"@) && tags[n + 4].value == Some(
                    pod_name,
                )
                &&& eip.selector matches EipSelectorView::Node { selector } ==> tags[n + 4].key
                    == Some("eip.materialize.cloud/node_selector"@) && tags[n + 4].value == Some(
                    string_map_json(selector),
                )
                &&& tags[n + 5].key == Some("Name"@)
                &&& tags[n + 5].value == Some(
                    "eip-operator:"@ + cluster_name + ":"@ + eip.namespace->0 + ":"@ + eip.name->0,
                )
            }
        }),
{
    let answers = seq![Ok::<ReplyView, Error>(ReplyView::Addresses(Some(Seq::empty())))];
    let start = start_apply(eip, cluster_name, default_tags);
    assert(answers.drop_last() =~= Seq::empty());
    assert(run::<EipApply>(start, answers.drop_last()) == start);
}

/// Every entry of the default tags that the operator is given becomes a tag of each address that it
/// allocates.
pub proof fn law_no_default_tag_is_lost(context: Context, eip: EipView, key: Seq<char>)
    requires
        eip.uid is Some,
        eip.name is Some,
        eip.namespace is Some,
        context.default_tags@.contains_key(key),
    ensures
        ({
            let answers = seq![Ok::<ReplyView, Error>(ReplyView::Addresses(Some(Seq::empty())))];
            asked::<EipApply>(context.apply_start(eip), answers) matches Some(
                RequestView::AllocateAddress { tags },
            ) && tags.contains(
                TagView { key: Some(key), value: Some(context.default_tags@[key]) },
            )
        }),
{
    let pairs = context.default_tags.listed();
    let answers = seq![Ok::<ReplyView, Error>(ReplyView::Addresses(Some(Seq::empty())))];
    law_every_default_tag_is_given(eip, context.cluster_name@, pairs);
    law_map_holds_what_it_lists(context.default_tags);
    law_last_pair_counts(pairs);
    let pair = (key, context.default_tags@[key]);
    assert(pairs.contains(pair));
    let i = choose|i: int| 0 <= i < pairs.len() && pairs[i] == pair;
    let tags = asked::<EipApply>(context.apply_start(eip), answers)->0->tags;
    assert(tags[i] == (TagView { key: Some(key), value: Some(context.default_tags@[key]) }));
}

/// The tags of an address that is allocated for a pod begin with the default tags, every one of
/// them in the order given, and the operator's own follow.
pub proof fn law_every_default_tag_is_given_to_a_pod(
    pod: PodView,
    namespace: Seq<char>,
    cluster_name: Seq<char>,
    default_tags: Seq<(Seq<char>, Seq<char>)>,
)
    requires
        pod.uid is Some,
        pod.name is Some,
    ensures
        ({
            let answers = seq![Ok::<ReplyView, Error>(ReplyView::Addresses(Some(Seq::empty())))];
            let start = start_pod_apply(pod, namespace, cluster_name, default_tags);
            let n = default_tags.len() as int;
            asked::<LegacyApply>(start, answers) matches Some(RequestView::AllocateAddress { tags })
                && {
                &&& tags.len() == n + 4
                &&& forall|i: int|
                    0 <= i < n ==> (#[trigger] tags[i]).key == Some(default_tags[i].0)
                        && tags[i].value == Some(default_tags[i].1)
                &&& tags[n].key == Some("eip.aws.materialize.com/pod_uid"@)
                &&& tags[n].value == pod.uid
                &&& tags[n + 1].key == Some("eip.aws.materialize.com/cluster_name"@)
                &&& tags[n + 1].value == Some(cluster_name)
                &&& tags[n + 2].key == Some("eip.aws.materialize.com/pod_name"@)
                &&& tags[n + 2].value == pod.name
                &&& tags[n + 3].key == Some("Name"@)
                &&& tags[n + 3].value == Some(
                    "eip-operator:"@ + cluster_name + ":"@ + pod.name->0,
                )
            }
        }),
{
    let answers = seq![Ok::<ReplyView, Error>(ReplyView::Addresses(Some(Seq::empty())))];
    let start = start_pod_apply(pod, namespace, cluster_name, default_tags);
    assert(answers.drop_last() =~= Seq::empty());
    assert(run::<LegacyApply>(start, answers.drop_last()) == start);
}

/// As tags, pairs keep their number, their order, their keys and their values.
pub proof fn law_pairs_become_tags(pairs: Seq<(Seq<char>, Seq<char>)>)
    ensures
        tags_of(pairs).len() == pairs.len(),
        forall|i: int|
            0 <= i < pairs.len() ==> (#[trigger] tags_of(pairs)[i]).key == Some(pairs[i].0)
                && tags_of(pairs)[i].value == Some(pairs[i].1),
{
}

} // verus!

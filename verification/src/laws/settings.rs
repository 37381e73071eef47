//! What holds of the names, times and settings that the operators go by.
use crate::controller::eip::{
    start_apply as start_eip_apply, start_cleanup as start_eip_cleanup, Context as EipContext,
};
use crate::controller::node::{
    start_apply as start_node_apply, start_cleanup as start_node_cleanup, Context as NodeContext,
};
use crate::controller::pod::{
    start_apply as start_pod_apply, start_cleanup as start_pod_cleanup, Context as PodContext,
};
use crate::controller::Context;
use crate::eip::EipView;
use crate::error::Error;
use crate::kube_ext::{NodeView, PodView};
use crate::labels::{MANAGE_EIP_LABEL, REFRESH_LABEL};
use crate::legacy::legacy_text;
use crate::operation::{
    requeue_after_millis, requeue_after_secs, scope_of, scope_of_listed, ApiScopeView,
};
use crate::settings::or_default;
use crate::telemetry::{headers_of, is_key_char, is_metadata_value, metadata_key};
use crate::text::ascii_lower;
use vstd::prelude::*;

verus! {

/// How pods are reconciled.
pub proof fn law_pods_are_reconciled(context: PodContext, pod: PodView)
    ensures
        PodContext::finalizer() == "eip.materialize.cloud/disassociate"@,
        PodContext::namespace_of(pod) == pod.namespace,
        PodContext::is_applicable(pod) <==> pod.name is Some && pod.namespace is Some,
        PodContext::is_cleanable(pod) <==> pod.name is Some && pod.namespace is Some,
        context.apply_start(pod) == start_pod_apply(pod),
        context.cleanup_start(pod) == start_pod_cleanup(pod),
{
}

/// How nodes are reconciled: the `Eip`s for them are those of the namespace that is given.
pub proof fn law_nodes_are_reconciled(context: NodeContext, node: NodeView)
    ensures
        NodeContext::finalizer() == "eip.materialize.cloud/disassociate_node"@,
        NodeContext::namespace_of(node) is None,
        NodeContext::is_applicable(node) <==> node.name is Some,
        NodeContext::is_cleanable(node) <==> node.name is Some,
        context.apply_start(node) == start_node_apply(node, context.namespace.deep_view()),
        context.cleanup_start(node) == start_node_cleanup(node, context.namespace.deep_view()),
{
}

/// How `Eip`s are reconciled: with the cluster and the default tags that are given.
pub proof fn law_eips_are_reconciled(context: EipContext, eip: EipView)
    ensures
        EipContext::finalizer() == "eip.materialize.cloud/destroy"@,
        EipContext::namespace_of(eip) == eip.namespace,
        EipContext::is_applicable(eip) <==> eip.namespace is Some && (eip.uid is None || eip.name
            is Some),
        EipContext::is_cleanable(eip),
        context.apply_start(eip) == start_eip_apply(
            eip,
            context.cluster_name@,
            context.default_tags.listed(),
        ),
        context.cleanup_start(eip) == start_eip_cleanup(eip),
{
}

/// A time to wait is counted in milliseconds.
pub proof fn law_times_are_in_milliseconds(n: u64)
    ensures
        requeue_after_millis(n).requeue_after_millis == Some(n),
        n * 1000 <= u64::MAX ==> requeue_after_secs(n).requeue_after_millis == Some(
            (n * 1000) as u64,
        ),
{
}

/// With a namespace, objects are looked for in that one, and without one in all. What was listed in
/// a namespace is found there, and what was listed among all is found in its own.
pub proof fn law_scopes(given: Seq<char>, own: Seq<char>)
    ensures
        scope_of(Some(given)) == ApiScopeView::Namespaced(given),
        scope_of(None) == ApiScopeView::All,
        scope_of_listed(ApiScopeView::Namespaced(given), Some(own)) == ApiScopeView::Namespaced(
            given,
        ),
        scope_of_listed(ApiScopeView::Namespaced(given), None) == ApiScopeView::Namespaced(given),
        scope_of_listed(ApiScopeView::All, Some(own)) == ApiScopeView::Namespaced(own),
        scope_of_listed(ApiScopeView::All, None) == ApiScopeView::All,
{
}

/// The labels that the operators look for and set.
pub proof fn law_labels()
    ensures
        MANAGE_EIP_LABEL@ == "eip.materialize.cloud/manage"@,
        REFRESH_LABEL@ == "eip.materialize.cloud/refresh"@,
{
}

/// A setting that is given is taken as it is; another has its default.
pub proof fn law_settings_have_defaults(value: Seq<char>, default: Seq<char>)
    ensures
        or_default(Some(value), default) == value,
        or_default(None, default) == default,
{
}

/// Headers keep their number, their order and their values, and their keys in lower case.
pub proof fn law_headers_keep_their_values(pairs: Seq<(Seq<char>, Seq<char>)>, i: int)
    requires
        0 <= i < pairs.len(),
        metadata_key(pairs[i].0) is Some,
    ensures
        headers_of(pairs).len() == pairs.len(),
        headers_of(pairs)[i].1 == pairs[i].1,
        headers_of(pairs)[i].0.len() == pairs[i].0.len(),
        forall|k: int|
            0 <= k < pairs[i].0.len() ==> #[trigger] headers_of(pairs)[i].0[k] == ascii_lower(
                pairs[i].0[k],
            ),
{
}

/// The characters that may stand in the key of a header are the letters, the digits and fifteen
/// signs; and a text is a key where it holds such characters only, is neither empty nor too long,
/// and does not end like the key of a binary header.
pub proof fn law_keys_of_headers(text: Seq<char>, c: char)
    ensures
        is_key_char(c) <==> 'a' <= c <= 'z' || 'A' <= c <= 'Z' || '0' <= c <= '9'
            || "!#$%&'*+-.^_`|~"@.contains(c),
        metadata_key(text) is Some <==> {
            &&& 0 < text.len() <= 65535
            &&& forall|i: int| 0 <= i < text.len() ==> is_key_char(#[trigger] text[i])
            &&& !(text.len() >= 4 && ascii_lower(text[text.len() - 4]) == '-' && ascii_lower(
                text[text.len() - 3],
            ) == 'b' && ascii_lower(text[text.len() - 2]) == 'i' && ascii_lower(
                text[text.len() - 1],
            ) == 'n')
        },
        is_metadata_value(text) <==> forall|i: int|
            0 <= i < text.len() ==> (#[trigger] text[i]) == '\t' || (text[i] as int >= 32
                && text[i] as int != 127),
{
    reveal_strlit("!#$%&'*+-.^_`|~");
    reveal_strlit("-bin");
    let signs = "!#$%&'*+-.^_`|~"@;
    assert(signs.len() == 15);
    assert(signs[0] == '!' && signs[1] == '#' && signs[2] == '$' && signs[3] == '%' && signs[4]
        == '&' && signs[5] == '\'' && signs[6] == '*' && signs[7] == '+' && signs[8] == '-'
        && signs[9] == '.' && signs[10] == '^' && signs[11] == '_' && signs[12] == '`' && signs[13]
        == '|' && signs[14] == '~');
    let key = text.map_values(|c: char| ascii_lower(c));
    let n = text.len() as int;
    if n >= 4 {
        let tail = key.subrange(n - 4, n);
        assert(tail.len() == 4);
        assert(tail[0] == ascii_lower(text[n - 4]));
        assert(tail[1] == ascii_lower(text[n - 3]));
        assert(tail[2] == ascii_lower(text[n - 2]));
        assert(tail[3] == ascii_lower(text[n - 1]));
        if tail[0] == '-' && tail[1] == 'b' && tail[2] == 'i' && tail[3] == 'n' {
            assert(tail =~= "-bin"@);
        }
        if "-bin"@.is_suffix_of(key) {
            assert(tail == "-bin"@);
        }
    }
}

/// The words of the operator for clusters without `Eip` resources differ from those of the other
/// one for these errors only.
pub proof fn law_words_of_the_bare_operator(e: Error)
    ensures
        match e {
            Error::AllocateAddress { source } => legacy_text(e)
                == "Rusoto allocate_address reported error: "@ + source@,
            Error::AwsDescribeInstances { source } => legacy_text(e)
                == "Rusoto describe_instances reported error: "@ + source@,
            Error::AwsDescribeAddresses { source } => legacy_text(e)
                == "Rusoto describe_addresses reported error: "@ + source@,
            Error::AwsAssociateAddress { source } => legacy_text(e)
                == "Rusoto associate_address reported error: "@ + source@,
            Error::AwsDisassociateAddress { source } => legacy_text(e)
                == "Rusoto disassociate_address reported error: "@ + source.message@,
            Error::AwsReleaseAddress { source } => legacy_text(e)
                == "Rusoto release_address reported error: "@ + source@,
            Error::MissingNetworkInterfaces => legacy_text(e)
                == "DescribeInstancesResult.reservations[0].instances[0].network_insterfaces was None."@,
            _ => legacy_text(e) == e.text(),
        },
{
}

/// In lower case, a capital letter is the small one at the same place of the alphabet.
pub proof fn law_lower_case(c: char)
    ensures
        'A' <= c <= 'Z' ==> ascii_lower(c) as int - 'a' as int == c as int - 'A' as int,
        !('A' <= c <= 'Z') ==> ascii_lower(c) == c,
{
}

} // verus!

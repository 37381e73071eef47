//! The course of reconciling an `Eip`: which request follows which reply.
use crate::aws::AddressView;
use crate::controller::eip::{
    any_named, names_of, refresh, start_apply, uid_filters, EipApply, EipApplyView, EipJobView,
};
use crate::eip::EipView;
use crate::error::{Error, ServiceError};
use crate::laws::course::{lemma_push, told, Answers};
use crate::laws::course_cleanup::is_ended;
use crate::operation::{
    asked, run, Action, AllocatedAddressView, ApiScopeView, MatchedResourceView, Operation,
    Progress, ReplyView, RequestView,
};
use vstd::prelude::*;

verus! {

/// Whether an `Eip` has a name, a namespace and a uid.
pub open spec fn is_known(eip: EipView) -> bool {
    eip.name is Some && eip.namespace is Some && eip.uid is Some
}

/// An `Eip` without a uid is refused; for any other, the addresses that are tagged with its uid are
/// described.
pub proof fn law_course_of_an_eip_begins(
    eip: EipView,
    cluster_name: Seq<char>,
    default_tags: Seq<(Seq<char>, Seq<char>)>,
)
    ensures
        eip.uid is None ==> start_apply(eip, cluster_name, default_tags) == Progress::<
            EipApplyView,
            Option<Action>,
        >::Finished(Err(Error::MissingEipUid)),
        eip.uid matches Some(uid) ==> asked::<EipApply>(
            start_apply(eip, cluster_name, default_tags),
            Seq::empty(),
        ) == Some(RequestView::DescribeAddresses { filters: uid_filters(uid) }),
{
}

/// Whether the course of an `Eip` goes on from an address with that id and that public address: an
/// address without an id or without a public address is refused, any other is recorded in the
/// status of the `Eip`.
pub open spec fn records(
    eip: EipView,
    progress: Progress<EipApplyView, Option<Action>>,
    allocation_id: Option<Seq<char>>,
    public_ip: Option<Seq<char>>,
) -> bool {
    match (allocation_id, public_ip) {
        (None, _) => progress == Progress::<EipApplyView, Option<Action>>::Finished(
            Err(Error::MissingAllocationId),
        ),
        (Some(_), None) => progress == Progress::<EipApplyView, Option<Action>>::Finished(
            Err(Error::MissingPublicIp),
        ),
        (Some(allocation_id), Some(public_ip)) => progress is Pending && EipApply::ask(
            progress->Pending_0,
        ) == (RequestView::SetStatusCreated {
            namespace: eip.namespace->0,
            name: eip.name->0,
            allocation_id,
            public_ip,
        }),
    }
}

/// Where no address is tagged for an `Eip`, one is allocated; where there is one, it is taken; and
/// more than one is an error. The address is recorded in the status of the `Eip`.
pub proof fn law_course_of_an_eip_to_its_address(
    eip: EipView,
    cluster_name: Seq<char>,
    default_tags: Seq<(Seq<char>, Seq<char>)>,
    addresses: Seq<AddressView>,
    allocated: AllocatedAddressView,
)
    requires
        is_known(eip),
    ensures
        ({
            let start = start_apply(eip, cluster_name, default_tags);
            let described = seq![told(ReplyView::Addresses(Some(addresses)))];
            let added = described.push(told(ReplyView::Allocated(allocated)));
            &&& run::<EipApply>(start, seq![told(ReplyView::Addresses(None))]) == Progress::<
                EipApplyView,
                Option<Action>,
            >::Finished(Err(Error::MissingAddresses))
            &&& addresses.len() > 1 ==> run::<EipApply>(start, described) == Progress::<
                EipApplyView,
                Option<Action>,
            >::Finished(Err(Error::MultipleEipsTaggedForPod))
            &&& addresses.len() == 1 ==> records(
                eip,
                run::<EipApply>(start, described),
                addresses[0].allocation_id,
                addresses[0].public_ip,
            )
            &&& addresses.len() == 0 ==> {
                &&& asked::<EipApply>(start, described) is Some
                &&& asked::<EipApply>(start, described)->0 is AllocateAddress
                &&& records(
                    eip,
                    run::<EipApply>(start, added),
                    allocated.allocation_id,
                    allocated.public_ip,
                )
            }
        }),
{
    let start = start_apply(eip, cluster_name, default_tags);
    let missing = told(ReplyView::Addresses(None));
    let first = told(ReplyView::Addresses(Some(addresses)));
    assert(seq![missing] =~= Seq::empty().push(missing));
    assert(seq![first] =~= Seq::empty().push(first));
    lemma_push::<EipApply>(start, Seq::empty(), missing);
    lemma_push::<EipApply>(start, Seq::empty(), first);
    lemma_push::<EipApply>(start, seq![first], told(ReplyView::Allocated(allocated)));
}

/// Whether answers lead to an address that is recorded in the status of an `Eip`: one that was
/// described, or one that was allocated where none was.
pub open spec fn leads_to_address(way: Answers) -> bool {
    &&& way.len() >= 2
    &&& way.last() == told(ReplyView::Done)
    &&& way[0] is Ok
    &&& way[0]->Ok_0 is Addresses
    &&& way[0]->Ok_0->Addresses_0 is Some
    &&& {
        let addresses = way[0]->Ok_0->Addresses_0->0;
        if addresses.len() == 0 {
            &&& way.len() == 3
            &&& way[1] is Ok
            &&& way[1]->Ok_0 is Allocated
            &&& way[1]->Ok_0->Allocated_0.allocation_id is Some
            &&& way[1]->Ok_0->Allocated_0.public_ip is Some
        } else {
            &&& way.len() == 2
            &&& addresses.len() == 1
            &&& addresses[0].allocation_id is Some
            &&& addresses[0].public_ip is Some
        }
    }
}

/// What reconciling an `Eip` knows.
spec fn job(
    eip: EipView,
    cluster_name: Seq<char>,
    default_tags: Seq<(Seq<char>, Seq<char>)>,
) -> EipJobView {
    EipJobView {
        eip,
        uid: eip.uid->0,
        name: eip.name->0,
        namespace: eip.namespace->0,
        cluster_name,
        default_tags,
    }
}

proof fn lemma_recorded(
    eip: EipView,
    cluster_name: Seq<char>,
    default_tags: Seq<(Seq<char>, Seq<char>)>,
    way: Answers,
)
    requires
        is_known(eip),
        leads_to_address(way),
    ensures
        run::<EipApply>(start_apply(eip, cluster_name, default_tags), way) == Progress::<
            EipApplyView,
            Option<Action>,
        >::Pending(EipApplyView::Listing { job: job(eip, cluster_name, default_tags) }),
{
    let start = start_apply(eip, cluster_name, default_tags);
    let none = Seq::<Result<ReplyView, Error>>::empty();
    lemma_push::<EipApply>(start, none, way[0]);
    lemma_push::<EipApply>(start, none.push(way[0]), way[1]);
    if way.len() == 2 {
        assert(way =~= none.push(way[0]).push(way[1]));
    } else {
        lemma_push::<EipApply>(start, none.push(way[0]).push(way[1]), way[2]);
        assert(way =~= none.push(way[0]).push(way[1]).push(way[2]));
    }
}

/// Once its address is recorded, the pods or nodes that an `Eip` selects are listed. Where the one
/// that its status records is among them, nothing is left to do. Where it is not, the recorded
/// association is ended, if there is one, and the `Eip` is recorded as detached. An association
/// that is gone counts as ended.
pub proof fn law_course_of_an_eip_to_its_resources(
    eip: EipView,
    cluster_name: Seq<char>,
    default_tags: Seq<(Seq<char>, Seq<char>)>,
    way: Answers,
    resources: Seq<MatchedResourceView>,
    e: ServiceError,
)
    requires
        is_known(eip),
        leads_to_address(way),
        eip.status is Some,
        (eip.status->0).resource_id is Some,
    ensures
        ({
            let start = start_apply(eip, cluster_name, default_tags);
            let listed = way.push(told(ReplyView::Resources(resources)));
            let refused = listed.push(told(ReplyView::Disassociated(Err(e))));
            let detach = Some(
                RequestView::SetStatusDetached {
                    scope: ApiScopeView::Namespaced(eip.namespace->0),
                    eip,
                },
            );
            &&& asked::<EipApply>(start, way) == Some(
                RequestView::ListMatchedResources {
                    namespace: eip.namespace->0,
                    selector: eip.selector,
                },
            )
            &&& any_named(resources, (eip.status->0).resource_id->0) ==> run::<EipApply>(
                start,
                listed,
            ) == Progress::<EipApplyView, Option<Action>>::Finished(Ok(None))
            &&& !any_named(resources, (eip.status->0).resource_id->0) ==> match (
            eip.status->0).association_id {
                None => asked::<EipApply>(start, listed) == detach,
                Some(association_id) => {
                    &&& asked::<EipApply>(start, listed) == Some(
                        RequestView::DisassociateAddress { association_id },
                    )
                    &&& asked::<EipApply>(
                        start,
                        listed.push(told(ReplyView::Disassociated(Ok(())))),
                    ) == detach
                    &&& if e.code.deep_view() == Some("InvalidAssociationID.NotFound"@) {
                        asked::<EipApply>(start, refused) == detach
                    } else {
                        run::<EipApply>(start, refused) == Progress::<
                            EipApplyView,
                            Option<Action>,
                        >::Finished(Err(Error::AwsDisassociateAddress { source: e }))
                    }
                },
            }
        }),
{
    let start = start_apply(eip, cluster_name, default_tags);
    let listed = way.push(told(ReplyView::Resources(resources)));
    lemma_recorded(eip, cluster_name, default_tags, way);
    lemma_push::<EipApply>(start, way, told(ReplyView::Resources(resources)));
    lemma_push::<EipApply>(start, listed, told(ReplyView::Disassociated(Ok(()))));
    lemma_push::<EipApply>(start, listed, told(ReplyView::Disassociated(Err(e))));
}

/// Whether answers lead from the recorded address of an `Eip` to the point at which the pods or
/// nodes that it selects are told of it.
pub open spec fn leads_to_offer(
    eip: EipView,
    resources: Seq<MatchedResourceView>,
    way: Answers,
) -> bool {
    &&& way.len() >= 1
    &&& way[0] == told(ReplyView::Resources(resources))
    &&& match eip.status {
        None => way.len() == 1,
        Some(status) => match (status.resource_id, status.association_id) {
            (None, _) => way.len() == 1,
            (Some(resource_id), None) => !any_named(resources, resource_id) && way.len() == 2
                && way[1] == told(ReplyView::Done),
            (Some(resource_id), Some(_)) => !any_named(resources, resource_id) && way.len() == 3
                && is_ended(way[1]) && way[2] == told(ReplyView::Done),
        },
    }
}

/// Every pod or node that an `Eip` selects is told of it, one after the other in the order listed,
/// whatever comes of telling one of them; and then nothing is left to do.
pub proof fn law_eip_is_offered_to_every_resource(
    eip: EipView,
    cluster_name: Seq<char>,
    default_tags: Seq<(Seq<char>, Seq<char>)>,
    way: Answers,
    resources: Seq<MatchedResourceView>,
    onward: Answers,
    rest: Answers,
)
    requires
        is_known(eip),
        leads_to_address(way),
        leads_to_offer(eip, resources, onward),
        rest.len() <= resources.len(),
    ensures
        ({
            let start = start_apply(eip, cluster_name, default_tags);
            let answers = way + onward + rest;
            let k = rest.len() as int;
            if k < resources.len() {
                asked::<EipApply>(start, answers) == Some(
                    RequestView::RefreshResource {
                        namespace: eip.namespace->0,
                        selector: eip.selector,
                        name: resources[k].name->0,
                    },
                )
            } else {
                run::<EipApply>(start, answers) == Progress::<
                    EipApplyView,
                    Option<Action>,
                >::Finished(Ok(None))
            }
        }),
{
    let start = start_apply(eip, cluster_name, default_tags);
    let names = names_of(resources);
    let about = job(eip, cluster_name, default_tags);
    lemma_recorded(eip, cluster_name, default_tags, way);
    lemma_push::<EipApply>(start, way, onward[0]);
    if onward.len() == 1 {
        assert(way + onward =~= way.push(onward[0]));
    } else if onward.len() == 2 {
        lemma_push::<EipApply>(start, way.push(onward[0]), onward[1]);
        assert(way + onward =~= way.push(onward[0]).push(onward[1]));
    } else {
        lemma_push::<EipApply>(start, way.push(onward[0]), onward[1]);
        lemma_push::<EipApply>(start, way.push(onward[0]).push(onward[1]), onward[2]);
        assert(way + onward =~= way.push(onward[0]).push(onward[1]).push(onward[2]));
    }
    assert(run::<EipApply>(start, way + onward) == refresh(about, names));
    lemma_refreshing(start, way + onward, about, names, rest);
}

proof fn lemma_refreshing(
    start: Progress<EipApplyView, Option<Action>>,
    first: Answers,
    about: EipJobView,
    names: Seq<Seq<char>>,
    rest: Answers,
)
    requires
        run::<EipApply>(start, first) == refresh(about, names),
        rest.len() <= names.len(),
    ensures
        run::<EipApply>(start, first + rest) == refresh(about, names.skip(rest.len() as int)),
    decreases rest.len(),
{
    if rest.len() == 0 {
        assert(first + rest =~= first);
        assert(names.skip(0) =~= names);
    } else {
        let before = rest.drop_last();
        lemma_refreshing(start, first, about, names, before);
        assert(first + rest =~= (first + before).push(rest.last()));
        lemma_push::<EipApply>(start, first + before, rest.last());
        let left = names.skip(before.len() as int);
        assert(left.drop_first() =~= names.skip(rest.len() as int));
    }
}

/// Whatever fails while an `Eip` is reconciled ends the attempt with that very failure, but for
/// telling a pod or node of it.
pub proof fn law_eip_reports_failures(
    eip: EipView,
    cluster_name: Seq<char>,
    default_tags: Seq<(Seq<char>, Seq<char>)>,
    answers: Answers,
    e: Error,
)
    requires
        asked::<EipApply>(start_apply(eip, cluster_name, default_tags), answers) is Some,
        !(asked::<EipApply>(start_apply(eip, cluster_name, default_tags), answers)->0
            is RefreshResource),
    ensures
        run::<EipApply>(start_apply(eip, cluster_name, default_tags), answers.push(Err(e)))
            == Progress::<EipApplyView, Option<Action>>::Finished(Err(e)),
{
    lemma_push::<EipApply>(start_apply(eip, cluster_name, default_tags), answers, Err(e));
}

} // verus!

//! What holds of reconciling `Eip`s.
use crate::aws::{eip_tags, is_already_gone, tags_of, TagView};
use crate::controller::eip::{
    any_named, names_of, recorded_association, recorded_resource, start_apply, EipApply,
    EipApplyView, EipJobView,
};
use crate::eip::{EipSelectorView, EipView};
use crate::error::{Error, ServiceError};
use crate::operation::{
    asked, is_history, lemma_just_answered, lemma_was_answered, run, was_answered, Action,
    ApiScopeView, MatchedResourceView, Operation, Progress, ReplyView, RequestView,
};
use vstd::prelude::*;

verus! {

/// Whether a job is that of reconciling the `Eip`.
pub open spec fn is_job(
    eip: EipView,
    cluster_name: Seq<char>,
    default_tags: Seq<(Seq<char>, Seq<char>)>,
    job: EipJobView,
) -> bool {
    &&& job.eip == eip
    &&& eip.uid == Some(job.uid)
    &&& eip.name == Some(job.name)
    &&& eip.namespace == Some(job.namespace)
    &&& job.cluster_name == cluster_name
    &&& job.default_tags == default_tags
}

/// What the last answer says the address of the `Eip` is.
pub open spec fn answers_with(
    answer: Result<ReplyView, Error>,
    allocation_id: Seq<char>,
    public_ip: Seq<char>,
) -> bool {
    match answer {
        Ok(ReplyView::Addresses(Some(addresses))) => addresses.len() == 1
            && addresses[0].allocation_id == Some(allocation_id) && addresses[0].public_ip == Some(
            public_ip,
        ),
        Ok(ReplyView::Allocated(address)) => address.allocation_id == Some(allocation_id)
            && address.public_ip == Some(public_ip),
        _ => false,
    }
}

/// The request that lists what the `Eip` is meant for.
pub open spec fn list_request(eip: EipView) -> RequestView {
    RequestView::ListMatchedResources { namespace: eip.namespace->0, selector: eip.selector }
}

/// The request that records the `Eip` as detached.
pub open spec fn detach_request(eip: EipView) -> RequestView {
    RequestView::SetStatusDetached { scope: ApiScopeView::Namespaced(eip.namespace->0), eip }
}

/// The request that asks a pod or node to take the `Eip` up.
pub open spec fn refresh_request(eip: EipView, name: Seq<char>) -> RequestView {
    RequestView::RefreshResource {
        namespace: eip.namespace->0,
        selector: eip.selector,
        name,
    }
}

/// Whether that the `Eip` has an address was recorded.
pub open spec fn was_created(
    eip: EipView,
    cluster_name: Seq<char>,
    default_tags: Seq<(Seq<char>, Seq<char>)>,
    answers: Seq<Result<ReplyView, Error>>,
) -> bool {
    exists|allocation_id: Seq<char>, public_ip: Seq<char>| #[trigger]
        was_answered::<EipApply>(
            start_apply(eip, cluster_name, default_tags),
            answers,
            RequestView::SetStatusCreated {
                namespace: eip.namespace->0,
                name: eip.name->0,
                allocation_id,
                public_ip,
            },
            Ok(ReplyView::Done),
        )
}

/// Whether what the `Eip` is meant for was listed.
pub open spec fn was_listed(
    eip: EipView,
    cluster_name: Seq<char>,
    default_tags: Seq<(Seq<char>, Seq<char>)>,
    answers: Seq<Result<ReplyView, Error>>,
    resources: Seq<MatchedResourceView>,
) -> bool {
    was_answered::<EipApply>(
        start_apply(eip, cluster_name, default_tags),
        answers,
        list_request(eip),
        Ok(ReplyView::Resources(resources)),
    )
}

/// Whether EC2 was asked to end an association, and ended it or did not know it any more.
pub open spec fn was_disassociated(
    eip: EipView,
    cluster_name: Seq<char>,
    default_tags: Seq<(Seq<char>, Seq<char>)>,
    answers: Seq<Result<ReplyView, Error>>,
    association_id: Seq<char>,
) -> bool {
    exists|response: Result<(), ServiceError>|
        (response matches Err(e) ==> is_already_gone(e)) && #[trigger] was_answered::<EipApply>(
            start_apply(eip, cluster_name, default_tags),
            answers,
            RequestView::DisassociateAddress { association_id },
            Ok(ReplyView::Disassociated(response)),
        )
}

/// Whether the association that the status records was ended, if there is one.
pub open spec fn was_ended(
    eip: EipView,
    cluster_name: Seq<char>,
    default_tags: Seq<(Seq<char>, Seq<char>)>,
    answers: Seq<Result<ReplyView, Error>>,
) -> bool {
    match recorded_association(eip) {
        None => true,
        Some(association_id) => was_disassociated(
            eip,
            cluster_name,
            default_tags,
            answers,
            association_id,
        ),
    }
}

/// Whether the `Eip` is not claimed, or was recorded as detached after its association was ended.
pub open spec fn is_unclaimed(
    eip: EipView,
    cluster_name: Seq<char>,
    default_tags: Seq<(Seq<char>, Seq<char>)>,
    answers: Seq<Result<ReplyView, Error>>,
) -> bool {
    ||| recorded_resource(eip) is None
    ||| was_ended(eip, cluster_name, default_tags, answers) && was_answered::<EipApply>(
        start_apply(eip, cluster_name, default_tags),
        answers,
        detach_request(eip),
        Ok(ReplyView::Done),
    )
}

/// Whether a pod or node was asked to take the `Eip` up, with whatever success.
pub open spec fn was_asked(
    eip: EipView,
    cluster_name: Seq<char>,
    default_tags: Seq<(Seq<char>, Seq<char>)>,
    answers: Seq<Result<ReplyView, Error>>,
    name: Seq<char>,
) -> bool {
    exists|answer: Result<ReplyView, Error>| #[trigger]
        was_answered::<EipApply>(
            start_apply(eip, cluster_name, default_tags),
            answers,
            refresh_request(eip, name),
            answer,
        )
}

/// Whether resources were listed of which none claims the `Eip`, and all were asked but for the
/// last `left`.
pub open spec fn all_asked_but(
    eip: EipView,
    cluster_name: Seq<char>,
    default_tags: Seq<(Seq<char>, Seq<char>)>,
    answers: Seq<Result<ReplyView, Error>>,
    left: Seq<Seq<char>>,
) -> bool {
    exists|resources: Seq<MatchedResourceView>| #[trigger]
        was_listed(eip, cluster_name, default_tags, answers, resources) && !is_settled(
            eip,
            resources,
        ) && asked_but(eip, cluster_name, default_tags, answers, names_of(resources), left)
}

/// Whether all of some pods or nodes were asked but for the last `left`.
pub open spec fn asked_but(
    eip: EipView,
    cluster_name: Seq<char>,
    default_tags: Seq<(Seq<char>, Seq<char>)>,
    answers: Seq<Result<ReplyView, Error>>,
    names: Seq<Seq<char>>,
    left: Seq<Seq<char>>,
) -> bool {
    &&& left.len() <= names.len()
    &&& left == names.skip(names.len() - left.len())
    &&& forall|i: int|
        0 <= i < names.len() - left.len() ==> was_asked(
            eip,
            cluster_name,
            default_tags,
            answers,
            #[trigger] names[i],
        )
}

/// Whether the status of the `Eip` says that one of the resources claims it.
pub open spec fn is_settled(eip: EipView, resources: Seq<MatchedResourceView>) -> bool {
    recorded_resource(eip) matches Some(resource_id) && any_named(resources, resource_id)
}

spec fn is_grounded(
    eip: EipView,
    cluster_name: Seq<char>,
    default_tags: Seq<(Seq<char>, Seq<char>)>,
    answers: Seq<Result<ReplyView, Error>>,
    state: EipApplyView,
) -> bool {
    match state {
        EipApplyView::Describing { job } => is_job(eip, cluster_name, default_tags, job)
            && answers.len() == 0,
        EipApplyView::Allocating { job } => {
            &&& is_job(eip, cluster_name, default_tags, job)
            &&& answers.len() == 1
            &&& answers[0] matches Ok(ReplyView::Addresses(Some(addresses))) && addresses.len() == 0
        },
        EipApplyView::Recording { job, allocation_id, public_ip } => {
            &&& is_job(eip, cluster_name, default_tags, job)
            &&& 0 < answers.len() <= 2
            &&& answers_with(answers.last(), allocation_id, public_ip)
        },
        EipApplyView::Listing { job } => {
            &&& is_job(eip, cluster_name, default_tags, job)
            &&& was_created(eip, cluster_name, default_tags, answers)
        },
        EipApplyView::Disassociating { job, association_id, names } => {
            &&& is_job(eip, cluster_name, default_tags, job)
            &&& was_created(eip, cluster_name, default_tags, answers)
            &&& recorded_resource(eip) is Some
            &&& recorded_association(eip) == Some(association_id)
            &&& all_asked_but(eip, cluster_name, default_tags, answers, names)
        },
        EipApplyView::Detaching { job, names } => {
            &&& is_job(eip, cluster_name, default_tags, job)
            &&& was_created(eip, cluster_name, default_tags, answers)
            &&& recorded_resource(eip) is Some
            &&& was_ended(eip, cluster_name, default_tags, answers)
            &&& all_asked_but(eip, cluster_name, default_tags, answers, names)
        },
        EipApplyView::Refreshing { job, name, rest } => {
            &&& is_job(eip, cluster_name, default_tags, job)
            &&& was_created(eip, cluster_name, default_tags, answers)
            &&& is_unclaimed(eip, cluster_name, default_tags, answers)
            &&& all_asked_but(eip, cluster_name, default_tags, answers, seq![name] + rest)
        },
    }
}

proof fn lemma_created_later(
    eip: EipView,
    cluster_name: Seq<char>,
    default_tags: Seq<(Seq<char>, Seq<char>)>,
    answers: Seq<Result<ReplyView, Error>>,
)
    requires
        answers.len() > 0,
        was_created(eip, cluster_name, default_tags, answers.drop_last()),
    ensures
        was_created(eip, cluster_name, default_tags, answers),
{
    let start = start_apply(eip, cluster_name, default_tags);
    let (allocation_id, public_ip) = choose|allocation_id: Seq<char>, public_ip: Seq<char>|
        #[trigger]
        was_answered::<EipApply>(
            start,
            answers.drop_last(),
            RequestView::SetStatusCreated {
                namespace: eip.namespace->0,
                name: eip.name->0,
                allocation_id,
                public_ip,
            },
            Ok(ReplyView::Done),
        );
    lemma_was_answered::<EipApply>(
        start,
        answers,
        RequestView::SetStatusCreated {
            namespace: eip.namespace->0,
            name: eip.name->0,
            allocation_id,
            public_ip,
        },
        Ok(ReplyView::Done),
    );
}

proof fn lemma_ended_later(
    eip: EipView,
    cluster_name: Seq<char>,
    default_tags: Seq<(Seq<char>, Seq<char>)>,
    answers: Seq<Result<ReplyView, Error>>,
)
    requires
        answers.len() > 0,
        was_ended(eip, cluster_name, default_tags, answers.drop_last()),
    ensures
        was_ended(eip, cluster_name, default_tags, answers),
{
    let start = start_apply(eip, cluster_name, default_tags);
    if let Some(association_id) = recorded_association(eip) {
        let request = RequestView::DisassociateAddress { association_id };
        let response = choose|response: Result<(), ServiceError>|
            (response matches Err(e) ==> is_already_gone(e)) && #[trigger] was_answered::<EipApply>(
                start,
                answers.drop_last(),
                request,
                Ok(ReplyView::Disassociated(response)),
            );
        lemma_was_answered::<EipApply>(
            start,
            answers,
            request,
            Ok(ReplyView::Disassociated(response)),
        );
    }
}

proof fn lemma_unclaimed_later(
    eip: EipView,
    cluster_name: Seq<char>,
    default_tags: Seq<(Seq<char>, Seq<char>)>,
    answers: Seq<Result<ReplyView, Error>>,
)
    requires
        answers.len() > 0,
        is_unclaimed(eip, cluster_name, default_tags, answers.drop_last()),
    ensures
        is_unclaimed(eip, cluster_name, default_tags, answers),
{
    if recorded_resource(eip) is Some {
        lemma_ended_later(eip, cluster_name, default_tags, answers);
        lemma_was_answered::<EipApply>(
            start_apply(eip, cluster_name, default_tags),
            answers,
            detach_request(eip),
            Ok(ReplyView::Done),
        );
    }
}

proof fn lemma_all_asked_later(
    eip: EipView,
    cluster_name: Seq<char>,
    default_tags: Seq<(Seq<char>, Seq<char>)>,
    answers: Seq<Result<ReplyView, Error>>,
    left: Seq<Seq<char>>,
)
    requires
        answers.len() > 0,
        all_asked_but(eip, cluster_name, default_tags, answers.drop_last(), left),
    ensures
        all_asked_but(eip, cluster_name, default_tags, answers, left),
        left.len() > 0 && was_asked(eip, cluster_name, default_tags, answers, left[0])
            ==> all_asked_but(eip, cluster_name, default_tags, answers, left.drop_first()),
{
    let start = start_apply(eip, cluster_name, default_tags);
    let before = answers.drop_last();
    let resources = choose|resources: Seq<MatchedResourceView>| #[trigger]
        was_listed(eip, cluster_name, default_tags, before, resources) && !is_settled(
            eip,
            resources,
        ) && asked_but(eip, cluster_name, default_tags, before, names_of(resources), left);
    let names = names_of(resources);
    lemma_was_answered::<EipApply>(
        start,
        answers,
        list_request(eip),
        Ok(ReplyView::Resources(resources)),
    );
    assert(was_listed(eip, cluster_name, default_tags, answers, resources));
    let n = names.len() - left.len();
    assert forall|i: int| 0 <= i < n implies was_asked(
        eip,
        cluster_name,
        default_tags,
        answers,
        #[trigger] names[i],
    ) by {
        let answer = choose|answer: Result<ReplyView, Error>| #[trigger]
            was_answered::<EipApply>(start, before, refresh_request(eip, names[i]), answer);
        lemma_was_answered::<EipApply>(start, answers, refresh_request(eip, names[i]), answer);
    }
    assert(asked_but(eip, cluster_name, default_tags, answers, names, left));
    if left.len() > 0 && was_asked(eip, cluster_name, default_tags, answers, left[0]) {
        let fewer = left.drop_first();
        assert(names[n] == left[0]);
        assert(fewer =~= names.skip(names.len() - fewer.len())) by {
            assert forall|i: int| 0 <= i < fewer.len() implies fewer[i] == names.skip(
                names.len() - fewer.len(),
            )[i] by {
                assert(left[i + 1] == names.skip(n)[i + 1]);
            }
        }
        assert(asked_but(eip, cluster_name, default_tags, answers, names, fewer));
    }
}

/// What holds of every state that reconciling the `Eip` comes to, and of its success.
spec fn goes_right(
    eip: EipView,
    cluster_name: Seq<char>,
    default_tags: Seq<(Seq<char>, Seq<char>)>,
    answers: Seq<Result<ReplyView, Error>>,
) -> bool {
    match run::<EipApply>(start_apply(eip, cluster_name, default_tags), answers) {
        Progress::Pending(state) => is_grounded(eip, cluster_name, default_tags, answers, state),
        Progress::Finished(Ok(outcome)) => outcome is None && is_done(
            eip,
            cluster_name,
            default_tags,
            answers,
        ),
        Progress::Finished(Err(_)) => true,
    }
}

/// Whether the `Eip` is in order: its address is recorded, and either something that it is meant
/// for claims it, or nothing claims it and all that it is meant for was asked to take it up.
pub open spec fn is_done(
    eip: EipView,
    cluster_name: Seq<char>,
    default_tags: Seq<(Seq<char>, Seq<char>)>,
    answers: Seq<Result<ReplyView, Error>>,
) -> bool {
    &&& was_created(eip, cluster_name, default_tags, answers)
    &&& {
        ||| exists|resources: Seq<MatchedResourceView>| #[trigger]
            was_listed(eip, cluster_name, default_tags, answers, resources) && is_settled(
                eip,
                resources,
            )
        ||| is_unclaimed(eip, cluster_name, default_tags, answers) && all_asked_but(
            eip,
            cluster_name,
            default_tags,
            answers,
            Seq::empty(),
        )
    }
}

proof fn lemma_done_later(
    eip: EipView,
    cluster_name: Seq<char>,
    default_tags: Seq<(Seq<char>, Seq<char>)>,
    answers: Seq<Result<ReplyView, Error>>,
)
    requires
        answers.len() > 0,
        is_done(eip, cluster_name, default_tags, answers.drop_last()),
    ensures
        is_done(eip, cluster_name, default_tags, answers),
{
    let before = answers.drop_last();
    lemma_created_later(eip, cluster_name, default_tags, answers);
    if exists|resources: Seq<MatchedResourceView>| #[trigger]
        was_listed(eip, cluster_name, default_tags, before, resources) && is_settled(
            eip,
            resources,
        ) {
        let resources = choose|resources: Seq<MatchedResourceView>| #[trigger]
            was_listed(eip, cluster_name, default_tags, before, resources) && is_settled(
                eip,
                resources,
            );
        lemma_was_answered::<EipApply>(
            start_apply(eip, cluster_name, default_tags),
            answers,
            list_request(eip),
            Ok(ReplyView::Resources(resources)),
        );
        assert(was_listed(eip, cluster_name, default_tags, answers, resources));
    } else {
        lemma_unclaimed_later(eip, cluster_name, default_tags, answers);
        lemma_all_asked_later(eip, cluster_name, default_tags, answers, Seq::empty());
    }
}

/// Once nothing is left but to ask, the `Eip` is being refreshed, or done.
proof fn lemma_refresh(
    eip: EipView,
    cluster_name: Seq<char>,
    default_tags: Seq<(Seq<char>, Seq<char>)>,
    answers: Seq<Result<ReplyView, Error>>,
    names: Seq<Seq<char>>,
)
    requires
        was_created(eip, cluster_name, default_tags, answers),
        is_unclaimed(eip, cluster_name, default_tags, answers),
        all_asked_but(eip, cluster_name, default_tags, answers, names),
    ensures
        names.len() == 0 ==> is_done(eip, cluster_name, default_tags, answers),
        names.len() > 0 ==> all_asked_but(
            eip,
            cluster_name,
            default_tags,
            answers,
            seq![names[0]] + names.drop_first(),
        ),
{
    if names.len() == 0 {
        assert(names =~= Seq::empty());
    } else {
        assert(seq![names[0]] + names.drop_first() =~= names);
    }
}

proof fn lemma_step(
    eip: EipView,
    cluster_name: Seq<char>,
    default_tags: Seq<(Seq<char>, Seq<char>)>,
    answers: Seq<Result<ReplyView, Error>>,
    state: EipApplyView,
)
    requires
        answers.len() > 0,
        is_history::<EipApply>(start_apply(eip, cluster_name, default_tags), answers),
        run::<EipApply>(start_apply(eip, cluster_name, default_tags), answers.drop_last())
            == Progress::<EipApplyView, Option<Action>>::Pending(state),
        is_grounded(eip, cluster_name, default_tags, answers.drop_last(), state),
    ensures
        goes_right(eip, cluster_name, default_tags, answers),
{
    let start = start_apply(eip, cluster_name, default_tags);
    let before = answers.drop_last();
    lemma_just_answered::<EipApply>(start, answers, EipApply::ask(state));
    match (state, answers.last()) {
        (EipApplyView::Recording { allocation_id, public_ip, .. }, Ok(ReplyView::Done)) => {
            assert(was_created(eip, cluster_name, default_tags, answers));
        },
        (EipApplyView::Listing { job }, Ok(ReplyView::Resources(resources))) => {
            lemma_created_later(eip, cluster_name, default_tags, answers);
            assert(was_listed(eip, cluster_name, default_tags, answers, resources));
            if !is_settled(eip, resources) {
                let names = names_of(resources);
                assert(names.skip(0) =~= names);
                assert(asked_but(eip, cluster_name, default_tags, answers, names, names));
                assert(all_asked_but(eip, cluster_name, default_tags, answers, names));
                if recorded_resource(eip) is None {
                    lemma_refresh(eip, cluster_name, default_tags, answers, names);
                }
            }
        },
        (
            EipApplyView::Disassociating { association_id, names, .. },
            Ok(ReplyView::Disassociated(response)),
        ) => {
            lemma_created_later(eip, cluster_name, default_tags, answers);
            lemma_all_asked_later(eip, cluster_name, default_tags, answers, names);
            if response matches Err(e) ==> is_already_gone(e) {
                assert(was_disassociated(
                    eip,
                    cluster_name,
                    default_tags,
                    answers,
                    association_id,
                ));
            }
        },
        (EipApplyView::Detaching { names, .. }, Ok(ReplyView::Done)) => {
            lemma_created_later(eip, cluster_name, default_tags, answers);
            lemma_ended_later(eip, cluster_name, default_tags, answers);
            lemma_all_asked_later(eip, cluster_name, default_tags, answers, names);
            assert(is_unclaimed(eip, cluster_name, default_tags, answers));
            lemma_refresh(eip, cluster_name, default_tags, answers, names);
        },
        (EipApplyView::Refreshing { name, rest, .. }, answer) => {
            lemma_created_later(eip, cluster_name, default_tags, answers);
            lemma_unclaimed_later(eip, cluster_name, default_tags, answers);
            let left = seq![name] + rest;
            assert(left[0] == name);
            assert(left.drop_first() =~= rest);
            assert(was_asked(eip, cluster_name, default_tags, answers, name));
            lemma_all_asked_later(eip, cluster_name, default_tags, answers, left);
            lemma_refresh(eip, cluster_name, default_tags, answers, rest);
        },
        _ => {},
    }
}

proof fn lemma_goes_right(
    eip: EipView,
    cluster_name: Seq<char>,
    default_tags: Seq<(Seq<char>, Seq<char>)>,
    answers: Seq<Result<ReplyView, Error>>,
)
    requires
        eip.name is Some,
        eip.namespace is Some,
        is_history::<EipApply>(start_apply(eip, cluster_name, default_tags), answers),
    ensures
        goes_right(eip, cluster_name, default_tags, answers),
    decreases answers.len(),
{
    let start = start_apply(eip, cluster_name, default_tags);
    if answers.len() > 0 {
        let before = answers.drop_last();
        lemma_goes_right(eip, cluster_name, default_tags, before);
        match run::<EipApply>(start, before) {
            Progress::Pending(state) => {
                lemma_step(eip, cluster_name, default_tags, answers, state);
            },
            Progress::Finished(Ok(_)) => {
                lemma_done_later(eip, cluster_name, default_tags, answers);
            },
            Progress::Finished(Err(_)) => {},
        }
    }
}

/// An address is allocated for an `Eip` at most once, and only where none is tagged for it; it is
/// then tagged for the `Eip`.
pub proof fn law_eip_allocates_only_what_it_lacks(
    eip: EipView,
    cluster_name: Seq<char>,
    default_tags: Seq<(Seq<char>, Seq<char>)>,
    answers: Seq<Result<ReplyView, Error>>,
    tags: Seq<TagView>,
)
    requires
        eip.name is Some,
        eip.namespace is Some,
        is_history::<EipApply>(start_apply(eip, cluster_name, default_tags), answers),
        asked::<EipApply>(start_apply(eip, cluster_name, default_tags), answers) == Some(
            RequestView::AllocateAddress { tags },
        ),
    ensures
        answers.len() == 1,
        answers[0] matches Ok(ReplyView::Addresses(Some(addresses))) && addresses.len() == 0,
        eip.uid is Some,
        tags == tags_of(default_tags) + eip_tags(
            eip.uid->0,
            eip.name->0,
            eip.selector,
            cluster_name,
            eip.namespace->0,
        ),
{
    lemma_goes_right(eip, cluster_name, default_tags, answers);
}

/// What is recorded in the status of an `Eip` is its one tagged address, or the address that was
/// just allocated for it.
pub proof fn law_eip_records_its_address(
    eip: EipView,
    cluster_name: Seq<char>,
    default_tags: Seq<(Seq<char>, Seq<char>)>,
    answers: Seq<Result<ReplyView, Error>>,
    namespace: Seq<char>,
    name: Seq<char>,
    allocation_id: Seq<char>,
    public_ip: Seq<char>,
)
    requires
        eip.name is Some,
        eip.namespace is Some,
        is_history::<EipApply>(start_apply(eip, cluster_name, default_tags), answers),
        asked::<EipApply>(start_apply(eip, cluster_name, default_tags), answers) == Some(
            RequestView::SetStatusCreated { namespace, name, allocation_id, public_ip },
        ),
    ensures
        eip.namespace == Some(namespace),
        eip.name == Some(name),
        answers.len() > 0,
        answers_with(answers.last(), allocation_id, public_ip),
{
    lemma_goes_right(eip, cluster_name, default_tags, answers);
}

/// An `Eip` that something claims which it is meant for is left alone.
pub proof fn law_settled_eip_is_left_alone(
    job: EipJobView,
    resources: Seq<MatchedResourceView>,
)
    requires
        is_settled(job.eip, resources),
    ensures
        EipApply::next(EipApplyView::Listing { job }, Ok(ReplyView::Resources(resources)))
            == Progress::<EipApplyView, Option<Action>>::Finished(Ok(None)),
{
}

/// Pods and nodes are asked to take an `Eip` up only where nothing claims it: where something did
/// that it is not meant for, the association has been ended and the `Eip` recorded as detached.
pub proof fn law_eip_is_detached_before_it_is_offered(
    eip: EipView,
    cluster_name: Seq<char>,
    default_tags: Seq<(Seq<char>, Seq<char>)>,
    answers: Seq<Result<ReplyView, Error>>,
    namespace: Seq<char>,
    selector: EipSelectorView,
    name: Seq<char>,
)
    requires
        eip.name is Some,
        eip.namespace is Some,
        is_history::<EipApply>(start_apply(eip, cluster_name, default_tags), answers),
        asked::<EipApply>(start_apply(eip, cluster_name, default_tags), answers) == Some(
            RequestView::RefreshResource { namespace, selector, name },
        ),
    ensures
        is_unclaimed(eip, cluster_name, default_tags, answers),
        eip.namespace == Some(namespace),
        selector == eip.selector,
        exists|resources: Seq<MatchedResourceView>| #[trigger]
            was_listed(eip, cluster_name, default_tags, answers, resources) && !is_settled(
                eip,
                resources,
            ) && names_of(resources).contains(name),
{
    lemma_goes_right(eip, cluster_name, default_tags, answers);
    let state = run::<EipApply>(start_apply(eip, cluster_name, default_tags), answers)->Pending_0;
    let left = seq![name] + state->rest;
    let resources = choose|resources: Seq<MatchedResourceView>| #[trigger]
        was_listed(eip, cluster_name, default_tags, answers, resources) && !is_settled(
            eip,
            resources,
        ) && asked_but(eip, cluster_name, default_tags, answers, names_of(resources), left);
    let names = names_of(resources);
    let n = names.len() - left.len();
    assert(left[0] == name);
    assert(names[n] == names.skip(n)[0]);
    assert(was_listed(eip, cluster_name, default_tags, answers, resources));
}

/// Reconciling an `Eip` succeeds only once its address is recorded, and either something that it is
/// meant for claims it, or nothing claims it and all that it is meant for was asked to take it up.
pub proof fn law_eip_success_means_in_order(
    eip: EipView,
    cluster_name: Seq<char>,
    default_tags: Seq<(Seq<char>, Seq<char>)>,
    answers: Seq<Result<ReplyView, Error>>,
    outcome: Option<Action>,
)
    requires
        eip.name is Some,
        eip.namespace is Some,
        is_history::<EipApply>(start_apply(eip, cluster_name, default_tags), answers),
        run::<EipApply>(start_apply(eip, cluster_name, default_tags), answers) == Progress::<
            EipApplyView,
            Option<Action>,
        >::Finished(Ok(outcome)),
    ensures
        outcome is None,
        is_done(eip, cluster_name, default_tags, answers),
{
    lemma_goes_right(eip, cluster_name, default_tags, answers);
}

/// Reconciling an `Eip` touches only its own namespace.
pub proof fn law_eip_keeps_to_its_namespace(
    eip: EipView,
    cluster_name: Seq<char>,
    default_tags: Seq<(Seq<char>, Seq<char>)>,
    answers: Seq<Result<ReplyView, Error>>,
)
    requires
        eip.name is Some,
        eip.namespace is Some,
        is_history::<EipApply>(start_apply(eip, cluster_name, default_tags), answers),
    ensures
        asked::<EipApply>(start_apply(eip, cluster_name, default_tags), answers) matches Some(request)
            ==> request.is_within(eip.namespace->0),
{
    lemma_goes_right(eip, cluster_name, default_tags, answers);
}

} // verus!

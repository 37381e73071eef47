//! What holds of detaching addresses, and of cleaning up behind pods and nodes.
use crate::aws::{is_already_gone, AddressView};
use crate::controller::detach::{
    association_ids, start_detach, Detach, DetachStepView, DetachView,
};
use crate::eip::EipView;
use crate::error::{Error, ServiceError};
use crate::operation::{
    asked, is_history, lemma_just_answered, lemma_was_answered, run, succeeded, was_answered,
    ApiScopeView, Operation, Progress, ReplyView, RequestView,
};
use vstd::prelude::*;

verus! {

/// Whether that an `Eip` is detached was recorded in its status.
pub open spec fn was_recorded(
    scope: ApiScopeView,
    eips: Seq<EipView>,
    answers: Seq<Result<ReplyView, Error>>,
    eip: EipView,
) -> bool {
    was_answered::<Detach>(
        start_detach(scope, eips),
        answers,
        RequestView::SetStatusDetached { scope: eip.scope_within(scope), eip },
        Ok(ReplyView::Done),
    )
}

/// Whether EC2 was asked to end an association, and ended it or did not know it any more.
pub open spec fn was_ended(
    scope: ApiScopeView,
    eips: Seq<EipView>,
    answers: Seq<Result<ReplyView, Error>>,
    association_id: Seq<char>,
) -> bool {
    exists|response: Result<(), ServiceError>|
        (response matches Err(e) ==> is_already_gone(e)) && #[trigger] was_answered::<Detach>(
            start_detach(scope, eips),
            answers,
            RequestView::DisassociateAddress { association_id },
            Ok(ReplyView::Disassociated(response)),
        )
}

/// Whether the address of an `Eip` was described as `addresses`.
pub open spec fn was_described(
    scope: ApiScopeView,
    eips: Seq<EipView>,
    answers: Seq<Result<ReplyView, Error>>,
    allocation_id: Seq<char>,
    addresses: Seq<AddressView>,
) -> bool {
    was_answered::<Detach>(
        start_detach(scope, eips),
        answers,
        RequestView::DescribeAddress { allocation_id },
        Ok(ReplyView::Addresses(Some(addresses))),
    )
}

/// Whether all associations of the described addresses have been ended, but for the last `left`.
pub open spec fn all_ended_but(
    scope: ApiScopeView,
    eips: Seq<EipView>,
    answers: Seq<Result<ReplyView, Error>>,
    allocation_id: Seq<char>,
    left: Seq<Seq<char>>,
) -> bool {
    exists|addresses: Seq<AddressView>| #[trigger]
        was_described(scope, eips, answers, allocation_id, addresses) && ended_but(
            scope,
            eips,
            answers,
            association_ids(addresses),
            left,
        )
}

/// Whether all of some associations have been ended, but for the last `left`.
pub open spec fn ended_but(
    scope: ApiScopeView,
    eips: Seq<EipView>,
    answers: Seq<Result<ReplyView, Error>>,
    ids: Seq<Seq<char>>,
    left: Seq<Seq<char>>,
) -> bool {
    &&& left.len() <= ids.len()
    &&& left == ids.skip(ids.len() - left.len())
    &&& forall|i: int|
        0 <= i < ids.len() - left.len() ==> was_ended(scope, eips, answers, #[trigger] ids[i])
}

spec fn step_is_grounded(
    scope: ApiScopeView,
    eips: Seq<EipView>,
    answers: Seq<Result<ReplyView, Error>>,
    state: DetachView,
) -> bool {
    match state.step {
        DetachStepView::Describing => true,
        DetachStepView::Disassociating { association_id, more } => all_ended_but(
            scope,
            eips,
            answers,
            state.allocation_id,
            seq![association_id] + more,
        ),
        DetachStepView::Recording => all_ended_but(
            scope,
            eips,
            answers,
            state.allocation_id,
            Seq::empty(),
        ),
    }
}

spec fn is_grounded(
    scope: ApiScopeView,
    eips: Seq<EipView>,
    answers: Seq<Result<ReplyView, Error>>,
    state: DetachView,
) -> bool {
    let at = eips.len() - state.rest.len() - 1;
    &&& state.scope == scope
    &&& 0 <= at
    &&& state.eip == eips[at]
    &&& state.eip.allocation_id() == Some(state.allocation_id)
    &&& state.rest == eips.skip(at + 1)
    &&& forall|i: int| 0 <= i < at ==> was_recorded(scope, eips, answers, #[trigger] eips[i])
    &&& step_is_grounded(scope, eips, answers, state)
}

proof fn lemma_ended_later(
    scope: ApiScopeView,
    eips: Seq<EipView>,
    answers: Seq<Result<ReplyView, Error>>,
    association_id: Seq<char>,
)
    requires
        answers.len() > 0,
        was_ended(scope, eips, answers.drop_last(), association_id),
    ensures
        was_ended(scope, eips, answers, association_id),
{
    let start = start_detach(scope, eips);
    let request = RequestView::DisassociateAddress { association_id };
    let response = choose|response: Result<(), ServiceError>|
        (response matches Err(e) ==> is_already_gone(e)) && #[trigger] was_answered::<Detach>(
            start,
            answers.drop_last(),
            request,
            Ok(ReplyView::Disassociated(response)),
        );
    lemma_was_answered::<Detach>(start, answers, request, Ok(ReplyView::Disassociated(response)));
}

proof fn lemma_all_ended_later(
    scope: ApiScopeView,
    eips: Seq<EipView>,
    answers: Seq<Result<ReplyView, Error>>,
    allocation_id: Seq<char>,
    association_id: Seq<char>,
    more: Seq<Seq<char>>,
)
    requires
        answers.len() > 0,
        all_ended_but(
            scope,
            eips,
            answers.drop_last(),
            allocation_id,
            seq![association_id] + more,
        ),
        was_ended(scope, eips, answers, association_id),
    ensures
        all_ended_but(scope, eips, answers, allocation_id, more),
{
    let before = answers.drop_last();
    let left = seq![association_id] + more;
    let addresses = choose|addresses: Seq<AddressView>| #[trigger]
        was_described(scope, eips, before, allocation_id, addresses) && ended_but(
            scope,
            eips,
            before,
            association_ids(addresses),
            left,
        );
    let ids = association_ids(addresses);
    lemma_was_answered::<Detach>(
        start_detach(scope, eips),
        answers,
        RequestView::DescribeAddress { allocation_id },
        Ok(ReplyView::Addresses(Some(addresses))),
    );
    assert(was_described(scope, eips, answers, allocation_id, addresses));
    let n = ids.len() - left.len();
    assert(left[0] == association_id);
    assert(ids[n] == left[0]);
    assert(more =~= ids.skip(ids.len() - more.len())) by {
        assert forall|i: int| 0 <= i < more.len() implies more[i] == ids.skip(
            ids.len() - more.len(),
        )[i] by {
            assert(left[i + 1] == more[i]);
            assert(ids.skip(n)[i + 1] == ids[n + 1 + i]);
        }
    }
    assert forall|i: int| 0 <= i < ids.len() - more.len() implies was_ended(
        scope,
        eips,
        answers,
        #[trigger] ids[i],
    ) by {
        if i < n {
            lemma_ended_later(scope, eips, answers, ids[i]);
        }
    }
    assert(ended_but(scope, eips, answers, ids, more));
}

proof fn lemma_recorded_later(
    scope: ApiScopeView,
    eips: Seq<EipView>,
    answers: Seq<Result<ReplyView, Error>>,
    n: int,
)
    requires
        answers.len() > 0,
        n <= eips.len(),
        forall|i: int|
            0 <= i < n ==> was_recorded(scope, eips, answers.drop_last(), #[trigger] eips[i]),
    ensures
        forall|i: int| 0 <= i < n ==> was_recorded(scope, eips, answers, #[trigger] eips[i]),
{
    assert forall|i: int| 0 <= i < n implies was_recorded(
        scope,
        eips,
        answers,
        #[trigger] eips[i],
    ) by {
        assert(was_recorded(scope, eips, answers.drop_last(), eips[i]));
        lemma_was_answered::<Detach>(
            start_detach(scope, eips),
            answers,
            RequestView::SetStatusDetached { scope: eips[i].scope_within(scope), eip: eips[i] },
            Ok(ReplyView::Done),
        );
    }
}

/// One answer more keeps the order.
proof fn lemma_step(
    scope: ApiScopeView,
    eips: Seq<EipView>,
    answers: Seq<Result<ReplyView, Error>>,
    state: DetachView,
)
    requires
        answers.len() > 0,
        is_history::<Detach>(start_detach(scope, eips), answers),
        run::<Detach>(start_detach(scope, eips), answers.drop_last()) == Progress::<
            DetachView,
            (),
        >::Pending(state),
        is_grounded(scope, eips, answers.drop_last(), state),
    ensures
        match run::<Detach>(start_detach(scope, eips), answers) {
            Progress::Pending(next) => is_grounded(scope, eips, answers, next),
            Progress::Finished(Ok(_)) => forall|i: int|
                0 <= i < eips.len() ==> was_recorded(scope, eips, answers, #[trigger] eips[i]),
            Progress::Finished(Err(_)) => true,
        },
{
    let start = start_detach(scope, eips);
    let at = eips.len() - state.rest.len() - 1;
    lemma_recorded_later(scope, eips, answers, at);
    lemma_just_answered::<Detach>(start, answers, Detach::ask(state));
    match (state.step, answers.last()) {
        (DetachStepView::Describing, Ok(ReplyView::Addresses(Some(addresses)))) => {
            let ids = association_ids(addresses);
            assert(was_described(scope, eips, answers, state.allocation_id, addresses));
            assert(ids.skip(0) =~= ids);
            assert(ended_but(scope, eips, answers, ids, ids));
            if ids.len() > 0 {
                assert(seq![ids[0]] + ids.drop_first() =~= ids);
            } else {
                assert(ids =~= Seq::empty());
            }
        },
        (
            DetachStepView::Disassociating { association_id, more },
            Ok(ReplyView::Disassociated(response)),
        ) => {
            if response matches Err(e) ==> is_already_gone(e) {
                assert(was_ended(scope, eips, answers, association_id));
                lemma_all_ended_later(
                    scope,
                    eips,
                    answers,
                    state.allocation_id,
                    association_id,
                    more,
                );
                if more.len() > 0 {
                    assert(seq![more[0]] + more.drop_first() =~= more);
                } else {
                    assert(more =~= Seq::empty());
                }
            }
        },
        (DetachStepView::Recording, Ok(ReplyView::Done)) => {
            assert(was_recorded(scope, eips, answers, eips[at]));
            if state.rest.len() > 0 {
                assert(state.rest.drop_first() =~= eips.skip(at + 2));
                assert(state.rest[0] == eips[at + 1]);
            }
        },
        _ => {},
    }
}

/// Detaching goes through the `Eip`s in order: those before the current one have been recorded as
/// detached.
proof fn lemma_grounded(
    scope: ApiScopeView,
    eips: Seq<EipView>,
    answers: Seq<Result<ReplyView, Error>>,
)
    requires
        is_history::<Detach>(start_detach(scope, eips), answers),
    ensures
        match run::<Detach>(start_detach(scope, eips), answers) {
            Progress::Pending(state) => is_grounded(scope, eips, answers, state),
            Progress::Finished(Ok(_)) => forall|i: int|
                0 <= i < eips.len() ==> was_recorded(scope, eips, answers, #[trigger] eips[i]),
            Progress::Finished(Err(_)) => true,
        },
    decreases answers.len(),
{
    let start = start_detach(scope, eips);
    if answers.len() == 0 {
        if eips.len() > 0 {
            assert(eips.drop_first() =~= eips.skip(1));
        }
    } else {
        let before = answers.drop_last();
        lemma_grounded(scope, eips, before);
        match run::<Detach>(start, before) {
            Progress::Pending(state) => {
                lemma_step(scope, eips, answers, state);
            },
            Progress::Finished(Ok(_)) => {
                lemma_recorded_later(scope, eips, answers, eips.len() as int);
            },
            Progress::Finished(Err(_)) => {},
        }
    }
}

/// Detaching a list of `Eip`s succeeds only once each of them has been recorded as detached.
pub proof fn law_detach_covers_every_eip(
    scope: ApiScopeView,
    eips: Seq<EipView>,
    answers: Seq<Result<ReplyView, Error>>,
)
    requires
        is_history::<Detach>(start_detach(scope, eips), answers),
        succeeded::<Detach>(start_detach(scope, eips), answers),
    ensures
        forall|i: int|
            0 <= i < eips.len() ==> was_recorded(scope, eips, answers, #[trigger] eips[i]),
{
    lemma_grounded(scope, eips, answers);
}

/// An `Eip` is recorded as detached only once its address has been described, and every
/// association that the description shows has been ended.
pub proof fn law_detach_ends_associations_first(
    scope: ApiScopeView,
    eips: Seq<EipView>,
    answers: Seq<Result<ReplyView, Error>>,
    eip: EipView,
)
    requires
        is_history::<Detach>(start_detach(scope, eips), answers),
        asked::<Detach>(start_detach(scope, eips), answers) == Some(
            RequestView::SetStatusDetached { scope: eip.scope_within(scope), eip },
        ),
    ensures
        eips.contains(eip),
        eip.allocation_id() is Some,
        exists|addresses: Seq<AddressView>| #[trigger]
            was_described(scope, eips, answers, eip.allocation_id()->0, addresses) && (forall|i: int|
                0 <= i < association_ids(addresses).len() ==> was_ended(
                    scope,
                    eips,
                    answers,
                    #[trigger] association_ids(addresses)[i],
                )),
{
    lemma_grounded(scope, eips, answers);
    let state = run::<Detach>(start_detach(scope, eips), answers)->Pending_0;
    let addresses = choose|addresses: Seq<AddressView>| #[trigger]
        was_described(scope, eips, answers, state.allocation_id, addresses) && ended_but(
            scope,
            eips,
            answers,
            association_ids(addresses),
            Seq::empty(),
        );
    assert(was_described(scope, eips, answers, eip.allocation_id()->0, addresses));
}

} // verus!

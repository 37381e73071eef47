//! What holds of giving addresses back.
use crate::aws::{orphans, AddressView, EIP_UID_TAG};
use crate::controller::eip::{start_cleanup, EipCleanup, EipCleanupView};
use crate::eip::EipView;
use crate::error::Error;
use crate::kube_ext::PodView;
use crate::laws::lookup::law_orphans_are_those_without_a_listed_owner;
use crate::laws::tasks::{
    continues, embeds, law_every_address_is_released, law_only_the_addresses_are_released,
    law_tasks_come_in_order, law_tasks_success_means_all_done, lemma_done_later, lemma_embedded,
    lemma_embedded_done, lemma_history_prefix, lemma_pending_before, was_done,
};
use crate::legacy::{
    pod_uids, start_cleanup as start_legacy_cleanup, LegacyCleanup, LegacyCleanupView,
    LegacyOrphanCleanup, LegacyOrphanCleanupView, LEGACY_POD_UID_TAG,
};
use crate::operation::{
    asked, is_history, run, scope_of, scope_of_listed, succeeded, ApiScopeView, Operation, Progress,
    ReplyView, RequestView,
};
use crate::orphans::{
    eip_uids, unfinalize_plan, OrphanCleanup, OrphanCleanupView, LEGACY_MANAGE_EIP_LABEL,
    LEGACY_POD_FINALIZER_NAME,
};
use crate::search::lemma_filter_members;
use crate::tasks::{release_all, start_tasks, TaskList, TaskListView, TaskView};
use vstd::prelude::*;

verus! {

/// The state of giving back the addresses of an `Eip` in which tasks are carried out.
pub open spec fn eip_releasing() -> spec_fn(TaskListView) -> EipCleanupView {
    |tasks: TaskListView| EipCleanupView::Releasing { tasks }
}

/// Giving back the addresses of an `Eip` succeeds only once every address that is tagged for it has
/// been disassociated, if it was attached to anything, and given back.
pub proof fn law_eip_cleanup_releases_every_address(
    eip: EipView,
    addresses: Seq<AddressView>,
    answers: Seq<Result<ReplyView, Error>>,
)
    requires
        answers.len() > 0,
        answers[0] == Ok::<ReplyView, Error>(ReplyView::Addresses(Some(addresses))),
        eip.uid is Some,
        is_history::<EipCleanup>(start_cleanup(eip), answers),
        succeeded::<EipCleanup>(start_cleanup(eip), answers),
    ensures
        forall|i: int|
            0 <= i < addresses.len() && (#[trigger] addresses[i]).allocation_id is Some
                ==> was_done::<EipCleanup>(
                start_cleanup(eip),
                answers,
                TaskView::Release { allocation_id: addresses[i].allocation_id->0 },
            ),
        forall|i: int|
            0 <= i < addresses.len() && (#[trigger] addresses[i]).association_id is Some
                ==> was_done::<EipCleanup>(
                start_cleanup(eip),
                answers,
                TaskView::Disassociate {
                    association_id: addresses[i].association_id->0,
                    must_exist: false,
                },
            ),
{
    let start = start_cleanup(eip);
    let list = release_all(addresses, false);
    let tasks = start_tasks(list, None);
    let first = seq![answers[0]];
    let rest = answers.skip(1);
    assert(first + rest =~= answers);
    assert(first.drop_last() =~= Seq::empty());
    assert(run::<EipCleanup>(start, first.drop_last()) == start);
    assert(embeds::<EipCleanup>(eip_releasing()));
    assert(continues::<EipCleanup>(eip_releasing(), tasks, run::<EipCleanup>(start, first)));
    lemma_embedded::<EipCleanup>(start, first, tasks, eip_releasing(), rest);
    law_tasks_success_means_all_done(list, None, rest);
    law_every_address_is_released(addresses, false);
    assert forall|t: TaskView| list.contains(t) implies #[trigger] was_done::<EipCleanup>(
        start,
        answers,
        t,
    ) by {
        let k = choose|k: int| 0 <= k < list.len() && list[k] == t;
        assert(was_done::<TaskList>(tasks, rest, list[k]));
        lemma_embedded_done::<EipCleanup>(start, first, tasks, eip_releasing(), rest, t);
    }
}

// Orphans.

/// The addresses that were described for the cluster, in both ways.
pub open spec fn described(answers: Seq<Result<ReplyView, Error>>) -> Seq<AddressView> {
    match (answers[0], answers[1]) {
        (
            Ok(ReplyView::Addresses(Some(addresses))),
            Ok(ReplyView::Addresses(Some(legacy))),
        ) => addresses + legacy,
        _ => Seq::empty(),
    }
}

/// The uids of the `Eip`s that were listed.
pub open spec fn listed_uids(answers: Seq<Result<ReplyView, Error>>) -> Seq<Seq<char>> {
    match answers[2] {
        Ok(ReplyView::Eips(eips)) => eip_uids(eips),
        _ => Seq::empty(),
    }
}

/// How orphan cleanup starts.
pub open spec fn start_orphans(cluster_name: Seq<char>, namespace: Option<Seq<char>>) -> Progress<
    OrphanCleanupView,
    (),
> {
    Progress::Pending(OrphanCleanupView::Describing { cluster_name, namespace })
}

/// The state of orphan cleanup in which addresses are given back.
pub open spec fn orphans_releasing(namespace: Option<Seq<char>>) -> spec_fn(
    TaskListView,
) -> OrphanCleanupView {
    |tasks: TaskListView| OrphanCleanupView::Releasing { namespace, tasks }
}

/// The tasks that give back the orphans.
pub open spec fn orphan_tasks(answers: Seq<Result<ReplyView, Error>>) -> Seq<TaskView> {
    release_all(orphans(described(answers), EIP_UID_TAG@, listed_uids(answers)), false)
}

/// After three answers, orphan cleanup has come to its tasks, or has failed.
proof fn lemma_orphans_listed(
    cluster_name: Seq<char>,
    namespace: Option<Seq<char>>,
    answers: Seq<Result<ReplyView, Error>>,
)
    requires
        is_history::<OrphanCleanup>(start_orphans(cluster_name, namespace), answers),
        answers.len() == 3,
    ensures
        match run::<OrphanCleanup>(start_orphans(cluster_name, namespace), answers) {
            Progress::Finished(outcome) => outcome is Err,
            Progress::Pending(state) => {
                let tasks = start_tasks(orphan_tasks(answers), None);
                &&& tasks is Pending || state == (OrphanCleanupView::ListingPods { namespace })
                &&& continues::<OrphanCleanup>(
                    orphans_releasing(namespace),
                    tasks,
                    run::<OrphanCleanup>(start_orphans(cluster_name, namespace), answers),
                )
                &&& answers[0] matches Ok(ReplyView::Addresses(Some(_)))
                &&& answers[1] matches Ok(ReplyView::Addresses(Some(_)))
                &&& answers[2] matches Ok(ReplyView::Eips(_))
            },
        },
{
    let start = start_orphans(cluster_name, namespace);
    let two = answers.drop_last();
    let one = two.drop_last();
    assert(one.drop_last() =~= Seq::empty());
    assert(run::<OrphanCleanup>(start, one.drop_last()) == start);
    assert(one.last() == answers[0]);
    assert(two.last() == answers[1]);
    assert(answers.last() == answers[2]);
    assert(is_history::<OrphanCleanup>(start, two));
    assert(is_history::<OrphanCleanup>(start, one));
    assert(run::<OrphanCleanup>(start, one) == OrphanCleanup::next(start->Pending_0, answers[0]));
}

/// What orphan cleanup is about after its first three answers.
spec fn orphans_go_right(
    cluster_name: Seq<char>,
    namespace: Option<Seq<char>>,
    answers: Seq<Result<ReplyView, Error>>,
) -> bool {
    let start = start_orphans(cluster_name, namespace);
    let tasks = start_tasks(orphan_tasks(answers), None);
    let rest = answers.skip(3);
    match run::<OrphanCleanup>(start, answers) {
        Progress::Pending(OrphanCleanupView::Releasing { namespace: n, tasks: x }) => n == namespace
            && is_history::<TaskList>(tasks, rest) && run::<TaskList>(tasks, rest) == Progress::<
            TaskListView,
            (),
        >::Pending(x),
        Progress::Pending(OrphanCleanupView::ListingPods { namespace: n }) => n == namespace
            && all_released(cluster_name, namespace, answers),
        Progress::Pending(OrphanCleanupView::Unfinalizing { tasks: x }) => all_released(
            cluster_name,
            namespace,
            answers,
        ) && only_patches(seq![x.current] + x.rest),
        Progress::Pending(_) => false,
        Progress::Finished(outcome) => outcome is Ok ==> all_released(
            cluster_name,
            namespace,
            answers,
        ),
    }
}

/// Whether every orphan among the described addresses was given back.
pub open spec fn all_released(
    cluster_name: Seq<char>,
    namespace: Option<Seq<char>>,
    answers: Seq<Result<ReplyView, Error>>,
) -> bool {
    forall|i: int|
        0 <= i < orphan_tasks(answers).len() ==> was_done::<OrphanCleanup>(
            start_orphans(cluster_name, namespace),
            answers,
            #[trigger] orphan_tasks(answers)[i],
        )
}

/// Whether tasks do nothing but remove finalizers.
pub open spec fn only_patches(tasks: Seq<TaskView>) -> bool {
    forall|i: int| 0 <= i < tasks.len() ==> #[trigger] tasks[i] is RemoveFinalizer
}

proof fn lemma_plan_only_patches(scope: ApiScopeView, pods: Seq<PodView>)
    ensures
        only_patches(unfinalize_plan(scope, pods).tasks),
    decreases pods.len(),
{
    if pods.len() > 0 {
        lemma_plan_only_patches(scope, pods.drop_last());
    }
}

proof fn lemma_released_later(
    cluster_name: Seq<char>,
    namespace: Option<Seq<char>>,
    answers: Seq<Result<ReplyView, Error>>,
)
    requires
        answers.len() > 3,
        all_released(cluster_name, namespace, answers.drop_last()),
    ensures
        all_released(cluster_name, namespace, answers),
{
    let before = answers.drop_last();
    let start = start_orphans(cluster_name, namespace);
    assert(orphan_tasks(answers) == orphan_tasks(before));
    assert forall|i: int| 0 <= i < orphan_tasks(answers).len() implies was_done::<OrphanCleanup>(
        start,
        answers,
        #[trigger] orphan_tasks(answers)[i],
    ) by {
        assert(was_done::<OrphanCleanup>(start, before, orphan_tasks(before)[i]));
        lemma_done_later::<OrphanCleanup>(start, answers, orphan_tasks(answers)[i]);
    }
}

proof fn lemma_orphans_go_right(
    cluster_name: Seq<char>,
    namespace: Option<Seq<char>>,
    answers: Seq<Result<ReplyView, Error>>,
)
    requires
        is_history::<OrphanCleanup>(start_orphans(cluster_name, namespace), answers),
        answers.len() >= 3,
    ensures
        orphans_go_right(cluster_name, namespace, answers),
    decreases answers.len(),
{
    let start = start_orphans(cluster_name, namespace);
    let tasks = start_tasks(orphan_tasks(answers), None);
    if answers.len() == 3 {
        lemma_orphans_listed(cluster_name, namespace, answers);
        assert(answers.skip(3) =~= Seq::empty());
    } else {
        let before = answers.drop_last();
        let rest = answers.skip(3);
        lemma_orphans_go_right(cluster_name, namespace, before);
        assert(orphan_tasks(answers) == orphan_tasks(before));
        assert(rest.drop_last() =~= before.skip(3));
        assert(rest.last() == answers.last());
        match run::<OrphanCleanup>(start, before) {
            Progress::Pending(OrphanCleanupView::Releasing { tasks: x, .. }) => {
                lemma_orphans_releasing(cluster_name, namespace, answers, x);
            },
            Progress::Pending(OrphanCleanupView::ListingPods { .. }) => {
                lemma_released_later(cluster_name, namespace, answers);
                if let Ok(ReplyView::Pods(pods)) = answers.last() {
                    let scope = scope_of(namespace);
                    lemma_plan_only_patches(scope, pods);
                    let plan = unfinalize_plan(scope, pods).tasks;
                    if plan.len() > 0 {
                        assert(seq![plan[0]] + plan.drop_first() =~= plan);
                    }
                }
            },
            Progress::Pending(OrphanCleanupView::Unfinalizing { tasks: x }) => {
                lemma_released_later(cluster_name, namespace, answers);
                let all = seq![x.current] + x.rest;
                assert forall|i: int| 0 <= i < x.rest.len() implies #[trigger] x.rest[i] is RemoveFinalizer by {
                    assert(all[i + 1] == x.rest[i]);
                }
                if x.rest.len() > 0 {
                    assert(seq![x.rest[0]] + x.rest.drop_first() =~= x.rest);
                }
            },
            Progress::Pending(_) => {},
            Progress::Finished(outcome) => {
                if outcome is Ok {
                    lemma_released_later(cluster_name, namespace, answers);
                }
            },
        }
    }
}

/// One answer more to giving back orphans.
proof fn lemma_orphans_releasing(
    cluster_name: Seq<char>,
    namespace: Option<Seq<char>>,
    answers: Seq<Result<ReplyView, Error>>,
    x: TaskListView,
)
    requires
        is_history::<OrphanCleanup>(start_orphans(cluster_name, namespace), answers),
        answers.len() > 3,
        run::<OrphanCleanup>(start_orphans(cluster_name, namespace), answers.drop_last())
            == Progress::<OrphanCleanupView, ()>::Pending(
            OrphanCleanupView::Releasing { namespace, tasks: x },
        ),
        is_history::<TaskList>(
            start_tasks(orphan_tasks(answers), None),
            answers.skip(3).drop_last(),
        ),
        run::<TaskList>(start_tasks(orphan_tasks(answers), None), answers.skip(3).drop_last())
            == Progress::<TaskListView, ()>::Pending(x),
    ensures
        orphans_go_right(cluster_name, namespace, answers),
{
    let start = start_orphans(cluster_name, namespace);
    let list = orphan_tasks(answers);
    let tasks = start_tasks(list, None);
    let before = answers.drop_last();
    let first = answers.take(3);
    let rest = answers.skip(3);
    let embed = orphans_releasing(namespace);
    assert(rest.last() == answers.last());
    assert(is_history::<TaskList>(tasks, rest));
    if succeeded::<TaskList>(tasks, rest) {
        assert(first + rest =~= answers);
        lemma_history_prefix::<OrphanCleanup>(start, answers, 3);
        lemma_orphans_listed(cluster_name, namespace, first);
        assert(orphan_tasks(first) == list);
        lemma_pending_before::<OrphanCleanup>(start, before, 3);
        assert(before.take(3) =~= first);
        assert(embeds::<OrphanCleanup>(embed));
        law_tasks_success_means_all_done(list, None, rest);
        assert forall|i: int| 0 <= i < list.len() implies was_done::<OrphanCleanup>(
            start,
            answers,
            #[trigger] list[i],
        ) by {
            assert(was_done::<TaskList>(tasks, rest, list[i]));
            lemma_embedded_done::<OrphanCleanup>(start, first, tasks, embed, rest, list[i]);
        }
        assert(all_released(cluster_name, namespace, answers));
    }
}

/// Whether a request gives an address back or ends its association.
pub open spec fn is_about(request: RequestView, address: AddressView) -> bool {
    match request {
        RequestView::ReleaseAddress { allocation_id } => address.allocation_id == Some(
            allocation_id,
        ),
        RequestView::DisassociateAddress { association_id } => address.association_id == Some(
            association_id,
        ),
        _ => false,
    }
}

/// Orphan cleanup gives back no address, and ends no association, but that of an address that was
/// described for the cluster and that no listed `Eip` owns: its tag names none of them, or is
/// missing.
pub proof fn law_orphan_cleanup_spares_the_living(
    cluster_name: Seq<char>,
    namespace: Option<Seq<char>>,
    answers: Seq<Result<ReplyView, Error>>,
    request: RequestView,
)
    requires
        is_history::<OrphanCleanup>(start_orphans(cluster_name, namespace), answers),
        asked::<OrphanCleanup>(start_orphans(cluster_name, namespace), answers) == Some(request),
        request is ReleaseAddress || request is DisassociateAddress,
    ensures
        answers.len() >= 3,
        exists|j: int|
            0 <= j < described(answers).len() && is_about(request, #[trigger] described(answers)[j])
                && described(answers)[j].is_orphan(EIP_UID_TAG@, listed_uids(answers)),
{
    let start = start_orphans(cluster_name, namespace);
    lemma_orphans_early(cluster_name, namespace, answers);
    lemma_orphans_go_right(cluster_name, namespace, answers);
    if let Progress::Pending(OrphanCleanupView::Unfinalizing { tasks: x }) = run::<OrphanCleanup>(
        start,
        answers,
    ) {
        assert((seq![x.current] + x.rest)[0] is RemoveFinalizer);
    }
    let list = orphan_tasks(answers);
    let rest = answers.skip(3);
    law_tasks_come_in_order(list, None, rest);
    let i = rest.len() as int;
    assert(list[i].request() == request);
    let gone = orphans(described(answers), EIP_UID_TAG@, listed_uids(answers));
    law_only_the_addresses_are_released(gone, false, i);
    let j = choose|j: int| 0 <= j < gone.len() && is_about(request, #[trigger] gone[j]);
    lemma_filter_members(
        described(answers),
        |a: AddressView| a.is_orphan(EIP_UID_TAG@, listed_uids(answers)),
    );
    assert(gone.contains(gone[j]));
    let k = choose|k: int| 0 <= k < described(answers).len() && described(answers)[k] == gone[j];
    assert(is_about(request, described(answers)[k]));
}

/// Before its fourth request, orphan cleanup changes nothing.
proof fn lemma_orphans_early(
    cluster_name: Seq<char>,
    namespace: Option<Seq<char>>,
    answers: Seq<Result<ReplyView, Error>>,
)
    requires
        is_history::<OrphanCleanup>(start_orphans(cluster_name, namespace), answers),
    ensures
        answers.len() < 3 ==> match run::<OrphanCleanup>(
            start_orphans(cluster_name, namespace),
            answers,
        ) {
            Progress::Pending(state) => (state is Describing && answers.len() == 0) || (
            state is DescribingLegacy && answers.len() == 1) || (state is ListingEips
                && answers.len() == 2),
            Progress::Finished(outcome) => outcome is Err,
        },
    decreases answers.len(),
{
    if answers.len() > 0 {
        lemma_orphans_early(cluster_name, namespace, answers.drop_last());
    }
}

/// Orphan cleanup succeeds only once every address that was described for the cluster, and that no
/// listed `Eip` owns, has been given back.
pub proof fn law_orphan_cleanup_releases_every_orphan(
    cluster_name: Seq<char>,
    namespace: Option<Seq<char>>,
    answers: Seq<Result<ReplyView, Error>>,
)
    requires
        is_history::<OrphanCleanup>(start_orphans(cluster_name, namespace), answers),
        succeeded::<OrphanCleanup>(start_orphans(cluster_name, namespace), answers),
    ensures
        answers.len() >= 3,
        forall|j: int|
            0 <= j < described(answers).len() && (#[trigger] described(answers)[j]).is_orphan(
                EIP_UID_TAG@,
                listed_uids(answers),
            ) && described(answers)[j].allocation_id is Some ==> was_done::<OrphanCleanup>(
                start_orphans(cluster_name, namespace),
                answers,
                TaskView::Release { allocation_id: described(answers)[j].allocation_id->0 },
            ),
{
    let start = start_orphans(cluster_name, namespace);
    lemma_orphans_early(cluster_name, namespace, answers);
    lemma_orphans_go_right(cluster_name, namespace, answers);
    let list = orphan_tasks(answers);
    let gone = orphans(described(answers), EIP_UID_TAG@, listed_uids(answers));
    law_every_address_is_released(gone, false);
    lemma_filter_members(
        described(answers),
        |a: AddressView| a.is_orphan(EIP_UID_TAG@, listed_uids(answers)),
    );
    assert forall|j: int|
        0 <= j < described(answers).len() && (#[trigger] described(answers)[j]).is_orphan(
            EIP_UID_TAG@,
            listed_uids(answers),
        ) && described(answers)[j].allocation_id is Some implies was_done::<OrphanCleanup>(
        start,
        answers,
        TaskView::Release { allocation_id: described(answers)[j].allocation_id->0 },
    ) by {
        let a = described(answers)[j];
        assert(described(answers).contains(a));
        assert(gone.contains(a));
        let k = choose|k: int| 0 <= k < gone.len() && gone[k] == a;
        assert(list.contains(TaskView::Release { allocation_id: gone[k].allocation_id->0 }));
        let i = choose|i: int|
            0 <= i < list.len() && list[i] == (TaskView::Release {
                allocation_id: a.allocation_id->0,
            });
        assert(was_done::<OrphanCleanup>(start, answers, list[i]));
    }
}

/// Whether none of the `Eip`s has the uid that an address is tagged with.
pub open spec fn belongs_to_none(address: AddressView, eips: Seq<EipView>) -> bool {
    forall|i: int|
        0 <= i < eips.len() && (#[trigger] eips[i]).uid is Some ==> eips[i].uid != address.tag(
            "eip.materialize.cloud/eip_uid"@,
        )
}

/// Whether none of the pods has the uid that an address is tagged with.
pub open spec fn belongs_to_no_pod(address: AddressView, pods: Seq<PodView>) -> bool {
    forall|i: int|
        0 <= i < pods.len() && (#[trigger] pods[i]).uid is Some ==> pods[i].uid != address.tag(
            "eip.aws.materialize.com/pod_uid"@,
        )
}

/// Orphan cleanup never touches the address of a listed `Eip`: what it gives back, and what it ends
/// the association of, is an address that was described and whose tag is the uid of none of the
/// `Eip`s that were listed.
pub proof fn law_listed_eips_keep_their_addresses(
    cluster_name: Seq<char>,
    namespace: Option<Seq<char>>,
    answers: Seq<Result<ReplyView, Error>>,
    addresses: Seq<AddressView>,
    legacy: Seq<AddressView>,
    eips: Seq<EipView>,
    request: RequestView,
)
    requires
        is_history::<OrphanCleanup>(start_orphans(cluster_name, namespace), answers),
        answers.len() >= 3,
        answers[0] == Ok::<ReplyView, Error>(ReplyView::Addresses(Some(addresses))),
        answers[1] == Ok::<ReplyView, Error>(ReplyView::Addresses(Some(legacy))),
        answers[2] == Ok::<ReplyView, Error>(ReplyView::Eips(eips)),
        asked::<OrphanCleanup>(start_orphans(cluster_name, namespace), answers) == Some(request),
        request is ReleaseAddress || request is DisassociateAddress,
    ensures
        exists|j: int|
            0 <= j < (addresses + legacy).len() && is_about(
                request,
                #[trigger] (addresses + legacy)[j],
            ) && belongs_to_none((addresses + legacy)[j], eips),
{
    law_orphan_cleanup_spares_the_living(cluster_name, namespace, answers, request);
    let all = addresses + legacy;
    let j = choose|j: int|
        0 <= j < all.len() && is_about(request, #[trigger] all[j]) && all[j].is_orphan(
            EIP_UID_TAG@,
            listed_uids(answers),
        );
    law_orphans_are_those_without_a_listed_owner(all[j], eips, Seq::empty());
    assert(belongs_to_none(all[j], eips));
}

/// Orphan cleanup succeeds only once every described address whose tag is the uid of none of the
/// listed `Eip`s has been given back.
pub proof fn law_addresses_without_an_eip_are_released(
    cluster_name: Seq<char>,
    namespace: Option<Seq<char>>,
    answers: Seq<Result<ReplyView, Error>>,
    addresses: Seq<AddressView>,
    legacy: Seq<AddressView>,
    eips: Seq<EipView>,
    j: int,
)
    requires
        is_history::<OrphanCleanup>(start_orphans(cluster_name, namespace), answers),
        succeeded::<OrphanCleanup>(start_orphans(cluster_name, namespace), answers),
        answers.len() >= 3,
        answers[0] == Ok::<ReplyView, Error>(ReplyView::Addresses(Some(addresses))),
        answers[1] == Ok::<ReplyView, Error>(ReplyView::Addresses(Some(legacy))),
        answers[2] == Ok::<ReplyView, Error>(ReplyView::Eips(eips)),
        0 <= j < (addresses + legacy).len(),
        (addresses + legacy)[j].allocation_id is Some,
        belongs_to_none((addresses + legacy)[j], eips),
    ensures
        was_done::<OrphanCleanup>(
            start_orphans(cluster_name, namespace),
            answers,
            TaskView::Release { allocation_id: (addresses + legacy)[j].allocation_id->0 },
        ),
{
    law_orphan_cleanup_releases_every_orphan(cluster_name, namespace, answers);
    law_orphans_are_those_without_a_listed_owner((addresses + legacy)[j], eips, Seq::empty());
    assert(described(answers)[j].is_orphan(EIP_UID_TAG@, listed_uids(answers)));
}

/// Where pods own the addresses, cleanup of orphaned addresses never touches the address of a
/// listed pod.
pub proof fn law_listed_pods_keep_their_addresses(
    cluster_name: Seq<char>,
    addresses: Seq<AddressView>,
    pods: Seq<PodView>,
    rest: Seq<Result<ReplyView, Error>>,
    request: RequestView,
)
    requires
        is_history::<LegacyOrphanCleanup>(
            start_legacy_orphans(cluster_name),
            seq![
                Ok::<ReplyView, Error>(ReplyView::Addresses(Some(addresses))),
                Ok::<ReplyView, Error>(ReplyView::Pods(pods)),
            ] + rest,
        ),
        asked::<LegacyOrphanCleanup>(
            start_legacy_orphans(cluster_name),
            seq![
                Ok::<ReplyView, Error>(ReplyView::Addresses(Some(addresses))),
                Ok::<ReplyView, Error>(ReplyView::Pods(pods)),
            ] + rest,
        ) == Some(request),
        request is ReleaseAddress || request is DisassociateAddress,
    ensures
        exists|j: int|
            0 <= j < addresses.len() && is_about(request, #[trigger] addresses[j])
                && belongs_to_no_pod(addresses[j], pods),
{
    law_legacy_orphan_cleanup_is_exact(cluster_name, addresses, pods, rest);
    match request {
        RequestView::ReleaseAddress { allocation_id } => {
            let j = choose|j: int|
                0 <= j < addresses.len() && (#[trigger] addresses[j]).allocation_id == Some(
                    allocation_id,
                ) && addresses[j].is_orphan(LEGACY_POD_UID_TAG@, pod_uids(pods));
            law_orphans_are_those_without_a_listed_owner(addresses[j], Seq::empty(), pods);
            assert(is_about(request, addresses[j]) && belongs_to_no_pod(addresses[j], pods));
        },
        RequestView::DisassociateAddress { association_id } => {
            let j = choose|j: int|
                0 <= j < addresses.len() && (#[trigger] addresses[j]).association_id == Some(
                    association_id,
                ) && addresses[j].is_orphan(LEGACY_POD_UID_TAG@, pod_uids(pods));
            law_orphans_are_those_without_a_listed_owner(addresses[j], Seq::empty(), pods);
            assert(is_about(request, addresses[j]) && belongs_to_no_pod(addresses[j], pods));
        },
        _ => {},
    }
}

/// Where pods own the addresses, cleanup of orphaned addresses succeeds only once every described
/// address whose tag is the uid of none of the listed pods has been given back.
pub proof fn law_addresses_without_a_pod_are_released(
    cluster_name: Seq<char>,
    addresses: Seq<AddressView>,
    pods: Seq<PodView>,
    rest: Seq<Result<ReplyView, Error>>,
    j: int,
)
    requires
        is_history::<LegacyOrphanCleanup>(
            start_legacy_orphans(cluster_name),
            seq![
                Ok::<ReplyView, Error>(ReplyView::Addresses(Some(addresses))),
                Ok::<ReplyView, Error>(ReplyView::Pods(pods)),
            ] + rest,
        ),
        succeeded::<LegacyOrphanCleanup>(
            start_legacy_orphans(cluster_name),
            seq![
                Ok::<ReplyView, Error>(ReplyView::Addresses(Some(addresses))),
                Ok::<ReplyView, Error>(ReplyView::Pods(pods)),
            ] + rest,
        ),
        0 <= j < addresses.len(),
        addresses[j].allocation_id is Some,
        belongs_to_no_pod(addresses[j], pods),
    ensures
        was_done::<LegacyOrphanCleanup>(
            start_legacy_orphans(cluster_name),
            seq![
                Ok::<ReplyView, Error>(ReplyView::Addresses(Some(addresses))),
                Ok::<ReplyView, Error>(ReplyView::Pods(pods)),
            ] + rest,
            TaskView::Release { allocation_id: addresses[j].allocation_id->0 },
        ),
{
    law_legacy_orphan_cleanup_is_exact(cluster_name, addresses, pods, rest);
    law_orphans_are_those_without_a_listed_owner(addresses[j], Seq::empty(), pods);
    assert(addresses[j].is_orphan(LEGACY_POD_UID_TAG@, pod_uids(pods)));
}

/// Where the list of finalizers to remove does not end in an error, the finalizer is removed from
/// every pod that has it, where that pod is: in the namespace whose pods were listed, or in its own
/// where all were. The list ends in an error exactly where such a pod has no name.
pub proof fn law_every_finalizer_is_removed(scope: ApiScopeView, pods: Seq<PodView>)
    ensures
        unfinalize_plan(scope, pods).end is Some <==> exists|i: int|
            0 <= i < pods.len() && (#[trigger] pods[i]).finalizers.contains(
                LEGACY_POD_FINALIZER_NAME@,
            ) && pods[i].name is None,
        unfinalize_plan(scope, pods).end is None ==> forall|i: int|
            0 <= i < pods.len() && (#[trigger] pods[i]).finalizers.contains(
                LEGACY_POD_FINALIZER_NAME@,
            ) ==> unfinalize_plan(scope, pods).tasks.contains(
                TaskView::RemoveFinalizer {
                    scope: scope_of_listed(scope, pods[i].namespace),
                    pod_name: pods[i].name->0,
                    position: pods[i].finalizers.index_of_first(
                        LEGACY_POD_FINALIZER_NAME@,
                    )->0 as nat,
                    finalizer: LEGACY_POD_FINALIZER_NAME@,
                },
            ),
    decreases pods.len(),
{
    if pods.len() > 0 {
        let front = pods.drop_last();
        law_every_finalizer_is_removed(scope, front);
        let before = unfinalize_plan(scope, front);
        let plan = unfinalize_plan(scope, pods);
        let last = pods[pods.len() - 1];
        assert(pods.last() == last);
        last.finalizers.index_of_first_ensures(LEGACY_POD_FINALIZER_NAME@);
        assert(forall|i: int| 0 <= i < front.len() ==> #[trigger] front[i] == pods[i]);
        if before.end is Some {
            let i = choose|i: int|
                0 <= i < front.len() && (#[trigger] front[i]).finalizers.contains(
                    LEGACY_POD_FINALIZER_NAME@,
                ) && front[i].name is None;
            assert(pods[i].name is None);
        } else {
            assert forall|t: TaskView| before.tasks.contains(t) implies #[trigger] plan.tasks.contains(
                t,
            ) by {
                let k = choose|k: int| 0 <= k < before.tasks.len() && before.tasks[k] == t;
                assert(plan.tasks[k] == t);
            }
            if last.finalizers.contains(LEGACY_POD_FINALIZER_NAME@) && last.name is Some {
                let n = before.tasks.len() as int;
                assert(plan.tasks.contains(plan.tasks[n]));
            }
            assert forall|i: int|
                0 <= i < pods.len() && (#[trigger] pods[i]).finalizers.contains(
                    LEGACY_POD_FINALIZER_NAME@,
                ) && pods[i].name is None implies plan.end is Some by {
                if i < front.len() {
                    assert(front[i] == pods[i]);
                }
            }
            if plan.end is None {
                assert forall|i: int|
                    0 <= i < pods.len() && (#[trigger] pods[i]).finalizers.contains(
                        LEGACY_POD_FINALIZER_NAME@,
                    ) implies plan.tasks.contains(
                    TaskView::RemoveFinalizer {
                        scope: scope_of_listed(scope, pods[i].namespace),
                        pod_name: pods[i].name->0,
                        position: pods[i].finalizers.index_of_first(
                            LEGACY_POD_FINALIZER_NAME@,
                        )->0 as nat,
                        finalizer: LEGACY_POD_FINALIZER_NAME@,
                    },
                ) by {
                    if i < front.len() {
                        assert(front[i] == pods[i]);
                        assert(before.tasks.contains(
                            TaskView::RemoveFinalizer {
                                scope: scope_of_listed(scope, front[i].namespace),
                                pod_name: front[i].name->0,
                                position: front[i].finalizers.index_of_first(
                                    LEGACY_POD_FINALIZER_NAME@,
                                )->0 as nat,
                                finalizer: LEGACY_POD_FINALIZER_NAME@,
                            },
                        ));
                    }
                }
            } else {
                assert(pods[pods.len() - 1].name is None);
            }
        }
    }
}

// Pods that have an address without an `Eip`.

/// The state of giving back the addresses of a pod in which tasks are carried out.
pub open spec fn pod_releasing() -> spec_fn(TaskListView) -> LegacyCleanupView {
    |tasks: TaskListView| LegacyCleanupView::Releasing { tasks }
}

/// Giving back the addresses of a pod succeeds only once every address that is tagged for it has
/// been disassociated, if it was attached to anything, and given back.
pub proof fn law_legacy_cleanup_releases_every_address(
    pod: PodView,
    addresses: Seq<AddressView>,
    answers: Seq<Result<ReplyView, Error>>,
)
    requires
        answers.len() > 0,
        answers[0] == Ok::<ReplyView, Error>(ReplyView::Addresses(Some(addresses))),
        pod.uid is Some,
        is_history::<LegacyCleanup>(start_legacy_cleanup(pod), answers),
        succeeded::<LegacyCleanup>(start_legacy_cleanup(pod), answers),
    ensures
        forall|i: int|
            0 <= i < addresses.len() && (#[trigger] addresses[i]).allocation_id is Some
                ==> was_done::<LegacyCleanup>(
                start_legacy_cleanup(pod),
                answers,
                TaskView::Release { allocation_id: addresses[i].allocation_id->0 },
            ),
        forall|i: int|
            0 <= i < addresses.len() && (#[trigger] addresses[i]).association_id is Some
                ==> was_done::<LegacyCleanup>(
                start_legacy_cleanup(pod),
                answers,
                TaskView::Disassociate {
                    association_id: addresses[i].association_id->0,
                    must_exist: true,
                },
            ),
{
    let start = start_legacy_cleanup(pod);
    let list = release_all(addresses, true);
    let tasks = start_tasks(list, None);
    let first = seq![answers[0]];
    let rest = answers.skip(1);
    assert(first + rest =~= answers);
    assert(first.drop_last() =~= Seq::empty());
    assert(run::<LegacyCleanup>(start, first.drop_last()) == start);
    assert(embeds::<LegacyCleanup>(pod_releasing()));
    assert(continues::<LegacyCleanup>(pod_releasing(), tasks, run::<LegacyCleanup>(start, first)));
    lemma_embedded::<LegacyCleanup>(start, first, tasks, pod_releasing(), rest);
    law_tasks_success_means_all_done(list, None, rest);
    law_every_address_is_released(addresses, true);
    assert forall|t: TaskView| list.contains(t) implies #[trigger] was_done::<LegacyCleanup>(
        start,
        answers,
        t,
    ) by {
        let k = choose|k: int| 0 <= k < list.len() && list[k] == t;
        assert(was_done::<TaskList>(tasks, rest, list[k]));
        lemma_embedded_done::<LegacyCleanup>(start, first, tasks, pod_releasing(), rest, t);
    }
}

/// How cleanup of orphaned addresses starts where pods own the addresses.
pub open spec fn start_legacy_orphans(cluster_name: Seq<char>) -> Progress<
    LegacyOrphanCleanupView,
    (),
> {
    Progress::Pending(LegacyOrphanCleanupView::Describing { cluster_name })
}

/// The state of that cleanup in which addresses are given back.
pub open spec fn legacy_orphans_releasing() -> spec_fn(TaskListView) -> LegacyOrphanCleanupView {
    |tasks: TaskListView| LegacyOrphanCleanupView::Releasing { tasks }
}

/// Where pods own the addresses, cleanup of orphaned addresses lists the pods of all namespaces,
/// and gives back exactly those of the described addresses that no listed pod owns; and it ends no
/// association but one of theirs.
pub proof fn law_legacy_orphan_cleanup_is_exact(
    cluster_name: Seq<char>,
    addresses: Seq<AddressView>,
    pods: Seq<PodView>,
    rest: Seq<Result<ReplyView, Error>>,
)
    requires
        is_history::<LegacyOrphanCleanup>(
            start_legacy_orphans(cluster_name),
            seq![
                Ok::<ReplyView, Error>(ReplyView::Addresses(Some(addresses))),
                Ok::<ReplyView, Error>(ReplyView::Pods(pods)),
            ] + rest,
        ),
    ensures
        ({
            let start = start_legacy_orphans(cluster_name);
            let answers = seq![
                Ok::<ReplyView, Error>(ReplyView::Addresses(Some(addresses))),
                Ok::<ReplyView, Error>(ReplyView::Pods(pods)),
            ] + rest;
            &&& asked::<LegacyOrphanCleanup>(start, answers.take(1)) == Some(
                RequestView::ListPods {
                    scope: ApiScopeView::All,
                    label_selector: LEGACY_MANAGE_EIP_LABEL@,
                },
            )
            &&& asked::<LegacyOrphanCleanup>(start, answers) matches Some(
                RequestView::DisassociateAddress { association_id },
            ) ==> exists|j: int|
                0 <= j < addresses.len() && (#[trigger] addresses[j]).association_id == Some(
                    association_id,
                ) && addresses[j].is_orphan(LEGACY_POD_UID_TAG@, pod_uids(pods))
            &&& asked::<LegacyOrphanCleanup>(start, answers) matches Some(
                RequestView::ReleaseAddress { allocation_id },
            ) ==> exists|j: int|
                0 <= j < addresses.len() && (#[trigger] addresses[j]).allocation_id == Some(
                    allocation_id,
                ) && addresses[j].is_orphan(LEGACY_POD_UID_TAG@, pod_uids(pods))
            &&& succeeded::<LegacyOrphanCleanup>(start, answers) ==> forall|j: int|
                0 <= j < addresses.len() && (#[trigger] addresses[j]).is_orphan(
                    LEGACY_POD_UID_TAG@,
                    pod_uids(pods),
                ) && addresses[j].allocation_id is Some ==> was_done::<LegacyOrphanCleanup>(
                    start,
                    answers,
                    TaskView::Release { allocation_id: addresses[j].allocation_id->0 },
                )
        }),
{
    let start = start_legacy_orphans(cluster_name);
    let first = seq![
        Ok::<ReplyView, Error>(ReplyView::Addresses(Some(addresses))),
        Ok::<ReplyView, Error>(ReplyView::Pods(pods)),
    ];
    let answers = first + rest;
    let embed = legacy_orphans_releasing();
    let gone = orphans(addresses, LEGACY_POD_UID_TAG@, pod_uids(pods));
    let list = release_all(gone, true);
    let tasks = start_tasks(list, None);
    let one = first.drop_last();
    assert(one.drop_last() =~= Seq::empty());
    assert(run::<LegacyOrphanCleanup>(start, one.drop_last()) == start);
    assert(one.last() == first[0]);
    assert(run::<LegacyOrphanCleanup>(start, one) == LegacyOrphanCleanup::next(
        start->Pending_0,
        first[0],
    ));
    assert(embeds::<LegacyOrphanCleanup>(embed));
    assert(continues::<LegacyOrphanCleanup>(
        embed,
        tasks,
        run::<LegacyOrphanCleanup>(start, first),
    ));
    lemma_embedded::<LegacyOrphanCleanup>(start, first, tasks, embed, rest);
    lemma_filter_members(
        addresses,
        |a: AddressView| a.is_orphan(LEGACY_POD_UID_TAG@, pod_uids(pods)),
    );
    assert(answers.take(1) =~= one);
    if let Some(RequestView::DisassociateAddress { association_id }) = asked::<LegacyOrphanCleanup>(
        start,
        answers,
    ) {
        lemma_legacy_orphans_end(start, first, list, rest);
        law_tasks_come_in_order(list, None, rest);
        let i = rest.len() as int;
        assert(list[i].request() == (RequestView::DisassociateAddress { association_id }));
        law_only_the_addresses_are_released(gone, true, i);
        let j = choose|j: int|
            0 <= j < gone.len() && (#[trigger] gone[j]).association_id == Some(association_id);
        assert(gone.contains(gone[j]));
        let k = choose|k: int| 0 <= k < addresses.len() && addresses[k] == gone[j];
        assert(addresses[k].association_id == Some(association_id));
    }
    if let Some(RequestView::ReleaseAddress { allocation_id }) = asked::<LegacyOrphanCleanup>(
        start,
        answers,
    ) {
        lemma_legacy_orphans_end(start, first, list, rest);
        law_tasks_come_in_order(list, None, rest);
        let i = rest.len() as int;
        assert(list[i] == (TaskView::Release { allocation_id }));
        law_only_the_addresses_are_released(gone, true, i);
        let j = choose|j: int|
            0 <= j < gone.len() && (#[trigger] gone[j]).allocation_id == Some(allocation_id);
        assert(gone.contains(gone[j]));
        let k = choose|k: int| 0 <= k < addresses.len() && addresses[k] == gone[j];
        assert(addresses[k].allocation_id == Some(allocation_id));
    }
    if succeeded::<LegacyOrphanCleanup>(start, answers) {
        law_tasks_success_means_all_done(list, None, rest);
        law_every_address_is_released(gone, true);
        assert forall|j: int|
            0 <= j < addresses.len() && (#[trigger] addresses[j]).is_orphan(
                LEGACY_POD_UID_TAG@,
                pod_uids(pods),
            ) && addresses[j].allocation_id is Some implies was_done::<LegacyOrphanCleanup>(
            start,
            answers,
            TaskView::Release { allocation_id: addresses[j].allocation_id->0 },
        ) by {
            let a = addresses[j];
            assert(addresses.contains(a));
            assert(gone.contains(a));
            let k = choose|k: int| 0 <= k < gone.len() && gone[k] == a;
            let t = TaskView::Release { allocation_id: gone[k].allocation_id->0 };
            assert(list.contains(t));
            let i = choose|i: int| 0 <= i < list.len() && list[i] == t;
            assert(was_done::<TaskList>(tasks, rest, list[i]));
            lemma_embedded_done::<LegacyOrphanCleanup>(start, first, tasks, embed, rest, t);
        }
    }
}

/// Once its tasks are done, that cleanup is done.
proof fn lemma_legacy_orphans_end(
    start: Progress<LegacyOrphanCleanupView, ()>,
    first: Seq<Result<ReplyView, Error>>,
    list: Seq<TaskView>,
    rest: Seq<Result<ReplyView, Error>>,
)
    requires
        embeds::<LegacyOrphanCleanup>(legacy_orphans_releasing()),
        is_history::<LegacyOrphanCleanup>(start, first + rest),
        run::<LegacyOrphanCleanup>(start, first) == (match start_tasks(list, None) {
            Progress::Pending(x) => Progress::<LegacyOrphanCleanupView, ()>::Pending(
                LegacyOrphanCleanupView::Releasing { tasks: x },
            ),
            Progress::Finished(outcome) => Progress::Finished(outcome),
        }),
    ensures
        run::<LegacyOrphanCleanup>(start, first + rest) is Pending ==> run::<TaskList>(
            start_tasks(list, None),
            rest,
        ) is Pending,
    decreases rest.len(),
{
    let all = first + rest;
    let tasks = start_tasks(list, None);
    if rest.len() == 0 {
        assert(all =~= first);
    } else {
        let before = rest.drop_last();
        assert(all.drop_last() =~= first + before);
        assert(all.last() == rest.last());
        lemma_legacy_orphans_end(start, first, list, before);
        lemma_embedded::<LegacyOrphanCleanup>(
            start,
            first,
            tasks,
            legacy_orphans_releasing(),
            before,
        );
    }
}

} // verus!

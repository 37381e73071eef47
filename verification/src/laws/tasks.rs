//! What holds of lists of tasks, and of the operations that carry them out.
use crate::aws::{is_already_gone, AddressView};
use crate::error::Error;
use crate::operation::{
    asked, is_history, lemma_just_answered, lemma_was_answered, run, succeeded, was_answered,
    Operation, Progress, ReplyView,
};
use crate::tasks::{release_all, release_one, start_tasks, TaskList, TaskListView, TaskView};
use vstd::prelude::*;

verus! {

/// Whether an answer says that a task was carried out.
pub open spec fn is_success(task: TaskView, answer: Result<ReplyView, Error>) -> bool {
    match answer {
        Err(_) => false,
        Ok(ReplyView::Disassociated(Err(e))) => !task.is_strict() && is_already_gone(e),
        Ok(_) => true,
    }
}

/// Whether a task was carried out in the course of an operation.
pub open spec fn was_done<M: Operation>(
    start: Progress<M::V, M::Outcome>,
    answers: Seq<Result<ReplyView, Error>>,
    task: TaskView,
) -> bool {
    exists|answer: Result<ReplyView, Error>|
        is_success(task, answer) && #[trigger] was_answered::<M>(
            start,
            answers,
            task.request(),
            answer,
        )
}

/// What was done stays done as the history goes on.
pub proof fn lemma_done_later<M: Operation>(
    start: Progress<M::V, M::Outcome>,
    answers: Seq<Result<ReplyView, Error>>,
    task: TaskView,
)
    requires
        answers.len() > 0,
        was_done::<M>(start, answers.drop_last(), task),
    ensures
        was_done::<M>(start, answers, task),
{
    let answer = choose|answer: Result<ReplyView, Error>|
        is_success(task, answer) && #[trigger] was_answered::<M>(
            start,
            answers.drop_last(),
            task.request(),
            answer,
        );
    lemma_was_answered::<M>(start, answers, task.request(), answer);
}

spec fn goes_right(
    tasks: Seq<TaskView>,
    end: Option<Error>,
    answers: Seq<Result<ReplyView, Error>>,
) -> bool {
    let start = start_tasks(tasks, end);
    let n = answers.len() as int;
    match run::<TaskList>(start, answers) {
        Progress::Pending(state) => {
            &&& n < tasks.len()
            &&& state.current == tasks[n]
            &&& state.rest == tasks.skip(n + 1)
            &&& state.end == end
            &&& forall|i: int|
                0 <= i < n ==> was_done::<TaskList>(start, answers, #[trigger] tasks[i])
        },
        Progress::Finished(Ok(_)) => {
            &&& end is None
            &&& forall|i: int|
                0 <= i < tasks.len() ==> was_done::<TaskList>(start, answers, #[trigger] tasks[i])
        },
        Progress::Finished(Err(_)) => true,
    }
}

proof fn lemma_goes_right(
    tasks: Seq<TaskView>,
    end: Option<Error>,
    answers: Seq<Result<ReplyView, Error>>,
)
    requires
        is_history::<TaskList>(start_tasks(tasks, end), answers),
    ensures
        goes_right(tasks, end, answers),
    decreases answers.len(),
{
    let start = start_tasks(tasks, end);
    if answers.len() == 0 {
        if tasks.len() > 0 {
            assert(tasks.drop_first() =~= tasks.skip(1));
        }
    } else {
        let before = answers.drop_last();
        lemma_goes_right(tasks, end, before);
        let n = before.len() as int;
        match run::<TaskList>(start, before) {
            Progress::Pending(state) => {
                assert forall|i: int| 0 <= i < n implies was_done::<TaskList>(
                    start,
                    answers,
                    #[trigger] tasks[i],
                ) by {
                    lemma_done_later::<TaskList>(start, answers, tasks[i]);
                }
                lemma_just_answered::<TaskList>(start, answers, TaskList::ask(state));
                if is_success(state.current, answers.last()) {
                    assert(was_done::<TaskList>(start, answers, tasks[n]));
                    if state.rest.len() > 0 {
                        assert(state.rest[0] == tasks[n + 1]);
                        assert(state.rest.drop_first() =~= tasks.skip(n + 2));
                    }
                }
            },
            Progress::Finished(Ok(_)) => {
                assert forall|i: int| 0 <= i < tasks.len() implies was_done::<TaskList>(
                    start,
                    answers,
                    #[trigger] tasks[i],
                ) by {
                    lemma_done_later::<TaskList>(start, answers, tasks[i]);
                }
            },
            Progress::Finished(Err(_)) => {},
        }
    }
}

/// Tasks are carried out in order, each only once all before it have been carried out.
pub proof fn law_tasks_come_in_order(
    tasks: Seq<TaskView>,
    end: Option<Error>,
    answers: Seq<Result<ReplyView, Error>>,
)
    requires
        is_history::<TaskList>(start_tasks(tasks, end), answers),
        asked::<TaskList>(start_tasks(tasks, end), answers) is Some,
    ensures
        answers.len() < tasks.len(),
        asked::<TaskList>(start_tasks(tasks, end), answers) == Some(
            tasks[answers.len() as int].request(),
        ),
        forall|i: int|
            0 <= i < answers.len() ==> was_done::<TaskList>(
                start_tasks(tasks, end),
                answers,
                #[trigger] tasks[i],
            ),
{
    lemma_goes_right(tasks, end, answers);
}

/// A list of tasks succeeds only once each of them has been carried out, and never where it is to
/// end in an error.
pub proof fn law_tasks_success_means_all_done(
    tasks: Seq<TaskView>,
    end: Option<Error>,
    answers: Seq<Result<ReplyView, Error>>,
)
    requires
        is_history::<TaskList>(start_tasks(tasks, end), answers),
        succeeded::<TaskList>(start_tasks(tasks, end), answers),
    ensures
        end is None,
        forall|i: int|
            0 <= i < tasks.len() ==> was_done::<TaskList>(
                start_tasks(tasks, end),
                answers,
                #[trigger] tasks[i],
            ),
{
    lemma_goes_right(tasks, end, answers);
}

// Operations that carry out a list of tasks.

/// Whether an operation carries out a list of tasks in the states `embed`.
pub open spec fn embeds<M: Operation>(embed: spec_fn(TaskListView) -> M::V) -> bool {
    &&& forall|x: TaskListView| #[trigger] M::ask(embed(x)) == TaskList::ask(x)
    &&& forall|x: TaskListView, a: Result<ReplyView, Error>| #[trigger]
        M::fits(embed(x), a) == TaskList::fits(x, a)
    &&& forall|x: TaskListView, a: Result<ReplyView, Error>|
        continues::<M>(embed, TaskList::next(x, a), #[trigger] M::next(embed(x), a))
}

/// Whether an operation is as far as its list of tasks: it goes on as the list does, and fails as
/// the list fails.
pub open spec fn continues<M: Operation>(
    embed: spec_fn(TaskListView) -> M::V,
    tasks: Progress<TaskListView, ()>,
    operation: Progress<M::V, M::Outcome>,
) -> bool {
    match tasks {
        Progress::Pending(x) => operation == Progress::<M::V, M::Outcome>::Pending(embed(x)),
        Progress::Finished(Err(e)) => operation == Progress::<M::V, M::Outcome>::Finished(Err(e)),
        Progress::Finished(Ok(_)) => true,
    }
}

/// Once an operation has come to its list of tasks, it goes on as the list does.
pub proof fn lemma_embedded<M: Operation>(
    start: Progress<M::V, M::Outcome>,
    first: Seq<Result<ReplyView, Error>>,
    tasks: Progress<TaskListView, ()>,
    embed: spec_fn(TaskListView) -> M::V,
    rest: Seq<Result<ReplyView, Error>>,
)
    requires
        embeds::<M>(embed),
        continues::<M>(embed, tasks, run::<M>(start, first)),
        is_history::<M>(start, first + rest),
    ensures
        is_history::<TaskList>(tasks, rest),
        continues::<M>(embed, run::<TaskList>(tasks, rest), run::<M>(start, first + rest)),
    decreases rest.len(),
{
    let all = first + rest;
    if rest.len() == 0 {
        assert(all =~= first);
    } else {
        let before = rest.drop_last();
        assert(all.drop_last() =~= first + before);
        assert(all.last() == rest.last());
        lemma_embedded::<M>(start, first, tasks, embed, before);
        if let Progress::Pending(x) = run::<TaskList>(tasks, before) {
            let a = rest.last();
            assert(M::fits(embed(x), a) == TaskList::fits(x, a));
            assert(continues::<M>(embed, TaskList::next(x, a), M::next(embed(x), a)));
        }
    }
}

/// What the list of tasks did, the operation did.
pub proof fn lemma_embedded_done<M: Operation>(
    start: Progress<M::V, M::Outcome>,
    first: Seq<Result<ReplyView, Error>>,
    tasks: Progress<TaskListView, ()>,
    embed: spec_fn(TaskListView) -> M::V,
    rest: Seq<Result<ReplyView, Error>>,
    task: TaskView,
)
    requires
        embeds::<M>(embed),
        continues::<M>(embed, tasks, run::<M>(start, first)),
        is_history::<M>(start, first + rest),
        was_done::<TaskList>(tasks, rest, task),
    ensures
        was_done::<M>(start, first + rest, task),
{
    let all = first + rest;
    let request = task.request();
    let answer = choose|answer: Result<ReplyView, Error>|
        is_success(task, answer) && #[trigger] was_answered::<TaskList>(
            tasks,
            rest,
            request,
            answer,
        );
    let k = choose|k: int|
        0 <= k < rest.len() && #[trigger] rest[k] == answer && asked::<TaskList>(
            tasks,
            rest.take(k),
        ) == Some(request);
    let n = first.len() + k;
    lemma_history_prefix::<M>(start, all, n);
    assert(all.take(n) =~= first + rest.take(k));
    lemma_embedded::<M>(start, first, tasks, embed, rest.take(k));
    let x = run::<TaskList>(tasks, rest.take(k))->Pending_0;
    assert(M::ask(embed(x)) == TaskList::ask(x));
    assert(all[n] == answer);
    assert(was_answered::<M>(start, all, request, answer));
}

/// What an operation can go on from, it can go on from step by step.
pub proof fn lemma_history_prefix<M: Operation>(
    start: Progress<M::V, M::Outcome>,
    answers: Seq<Result<ReplyView, Error>>,
    n: int,
)
    requires
        0 <= n <= answers.len(),
        is_history::<M>(start, answers),
    ensures
        is_history::<M>(start, answers.take(n)),
    decreases answers.len(),
{
    if n == answers.len() {
        assert(answers.take(n) =~= answers);
    } else {
        lemma_history_prefix::<M>(start, answers.drop_last(), n);
        assert(answers.drop_last().take(n) =~= answers.take(n));
    }
}

/// An operation that has no outcome had none before.
pub proof fn lemma_pending_before<M: Operation>(
    start: Progress<M::V, M::Outcome>,
    answers: Seq<Result<ReplyView, Error>>,
    n: int,
)
    requires
        0 <= n <= answers.len(),
        run::<M>(start, answers) is Pending,
    ensures
        run::<M>(start, answers.take(n)) is Pending,
    decreases answers.len(),
{
    if n == answers.len() {
        assert(answers.take(n) =~= answers);
    } else {
        lemma_pending_before::<M>(start, answers.drop_last(), n);
        assert(answers.drop_last().take(n) =~= answers.take(n));
    }
}

// Giving addresses back.

/// Every address is given back, and its association ended, if it has one.
pub proof fn law_every_address_is_released(addresses: Seq<AddressView>, must_exist: bool)
    ensures
        forall|i: int|
            0 <= i < addresses.len() && (#[trigger] addresses[i]).allocation_id is Some
                ==> release_all(addresses, must_exist).contains(
                TaskView::Release { allocation_id: addresses[i].allocation_id->0 },
            ),
        forall|i: int|
            0 <= i < addresses.len() && (#[trigger] addresses[i]).association_id is Some
                ==> release_all(addresses, must_exist).contains(
                TaskView::Disassociate {
                    association_id: addresses[i].association_id->0,
                    must_exist,
                },
            ),
    decreases addresses.len(),
{
    if addresses.len() > 0 {
        let front = addresses.drop_last();
        law_every_address_is_released(front, must_exist);
        let a = release_all(front, must_exist);
        let b = release_one(addresses.last(), must_exist);
        let all = a + b;
        assert forall|t: TaskView| a.contains(t) || b.contains(t) implies #[trigger] all.contains(
            t,
        ) by {
            if a.contains(t) {
                let k = choose|k: int| 0 <= k < a.len() && a[k] == t;
                assert(all[k] == t);
            } else {
                let k = choose|k: int| 0 <= k < b.len() && b[k] == t;
                assert(all[a.len() + k] == t);
            }
        }
        let last = addresses.last();
        if last.association_id is Some {
            let t = TaskView::Disassociate { association_id: last.association_id->0, must_exist };
            assert(b[0] == t);
            assert(all.contains(t));
        }
        if last.allocation_id is Some {
            let t = TaskView::Release { allocation_id: last.allocation_id->0 };
            assert(b[b.len() - 1] == t);
            assert(all.contains(t));
        }
        assert forall|i: int|
            0 <= i < addresses.len() && (
            #[trigger] addresses[i]).allocation_id is Some implies all.contains(
            TaskView::Release { allocation_id: addresses[i].allocation_id->0 },
        ) by {
            if i < front.len() {
                assert(front[i] == addresses[i]);
                assert(a.contains(
                    TaskView::Release { allocation_id: front[i].allocation_id->0 },
                ));
            }
        }
        assert forall|i: int|
            0 <= i < addresses.len() && (
            #[trigger] addresses[i]).association_id is Some implies all.contains(
            TaskView::Disassociate { association_id: addresses[i].association_id->0, must_exist },
        ) by {
            if i < front.len() {
                assert(front[i] == addresses[i]);
                assert(a.contains(
                    TaskView::Disassociate {
                        association_id: front[i].association_id->0,
                        must_exist,
                    },
                ));
            }
        }
    }
}

/// What belongs to one of the addresses, and nothing else, is given back or disassociated; and an
/// address that is attached to something is disassociated right before it is given back.
pub proof fn law_only_the_addresses_are_released(
    addresses: Seq<AddressView>,
    must_exist: bool,
    i: int,
)
    requires
        0 <= i < release_all(addresses, must_exist).len(),
    ensures
        match release_all(addresses, must_exist)[i] {
            TaskView::Release { allocation_id } => exists|j: int|
                0 <= j < addresses.len() && (#[trigger] addresses[j]).allocation_id == Some(
                    allocation_id,
                ) && (addresses[j].association_id matches Some(association_id) ==> i > 0
                    && release_all(addresses, must_exist)[i - 1] == (TaskView::Disassociate {
                    association_id,
                    must_exist,
                })),
            TaskView::Disassociate { association_id, must_exist: m } => m == must_exist && exists|
                j: int,
            |
                0 <= j < addresses.len() && (#[trigger] addresses[j]).association_id == Some(
                    association_id,
                ),
            _ => false,
        },
    decreases addresses.len(),
{
    if addresses.len() > 0 {
        let front = addresses.drop_last();
        let a = release_all(front, must_exist);
        let b = release_one(addresses.last(), must_exist);
        let all = a + b;
        if i < a.len() {
            law_only_the_addresses_are_released(front, must_exist, i);
            assert(all[i] == a[i]);
            if i > 0 {
                assert(all[i - 1] == a[i - 1]);
            }
            assert(forall|j: int| 0 <= j < front.len() ==> #[trigger] front[j] == addresses[j]);
            match a[i] {
                TaskView::Release { allocation_id } => {
                    let j = choose|j: int|
                        0 <= j < front.len() && (#[trigger] front[j]).allocation_id == Some(
                            allocation_id,
                        ) && (front[j].association_id matches Some(association_id) ==> i > 0 && a[i
                            - 1] == (TaskView::Disassociate { association_id, must_exist }));
                    assert(addresses[j] == front[j]);
                },
                TaskView::Disassociate { association_id, .. } => {
                    let j = choose|j: int|
                        0 <= j < front.len() && (#[trigger] front[j]).association_id == Some(
                            association_id,
                        );
                    assert(addresses[j] == front[j]);
                },
                _ => {},
            }
        } else {
            let k = i - a.len();
            assert(all[i] == b[k]);
            let last = addresses[addresses.len() - 1];
            assert(addresses.last() == last);
            if k > 0 {
                assert(all[i - 1] == b[k - 1]);
            }
        }
    }
}

} // verus!

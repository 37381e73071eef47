//! Controllers: which resources are watched, how each is reconciled, and when it is looked at
//! again.
use crate::error::Error;
use crate::operation::{
    progress_view, requeue_after_millis, requeue_after_secs, Action, ApiScope, ApiScopeView,
    Operation, Progress, Reply, ReplyView, Request, RequestView,
};
use crate::random::random_in;
use vstd::prelude::*;

pub mod detach;
pub mod eip;
pub mod node;
pub mod pod;

verus! {

/// What is to be done with a resource.
#[derive(Debug)]
pub enum Event<R> {
    /// The resource is there, and is to be seen to.
    Apply(R),
    /// The resource is about to go away, and is to be cleaned up behind.
    Cleanup(R),
}

/// Reconciling a resource: seeing to it, or cleaning up behind it.
#[derive(Debug)]
pub enum Reconcile<A, C> {
    Applying(A),
    CleaningUp(C),
}

impl<A: DeepView, C: DeepView> DeepView for Reconcile<A, C> {
    type V = Reconcile<A::V, C::V>;

    open spec fn deep_view(&self) -> Reconcile<A::V, C::V> {
        match self {
            Reconcile::Applying(a) => Reconcile::Applying(a.deep_view()),
            Reconcile::CleaningUp(c) => Reconcile::CleaningUp(c.deep_view()),
        }
    }
}

/// Seeing to a resource is part of reconciling it.
pub open spec fn applying<A, C, T>(progress: Progress<A, T>) -> Progress<Reconcile<A, C>, T> {
    match progress {
        Progress::Pending(a) => Progress::Pending(Reconcile::Applying(a)),
        Progress::Finished(outcome) => Progress::Finished(outcome),
    }
}

/// Cleaning up behind a resource is part of reconciling it.
pub open spec fn cleaning_up<A, C, T>(progress: Progress<C, T>) -> Progress<Reconcile<A, C>, T> {
    match progress {
        Progress::Pending(c) => Progress::Pending(Reconcile::CleaningUp(c)),
        Progress::Finished(outcome) => Progress::Finished(outcome),
    }
}

impl<A: Operation, C: Operation<Outcome = A::Outcome>> Reconcile<A, C> {
    /// Goes on with seeing to a resource.
    pub fn applying(progress: Progress<A, A::Outcome>) -> (r: Progress<Reconcile<A, C>, A::Outcome>)
        ensures
            progress_view(r) == applying::<A::V, C::V, A::Outcome>(progress_view(progress)),
    {
        match progress {
            Progress::Pending(a) => Progress::Pending(Reconcile::Applying(a)),
            Progress::Finished(outcome) => Progress::Finished(outcome),
        }
    }

    /// Goes on with cleaning up behind a resource.
    pub fn cleaning_up(progress: Progress<C, A::Outcome>) -> (r: Progress<
        Reconcile<A, C>,
        A::Outcome,
    >)
        ensures
            progress_view(r) == cleaning_up::<A::V, C::V, A::Outcome>(progress_view(progress)),
    {
        match progress {
            Progress::Pending(c) => Progress::Pending(Reconcile::CleaningUp(c)),
            Progress::Finished(outcome) => Progress::Finished(outcome),
        }
    }
}

impl<A: Operation, C: Operation<Outcome = A::Outcome>> Operation for Reconcile<A, C> {
    type Outcome = A::Outcome;

    open spec fn ask(state: Reconcile<A::V, C::V>) -> RequestView {
        match state {
            Reconcile::Applying(a) => A::ask(a),
            Reconcile::CleaningUp(c) => C::ask(c),
        }
    }

    open spec fn fits(state: Reconcile<A::V, C::V>, answer: Result<ReplyView, Error>) -> bool {
        match state {
            Reconcile::Applying(a) => A::fits(a, answer),
            Reconcile::CleaningUp(c) => C::fits(c, answer),
        }
    }

    open spec fn next(
        state: Reconcile<A::V, C::V>,
        answer: Result<ReplyView, Error>,
    ) -> Progress<Reconcile<A::V, C::V>, A::Outcome> {
        match state {
            Reconcile::Applying(a) => applying(A::next(a, answer)),
            Reconcile::CleaningUp(c) => cleaning_up(C::next(c, answer)),
        }
    }

    fn request(&self) -> (r: Request) {
        match self {
            Reconcile::Applying(a) => a.request(),
            Reconcile::CleaningUp(c) => c.request(),
        }
    }

    fn accepts(&self, answer: &Result<Reply, Error>) -> (r: bool) {
        match self {
            Reconcile::Applying(a) => a.accepts(answer),
            Reconcile::CleaningUp(c) => c.accepts(answer),
        }
    }

    fn resume(self, answer: Result<Reply, Error>) -> (r: Progress<Self, A::Outcome>) {
        match self {
            Reconcile::Applying(a) => Self::applying(a.resume(answer)),
            Reconcile::CleaningUp(c) => Self::cleaning_up(c.resume(answer)),
        }
    }
}

/// How the resources of one kind are reconciled.
pub trait Context: Sized {
    /// The resources.
    type Resource: DeepView;

    /// Seeing to a resource.
    type Apply: Operation<Outcome = Option<Action>>;

    /// Cleaning up behind a resource.
    type Cleanup: Operation<Outcome = Option<Action>>;

    /// The finalizer that keeps a resource until it has been cleaned up behind.
    spec fn finalizer() -> Seq<char>;

    /// The namespace that a resource is in.
    spec fn namespace_of(resource: <Self::Resource as DeepView>::V) -> Option<Seq<char>>;

    /// Whether a resource has the names that seeing to it reads. The API server gives them to
    /// every object of its kind.
    spec fn is_applicable(resource: <Self::Resource as DeepView>::V) -> bool;

    /// Whether a resource has the names that cleaning up behind it reads.
    spec fn is_cleanable(resource: <Self::Resource as DeepView>::V) -> bool;

    /// How seeing to a resource starts.
    spec fn apply_start(&self, resource: <Self::Resource as DeepView>::V) -> Progress<
        <Self::Apply as DeepView>::V,
        Option<Action>,
    >;

    /// How cleaning up behind a resource starts.
    spec fn cleanup_start(&self, resource: <Self::Resource as DeepView>::V) -> Progress<
        <Self::Cleanup as DeepView>::V,
        Option<Action>,
    >;

    /// The finalizer that keeps a resource until it has been cleaned up behind.
    fn finalizer_name() -> (r: &'static str)
        ensures
            r@ == Self::finalizer(),
    ;

    /// The namespace that a resource is in.
    fn resource_namespace(resource: &Self::Resource) -> (r: Option<String>)
        ensures
            r.deep_view() == Self::namespace_of(resource.deep_view()),
    ;

    /// Whether a resource has the names that seeing to it reads.
    fn can_apply(resource: &Self::Resource) -> (r: bool)
        ensures
            r == Self::is_applicable(resource.deep_view()),
    ;

    /// Whether a resource has the names that cleaning up behind it reads.
    fn can_cleanup(resource: &Self::Resource) -> (r: bool)
        ensures
            r == Self::is_cleanable(resource.deep_view()),
    ;

    /// Starts to see to a resource.
    fn apply(&self, resource: &Self::Resource) -> (r: Progress<Self::Apply, Option<Action>>)
        requires
            Self::is_applicable(resource.deep_view()),
        ensures
            progress_view(r) == self.apply_start(resource.deep_view()),
    ;

    /// Starts to clean up behind a resource.
    fn cleanup(&self, resource: &Self::Resource) -> (r: Progress<Self::Cleanup, Option<Action>>)
        requires
            Self::is_cleanable(resource.deep_view()),
        ensures
            progress_view(r) == self.cleanup_start(resource.deep_view()),
    ;

    /// Starts to reconcile a resource.
    fn reconcile(&self, event: &Event<Self::Resource>) -> (r: Progress<
        Reconcile<Self::Apply, Self::Cleanup>,
        Option<Action>,
    >)
        requires
            match *event {
                Event::Apply(resource) => Self::is_applicable(resource.deep_view()),
                Event::Cleanup(resource) => Self::is_cleanable(resource.deep_view()),
            },
        ensures
            progress_view(r) == (match *event {
                Event::Apply(resource) => applying(self.apply_start(resource.deep_view())),
                Event::Cleanup(resource) => cleaning_up(self.cleanup_start(resource.deep_view())),
            }),
    {
        match event {
            Event::Apply(resource) => Reconcile::applying(self.apply(resource)),
            Event::Cleanup(resource) => Reconcile::cleaning_up(self.cleanup(resource)),
        }
    }

    /// What to do once a resource has been reconciled: look at it again after forty to sixty
    /// minutes. The time is random, so that the resources are not all looked at together.
    fn on_success(&self) -> (r: Action)
        ensures
            exists|secs: u64| 2400 <= secs < 3600 && r == #[trigger] requeue_after_secs(secs),
    {
        Action::requeue_secs(random_in(2400, 3600))
    }

    /// What to do once reconciling a resource has failed: try again after four to eight seconds.
    fn on_error(&self) -> (r: Action)
        ensures
            exists|millis: u64| #[trigger]
                requeue_after_millis(millis) == r && 4000 <= millis < 8000,
    {
        Action::requeue_millis(random_in(4000, 8000))
    }

    /// What to do with the outcome of reconciling a resource: what it asks for, or else what is
    /// always done after success.
    fn on_outcome(&self, outcome: Option<Action>) -> (r: Action)
        ensures
            match outcome {
                Some(action) => r == action,
                None => exists|secs: u64|
                    2400 <= secs < 3600 && r == #[trigger] requeue_after_secs(secs),
            },
    {
        match outcome {
            Some(action) => action,
            None => self.on_success(),
        }
    }
}

/// Which of the resources in its scope a controller watches.
#[derive(Debug)]
pub struct ListParams {
    /// A selector that the labels of a resource have to meet.
    pub labels: Option<String>,
}

/// Watches the resources of one kind and reconciles them.
#[derive(Debug)]
pub struct Controller<Ctx: Context> {
    /// Where resources are watched.
    pub watched: ApiScope,
    /// Whether the resources are in namespaces.
    pub is_namespaced: bool,
    /// Which resources are watched.
    pub list_params: ListParams,
    /// How they are reconciled.
    pub context: Ctx,
}

impl<Ctx: Context> Controller<Ctx> {
    /// Watches the resources of one namespace.
    pub fn namespaced(namespace: &str, lp: ListParams, context: Ctx) -> (r: Self)
        ensures
            r.watched.deep_view() == ApiScopeView::Namespaced(namespace@),
            r.is_namespaced,
            r.list_params == lp,
            r.context == context,
    {
        Controller {
            watched: ApiScope::Namespaced(namespace.to_owned()),
            is_namespaced: true,
            list_params: lp,
            context,
        }
    }

    /// Watches the resources of all namespaces.
    pub fn namespaced_all(lp: ListParams, context: Ctx) -> (r: Self)
        ensures
            r.watched.deep_view() == ApiScopeView::All,
            r.is_namespaced,
            r.list_params == lp,
            r.context == context,
    {
        Controller { watched: ApiScope::All, is_namespaced: true, list_params: lp, context }
    }

    /// Watches resources that are in no namespace.
    pub fn cluster(lp: ListParams, context: Ctx) -> (r: Self)
        ensures
            r.watched.deep_view() == ApiScopeView::All,
            !r.is_namespaced,
            r.list_params == lp,
            r.context == context,
    {
        Controller { watched: ApiScope::All, is_namespaced: false, list_params: lp, context }
    }

    /// Where a resource is looked up: in its own namespace, if it is in one.
    pub open spec fn api_of(&self, resource: <Ctx::Resource as DeepView>::V) -> ApiScopeView {
        if self.is_namespaced {
            ApiScopeView::Namespaced(Ctx::namespace_of(resource)->0)
        } else {
            ApiScopeView::All
        }
    }

    /// Where a resource is looked up.
    pub fn make_api(&self, resource: &Ctx::Resource) -> (r: ApiScope)
        requires
            self.is_namespaced ==> Ctx::namespace_of(resource.deep_view()) is Some,
        ensures
            r.deep_view() == self.api_of(resource.deep_view()),
    {
        if self.is_namespaced {
            ApiScope::Namespaced(Ctx::resource_namespace(resource).unwrap())
        } else {
            ApiScope::All
        }
    }
}

} // verus!

//! Detaching the addresses of a list of `Eip`s from whatever they are attached to.
use crate::aws::{disassociate_eip, is_already_gone, Address, AddressView};
use crate::eip::{Eip, EipView};
use crate::error::Error;
use crate::operation::{
    progress_view, ApiScope, ApiScopeView, Operation, Progress, Reply, ReplyView, Request,
    RequestView,
};
use crate::search::lemma_filter_step;
use vstd::pervasive::unreached;
use vstd::prelude::*;

verus! {

/// What is being done for one `Eip`.
#[derive(Debug)]
pub enum DetachStep {
    /// Its address is being described.
    Describing,
    /// An association is being ended, and more are left.
    Disassociating { association_id: String, more: Vec<String> },
    /// That it is detached is being recorded in its status.
    Recording,
}

/// Detaching the addresses of `eip` and `rest`, which were listed in `scope`, one after the other.
#[derive(Debug)]
pub struct Detach {
    pub scope: ApiScope,
    pub eip: Eip,
    pub allocation_id: String,
    pub rest: Vec<Eip>,
    pub step: DetachStep,
}

/// A `DetachStep` as a mathematical value.
pub enum DetachStepView {
    Describing,
    Disassociating { association_id: Seq<char>, more: Seq<Seq<char>> },
    Recording,
}

/// A `Detach` as a mathematical value.
pub struct DetachView {
    pub scope: ApiScopeView,
    pub eip: EipView,
    pub allocation_id: Seq<char>,
    pub rest: Seq<EipView>,
    pub step: DetachStepView,
}

impl DeepView for DetachStep {
    type V = DetachStepView;

    open spec fn deep_view(&self) -> DetachStepView {
        match self {
            DetachStep::Describing => DetachStepView::Describing,
            DetachStep::Disassociating { association_id, more } => DetachStepView::Disassociating {
                association_id: association_id@,
                more: more.deep_view(),
            },
            DetachStep::Recording => DetachStepView::Recording,
        }
    }
}

impl DeepView for Detach {
    type V = DetachView;

    open spec fn deep_view(&self) -> DetachView {
        DetachView {
            scope: self.scope.deep_view(),
            eip: self.eip.deep_view(),
            allocation_id: self.allocation_id@,
            rest: self.rest.deep_view(),
            step: self.step.deep_view(),
        }
    }
}

/// The associations of the addresses that have one, in order.
pub open spec fn association_ids(addresses: Seq<AddressView>) -> Seq<Seq<char>> {
    addresses.filter(|a: AddressView| a.association_id is Some).map_values(
        |a: AddressView| a.association_id->0,
    )
}

/// Detaching a list of `Eip`s begins with the first one, for which an address has to have been
/// allocated. Detaching none is done at once.
pub open spec fn start_detach(scope: ApiScopeView, eips: Seq<EipView>) -> Progress<DetachView, ()> {
    if eips.len() == 0 {
        Progress::Finished(Ok(()))
    } else {
        match eips[0].allocation_id() {
            Some(allocation_id) => Progress::Pending(
                DetachView {
                    scope,
                    eip: eips[0],
                    allocation_id,
                    rest: eips.drop_first(),
                    step: DetachStepView::Describing,
                },
            ),
            None => Progress::Finished(Err(Error::MissingAllocationId)),
        }
    }
}

/// The associations are ended one by one, and then the status is set.
pub open spec fn end_associations(state: DetachView, ids: Seq<Seq<char>>) -> DetachView {
    if ids.len() == 0 {
        DetachView { step: DetachStepView::Recording, ..state }
    } else {
        DetachView {
            step: DetachStepView::Disassociating { association_id: ids[0], more: ids.drop_first() },
            ..state
        }
    }
}

/// The associations of the addresses that have one, in order.
pub fn collect_association_ids(addresses: &Vec<Address>) -> (r: Vec<String>)
    ensures
        r.deep_view() == association_ids(addresses.deep_view()),
{
    let ghost all = addresses.deep_view();
    let ghost associated = |a: AddressView| a.association_id is Some;
    let mut ids: Vec<String> = Vec::new();
    let mut i: usize = 0;
    proof {
        reveal(Seq::filter);
        assert(all.take(0) =~= Seq::empty());
        assert(ids.deep_view() =~= association_ids(all.take(0)));
    }
    while i < addresses.len()
        invariant
            all == addresses.deep_view(),
            associated == (|a: AddressView| a.association_id is Some),
            i <= addresses.len(),
            ids.deep_view() == association_ids(all.take(i as int)),
        decreases addresses.len() - i,
    {
        let ghost before = ids.deep_view();
        proof {
            lemma_filter_step(all, associated, i as int);
        }
        match &addresses[i].association_id {
            Some(id) => {
                ids.push(id.clone());
                assert(ids.deep_view() =~= before.push(id@));
                assert(association_ids(all.take(i + 1)) =~= before.push(id@));
            },
            None => {},
        }
        i = i + 1;
    }
    proof {
        assert(all.take(all.len() as int) =~= all);
    }
    ids
}

impl Detach {
    /// Starts to detach the addresses of a list of `Eip`s.
    pub fn start(scope: ApiScope, eips: Vec<Eip>) -> (r: Progress<Detach, ()>)
        ensures
            progress_view(r) == start_detach(scope.deep_view(), eips.deep_view()),
    {
        let ghost all = eips.deep_view();
        if eips.len() == 0 {
            return Progress::Finished(Ok(()));
        }
        let mut rest = eips;
        let eip = rest.remove(0);
        proof {
            assert(all[0] == eip.deep_view());
            assert(rest.deep_view() =~= all.drop_first());
        }
        let allocation_id = match eip.allocation_id() {
            Some(id) => id.clone(),
            None => {
                return Progress::Finished(Err(Error::MissingAllocationId));
            },
        };
        Progress::Pending(Detach { scope, eip, allocation_id, rest, step: DetachStep::Describing })
    }

    fn end_associations(self, association_ids: Vec<String>) -> (r: Detach)
        ensures
            r.deep_view() == end_associations(self.deep_view(), association_ids.deep_view()),
    {
        let step = if association_ids.len() == 0 {
            DetachStep::Recording
        } else {
            let ghost all = association_ids.deep_view();
            let mut more = association_ids;
            let association_id = more.remove(0);
            proof {
                assert(all[0] == association_id@);
                assert(more.deep_view() =~= all.drop_first());
            }
            DetachStep::Disassociating { association_id, more }
        };
        Detach {
            scope: self.scope,
            eip: self.eip,
            allocation_id: self.allocation_id,
            rest: self.rest,
            step,
        }
    }
}

impl Operation for Detach {
    type Outcome = ();

    open spec fn ask(state: DetachView) -> RequestView {
        match state.step {
            DetachStepView::Describing => RequestView::DescribeAddress {
                allocation_id: state.allocation_id,
            },
            DetachStepView::Disassociating { association_id, .. } =>
                RequestView::DisassociateAddress { association_id },
            DetachStepView::Recording => RequestView::SetStatusDetached {
                scope: state.eip.scope_within(state.scope),
                eip: state.eip,
            },
        }
    }

    open spec fn fits(state: DetachView, answer: Result<ReplyView, Error>) -> bool {
        match answer {
            Err(_) => true,
            Ok(reply) => match state.step {
                DetachStepView::Describing => reply is Addresses,
                DetachStepView::Disassociating { .. } => reply is Disassociated,
                DetachStepView::Recording => reply is Done,
            },
        }
    }

    open spec fn next(state: DetachView, answer: Result<ReplyView, Error>) -> Progress<
        DetachView,
        (),
    > {
        match answer {
            Err(e) => Progress::Finished(Err(e)),
            Ok(reply) => match (state.step, reply) {
                (DetachStepView::Describing, ReplyView::Addresses(addresses)) => match addresses {
                    Some(addresses) => Progress::Pending(
                        end_associations(state, association_ids(addresses)),
                    ),
                    None => Progress::Finished(Err(Error::MissingAddresses)),
                },
                (
                    DetachStepView::Disassociating { more, .. },
                    ReplyView::Disassociated(response),
                ) => match response {
                    Err(e) if !is_already_gone(e) => Progress::Finished(
                        Err(Error::AwsDisassociateAddress { source: e }),
                    ),
                    _ => Progress::Pending(end_associations(state, more)),
                },
                (DetachStepView::Recording, ReplyView::Done) => start_detach(
                    state.scope,
                    state.rest,
                ),
                _ => arbitrary(),
            },
        }
    }

    fn request(&self) -> (r: Request) {
        match &self.step {
            DetachStep::Describing => Request::DescribeAddress {
                allocation_id: self.allocation_id.clone(),
            },
            DetachStep::Disassociating { association_id, .. } => Request::DisassociateAddress {
                association_id: association_id.clone(),
            },
            DetachStep::Recording => Request::SetStatusDetached {
                scope: self.eip.scope_within(&self.scope),
                eip: self.eip.clone(),
            },
        }
    }

    fn accepts(&self, answer: &Result<Reply, Error>) -> (r: bool) {
        let reply = match answer {
            Err(_) => {
                return true;
            },
            Ok(reply) => reply,
        };
        match (&self.step, reply) {
            (DetachStep::Describing, Reply::Addresses(_)) => true,
            (DetachStep::Disassociating { .. }, Reply::Disassociated(_)) => true,
            (DetachStep::Recording, Reply::Done) => true,
            _ => false,
        }
    }

    fn resume(self, answer: Result<Reply, Error>) -> (r: Progress<Self, ()>) {
        let reply = match answer {
            Err(e) => {
                return Progress::Finished(Err(e));
            },
            Ok(reply) => reply,
        };
        let Detach { scope, eip, allocation_id, rest, step } = self;
        match (step, reply) {
            (DetachStep::Describing, Reply::Addresses(addresses)) => match addresses {
                Some(addresses) => {
                    let ids = collect_association_ids(&addresses);
                    let here = Detach {
                        scope,
                        eip,
                        allocation_id,
                        rest,
                        step: DetachStep::Describing,
                    };
                    Progress::Pending(here.end_associations(ids))
                },
                None => Progress::Finished(Err(Error::MissingAddresses)),
            },
            (DetachStep::Disassociating { more, .. }, Reply::Disassociated(response)) => {
                match disassociate_eip(response) {
                    Ok(_) => {
                        let here = Detach {
                            scope,
                            eip,
                            allocation_id,
                            rest,
                            step: DetachStep::Describing,
                        };
                        Progress::Pending(here.end_associations(more))
                    },
                    Err(e) => Progress::Finished(Err(e)),
                }
            },
            (DetachStep::Recording, Reply::Done) => Detach::start(scope, rest),
            _ => unreached(),
        }
    }
}

} // verus!

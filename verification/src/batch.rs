//! Synchronizing every repository of a listing, one after the other.
//!
//! A [`Batch`] runs one synchronization at a time, in the order of the
//! listing. However one of them ends, the next one starts.

use crate::descriptor::{local_path, path_of, views, DescriptorView, Opts, RepositoryDescriptor};
use crate::sync::{
    after_event, coherent, next_action, next_state, pending, SyncAction, SyncActionView,
    SyncEvent, SyncEventView, SyncOutcome, SyncState, SyncStateView, SynchronizerView,
};
use vstd::prelude::*;

verus! {

/// The mathematical value of a [`Batch`].
pub struct BatchView {
    pub entity: Seq<char>,
    pub bare: bool,
    pub descriptors: Seq<DescriptorView>,
    /// The outcomes of the repositories that are done, in the listing's order.
    pub outcomes: Seq<SyncOutcome>,
    /// The state of the synchronization that is under way.
    pub state: SyncStateView,
}

impl BatchView {
    /// Every repository has its outcome.
    pub open spec fn done(self) -> bool {
        self.outcomes.len() >= self.descriptors.len()
    }

    /// The synchronizer of repository `index` in `state`.
    pub open spec fn synchronizer(self, index: int, state: SyncStateView) -> SynchronizerView {
        SynchronizerView {
            descriptor: self.descriptors[index],
            path: path_of(self.entity, self.descriptors[index].name),
            bare: self.bare,
            state,
        }
    }

    /// The synchronization that is under way.
    pub open spec fn current(self) -> SynchronizerView
        recommends
            !self.done(),
    {
        self.synchronizer(self.outcomes.len() as int, self.state)
    }

    /// A batch holds no more outcomes than repositories, and the
    /// synchronization under way is not over; where every repository is
    /// done, none is under way.
    pub open spec fn well_formed(self) -> bool {
        &&& self.outcomes.len() <= self.descriptors.len()
        &&& !(self.state is Finished)
        &&& self.done() ==> self.state is Unknown
        &&& !self.done() ==> coherent(self.current())
    }
}

/// The batch before its first action.
pub open spec fn batch_start(entity: Seq<char>, bare: bool, descriptors: Seq<DescriptorView>) -> BatchView {
    BatchView {
        entity,
        bare,
        descriptors,
        outcomes: Seq::empty(),
        state: SyncStateView::Unknown,
    }
}

/// What the batch asks its caller to do: `None` where every repository is
/// done.
pub open spec fn batch_pending(batch: BatchView) -> Option<SyncActionView> {
    if batch.done() {
        None
    } else {
        Some(pending(batch.current()))
    }
}

/// The batch after an event, or `None` where it does not await the event.
///
/// The event goes to the synchronization under way. Where that ends, its
/// outcome is recorded, whatever it is, and the next repository is taken up.
pub open spec fn batch_after(batch: BatchView, event: SyncEventView) -> Option<BatchView> {
    if batch.done() {
        None
    } else {
        match after_event(batch.current(), event) {
            None => None,
            Some(SyncStateView::Finished(outcome)) => Some(
                BatchView {
                    outcomes: batch.outcomes.push(outcome),
                    state: SyncStateView::Unknown,
                    ..batch
                },
            ),
            Some(next) => Some(BatchView { state: next, ..batch }),
        }
    }
}

/// Every step of a batch keeps it well formed.
pub proof fn lemma_batch_stays_well_formed(batch: BatchView, event: SyncEventView)
    requires
        batch.well_formed(),
    ensures
        batch_after(batch, event) matches Some(next) ==> next.well_formed(),
{
}

/// The synchronization of a listing's repositories, one after the other.
pub struct Batch {
    entity: String,
    bare: bool,
    descriptors: Vec<RepositoryDescriptor>,
    outcomes: Vec<SyncOutcome>,
    state: SyncState,
}

impl View for Batch {
    type V = BatchView;

    closed spec fn view(&self) -> BatchView {
        BatchView {
            entity: self.entity@,
            bare: self.bare,
            descriptors: views(self.descriptors@),
            outcomes: self.outcomes@,
            state: self.state@,
        }
    }
}

impl Batch {
    /// Prepares the synchronization of `descriptors` for the entity and
    /// the kind of clone that `opts` names.
    pub fn new(opts: &Opts, descriptors: Vec<RepositoryDescriptor>) -> (batch: Self)
        ensures
            batch@ == batch_start(opts.entity@, opts.bare, views(descriptors@)),
            batch@.well_formed(),
    {
        Batch {
            entity: opts.entity.clone(),
            bare: opts.bare,
            descriptors,
            outcomes: Vec::new(),
            state: SyncState::Unknown,
        }
    }

    /// The number of repositories in the batch.
    pub fn len(&self) -> (len: usize)
        ensures
            len == self@.descriptors.len(),
    {
        self.descriptors.len()
    }

    /// Whether every repository has its outcome.
    pub fn is_done(&self) -> (done: bool)
        ensures
            done == self@.done(),
    {
        self.outcomes.len() >= self.descriptors.len()
    }

    /// The outcomes of the repositories that are done, in the listing's
    /// order.
    pub fn outcomes(&self) -> (outcomes: &Vec<SyncOutcome>)
        ensures
            outcomes@ == self@.outcomes,
    {
        &self.outcomes
    }

    /// The repository whose synchronization is under way.
    pub fn current(&self) -> (descriptor: Option<&RepositoryDescriptor>)
        ensures
            descriptor.is_some() == !self@.done(),
            descriptor matches Some(d) ==> d@ == self@.current().descriptor,
    {
        let index = self.outcomes.len();
        if index < self.descriptors.len() {
            Some(&self.descriptors[index])
        } else {
            None
        }
    }

    /// What the caller has to do now: `None` where every repository is done.
    pub fn action(&self) -> (action: Option<SyncAction>)
        ensures
            action_view(action) == batch_pending(self@),
    {
        let index = self.outcomes.len();
        if index < self.descriptors.len() {
            let descriptor = &self.descriptors[index];
            let path = local_path(self.entity.as_str(), descriptor.name.as_str());
            Some(next_action(descriptor, path.as_str(), self.bare, &self.state))
        } else {
            None
        }
    }

    /// Takes what came of the last action.
    ///
    /// Returns whether the event was the one awaited. Any other event
    /// changes nothing.
    pub fn on_event(&mut self, event: SyncEvent) -> (accepted: bool)
        ensures
            accepted == batch_after(old(self)@, event@).is_some(),
            final(self)@ == match batch_after(old(self)@, event@) {
                Some(next) => next,
                None => old(self)@,
            },
            old(self)@.well_formed() ==> final(self)@.well_formed(),
    {
        proof {
            if self@.well_formed() {
                lemma_batch_stays_well_formed(self@, event@);
            }
        }
        let index = self.outcomes.len();
        if index >= self.descriptors.len() {
            return false;
        }
        let descriptor = &self.descriptors[index];
        let path = local_path(self.entity.as_str(), descriptor.name.as_str());
        match next_state(descriptor, path.as_str(), &self.state, event) {
            None => false,
            Some(SyncState::Finished(outcome)) => {
                self.state = SyncState::Unknown;
                self.outcomes.push(outcome);
                true
            },
            Some(next) => {
                self.state = next;
                true
            },
        }
    }
}

/// The value of an action that may be absent.
pub open spec fn action_view(action: Option<SyncAction>) -> Option<SyncActionView> {
    match action {
        Some(inner) => Some(inner@),
        None => None,
    }
}

} // verus!

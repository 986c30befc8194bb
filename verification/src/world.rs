//! A model of the disk and the remote, to state what a whole
//! synchronization achieves.
//!
//! The model knows of a path only whether something exists there and, where
//! it is a repository, which remote it has. It is ghost code: nothing here
//! runs.

use crate::batch::{
    batch_after, batch_pending, batch_start, lemma_batch_stays_well_formed, BatchView,
};
use crate::descriptor::{distinct_names, lemma_paths_are_disjoint, path_of, DescriptorView};
use crate::sync::{
    after_event, classified, finished, pending, starting, validated, DirectoryView, HandleView,
    SyncActionView, SyncError, SyncEventView, SyncOutcome, SyncStateView, SynchronizerView,
    ValidationError,
};
use vstd::prelude::*;

verus! {

/// Which of the operations on the disk and the remote succeed.
pub struct Conditions {
    pub fetch_ok: bool,
    pub merge_ok: bool,
    pub removal_ok: bool,
    pub clone_ok: bool,
}

/// What carrying out `action` leaves at the path, and the event that
/// reports it. `None` for the report of an outcome, which does nothing.
///
/// A look, a fetch and a merge leave the path as it is. A removal that
/// succeeds leaves nothing, a clone that succeeds leaves a repository whose
/// remote is the URL that was cloned. What fails is taken to leave the path
/// as it was.
pub open spec fn performed(
    action: SyncActionView,
    disk: Option<DirectoryView>,
    conditions: Conditions,
) -> Option<(Option<DirectoryView>, SyncEventView)> {
    match action {
        SyncActionView::Probe { .. } => Some((disk, SyncEventView::Probed(disk))),
        SyncActionView::Fetch(_) => Some((disk, SyncEventView::Fetched { ok: conditions.fetch_ok })),
        SyncActionView::Merge(_) => Some((disk, SyncEventView::Merged { ok: conditions.merge_ok })),
        SyncActionView::RemoveTree { .. } => Some(
            (
                if conditions.removal_ok {
                    None
                } else {
                    disk
                },
                SyncEventView::Removed { ok: conditions.removal_ok },
            ),
        ),
        SyncActionView::Clone { url, .. } => Some(
            (
                if conditions.clone_ok {
                    Some(DirectoryView::Repository { origin: Some(url) })
                } else {
                    disk
                },
                SyncEventView::Cloned { ok: conditions.clone_ok },
            ),
        ),
        SyncActionView::Report(_) => None,
    }
}

/// A synchronization that ran to its end.
pub struct SyncRun {
    /// What is at the path afterwards.
    pub disk: Option<DirectoryView>,
    /// How it ended.
    pub outcome: Option<SyncOutcome>,
    /// The actions that were carried out, in their order.
    pub actions: Seq<SyncActionView>,
}

/// An upper bound on the actions that a state still asks for.
pub open spec fn steps_left(state: SyncStateView) -> nat {
    match state {
        SyncStateView::Unknown => 4,
        SyncStateView::Corrupt(_) => 3,
        SyncStateView::Valid(_) => 2,
        SyncStateView::Absent { .. } => 2,
        SyncStateView::Fetched(_) => 1,
        SyncStateView::Finished(_) => 0,
    }
}

/// Runs a synchronizer from its present state to the end, each action
/// carried out as [`performed`] says.
pub open spec fn synchronized_from(
    sync: SynchronizerView,
    disk: Option<DirectoryView>,
    conditions: Conditions,
) -> SyncRun
    decreases steps_left(sync.state),
{
    let end = SyncRun { disk, outcome: finished(sync.state), actions: Seq::empty() };
    match performed(pending(sync), disk, conditions) {
        None => end,
        Some((disk_after, event)) => match after_event(sync, event) {
            None => end,
            Some(next) => {
                let rest = synchronized_from(sync.with_state(next), disk_after, conditions);
                SyncRun { actions: seq![pending(sync)] + rest.actions, ..rest }
            },
        },
    }
}

/// Synchronizes `descriptor` into `path` from the start.
pub open spec fn synchronized(
    descriptor: DescriptorView,
    path: Seq<char>,
    bare: bool,
    disk: Option<DirectoryView>,
    conditions: Conditions,
) -> SyncRun {
    synchronized_from(starting(descriptor, path, bare), disk, conditions)
}

/// A valid clone of `descriptor`, as it lies on disk.
pub open spec fn clone_of(descriptor: DescriptorView) -> Option<DirectoryView> {
    Some(DirectoryView::Repository { origin: Some(descriptor.clone_url) })
}

/// The handle of the valid clone of `descriptor` at `path`.
pub open spec fn handle_of(descriptor: DescriptorView, path: Seq<char>) -> HandleView {
    HandleView { path, descriptor, origin: descriptor.clone_url }
}

/// Every synchronization ends with an outcome, after at most three actions.
pub proof fn lemma_synchronization_ends(
    descriptor: DescriptorView,
    path: Seq<char>,
    bare: bool,
    disk: Option<DirectoryView>,
    conditions: Conditions,
)
    ensures
        synchronized(descriptor, path, bare, disk, conditions).outcome.is_some(),
        1 <= synchronized(descriptor, path, bare, disk, conditions).actions.len() <= 3,
{
    reveal_with_fuel(synchronized_from, 5);
}

/// Synchronizing a valid clone while fetch and merge succeed ends as
/// merged, asks for nothing but the look, the fetch and the merge, and
/// leaves the clone as it was: doing it again gives the same run.
pub proof fn lemma_valid_clone_is_kept(
    descriptor: DescriptorView,
    path: Seq<char>,
    bare: bool,
    conditions: Conditions,
)
    requires
        conditions.fetch_ok,
        conditions.merge_ok,
    ensures
        ({
            let disk = clone_of(descriptor);
            let handle = handle_of(descriptor, path);
            let first = synchronized(descriptor, path, bare, disk, conditions);
            let second = synchronized(descriptor, path, bare, first.disk, conditions);
            &&& first.outcome == Some(SyncOutcome::MergedUpToDate)
            &&& first.disk == disk
            &&& first.actions == seq![
                SyncActionView::Probe { path },
                SyncActionView::Fetch(handle),
                SyncActionView::Merge(handle),
            ]
            &&& second == first
        }),
{
    reveal_with_fuel(synchronized_from, 5);
    let first = synchronized(descriptor, path, bare, clone_of(descriptor), conditions);
    let handle = handle_of(descriptor, path);
    assert(first.actions =~= seq![
        SyncActionView::Probe { path },
        SyncActionView::Fetch(handle),
        SyncActionView::Merge(handle),
    ]);
}

/// A fetch or a merge that fails ends the synchronization as failed and
/// leaves the clone on disk as it was: nothing is removed, nothing is cloned.
pub proof fn lemma_failed_update_keeps_clone(
    descriptor: DescriptorView,
    path: Seq<char>,
    bare: bool,
    conditions: Conditions,
)
    requires
        !conditions.fetch_ok || !conditions.merge_ok,
    ensures
        ({
            let run = synchronized(descriptor, path, bare, clone_of(descriptor), conditions);
            &&& run.outcome == Some(
                SyncOutcome::Failed(
                    if conditions.fetch_ok {
                        SyncError::Merge
                    } else {
                        SyncError::Fetch
                    },
                ),
            )
            &&& run.disk == clone_of(descriptor)
            &&& forall|i: int|
                0 <= i < run.actions.len() ==> !(#[trigger] run.actions[i] is RemoveTree)
                    && !(run.actions[i] is Clone)
        }),
{
    reveal_with_fuel(synchronized_from, 5);
}

/// Where nothing exists at the path and the clone succeeds, the
/// synchronization ends as cloned, and what it leaves is a valid clone: the
/// next look classifies it as valid, and the next synchronization, however
/// its fetch and merge fare, goes on to fetch and leaves the clone in place.
pub proof fn lemma_clone_round_trip(
    descriptor: DescriptorView,
    path: Seq<char>,
    bare: bool,
    conditions: Conditions,
    later: Conditions,
)
    requires
        conditions.clone_ok,
    ensures
        ({
            let handle = handle_of(descriptor, path);
            let first = synchronized(descriptor, path, bare, None, conditions);
            let second = synchronized(descriptor, path, bare, first.disk, later);
            &&& first.outcome == Some(SyncOutcome::ClonedFresh)
            &&& first.actions == seq![
                SyncActionView::Probe { path },
                SyncActionView::Clone { url: descriptor.clone_url, path, bare },
            ]
            &&& first.disk == clone_of(descriptor)
            &&& classified(descriptor, path, first.disk) == SyncStateView::Valid(handle)
            &&& second.actions.len() >= 2
            &&& second.actions[1] == SyncActionView::Fetch(handle)
            &&& second.disk == first.disk
        }),
{
    reveal_with_fuel(synchronized_from, 5);
    let first = synchronized(descriptor, path, bare, None, conditions);
    assert(first.actions =~= seq![
        SyncActionView::Probe { path },
        SyncActionView::Clone { url: descriptor.clone_url, path, bare },
    ]);
}

/// Where the path holds something that is no valid clone, and removal and
/// clone succeed, the synchronization ends as recloned: what was there is
/// removed before anything is cloned, and what is left is a valid clone of
/// the descriptor.
pub proof fn lemma_corruption_recovery(
    descriptor: DescriptorView,
    path: Seq<char>,
    bare: bool,
    found: DirectoryView,
    conditions: Conditions,
)
    requires
        classified(descriptor, path, Some(found)) is Corrupt,
        conditions.removal_ok,
        conditions.clone_ok,
    ensures
        ({
            let run = synchronized(descriptor, path, bare, Some(found), conditions);
            &&& run.outcome == Some(SyncOutcome::ReclonedAfterCorruption)
            &&& run.actions == seq![
                SyncActionView::Probe { path },
                SyncActionView::RemoveTree { path },
                SyncActionView::Clone { url: descriptor.clone_url, path, bare },
            ]
            &&& run.disk == clone_of(descriptor)
            &&& classified(descriptor, path, run.disk) == SyncStateView::Valid(
                handle_of(descriptor, path),
            )
        }),
{
    reveal_with_fuel(synchronized_from, 5);
    let run = synchronized(descriptor, path, bare, Some(found), conditions);
    assert(run.actions =~= seq![
        SyncActionView::Probe { path },
        SyncActionView::RemoveTree { path },
        SyncActionView::Clone { url: descriptor.clone_url, path, bare },
    ]);
}

/// Where what is no valid clone cannot be removed, the synchronization
/// ends as failed on the removal and nothing is cloned.
pub proof fn lemma_failed_removal_stops(
    descriptor: DescriptorView,
    path: Seq<char>,
    bare: bool,
    found: DirectoryView,
    conditions: Conditions,
)
    requires
        classified(descriptor, path, Some(found)) is Corrupt,
        !conditions.removal_ok,
    ensures
        ({
            let run = synchronized(descriptor, path, bare, Some(found), conditions);
            &&& run.outcome == Some(SyncOutcome::Failed(SyncError::Removal))
            &&& run.actions == seq![
                SyncActionView::Probe { path },
                SyncActionView::RemoveTree { path },
            ]
        }),
{
    reveal_with_fuel(synchronized_from, 5);
    let run = synchronized(descriptor, path, bare, Some(found), conditions);
    assert(run.actions =~= seq![
        SyncActionView::Probe { path },
        SyncActionView::RemoveTree { path },
    ]);
}

/// A removal is asked for in the state `Corrupt` and in no other, and that
/// state is entered only from `Unknown`, by a look that found something
/// which is no valid clone.
pub proof fn lemma_removal_only_after_failed_validation(
    sync: SynchronizerView,
    event: SyncEventView,
)
    ensures
        pending(sync) is RemoveTree <==> sync.state is Corrupt,
        after_event(sync, event) matches Some(SyncStateView::Corrupt(reason)) ==> {
            &&& sync.state is Unknown
            &&& event matches SyncEventView::Probed(Some(found))
            &&& validated(sync.descriptor, sync.path, found) == Err::<HandleView, ValidationError>(
                reason,
            )
        },
{
}

/// What lies at `path` on a disk: `None` where nothing exists.
pub open spec fn content_at(disk: Map<Seq<char>, DirectoryView>, path: Seq<char>) -> Option<
    DirectoryView,
> {
    if disk.dom().contains(path) {
        Some(disk[path])
    } else {
        None
    }
}

/// The disk with `content` at `path` and everything else as it was.
pub open spec fn with_content(
    disk: Map<Seq<char>, DirectoryView>,
    path: Seq<char>,
    content: Option<DirectoryView>,
) -> Map<Seq<char>, DirectoryView> {
    match content {
        Some(directory) => disk.insert(path, directory),
        None => disk.remove(path),
    }
}

/// The path that an action works on.
pub open spec fn target(action: SyncActionView) -> Option<Seq<char>> {
    match action {
        SyncActionView::Probe { path } => Some(path),
        SyncActionView::Fetch(handle) => Some(handle.path),
        SyncActionView::Merge(handle) => Some(handle.path),
        SyncActionView::RemoveTree { path } => Some(path),
        SyncActionView::Clone { path, .. } => Some(path),
        SyncActionView::Report(_) => None,
    }
}

/// What carrying out `action` leaves on a disk that holds many paths, and
/// the event that reports it: [`performed`] at the action's own path.
pub open spec fn performed_on(
    action: SyncActionView,
    disk: Map<Seq<char>, DirectoryView>,
    conditions: Conditions,
) -> Option<(Map<Seq<char>, DirectoryView>, SyncEventView)> {
    match target(action) {
        None => None,
        Some(path) => match performed(action, content_at(disk, path), conditions) {
            None => None,
            Some((content, event)) => Some((with_content(disk, path, content), event)),
        },
    }
}

/// A batch that ran to its end.
pub struct BatchRun {
    /// The disk afterwards.
    pub disk: Map<Seq<char>, DirectoryView>,
    /// The outcome of each repository, in the listing's order.
    pub outcomes: Seq<SyncOutcome>,
}

/// Runs a batch from its present state to the end on one disk;
/// `conditions[k]` says how the operations for repository `k` fare.
pub open spec fn batch_synchronized_from(
    batch: BatchView,
    disk: Map<Seq<char>, DirectoryView>,
    conditions: Seq<Conditions>,
) -> BatchRun
    decreases batch.descriptors.len() - batch.outcomes.len(), steps_left(batch.state),
{
    let end = BatchRun { disk, outcomes: batch.outcomes };
    match batch_pending(batch) {
        None => end,
        Some(action) => match performed_on(action, disk, conditions[batch.outcomes.len() as int]) {
            None => end,
            Some((disk_after, event)) => match batch_after(batch, event) {
                None => end,
                Some(next) => batch_synchronized_from(next, disk_after, conditions),
            },
        },
    }
}

/// Synchronizes the repositories of a listing from the start.
pub open spec fn batch_synchronized(
    entity: Seq<char>,
    bare: bool,
    descriptors: Seq<DescriptorView>,
    disk: Map<Seq<char>, DirectoryView>,
    conditions: Seq<Conditions>,
) -> BatchRun {
    batch_synchronized_from(batch_start(entity, bare, descriptors), disk, conditions)
}

/// Repository `index` of a listing, synchronized alone on `disk`.
pub open spec fn synchronized_alone(
    entity: Seq<char>,
    bare: bool,
    descriptors: Seq<DescriptorView>,
    disk: Map<Seq<char>, DirectoryView>,
    conditions: Seq<Conditions>,
    index: int,
) -> SyncRun {
    let path = path_of(entity, descriptors[index].name);
    synchronized(descriptors[index], path, bare, content_at(disk, path), conditions[index])
}

/// A batch gives each repository the outcome that it has when it is
/// synchronized alone, and leaves at its path what that leaves there.
///
/// So every repository of the listing is attempted, and no outcome depends
/// on how another repository fared: a failure stops nothing and changes
/// nothing for the repositories after it.
pub proof fn lemma_fault_isolation(
    entity: Seq<char>,
    bare: bool,
    descriptors: Seq<DescriptorView>,
    disk: Map<Seq<char>, DirectoryView>,
    conditions: Seq<Conditions>,
)
    requires
        distinct_names(descriptors),
        conditions.len() == descriptors.len(),
    ensures
        ({
            let run = batch_synchronized(entity, bare, descriptors, disk, conditions);
            &&& run.outcomes.len() == descriptors.len()
            &&& forall|k: int|
                0 <= k < descriptors.len() ==> {
                    let alone = #[trigger] synchronized_alone(
                        entity,
                        bare,
                        descriptors,
                        disk,
                        conditions,
                        k,
                    );
                    &&& alone.outcome == Some(run.outcomes[k])
                    &&& alone.disk == content_at(run.disk, path_of(entity, descriptors[k].name))
                }
        }),
{
    lemma_batch_runs_rest(batch_start(entity, bare, descriptors), disk, disk, conditions);
}

/// The synchronization under way in a batch runs as it would alone; then
/// the batch goes on with the next repository.
proof fn lemma_batch_runs_current(
    batch: BatchView,
    disk: Map<Seq<char>, DirectoryView>,
    conditions: Seq<Conditions>,
)
    requires
        batch.well_formed(),
        !batch.done(),
    ensures
        ({
            let sync = batch.current();
            let alone = synchronized_from(
                sync,
                content_at(disk, sync.path),
                conditions[batch.outcomes.len() as int],
            );
            &&& alone.outcome is Some
            &&& batch_synchronized_from(batch, disk, conditions) == batch_synchronized_from(
                BatchView {
                    outcomes: batch.outcomes.push(alone.outcome->Some_0),
                    state: SyncStateView::Unknown,
                    ..batch
                },
                with_content(disk, sync.path, alone.disk),
                conditions,
            )
        }),
    decreases steps_left(batch.state),
{
    let sync = batch.current();
    let path = sync.path;
    let how = conditions[batch.outcomes.len() as int];
    let action = pending(sync);
    assert(target(action) == Some(path));
    let (content, event) = performed(action, content_at(disk, path), how)->Some_0;
    let disk_after = with_content(disk, path, content);
    let next = after_event(sync, event)->Some_0;
    lemma_batch_stays_well_formed(batch, event);
    if next is Finished {
        let over = synchronized_from(sync.with_state(next), content, how);
        assert(over.outcome == finished(next));
    } else {
        let stepped = BatchView { state: next, ..batch };
        assert(batch_after(batch, event) == Some(stepped));
        assert(stepped.current() == sync.with_state(next));
        lemma_batch_runs_current(stepped, disk_after, conditions);
        assert(content_at(disk_after, path) == content);
        let alone = synchronized_from(sync.with_state(next), content, how);
        assert(with_content(disk_after, path, alone.disk) =~= with_content(disk, path, alone.disk));
    }
}

/// From a batch between two repositories on, each repository that is still
/// to come runs as it would alone on the disk that the batch started with.
proof fn lemma_batch_runs_rest(
    batch: BatchView,
    start: Map<Seq<char>, DirectoryView>,
    disk: Map<Seq<char>, DirectoryView>,
    conditions: Seq<Conditions>,
)
    requires
        batch.well_formed(),
        batch.state is Unknown,
        distinct_names(batch.descriptors),
        conditions.len() == batch.descriptors.len(),
        forall|k: int|
            0 <= k < batch.descriptors.len() ==> {
                let alone = #[trigger] synchronized_alone(
                    batch.entity,
                    batch.bare,
                    batch.descriptors,
                    start,
                    conditions,
                    k,
                );
                let path = path_of(batch.entity, batch.descriptors[k].name);
                if k < batch.outcomes.len() {
                    &&& alone.outcome == Some(batch.outcomes[k])
                    &&& alone.disk == content_at(disk, path)
                } else {
                    content_at(start, path) == content_at(disk, path)
                }
            },
    ensures
        ({
            let run = batch_synchronized_from(batch, disk, conditions);
            &&& run.outcomes.len() == batch.descriptors.len()
            &&& forall|k: int|
                0 <= k < batch.descriptors.len() ==> {
                    let alone = #[trigger] synchronized_alone(
                        batch.entity,
                        batch.bare,
                        batch.descriptors,
                        start,
                        conditions,
                        k,
                    );
                    &&& alone.outcome == Some(run.outcomes[k])
                    &&& alone.disk == content_at(
                        run.disk,
                        path_of(batch.entity, batch.descriptors[k].name),
                    )
                }
        }),
    decreases batch.descriptors.len() - batch.outcomes.len(),
{
    if !batch.done() {
        let index = batch.outcomes.len() as int;
        let sync = batch.current();
        let path = sync.path;
        let alone = synchronized_alone(
            batch.entity,
            batch.bare,
            batch.descriptors,
            start,
            conditions,
            index,
        );
        lemma_batch_runs_current(batch, disk, conditions);
        let next = BatchView {
            outcomes: batch.outcomes.push(alone.outcome->Some_0),
            state: SyncStateView::Unknown,
            ..batch
        };
        let disk_after = with_content(disk, path, alone.disk);
        assert forall|k: int| 0 <= k < batch.descriptors.len() implies {
            let other = #[trigger] synchronized_alone(
                batch.entity,
                batch.bare,
                batch.descriptors,
                start,
                conditions,
                k,
            );
            let other_path = path_of(batch.entity, batch.descriptors[k].name);
            if k < next.outcomes.len() {
                &&& other.outcome == Some(next.outcomes[k])
                &&& other.disk == content_at(disk_after, other_path)
            } else {
                content_at(start, other_path) == content_at(disk_after, other_path)
            }
        } by {
            if k != index {
                if k < index {
                    assert(batch.descriptors[k].name != batch.descriptors[index].name);
                } else {
                    assert(batch.descriptors[index].name != batch.descriptors[k].name);
                }
                lemma_paths_are_disjoint(
                    batch.entity,
                    batch.descriptors[k].name,
                    batch.descriptors[index].name,
                );
            }
        }
        lemma_batch_runs_rest(next, start, disk_after, conditions);
    }
}

} // verus!

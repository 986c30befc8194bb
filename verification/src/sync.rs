//! Bringing the local copy of one repository up to date.
//!
//! A [`Synchronizer`] starts without knowing what is on disk. It asks for a
//! look at the local path and then takes one of three ways: fetch and merge
//! into a valid clone, clone where nothing exists, or remove what is there
//! and clone again where it is not a clone of the repository. The caller
//! carries out each [`SyncAction`] and reports back with a [`SyncEvent`].

use crate::descriptor::{DescriptorView, RepositoryDescriptor};
use crate::error::ErrorKind;
use vstd::prelude::*;
use vstd::string::*;

verus! {

/// What exists at a local path.
#[derive(Debug, PartialEq, Eq)]
pub enum Directory {
    /// A repository; `origin` is the URL of its remote, where one is
    /// configured.
    Repository { origin: Option<String> },
    /// Anything else.
    Other,
}

/// The mathematical value of a [`Directory`].
pub enum DirectoryView {
    Repository { origin: Option<Seq<char>> },
    Other,
}

impl View for Directory {
    type V = DirectoryView;

    open spec fn view(&self) -> DirectoryView {
        match *self {
            Directory::Repository { origin } => DirectoryView::Repository {
                origin: match origin {
                    Some(url) => Some(url@),
                    None => None,
                },
            },
            Directory::Other => DirectoryView::Other,
        }
    }
}

/// The value of what a look at a path found: `None` where nothing exists.
pub open spec fn found_view(found: Option<Directory>) -> Option<DirectoryView> {
    match found {
        Some(directory) => Some(directory@),
        None => None,
    }
}

/// Why an existing directory is no valid clone of a repository.
#[derive(Clone, Copy, Debug, PartialEq, Eq, Structural)]
pub enum ValidationError {
    /// It holds no repository.
    NotARepository,
    /// It holds a repository without a remote.
    NoRemote,
    /// It holds a repository whose remote is another URL.
    WrongRemote,
}

impl ValidationError {
    /// The kind of failure: always that of a validation.
    pub fn kind(&self) -> (kind: ErrorKind)
        ensures
            kind == ErrorKind::Validation,
    {
        ErrorKind::Validation
    }
}

/// A local repository that was found valid for a descriptor.
///
/// The only way to obtain one is [`validate`]: a handle exists only for a
/// directory that holds a repository whose remote is the descriptor's clone
/// URL.
#[derive(Debug, PartialEq, Eq)]
pub struct LocalRepositoryHandle {
    path: String,
    descriptor: RepositoryDescriptor,
    origin: String,
}

/// The mathematical value of a [`LocalRepositoryHandle`].
pub struct HandleView {
    pub path: Seq<char>,
    pub descriptor: DescriptorView,
    /// The remote that the repository on disk is configured with.
    pub origin: Seq<char>,
}

impl View for LocalRepositoryHandle {
    type V = HandleView;

    closed spec fn view(&self) -> HandleView {
        HandleView { path: self.path@, descriptor: self.descriptor@, origin: self.origin@ }
    }
}

impl LocalRepositoryHandle {
    #[verifier::type_invariant]
    spec fn remote_matches(self) -> bool {
        self.origin@ == self.descriptor.clone_url@
    }

    /// The directory of the repository.
    pub fn path(&self) -> (path: &String)
        ensures
            path@ == self@.path,
    {
        &self.path
    }

    /// The descriptor that the repository was validated against.
    pub fn descriptor(&self) -> (descriptor: &RepositoryDescriptor)
        ensures
            descriptor@ == self@.descriptor,
            self@.origin == self@.descriptor.clone_url,
    {
        proof {
            use_type_invariant(self);
        }
        &self.descriptor
    }
}

impl Clone for LocalRepositoryHandle {
    fn clone(&self) -> (copy: Self)
        ensures
            copy@ == self@,
    {
        proof {
            use_type_invariant(self);
        }
        LocalRepositoryHandle {
            path: self.path.clone(),
            descriptor: self.descriptor.clone(),
            origin: self.origin.clone(),
        }
    }
}

/// The handle of a valid clone, or the reason why the directory is none.
pub open spec fn validated(descriptor: DescriptorView, path: Seq<char>, found: DirectoryView) -> Result<
    HandleView,
    ValidationError,
> {
    match found {
        DirectoryView::Other => Err(ValidationError::NotARepository),
        DirectoryView::Repository { origin: None } => Err(ValidationError::NoRemote),
        DirectoryView::Repository { origin: Some(url) } => {
            if url == descriptor.clone_url {
                Ok(HandleView { path, descriptor, origin: url })
            } else {
                Err(ValidationError::WrongRemote)
            }
        },
    }
}

/// The value of a validation's result.
pub open spec fn validation_view(result: Result<LocalRepositoryHandle, ValidationError>) -> Result<
    HandleView,
    ValidationError,
> {
    match result {
        Ok(handle) => Ok(handle@),
        Err(error) => Err(error),
    }
}

/// Validates an existing directory against a descriptor: it has to hold a
/// repository whose remote is the descriptor's clone URL.
pub fn validate(descriptor: &RepositoryDescriptor, path: &str, found: Directory) -> (result: Result<
    LocalRepositoryHandle,
    ValidationError,
>)
    ensures
        validation_view(result) == validated(descriptor@, path@, found@),
{
    match found {
        Directory::Other => Err(ValidationError::NotARepository),
        Directory::Repository { origin: None } => Err(ValidationError::NoRemote),
        Directory::Repository { origin: Some(url) } => {
            if url == descriptor.clone_url {
                Ok(
                    LocalRepositoryHandle {
                        path: String::from_str(path),
                        descriptor: descriptor.clone(),
                        origin: url,
                    },
                )
            } else {
                Err(ValidationError::WrongRemote)
            }
        },
    }
}

/// Why the synchronization of a repository failed.
#[derive(Clone, Copy, Debug, PartialEq, Eq, Structural)]
pub enum SyncError {
    /// The fetch from the remote failed. The local clone is left as it was.
    Fetch,
    /// What was fetched cannot be merged without rewriting local history.
    Merge,
    /// The directory that is no valid clone could not be removed.
    Removal,
    /// The clone from the remote failed.
    Clone,
}

impl SyncError {
    /// The kind of failure: fetch and clone fail in the transport, a merge
    /// on a conflict, a removal in the file system.
    pub open spec fn kind_of(self) -> ErrorKind {
        match self {
            SyncError::Fetch => ErrorKind::Transport,
            SyncError::Clone => ErrorKind::Transport,
            SyncError::Merge => ErrorKind::MergeConflict,
            SyncError::Removal => ErrorKind::Filesystem,
        }
    }

    /// The kind of failure.
    pub fn kind(&self) -> (kind: ErrorKind)
        ensures
            kind == self.kind_of(),
    {
        match self {
            SyncError::Fetch => ErrorKind::Transport,
            SyncError::Clone => ErrorKind::Transport,
            SyncError::Merge => ErrorKind::MergeConflict,
            SyncError::Removal => ErrorKind::Filesystem,
        }
    }

    /// Whether the failure needs more than another run: a directory that is
    /// no valid clone and could not be removed stays in the way of every
    /// run to come.
    pub fn is_severe(&self) -> (severe: bool)
        ensures
            severe == (*self == SyncError::Removal),
    {
        match self {
            SyncError::Removal => true,
            _ => false,
        }
    }
}

/// How the synchronization of one repository ended.
#[derive(Clone, Copy, Debug, PartialEq, Eq, Structural)]
pub enum SyncOutcome {
    /// A valid clone existed; the remote's history was fetched and merged.
    MergedUpToDate,
    /// Nothing existed at the path; the repository was cloned.
    ClonedFresh,
    /// What existed at the path was no valid clone; it was removed and the
    /// repository cloned.
    ReclonedAfterCorruption,
    Failed(SyncError),
}

/// Where the synchronization of one repository stands.
#[derive(Debug, PartialEq, Eq)]
pub enum SyncState {
    /// Nothing is known of the local path yet.
    Unknown,
    /// The path holds a valid clone, which has yet to be fetched into.
    Valid(LocalRepositoryHandle),
    /// The fetch succeeded; what it brought has yet to be merged.
    Fetched(LocalRepositoryHandle),
    /// The path holds something that is no valid clone and has to go.
    Corrupt(ValidationError),
    /// Nothing exists at the path; `recovering` where something that was no
    /// valid clone has been removed from it.
    Absent { recovering: bool },
    /// The synchronization is over.
    Finished(SyncOutcome),
}

/// The mathematical value of a [`SyncState`].
pub enum SyncStateView {
    Unknown,
    Valid(HandleView),
    Fetched(HandleView),
    Corrupt(ValidationError),
    Absent { recovering: bool },
    Finished(SyncOutcome),
}

impl View for SyncState {
    type V = SyncStateView;

    open spec fn view(&self) -> SyncStateView {
        match *self {
            SyncState::Unknown => SyncStateView::Unknown,
            SyncState::Valid(handle) => SyncStateView::Valid(handle@),
            SyncState::Fetched(handle) => SyncStateView::Fetched(handle@),
            SyncState::Corrupt(reason) => SyncStateView::Corrupt(reason),
            SyncState::Absent { recovering } => SyncStateView::Absent { recovering },
            SyncState::Finished(outcome) => SyncStateView::Finished(outcome),
        }
    }
}

/// What the caller has to do for a synchronization to go on.
#[derive(Debug, PartialEq, Eq)]
pub enum SyncAction {
    /// Look at `path` and report what is there.
    Probe { path: String },
    /// Fetch from the remote into the repository.
    Fetch(LocalRepositoryHandle),
    /// Merge what was fetched, fast-forward where possible and never by
    /// overwriting local history.
    Merge(LocalRepositoryHandle),
    /// Remove `path` with everything below it.
    RemoveTree { path: String },
    /// Clone `url` into `path`, without a working tree where `bare` is set.
    Clone { url: String, path: String, bare: bool },
    /// Nothing is left to do but to report the outcome.
    Report(SyncOutcome),
}

/// The mathematical value of a [`SyncAction`].
pub enum SyncActionView {
    Probe { path: Seq<char> },
    Fetch(HandleView),
    Merge(HandleView),
    RemoveTree { path: Seq<char> },
    Clone { url: Seq<char>, path: Seq<char>, bare: bool },
    Report(SyncOutcome),
}

impl View for SyncAction {
    type V = SyncActionView;

    open spec fn view(&self) -> SyncActionView {
        match *self {
            SyncAction::Probe { path } => SyncActionView::Probe { path: path@ },
            SyncAction::Fetch(handle) => SyncActionView::Fetch(handle@),
            SyncAction::Merge(handle) => SyncActionView::Merge(handle@),
            SyncAction::RemoveTree { path } => SyncActionView::RemoveTree { path: path@ },
            SyncAction::Clone { url, path, bare } => SyncActionView::Clone {
                url: url@,
                path: path@,
                bare,
            },
            SyncAction::Report(outcome) => SyncActionView::Report(outcome),
        }
    }
}

/// What came of an action.
#[derive(Debug, PartialEq, Eq)]
pub enum SyncEvent {
    /// The probe found this at the path; `None` where nothing exists.
    Probed(Option<Directory>),
    Fetched { ok: bool },
    Merged { ok: bool },
    Removed { ok: bool },
    Cloned { ok: bool },
}

/// The mathematical value of a [`SyncEvent`].
pub enum SyncEventView {
    Probed(Option<DirectoryView>),
    Fetched { ok: bool },
    Merged { ok: bool },
    Removed { ok: bool },
    Cloned { ok: bool },
}

impl View for SyncEvent {
    type V = SyncEventView;

    open spec fn view(&self) -> SyncEventView {
        match *self {
            SyncEvent::Probed(found) => SyncEventView::Probed(found_view(found)),
            SyncEvent::Fetched { ok } => SyncEventView::Fetched { ok },
            SyncEvent::Merged { ok } => SyncEventView::Merged { ok },
            SyncEvent::Removed { ok } => SyncEventView::Removed { ok },
            SyncEvent::Cloned { ok } => SyncEventView::Cloned { ok },
        }
    }
}

/// The value of a state that may be absent.
pub open spec fn state_view(state: Option<SyncState>) -> Option<SyncStateView> {
    match state {
        Some(inner) => Some(inner@),
        None => None,
    }
}

/// The state that a look at the path leads to: `Absent` where nothing
/// exists, `Valid` where a valid clone exists, `Corrupt` for anything else.
pub open spec fn classified(
    descriptor: DescriptorView,
    path: Seq<char>,
    found: Option<DirectoryView>,
) -> SyncStateView {
    match found {
        None => SyncStateView::Absent { recovering: false },
        Some(directory) => match validated(descriptor, path, directory) {
            Ok(handle) => SyncStateView::Valid(handle),
            Err(reason) => SyncStateView::Corrupt(reason),
        },
    }
}

/// The state that follows `state` on `event`, or `None` where the state
/// does not await the event.
///
/// Only a failed validation leads to `Corrupt`, and only a successful
/// removal leads from there to a clone.
pub open spec fn transition(
    descriptor: DescriptorView,
    path: Seq<char>,
    state: SyncStateView,
    event: SyncEventView,
) -> Option<SyncStateView> {
    match (state, event) {
        (SyncStateView::Unknown, SyncEventView::Probed(found)) => Some(
            classified(descriptor, path, found),
        ),
        (SyncStateView::Valid(handle), SyncEventView::Fetched { ok }) => Some(
            if ok {
                SyncStateView::Fetched(handle)
            } else {
                SyncStateView::Finished(SyncOutcome::Failed(SyncError::Fetch))
            },
        ),
        (SyncStateView::Fetched(_), SyncEventView::Merged { ok }) => Some(
            SyncStateView::Finished(
                if ok {
                    SyncOutcome::MergedUpToDate
                } else {
                    SyncOutcome::Failed(SyncError::Merge)
                },
            ),
        ),
        (SyncStateView::Corrupt(_), SyncEventView::Removed { ok }) => Some(
            if ok {
                SyncStateView::Absent { recovering: true }
            } else {
                SyncStateView::Finished(SyncOutcome::Failed(SyncError::Removal))
            },
        ),
        (SyncStateView::Absent { recovering }, SyncEventView::Cloned { ok }) => Some(
            SyncStateView::Finished(
                if !ok {
                    SyncOutcome::Failed(SyncError::Clone)
                } else if recovering {
                    SyncOutcome::ReclonedAfterCorruption
                } else {
                    SyncOutcome::ClonedFresh
                },
            ),
        ),
        _ => None,
    }
}

/// What a state asks the caller to do.
pub open spec fn requested(
    descriptor: DescriptorView,
    path: Seq<char>,
    bare: bool,
    state: SyncStateView,
) -> SyncActionView {
    match state {
        SyncStateView::Unknown => SyncActionView::Probe { path },
        SyncStateView::Valid(handle) => SyncActionView::Fetch(handle),
        SyncStateView::Fetched(handle) => SyncActionView::Merge(handle),
        SyncStateView::Corrupt(_) => SyncActionView::RemoveTree { path },
        SyncStateView::Absent { .. } => SyncActionView::Clone {
            url: descriptor.clone_url,
            path,
            bare,
        },
        SyncStateView::Finished(outcome) => SyncActionView::Report(outcome),
    }
}

/// Computes the state that follows `state` on `event`.
pub fn next_state(
    descriptor: &RepositoryDescriptor,
    path: &str,
    state: &SyncState,
    event: SyncEvent,
) -> (next: Option<SyncState>)
    ensures
        state_view(next) == transition(descriptor@, path@, state@, event@),
{
    match (state, event) {
        (SyncState::Unknown, SyncEvent::Probed(found)) => Some(
            match found {
                None => SyncState::Absent { recovering: false },
                Some(directory) => match validate(descriptor, path, directory) {
                    Ok(handle) => SyncState::Valid(handle),
                    Err(reason) => SyncState::Corrupt(reason),
                },
            },
        ),
        (SyncState::Valid(handle), SyncEvent::Fetched { ok }) => Some(
            if ok {
                SyncState::Fetched(handle.clone())
            } else {
                SyncState::Finished(SyncOutcome::Failed(SyncError::Fetch))
            },
        ),
        (SyncState::Fetched(_), SyncEvent::Merged { ok }) => Some(
            SyncState::Finished(
                if ok {
                    SyncOutcome::MergedUpToDate
                } else {
                    SyncOutcome::Failed(SyncError::Merge)
                },
            ),
        ),
        (SyncState::Corrupt(_), SyncEvent::Removed { ok }) => Some(
            if ok {
                SyncState::Absent { recovering: true }
            } else {
                SyncState::Finished(SyncOutcome::Failed(SyncError::Removal))
            },
        ),
        (SyncState::Absent { recovering }, SyncEvent::Cloned { ok }) => Some(
            SyncState::Finished(
                if !ok {
                    SyncOutcome::Failed(SyncError::Clone)
                } else if *recovering {
                    SyncOutcome::ReclonedAfterCorruption
                } else {
                    SyncOutcome::ClonedFresh
                },
            ),
        ),
        _ => None,
    }
}

/// Computes what `state` asks the caller to do.
pub fn next_action(
    descriptor: &RepositoryDescriptor,
    path: &str,
    bare: bool,
    state: &SyncState,
) -> (action: SyncAction)
    ensures
        action@ == requested(descriptor@, path@, bare, state@),
{
    match state {
        SyncState::Unknown => SyncAction::Probe { path: String::from_str(path) },
        SyncState::Valid(handle) => SyncAction::Fetch(handle.clone()),
        SyncState::Fetched(handle) => SyncAction::Merge(handle.clone()),
        SyncState::Corrupt(_) => SyncAction::RemoveTree { path: String::from_str(path) },
        SyncState::Absent { .. } => SyncAction::Clone {
            url: descriptor.clone_url.clone(),
            path: String::from_str(path),
            bare,
        },
        SyncState::Finished(outcome) => SyncAction::Report(*outcome),
    }
}

/// The mathematical value of a [`Synchronizer`].
pub struct SynchronizerView {
    pub descriptor: DescriptorView,
    pub path: Seq<char>,
    pub bare: bool,
    pub state: SyncStateView,
}

impl SynchronizerView {
    /// The same synchronization in another state.
    pub open spec fn with_state(self, state: SyncStateView) -> SynchronizerView {
        SynchronizerView { state, ..self }
    }
}

/// A synchronizer that has not looked at the disk yet.
pub open spec fn starting(descriptor: DescriptorView, path: Seq<char>, bare: bool) -> SynchronizerView {
    SynchronizerView { descriptor, path, bare, state: SyncStateView::Unknown }
}

/// The state of a synchronizer after an event, or `None` where it does not
/// await the event.
pub open spec fn after_event(sync: SynchronizerView, event: SyncEventView) -> Option<SyncStateView> {
    transition(sync.descriptor, sync.path, sync.state, event)
}

/// What a synchronizer asks its caller to do.
pub open spec fn pending(sync: SynchronizerView) -> SyncActionView {
    requested(sync.descriptor, sync.path, sync.bare, sync.state)
}

/// The handle that a state holds is that of the synchronizer's own path and
/// descriptor, and of a repository whose remote is the descriptor's clone
/// URL.
pub open spec fn coherent(sync: SynchronizerView) -> bool {
    match sync.state {
        SyncStateView::Valid(handle) | SyncStateView::Fetched(handle) => {
            &&& handle.path == sync.path
            &&& handle.descriptor == sync.descriptor
            &&& handle.origin == sync.descriptor.clone_url
        },
        _ => true,
    }
}

/// Every transition keeps a synchronizer coherent.
pub proof fn lemma_transition_keeps_coherence(sync: SynchronizerView, event: SyncEventView)
    requires
        coherent(sync),
    ensures
        after_event(sync, event) matches Some(next) ==> coherent(sync.with_state(next)),
{
}

/// The synchronization of one repository into one local path.
pub struct Synchronizer {
    descriptor: RepositoryDescriptor,
    path: String,
    bare: bool,
    state: SyncState,
}

impl View for Synchronizer {
    type V = SynchronizerView;

    closed spec fn view(&self) -> SynchronizerView {
        SynchronizerView {
            descriptor: self.descriptor@,
            path: self.path@,
            bare: self.bare,
            state: self.state@,
        }
    }
}

impl Synchronizer {
    #[verifier::type_invariant]
    spec fn well_formed(self) -> bool {
        coherent(self@)
    }

    /// Prepares the synchronization of `descriptor` into `path`.
    pub fn new(descriptor: RepositoryDescriptor, path: String, bare: bool) -> (sync: Self)
        ensures
            sync@ == starting(descriptor@, path@, bare),
    {
        Synchronizer { descriptor, path, bare, state: SyncState::Unknown }
    }

    /// The repository that is synchronized.
    pub fn descriptor(&self) -> (descriptor: &RepositoryDescriptor)
        ensures
            descriptor@ == self@.descriptor,
    {
        &self.descriptor
    }

    /// The directory that the repository is synchronized into.
    pub fn path(&self) -> (path: &String)
        ensures
            path@ == self@.path,
    {
        &self.path
    }

    /// Where the synchronization stands.
    pub fn state(&self) -> (state: &SyncState)
        ensures
            state@ == self@.state,
            coherent(self@),
    {
        proof {
            use_type_invariant(self);
        }
        &self.state
    }

    /// The outcome, once the synchronization is over.
    pub fn outcome(&self) -> (outcome: Option<SyncOutcome>)
        ensures
            outcome == finished(self@.state),
    {
        match &self.state {
            SyncState::Finished(result) => Some(*result),
            _ => None,
        }
    }

    /// What the caller has to do now.
    pub fn action(&self) -> (action: SyncAction)
        ensures
            action@ == pending(self@),
    {
        next_action(&self.descriptor, self.path.as_str(), self.bare, &self.state)
    }

    /// Takes what came of the last action.
    ///
    /// Returns whether the event was the one awaited. Any other event
    /// changes nothing.
    pub fn on_event(&mut self, event: SyncEvent) -> (accepted: bool)
        ensures
            accepted == after_event(old(self)@, event@).is_some(),
            final(self)@ == old(self)@.with_state(
                match after_event(old(self)@, event@) {
                    Some(next) => next,
                    None => old(self)@.state,
                },
            ),
    {
        proof {
            use_type_invariant(&*self);
            lemma_transition_keeps_coherence(self@, event@);
        }
        match next_state(&self.descriptor, self.path.as_str(), &self.state, event) {
            Some(state) => {
                self.state = state;
                true
            },
            None => false,
        }
    }
}

/// The outcome that a state holds: `None` while the synchronization goes on.
pub open spec fn finished(state: SyncStateView) -> Option<SyncOutcome> {
    match state {
        SyncStateView::Finished(outcome) => Some(outcome),
        _ => None,
    }
}

} // verus!

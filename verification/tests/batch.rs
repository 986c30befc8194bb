use repo_sync::batch::Batch;
use repo_sync::descriptor::{Opts, RepositoryDescriptor};
use repo_sync::sync::{Directory, SyncAction, SyncError, SyncEvent, SyncOutcome};
use std::collections::HashMap;

fn url(name: &str) -> String {
    format!("https://host.example/acme/{}.git", name)
}

fn repo(name: &str) -> RepositoryDescriptor {
    RepositoryDescriptor::new(name.to_string(), url(name), false)
}

fn clone_at(url: &str) -> Directory {
    Directory::Repository { origin: Some(url.to_string()) }
}

fn copy(found: Option<&Directory>) -> Option<Directory> {
    match found {
        None => None,
        Some(Directory::Other) => Some(Directory::Other),
        Some(Directory::Repository { origin }) => {
            Some(Directory::Repository { origin: origin.clone() })
        }
    }
}

/// A disk of many paths and a remote that cannot serve some URLs.
struct World {
    disk: HashMap<String, Directory>,
    unreachable: Vec<String>,
    locked: Vec<String>,
    performed: Vec<SyncAction>,
}

impl World {
    fn new() -> World {
        World { disk: HashMap::new(), unreachable: vec![], locked: vec![], performed: vec![] }
    }

    fn perform(&mut self, action: SyncAction) -> SyncEvent {
        let event = match &action {
            SyncAction::Probe { path } => SyncEvent::Probed(copy(self.disk.get(path))),
            SyncAction::Fetch(handle) => SyncEvent::Fetched {
                ok: !self.unreachable.contains(&handle.descriptor().clone_url),
            },
            SyncAction::Merge(_) => SyncEvent::Merged { ok: true },
            SyncAction::RemoveTree { path } => {
                let ok = !self.locked.contains(path);
                if ok {
                    self.disk.remove(path);
                }
                SyncEvent::Removed { ok }
            }
            SyncAction::Clone { url, path, .. } => {
                let ok = !self.unreachable.contains(url);
                if ok {
                    self.disk.insert(path.clone(), clone_at(url));
                }
                SyncEvent::Cloned { ok }
            }
            SyncAction::Report(_) => panic!("a batch reports through its outcomes"),
        };
        self.performed.push(action);
        event
    }
}

fn run(opts: &Opts, descriptors: Vec<RepositoryDescriptor>, world: &mut World) -> Vec<SyncOutcome> {
    let mut batch = Batch::new(opts, descriptors);
    while let Some(action) = batch.action() {
        assert!(!batch.is_done());
        let event = world.perform(action);
        assert!(batch.on_event(event));
    }
    assert!(batch.is_done());
    assert_eq!(batch.outcomes().len(), batch.len());
    batch.outcomes().clone()
}

fn opts(bare: bool) -> Opts {
    Opts::new("acme".to_string(), bare, false)
}

#[test]
fn empty_batch_is_done_at_once() {
    let mut batch = Batch::new(&opts(false), vec![]);
    assert!(batch.is_done());
    assert_eq!(batch.len(), 0);
    assert_eq!(batch.action(), None);
    assert_eq!(batch.current(), None);
    assert!(!batch.on_event(SyncEvent::Probed(None)));
    assert!(batch.outcomes().is_empty());
}

#[test]
fn batch_clones_every_repository_into_its_path() {
    let mut world = World::new();
    let outcomes = run(&opts(false), vec![repo("a"), repo("b"), repo("c")], &mut world);
    assert_eq!(outcomes, vec![SyncOutcome::ClonedFresh; 3]);
    assert_eq!(world.disk.len(), 3);
    for name in ["a", "b", "c"] {
        assert_eq!(world.disk.get(&format!("acme/{}", name)), Some(&clone_at(&url(name))));
    }
    assert_eq!(
        world.performed,
        vec![
            SyncAction::Probe { path: "acme/a".to_string() },
            SyncAction::Clone { url: url("a"), path: "acme/a".to_string(), bare: false },
            SyncAction::Probe { path: "acme/b".to_string() },
            SyncAction::Clone { url: url("b"), path: "acme/b".to_string(), bare: false },
            SyncAction::Probe { path: "acme/c".to_string() },
            SyncAction::Clone { url: url("c"), path: "acme/c".to_string(), bare: false },
        ]
    );
}

#[test]
fn batch_passes_the_bare_option_on() {
    let mut world = World::new();
    run(&opts(true), vec![repo("a")], &mut world);
    assert_eq!(
        world.performed[1],
        SyncAction::Clone { url: url("a"), path: "acme/a".to_string(), bare: true }
    );
}

#[test]
fn failure_does_not_stop_the_batch() {
    let mut world = World::new();
    world.unreachable.push(url("b"));
    let outcomes = run(&opts(false), vec![repo("a"), repo("b"), repo("c")], &mut world);
    assert_eq!(
        outcomes,
        vec![
            SyncOutcome::ClonedFresh,
            SyncOutcome::Failed(SyncError::Clone),
            SyncOutcome::ClonedFresh,
        ]
    );
    assert!(world.disk.contains_key("acme/c"));
    assert!(!world.disk.contains_key("acme/b"));
}

#[test]
fn outcomes_after_a_failure_are_what_they_are_without_it() {
    let names = ["a", "b", "c", "d"];
    let start = |world: &mut World| {
        world.disk.insert("acme/c".to_string(), clone_at(&url("c")));
        world.disk.insert("acme/d".to_string(), Directory::Other);
    };
    let mut calm = World::new();
    start(&mut calm);
    let without = run(&opts(false), names.iter().map(|n| repo(n)).collect(), &mut calm);
    for failing in 0..names.len() {
        let mut world = World::new();
        start(&mut world);
        world.unreachable.push(url(names[failing]));
        let with = run(&opts(false), names.iter().map(|n| repo(n)).collect(), &mut world);
        assert_eq!(with.len(), names.len());
        for k in 0..names.len() {
            if k == failing {
                assert!(matches!(with[k], SyncOutcome::Failed(_)));
            } else {
                assert_eq!(with[k], without[k]);
            }
        }
    }
    assert_eq!(
        without,
        vec![
            SyncOutcome::ClonedFresh,
            SyncOutcome::ClonedFresh,
            SyncOutcome::MergedUpToDate,
            SyncOutcome::ReclonedAfterCorruption,
        ]
    );
}

#[test]
fn every_kind_of_outcome_in_one_batch() {
    let mut world = World::new();
    world.disk.insert("acme/valid".to_string(), clone_at(&url("valid")));
    world.disk.insert("acme/stale".to_string(), clone_at(&url("stale")));
    world.disk.insert("acme/junk".to_string(), Directory::Other);
    world.disk.insert("acme/stuck".to_string(), Directory::Repository { origin: None });
    world.unreachable.push(url("stale"));
    world.locked.push("acme/stuck".to_string());
    let outcomes = run(
        &opts(false),
        vec![repo("valid"), repo("stale"), repo("junk"), repo("stuck"), repo("new")],
        &mut world,
    );
    assert_eq!(
        outcomes,
        vec![
            SyncOutcome::MergedUpToDate,
            SyncOutcome::Failed(SyncError::Fetch),
            SyncOutcome::ReclonedAfterCorruption,
            SyncOutcome::Failed(SyncError::Removal),
            SyncOutcome::ClonedFresh,
        ]
    );
    assert_eq!(world.disk.get("acme/stale"), Some(&clone_at(&url("stale"))));
    assert_eq!(world.disk.get("acme/junk"), Some(&clone_at(&url("junk"))));
    assert_eq!(world.disk.get("acme/stuck"), Some(&Directory::Repository { origin: None }));
}

#[test]
fn batch_twice_merges_everything_the_second_time() {
    let mut world = World::new();
    let first = run(&opts(false), vec![repo("a"), repo("b")], &mut world);
    let second = run(&opts(false), vec![repo("a"), repo("b")], &mut world);
    let third = run(&opts(false), vec![repo("a"), repo("b")], &mut world);
    assert_eq!(first, vec![SyncOutcome::ClonedFresh; 2]);
    assert_eq!(second, vec![SyncOutcome::MergedUpToDate; 2]);
    assert_eq!(third, second);
}

#[test]
fn batch_names_the_repository_under_way() {
    let mut batch = Batch::new(&opts(false), vec![repo("a"), repo("b")]);
    assert_eq!(batch.current(), Some(&repo("a")));
    assert!(!batch.on_event(SyncEvent::Cloned { ok: true }));
    assert_eq!(batch.current(), Some(&repo("a")));
    assert!(batch.on_event(SyncEvent::Probed(None)));
    assert_eq!(batch.current(), Some(&repo("a")));
    assert!(batch.on_event(SyncEvent::Cloned { ok: false }));
    assert_eq!(batch.outcomes(), &vec![SyncOutcome::Failed(SyncError::Clone)]);
    assert_eq!(batch.current(), Some(&repo("b")));
    assert_eq!(batch.action(), Some(SyncAction::Probe { path: "acme/b".to_string() }));
    assert!(batch.on_event(SyncEvent::Probed(Some(clone_at(&url("b"))))));
    assert!(batch.on_event(SyncEvent::Fetched { ok: true }));
    assert!(batch.on_event(SyncEvent::Merged { ok: true }));
    assert!(batch.is_done());
    assert_eq!(batch.current(), None);
    assert_eq!(
        batch.outcomes(),
        &vec![SyncOutcome::Failed(SyncError::Clone), SyncOutcome::MergedUpToDate]
    );
}

use std::collections::HashMap;

use meta_launcher::hash::{hash_content, to_hex_lower};
use meta_launcher::manifest::{path_is_safe, FileEntry, Manifest};
use meta_launcher::modpack::{
    download_modpack, modpack_required_update, CheckAction, CheckStage, SyncSession, UpdateCheck,
};
use meta_launcher::progress::{percent_of, Phase, ProgressEvent};
use meta_launcher::session::{ErrorKind, Stage, SyncAction, SyncError, SyncEvent};

fn entry(path: &str, content: &[u8]) -> FileEntry {
    FileEntry {
        path: path.to_string(),
        sha1: hash_content(content),
        size: content.len() as u64,
        url: format!("https://files.example/{}", path),
    }
}

fn manifest(version: &str, files: Vec<FileEntry>) -> Manifest {
    Manifest::new(version.to_string(), files).unwrap()
}

/// An installation and a server, both in memory.
struct World {
    tree: HashMap<String, Vec<u8>>,
    served: HashMap<String, Vec<u8>>,
    remote: Manifest,
    local: Option<Manifest>,
    emitted: Vec<ProgressEvent>,
    downloads: Vec<String>,
    removed: Vec<String>,
    reads: Vec<String>,
    /// The run is cut short by a failure when this many downloads were made.
    fail_after_downloads: Option<usize>,
}

impl World {
    fn new(remote: Manifest, local: Option<Manifest>) -> World {
        World {
            tree: HashMap::new(),
            served: HashMap::new(),
            remote,
            local,
            emitted: Vec::new(),
            downloads: Vec::new(),
            removed: Vec::new(),
            reads: Vec::new(),
            fail_after_downloads: None,
        }
    }

    fn serve(&mut self, path: &str, content: &[u8]) {
        self.served.insert(format!("https://files.example/{}", path), content.to_vec());
    }

    fn perform(&mut self, action: SyncAction) -> SyncEvent {
        match action {
            SyncAction::FetchRemoteManifest => SyncEvent::RemoteManifest(self.remote.clone()),
            SyncAction::LoadLocalManifest => SyncEvent::LocalManifest(self.local.clone()),
            SyncAction::ReadFile { path } => {
                self.reads.push(path.clone());
                SyncEvent::FileContent(self.tree.get(&path).cloned())
            }
            SyncAction::Emit(event) => {
                self.emitted.push(event);
                SyncEvent::Done
            }
            SyncAction::RemoveFile { path } => {
                self.tree.remove(&path);
                self.removed.push(path);
                SyncEvent::Done
            }
            SyncAction::Download { url, path } => {
                if self.fail_after_downloads == Some(self.downloads.len()) {
                    return SyncEvent::Failed(SyncError {
                        kind: ErrorKind::Network,
                        context: url,
                    });
                }
                match self.served.get(&url) {
                    Some(bytes) => {
                        self.tree.insert(path.clone(), bytes.clone());
                        self.downloads.push(path);
                        SyncEvent::Done
                    }
                    None => SyncEvent::Failed(SyncError { kind: ErrorKind::Network, context: url }),
                }
            }
            SyncAction::PersistManifest(record) => {
                self.local = Some(record);
                SyncEvent::Done
            }
            SyncAction::Succeeded | SyncAction::Failed(_) => unreachable!(),
        }
    }

    /// Runs one synchronisation to its end.
    fn sync(&mut self) -> Result<(), SyncError> {
        self.emitted.clear();
        self.downloads.clear();
        self.removed.clear();
        self.reads.clear();
        let mut session = SyncSession::new();
        let mut event = SyncEvent::Start;
        loop {
            let (next, action) = download_modpack(session, event);
            session = next;
            match action {
                SyncAction::Succeeded => {
                    assert!(session.is_finished());
                    return Ok(());
                }
                SyncAction::Failed(error) => {
                    assert!(session.is_finished());
                    return Err(error);
                }
                other => event = self.perform(other),
            }
        }
    }
}

#[test]
fn sha1_of_known_inputs() {
    assert_eq!(hash_content(b"hello world"), "2aae6c35c94fcfb415dbe95f408b9ce91ee846ed");
    assert_eq!(hash_content(b""), "da39a3ee5e6b4b0d3255bfef95601890afd80709");
    assert_eq!(hash_content(b"abc"), "a9993e364706816aba3e25717850c26c9cd0d89d");
}

#[test]
fn hex_is_lowercase_two_digits_per_byte() {
    assert_eq!(to_hex_lower(&[]), "");
    assert_eq!(to_hex_lower(&[0x00, 0x0a, 0x14, 0x1e, 0xff, 0x9c]), "000a141eff9c");
}

#[test]
fn safe_paths() {
    assert!(path_is_safe("mods/a.jar"));
    assert!(path_is_safe(""));
    assert!(path_is_safe("a..b/c"));
    assert!(path_is_safe("..."));
    assert!(path_is_safe(".hidden/..x"));
    assert!(!path_is_safe("/etc/passwd"));
    assert!(!path_is_safe(".."));
    assert!(!path_is_safe("../a"));
    assert!(!path_is_safe("a/.."));
    assert!(!path_is_safe("a/../b"));
}

#[test]
fn manifest_rejects_unsafe_paths() {
    assert!(Manifest::new("1".to_string(), vec![entry("ok", b"x"), entry("../out", b"y")]).is_none());
    assert!(Manifest::new("1".to_string(), vec![entry("/abs", b"x")]).is_none());
}

#[test]
fn manifest_keeps_first_of_duplicate_paths() {
    let made = manifest("1", vec![entry("a", b"first"), entry("b", b"b"), entry("a", b"second")]);
    assert_eq!(made.len(), 2);
    assert_eq!(made.files()[0], entry("a", b"first"));
    assert_eq!(made.files()[1], entry("b", b"b"));
    assert_eq!(made.version(), "1");
    assert!(made.contains_path(&"a".to_string()));
    assert!(!made.contains_path(&"c".to_string()));
}

#[test]
fn percentage_values() {
    assert_eq!(percent_of(0, 0), 0);
    assert_eq!(percent_of(5, 0), 0);
    assert_eq!(percent_of(0, 3), 0);
    assert_eq!(percent_of(1, 3), 33);
    assert_eq!(percent_of(2, 3), 66);
    assert_eq!(percent_of(3, 3), 100);
    assert_eq!(percent_of(7, 3), 100);
    assert_eq!(percent_of(u64::MAX - 1, u64::MAX), 99);
}

#[test]
fn needs_fetch_goes_by_hash_not_size() {
    let wanted = entry("a", b"good");
    assert!(wanted.needs_fetch(&None));
    assert!(!wanted.needs_fetch(&Some(b"good".to_vec())));
    // Same length, other content.
    assert!(wanted.needs_fetch(&Some(b"evil".to_vec())));
    // An upper-case hash in the manifest matches nothing.
    let shouting = FileEntry { sha1: wanted.sha1.to_uppercase(), ..wanted.clone() };
    assert!(shouting.needs_fetch(&Some(b"good".to_vec())));
}

#[test]
fn first_sync_fetches_everything_in_order() {
    let remote = manifest("1.0", vec![entry("mods/a.jar", b"aaa"), entry("config/b.cfg", b"bb")]);
    let mut world = World::new(remote.clone(), None);
    world.serve("mods/a.jar", b"aaa");
    world.serve("config/b.cfg", b"bb");
    assert_eq!(world.sync(), Ok(()));
    assert_eq!(world.downloads, vec!["mods/a.jar", "config/b.cfg"]);
    assert_eq!(world.tree.get("mods/a.jar").unwrap(), b"aaa");
    assert_eq!(world.tree.get("config/b.cfg").unwrap(), b"bb");
    assert_eq!(world.local, Some(remote));
    let expected = vec![
        ProgressEvent {
            message: "Preparing modpack update...".to_string(),
            percentage: Some(0),
            phase: Phase::Preparing,
            current: 0,
            total: 2,
        },
        ProgressEvent {
            message: "Downloading mods/a.jar".to_string(),
            percentage: Some(0),
            phase: Phase::Downloading,
            current: 0,
            total: 2,
        },
        ProgressEvent {
            message: "Installed mods/a.jar".to_string(),
            percentage: Some(0),
            phase: Phase::Installing,
            current: 0,
            total: 2,
        },
        ProgressEvent {
            message: "Downloading config/b.cfg".to_string(),
            percentage: Some(50),
            phase: Phase::Downloading,
            current: 1,
            total: 2,
        },
        ProgressEvent {
            message: "Installed config/b.cfg".to_string(),
            percentage: Some(50),
            phase: Phase::Installing,
            current: 1,
            total: 2,
        },
        ProgressEvent {
            message: "Download complete".to_string(),
            percentage: Some(100),
            phase: Phase::Complete,
            current: 2,
            total: 2,
        },
    ];
    assert_eq!(world.emitted, expected);
}

#[test]
fn second_sync_downloads_nothing() {
    let remote = manifest("1.0", vec![entry("a", b"aaa"), entry("b", b"bb"), entry("c", b"c")]);
    let mut world = World::new(remote, None);
    world.serve("a", b"aaa");
    world.serve("b", b"bb");
    world.serve("c", b"c");
    assert_eq!(world.sync(), Ok(()));
    assert_eq!(world.downloads.len(), 3);
    let after_first = world.tree.clone();
    assert_eq!(world.sync(), Ok(()));
    assert!(world.downloads.is_empty());
    assert!(world.removed.is_empty());
    assert_eq!(world.tree, after_first);
    let phases: Vec<Phase> = world.emitted.iter().map(|event| event.phase).collect();
    assert_eq!(
        phases,
        vec![Phase::Preparing, Phase::UpToDate, Phase::UpToDate, Phase::UpToDate, Phase::Complete]
    );
    assert_eq!(world.emitted[2].message, "Up-to-date: b");
}

#[test]
fn orphan_is_removed_match_is_kept_new_is_fetched() {
    let local = manifest("1.0", vec![entry("a", b"old a"), entry("b", b"same b")]);
    let remote = manifest("1.1", vec![entry("b", b"same b"), entry("c", b"new c")]);
    let mut world = World::new(remote.clone(), Some(local));
    world.tree.insert("a".to_string(), b"old a".to_vec());
    world.tree.insert("b".to_string(), b"same b".to_vec());
    world.tree.insert("other".to_string(), b"not ours".to_vec());
    world.serve("b", b"same b");
    world.serve("c", b"new c");
    assert_eq!(world.sync(), Ok(()));
    assert!(!world.tree.contains_key("a"));
    assert_eq!(world.removed, vec!["a"]);
    assert_eq!(world.downloads, vec!["c"]);
    assert_eq!(world.tree.get("b").unwrap(), b"same b");
    assert_eq!(world.tree.get("c").unwrap(), b"new c");
    assert_eq!(world.tree.get("other").unwrap(), b"not ours");
    assert_eq!(world.local, Some(remote));
    let phases: Vec<Phase> = world.emitted.iter().map(|event| event.phase).collect();
    assert_eq!(
        phases,
        vec![
            Phase::Preparing,
            Phase::Removing,
            Phase::UpToDate,
            Phase::Downloading,
            Phase::Installing,
            Phase::Complete
        ]
    );
    assert_eq!(world.emitted[1].message, "Removing a");
}

#[test]
fn wrong_content_of_right_size_is_overwritten() {
    let remote = manifest("1.0", vec![entry("a", b"good")]);
    let mut world = World::new(remote.clone(), Some(remote));
    world.tree.insert("a".to_string(), b"evil".to_vec());
    world.serve("a", b"good");
    assert_eq!(world.sync(), Ok(()));
    assert_eq!(world.downloads, vec!["a"]);
    assert_eq!(world.tree.get("a").unwrap(), b"good");
}

#[test]
fn interrupted_sync_converges_on_retry() {
    let files = vec![entry("a", b"aaa"), entry("b", b"bb"), entry("c", b"c"), entry("d", b"dddd")];
    let local = manifest("0.9", vec![entry("gone", b"x"), entry("b", b"bb")]);
    let remote = manifest("1.0", files);

    let mut whole = World::new(remote.clone(), Some(local.clone()));
    let mut cut = World::new(remote.clone(), Some(local.clone()));
    for world in [&mut whole, &mut cut] {
        world.tree.insert("gone".to_string(), b"x".to_vec());
        world.tree.insert("b".to_string(), b"bb".to_vec());
        world.tree.insert("c".to_string(), b"stale".to_vec());
        world.serve("a", b"aaa");
        world.serve("b", b"bb");
        world.serve("c", b"c");
        world.serve("d", b"dddd");
    }
    assert_eq!(whole.sync(), Ok(()));
    assert_eq!(whole.downloads, vec!["a", "c", "d"]);

    cut.fail_after_downloads = Some(1);
    let failure = cut.sync().unwrap_err();
    assert_eq!(failure.kind, ErrorKind::Network);
    assert_eq!(failure.context, "https://files.example/c");
    // Nothing was recorded, and what was written stays.
    assert_eq!(cut.local, Some(local));
    assert_eq!(cut.downloads, vec!["a"]);
    assert_eq!(cut.tree.get("c").unwrap(), b"stale");
    assert!(cut.emitted.iter().all(|event| event.phase != Phase::Complete));

    cut.fail_after_downloads = None;
    assert_eq!(cut.sync(), Ok(()));
    assert_eq!(cut.downloads, vec!["c", "d"]);
    assert_eq!(cut.tree, whole.tree);
    assert_eq!(cut.local, Some(remote));
}

#[test]
fn failed_remote_fetch_changes_nothing() {
    let (session, action) = download_modpack(SyncSession::new(), SyncEvent::Start);
    assert_eq!(action, SyncAction::FetchRemoteManifest);
    assert_eq!(session.stage(), Stage::FetchingRemote);
    let failure = SyncError { kind: ErrorKind::Parse, context: "https://x/manifest".to_string() };
    let (session, action) = download_modpack(session, SyncEvent::Failed(failure.clone()));
    assert_eq!(action, SyncAction::Failed(failure));
    assert!(session.is_finished());
}

#[test]
fn removal_failure_stops_before_any_download() {
    let local = manifest("1", vec![entry("old", b"o")]);
    let remote = manifest("2", vec![entry("new", b"n")]);
    let mut session = SyncSession::new();
    let mut action;
    (session, action) = download_modpack(session, SyncEvent::Start);
    assert_eq!(action, SyncAction::FetchRemoteManifest);
    (session, action) = download_modpack(session, SyncEvent::RemoteManifest(remote));
    assert_eq!(action, SyncAction::LoadLocalManifest);
    (session, action) = download_modpack(session, SyncEvent::LocalManifest(Some(local)));
    assert_eq!(action, SyncAction::ReadFile { path: "new".to_string() });
    (session, action) = download_modpack(session, SyncEvent::FileContent(None));
    assert_eq!(action, SyncAction::Emit(ProgressEvent::preparing(1)));
    (session, action) = download_modpack(session, SyncEvent::Done);
    assert_eq!(action, SyncAction::Emit(ProgressEvent::removing(&"old".to_string(), 1)));
    (session, action) = download_modpack(session, SyncEvent::Done);
    assert_eq!(action, SyncAction::RemoveFile { path: "old".to_string() });
    let failure = SyncError { kind: ErrorKind::Filesystem, context: "old".to_string() };
    (session, action) = download_modpack(session, SyncEvent::Failed(failure.clone()));
    assert_eq!(action, SyncAction::Failed(failure));
    assert!(session.is_finished());
    let (_, action) = download_modpack(session, SyncEvent::Done);
    assert_eq!(action, SyncAction::Failed(SyncError::out_of_sequence()));
}

#[test]
fn report_out_of_turn_ends_the_run() {
    let (session, _) = download_modpack(SyncSession::new(), SyncEvent::Start);
    let (session, action) = download_modpack(session, SyncEvent::Done);
    assert_eq!(
        action,
        SyncAction::Failed(SyncError {
            kind: ErrorKind::OutOfSequence,
            context: "report does not answer the pending action".to_string(),
        })
    );
    assert!(session.is_finished());
    let (_, action) = download_modpack(SyncSession::new(), SyncEvent::Done);
    assert_eq!(action, SyncAction::Failed(SyncError::out_of_sequence()));
}

#[test]
fn empty_remote_manifest_syncs_to_nothing() {
    let remote = manifest("1.0", vec![]);
    let mut world = World::new(remote.clone(), None);
    assert_eq!(world.sync(), Ok(()));
    assert!(world.reads.is_empty());
    assert_eq!(world.local, Some(remote));
    assert_eq!(world.emitted.len(), 2);
    assert_eq!(world.emitted[0], ProgressEvent::preparing(0));
    assert_eq!(world.emitted[1], ProgressEvent::complete(0));
    assert_eq!(world.emitted[1].percentage, Some(100));
}

#[test]
fn progress_counts_rise_and_reach_total_once() {
    let remote = manifest(
        "1.0",
        vec![entry("a", b"a"), entry("b", b"b"), entry("c", b"c"), entry("d", b"d"), entry("e", b"e")],
    );
    let mut world = World::new(remote, None);
    world.tree.insert("b".to_string(), b"b".to_vec());
    world.tree.insert("e".to_string(), b"e".to_vec());
    for name in ["a", "b", "c", "d", "e"] {
        world.serve(name, name.as_bytes());
    }
    assert_eq!(world.sync(), Ok(()));
    let counts: Vec<u64> = world.emitted.iter().map(|event| event.current).collect();
    assert!(counts.windows(2).all(|pair| pair[0] <= pair[1]));
    assert_eq!(counts.iter().filter(|count| **count == 5).count(), 1);
    assert_eq!(world.emitted.last().unwrap().phase, Phase::Complete);
    assert!(world.emitted.iter().all(|event| event.total == 5));
    assert!(world.emitted.iter().all(|event| event.percentage.unwrap() <= 100));
    let percents: Vec<u8> = world.emitted.iter().map(|event| event.percentage.unwrap()).collect();
    assert_eq!(percents, vec![0, 0, 0, 20, 40, 40, 60, 60, 80, 100]);
}

fn check(local: Option<Manifest>, remote: Manifest) -> (CheckAction, bool) {
    let (state, action) = modpack_required_update(UpdateCheck::new(), SyncEvent::Start);
    assert_eq!(action, CheckAction::LoadLocalManifest);
    assert_eq!(state.stage(), CheckStage::LoadingLocal);
    let (state, action) = modpack_required_update(state, SyncEvent::LocalManifest(local));
    if action != CheckAction::FetchRemoteManifest {
        return (action, false);
    }
    let (state, action) = modpack_required_update(state, SyncEvent::RemoteManifest(remote));
    assert_eq!(state.stage(), CheckStage::Finished);
    (action, true)
}

#[test]
fn update_check_compares_versions_only() {
    let files = vec![entry("a", b"a")];
    let other = vec![entry("a", b"changed"), entry("b", b"b")];
    assert_eq!(
        check(Some(manifest("1.0", files.clone())), manifest("1.0", other.clone())),
        (CheckAction::Decided(false), true)
    );
    assert_eq!(
        check(Some(manifest("1.0", files.clone())), manifest("1.1", files.clone())),
        (CheckAction::Decided(true), true)
    );
}

#[test]
fn update_check_without_local_manifest_needs_no_fetch() {
    assert_eq!(check(None, manifest("1.0", vec![])), (CheckAction::Decided(true), false));
}

#[test]
fn update_check_passes_failures_on() {
    let (state, _) = modpack_required_update(UpdateCheck::new(), SyncEvent::Start);
    let (state, _) =
        modpack_required_update(state, SyncEvent::LocalManifest(Some(manifest("1.0", vec![]))));
    let failure = SyncError { kind: ErrorKind::Network, context: "timed out".to_string() };
    let (state, action) = modpack_required_update(state, SyncEvent::Failed(failure.clone()));
    assert_eq!(action, CheckAction::Failed(failure));
    let (_, action) = modpack_required_update(state, SyncEvent::Start);
    assert_eq!(action, CheckAction::Failed(SyncError::out_of_sequence()));

    let (state, _) = modpack_required_update(UpdateCheck::new(), SyncEvent::Start);
    let failure = SyncError { kind: ErrorKind::Parse, context: "local manifest".to_string() };
    let (_, action) = modpack_required_update(state, SyncEvent::Failed(failure.clone()));
    assert_eq!(action, CheckAction::Failed(failure));
}

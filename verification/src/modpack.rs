//! The synchronisation engine.
//!
//! A run fetches the remote manifest, loads the local one, decides for every
//! remote entry whether the file on disk already matches, deletes the files
//! that are no longer wanted, fetches what is missing or different, and only
//! then records the remote manifest as the new local one. The engine decides;
//! its driver performs each action and reports what happened.

use vstd::prelude::*;
use crate::manifest::{manifest_wf, FileEntryView, Manifest, ManifestView};
use crate::plan::{
    copy_texts, entries_flagged, find_stale_paths, needs_fetch, pick_entries, stale_paths,
    text_views, PlanView, SyncPlan,
};
use crate::progress::{
    complete_event, downloading_event, installed_event, preparing_event, removing_event,
    up_to_date_event, ProgressEvent,
};
use crate::session::{
    out_of_sequence, ActionView, EventView, SessionView, Stage, SyncAction, SyncError,
    SyncErrorView, SyncEvent,
};

verus! {

/// The number of remote entries, as progress events carry it.
pub open spec fn total_of(remote: ManifestView) -> u64 {
    remote.files.len() as u64
}

/// The state before a run has started.
pub open spec fn initial_session() -> SessionView {
    SessionView {
        stage: Stage::Idle,
        remote: ManifestView { version: Seq::empty(), files: Seq::empty() },
        fetch: Seq::empty(),
        removals: Seq::empty(),
        cursor: 0,
    }
}

/// The entries of the local manifest; none if there is no local manifest.
pub open spec fn local_files(local: Option<ManifestView>) -> Seq<FileEntryView> {
    match local {
        Some(manifest) => manifest.files,
        None => Seq::empty(),
    }
}

/// Probe the entry at `at`, or, past the last entry, open the run with the
/// preparing report.
pub open spec fn probe_from(s: SessionView, at: nat) -> (SessionView, ActionView) {
    if at < s.remote.files.len() {
        (
            SessionView { stage: Stage::Probing, cursor: at, ..s },
            ActionView::ReadFile { path: s.remote.files[at as int].path },
        )
    } else {
        (
            SessionView { stage: Stage::Preparing, cursor: 0, ..s },
            ActionView::Emit(preparing_event(total_of(s.remote))),
        )
    }
}

/// Process the entry at `at`: report it as up to date or announce its
/// download. Past the last entry, persist the remote manifest.
pub open spec fn entry_from(s: SessionView, at: nat) -> (SessionView, ActionView) {
    if at < s.remote.files.len() {
        let entry = s.remote.files[at as int];
        if s.fetch[at as int] {
            (
                SessionView { stage: Stage::AnnouncingDownload, cursor: at, ..s },
                ActionView::Emit(downloading_event(entry.path, at as u64, total_of(s.remote))),
            )
        } else {
            (
                SessionView { stage: Stage::AnnouncingUpToDate, cursor: at, ..s },
                ActionView::Emit(up_to_date_event(entry.path, at as u64, total_of(s.remote))),
            )
        }
    } else {
        (
            SessionView { stage: Stage::Persisting, cursor: 0, ..s },
            ActionView::PersistManifest(s.remote),
        )
    }
}

/// Announce the removal at `at`, or, past the last removal, turn to the
/// entries.
pub open spec fn removal_from(s: SessionView, at: nat) -> (SessionView, ActionView) {
    if at < s.removals.len() {
        (
            SessionView { stage: Stage::AnnouncingRemoval, cursor: at, ..s },
            ActionView::Emit(removing_event(s.removals[at as int], total_of(s.remote))),
        )
    } else {
        entry_from(s, 0)
    }
}

/// End the run with `error`.
pub open spec fn abort_with(s: SessionView, error: SyncErrorView) -> (SessionView, ActionView) {
    (SessionView { stage: Stage::Finished, ..s }, ActionView::Failed(error))
}

/// One step of a run: the state after `event` and the action to perform next.
///
/// A failure reported for a pending action ends the run with that failure,
/// unchanged. A report that does not answer the pending action ends it with
/// `out_of_sequence()`.
pub open spec fn sync_step(s: SessionView, event: EventView) -> (SessionView, ActionView) {
    match (s.stage, event) {
        (Stage::Idle, EventView::Start) => (
            SessionView { stage: Stage::FetchingRemote, ..s },
            ActionView::FetchRemoteManifest,
        ),
        (Stage::Idle, _) => abort_with(s, out_of_sequence()),
        (Stage::Finished, _) => abort_with(s, out_of_sequence()),
        (_, EventView::Failed(error)) => abort_with(s, error),
        (Stage::FetchingRemote, EventView::RemoteManifest(remote)) => (
            SessionView { stage: Stage::LoadingLocal, remote, ..s },
            ActionView::LoadLocalManifest,
        ),
        (Stage::LoadingLocal, EventView::LocalManifest(local)) => probe_from(
            SessionView {
                removals: stale_paths(local_files(local), s.remote.files),
                fetch: Seq::empty(),
                ..s
            },
            0,
        ),
        (Stage::Probing, EventView::FileContent(on_disk)) => probe_from(
            SessionView {
                fetch: s.fetch.push(needs_fetch(s.remote.files[s.cursor as int], on_disk)),
                ..s
            },
            s.cursor + 1,
        ),
        (Stage::Preparing, EventView::Done) => removal_from(s, 0),
        (Stage::AnnouncingRemoval, EventView::Done) => (
            SessionView { stage: Stage::Removing, ..s },
            ActionView::RemoveFile { path: s.removals[s.cursor as int] },
        ),
        (Stage::Removing, EventView::Done) => removal_from(s, s.cursor + 1),
        (Stage::AnnouncingUpToDate, EventView::Done) => entry_from(s, s.cursor + 1),
        (Stage::AnnouncingDownload, EventView::Done) => (
            SessionView { stage: Stage::Downloading, ..s },
            ActionView::Download {
                url: s.remote.files[s.cursor as int].url,
                path: s.remote.files[s.cursor as int].path,
            },
        ),
        (Stage::Downloading, EventView::Done) => (
            SessionView { stage: Stage::AnnouncingInstalled, ..s },
            ActionView::Emit(
                installed_event(
                    s.remote.files[s.cursor as int].path,
                    s.cursor as u64,
                    total_of(s.remote),
                ),
            ),
        ),
        (Stage::AnnouncingInstalled, EventView::Done) => entry_from(s, s.cursor + 1),
        (Stage::Persisting, EventView::Done) => (
            SessionView { stage: Stage::AnnouncingComplete, ..s },
            ActionView::Emit(complete_event(total_of(s.remote))),
        ),
        (Stage::AnnouncingComplete, EventView::Done) => (
            SessionView { stage: Stage::Finished, ..s },
            ActionView::Succeeded,
        ),
        _ => abort_with(s, out_of_sequence()),
    }
}

/// What holds of every state a run can be in.
pub open spec fn session_wf(s: SessionView) -> bool {
    let count = s.remote.files.len();
    &&& manifest_wf(s.remote)
    &&& count <= u64::MAX
    &&& match s.stage {
        Stage::Idle | Stage::FetchingRemote | Stage::LoadingLocal | Stage::Finished => true,
        Stage::Probing => s.cursor < count && s.fetch.len() == s.cursor,
        Stage::Preparing | Stage::Persisting | Stage::AnnouncingComplete => s.fetch.len() == count,
        Stage::AnnouncingRemoval | Stage::Removing => {
            s.fetch.len() == count && s.cursor < s.removals.len()
        },
        Stage::AnnouncingUpToDate => {
            s.fetch.len() == count && s.cursor < count && !s.fetch[s.cursor as int]
        },
        Stage::AnnouncingDownload | Stage::Downloading | Stage::AnnouncingInstalled => {
            s.fetch.len() == count && s.cursor < count && s.fetch[s.cursor as int]
        },
    }
}

/// The plan of a run, from the moment every remote entry has been looked at
/// until the run is over.
pub open spec fn session_plan(s: SessionView) -> Option<PlanView> {
    match s.stage {
        Stage::Idle | Stage::FetchingRemote | Stage::LoadingLocal | Stage::Probing
        | Stage::Finished => None,
        _ => Some(
            PlanView {
                to_remove: s.removals,
                to_fetch: entries_flagged(s.remote.files, s.fetch, true),
                unchanged: entries_flagged(s.remote.files, s.fetch, false),
            },
        ),
    }
}

/// A step keeps a run's state valid.
pub proof fn lemma_step_keeps_wf(s: SessionView, event: EventView)
    requires
        session_wf(s),
        crate::session::event_wf(event),
    ensures
        session_wf(sync_step(s, event).0),
{
}

/// A synchronisation run in progress.
#[derive(Debug)]
pub struct SyncSession {
    stage: Stage,
    remote: Manifest,
    fetch: Vec<bool>,
    removals: Vec<String>,
    cursor: usize,
}

impl View for SyncSession {
    type V = SessionView;

    closed spec fn view(&self) -> SessionView {
        SessionView {
            stage: self.stage,
            remote: self.remote@,
            fetch: self.fetch@,
            removals: text_views(self.removals@),
            cursor: self.cursor as nat,
        }
    }
}

impl SyncSession {
    /// A run that has not started. Its first event is `SyncEvent::Start`.
    pub fn new() -> (session: SyncSession)
        ensures
            session@ == initial_session(),
    {
        let remote = Manifest::empty(String::new());
        let session = SyncSession {
            stage: Stage::Idle,
            remote,
            fetch: Vec::new(),
            removals: Vec::new(),
            cursor: 0,
        };
        assert(session@.removals =~= Seq::<Seq<char>>::empty());
        assert(session@.remote =~= initial_session().remote);
        session
    }

    /// Which action is pending.
    pub fn stage(&self) -> (stage: Stage)
        ensures
            stage == self@.stage,
    {
        self.stage
    }

    /// Whether the run is over.
    pub fn is_finished(&self) -> (over: bool)
        ensures
            over == (self@.stage == Stage::Finished),
    {
        match self.stage {
            Stage::Finished => true,
            _ => false,
        }
    }

    /// The plan that this run works to. There is none before every remote
    /// entry has been looked at, and none once the run is over.
    pub fn plan(&self) -> (plan: Option<SyncPlan>)
        ensures
            session_plan(self@) == match plan {
                Some(made) => Some(made@),
                None => None,
            },
    {
        proof {
            use_type_invariant(self);
        }
        match self.stage {
            Stage::Idle | Stage::FetchingRemote | Stage::LoadingLocal | Stage::Probing
            | Stage::Finished => None,
            _ => {
                let files = self.remote.files();
                Some(
                    SyncPlan {
                        to_remove: copy_texts(&self.removals),
                        to_fetch: pick_entries(files, &self.fetch, true),
                        unchanged: pick_entries(files, &self.fetch, false),
                    },
                )
            },
        }
    }

    #[verifier::type_invariant]
    spec fn well_formed(self) -> bool {
        session_wf(self@)
    }

    fn probe(remote: Manifest, fetch: Vec<bool>, removals: Vec<String>, at: usize) -> (next: (
        SyncSession,
        SyncAction,
    ))
        requires
            at <= remote@.files.len(),
            fetch@.len() == at,
        ensures
            (next.0@, next.1@) == probe_from(
                SessionView {
                    stage: Stage::Idle,
                    remote: remote@,
                    fetch: fetch@,
                    removals: text_views(removals@),
                    cursor: 0,
                },
                at as nat,
            ),
    {
        let files = remote.files();
        if at < files.len() {
            let path = files[at].path.clone();
            assert(path@ == remote@.files[at as int].path);
            (
                SyncSession { stage: Stage::Probing, remote, fetch, removals, cursor: at },
                SyncAction::ReadFile { path },
            )
        } else {
            let total = files.len() as u64;
            (
                SyncSession { stage: Stage::Preparing, remote, fetch, removals, cursor: 0 },
                SyncAction::Emit(ProgressEvent::preparing(total)),
            )
        }
    }

    fn entry(remote: Manifest, fetch: Vec<bool>, removals: Vec<String>, at: usize) -> (next: (
        SyncSession,
        SyncAction,
    ))
        requires
            at <= remote@.files.len(),
            fetch@.len() == remote@.files.len(),
        ensures
            (next.0@, next.1@) == entry_from(
                SessionView {
                    stage: Stage::Idle,
                    remote: remote@,
                    fetch: fetch@,
                    removals: text_views(removals@),
                    cursor: 0,
                },
                at as nat,
            ),
    {
        let files = remote.files();
        let total = files.len() as u64;
        if at < files.len() {
            assert(files[at as int].path@ == remote@.files[at as int].path);
            if fetch[at] {
                let event = ProgressEvent::downloading(&files[at].path, at as u64, total);
                (
                    SyncSession {
                        stage: Stage::AnnouncingDownload,
                        remote,
                        fetch,
                        removals,
                        cursor: at,
                    },
                    SyncAction::Emit(event),
                )
            } else {
                let event = ProgressEvent::up_to_date(&files[at].path, at as u64, total);
                (
                    SyncSession {
                        stage: Stage::AnnouncingUpToDate,
                        remote,
                        fetch,
                        removals,
                        cursor: at,
                    },
                    SyncAction::Emit(event),
                )
            }
        } else {
            let record = remote.clone();
            (
                SyncSession { stage: Stage::Persisting, remote, fetch, removals, cursor: 0 },
                SyncAction::PersistManifest(record),
            )
        }
    }

    fn removal(remote: Manifest, fetch: Vec<bool>, removals: Vec<String>, at: usize) -> (next: (
        SyncSession,
        SyncAction,
    ))
        requires
            at <= removals@.len(),
            fetch@.len() == remote@.files.len(),
        ensures
            (next.0@, next.1@) == removal_from(
                SessionView {
                    stage: Stage::Idle,
                    remote: remote@,
                    fetch: fetch@,
                    removals: text_views(removals@),
                    cursor: 0,
                },
                at as nat,
            ),
    {
        let total = remote.len() as u64;
        if at < removals.len() {
            let event = ProgressEvent::removing(&removals[at], total);
            assert(removals[at as int]@ == text_views(removals@)[at as int]);
            (
                SyncSession {
                    stage: Stage::AnnouncingRemoval,
                    remote,
                    fetch,
                    removals,
                    cursor: at,
                },
                SyncAction::Emit(event),
            )
        } else {
            SyncSession::entry(remote, fetch, removals, 0)
        }
    }

    fn abort(
        remote: Manifest,
        fetch: Vec<bool>,
        removals: Vec<String>,
        cursor: usize,
        error: SyncError,
    ) -> (next: (SyncSession, SyncAction))
        ensures
            next.0@ == (SessionView {
                stage: Stage::Finished,
                remote: remote@,
                fetch: fetch@,
                removals: text_views(removals@),
                cursor: cursor as nat,
            }),
            next.1@ == ActionView::Failed(error@),
    {
        let _ = remote.len();
        (
            SyncSession { stage: Stage::Finished, remote, fetch, removals, cursor },
            SyncAction::Failed(error),
        )
    }
}

/// Advances a synchronisation run by one step: takes the run's state and the
/// driver's report on the pending action, and gives the next state and the
/// action to perform.
///
/// The driver starts a run with `SyncSession::new()` and `SyncEvent::Start`,
/// performs each action it is given, and reports the outcome, until the
/// action is `Succeeded` or `Failed`.
pub fn download_modpack(session: SyncSession, event: SyncEvent) -> (next: (
    SyncSession,
    SyncAction,
))
    ensures
        (next.0@, next.1@) == sync_step(session@, event@),
        session_wf(session@),
        session_wf(next.0@),
{
    proof {
        use_type_invariant(&session);
    }
    let SyncSession { stage, remote, mut fetch, removals, cursor } = session;
    // Reading the two lengths tells the verifier that they fit the cursor's
    // type, so that the cursor can be moved on without overflow.
    let _ = remote.len();
    let _ = removals.len();
    let next = match (stage, event) {
        (Stage::Idle, SyncEvent::Start) => (
            SyncSession { stage: Stage::FetchingRemote, remote, fetch, removals, cursor },
            SyncAction::FetchRemoteManifest,
        ),
        (Stage::Idle, _) => SyncSession::abort(
            remote,
            fetch,
            removals,
            cursor,
            SyncError::out_of_sequence(),
        ),
        (Stage::Finished, _) => SyncSession::abort(
            remote,
            fetch,
            removals,
            cursor,
            SyncError::out_of_sequence(),
        ),
        (_, SyncEvent::Failed(error)) => SyncSession::abort(
            remote,
            fetch,
            removals,
            cursor,
            error,
        ),
        (Stage::FetchingRemote, SyncEvent::RemoteManifest(fetched)) => {
            let _ = fetched.len();
            (
                SyncSession {
                    stage: Stage::LoadingLocal,
                    remote: fetched,
                    fetch,
                    removals,
                    cursor,
                },
                SyncAction::LoadLocalManifest,
            )
        },
        (Stage::LoadingLocal, SyncEvent::LocalManifest(local)) => {
            let stale = match local {
                Some(manifest) => find_stale_paths(&manifest, &remote),
                None => {
                    let none: Vec<String> = Vec::new();
                    assert(text_views(none@) =~= stale_paths(
                        Seq::<FileEntryView>::empty(),
                        remote@.files,
                    ));
                    none
                },
            };
            SyncSession::probe(remote, Vec::new(), stale, 0)
        },
        (Stage::Probing, SyncEvent::FileContent(on_disk)) => {
            let flag = remote.files()[cursor].needs_fetch(&on_disk);
            fetch.push(flag);
            SyncSession::probe(remote, fetch, removals, cursor + 1)
        },
        (Stage::Preparing, SyncEvent::Done) => SyncSession::removal(remote, fetch, removals, 0),
        (Stage::AnnouncingRemoval, SyncEvent::Done) => {
            let path = removals[cursor].clone();
            assert(path@ == text_views(removals@)[cursor as int]);
            (
                SyncSession { stage: Stage::Removing, remote, fetch, removals, cursor },
                SyncAction::RemoveFile { path },
            )
        },
        (Stage::Removing, SyncEvent::Done) => SyncSession::removal(
            remote,
            fetch,
            removals,
            cursor + 1,
        ),
        (Stage::AnnouncingUpToDate, SyncEvent::Done) => SyncSession::entry(
            remote,
            fetch,
            removals,
            cursor + 1,
        ),
        (Stage::AnnouncingDownload, SyncEvent::Done) => {
            let entry = &remote.files()[cursor];
            let url = entry.url.clone();
            let path = entry.path.clone();
            assert(entry@ == remote@.files[cursor as int]);
            (
                SyncSession { stage: Stage::Downloading, remote, fetch, removals, cursor },
                SyncAction::Download { url, path },
            )
        },
        (Stage::Downloading, SyncEvent::Done) => {
            let files = remote.files();
            let total = files.len() as u64;
            let event = ProgressEvent::installed(&files[cursor].path, cursor as u64, total);
            assert(files[cursor as int]@ == remote@.files[cursor as int]);
            (
                SyncSession {
                    stage: Stage::AnnouncingInstalled,
                    remote,
                    fetch,
                    removals,
                    cursor,
                },
                SyncAction::Emit(event),
            )
        },
        (Stage::AnnouncingInstalled, SyncEvent::Done) => SyncSession::entry(
            remote,
            fetch,
            removals,
            cursor + 1,
        ),
        (Stage::Persisting, SyncEvent::Done) => {
            let total = remote.len() as u64;
            (
                SyncSession {
                    stage: Stage::AnnouncingComplete,
                    remote,
                    fetch,
                    removals,
                    cursor,
                },
                SyncAction::Emit(ProgressEvent::complete(total)),
            )
        },
        (Stage::AnnouncingComplete, SyncEvent::Done) => (
            SyncSession { stage: Stage::Finished, remote, fetch, removals, cursor },
            SyncAction::Succeeded,
        ),
        (_, _) => SyncSession::abort(
            remote,
            fetch,
            removals,
            cursor,
            SyncError::out_of_sequence(),
        ),
    };
    next
}

/// Where an update check stands.
#[derive(Clone, Copy, Debug, PartialEq, Eq, Structural)]
pub enum CheckStage {
    /// Not started.
    Idle,
    /// The local manifest is being loaded.
    LoadingLocal,
    /// The remote manifest is being fetched.
    FetchingRemote,
    /// Over.
    Finished,
}

/// What an update check asks its driver to do next.
#[derive(Debug, PartialEq, Eq)]
pub enum CheckAction {
    /// Read and parse the local manifest, if there is one.
    LoadLocalManifest,
    /// Fetch and parse the remote manifest.
    FetchRemoteManifest,
    /// The check is over: whether a synchronisation is required.
    Decided(bool),
    /// The check is over and could not decide.
    Failed(SyncError),
}

/// What a `CheckAction` means.
pub enum CheckActionView {
    LoadLocalManifest,
    FetchRemoteManifest,
    Decided(bool),
    Failed(SyncErrorView),
}

impl View for CheckAction {
    type V = CheckActionView;

    open spec fn view(&self) -> CheckActionView {
        match *self {
            CheckAction::LoadLocalManifest => CheckActionView::LoadLocalManifest,
            CheckAction::FetchRemoteManifest => CheckActionView::FetchRemoteManifest,
            CheckAction::Decided(required) => CheckActionView::Decided(required),
            CheckAction::Failed(error) => CheckActionView::Failed(error@),
        }
    }
}

/// What an `UpdateCheck` means.
pub struct CheckView {
    pub stage: CheckStage,
    /// The local manifest's version, once it has been loaded.
    pub local_version: Seq<char>,
}

/// The state before a check has started.
pub open spec fn initial_check() -> CheckView {
    CheckView { stage: CheckStage::Idle, local_version: Seq::empty() }
}

/// One step of an update check.
///
/// Without a local manifest an update is required, and the remote manifest is
/// not fetched. With one, an update is required exactly when the two versions
/// differ; no file is looked at. A failure to load or fetch is passed on.
pub open spec fn check_step(s: CheckView, event: EventView) -> (CheckView, CheckActionView) {
    let over = CheckView { stage: CheckStage::Finished, ..s };
    match (s.stage, event) {
        (CheckStage::Idle, EventView::Start) => (
            CheckView { stage: CheckStage::LoadingLocal, ..s },
            CheckActionView::LoadLocalManifest,
        ),
        (CheckStage::LoadingLocal, EventView::LocalManifest(None)) => (
            over,
            CheckActionView::Decided(true),
        ),
        (CheckStage::LoadingLocal, EventView::LocalManifest(Some(local))) => (
            CheckView { stage: CheckStage::FetchingRemote, local_version: local.version },
            CheckActionView::FetchRemoteManifest,
        ),
        (CheckStage::FetchingRemote, EventView::RemoteManifest(remote)) => (
            over,
            CheckActionView::Decided(s.local_version != remote.version),
        ),
        (CheckStage::LoadingLocal, EventView::Failed(error)) => (
            over,
            CheckActionView::Failed(error),
        ),
        (CheckStage::FetchingRemote, EventView::Failed(error)) => (
            over,
            CheckActionView::Failed(error),
        ),
        _ => (over, CheckActionView::Failed(out_of_sequence())),
    }
}

/// An update check in progress.
#[derive(Debug)]
pub struct UpdateCheck {
    stage: CheckStage,
    local_version: String,
}

impl View for UpdateCheck {
    type V = CheckView;

    closed spec fn view(&self) -> CheckView {
        CheckView { stage: self.stage, local_version: self.local_version@ }
    }
}

impl UpdateCheck {
    /// A check that has not started. Its first event is `SyncEvent::Start`.
    pub fn new() -> (check: UpdateCheck)
        ensures
            check@ == initial_check(),
    {
        UpdateCheck { stage: CheckStage::Idle, local_version: String::new() }
    }

    /// Which action is pending.
    pub fn stage(&self) -> (stage: CheckStage)
        ensures
            stage == self@.stage,
    {
        self.stage
    }
}

/// Advances an update check by one step: takes the check's state and the
/// driver's report on the pending action, and gives the next state and the
/// action to perform.
///
/// The driver starts with `UpdateCheck::new()` and `SyncEvent::Start`, and
/// goes on until the action is `Decided` or `Failed`.
pub fn modpack_required_update(check: UpdateCheck, event: SyncEvent) -> (next: (
    UpdateCheck,
    CheckAction,
))
    ensures
        (next.0@, next.1@) == check_step(check@, event@),
{
    let UpdateCheck { stage, local_version } = check;
    match (stage, event) {
        (CheckStage::Idle, SyncEvent::Start) => (
            UpdateCheck { stage: CheckStage::LoadingLocal, local_version },
            CheckAction::LoadLocalManifest,
        ),
        (CheckStage::LoadingLocal, SyncEvent::LocalManifest(None)) => (
            UpdateCheck { stage: CheckStage::Finished, local_version },
            CheckAction::Decided(true),
        ),
        (CheckStage::LoadingLocal, SyncEvent::LocalManifest(Some(local))) => (
            UpdateCheck {
                stage: CheckStage::FetchingRemote,
                local_version: local.version().clone(),
            },
            CheckAction::FetchRemoteManifest,
        ),
        (CheckStage::FetchingRemote, SyncEvent::RemoteManifest(remote)) => {
            let same = local_version == *remote.version();
            (
                UpdateCheck { stage: CheckStage::Finished, local_version },
                CheckAction::Decided(!same),
            )
        },
        (CheckStage::LoadingLocal, SyncEvent::Failed(error)) => (
            UpdateCheck { stage: CheckStage::Finished, local_version },
            CheckAction::Failed(error),
        ),
        (CheckStage::FetchingRemote, SyncEvent::Failed(error)) => (
            UpdateCheck { stage: CheckStage::Finished, local_version },
            CheckAction::Failed(error),
        ),
        (_, _) => (
            UpdateCheck { stage: CheckStage::Finished, local_version },
            CheckAction::Failed(SyncError::out_of_sequence()),
        ),
    }
}

} // verus!

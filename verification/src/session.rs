//! The vocabulary of a synchronisation run: what the engine asks its driver
//! to do, what the driver reports back, and the run's state in between.

use vstd::prelude::*;
use vstd::string::StringExecFns;
use crate::manifest::{manifest_wf, Manifest, ManifestView};
use crate::progress::{ProgressEvent, ProgressView};

verus! {

/// What went wrong.
#[derive(Clone, Copy, Debug, PartialEq, Eq, Structural)]
pub enum ErrorKind {
    /// A transfer failed or the server answered with a failure status.
    Network,
    /// A manifest's bytes do not describe a valid manifest.
    Parse,
    /// A file could not be read, written, created or deleted.
    Filesystem,
    /// The driver reported something that does not answer the pending action.
    OutOfSequence,
}

/// A failure, with the path or URL it concerns.
#[derive(Debug, PartialEq, Eq)]
pub struct SyncError {
    pub kind: ErrorKind,
    pub context: String,
}

/// What a `SyncError` means.
pub struct SyncErrorView {
    pub kind: ErrorKind,
    pub context: Seq<char>,
}

impl View for SyncError {
    type V = SyncErrorView;

    open spec fn view(&self) -> SyncErrorView {
        SyncErrorView { kind: self.kind, context: self.context@ }
    }
}

impl Clone for SyncError {
    fn clone(&self) -> (copy: Self)
        ensures
            copy == *self,
    {
        SyncError { kind: self.kind, context: self.context.clone() }
    }
}

/// The failure that answers a report out of turn.
pub open spec fn out_of_sequence() -> SyncErrorView {
    SyncErrorView {
        kind: ErrorKind::OutOfSequence,
        context: "report does not answer the pending action"@,
    }
}

/// The words that say what kind of failure it was.
pub open spec fn kind_words(kind: ErrorKind) -> Seq<char> {
    match kind {
        ErrorKind::Network => "network error: "@,
        ErrorKind::Parse => "malformed manifest: "@,
        ErrorKind::Filesystem => "file system error: "@,
        ErrorKind::OutOfSequence => "driver error: "@,
    }
}

impl SyncError {
    /// The failure in words: its kind, then the path or URL it concerns.
    pub fn message(&self) -> (text: String)
        ensures
            text@ == kind_words(self.kind) + self.context@,
    {
        let mut text = match self.kind {
            ErrorKind::Network => String::from_str("network error: "),
            ErrorKind::Parse => String::from_str("malformed manifest: "),
            ErrorKind::Filesystem => String::from_str("file system error: "),
            ErrorKind::OutOfSequence => String::from_str("driver error: "),
        };
        text.append(self.context.as_str());
        text
    }

    /// The failure that answers a report out of turn.
    pub fn out_of_sequence() -> (error: SyncError)
        ensures
            error@ == out_of_sequence(),
    {
        SyncError {
            kind: ErrorKind::OutOfSequence,
            context: String::from_str("report does not answer the pending action"),
        }
    }
}

/// What the engine asks its driver to do next.
#[derive(Debug, PartialEq, Eq)]
pub enum SyncAction {
    /// Fetch and parse the remote manifest.
    FetchRemoteManifest,
    /// Read and parse the local manifest, if there is one.
    LoadLocalManifest,
    /// Read the file at `path` below the installation root, if there is one.
    ReadFile { path: String },
    /// Hand the event to the progress sink, without waiting for it.
    Emit(ProgressEvent),
    /// Delete the file at `path` below the installation root if it exists.
    RemoveFile { path: String },
    /// Fetch the bytes at `url` and write them to `path` below the
    /// installation root, creating missing parent directories.
    Download { url: String, path: String },
    /// Replace the local manifest by this one, all or nothing.
    PersistManifest(Manifest),
    /// The run is over and everything was done.
    Succeeded,
    /// The run is over; nothing further was or will be attempted.
    Failed(SyncError),
}

/// What a `SyncAction` means.
pub enum ActionView {
    FetchRemoteManifest,
    LoadLocalManifest,
    ReadFile { path: Seq<char> },
    Emit(ProgressView),
    RemoveFile { path: Seq<char> },
    Download { url: Seq<char>, path: Seq<char> },
    PersistManifest(ManifestView),
    Succeeded,
    Failed(SyncErrorView),
}

impl View for SyncAction {
    type V = ActionView;

    open spec fn view(&self) -> ActionView {
        match *self {
            SyncAction::FetchRemoteManifest => ActionView::FetchRemoteManifest,
            SyncAction::LoadLocalManifest => ActionView::LoadLocalManifest,
            SyncAction::ReadFile { path } => ActionView::ReadFile { path: path@ },
            SyncAction::Emit(event) => ActionView::Emit(event@),
            SyncAction::RemoveFile { path } => ActionView::RemoveFile { path: path@ },
            SyncAction::Download { url, path } => ActionView::Download { url: url@, path: path@ },
            SyncAction::PersistManifest(manifest) => ActionView::PersistManifest(manifest@),
            SyncAction::Succeeded => ActionView::Succeeded,
            SyncAction::Failed(error) => ActionView::Failed(error@),
        }
    }
}

/// What the driver reports to the engine.
#[derive(Debug, PartialEq, Eq)]
pub enum SyncEvent {
    /// Begin.
    Start,
    /// The remote manifest, fetched and parsed.
    RemoteManifest(Manifest),
    /// The local manifest, or `None` if there is none yet.
    LocalManifest(Option<Manifest>),
    /// The bytes of the file asked for, or `None` if there is no such file.
    FileContent(Option<Vec<u8>>),
    /// The pending action was carried out.
    Done,
    /// The pending action failed.
    Failed(SyncError),
}

/// What a `SyncEvent` means.
pub enum EventView {
    Start,
    RemoteManifest(ManifestView),
    LocalManifest(Option<ManifestView>),
    FileContent(Option<Seq<u8>>),
    Done,
    Failed(SyncErrorView),
}

impl View for SyncEvent {
    type V = EventView;

    open spec fn view(&self) -> EventView {
        match *self {
            SyncEvent::Start => EventView::Start,
            SyncEvent::RemoteManifest(manifest) => EventView::RemoteManifest(manifest@),
            SyncEvent::LocalManifest(Some(manifest)) => EventView::LocalManifest(Some(manifest@)),
            SyncEvent::LocalManifest(None) => EventView::LocalManifest(None),
            SyncEvent::FileContent(Some(content)) => EventView::FileContent(Some(content@)),
            SyncEvent::FileContent(None) => EventView::FileContent(None),
            SyncEvent::Done => EventView::Done,
            SyncEvent::Failed(error) => EventView::Failed(error@),
        }
    }
}

/// What holds of every report that a driver can make: a manifest in it is
/// well formed, and the remote one has a number of entries that a `u64`
/// holds.
pub open spec fn event_wf(event: EventView) -> bool {
    match event {
        EventView::RemoteManifest(manifest) => {
            manifest_wf(manifest) && manifest.files.len() <= u64::MAX
        },
        EventView::LocalManifest(Some(manifest)) => manifest_wf(manifest),
        _ => true,
    }
}

/// Where a synchronisation run stands: which action is pending.
#[derive(Clone, Copy, Debug, PartialEq, Eq, Structural)]
pub enum Stage {
    /// Not started.
    Idle,
    /// The remote manifest is being fetched.
    FetchingRemote,
    /// The local manifest is being loaded.
    LoadingLocal,
    /// The file of the entry under the cursor is being read.
    Probing,
    /// The opening report is being emitted.
    Preparing,
    /// The removal under the cursor is being announced.
    AnnouncingRemoval,
    /// The stale file under the cursor is being deleted.
    Removing,
    /// The entry under the cursor is being reported as up to date.
    AnnouncingUpToDate,
    /// The download of the entry under the cursor is being announced.
    AnnouncingDownload,
    /// The entry under the cursor is being fetched and written.
    Downloading,
    /// The entry under the cursor is being reported as installed.
    AnnouncingInstalled,
    /// The remote manifest is being written as the new local one.
    Persisting,
    /// The closing report is being emitted.
    AnnouncingComplete,
    /// Over.
    Finished,
}

/// What a `SyncSession` means.
pub struct SessionView {
    pub stage: Stage,
    /// The remote manifest; empty until it has arrived.
    pub remote: ManifestView,
    /// For each remote entry probed so far, whether it has to be fetched.
    pub fetch: Seq<bool>,
    /// The stale paths to delete, in order.
    pub removals: Seq<Seq<char>>,
    /// The position within the current stage's list.
    pub cursor: nat,
}

} // verus!

//! A run of the engine against a modelled installation: every action is
//! carried out as asked, and the outcome is reported truthfully.

use vstd::prelude::*;
use crate::manifest::{manifest_wf, ManifestView};
use crate::modpack::{initial_session, local_files, session_wf, sync_step, total_of};
use crate::plan::stale_paths;
use crate::progress::{
    complete_event, downloading_event, installed_event, preparing_event, removing_event,
    up_to_date_event, ProgressView,
};
use crate::session::{event_wf, ActionView, EventView, SessionView, Stage};
use crate::trace::{emitted_by, emitted_from, lemma_one_more_report, state_after};
use crate::tree::{
    after_entries, after_removals, fetch_flags, interrupted_tree, on_disk, reachable_point,
};

verus! {

/// An installation, the server it synchronises with, and the progress sink.
pub struct World {
    /// The files below the installation root.
    pub tree: Map<Seq<char>, Seq<u8>>,
    /// The local manifest, if one was ever recorded.
    pub local: Option<ManifestView>,
    /// The manifest that the server offers.
    pub remote: ManifestView,
    /// What each URL delivers.
    pub served: spec_fn(Seq<char>) -> Seq<u8>,
    /// What the progress sink has received, in order.
    pub emitted: Seq<ProgressView>,
}

/// Carries out `action` and reports on it.
pub open spec fn perform(world: World, action: ActionView) -> (World, EventView) {
    match action {
        ActionView::FetchRemoteManifest => (world, EventView::RemoteManifest(world.remote)),
        ActionView::LoadLocalManifest => (world, EventView::LocalManifest(world.local)),
        ActionView::ReadFile { path } => (world, EventView::FileContent(on_disk(world.tree, path))),
        ActionView::Emit(event) => (
            World { emitted: world.emitted.push(event), ..world },
            EventView::Done,
        ),
        ActionView::RemoveFile { path } => (
            World { tree: world.tree.remove(path), ..world },
            EventView::Done,
        ),
        ActionView::Download { url, path } => (
            World { tree: world.tree.insert(path, (world.served)(url)), ..world },
            EventView::Done,
        ),
        ActionView::PersistManifest(manifest) => (
            World { local: Some(manifest), ..world },
            EventView::Done,
        ),
        ActionView::Succeeded => (world, EventView::Done),
        ActionView::Failed(_) => (world, EventView::Done),
    }
}

/// A run at some moment: the engine's state, the world after the pending
/// action was carried out, the report on that action, the action itself, and
/// the reports that the engine has been given so far.
pub struct Moment {
    pub session: SessionView,
    pub world: World,
    pub report: EventView,
    pub last: Option<ActionView>,
    pub reports: Seq<EventView>,
}

/// The moment before anything has happened.
pub open spec fn first_moment(world: World) -> Moment {
    Moment {
        session: initial_session(),
        world,
        report: EventView::Start,
        last: None,
        reports: Seq::empty(),
    }
}

/// The moment after one more step. A run that is over stays as it is.
pub open spec fn next_moment(moment: Moment) -> Moment {
    if moment.session.stage == Stage::Finished {
        moment
    } else {
        let (session, action) = sync_step(moment.session, moment.report);
        let (world, report) = perform(moment.world, action);
        Moment {
            session,
            world,
            report,
            last: Some(action),
            reports: moment.reports.push(moment.report),
        }
    }
}

/// The moment after `steps` steps of a run that starts in `world`.
pub open spec fn moment_after(world: World, steps: nat) -> Moment
    decreases steps,
{
    if steps == 0 {
        first_moment(world)
    } else {
        next_moment(moment_after(world, (steps - 1) as nat))
    }
}

/// How many stale files are gone once the pending action of `s` is done.
pub open spec fn removed_at(s: SessionView) -> nat {
    match s.stage {
        Stage::Idle | Stage::FetchingRemote | Stage::LoadingLocal | Stage::Probing
        | Stage::Preparing => 0,
        Stage::AnnouncingRemoval => s.cursor,
        Stage::Removing => s.cursor + 1,
        _ => s.removals.len(),
    }
}

/// How many entries are dealt with once the pending action of `s` is done.
pub open spec fn done_at(s: SessionView) -> nat {
    match s.stage {
        Stage::AnnouncingUpToDate | Stage::AnnouncingDownload => s.cursor,
        Stage::Downloading | Stage::AnnouncingInstalled => s.cursor + 1,
        Stage::Persisting | Stage::AnnouncingComplete | Stage::Finished => s.remote.files.len(),
        _ => 0,
    }
}

/// Whether the remote manifest has been recorded as the local one once the
/// pending action of `s` is done.
pub open spec fn recorded_at(s: SessionView) -> bool {
    s.stage == Stage::Persisting || s.stage == Stage::AnnouncingComplete || s.stage
        == Stage::Finished
}

/// The steps that the entries from `from` on still take, up to the end of the
/// run: three for an entry to fetch, one for an entry to keep, two to close.
pub open spec fn entry_steps(flags: Seq<bool>, from: nat) -> nat
    decreases flags.len() - from,
{
    if from >= flags.len() {
        2
    } else if flags[from as int] {
        3 + entry_steps(flags, from + 1)
    } else {
        1 + entry_steps(flags, from + 1)
    }
}

/// The steps that a run still takes from `s`, for a plan with the flags
/// `flags` and `stale` stale paths.
pub open spec fn steps_left(s: SessionView, flags: Seq<bool>, stale: nat) -> int {
    let plan: int = (1 + 2 * stale + entry_steps(flags, 0)) as int;
    match s.stage {
        Stage::Idle => 3 + flags.len() + plan,
        Stage::FetchingRemote => 2 + flags.len() + plan,
        Stage::LoadingLocal => 1 + flags.len() + plan,
        Stage::Probing => flags.len() - s.cursor + plan,
        Stage::Preparing => plan,
        Stage::AnnouncingRemoval => 2 * (stale - s.cursor) + entry_steps(flags, 0),
        Stage::Removing => 2 * (stale - s.cursor) - 1 + entry_steps(flags, 0),
        Stage::AnnouncingUpToDate => 1 + entry_steps(flags, s.cursor + 1) as int,
        Stage::AnnouncingDownload => 3 + entry_steps(flags, s.cursor + 1) as int,
        Stage::Downloading => 2 + entry_steps(flags, s.cursor + 1) as int,
        Stage::AnnouncingInstalled => 1 + entry_steps(flags, s.cursor + 1) as int,
        Stage::Persisting => 2,
        Stage::AnnouncingComplete => 1,
        Stage::Finished => 0,
    }
}

/// The number of steps that a whole run takes in `world`.
pub open spec fn run_length(world: World) -> nat {
    let flags = fetch_flags(world.tree, world.remote.files);
    let stale = stale_paths(local_files(world.local), world.remote.files);
    (4 + flags.len() + 2 * stale.len() + entry_steps(flags, 0)) as nat
}

/// A world that a run can start in.
pub open spec fn world_wf(world: World) -> bool {
    &&& manifest_wf(world.remote)
    &&& world.remote.files.len() <= u64::MAX
    &&& (world.local matches Some(local) ==> manifest_wf(local))
}

/// The action that is pending in `s`, for a run that no failure has ended:
/// what the step into `s` asked for.
pub open spec fn pending_action(s: SessionView) -> ActionView {
    let total = total_of(s.remote);
    let entry = s.remote.files[s.cursor as int];
    match s.stage {
        Stage::Idle | Stage::Finished => ActionView::Succeeded,
        Stage::FetchingRemote => ActionView::FetchRemoteManifest,
        Stage::LoadingLocal => ActionView::LoadLocalManifest,
        Stage::Probing => ActionView::ReadFile { path: entry.path },
        Stage::Preparing => ActionView::Emit(preparing_event(total)),
        Stage::AnnouncingRemoval => ActionView::Emit(
            removing_event(s.removals[s.cursor as int], total),
        ),
        Stage::Removing => ActionView::RemoveFile { path: s.removals[s.cursor as int] },
        Stage::AnnouncingUpToDate => ActionView::Emit(
            up_to_date_event(entry.path, s.cursor as u64, total),
        ),
        Stage::AnnouncingDownload => ActionView::Emit(
            downloading_event(entry.path, s.cursor as u64, total),
        ),
        Stage::Downloading => ActionView::Download { url: entry.url, path: entry.path },
        Stage::AnnouncingInstalled => ActionView::Emit(
            installed_event(entry.path, s.cursor as u64, total),
        ),
        Stage::Persisting => ActionView::PersistManifest(s.remote),
        Stage::AnnouncingComplete => ActionView::Emit(complete_event(total)),
    }
}

/// The report that the pending action of `s` gets in a run from `start`.
pub open spec fn report_at(start: World, s: SessionView) -> EventView {
    match s.stage {
        Stage::Idle => EventView::Start,
        Stage::FetchingRemote => EventView::RemoteManifest(start.remote),
        Stage::LoadingLocal => EventView::LocalManifest(start.local),
        Stage::Probing => EventView::FileContent(
            on_disk(start.tree, start.remote.files[s.cursor as int].path),
        ),
        _ => EventView::Done,
    }
}

/// What holds at every moment of a run that started in `start`: the engine
/// works to the plan made from `start`, and the world is where that plan has
/// brought it.
pub open spec fn on_plan(start: World, moment: Moment) -> bool {
    let s = moment.session;
    let world = moment.world;
    let remote = start.remote.files;
    let local = local_files(start.local);
    let stale = stale_paths(local, remote);
    let flags = fetch_flags(start.tree, remote);
    &&& session_wf(s)
    &&& world.remote == start.remote
    &&& world.served == start.served
    &&& moment.report == report_at(start, s)
    &&& match s.stage {
        Stage::Idle => s == initial_session(),
        Stage::FetchingRemote => true,
        Stage::LoadingLocal => s.remote == start.remote,
        Stage::Probing => {
            &&& s.remote == start.remote
            &&& s.removals == stale
            &&& s.fetch == flags.take(s.cursor as int)
        },
        _ => {
            &&& s.remote == start.remote
            &&& s.removals == stale
            &&& s.fetch == flags
        },
    }
    &&& reachable_point(local, remote, removed_at(s), done_at(s))
    &&& world.tree == interrupted_tree(
        start.tree,
        local,
        remote,
        start.served,
        removed_at(s),
        done_at(s),
    )
    &&& world.local == if recorded_at(s) {
        Some(start.remote)
    } else {
        start.local
    }
    &&& (s.stage != Stage::Idle ==> moment.last == Some(pending_action(s)))
    &&& (s.stage == Stage::AnnouncingComplete || s.stage == Stage::Finished ==> {
        &&& world.emitted.len() > 0
        &&& world.emitted.last() == complete_event(total_of(start.remote))
    })
}

/// What the sink has received is what the engine emits for the reports it
/// was given, and the engine's state is the one those reports lead to.
pub open spec fn on_record(start: World, moment: Moment) -> bool {
    &&& moment.session == state_after(initial_session(), moment.reports)
    &&& moment.world.emitted == start.emitted + emitted_from(initial_session(), moment.reports)
    &&& forall|i: int| 0 <= i < moment.reports.len() ==> event_wf(#[trigger] moment.reports[i])
}

/// One step of a run keeps the record true.
pub proof fn lemma_step_on_record(start: World, moment: Moment)
    requires
        world_wf(start),
        on_plan(start, moment),
        on_record(start, moment),
        moment.session.stage != Stage::Finished,
    ensures
        on_record(start, next_moment(moment)),
{
    let after = next_moment(moment);
    let (session, action) = sync_step(moment.session, moment.report);
    lemma_one_more_report(initial_session(), moment.reports, moment.report);
    assert(after.world.emitted =~= moment.world.emitted + emitted_by(action));
    assert(after.world.emitted =~= start.emitted + emitted_from(initial_session(), after.reports));
    assert forall|i: int| 0 <= i < after.reports.len() implies event_wf(
        #[trigger] after.reports[i],
    ) by {
        if i < moment.reports.len() {
            assert(after.reports[i] == moment.reports[i]);
        }
    }
}

/// One step of a run keeps it on plan and brings it one step nearer its end.
pub proof fn lemma_step_on_plan(start: World, moment: Moment)
    requires
        world_wf(start),
        on_plan(start, moment),
        moment.session.stage != Stage::Finished,
    ensures
        on_plan(start, next_moment(moment)),
        steps_left(
            next_moment(moment).session,
            fetch_flags(start.tree, start.remote.files),
            stale_paths(local_files(start.local), start.remote.files).len(),
        ) + 1 == steps_left(
            moment.session,
            fetch_flags(start.tree, start.remote.files),
            stale_paths(local_files(start.local), start.remote.files).len(),
        ),
{
    let s = moment.session;
    let after = next_moment(moment);
    let remote = start.remote.files;
    let local = local_files(start.local);
    let stale = stale_paths(local, remote);
    let flags = fetch_flags(start.tree, remote);
    let cleared = after_removals(start.tree, stale, stale.len());
    assert(after_entries(cleared, remote, flags, start.served, 0) == cleared);
    assert(after_removals(start.tree, stale, 0) == start.tree);
    match s.stage {
        Stage::LoadingLocal => {
            assert(flags.take(0) =~= Seq::<bool>::empty());
            assert(flags.take(flags.len() as int) =~= flags);
        },
        Stage::Probing => {
            let at = s.cursor as int;
            assert(flags.take(at + 1) =~= flags.take(at).push(flags[at]));
            assert(flags.take(flags.len() as int) =~= flags);
        },
        Stage::AnnouncingRemoval => {
            let before = after_removals(start.tree, stale, s.cursor);
            assert(after_entries(before, remote, flags, start.served, 0) == before);
            let gone = after_removals(start.tree, stale, s.cursor + 1);
            assert(after_entries(gone, remote, flags, start.served, 0) == gone);
        },
        Stage::Removing => {
            let gone = after_removals(start.tree, stale, s.cursor + 1);
            assert(after_entries(gone, remote, flags, start.served, 0) == gone);
        },
        _ => {},
    }
}

/// Every moment of a run is on plan, and the steps taken and the steps left
/// add up to the run's length.
pub proof fn lemma_run_on_plan(start: World, steps: nat)
    requires
        world_wf(start),
    ensures
        on_plan(start, moment_after(start, steps)),
        on_record(start, moment_after(start, steps)),
        steps_left(
            moment_after(start, steps).session,
            fetch_flags(start.tree, start.remote.files),
            stale_paths(local_files(start.local), start.remote.files).len(),
        ) == if steps <= run_length(start) {
            run_length(start) - steps
        } else {
            0
        },
    decreases steps,
{
    let remote = start.remote.files;
    let local = local_files(start.local);
    let stale = stale_paths(local, remote);
    let flags = fetch_flags(start.tree, remote);
    if steps == 0 {
        assert(after_removals(start.tree, stale, 0) == start.tree);
        assert(after_entries(start.tree, remote, flags, start.served, 0) == start.tree);
        assert(start.emitted + emitted_from(initial_session(), Seq::<EventView>::empty())
            =~= start.emitted);
    } else {
        let before = moment_after(start, (steps - 1) as nat);
        lemma_run_on_plan(start, (steps - 1) as nat);
        if before.session.stage != Stage::Finished {
            lemma_step_on_plan(start, before);
            lemma_step_on_record(start, before);
        }
    }
}

} // verus!

//! What holds of every synchronisation: first over the file tree alone, then
//! over runs of the engine.

use vstd::prelude::*;
use crate::manifest::{has_path, paths_unique, FileEntryView};
use crate::plan::{lemma_stale_paths, needs_fetch, stale_paths};
use crate::progress::complete_event;
use crate::run::{
    done_at, lemma_run_on_plan, moment_after, removed_at, run_length, world_wf, World,
};
use crate::modpack::{initial_session, local_files, sync_step};
use crate::session::{
    event_wf, out_of_sequence, ActionView, EventView, SessionView, Stage, SyncErrorView,
};
use crate::trace::{actions_from, emitted_from, lemma_orderly_from, lemma_over_is_over, orderly};
use crate::tree::{
    after_entries, fetch_flags, fetched_as_declared, interrupted_tree, lemma_interrupted_tree,
    on_disk, reachable_point, synced_tree,
};

verus! {

/// Two trees that hold the same at every path are the same tree.
pub proof fn lemma_same_tree(a: Map<Seq<char>, Seq<u8>>, b: Map<Seq<char>, Seq<u8>>)
    requires
        forall|path: Seq<char>| on_disk(a, path) == on_disk(b, path),
    ensures
        a == b,
{
    assert forall|path: Seq<char>| #[trigger] a.dom().contains(path) <==> b.dom().contains(path) by {
        assert(on_disk(a, path) == on_disk(b, path));
    }
    assert forall|path: Seq<char>| a.dom().contains(path) implies #[trigger] a[path] == b[path] by {
        assert(on_disk(a, path) == on_disk(b, path));
    }
    assert(a.dom() =~= b.dom());
    assert(a =~= b);
}

/// What a whole run leaves behind.
///
/// A path that the local manifest has and the remote one has not is gone. The
/// path of a remote entry holds what was there if that hashed to the entry's
/// `sha1`, whatever its size, and else what the entry's URL served. Every
/// other path is untouched.
pub proof fn law_sync_outcome(
    tree: Map<Seq<char>, Seq<u8>>,
    local: Seq<FileEntryView>,
    remote: Seq<FileEntryView>,
    served: spec_fn(Seq<char>) -> Seq<u8>,
)
    requires
        paths_unique(remote),
    ensures
        forall|path: Seq<char>|
            has_path(local, path) && !has_path(remote, path) ==> #[trigger] on_disk(
                synced_tree(tree, local, remote, served),
                path,
            ) is None,
        forall|i: int|
            0 <= i < remote.len() ==> on_disk(
                synced_tree(tree, local, remote, served),
                (#[trigger] remote[i]).path,
            ) == if needs_fetch(remote[i], on_disk(tree, remote[i].path)) {
                Some(served(remote[i].url))
            } else {
                on_disk(tree, remote[i].path)
            },
        forall|path: Seq<char>|
            !has_path(local, path) && !has_path(remote, path) ==> #[trigger] on_disk(
                synced_tree(tree, local, remote, served),
                path,
            ) == on_disk(tree, path),
{
    let stale = stale_paths(local, remote);
    lemma_interrupted_tree(tree, local, remote, served, stale.len(), remote.len());
    lemma_stale_paths(local, remote);
    assert(stale.take(stale.len() as int) =~= stale);
}

/// A whole run right after a whole run, against the same remote manifest,
/// leaves the tree as it is.
pub proof fn law_sync_is_idempotent(
    tree: Map<Seq<char>, Seq<u8>>,
    local: Seq<FileEntryView>,
    remote: Seq<FileEntryView>,
    served: spec_fn(Seq<char>) -> Seq<u8>,
)
    requires
        paths_unique(remote),
    ensures
        stale_paths(remote, remote).len() == 0,
        synced_tree(synced_tree(tree, local, remote, served), remote, remote, served)
            == synced_tree(tree, local, remote, served),
{
    let first = synced_tree(tree, local, remote, served);
    let second = synced_tree(first, remote, remote, served);
    law_sync_outcome(tree, local, remote, served);
    lemma_stale_paths(remote, remote);
    let stale = stale_paths(remote, remote);
    if stale.len() > 0 {
        assert(stale.contains(stale[0]));
        assert(has_path(remote, stale[0]) && !has_path(remote, stale[0]));
    }
    law_sync_outcome(first, remote, remote, served);
    assert forall|path: Seq<char>| on_disk(second, path) == on_disk(first, path) by {
        if has_path(remote, path) {
            let i = choose|i: int| 0 <= i < remote.len() && remote[i].path == path;
            assert(on_disk(second, remote[i].path) == on_disk(first, remote[i].path));
        }
    }
    lemma_same_tree(second, first);
}

/// After a whole run every entry is classified as unchanged, provided that
/// what was fetched hashes to what its entry declares.
pub proof fn law_second_sync_is_idle(
    tree: Map<Seq<char>, Seq<u8>>,
    local: Seq<FileEntryView>,
    remote: Seq<FileEntryView>,
    served: spec_fn(Seq<char>) -> Seq<u8>,
)
    requires
        paths_unique(remote),
        fetched_as_declared(tree, remote, served, remote.len()),
    ensures
        forall|i: int|
            0 <= i < remote.len() ==> !(#[trigger] fetch_flags(
                synced_tree(tree, local, remote, served),
                remote,
            )[i]),
{
    let first = synced_tree(tree, local, remote, served);
    law_sync_outcome(tree, local, remote, served);
    assert forall|i: int| 0 <= i < remote.len() implies !(#[trigger] fetch_flags(first, remote)[i]) by {
        let entry = remote[i];
        assert(on_disk(first, entry.path) == if needs_fetch(entry, on_disk(tree, entry.path)) {
            Some(served(entry.url))
        } else {
            on_disk(tree, entry.path)
        });
    }
}

/// A run that was cut short is made good by the next one.
///
/// Take a run that stopped after some of its deletions and some of its
/// entries, with the local manifest still the old one. A whole run from there
/// ends with the same tree as a whole run from the start. Where what was
/// fetched before the stop hashes to what its entry declares, the second run
/// fetches exactly the entries that the first run had planned to fetch and
/// had not yet come to.
pub proof fn law_retry_converges(
    tree: Map<Seq<char>, Seq<u8>>,
    local: Seq<FileEntryView>,
    remote: Seq<FileEntryView>,
    served: spec_fn(Seq<char>) -> Seq<u8>,
    removed: nat,
    done: nat,
)
    requires
        paths_unique(remote),
        reachable_point(local, remote, removed, done),
    ensures
        synced_tree(
            interrupted_tree(tree, local, remote, served, removed, done),
            local,
            remote,
            served,
        ) == synced_tree(tree, local, remote, served),
        fetched_as_declared(tree, remote, served, done) ==> (forall|i: int|
            0 <= i < remote.len() ==> #[trigger] fetch_flags(
                interrupted_tree(tree, local, remote, served, removed, done),
                remote,
            )[i] == (i >= done && fetch_flags(tree, remote)[i])),
{
    let stale = stale_paths(local, remote);
    let flags = fetch_flags(tree, remote);
    let cut = interrupted_tree(tree, local, remote, served, removed, done);
    let whole = synced_tree(tree, local, remote, served);
    let retried = synced_tree(cut, local, remote, served);
    lemma_interrupted_tree(tree, local, remote, served, removed, done);
    law_sync_outcome(tree, local, remote, served);
    law_sync_outcome(cut, local, remote, served);
    lemma_stale_paths(local, remote);
    assert forall|i: int| 0 <= i < remote.len() implies on_disk(cut, (#[trigger] remote[i]).path)
        == if i < done && flags[i] {
        Some(served(remote[i].url))
    } else {
        on_disk(tree, remote[i].path)
    } by {}
    assert forall|path: Seq<char>| on_disk(retried, path) == on_disk(whole, path) by {
        if has_path(remote, path) {
            let i = choose|i: int| 0 <= i < remote.len() && remote[i].path == path;
            assert(on_disk(retried, remote[i].path) == on_disk(whole, remote[i].path));
        } else if has_path(local, path) {
        } else {
            assert(!stale.contains(path));
            if stale.take(removed as int).contains(path) {
                let at = choose|at: int|
                    0 <= at < stale.take(removed as int).len() && stale.take(removed as int)[at]
                        == path;
                assert(stale[at] == path);
            }
            assert(on_disk(cut, path) == on_disk(tree, path));
        }
    }
    lemma_same_tree(retried, whole);
    if fetched_as_declared(tree, remote, served, done) {
        assert forall|i: int| 0 <= i < remote.len() implies #[trigger] fetch_flags(cut, remote)[i]
            == (i >= done && flags[i]) by {
            assert(on_disk(cut, remote[i].path) == if i < done && flags[i] {
                Some(served(remote[i].url))
            } else {
                on_disk(tree, remote[i].path)
            });
        }
    }
}

/// A run in which every action is carried out ends well after exactly
/// `run_length` steps: the tree is the synchronised one, the remote manifest
/// is recorded as the local one, and the sink has received an orderly line of
/// events that ends with the closing one.
pub proof fn law_run_succeeds(start: World)
    requires
        world_wf(start),
    ensures
        ({
            let end = moment_after(start, run_length(start));
            &&& end.session.stage == Stage::Finished
            &&& end.last == Some(ActionView::Succeeded)
            &&& end.world.tree == synced_tree(
                start.tree,
                local_files(start.local),
                start.remote.files,
                start.served,
            )
            &&& end.world.local == Some(start.remote)
            &&& end.world.emitted == start.emitted + emitted_from(initial_session(), end.reports)
            &&& orderly(emitted_from(initial_session(), end.reports))
            &&& end.world.emitted.len() > 0
            &&& end.world.emitted.last() == complete_event(start.remote.files.len() as u64)
        }),
        forall|steps: nat|
            steps < run_length(start) ==> (#[trigger] moment_after(start, steps)).session.stage
                != Stage::Finished,
{
    lemma_run_on_plan(start, run_length(start));
    lemma_orderly_from(initial_session(), moment_after(start, run_length(start)).reports);
    assert forall|steps: nat| steps < run_length(start) implies (#[trigger] moment_after(
        start,
        steps,
    )).session.stage != Stage::Finished by {
        lemma_run_on_plan(start, steps);
    }
}

/// The local manifest is replaced last.
///
/// At every moment of a run the tree is where the plan has brought it so far:
/// some of the stale files gone, and, once all of them are gone, some of the
/// entries dealt with. The local manifest is still the old one, unless the
/// tree is already the synchronised one.
pub proof fn law_manifest_recorded_last(start: World, steps: nat)
    requires
        world_wf(start),
    ensures
        ({
            let now = moment_after(start, steps);
            let local = local_files(start.local);
            let remote = start.remote.files;
            let removed = removed_at(now.session);
            let done = done_at(now.session);
            &&& reachable_point(local, remote, removed, done)
            &&& now.world.tree == interrupted_tree(
                start.tree,
                local,
                remote,
                start.served,
                removed,
                done,
            )
            &&& (now.world.local == start.local || now.world.local == Some(start.remote))
            &&& (now.world.local != start.local ==> now.world.tree == synced_tree(
                start.tree,
                local,
                remote,
                start.served,
            ))
        }),
{
    lemma_run_on_plan(start, steps);
}

/// Entries that are all left alone leave the tree alone.
proof fn lemma_nothing_to_fetch(
    tree: Map<Seq<char>, Seq<u8>>,
    files: Seq<FileEntryView>,
    fetch: Seq<bool>,
    served: spec_fn(Seq<char>) -> Seq<u8>,
    count: nat,
)
    requires
        count <= fetch.len(),
        forall|i: int| 0 <= i < fetch.len() ==> !fetch[i],
    ensures
        after_entries(tree, files, fetch, served, count) == tree,
    decreases count,
{
    if count > 0 {
        lemma_nothing_to_fetch(tree, files, fetch, served, (count - 1) as nat);
    }
}

/// A second run, right after a whole run and against an unchanged remote
/// manifest, downloads nothing, deletes nothing and never changes the tree,
/// provided that what the first run fetched hashes to what its entry
/// declares.
pub proof fn law_second_run_is_idle(start: World, later: nat)
    requires
        world_wf(start),
        fetched_as_declared(
            start.tree,
            start.remote.files,
            start.served,
            start.remote.files.len(),
        ),
    ensures
        ({
            let first = moment_after(start, run_length(start)).world;
            let now = moment_after(first, later);
            &&& !(now.last matches Some(action) && action is Download)
            &&& !(now.last matches Some(action) && action is RemoveFile)
            &&& now.world.tree == first.tree
            &&& now.world.local == first.local
        }),
{
    let remote = start.remote.files;
    let first = moment_after(start, run_length(start)).world;
    let now = moment_after(first, later);
    law_run_succeeds(start);
    lemma_run_on_plan(start, run_length(start));
    law_second_sync_is_idle(start.tree, local_files(start.local), remote, start.served);
    law_sync_is_idempotent(start.tree, local_files(start.local), remote, start.served);
    lemma_run_on_plan(first, later);
    let flags = fetch_flags(first.tree, remote);
    assert forall|i: int| 0 <= i < flags.len() implies !flags[i] by {}
    lemma_nothing_to_fetch(first.tree, remote, flags, first.served, done_at(now.session));
}

/// A run that was cut short is made good by the next one.
///
/// Stop a run after any number of steps. A whole run from there ends well,
/// with the same tree as a whole run from the start. Where what was fetched
/// before the stop hashes to what its entry declares, the second run
/// downloads only entries that the first run had planned to fetch and had not
/// yet come to.
pub proof fn law_cut_run_is_made_good(start: World, steps: nat, later: nat)
    requires
        world_wf(start),
    ensures
        ({
            let cut = moment_after(start, steps);
            let end = moment_after(cut.world, run_length(cut.world));
            &&& end.session.stage == Stage::Finished
            &&& end.last == Some(ActionView::Succeeded)
            &&& end.world.tree == moment_after(start, run_length(start)).world.tree
            &&& end.world.local == Some(start.remote)
        }),
        ({
            let cut = moment_after(start, steps);
            let now = moment_after(cut.world, later);
            let at = now.session.cursor as int;
            fetched_as_declared(
                start.tree,
                start.remote.files,
                start.served,
                done_at(cut.session),
            ) && (now.last matches Some(action) && action is Download) ==> {
                &&& now.last == Some(
                    ActionView::Download {
                        url: start.remote.files[at].url,
                        path: start.remote.files[at].path,
                    },
                )
                &&& done_at(cut.session) <= at < start.remote.files.len()
                &&& fetch_flags(start.tree, start.remote.files)[at]
            }
        }),
{
    let remote = start.remote.files;
    let local = local_files(start.local);
    let cut = moment_after(start, steps);
    let removed = removed_at(cut.session);
    let done = done_at(cut.session);
    lemma_run_on_plan(start, steps);
    law_run_succeeds(start);
    law_run_succeeds(cut.world);
    lemma_run_on_plan(cut.world, later);
    if cut.world.local == start.local {
        law_retry_converges(start.tree, local, remote, start.served, removed, done);
    } else {
        law_sync_is_idempotent(start.tree, local, remote, start.served);
        if fetched_as_declared(start.tree, remote, start.served, done) {
            law_second_sync_is_idle(start.tree, local, remote, start.served);
        }
    }
}

/// Progress only moves forward, whatever the driver reports.
///
/// Of the events that a run emits, from its start and for any reports at
/// all: every percentage is known and at most 100; the counts never fall; all
/// carry the same total; the count is below the total for every entry dealt
/// with and equals it in the closing event, which comes at most once and
/// last.
pub proof fn law_progress_is_orderly(events: Seq<EventView>)
    requires
        forall|i: int| 0 <= i < events.len() ==> event_wf(#[trigger] events[i]),
    ensures
        orderly(emitted_from(initial_session(), events)),
{
    lemma_orderly_from(initial_session(), events);
}

/// A failure ends the run for good.
///
/// When the driver reports that the pending action failed, the run ends with
/// that very failure. Whatever is reported afterwards, the engine asks for
/// nothing more: no file is touched and the local manifest is not replaced.
pub proof fn law_failure_ends_run(s: SessionView, error: SyncErrorView, later: Seq<EventView>)
    requires
        s.stage != Stage::Idle,
        s.stage != Stage::Finished,
    ensures
        sync_step(s, EventView::Failed(error)).1 == ActionView::Failed(error),
        sync_step(s, EventView::Failed(error)).0.stage == Stage::Finished,
        forall|k: int|
            0 <= k < later.len() ==> #[trigger] actions_from(
                sync_step(s, EventView::Failed(error)).0,
                later,
            )[k] == ActionView::Failed(out_of_sequence()),
{
    lemma_over_is_over(sync_step(s, EventView::Failed(error)).0, later);
}

} // verus!

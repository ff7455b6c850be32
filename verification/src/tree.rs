//! The installation's files as a mathematical map from path to content, and
//! what a synchronisation does to it.

use vstd::prelude::*;
use crate::manifest::{has_path, paths_unique, FileEntryView};
use crate::plan::{lemma_stale_paths, needs_fetch, stale_paths};
use crate::hash::content_hash;

verus! {

/// What `path` holds in `tree`; `None` if there is no such file.
pub open spec fn on_disk(tree: Map<Seq<char>, Seq<u8>>, path: Seq<char>) -> Option<Seq<u8>> {
    if tree.contains_key(path) {
        Some(tree[path])
    } else {
        None
    }
}

/// For every entry of `files`, whether it has to be fetched given `tree`.
pub open spec fn fetch_flags(tree: Map<Seq<char>, Seq<u8>>, files: Seq<FileEntryView>) -> Seq<
    bool,
> {
    Seq::new(files.len(), |i: int| needs_fetch(files[i], on_disk(tree, files[i].path)))
}

/// `tree` after the first `count` of `removals` were deleted.
pub open spec fn after_removals(
    tree: Map<Seq<char>, Seq<u8>>,
    removals: Seq<Seq<char>>,
    count: nat,
) -> Map<Seq<char>, Seq<u8>>
    decreases count,
{
    if count == 0 {
        tree
    } else {
        after_removals(tree, removals, (count - 1) as nat).remove(removals[count - 1])
    }
}

/// `tree` after the first `count` entries of `files` were dealt with: an
/// entry flagged in `fetch` was written with what its URL serves, the others
/// were left alone.
pub open spec fn after_entries(
    tree: Map<Seq<char>, Seq<u8>>,
    files: Seq<FileEntryView>,
    fetch: Seq<bool>,
    served: spec_fn(Seq<char>) -> Seq<u8>,
    count: nat,
) -> Map<Seq<char>, Seq<u8>>
    decreases count,
{
    if count == 0 {
        tree
    } else {
        let before = after_entries(tree, files, fetch, served, (count - 1) as nat);
        if fetch[count - 1] {
            before.insert(files[count - 1].path, served(files[count - 1].url))
        } else {
            before
        }
    }
}

/// `tree` when a run was cut short after `removed` deletions and `done`
/// entries. The plan is the one made at the start: the stale paths of `local`
/// against `remote`, and the flags that `tree` gives.
pub open spec fn interrupted_tree(
    tree: Map<Seq<char>, Seq<u8>>,
    local: Seq<FileEntryView>,
    remote: Seq<FileEntryView>,
    served: spec_fn(Seq<char>) -> Seq<u8>,
    removed: nat,
    done: nat,
) -> Map<Seq<char>, Seq<u8>> {
    after_entries(
        after_removals(tree, stale_paths(local, remote), removed),
        remote,
        fetch_flags(tree, remote),
        served,
        done,
    )
}

/// How far a run can have come: entries are dealt with only once every stale
/// file is gone.
pub open spec fn reachable_point(
    local: Seq<FileEntryView>,
    remote: Seq<FileEntryView>,
    removed: nat,
    done: nat,
) -> bool {
    &&& removed <= stale_paths(local, remote).len()
    &&& done <= remote.len()
    &&& (done > 0 ==> removed == stale_paths(local, remote).len())
}

/// `tree` after a whole run.
pub open spec fn synced_tree(
    tree: Map<Seq<char>, Seq<u8>>,
    local: Seq<FileEntryView>,
    remote: Seq<FileEntryView>,
    served: spec_fn(Seq<char>) -> Seq<u8>,
) -> Map<Seq<char>, Seq<u8>> {
    interrupted_tree(tree, local, remote, served, stale_paths(local, remote).len(), remote.len())
}

/// What the server delivers for each of the first `count` entries that
/// `tree` leaves to be fetched hashes to what the entry declares.
pub open spec fn fetched_as_declared(
    tree: Map<Seq<char>, Seq<u8>>,
    remote: Seq<FileEntryView>,
    served: spec_fn(Seq<char>) -> Seq<u8>,
    count: nat,
) -> bool {
    forall|i: int|
        0 <= i < count && i < remote.len() && needs_fetch(
            #[trigger] remote[i],
            on_disk(tree, remote[i].path),
        ) ==> content_hash(served(remote[i].url)) == remote[i].sha1
}

/// Deleting paths touches no other path, and a deleted path is gone.
pub proof fn lemma_after_removals(
    tree: Map<Seq<char>, Seq<u8>>,
    removals: Seq<Seq<char>>,
    count: nat,
    path: Seq<char>,
)
    requires
        count <= removals.len(),
    ensures
        on_disk(after_removals(tree, removals, count), path) == if removals.take(
            count as int,
        ).contains(path) {
            None
        } else {
            on_disk(tree, path)
        },
    decreases count,
{
    if count > 0 {
        let fewer = (count - 1) as nat;
        lemma_after_removals(tree, removals, fewer, path);
        let shorter = removals.take(fewer as int);
        let longer = removals.take(count as int);
        assert(longer[count - 1] == removals[count - 1]);
        if shorter.contains(path) {
            let at = choose|at: int| 0 <= at < shorter.len() && shorter[at] == path;
            assert(longer[at] == path);
        }
        if longer.contains(path) && removals[count - 1] != path {
            let at = choose|at: int| 0 <= at < longer.len() && longer[at] == path;
            assert(shorter[at] == path);
        }
    } else {
        assert(removals.take(0).len() == 0);
    }
}

/// After `count` entries, a fetched entry's path holds what its URL serves,
/// and a path that no fetched entry has is as it was.
pub proof fn lemma_after_entries(
    tree: Map<Seq<char>, Seq<u8>>,
    files: Seq<FileEntryView>,
    fetch: Seq<bool>,
    served: spec_fn(Seq<char>) -> Seq<u8>,
    count: nat,
)
    requires
        paths_unique(files),
        count <= files.len(),
        fetch.len() == files.len(),
    ensures
        forall|i: int|
            0 <= i < count && fetch[i] ==> on_disk(
                after_entries(tree, files, fetch, served, count),
                (#[trigger] files[i]).path,
            ) == Some(served(files[i].url)),
        forall|path: Seq<char>|
            (forall|i: int| 0 <= i < count && fetch[i] ==> (#[trigger] files[i]).path != path)
                ==> #[trigger] on_disk(after_entries(tree, files, fetch, served, count), path)
                == on_disk(tree, path),
    decreases count,
{
    if count > 0 {
        let fewer = (count - 1) as nat;
        lemma_after_entries(tree, files, fetch, served, fewer);
        let before = after_entries(tree, files, fetch, served, fewer);
        let after = after_entries(tree, files, fetch, served, count);
        assert forall|i: int| 0 <= i < count && fetch[i] implies on_disk(
            after,
            (#[trigger] files[i]).path,
        ) == Some(served(files[i].url)) by {
            if i < fewer {
                assert(files[i].path != files[count - 1].path);
            }
        }
        assert forall|path: Seq<char>|
            (forall|i: int| 0 <= i < count && fetch[i] ==> (#[trigger] files[i]).path != path)
            implies #[trigger] on_disk(after, path) == on_disk(tree, path) by {
            assert(forall|i: int| 0 <= i < fewer && fetch[i] ==> (#[trigger] files[i]).path != path);
            assert(on_disk(before, path) == on_disk(tree, path));
            if fetch[count - 1] {
                assert(files[count - 1].path != path);
            }
        }
    }
}

/// What a path holds when a run was cut short: a stale path deleted so far
/// holds nothing, the path of an entry fetched so far holds what was served,
/// and every other path is as it was.
pub proof fn lemma_interrupted_tree(
    tree: Map<Seq<char>, Seq<u8>>,
    local: Seq<FileEntryView>,
    remote: Seq<FileEntryView>,
    served: spec_fn(Seq<char>) -> Seq<u8>,
    removed: nat,
    done: nat,
)
    requires
        paths_unique(remote),
        removed <= stale_paths(local, remote).len(),
        done <= remote.len(),
    ensures
        forall|i: int|
            0 <= i < done && fetch_flags(tree, remote)[i] ==> on_disk(
                interrupted_tree(tree, local, remote, served, removed, done),
                (#[trigger] remote[i]).path,
            ) == Some(served(remote[i].url)),
        forall|i: int|
            0 <= i < remote.len() && !(i < done && fetch_flags(tree, remote)[i]) ==> on_disk(
                interrupted_tree(tree, local, remote, served, removed, done),
                (#[trigger] remote[i]).path,
            ) == on_disk(tree, remote[i].path),
        forall|path: Seq<char>|
            !has_path(remote, path) ==> #[trigger] on_disk(
                interrupted_tree(tree, local, remote, served, removed, done),
                path,
            ) == if stale_paths(local, remote).take(removed as int).contains(path) {
                None
            } else {
                on_disk(tree, path)
            },
{
    let stale = stale_paths(local, remote);
    let flags = fetch_flags(tree, remote);
    let cleared = after_removals(tree, stale, removed);
    let result = interrupted_tree(tree, local, remote, served, removed, done);
    lemma_after_entries(cleared, remote, flags, served, done);
    lemma_stale_paths(local, remote);
    assert forall|i: int| 0 <= i < remote.len() && !(i < done && flags[i]) implies on_disk(
        result,
        (#[trigger] remote[i]).path,
    ) == on_disk(tree, remote[i].path) by {
        let path = remote[i].path;
        assert forall|j: int| 0 <= j < done && flags[j] implies (#[trigger] remote[j]).path
            != path by {
            if j < i {
                assert(remote[j].path != remote[i].path);
            } else if i < j {
                assert(remote[i].path != remote[j].path);
            }
        }
        assert(on_disk(result, path) == on_disk(cleared, path));
        lemma_after_removals(tree, stale, removed, path);
        if stale.take(removed as int).contains(path) {
            let at = choose|at: int|
                0 <= at < stale.take(removed as int).len() && stale.take(removed as int)[at]
                    == path;
            assert(stale[at] == path);
            assert(stale.contains(path));
            assert(has_path(remote, path));
        }
    }
    assert forall|path: Seq<char>| !has_path(remote, path) implies #[trigger] on_disk(
        result,
        path,
    ) == if stale.take(removed as int).contains(path) {
        None
    } else {
        on_disk(tree, path)
    } by {
        assert forall|j: int| 0 <= j < done && flags[j] implies (#[trigger] remote[j]).path
            != path by {
            if remote[j].path == path {
                assert(has_path(remote, path));
            }
        }
        assert(on_disk(result, path) == on_disk(cleared, path));
        lemma_after_removals(tree, stale, removed, path);
    }
}

} // verus!

//! Planning: which local files to delete, which remote entries to fetch and
//! which to leave alone.

use vstd::prelude::*;
use crate::hash::{content_hash, hash_content};
use crate::manifest::{entry_views, has_path, paths_unique, FileEntry, FileEntryView, Manifest};

verus! {

/// Whether `entry` has to be fetched, given what its path holds on disk
/// (`None`: no such file). A file is kept only if its content hashes to the
/// entry's `sha1`; its size plays no part.
pub open spec fn needs_fetch(entry: FileEntryView, on_disk: Option<Seq<u8>>) -> bool {
    match on_disk {
        None => true,
        Some(content) => content_hash(content) != entry.sha1,
    }
}

/// The paths of `local`, in order, that no entry of `remote` has.
pub open spec fn stale_paths(local: Seq<FileEntryView>, remote: Seq<FileEntryView>) -> Seq<
    Seq<char>,
>
    decreases local.len(),
{
    if local.len() == 0 {
        Seq::empty()
    } else if has_path(remote, local.last().path) {
        stale_paths(local.drop_last(), remote)
    } else {
        stale_paths(local.drop_last(), remote).push(local.last().path)
    }
}

/// A path is stale exactly when the local manifest has it and the remote one
/// does not.
pub proof fn lemma_stale_paths(local: Seq<FileEntryView>, remote: Seq<FileEntryView>)
    ensures
        forall|path: Seq<char>|
            #![trigger stale_paths(local, remote).contains(path)]
            #![trigger has_path(local, path)]
            stale_paths(local, remote).contains(path) <==> has_path(local, path) && !has_path(
                remote,
                path,
            ),
    decreases local.len(),
{
    let stale = stale_paths(local, remote);
    if local.len() > 0 {
        let init = local.drop_last();
        let last = local.last();
        let before = stale_paths(init, remote);
        lemma_stale_paths(init, remote);
        assert forall|path: Seq<char>|
            stale.contains(path) <==> has_path(local, path) && !has_path(remote, path) by {
            if stale.contains(path) {
                let at = choose|at: int| 0 <= at < stale.len() && stale[at] == path;
                if at < before.len() {
                    assert(before[at] == path);
                    assert(before.contains(path));
                    assert(has_path(init, path));
                    let i = choose|i: int| 0 <= i < init.len() && init[i].path == path;
                    assert(local[i].path == path);
                } else {
                    assert(local[local.len() - 1].path == path);
                }
            }
            if has_path(local, path) && !has_path(remote, path) {
                let i = choose|i: int| 0 <= i < local.len() && local[i].path == path;
                if i < init.len() {
                    assert(init[i].path == path);
                    assert(has_path(init, path));
                    assert(before.contains(path));
                    let at = choose|at: int| 0 <= at < before.len() && before[at] == path;
                    assert(stale[at] == path);
                } else {
                    assert(path == last.path);
                    assert(stale[stale.len() - 1] == path);
                }
            }
        }
    }
}

/// The texts of a sequence of strings, in order.
pub open spec fn text_views(texts: Seq<String>) -> Seq<Seq<char>> {
    texts.map_values(|text: String| text@)
}

impl FileEntry {
    /// Decides whether this entry has to be fetched, given the bytes its path
    /// holds on disk (`None`: no such file).
    pub fn needs_fetch(&self, on_disk: &Option<Vec<u8>>) -> (fetch: bool)
        ensures
            fetch == needs_fetch(
                self@,
                match *on_disk {
                    Some(content) => Some(content@),
                    None => None,
                },
            ),
    {
        match on_disk {
            None => true,
            Some(content) => {
                let found = hash_content(content.as_slice());
                !(found == self.sha1)
            },
        }
    }
}

/// Lists the paths of `local` that `remote` no longer has, in `local`'s order.
pub fn find_stale_paths(local: &Manifest, remote: &Manifest) -> (stale: Vec<String>)
    ensures
        text_views(stale@) == stale_paths(local@.files, remote@.files),
{
    let files = local.files();
    let ghost given = local@.files;
    let mut stale: Vec<String> = Vec::new();
    let mut next: usize = 0;
    while next < files.len()
        invariant
            next <= files.len(),
            given == entry_views(files@),
            text_views(stale@) == stale_paths(given.take(next as int), remote@.files),
        decreases files.len() - next,
    {
        let entry = &files[next];
        proof {
            let upto = given.take(next + 1);
            assert(upto.drop_last() =~= given.take(next as int));
            assert(upto.last() == entry@);
        }
        if !remote.contains_path(&entry.path) {
            stale.push(entry.path.clone());
            assert(text_views(stale@) =~= stale_paths(given.take(next as int), remote@.files).push(
                entry@.path,
            ));
        }
        next = next + 1;
    }
    assert(given.take(files.len() as int) =~= given);
    stale
}

/// The entries of `files`, in order, whose flag in `flags` is `wanted`.
pub open spec fn entries_flagged(files: Seq<FileEntryView>, flags: Seq<bool>, wanted: bool) -> Seq<
    FileEntryView,
>
    decreases files.len(),
{
    if files.len() == 0 {
        Seq::empty()
    } else if flags[files.len() - 1] == wanted {
        entries_flagged(files.drop_last(), flags, wanted).push(files.last())
    } else {
        entries_flagged(files.drop_last(), flags, wanted)
    }
}

/// What one run is going to do: three sets that share no path.
#[derive(Debug, PartialEq, Eq)]
pub struct SyncPlan {
    /// Paths of the local manifest that the remote one no longer has.
    pub to_remove: Vec<String>,
    /// Remote entries whose file is missing or does not hash to `sha1`.
    pub to_fetch: Vec<FileEntry>,
    /// Remote entries whose file already hashes to `sha1`.
    pub unchanged: Vec<FileEntry>,
}

/// What a `SyncPlan` means.
pub struct PlanView {
    pub to_remove: Seq<Seq<char>>,
    pub to_fetch: Seq<FileEntryView>,
    pub unchanged: Seq<FileEntryView>,
}

impl View for SyncPlan {
    type V = PlanView;

    open spec fn view(&self) -> PlanView {
        PlanView {
            to_remove: text_views(self.to_remove@),
            to_fetch: entry_views(self.to_fetch@),
            unchanged: entry_views(self.unchanged@),
        }
    }
}

/// The plan for bringing an installation from `local` to `remote`, where
/// `flags` says of each remote entry whether it has to be fetched.
pub open spec fn plan_of(local: Seq<FileEntryView>, remote: Seq<FileEntryView>, flags: Seq<bool>)
    -> PlanView {
    PlanView {
        to_remove: stale_paths(local, remote),
        to_fetch: entries_flagged(remote, flags, true),
        unchanged: entries_flagged(remote, flags, false),
    }
}

/// An entry is among those flagged `wanted` exactly when it stands in `files`
/// at a position flagged so.
pub proof fn lemma_entries_flagged(
    files: Seq<FileEntryView>,
    flags: Seq<bool>,
    wanted: bool,
    entry: FileEntryView,
)
    ensures
        entries_flagged(files, flags, wanted).contains(entry) <==> exists|i: int|
            0 <= i < files.len() && #[trigger] files[i] == entry && flags[i] == wanted,
    decreases files.len(),
{
    let picked = entries_flagged(files, flags, wanted);
    if files.len() > 0 {
        let init = files.drop_last();
        let before = entries_flagged(init, flags, wanted);
        lemma_entries_flagged(init, flags, wanted, entry);
        if picked.contains(entry) {
            let at = choose|at: int| 0 <= at < picked.len() && picked[at] == entry;
            if at < before.len() {
                assert(before[at] == entry);
                assert(before.contains(entry));
                let i = choose|i: int|
                    0 <= i < init.len() && #[trigger] init[i] == entry && flags[i] == wanted;
                assert(files[i] == entry);
            } else {
                assert(files[files.len() - 1] == entry);
            }
        }
        if exists|i: int| 0 <= i < files.len() && #[trigger] files[i] == entry && flags[i] == wanted {
            let i = choose|i: int|
                0 <= i < files.len() && #[trigger] files[i] == entry && flags[i] == wanted;
            if i < init.len() {
                assert(init[i] == entry);
                assert(before.contains(entry));
                let at = choose|at: int| 0 <= at < before.len() && before[at] == entry;
                assert(picked[at] == entry);
            } else {
                assert(picked[picked.len() - 1] == entry);
            }
        }
    }
}

/// The three sets of a plan share no path, and every remote entry is in
/// exactly one of `to_fetch` and `unchanged`.
pub proof fn lemma_plan_partitions(
    local: Seq<FileEntryView>,
    remote: Seq<FileEntryView>,
    flags: Seq<bool>,
)
    requires
        paths_unique(remote),
        flags.len() == remote.len(),
    ensures
        forall|i: int|
            0 <= i < remote.len() ==> (plan_of(local, remote, flags).to_fetch.contains(
                #[trigger] remote[i],
            ) <==> flags[i]),
        forall|i: int|
            0 <= i < remote.len() ==> (plan_of(local, remote, flags).unchanged.contains(
                #[trigger] remote[i],
            ) <==> !flags[i]),
        forall|path: Seq<char>|
            !(has_path(plan_of(local, remote, flags).to_fetch, path) && has_path(
                plan_of(local, remote, flags).unchanged,
                path,
            )),
        forall|path: Seq<char>|
            #[trigger] plan_of(local, remote, flags).to_remove.contains(path) ==> !has_path(
                plan_of(local, remote, flags).to_fetch,
                path,
            ) && !has_path(plan_of(local, remote, flags).unchanged, path),
{
    let plan = plan_of(local, remote, flags);
    lemma_stale_paths(local, remote);
    assert forall|i: int| 0 <= i < remote.len() implies (plan.to_fetch.contains(
        #[trigger] remote[i],
    ) <==> flags[i]) && (plan.unchanged.contains(remote[i]) <==> !flags[i]) by {
        lemma_entries_flagged(remote, flags, true, remote[i]);
        lemma_entries_flagged(remote, flags, false, remote[i]);
        if plan.to_fetch.contains(remote[i]) {
            let j = choose|j: int| 0 <= j < remote.len() && #[trigger] remote[j] == remote[i] && flags[j];
            if j < i {
                assert(remote[j].path != remote[i].path);
            } else if i < j {
                assert(remote[i].path != remote[j].path);
            }
        }
        if plan.unchanged.contains(remote[i]) {
            let j = choose|j: int|
                0 <= j < remote.len() && #[trigger] remote[j] == remote[i] && !flags[j];
            if j < i {
                assert(remote[j].path != remote[i].path);
            } else if i < j {
                assert(remote[i].path != remote[j].path);
            }
        }
    }
    assert forall|path: Seq<char>, wanted: bool| has_path(
        entries_flagged(remote, flags, wanted),
        path,
    ) implies exists|i: int| 0 <= i < remote.len() && (#[trigger] remote[i]).path == path && flags[i] == wanted by {
        let picked = entries_flagged(remote, flags, wanted);
        let at = choose|at: int| 0 <= at < picked.len() && picked[at].path == path;
        lemma_entries_flagged(remote, flags, wanted, picked[at]);
        assert(picked.contains(picked[at]));
        let i = choose|i: int|
            0 <= i < remote.len() && #[trigger] remote[i] == picked[at] && flags[i] == wanted;
        assert(remote[i].path == path);
    }
    assert forall|path: Seq<char>| !(has_path(plan.to_fetch, path) && has_path(
        plan.unchanged,
        path,
    )) by {
        if has_path(plan.to_fetch, path) && has_path(plan.unchanged, path) {
            let i = choose|i: int| 0 <= i < remote.len() && (#[trigger] remote[i]).path == path && flags[i] == true;
            let j = choose|j: int| 0 <= j < remote.len() && (#[trigger] remote[j]).path == path && flags[j] == false;
            if i < j {
                assert(remote[i].path != remote[j].path);
            } else if j < i {
                assert(remote[j].path != remote[i].path);
            }
        }
    }
    assert forall|path: Seq<char>| #[trigger] plan.to_remove.contains(path) implies !has_path(
        plan.to_fetch,
        path,
    ) && !has_path(plan.unchanged, path) by {
        assert(!has_path(remote, path));
        if has_path(plan.to_fetch, path) {
            let i = choose|i: int| 0 <= i < remote.len() && (#[trigger] remote[i]).path == path && flags[i] == true;
            assert(has_path(remote, path));
        }
        if has_path(plan.unchanged, path) {
            let i = choose|i: int| 0 <= i < remote.len() && (#[trigger] remote[i]).path == path && flags[i] == false;
            assert(has_path(remote, path));
        }
    }
}

/// Picks the entries of `files` whose flag is `wanted`.
pub(crate) fn pick_entries(files: &Vec<FileEntry>, flags: &Vec<bool>, wanted: bool) -> (picked: Vec<
    FileEntry,
>)
    requires
        flags.len() == files.len(),
    ensures
        entry_views(picked@) == entries_flagged(entry_views(files@), flags@, wanted),
{
    let ghost given = entry_views(files@);
    let mut picked: Vec<FileEntry> = Vec::new();
    let mut next: usize = 0;
    while next < files.len()
        invariant
            next <= files.len(),
            flags.len() == files.len(),
            given == entry_views(files@),
            entry_views(picked@) == entries_flagged(given.take(next as int), flags@, wanted),
        decreases files.len() - next,
    {
        proof {
            let upto = given.take(next + 1);
            assert(upto.drop_last() =~= given.take(next as int));
            assert(upto.last() == files[next as int]@);
        }
        if flags[next] == wanted {
            picked.push(files[next].clone());
            assert(entry_views(picked@) =~= entries_flagged(
                given.take(next as int),
                flags@,
                wanted,
            ).push(files[next as int]@));
        }
        next = next + 1;
    }
    assert(given.take(files.len() as int) =~= given);
    picked
}

/// Copies a list of strings.
pub fn copy_texts(texts: &Vec<String>) -> (copy: Vec<String>)
    ensures
        text_views(copy@) == text_views(texts@),
{
    let mut copy: Vec<String> = Vec::new();
    let mut next: usize = 0;
    while next < texts.len()
        invariant
            next <= texts.len(),
            copy@ == texts@.take(next as int),
        decreases texts.len() - next,
    {
        copy.push(texts[next].clone());
        assert(copy@ =~= texts@.take(next + 1));
        next = next + 1;
    }
    assert(texts@.take(texts.len() as int) =~= texts@);
    copy
}

} // verus!

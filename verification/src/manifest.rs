//! The manifest: a versioned description of a complete file set.

use vstd::prelude::*;
use crate::text::chars_of;

verus! {

/// One file of a manifest: where it lives, what it must hash to, and where to
/// fetch it from.
#[derive(Debug, PartialEq, Eq)]
pub struct FileEntry {
    /// Path below the installation root, with `/` between segments.
    pub path: String,
    /// Lowercase hex SHA-1 of the content. The only test of correctness.
    pub sha1: String,
    /// Declared length in bytes. Advisory: never consulted to accept a file.
    pub size: u64,
    /// Absolute location of the file's bytes.
    pub url: String,
}

/// What a `FileEntry` means.
pub struct FileEntryView {
    pub path: Seq<char>,
    pub sha1: Seq<char>,
    pub size: u64,
    pub url: Seq<char>,
}

impl View for FileEntry {
    type V = FileEntryView;

    open spec fn view(&self) -> FileEntryView {
        FileEntryView { path: self.path@, sha1: self.sha1@, size: self.size, url: self.url@ }
    }
}

impl Clone for FileEntry {
    fn clone(&self) -> (copy: Self)
        ensures
            copy == *self,
    {
        FileEntry {
            path: self.path.clone(),
            sha1: self.sha1.clone(),
            size: self.size,
            url: self.url.clone(),
        }
    }
}

/// The meanings of a sequence of entries, in order.
pub open spec fn entry_views(files: Seq<FileEntry>) -> Seq<FileEntryView> {
    files.map_values(|entry: FileEntry| entry@)
}

/// Whether a segment `..` starts at position `at` of `path`.
pub open spec fn parent_segment_at(path: Seq<char>, at: int) -> bool {
    &&& 0 <= at
    &&& at + 2 <= path.len()
    &&& path[at] == '.'
    &&& path[at + 1] == '.'
    &&& (at == 0 || path[at - 1] == '/')
    &&& (at + 2 == path.len() || path[at + 2] == '/')
}

/// A path that stays below the root it is joined to: it does not start at the
/// file system's root and none of its segments is `..`.
pub open spec fn is_safe_path(path: Seq<char>) -> bool {
    &&& (path.len() > 0 ==> path[0] != '/')
    &&& forall|at: int| !parent_segment_at(path, at)
}

/// Whether some entry of `files` has the path `path`.
pub open spec fn has_path(files: Seq<FileEntryView>, path: Seq<char>) -> bool {
    exists|i: int| 0 <= i < files.len() && #[trigger] files[i].path == path
}

/// No two entries share a path.
pub open spec fn paths_unique(files: Seq<FileEntryView>) -> bool {
    forall|i: int, j: int|
        0 <= i < j < files.len() ==> #[trigger] files[i].path != #[trigger] files[j].path
}

/// Every entry's path is safe.
pub open spec fn paths_safe(files: Seq<FileEntryView>) -> bool {
    forall|i: int| 0 <= i < files.len() ==> is_safe_path(#[trigger] files[i].path)
}

/// `files` without the entries whose path already occurred earlier: of
/// entries that share a path, the first one stays.
pub open spec fn first_occurrences(files: Seq<FileEntryView>) -> Seq<FileEntryView>
    decreases files.len(),
{
    if files.len() == 0 {
        Seq::empty()
    } else if has_path(files.drop_last(), files.last().path) {
        first_occurrences(files.drop_last())
    } else {
        first_occurrences(files.drop_last()).push(files.last())
    }
}

/// What a `Manifest` means.
pub struct ManifestView {
    pub version: Seq<char>,
    pub files: Seq<FileEntryView>,
}

/// The invariant of every manifest: distinct, safe paths.
pub open spec fn manifest_wf(manifest: ManifestView) -> bool {
    &&& paths_unique(manifest.files)
    &&& paths_safe(manifest.files)
}

/// A versioned file set. Paths within one manifest are distinct and safe.
#[derive(Debug, PartialEq, Eq)]
pub struct Manifest {
    version: String,
    files: Vec<FileEntry>,
}

impl View for Manifest {
    type V = ManifestView;

    closed spec fn view(&self) -> ManifestView {
        ManifestView { version: self.version@, files: entry_views(self.files@) }
    }
}

/// The entries of `first_occurrences(files)` are entries of `files`, their
/// paths are distinct, and every path of `files` is still there.
pub proof fn lemma_first_occurrences(files: Seq<FileEntryView>)
    ensures
        paths_unique(first_occurrences(files)),
        forall|path: Seq<char>|
            has_path(first_occurrences(files), path) <==> has_path(files, path),
        forall|i: int|
            0 <= i < first_occurrences(files).len() ==> files.contains(
                #[trigger] first_occurrences(files)[i],
            ),
        paths_unique(files) ==> first_occurrences(files) == files,
    decreases files.len(),
{
    let kept = first_occurrences(files);
    if files.len() > 0 {
        let init = files.drop_last();
        let last = files.last();
        let before = first_occurrences(init);
        lemma_first_occurrences(init);
        assert forall|path: Seq<char>| has_path(kept, path) <==> has_path(files, path) by {
            if has_path(files, path) {
                let i = choose|i: int| 0 <= i < files.len() && files[i].path == path;
                if i < init.len() {
                    assert(init[i].path == path);
                    assert(has_path(init, path));
                    assert(has_path(before, path));
                    let j = choose|j: int| 0 <= j < before.len() && before[j].path == path;
                    assert(kept[j].path == path);
                } else {
                    assert(path == last.path);
                    if has_path(init, last.path) {
                        assert(has_path(init, path));
                        assert(has_path(before, path));
                        let j = choose|j: int| 0 <= j < before.len() && before[j].path == path;
                        assert(kept[j].path == path);
                    } else {
                        assert(kept[kept.len() - 1].path == path);
                    }
                }
            }
            if has_path(kept, path) {
                let j = choose|j: int| 0 <= j < kept.len() && kept[j].path == path;
                if j < before.len() {
                    assert(before[j].path == path);
                    assert(has_path(init, path));
                    let i = choose|i: int| 0 <= i < init.len() && init[i].path == path;
                    assert(files[i].path == path);
                } else {
                    assert(files[files.len() - 1].path == path);
                }
            }
        }
        assert forall|i: int| 0 <= i < kept.len() implies files.contains(#[trigger] kept[i]) by {
            if i < before.len() {
                assert(init.contains(before[i]));
                let k = choose|k: int| 0 <= k < init.len() && init[k] == before[i];
                assert(files[k] == kept[i]);
            } else {
                assert(files[files.len() - 1] == kept[i]);
            }
        }
        assert forall|i: int, j: int| 0 <= i < j < kept.len() implies kept[i].path
            != kept[j].path by {
            if j == before.len() {
                assert(before[i].path == kept[i].path);
                assert(has_path(before, kept[i].path));
            }
        }
        if paths_unique(files) {
            assert(paths_unique(init)) by {
                assert forall|i: int, j: int| 0 <= i < j < init.len() implies init[i].path
                    != init[j].path by {
                    assert(files[i].path != files[j].path);
                }
            }
            if has_path(init, last.path) {
                let i = choose|i: int| 0 <= i < init.len() && init[i].path == last.path;
                assert(files[i].path != files[files.len() - 1].path);
            }
            assert(kept =~= files);
        }
    } else {
        assert(kept =~= files);
    }
}

/// Whether `path` stays below the root it is joined to.
pub fn path_is_safe(path: &str) -> (safe: bool)
    ensures
        safe == is_safe_path(path@),
{
    let chars = chars_of(path);
    let len = chars.len();
    if len > 0 && chars[0] == '/' {
        return false;
    }
    let mut at: usize = 0;
    while at < len
        invariant
            len == chars.len(),
            chars@ == path@,
            at <= len,
            forall|earlier: int| 0 <= earlier < at ==> !parent_segment_at(path@, earlier),
        decreases len - at,
    {
        if len - at >= 2 && chars[at] == '.' && chars[at + 1] == '.' && (at == 0 || chars[at - 1]
            == '/') && (at + 2 == len || chars[at + 2] == '/') {
            assert(parent_segment_at(path@, at as int));
            return false;
        }
        at = at + 1;
    }
    true
}

impl Manifest {
    /// Builds a manifest from its parts.
    ///
    /// Returns `None` exactly when some entry's path is not safe. Of entries
    /// that share a path only the first is kept.
    pub fn new(version: String, files: Vec<FileEntry>) -> (made: Option<Manifest>)
        ensures
            made is Some <==> paths_safe(entry_views(files@)),
            made matches Some(manifest) ==> {
                &&& manifest@.version == version@
                &&& manifest@.files == first_occurrences(entry_views(files@))
                &&& manifest_wf(manifest@)
            },
    {
        let ghost given = entry_views(files@);
        let mut kept: Vec<FileEntry> = Vec::new();
        let mut next: usize = 0;
        while next < files.len()
            invariant
                next <= files.len(),
                given == entry_views(files@),
                entry_views(kept@) == first_occurrences(given.take(next as int)),
                paths_safe(given.take(next as int)),
            decreases files.len() - next,
        {
            let entry = &files[next];
            proof {
                let upto = given.take(next + 1);
                assert(upto.drop_last() =~= given.take(next as int));
                assert(upto.last() == entry@);
                lemma_first_occurrences(given.take(next as int));
            }
            if !path_is_safe(entry.path.as_str()) {
                assert(!is_safe_path(given[next as int].path));
                return None;
            }
            let seen = contains_path(&kept, &entry.path);
            if !seen {
                kept.push(entry.clone());
                assert(entry_views(kept@) =~= first_occurrences(given.take(next as int)).push(
                    entry@,
                ));
            }
            assert(paths_safe(given.take(next + 1))) by {
                assert forall|i: int| 0 <= i < next + 1 implies is_safe_path(
                    #[trigger] given.take(next + 1)[i].path,
                ) by {
                    if i < next {
                        assert(given.take(next as int)[i].path == given.take(next + 1)[i].path);
                    }
                }
            }
            next = next + 1;
        }
        proof {
            assert(given.take(files.len() as int) =~= given);
            lemma_first_occurrences(given);
            let result = first_occurrences(given);
            assert forall|i: int| 0 <= i < result.len() implies is_safe_path(
                #[trigger] result[i].path,
            ) by {
                assert(given.contains(result[i]));
                let k = choose|k: int| 0 <= k < given.len() && given[k] == result[i];
                assert(is_safe_path(given[k].path));
            }
        }
        Some(Manifest { version, files: kept })
    }

    /// A manifest with no files.
    pub fn empty(version: String) -> (made: Manifest)
        ensures
            made@.version == version@,
            made@.files == Seq::<FileEntryView>::empty(),
    {
        let made = Manifest { version, files: Vec::new() };
        assert(made@.files =~= Seq::<FileEntryView>::empty());
        made
    }

    /// The version identifier.
    pub fn version(&self) -> (version: &String)
        ensures
            version@ == self@.version,
    {
        &self.version
    }

    /// The entries, in the manifest's order.
    pub fn files(&self) -> (files: &Vec<FileEntry>)
        ensures
            entry_views(files@) == self@.files,
            manifest_wf(self@),
    {
        proof {
            use_type_invariant(self);
        }
        &self.files
    }

    /// The number of entries.
    pub fn len(&self) -> (count: usize)
        ensures
            count == self@.files.len(),
            manifest_wf(self@),
    {
        proof {
            use_type_invariant(self);
        }
        self.files.len()
    }

    /// Whether some entry has the path `path`.
    pub fn contains_path(&self, path: &String) -> (found: bool)
        ensures
            found == has_path(self@.files, path@),
    {
        contains_path(&self.files, path)
    }

    #[verifier::type_invariant]
    spec fn well_formed(self) -> bool {
        manifest_wf(self@)
    }
}

impl Clone for Manifest {
    fn clone(&self) -> (copy: Self)
        ensures
            copy@ == self@,
    {
        proof {
            use_type_invariant(self);
        }
        let mut files: Vec<FileEntry> = Vec::new();
        let mut next: usize = 0;
        while next < self.files.len()
            invariant
                next <= self.files.len(),
                files@ == self.files@.take(next as int),
            decreases self.files.len() - next,
        {
            files.push(self.files[next].clone());
            assert(files@ =~= self.files@.take(next + 1));
            next = next + 1;
        }
        assert(files@ =~= self.files@);
        Manifest { version: self.version.clone(), files }
    }
}

/// Whether some entry of `files` has the path `path`.
pub fn contains_path(files: &Vec<FileEntry>, path: &String) -> (found: bool)
    ensures
        found == has_path(entry_views(files@), path@),
{
    let mut at: usize = 0;
    while at < files.len()
        invariant
            at <= files.len(),
            forall|i: int| 0 <= i < at ==> entry_views(files@)[i].path != path@,
        decreases files.len() - at,
    {
        if files[at].path == *path {
            assert(entry_views(files@)[at as int].path == path@);
            return true;
        }
        at = at + 1;
    }
    false
}

} // verus!

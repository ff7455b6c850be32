//! The launcher's directory layout below a root directory.

use vstd::prelude::*;
use vstd::string::StringExecFns;
use crate::text::chars_of;

verus! {

/// `segment` below `base`: the two joined by one `/`. An empty base gives the
/// segment alone, and a base that already ends in `/` gets no second one.
pub open spec fn join_path(base: Seq<char>, segment: Seq<char>) -> Seq<char> {
    if base.len() == 0 {
        segment
    } else if base.last() == '/' {
        base + segment
    } else {
        base + seq!['/'] + segment
    }
}

/// Joins `segment` to `base`.
pub fn join(base: &String, segment: &str) -> (joined: String)
    ensures
        joined@ == join_path(base@, segment@),
{
    let chars = chars_of(base.as_str());
    if chars.len() == 0 {
        String::from_str(segment)
    } else {
        let mut joined = base.clone();
        if chars[chars.len() - 1] != '/' {
            joined.push('/');
        }
        joined.append(segment);
        joined
    }
}

/// Whether `ch` is white space, as Unicode's `White_Space` property has it.
pub open spec fn is_white_space(ch: char) -> bool {
    let code = ch as u32;
    ||| 0x09 <= code <= 0x0d
    ||| code == 0x20
    ||| code == 0x85
    ||| code == 0xa0
    ||| code == 0x1680
    ||| 0x2000 <= code <= 0x200a
    ||| code == 0x2028
    ||| code == 0x2029
    ||| code == 0x202f
    ||| code == 0x205f
    ||| code == 0x3000
}

/// Whether `text` holds nothing but white space.
pub open spec fn is_blank(text: Seq<char>) -> bool {
    forall|i: int| 0 <= i < text.len() ==> is_white_space(#[trigger] text[i])
}

fn white_space(ch: char) -> (white: bool)
    ensures
        white == is_white_space(ch),
{
    let code = ch as u32;
    (0x09 <= code && code <= 0x0d) || code == 0x20 || code == 0x85 || code == 0xa0 || code
        == 0x1680 || (0x2000 <= code && code <= 0x200a) || code == 0x2028 || code == 0x2029
        || code == 0x202f || code == 0x205f || code == 0x3000
}

/// Decides whether `text` holds nothing but white space.
pub fn blank(text: &str) -> (empty: bool)
    ensures
        empty == is_blank(text@),
{
    let chars = chars_of(text);
    let mut at: usize = 0;
    while at < chars.len()
        invariant
            at <= chars.len(),
            chars@ == text@,
            forall|i: int| 0 <= i < at ==> is_white_space(#[trigger] text@[i]),
        decreases chars.len() - at,
    {
        if !white_space(chars[at]) {
            return false;
        }
        at = at + 1;
    }
    true
}

/// The directories of an installation.
#[derive(Debug, PartialEq, Eq)]
pub struct MetaDirectories {
    /// Where the launcher keeps its own settings.
    pub base: String,
    /// The root that everything else lies below.
    pub root_dir: String,
    pub meta: String,
    pub libraries: String,
    pub assets: String,
    pub versions: String,
    pub java_versions: String,
    pub caches: String,
    pub icons: String,
    pub screenshots: String,
    pub instances: String,
    pub default_instance: String,
}

/// What a `MetaDirectories` means.
pub struct LayoutView {
    pub base: Seq<char>,
    pub root_dir: Seq<char>,
    pub meta: Seq<char>,
    pub libraries: Seq<char>,
    pub assets: Seq<char>,
    pub versions: Seq<char>,
    pub java_versions: Seq<char>,
    pub caches: Seq<char>,
    pub icons: Seq<char>,
    pub screenshots: Seq<char>,
    pub instances: Seq<char>,
    pub default_instance: Seq<char>,
}

impl View for MetaDirectories {
    type V = LayoutView;

    open spec fn view(&self) -> LayoutView {
        LayoutView {
            base: self.base@,
            root_dir: self.root_dir@,
            meta: self.meta@,
            libraries: self.libraries@,
            assets: self.assets@,
            versions: self.versions@,
            java_versions: self.java_versions@,
            caches: self.caches@,
            icons: self.icons@,
            screenshots: self.screenshots@,
            instances: self.instances@,
            default_instance: self.default_instance@,
        }
    }
}

/// The layout below `root`, for a launcher whose own directory is `base`.
pub open spec fn layout(base: Seq<char>, root: Seq<char>) -> LayoutView {
    let meta = join_path(root, "meta"@);
    let caches = join_path(root, "caches"@);
    let instances = join_path(root, "instances"@);
    LayoutView {
        base,
        root_dir: root,
        meta,
        libraries: join_path(meta, "libraries"@),
        assets: join_path(meta, "assets"@),
        versions: join_path(meta, "versions"@),
        java_versions: join_path(meta, "java_versions"@),
        caches,
        icons: join_path(caches, "icons"@),
        screenshots: join_path(caches, "screenshots"@),
        instances,
        default_instance: join_path(instances, "MetaInstance"@),
    }
}

/// The root to use: the configured one if it is there and not blank, else the
/// launcher's own directory.
pub open spec fn chosen_root(base: Seq<char>, configured: Option<Seq<char>>) -> Seq<char> {
    match configured {
        Some(path) if !is_blank(path) => path,
        _ => base,
    }
}

/// The directories that must exist, in the order in which they are created.
pub open spec fn required_directories(dirs: LayoutView) -> Seq<Seq<char>> {
    seq![
        dirs.base,
        dirs.meta,
        dirs.libraries,
        dirs.assets,
        dirs.versions,
        dirs.java_versions,
        dirs.caches,
        dirs.icons,
        dirs.screenshots,
        join_path(dirs.default_instance, "mods"@),
        join_path(dirs.default_instance, "config"@),
        join_path(dirs.default_instance, "saves"@),
    ]
}

impl MetaDirectories {
    /// The layout for a launcher whose own directory is `base` and whose
    /// settings name the root `configured`, if they name one.
    pub fn new(base: String, configured: Option<String>) -> (dirs: MetaDirectories)
        ensures
            dirs@ == layout(
                base@,
                chosen_root(
                    base@,
                    match configured {
                        Some(path) => Some(path@),
                        None => None,
                    },
                ),
            ),
    {
        let root = match configured {
            Some(path) => {
                if blank(path.as_str()) {
                    base.clone()
                } else {
                    path
                }
            },
            None => base.clone(),
        };
        MetaDirectories::below(base, root)
    }

    fn below(base: String, root: String) -> (dirs: MetaDirectories)
        ensures
            dirs@ == layout(base@, root@),
    {
        let meta = join(&root, "meta");
        let caches = join(&root, "caches");
        let instances = join(&root, "instances");
        let libraries = join(&meta, "libraries");
        let assets = join(&meta, "assets");
        let versions = join(&meta, "versions");
        let java_versions = join(&meta, "java_versions");
        let icons = join(&caches, "icons");
        let screenshots = join(&caches, "screenshots");
        let default_instance = join(&instances, "MetaInstance");
        MetaDirectories {
            base,
            root_dir: root,
            meta,
            libraries,
            assets,
            versions,
            java_versions,
            caches,
            icons,
            screenshots,
            instances,
            default_instance,
        }
    }

    /// The directories that must exist, in the order in which to create them.
    pub fn ensure(&self) -> (wanted: Vec<String>)
        ensures
            crate::plan::text_views(wanted@) == required_directories(self@),
    {
        let mut wanted: Vec<String> = Vec::new();
        wanted.push(self.base.clone());
        wanted.push(self.meta.clone());
        wanted.push(self.libraries.clone());
        wanted.push(self.assets.clone());
        wanted.push(self.versions.clone());
        wanted.push(self.java_versions.clone());
        wanted.push(self.caches.clone());
        wanted.push(self.icons.clone());
        wanted.push(self.screenshots.clone());
        wanted.push(join(&self.default_instance, "mods"));
        wanted.push(join(&self.default_instance, "config"));
        wanted.push(join(&self.default_instance, "saves"));
        wanted
    }

    /// Moves the installation below `new_root`. The launcher's own directory
    /// stays where it is.
    pub fn set_root_dir(&mut self, new_root: String)
        ensures
            final(self)@ == layout(old(self)@.base, new_root@),
    {
        let base = self.base.clone();
        *self = MetaDirectories::below(base, new_root);
    }

    /// The root that everything else lies below.
    pub fn get_root_dir(&self) -> (root: &String)
        ensures
            root@ == self@.root_dir,
    {
        &self.root_dir
    }

    /// Where the launcher's settings are kept.
    pub fn settings_path(&self) -> (path: String)
        ensures
            path@ == join_path(self@.base, "settings.json"@),
    {
        join(&self.base, "settings.json")
    }
}

} // verus!

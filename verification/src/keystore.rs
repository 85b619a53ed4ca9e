//! The default key and the configuration directories.
//!
//! The client keeps its files under the user's home directory: a
//! configuration root, below it the product's own directory, and below that
//! one directory for keys and one for servers. The caller probes and creates
//! directories; which ones to create, and in what order, is decided here.

use vstd::prelude::*;
use crate::error::ClientError;

verus! {

/// The symmetric secret under which identities and bundles are encrypted.
/// A key is never empty. It has no `Debug` form, so that it cannot reach a
/// log by accident.
pub struct Key {
    material: String,
}

impl View for Key {
    type V = Seq<char>;

    closed spec fn view(&self) -> Seq<char> {
        self.material@
    }
}

impl Key {
    #[verifier::type_invariant]
    spec fn well_formed(self) -> bool {
        self.material@.len() > 0
    }

    /// The key material, for the cipher and for the send request.
    pub fn expose(&self) -> (material: &str)
        ensures
            material@ == self@,
            material@.len() > 0,
    {
        proof {
            use_type_invariant(self);
        }
        self.material.as_str()
    }
}

/// The default key, from what the key file holds. `stored` is `None` where
/// no default key exists or its file could not be read. An empty key is
/// refused like a missing one.
pub fn get_default_key(stored: Option<String>) -> (r: Result<Key, ClientError>)
    ensures
        match stored {
            Some(material) if material@.len() > 0 => (r matches Ok(key) && key@ == material@),
            _ => r == Err::<Key, ClientError>(ClientError::MissingKey),
        },
{
    match stored {
        Some(material) => {
            if material.as_str().is_empty() {
                Err(ClientError::MissingKey)
            } else {
                Ok(Key { material })
            }
        },
        None => Err(ClientError::MissingKey),
    }
}

/// One of the client's configuration directories.
#[derive(Debug, Clone, Copy, PartialEq, Eq, Structural)]
pub enum ConfigDir {
    /// The configuration root, directly below the home directory.
    Root,
    /// The product's own directory, below the root.
    Namespace,
    /// The directory of keys, below the product's directory.
    Keys,
    /// The directory of servers, below the product's directory.
    Servers,
}

/// The directory that must exist before `dir` can be created, if any.
pub open spec fn parent_of(dir: ConfigDir) -> Option<ConfigDir> {
    match dir {
        ConfigDir::Root => None,
        ConfigDir::Namespace => Some(ConfigDir::Root),
        ConfigDir::Keys => Some(ConfigDir::Namespace),
        ConfigDir::Servers => Some(ConfigDir::Namespace),
    }
}

/// The names that lead from the home directory to `dir`.
pub open spec fn segments_of(dir: ConfigDir) -> Seq<Seq<char>> {
    match dir {
        ConfigDir::Root => seq![".config"@],
        ConfigDir::Namespace => seq![".config"@, "libquartz"@],
        ConfigDir::Keys => seq![".config"@, "libquartz"@, "keys"@],
        ConfigDir::Servers => seq![".config"@, "libquartz"@, "servers"@],
    }
}

impl ConfigDir {
    /// The directory's path below the home directory, one name per level.
    pub fn segments(self) -> (names: Vec<&'static str>)
        ensures
            names.deep_view() == segments_of(self),
    {
        let mut names: Vec<&'static str> = Vec::new();
        names.push(".config");
        match self {
            ConfigDir::Root => {},
            ConfigDir::Namespace => {
                names.push("libquartz");
            },
            ConfigDir::Keys => {
                names.push("libquartz");
                names.push("keys");
            },
            ConfigDir::Servers => {
                names.push("libquartz");
                names.push("servers");
            },
        }
        names
    }
}

/// Which of the configuration directories exist.
#[derive(Debug, Clone, Copy, PartialEq, Eq, Structural)]
pub struct Layout {
    pub root: bool,
    pub namespace: bool,
    pub keys: bool,
    pub servers: bool,
}

impl Layout {
    /// Whether `dir` exists.
    pub open spec fn has(self, dir: ConfigDir) -> bool {
        match dir {
            ConfigDir::Root => self.root,
            ConfigDir::Namespace => self.namespace,
            ConfigDir::Keys => self.keys,
            ConfigDir::Servers => self.servers,
        }
    }

    /// Whether every directory exists.
    pub open spec fn complete(self) -> bool {
        self.root && self.namespace && self.keys && self.servers
    }

    /// The layout once every directory of `dirs` has been created.
    pub open spec fn with_all(self, dirs: Seq<ConfigDir>) -> Layout
        decreases dirs.len(),
    {
        if dirs.len() == 0 {
            self
        } else {
            let before = self.with_all(dirs.drop_last());
            match dirs.last() {
                ConfigDir::Root => Layout { root: true, ..before },
                ConfigDir::Namespace => Layout { namespace: true, ..before },
                ConfigDir::Keys => Layout { keys: true, ..before },
                ConfigDir::Servers => Layout { servers: true, ..before },
            }
        }
    }
}

/// `dir` alone where it is missing from `layout`, nothing where it exists.
pub open spec fn if_missing(layout: Layout, dir: ConfigDir) -> Seq<ConfigDir> {
    if layout.has(dir) {
        Seq::empty()
    } else {
        seq![dir]
    }
}

/// The missing directories of `layout`, each after its parent.
pub open spec fn missing_dirs(layout: Layout) -> Seq<ConfigDir> {
    if_missing(layout, ConfigDir::Root) + if_missing(layout, ConfigDir::Namespace) + if_missing(
        layout,
        ConfigDir::Keys,
    ) + if_missing(layout, ConfigDir::Servers)
}

/// The directories to create, in the order to create them, so that the whole
/// layout exists. Nothing is left to create where the layout is complete, so
/// the step is safe to repeat.
pub fn ensure_layout(layout: Layout) -> (dirs: Vec<ConfigDir>)
    ensures
        dirs@ == missing_dirs(layout),
{
    let mut dirs: Vec<ConfigDir> = Vec::new();
    if !layout.root {
        dirs.push(ConfigDir::Root);
    }
    if !layout.namespace {
        dirs.push(ConfigDir::Namespace);
    }
    if !layout.keys {
        dirs.push(ConfigDir::Keys);
    }
    if !layout.servers {
        dirs.push(ConfigDir::Servers);
    }
    dirs
}

/// The plan lists exactly the missing directories, once each.
pub proof fn lemma_plan_lists_the_missing(layout: Layout, dir: ConfigDir)
    ensures
        missing_dirs(layout).contains(dir) <==> !layout.has(dir),
        forall|i: int, j: int|
            0 <= i < j < missing_dirs(layout).len() ==> missing_dirs(layout)[i] != missing_dirs(
                layout,
            )[j],
{
    let plan = missing_dirs(layout);
    if !layout.has(dir) {
        let before: int = match dir {
            ConfigDir::Root => 0,
            ConfigDir::Namespace => if_missing(layout, ConfigDir::Root).len() as int,
            ConfigDir::Keys => (if_missing(layout, ConfigDir::Root) + if_missing(
                layout,
                ConfigDir::Namespace,
            )).len() as int,
            ConfigDir::Servers => plan.len() - 1,
        };
        assert(plan[before] == dir);
    }
}

/// In the plan a directory never comes before its parent: where both are
/// missing, the parent is created first.
pub proof fn lemma_parents_come_first(layout: Layout, i: int)
    requires
        0 <= i < missing_dirs(layout).len(),
    ensures
        match parent_of(missing_dirs(layout)[i]) {
            Some(parent) => layout.has(parent) || exists|j: int|
                0 <= j < i && missing_dirs(layout)[j] == parent,
            None => true,
        },
{
    let plan = missing_dirs(layout);
    match parent_of(plan[i]) {
        Some(parent) => {
            if !layout.has(parent) {
                if parent == ConfigDir::Root {
                    assert(plan[0] == parent);
                } else {
                    let j: int = if layout.root { 0 } else { 1 };
                    assert(plan[j] == parent);
                }
            }
        },
        None => {},
    }
}

/// Carrying the plan out completes the layout, and the plan for a complete
/// layout is empty: ensuring the layout twice creates nothing the second
/// time.
pub proof fn lemma_ensure_layout_is_idempotent(layout: Layout)
    ensures
        layout.with_all(missing_dirs(layout)).complete(),
        missing_dirs(layout.with_all(missing_dirs(layout))) == Seq::<ConfigDir>::empty(),
        layout.complete() <==> missing_dirs(layout).len() == 0,
{
    let plan = missing_dirs(layout);
    lemma_with_all_sets(layout, plan);
    assert forall|dir: ConfigDir| layout.with_all(plan).has(dir) by {
        lemma_plan_lists_the_missing(layout, dir);
    }
    let done = layout.with_all(plan);
    assert(done.has(ConfigDir::Root) && done.has(ConfigDir::Namespace) && done.has(ConfigDir::Keys)
        && done.has(ConfigDir::Servers));
}

/// After creating `dirs`, a directory exists if it did before or is one of
/// `dirs`.
proof fn lemma_with_all_sets(layout: Layout, dirs: Seq<ConfigDir>)
    ensures
        forall|dir: ConfigDir| #[trigger]
            layout.with_all(dirs).has(dir) <==> layout.has(dir) || dirs.contains(dir),
    decreases dirs.len(),
{
    if dirs.len() > 0 {
        lemma_with_all_sets(layout, dirs.drop_last());
        assert forall|dir: ConfigDir| #[trigger]
            layout.with_all(dirs).has(dir) <==> layout.has(dir) || dirs.contains(dir) by {
            let before = layout.with_all(dirs.drop_last());
            assert(before.has(dir) <==> layout.has(dir) || dirs.drop_last().contains(dir));
            if dirs.contains(dir) && dirs.last() != dir {
                let k = choose|k: int| 0 <= k < dirs.len() && dirs[k] == dir;
                assert(dirs.drop_last()[k] == dir);
            }
        }
    }
}

} // verus!

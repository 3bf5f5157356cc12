//! Asset management for the engine.
//!
//! Provides an [`Asset`] trait for loadable resources, an [`AssetRegistry`]
//! that stores loaded assets indexed by both path and numeric handle
//! ([`AssetId`]), and the path bookkeeping that hot-reloading builds on.
//! Paths are handled as strings.

use std::io;

use vstd::prelude::*;

use crate::io_support::io_error_text;
use crate::project::string_views;
use crate::text::{str_equal, string_from};

verus! {

// ──────────────────────────────────────────────
// Errors
// ──────────────────────────────────────────────

/// Errors that can occur during asset operations.
#[derive(Debug)]
pub enum AssetError {
    /// An I/O error reading or writing asset files.
    Io(io::Error),
    /// The asset failed to parse or load from its source file.
    Load(String),
    /// No asset found at the given path.
    NotFound(String),
    /// The file watcher encountered an error.
    Watcher(String),
}

impl AssetError {
    /// Human-readable message for this error.
    pub fn to_string(&self) -> (s: String)
        ensures
            match self {
                AssetError::Io(_) => s@.len() >= 17 && s@.subrange(0, 17) == "asset I/O error: "@,
                AssetError::Load(m) => s@ == "asset load failed: "@ + m@,
                AssetError::NotFound(p) => s@ == "asset not found: "@ + p@,
                AssetError::Watcher(m) => s@ == "asset watcher error: "@ + m@,
            },
    {
        let mut s = String::new();
        match self {
            AssetError::Io(e) => {
                s.append("asset I/O error: ");
                let ghost prefix = s@;
                let t = io_error_text(e);
                s.append(t.as_str());
                proof {
                    reveal_strlit("asset I/O error: ");
                    assert(s@.subrange(0, 17) =~= prefix);
                }
            },
            AssetError::Load(m) => {
                s.append("asset load failed: ");
                s.append(m.as_str());
            },
            AssetError::NotFound(p) => {
                s.append("asset not found: ");
                s.append(p.as_str());
            },
            AssetError::Watcher(m) => {
                s.append("asset watcher error: ");
                s.append(m.as_str());
            },
        }
        s
    }
}

impl From<io::Error> for AssetError {
    fn from(e: io::Error) -> (r: Self) {
        AssetError::Io(e)
    }
}

impl vstd::std_specs::convert::FromSpecImpl<io::Error> for AssetError {
    open spec fn obeys_from_spec() -> bool {
        true
    }

    open spec fn from_spec(v: io::Error) -> Self {
        AssetError::Io(v)
    }
}

// ──────────────────────────────────────────────
// Asset Trait
// ──────────────────────────────────────────────

/// A loadable asset type.
///
/// Implementors define how to read themselves from disk and how to reload
/// when the source file changes (e.g. during hot-reload).
pub trait Asset: Sized {
    /// Whether `r` is an outcome of reading the file at `path`: what each
    /// asset type means by loading it from there. A type that does not say
    /// accepts every outcome.
    open spec fn loaded(path: Seq<char>, r: Result<Self, AssetError>) -> bool {
        true
    }

    /// Load the asset from the file at `path`.
    fn load(path: &str) -> (r: Result<Self, AssetError>)
        ensures
            Self::loaded(path@, r),
    ;

    /// Reload the asset in-place from the file at `path`: on success the
    /// asset is what reading `path` gave; on failure the error is one that
    /// reading `path` gave.
    ///
    /// The default implementation re-reads via [`Asset::load`] and
    /// overwrites `self`; on failure `self` is left unchanged.
    fn reload(&mut self, path: &str) -> (r: Result<(), AssetError>)
        ensures
            r is Ok ==> Self::loaded(path@, Ok(*final(self))),
            r matches Err(e) ==> Self::loaded(path@, Err(e)),
    {
        replace_with_loaded(self, Self::load(path))
    }
}

/// Put the outcome of a fresh load in place of `target`: a loaded value
/// replaces it, an error leaves it as it was and is passed on.
pub fn replace_with_loaded<A>(target: &mut A, loaded: Result<A, AssetError>) -> (r: Result<(), AssetError>)
    ensures
        match loaded {
            Ok(v) => r is Ok && *final(target) == v,
            Err(e) => r == Err::<(), AssetError>(e) && *final(target) == *old(target),
        },
{
    match loaded {
        Ok(v) => {
            *target = v;
            Ok(())
        },
        Err(e) => Err(e),
    }
}

// ──────────────────────────────────────────────
// AssetId Handle
// ──────────────────────────────────────────────

/// A lightweight handle that references a loaded asset in the registry.
#[derive(Debug, Clone, Copy, PartialEq, Eq, Structural, Hash)]
pub struct AssetId(pub u64);

/// Hands out asset ids: unique and strictly increasing, starting at 1.
#[derive(Debug)]
pub struct AssetIdCounter {
    next: u64,
}

impl AssetIdCounter {
    /// The id the next call to [`AssetId::next`] returns.
    pub closed spec fn upcoming(&self) -> u64 {
        self.next
    }

    /// A counter whose first id is 1.
    pub fn new() -> (c: Self)
        ensures
            c.upcoming() == 1,
    {
        AssetIdCounter { next: 1 }
    }
}

impl AssetId {
    /// A fresh id, greater than every id this counter handed out before.
    pub fn next(counter: &mut AssetIdCounter) -> (id: Self)
        requires
            old(counter).upcoming() < u64::MAX,
        ensures
            id.0 == old(counter).upcoming(),
            final(counter).upcoming() == old(counter).upcoming() + 1,
    {
        let id = AssetId(counter.next);
        counter.next = counter.next + 1;
        id
    }
}

// ──────────────────────────────────────────────
// Asset Registry
// ──────────────────────────────────────────────

/// The value stored under `id`, if any (first match).
pub open spec fn find_asset<A>(s: Seq<(AssetId, A)>, id: AssetId) -> Option<A>
    decreases s.len(),
{
    if s.len() == 0 {
        None
    } else if s.last().0 == id {
        Some(s.last().1)
    } else {
        find_asset(s.drop_last(), id)
    }
}

/// The id recorded for `path`, if any.
pub open spec fn find_path(s: Seq<(String, AssetId)>, path: Seq<char>) -> Option<AssetId>
    decreases s.len(),
{
    if s.len() == 0 {
        None
    } else if s.last().0@ == path {
        Some(s.last().1)
    } else {
        find_path(s.drop_last(), path)
    }
}

/// A table from paths to asset ids, each path at most once.
#[derive(Debug)]
pub struct PathTable {
    entries: Vec<(String, AssetId)>,
}

impl PathTable {
    /// The id recorded for `path`.
    pub closed spec fn lookup(&self, path: Seq<char>) -> Option<AssetId> {
        find_path(self.entries@, path)
    }

    /// No path is recorded twice.
    pub closed spec fn wf(&self) -> bool {
        paths_unique(self.entries@)
    }

    /// Every recorded id is below `up`.
    pub closed spec fn ids_below(&self, up: u64) -> bool {
        forall|i: int| 0 <= i < self.entries@.len() ==> (#[trigger] self.entries@[i]).1.0 < up
    }

    /// An empty table.
    pub fn new() -> (t: Self)
        ensures
            t.wf(),
            forall|p: Seq<char>| t.lookup(p) is None,
            forall|up: u64| t.ids_below(up),
    {
        PathTable { entries: Vec::new() }
    }

    /// Position of the entry for `path`, if any.
    fn position(&self, path: &str) -> (r: Option<usize>)
        ensures
            match r {
                Some(k) => k < self.entries@.len() && self.entries@[k as int].0@ == path@,
                None => forall|k: int| 0 <= k < self.entries@.len() ==> (#[trigger] self.entries@[k]).0@ != path@,
            },
    {
        let mut i: usize = 0;
        while i < self.entries.len()
            invariant
                i <= self.entries@.len(),
                forall|k: int| 0 <= k < i ==> (#[trigger] self.entries@[k]).0@ != path@,
            decreases self.entries@.len() - i,
        {
            if str_equal(self.entries[i].0.as_str(), path) {
                return Some(i);
            }
            i = i + 1;
        }
        None
    }

    /// The id recorded for `path`, if any.
    pub fn get(&self, path: &str) -> (r: Option<AssetId>)
        requires
            self.wf(),
        ensures
            r == self.lookup(path@),
    {
        match self.position(path) {
            Some(k) => {
                proof {
                    lemma_find_path_at(self.entries@, k as int);
                }
                Some(self.entries[k].1)
            },
            None => {
                proof {
                    lemma_find_path_none(self.entries@, path@);
                }
                None
            },
        }
    }

    /// Drop every path entry that maps to `id`.
    fn remove_id(&mut self, id: AssetId, Ghost(up): Ghost<u64>)
        requires
            old(self).wf(),
        ensures
            final(self).wf(),
            forall|p: Seq<char>| #[trigger] final(self).lookup(p) == without(old(self).lookup(p), id),
            old(self).ids_below(up) ==> final(self).ids_below(up),
    {
        let mut src: Vec<(String, AssetId)> = Vec::new();
        std::mem::swap(&mut src, &mut self.entries);
        let ghost orig = src@;
        let ghost n = orig.len();
        let n0 = src.len();
        let mut kept: Vec<(String, AssetId)> = Vec::new();
        let mut i: usize = 0;
        proof {
            assert(orig.subrange(0, 0) =~= Seq::<(String, AssetId)>::empty());
            assert(orig.subrange(0, n as int) =~= orig);
        }
        while src.len() > 0
            invariant
                n == orig.len(),
                n0 == n,
                i <= n,
                src@ == orig.subrange(i as int, n as int),
                paths_unique(orig),
                paths_unique(kept@),
                forall|j: int| 0 <= j < kept@.len() ==> (#[trigger] kept@[j]).1 != id,
                (forall|j: int| 0 <= j < orig.len() ==> (#[trigger] orig[j]).1.0 < up) ==> (forall|j: int| 0 <= j < kept@.len() ==> (#[trigger] kept@[j]).1.0 < up),
                forall|p: Seq<char>| #[trigger] find_path(kept@, p) == without(find_path(orig.subrange(0, i as int), p), id),
            decreases src@.len(),
        {
            let item = src.remove(0);
            let ghost pre = orig.subrange(0, i as int);
            let ghost post = orig.subrange(0, i + 1);
            proof {
                assert(post.drop_last() =~= pre);
                assert(item == orig[i as int]);
                assert(post.last() == item);
                assert forall|k: int| 0 <= k < pre.len() implies (#[trigger] pre[k]).0@ != item.0@ by {
                    assert(pre[k] == orig[k]);
                }
                lemma_find_path_none(pre, item.0@);
            }
            let ghost kb = kept@;
            if item.1 != id {
                kept.push(item);
                proof {
                    assert(kept@.drop_last() =~= kb);
                    assert forall|a: int, b: int| 0 <= a < b < kept@.len() implies kept@[a].0@ != kept@[b].0@ by {
                        if b == kb.len() {
                            lemma_find_path_member(kb, a);
                            assert(kept@[a] == kb[a]);
                        } else {
                            assert(kept@[a] == kb[a]);
                            assert(kept@[b] == kb[b]);
                        }
                    }
                    assert forall|p: Seq<char>| #[trigger] find_path(kept@, p) == without(find_path(post, p), id) by {
                        assert(kept@.last() == item);
                        if p != item.0@ {
                            assert(find_path(kept@, p) == find_path(kb, p));
                            assert(find_path(post, p) == find_path(pre, p));
                        }
                    }
                }
            } else {
                proof {
                    assert forall|p: Seq<char>| #[trigger] find_path(kept@, p) == without(find_path(post, p), id) by {
                        if p != item.0@ {
                            assert(find_path(post, p) == find_path(pre, p));
                        }
                    }
                }
            }
            i = i + 1;
            proof {
                assert(src@ =~= orig.subrange(i as int, n as int));
            }
        }
        self.entries = kept;
    }

    /// Record `path -> id`, replacing an earlier entry for the same path.
    fn set(&mut self, path: &str, id: AssetId, Ghost(up): Ghost<u64>)
        requires
            old(self).wf(),
        ensures
            final(self).wf(),
            final(self).lookup(path@) == Some(id),
            forall|p: Seq<char>| p != path@ ==> final(self).lookup(p) == old(self).lookup(p),
            old(self).ids_below(up) && id.0 < up ==> final(self).ids_below(up),
    {
        let ghost before = self.entries@;
        match self.position(path) {
            Some(k) => {
                let entry = (string_from(path), id);
                self.entries.set(k, entry);
                proof {
                    lemma_find_path_update(before, k as int, entry);
                    assert(self.entries@ =~= before.update(k as int, entry));
                    lemma_find_path_at(self.entries@, k as int);
                }
            },
            None => {
                self.entries.push((string_from(path), id));
                proof {
                    assert(self.entries@.drop_last() =~= before);
                }
            },
        }
    }
}

/// Stores loaded assets, indexed by both path and numeric handle.
///
/// The registry holds assets of one type `A`; a registry for several asset
/// kinds uses an enum as `A`.
#[derive(Debug)]
pub struct AssetRegistry<A> {
    path_to_id: PathTable,
    assets: Vec<(AssetId, A)>,
    ids: AssetIdCounter,
}

impl<A> AssetRegistry<A> {
    /// The asset stored under `id`.
    pub closed spec fn asset(&self, id: AssetId) -> Option<A> {
        find_asset(self.assets@, id)
    }

    /// The id recorded for `path`.
    pub closed spec fn path_id(&self, path: Seq<char>) -> Option<AssetId> {
        self.path_to_id.lookup(path)
    }

    /// The id of the stored asset that `path` refers to, if any: loading
    /// `path` again reloads that asset.
    pub open spec fn reload_target(&self, path: Seq<char>) -> Option<AssetId> {
        match self.path_id(path) {
            Some(id) => if self.asset(id) is Some { Some(id) } else { None },
            None => None,
        }
    }

    /// Number of stored assets.
    pub closed spec fn count(&self) -> nat {
        self.assets@.len()
    }

    /// The id the next newly loaded asset receives.
    pub closed spec fn upcoming_id(&self) -> u64 {
        self.ids.upcoming()
    }

    /// Internal consistency: ids are unique and below the next id.
    pub closed spec fn wf(&self) -> bool {
        &&& forall|i: int, j: int|
            0 <= i < j < self.assets@.len() ==> self.assets@[i].0 != self.assets@[j].0
        &&& forall|i: int| 0 <= i < self.assets@.len() ==> (#[trigger] self.assets@[i]).0.0 < self.ids.upcoming()
        &&& self.path_to_id.ids_below(self.ids.upcoming())
        &&& self.path_to_id.wf()
        &&& self.ids.upcoming() >= 1
    }

    /// Create an empty registry.
    pub fn new() -> (r: Self)
        ensures
            r.wf(),
            r.count() == 0,
            forall|id: AssetId| r.asset(id) is None,
            forall|p: Seq<char>| r.path_id(p) is None,
            r.upcoming_id() == 1,
    {
        AssetRegistry { path_to_id: PathTable::new(), assets: Vec::new(), ids: AssetIdCounter::new() }
    }

    fn position_of(&self, id: AssetId) -> (r: Option<usize>)
        ensures
            match r {
                Some(i) => i < self.assets@.len() && self.assets@[i as int].0 == id && find_asset(self.assets@, id) == Some(self.assets@[i as int].1),
                None => find_asset(self.assets@, id) is None,
            },
            r is Some ==> forall|j: int| r.unwrap() < j < self.assets@.len() ==> self.assets@[j].0 != id,
    {
        let mut i = self.assets.len();
        proof {
            assert(self.assets@.subrange(0, i as int) =~= self.assets@);
        }
        while i > 0
            invariant
                i <= self.assets@.len(),
                find_asset(self.assets@, id) == find_asset(self.assets@.subrange(0, i as int), id),
                forall|j: int| i <= j < self.assets@.len() ==> self.assets@[j].0 != id,
            decreases i,
        {
            let ghost pre = self.assets@.subrange(0, i as int);
            proof {
                assert(pre.drop_last() =~= self.assets@.subrange(0, i - 1));
            }
            if self.assets[i - 1].0 == id {
                return Some(i - 1);
            }
            i = i - 1;
        }
        None
    }

    /// Retrieve a shared reference to the asset behind `id`, if it exists.
    pub fn get(&self, id: AssetId) -> (r: Option<&A>)
        ensures
            r matches Some(a) ==> self.asset(id) == Some(*a),
            r is None ==> self.asset(id) is None,
    {
        match self.position_of(id) {
            Some(i) => Some(&self.assets[i].1),
            None => None,
        }
    }

    /// Retrieve an exclusive reference to the asset behind `id`, if it exists.
    pub fn get_mut(&mut self, id: AssetId) -> (r: Option<&mut A>)
        ensures
            r is None ==> old(self).asset(id) is None && *final(self) == *old(self),
            r matches Some(a) ==> {
                &&& old(self).asset(id) == Some(*a)
                &&& final(self).asset(id) == Some(*final(a))
                &&& forall|id2: AssetId| id2 != id ==> final(self).asset(id2) == old(self).asset(id2)
                &&& final(self).count() == old(self).count()
                &&& forall|p: Seq<char>| final(self).path_id(p) == old(self).path_id(p)
                &&& final(self).upcoming_id() == old(self).upcoming_id()
                &&& (old(self).wf() ==> final(self).wf())
            },
    {
        match self.position_of(id) {
            Some(i) => {
                let ghost before = self.assets@;
                proof {
                    assert forall|v: A| #[trigger] find_asset(before.update(i as int, (id, v)), id) == Some(v)
                        && forall|id2: AssetId| id2 != id ==> find_asset(before.update(i as int, (id, v)), id2) == find_asset(before, id2) by {
                        lemma_find_asset_update_last(before, i as int, v);
                    }
                }
                let entry = &mut self.assets[i];
                Some(&mut entry.1)
            },
            None => None,
        }
    }

    /// Look up the `AssetId` for a given path, if one was loaded.
    pub fn id_for_path(&self, path: &str) -> (r: Option<AssetId>)
        requires
            self.wf(),
        ensures
            r == self.path_id(path@),
    {
        self.path_to_id.get(path)
    }

    /// Number of assets currently stored.
    pub fn len(&self) -> (n: usize)
        ensures
            n == self.count(),
    {
        self.assets.len()
    }

    /// True when no assets are stored.
    pub fn is_empty(&self) -> (b: bool)
        ensures
            b == (self.count() == 0),
    {
        self.assets.len() == 0
    }

    /// Remove an asset from the registry, and every path that maps to it.
    /// No-op if the id doesn't exist.
    pub fn unload(&mut self, id: AssetId)
        requires
            old(self).wf(),
        ensures
            final(self).wf(),
            final(self).asset(id) is None,
            forall|id2: AssetId| id2 != id ==> final(self).asset(id2) == old(self).asset(id2),
            old(self).asset(id) is Some ==> final(self).count() + 1 == old(self).count(),
            old(self).asset(id) is None ==> final(self).count() == old(self).count(),
            old(self).asset(id) is Some ==> forall|p: Seq<char>| #[trigger] final(self).path_id(p) == without(old(self).path_id(p), id),
            old(self).asset(id) is None ==> forall|p: Seq<char>| final(self).path_id(p) == old(self).path_id(p),
            final(self).upcoming_id() == old(self).upcoming_id(),
            unload_outcome(*old(self), *final(self), id),
    {
        match self.position_of(id) {
            None => {},
            Some(i) => {
                let ghost before = self.assets@;
                self.assets.remove(i);
                proof {
                    lemma_find_asset_remove(before, i as int, id);
                    assert forall|a: int, b: int| 0 <= a < b < self.assets@.len() implies self.assets@[a].0 != self.assets@[b].0 by {
                        let a0 = if a < i { a } else { a + 1 };
                        let b0 = if b < i { b } else { b + 1 };
                        assert(self.assets@[a] == before[a0]);
                        assert(self.assets@[b] == before[b0]);
                    }
                    assert forall|k: int| 0 <= k < self.assets@.len() implies (#[trigger] self.assets@[k]).0.0 < self.ids.upcoming() by {
                        let k0 = if k < i { k } else { k + 1 };
                        assert(self.assets@[k] == before[k0]);
                    }
                }
                self.path_to_id.remove_id(id, Ghost(self.ids.upcoming()));
            },
        }
    }

}

/// No path occurs twice.
pub open spec fn paths_unique(s: Seq<(String, AssetId)>) -> bool {
    forall|a: int, b: int| 0 <= a < b < s.len() ==> s[a].0@ != s[b].0@
}

/// `o`, unless it is `Some(id)`.
pub open spec fn without(o: Option<AssetId>, id: AssetId) -> Option<AssetId> {
    if o == Some(id) { None } else { o }
}

proof fn lemma_find_path_none(s: Seq<(String, AssetId)>, p: Seq<char>)
    requires
        forall|k: int| 0 <= k < s.len() ==> (#[trigger] s[k]).0@ != p,
    ensures
        find_path(s, p) is None,
    decreases s.len(),
{
    if s.len() > 0 {
        assert forall|k: int| 0 <= k < s.drop_last().len() implies (#[trigger] s.drop_last()[k]).0@ != p by {
            assert(s.drop_last()[k] == s[k]);
        }
        lemma_find_path_none(s.drop_last(), p);
    }
}

proof fn lemma_find_path_member(s: Seq<(String, AssetId)>, k: int)
    requires
        0 <= k < s.len(),
    ensures
        find_path(s, s[k].0@) is Some,
    decreases s.len(),
{
    if k < s.len() - 1 && s.last().0@ != s[k].0@ {
        assert(s.drop_last()[k] == s[k]);
        lemma_find_path_member(s.drop_last(), k);
    }
}

proof fn lemma_find_path_at(s: Seq<(String, AssetId)>, k: int)
    requires
        0 <= k < s.len(),
        paths_unique(s),
    ensures
        find_path(s, s[k].0@) == Some(s[k].1),
    decreases s.len(),
{
    if k < s.len() - 1 {
        assert(s.drop_last()[k] == s[k]);
        lemma_find_path_at(s.drop_last(), k);
    }
}

proof fn lemma_find_path_update(s: Seq<(String, AssetId)>, k: int, e: (String, AssetId))
    requires
        0 <= k < s.len(),
        e.0@ == s[k].0@,
    ensures
        forall|p: Seq<char>| p != e.0@ ==> find_path(s.update(k, e), p) == find_path(s, p),
    decreases s.len(),
{
    let u = s.update(k, e);
    if k == s.len() - 1 {
        assert(u.drop_last() =~= s.drop_last());
        assert(u.last() == e);
    } else {
        assert(u.drop_last() =~= s.drop_last().update(k, e));
        assert(u.last() == s.last());
        lemma_find_path_update(s.drop_last(), k, e);
    }
    assert forall|p: Seq<char>| p != e.0@ implies find_path(u, p) == find_path(s, p) by {
        if u.last().0@ != p {
            assert(find_path(u, p) == find_path(u.drop_last(), p));
            assert(find_path(s, p) == find_path(s.drop_last(), p));
        }
    }
}

/// Removing position `i` (the last occurrence of `id`, ids unique) forgets
/// `id` and keeps every other id's value.
proof fn lemma_find_asset_remove<A>(s: Seq<(AssetId, A)>, i: int, id: AssetId)
    requires
        0 <= i < s.len(),
        s[i].0 == id,
        forall|a: int, b: int| 0 <= a < b < s.len() ==> s[a].0 != s[b].0,
    ensures
        find_asset(s.remove(i), id) is None,
        forall|id2: AssetId| id2 != id ==> find_asset(s.remove(i), id2) == find_asset(s, id2),
    decreases s.len(),
{
    let r = s.remove(i);
    if i == s.len() - 1 {
        assert(r =~= s.drop_last());
        assert forall|k: int| 0 <= k < s.drop_last().len() implies (#[trigger] s.drop_last()[k]).0 != id by {
            assert(s.drop_last()[k] == s[k]);
        }
        lemma_find_asset_absent(s.drop_last(), id);
        assert forall|id2: AssetId| id2 != id implies find_asset(r, id2) == find_asset(s, id2) by {}
    } else {
        assert(r.len() == s.len() - 1);
        assert(r.drop_last() =~= s.drop_last().remove(i));
        assert(r.last() == s.last());
        assert(s.last().0 != id);
        assert forall|a: int, b: int| 0 <= a < b < s.drop_last().len() implies s.drop_last()[a].0 != s.drop_last()[b].0 by {
            assert(s.drop_last()[a] == s[a]);
            assert(s.drop_last()[b] == s[b]);
        }
        lemma_find_asset_remove(s.drop_last(), i, id);
        assert forall|id2: AssetId| id2 != id implies find_asset(r, id2) == find_asset(s, id2) by {
            if s.last().0 != id2 {
                assert(find_asset(r, id2) == find_asset(r.drop_last(), id2));
                assert(find_asset(s, id2) == find_asset(s.drop_last(), id2));
            }
        }
    }
}

/// A sequence without `id` has no value for it.
proof fn lemma_find_asset_absent<A>(s: Seq<(AssetId, A)>, id: AssetId)
    requires
        forall|k: int| 0 <= k < s.len() ==> s[k].0 != id,
    ensures
        find_asset(s, id) is None,
    decreases s.len(),
{
    if s.len() > 0 {
        lemma_find_asset_absent(s.drop_last(), id);
    }
}

/// How loading `path` into `before` gives `after` and the result `r`:
/// a path that refers to a stored asset reloads it in place under its id;
/// any other path loads a new asset under the next id, or, on an error,
/// leaves the registry as it was.
pub open spec fn load_outcome<A>(
    before: AssetRegistry<A>,
    after: AssetRegistry<A>,
    path: Seq<char>,
    r: Result<AssetId, AssetError>,
) -> bool {
    &&& before.reload_target(path) matches Some(id) ==> {
        &&& (r matches Ok(x) ==> x == id)
        &&& after.count() == before.count()
        &&& after.asset(id) is Some
        &&& forall|id2: AssetId| id2 != id ==> after.asset(id2) == before.asset(id2)
        &&& forall|p: Seq<char>| after.path_id(p) == before.path_id(p)
        &&& after.upcoming_id() == before.upcoming_id()
    }
    &&& before.reload_target(path) is None ==> {
        &&& (r matches Ok(id) ==> {
            &&& id.0 == before.upcoming_id()
            &&& before.asset(id) is None
            &&& after.asset(id) is Some
            &&& after.count() == before.count() + 1
            &&& after.path_id(path) == Some(id)
            &&& forall|p: Seq<char>| p != path ==> after.path_id(p) == before.path_id(p)
            &&& forall|id2: AssetId| id2 != id ==> after.asset(id2) == before.asset(id2)
            &&& after.upcoming_id() == before.upcoming_id() + 1
        })
        &&& (r is Err ==> after == before)
    }
}

/// How unloading `id` takes `before` to `after`: the asset leaves, every
/// other asset stays, and the paths that referred to it are forgotten.
pub open spec fn unload_outcome<A>(before: AssetRegistry<A>, after: AssetRegistry<A>, id: AssetId) -> bool {
    &&& after.asset(id) is None
    &&& forall|id2: AssetId| id2 != id ==> after.asset(id2) == before.asset(id2)
    &&& before.asset(id) is Some ==> forall|p: Seq<char>| #[trigger] after.path_id(p) == without(before.path_id(p), id)
    &&& before.asset(id) is None ==> forall|p: Seq<char>| #[trigger] after.path_id(p) == before.path_id(p)
}

/// A call made on a registry: loading a path with its result, or unloading
/// an id.
pub enum RegistryCall {
    Load { path: Seq<char>, result: Result<AssetId, AssetError> },
    Unload { id: AssetId },
}

/// Whether `call` takes `before` to `after`, as `load` and `unload` state.
pub open spec fn call_step<A>(before: AssetRegistry<A>, after: AssetRegistry<A>, call: RegistryCall) -> bool {
    match call {
        RegistryCall::Load { path, result } => load_outcome(before, after, path, result),
        RegistryCall::Unload { id } => unload_outcome(before, after, id),
    }
}

/// The id that `path` refers to after `calls`, made on an empty registry:
/// the id of its last successful load, unless that id was unloaded since.
pub open spec fn replayed_path_id(calls: Seq<RegistryCall>, path: Seq<char>) -> Option<AssetId>
    decreases calls.len(),
{
    if calls.len() == 0 {
        None
    } else {
        let prev = replayed_path_id(calls.drop_last(), path);
        match calls.last() {
            RegistryCall::Load { path: p, result } => match result {
                Ok(id) => if p == path {
                    Some(id)
                } else {
                    prev
                },
                Err(_) => prev,
            },
            RegistryCall::Unload { id } => if prev == Some(id) {
                None
            } else {
                prev
            },
        }
    }
}

proof fn lemma_replay_prefix<A>(regs: Seq<AssetRegistry<A>>, calls: Seq<RegistryCall>, n: int)
    requires
        regs.len() == calls.len() + 1,
        0 <= n <= calls.len(),
        forall|p: Seq<char>| #[trigger] regs[0].path_id(p) is None,
        forall|i: int| 0 <= i < calls.len() ==> #[trigger] call_step(regs[i], regs[i + 1], calls[i]),
    ensures
        forall|p: Seq<char>| #[trigger] regs[n].path_id(p) == replayed_path_id(calls.take(n), p),
        forall|p: Seq<char>| #[trigger] regs[n].path_id(p) matches Some(id) ==> regs[n].asset(id) is Some,
    decreases n,
{
    if n == 0 {
        assert(calls.take(0).len() == 0);
    } else {
        lemma_replay_prefix(regs, calls, n - 1);
        let i = n - 1;
        assert(call_step(regs[i], regs[i + 1], calls[i]));
        let b = regs[i];
        let a = regs[i + 1];
        assert(a == regs[n]);
        assert(calls.take(n).drop_last() =~= calls.take(n - 1));
        assert(calls.take(n).last() == calls[n - 1]);
        assert forall|p: Seq<char>| #[trigger] a.path_id(p) == replayed_path_id(calls.take(n), p)
            && (a.path_id(p) matches Some(id) ==> a.asset(id) is Some) by {
            assert(b.path_id(p) == replayed_path_id(calls.take(n - 1), p));
            match calls[n - 1] {
                RegistryCall::Load { path, result } => {
                    if b.path_id(p) is Some {
                        assert(b.asset(b.path_id(p).unwrap()) is Some);
                    }
                },
                RegistryCall::Unload { id } => {
                    if b.path_id(p) is Some {
                        assert(b.asset(b.path_id(p).unwrap()) is Some);
                    }
                },
            }
        }
    }
}

/// On a registry that started empty, a path refers to the id of its last
/// successful load, unless that id was unloaded since; reloading keeps the
/// id, and a path never loaded refers to nothing.
pub proof fn path_ids_follow_calls<A>(regs: Seq<AssetRegistry<A>>, calls: Seq<RegistryCall>, path: Seq<char>)
    requires
        regs.len() == calls.len() + 1,
        forall|p: Seq<char>| #[trigger] regs[0].path_id(p) is None,
        forall|i: int| 0 <= i < calls.len() ==> #[trigger] call_step(regs[i], regs[i + 1], calls[i]),
    ensures
        regs.last().path_id(path) == replayed_path_id(calls, path),
{
    lemma_replay_prefix(regs, calls, calls.len() as int);
    assert(calls.take(calls.len() as int) =~= calls);
}

/// What loading `path` gave, as the asset type reads it: the asset stored
/// under the returned id is an outcome of reading `path`, and an error is an
/// error that reading `path` gave.
pub open spec fn load_read<A: Asset>(after: AssetRegistry<A>, path: Seq<char>, r: Result<AssetId, AssetError>) -> bool {
    match r {
        Ok(id) => after.asset(id) matches Some(a) && A::loaded(path, Ok(a)),
        Err(e) => A::loaded(path, Err(e)),
    }
}

/// Loading a path that was loaded before returns the id it got then, and
/// stores no second asset.
pub proof fn loading_again_returns_same_id<A>(
    s0: AssetRegistry<A>,
    s1: AssetRegistry<A>,
    s2: AssetRegistry<A>,
    path: Seq<char>,
    first: AssetId,
    second: Result<AssetId, AssetError>,
)
    requires
        load_outcome(s0, s1, path, Ok(first)),
        load_outcome(s1, s2, path, second),
    ensures
        s1.reload_target(path) == Some(first),
        second matches Ok(id) ==> id == first,
        s2.count() == s1.count(),
{
}

impl<A: Asset> AssetRegistry<A> {
    /// Load an asset from `path`, store it, and return its handle.
    ///
    /// If an asset is already stored for this path, it is reloaded in-place
    /// (through [`Asset::reload`]) and the existing `AssetId` is returned.
    /// Otherwise the asset is loaded (through [`Asset::load`]), stored under
    /// a fresh id, and the path is recorded. On a load error nothing is
    /// stored.
    pub fn load(&mut self, path: &str) -> (r: Result<AssetId, AssetError>)
        requires
            old(self).wf(),
            old(self).upcoming_id() < u64::MAX,
        ensures
            final(self).wf(),
            load_outcome(*old(self), *final(self), path@, r),
            load_read(*final(self), path@, r),
    {
        if let Some(id) = self.path_to_id.get(path) {
            if let Some(i) = self.position_of(id) {
                let ghost before = self.assets@;
                let mut entry = self.assets.remove(i);
                let res = entry.1.reload(path);
                self.assets.insert(i, entry);
                proof {
                    assert(self.assets@.len() == before.len());
                    assert forall|k: int| 0 <= k < self.assets@.len() && k != i implies self.assets@[k] == before[k] by {}
                    assert(self.assets@[i as int].0 == id);
                    lemma_find_asset_replace(before, i as int, entry);
                    assert(self.assets@ =~= before.update(i as int, entry));
                    assert forall|a: int, b: int| 0 <= a < b < self.assets@.len() implies self.assets@[a].0 != self.assets@[b].0 by {}
                }
                return match res {
                    Ok(()) => Ok(id),
                    Err(e) => Err(e),
                };
            }
        }
        self.insert_loaded(path, A::load(path))
    }
}

impl<A> AssetRegistry<A> {
    /// Store the outcome of loading `path` afresh: a loaded asset is stored
    /// under the next id, `path` is recorded for it and the id is returned;
    /// an error is returned as it is, with nothing stored.
    pub fn insert_loaded(&mut self, path: &str, loaded: Result<A, AssetError>) -> (r: Result<
        AssetId,
        AssetError,
    >)
        requires
            old(self).wf(),
            old(self).upcoming_id() < u64::MAX,
        ensures
            final(self).wf(),
            match loaded {
                Ok(a) => {
                    let id = AssetId(old(self).upcoming_id());
                    &&& r == Ok::<AssetId, AssetError>(id)
                    &&& old(self).asset(id) is None
                    &&& final(self).asset(id) == Some(a)
                    &&& final(self).count() == old(self).count() + 1
                    &&& final(self).path_id(path@) == Some(id)
                    &&& forall|p: Seq<char>| p != path@ ==> final(self).path_id(p) == old(self).path_id(p)
                    &&& forall|id2: AssetId| id2 != id ==> final(self).asset(id2) == old(self).asset(id2)
                    &&& final(self).upcoming_id() == old(self).upcoming_id() + 1
                },
                Err(e) => r == Err::<AssetId, AssetError>(e) && *final(self) == *old(self),
            },
    {
        let asset = match loaded {
            Ok(a) => a,
            Err(e) => return Err(e),
        };
        let id = AssetId::next(&mut self.ids);
        proof {
            assert forall|k: int| 0 <= k < self.assets@.len() implies (#[trigger] self.assets@[k]).0 != id by {}
            lemma_find_asset_absent(self.assets@, id);
        }
        self.path_to_id.set(path, id, Ghost(self.ids.upcoming()));
        let ghost mid = *self;
        self.assets.push((id, asset));
        proof {
            assert(self.assets@.drop_last() =~= old(self).assets@);
            assert forall|p: Seq<char>| p != path@ implies self.path_id(p) == old(self).path_id(p) by {
                assert(mid.path_id(p) == old(self).path_id(p));
            }
        }
        Ok(id)
    }
}

/// Overwriting the value at the last position of an id changes only that
/// id's value.
proof fn lemma_find_asset_update_last<A>(s: Seq<(AssetId, A)>, i: int, v: A)
    requires
        0 <= i < s.len(),
        forall|j: int| i < j < s.len() ==> s[j].0 != s[i].0,
    ensures
        find_asset(s.update(i, (s[i].0, v)), s[i].0) == Some(v),
        forall|id2: AssetId| id2 != s[i].0 ==> find_asset(s.update(i, (s[i].0, v)), id2) == find_asset(s, id2),
    decreases s.len(),
{
    let id = s[i].0;
    let u = s.update(i, (id, v));
    if i == s.len() - 1 {
        assert(u.drop_last() =~= s.drop_last());
        assert(u.last() == (id, v));
    } else {
        assert(u.drop_last() =~= s.drop_last().update(i, (id, v)));
        assert(u.last() == s.last());
        assert(s.drop_last()[i] == s[i]);
        assert forall|j: int| i < j < s.drop_last().len() implies s.drop_last()[j].0 != s.drop_last()[i].0 by {
            assert(s.drop_last()[j] == s[j]);
        }
        lemma_find_asset_update_last(s.drop_last(), i, v);
        assert(find_asset(u, id) == find_asset(u.drop_last(), id));
    }
    assert forall|id2: AssetId| id2 != id implies find_asset(u, id2) == find_asset(s, id2) by {
        if u.last().0 != id2 {
            assert(find_asset(u, id2) == find_asset(u.drop_last(), id2));
            assert(find_asset(s, id2) == find_asset(s.drop_last(), id2));
        }
    }
}

/// Replacing the entry at position `i` with one of the same id changes only
/// that id's value (ids unique).
proof fn lemma_find_asset_replace<A>(s: Seq<(AssetId, A)>, i: int, e: (AssetId, A))
    requires
        0 <= i < s.len(),
        s[i].0 == e.0,
        forall|a: int, b: int| 0 <= a < b < s.len() ==> s[a].0 != s[b].0,
    ensures
        find_asset(s.update(i, e), e.0) == Some(e.1),
        forall|id2: AssetId| id2 != e.0 ==> find_asset(s.update(i, e), id2) == find_asset(s, id2),
    decreases s.len(),
{
    let u = s.update(i, e);
    if i == s.len() - 1 {
        assert(u.drop_last() =~= s.drop_last());
        assert(u.last() == e);
    } else {
        assert(u.drop_last() =~= s.drop_last().update(i, e));
        assert(u.last() == s.last());
        assert(s.last().0 != e.0);
        assert forall|a: int, b: int| 0 <= a < b < s.drop_last().len() implies s.drop_last()[a].0 != s.drop_last()[b].0 by {
            assert(s.drop_last()[a] == s[a]);
            assert(s.drop_last()[b] == s[b]);
        }
        lemma_find_asset_replace(s.drop_last(), i, e);
        assert(find_asset(u, e.0) == find_asset(u.drop_last(), e.0));
    }
    assert forall|id2: AssetId| id2 != e.0 implies find_asset(u, id2) == find_asset(s, id2) by {
        if u.last().0 != id2 {
            assert(find_asset(u, id2) == find_asset(u.drop_last(), id2));
            assert(find_asset(s, id2) == find_asset(s.drop_last(), id2));
        }
    }
}

impl<A> Default for AssetRegistry<A> {
    fn default() -> (r: Self)
        ensures
            r.wf(),
            r.count() == 0,
    {
        Self::new()
    }
}

// ──────────────────────────────────────────────
// Hot-reload bookkeeping
// ──────────────────────────────────────────────

/// Whether a sequence of strings contains `x`.
pub open spec fn has_string(s: Seq<String>, x: Seq<char>) -> bool {
    exists|i: int| 0 <= i < s.len() && s[i]@ == x
}

fn contains_string(v: &Vec<String>, x: &str) -> (r: bool)
    ensures
        r == has_string(v@, x@),
{
    let mut i: usize = 0;
    while i < v.len()
        invariant
            i <= v@.len(),
            forall|j: int| 0 <= j < i ==> v@[j]@ != x@,
        decreases v@.len() - i,
    {
        if str_equal(v[i].as_str(), x) {
            return true;
        }
        i = i + 1;
    }
    false
}

/// Whether some relevant event touched path `x`.
pub open spec fn touched_by(events: Seq<(bool, Vec<String>)>, x: Seq<char>) -> bool {
    exists|k: int, m: int|
        #![trigger events[k].1@[m]]
        0 <= k < events.len() && events[k].0 && 0 <= m < events[k].1@.len() && events[k].1@[m]@ == x
}

/// Adding an element keeps every string that was present.
proof fn lemma_has_string_push(s: Seq<String>, e: String, x: Seq<char>)
    requires
        has_string(s, x),
    ensures
        has_string(s.push(e), x),
{
    let w = choose|w: int| 0 <= w < s.len() && s[w]@ == x;
    assert(s.push(e)[w] == s[w]);
}

/// The distinct paths of the relevant events (creation, modification or
/// removal), in order of first appearance.
///
/// `events` pairs each file-system event's relevance with the paths it
/// touched.
pub fn collect_changed_paths(events: &Vec<(bool, Vec<String>)>) -> (paths: Vec<String>)
    ensures
        forall|i: int, j: int| 0 <= i < j < paths@.len() ==> paths@[i]@ != paths@[j]@,
        forall|i: int| 0 <= i < paths@.len() ==> touched_by(events@, (#[trigger] paths@[i])@),
        forall|x: Seq<char>| touched_by(events@, x) ==> has_string(paths@, x),
{
    let mut paths: Vec<String> = Vec::new();
    let mut k: usize = 0;
    while k < events.len()
        invariant
            k <= events@.len(),
            forall|i: int, j: int| 0 <= i < j < paths@.len() ==> paths@[i]@ != paths@[j]@,
            forall|i: int| 0 <= i < paths@.len() ==> touched_by(events@, (#[trigger] paths@[i])@),
            forall|k2: int, m: int|
                #![trigger events@[k2].1@[m]]
                0 <= k2 < k && events@[k2].0 && 0 <= m < events@[k2].1@.len() ==> has_string(paths@, events@[k2].1@[m]@),
        decreases events@.len() - k,
    {
        if events[k].0 {
            let list = &events[k].1;
            let mut m: usize = 0;
            while m < list.len()
                invariant
                    k < events@.len(),
                    events@[k as int].0,
                    *list == events@[k as int].1,
                    m <= list@.len(),
                    forall|i: int, j: int| 0 <= i < j < paths@.len() ==> paths@[i]@ != paths@[j]@,
                    forall|i: int| 0 <= i < paths@.len() ==> touched_by(events@, (#[trigger] paths@[i])@),
                    forall|k2: int, m2: int|
                        #![trigger events@[k2].1@[m2]]
                        0 <= k2 < k && events@[k2].0 && 0 <= m2 < events@[k2].1@.len() ==> has_string(paths@, events@[k2].1@[m2]@),
                    forall|m2: int| 0 <= m2 < m ==> has_string(paths@, (#[trigger] list@[m2])@),
                decreases list@.len() - m,
            {
                let p = &list[m];
                if !contains_string(&paths, p.as_str()) {
                    let ghost before = paths@;
                    paths.push(p.clone());
                    proof {
                        assert(paths@ == before.push(paths@.last()));
                        assert(events@[k as int].1@[m as int] == list@[m as int]);
                        assert forall|i: int| 0 <= i < paths@.len() implies touched_by(events@, (#[trigger] paths@[i])@) by {
                            if i < before.len() {
                                assert(paths@[i] == before[i]);
                            }
                        }
                        assert forall|k2: int, m2: int|
                            #![trigger events@[k2].1@[m2]]
                            0 <= k2 < k && events@[k2].0 && 0 <= m2 < events@[k2].1@.len() implies has_string(paths@, events@[k2].1@[m2]@) by {
                            lemma_has_string_push(before, paths@.last(), events@[k2].1@[m2]@);
                        }
                        assert forall|m2: int| 0 <= m2 < m + 1 implies has_string(paths@, (#[trigger] list@[m2])@) by {
                            if m2 == m {
                                assert(paths@[before.len() as int]@ == list@[m2]@);
                            } else {
                                lemma_has_string_push(before, paths@.last(), list@[m2]@);
                            }
                        }
                    }
                }
                m = m + 1;
            }
        }
        proof {
            assert forall|k2: int, m2: int|
                #![trigger events@[k2].1@[m2]]
                0 <= k2 < k + 1 && events@[k2].0 && 0 <= m2 < events@[k2].1@.len() implies has_string(paths@, events@[k2].1@[m2]@) by {
                if k2 == k {
                    assert(has_string(paths@, events@[k as int].1@[m2]@));
                }
            }
        }
        k = k + 1;
    }
    proof {
        assert forall|x: Seq<char>| touched_by(events@, x) implies has_string(paths@, x) by {
            let (k2, m2) = choose|k2: int, m2: int|
                #![trigger events@[k2].1@[m2]]
                0 <= k2 < events@.len() && events@[k2].0 && 0 <= m2 < events@[k2].1@.len() && events@[k2].1@[m2]@ == x;
            assert(has_string(paths@, events@[k2].1@[m2]@));
        }
    }
    paths
}

// ──────────────────────────────────────────────
// Asset Loader
// ──────────────────────────────────────────────

/// The position of the last of the first `i` paths of `changed` that
/// `loader` watches under `id`.
pub open spec fn last_change<A>(loader: AssetLoader<A>, changed: Seq<Seq<char>>, id: AssetId, i: int) -> Option<int>
    decreases i,
{
    if i <= 0 {
        None
    } else if loader.watched_id(changed[i - 1]) == Some(id) {
        Some(i - 1)
    } else {
        last_change(loader, changed, id, i - 1)
    }
}

/// Whether `a` is what a reload from `path` leaves: an outcome of reading
/// `path`, or the asset as a reload that failed with an error from reading
/// `path` left it.
pub open spec fn reload_outcome<A: Asset>(a: A, path: Seq<char>) -> bool {
    A::loaded(path, Ok(a)) || exists|e: AssetError| A::loaded(path, Err(e))
}

/// Combines an [`AssetRegistry`] with the paths it loaded, for a
/// load-and-hot-reload workflow.
///
/// The paths that changed on disk come from a file watcher; the loader
/// answers which of them belong to loaded assets.
#[derive(Debug)]
pub struct AssetLoader<A> {
    registry: AssetRegistry<A>,
    watched: PathTable,
}

impl<A> AssetLoader<A> {
    /// The underlying registry.
    pub closed spec fn reg(&self) -> AssetRegistry<A> {
        self.registry
    }

    /// The id that `path` was loaded under, if it is watched.
    pub closed spec fn watched_id(&self, path: Seq<char>) -> Option<AssetId> {
        self.watched.lookup(path)
    }

    /// Internal consistency.
    pub closed spec fn wf(&self) -> bool {
        self.registry.wf() && self.watched.wf()
    }

    /// Create a loader with an empty registry and no watched paths.
    pub fn new() -> (l: Self)
        ensures
            l.wf(),
            l.reg().count() == 0,
            l.reg().upcoming_id() == 1,
            forall|id: AssetId| l.reg().asset(id) is None,
            forall|p: Seq<char>| l.watched_id(p) is None,
    {
        AssetLoader { registry: AssetRegistry::new(), watched: PathTable::new() }
    }

    /// Retrieve a shared reference to a loaded asset.
    pub fn get(&self, id: AssetId) -> (r: Option<&A>)
        ensures
            r matches Some(a) ==> self.reg().asset(id) == Some(*a),
            r is None ==> self.reg().asset(id) is None,
    {
        self.registry.get(id)
    }

    /// Retrieve an exclusive reference to a loaded asset.
    pub fn get_mut(&mut self, id: AssetId) -> (r: Option<&mut A>)
        ensures
            r is None ==> old(self).reg().asset(id) is None && *final(self) == *old(self),
            r matches Some(a) ==> {
                &&& old(self).reg().asset(id) == Some(*a)
                &&& final(self).reg().asset(id) == Some(*final(a))
                &&& forall|id2: AssetId| id2 != id ==> final(self).reg().asset(id2) == old(self).reg().asset(id2)
                &&& final(self).reg().count() == old(self).reg().count()
                &&& forall|p: Seq<char>| final(self).reg().path_id(p) == old(self).reg().path_id(p)
                &&& forall|p: Seq<char>| final(self).watched_id(p) == old(self).watched_id(p)
                &&& final(self).reg().upcoming_id() == old(self).reg().upcoming_id()
                &&& (old(self).wf() ==> final(self).wf())
            },
    {
        self.registry.get_mut(id)
    }

    /// Remove an asset from the loader, and stop watching its paths.
    pub fn unload(&mut self, id: AssetId)
        requires
            old(self).wf(),
        ensures
            final(self).wf(),
            final(self).reg().asset(id) is None,
            forall|id2: AssetId| id2 != id ==> final(self).reg().asset(id2) == old(self).reg().asset(id2),
            forall|p: Seq<char>| #[trigger] final(self).watched_id(p) == without(old(self).watched_id(p), id),
            final(self).reg().upcoming_id() == old(self).reg().upcoming_id(),
    {
        self.watched.remove_id(id, Ghost(0));
        self.registry.unload(id);
    }

    /// Reference to the underlying registry.
    pub fn registry(&self) -> (r: &AssetRegistry<A>)
        ensures
            *r == self.reg(),
    {
        &self.registry
    }

    /// Mutable reference to the underlying registry.
    pub fn registry_mut(&mut self) -> (r: &mut AssetRegistry<A>)
        ensures
            *r == old(self).reg(),
            final(self).reg() == *final(r),
            forall|p: Seq<char>| final(self).watched_id(p) == old(self).watched_id(p),
    {
        &mut self.registry
    }
}

impl<A: Asset> AssetLoader<A> {
    /// Reload every loaded asset whose file changed on disk, in the order
    /// the paths changed, through [`Asset::reload`]; returns the changed
    /// paths that belong to loaded assets (the reloaded paths), in order.
    ///
    /// Each asset keeps its id and its paths; an asset none of whose paths
    /// changed is untouched, and an asset that was reloaded holds what the
    /// last reload of it read, or what its failed reload left.
    pub fn hot_reload(&mut self, changed: &Vec<String>) -> (r: Vec<String>)
        requires
            old(self).wf(),
        ensures
            final(self).wf(),
            r@.map_values(|s: String| s@) == changed@.map_values(|s: String| s@).filter(
                |x: Seq<char>| old(self).watched_id(x) is Some,
            ),
            forall|p: Seq<char>| final(self).watched_id(p) == old(self).watched_id(p),
            forall|p: Seq<char>| final(self).reg().path_id(p) == old(self).reg().path_id(p),
            final(self).reg().count() == old(self).reg().count(),
            final(self).reg().upcoming_id() == old(self).reg().upcoming_id(),
            forall|id: AssetId| #[trigger] final(self).reg().asset(id) is Some == old(self).reg().asset(id) is Some,
            forall|id: AssetId|
                last_change(*old(self), string_views(changed@), id, changed@.len() as int) is None
                    ==> #[trigger] final(self).reg().asset(id) == old(self).reg().asset(id),
            forall|id: AssetId|
                #[trigger] last_change(*old(self), string_views(changed@), id, changed@.len() as int)
                    matches Some(j) ==> (final(self).reg().asset(id) matches Some(a) ==> reload_outcome(
                    a,
                    string_views(changed@)[j],
                )),
    {
        let ghost cv = changed@.map_values(|s: String| s@);
        let ghost l0 = *self;
        let mut r: Vec<String> = Vec::new();
        let mut i: usize = 0;
        let ghost pred = |x: Seq<char>| l0.watched_id(x) is Some;
        while i < changed.len()
            invariant
                i <= changed@.len(),
                cv == changed@.map_values(|s: String| s@),
                self.wf(),
                pred == (|x: Seq<char>| l0.watched_id(x) is Some),
                r@.map_values(|s: String| s@) == cv.subrange(0, i as int).filter(pred),
                forall|p: Seq<char>| self.watched_id(p) == l0.watched_id(p),
                forall|p: Seq<char>| self.reg().path_id(p) == l0.reg().path_id(p),
                self.reg().count() == l0.reg().count(),
                self.reg().upcoming_id() == l0.reg().upcoming_id(),
                forall|id: AssetId| #[trigger] self.reg().asset(id) is Some == l0.reg().asset(id) is Some,
                forall|id: AssetId|
                    last_change(l0, cv, id, i as int) is None ==> #[trigger] self.reg().asset(id)
                        == l0.reg().asset(id),
                forall|id: AssetId|
                    #[trigger] last_change(l0, cv, id, i as int) matches Some(j) ==> (
                    self.reg().asset(id) matches Some(a) ==> reload_outcome(a, cv[j])),
            decreases changed@.len() - i,
        {
            let ghost rb = r@;
            let ghost before = *self;
            let p = &changed[i];
            proof {
                assert(cv[i as int] == p@);
            }
            let tracked_id = self.watched.get(p.as_str());
            match tracked_id {
                Some(id) => {
                    match self.registry.get_mut(id) {
                        Some(a) => {
                            let _ = a.reload(p.as_str());
                        },
                        None => {},
                    }
                    r.push(p.clone());
                },
                None => {},
            }
            proof {
                let all = cv;
                let post = all.subrange(0, i + 1);
                assert(post.drop_last() =~= all.subrange(0, i as int));
                assert(post.last() == p@);
                reveal(Seq::filter);
                if tracked_id is Some {
                    assert(r@.map_values(|s: String| s@) =~= rb.map_values(|s: String| s@).push(p@));
                } else {
                    assert(r@ == rb);
                }
                assert forall|id: AssetId|
                    last_change(l0, cv, id, i + 1) is None implies #[trigger] self.reg().asset(id)
                        == l0.reg().asset(id) by {
                    assert(last_change(l0, cv, id, i + 1) == if l0.watched_id(cv[i as int]) == Some(id) {
                        Some(i as int)
                    } else {
                        last_change(l0, cv, id, i as int)
                    });
                }
                assert forall|id: AssetId|
                    #[trigger] last_change(l0, cv, id, i + 1) is Some implies (
                    self.reg().asset(id) matches Some(a) ==> reload_outcome(a, cv[last_change(l0, cv, id, i + 1).unwrap()])) by {
                    assert(last_change(l0, cv, id, i + 1) == if l0.watched_id(cv[i as int]) == Some(id) {
                        Some(i as int)
                    } else {
                        last_change(l0, cv, id, i as int)
                    });
                }
            }
            i = i + 1;
        }
        proof {
            assert(cv.subrange(0, changed@.len() as int) =~= cv);
            assert(cv == string_views(changed@));
        }
        r
    }

    /// Load an asset and return its handle.
    ///
    /// The path is recorded so that [`AssetLoader::hot_reload`] reports it
    /// when the file changes on disk.
    pub fn load(&mut self, path: &str) -> (r: Result<AssetId, AssetError>)
        requires
            old(self).wf(),
            old(self).reg().upcoming_id() < u64::MAX,
        ensures
            final(self).wf(),
            load_outcome(old(self).reg(), final(self).reg(), path@, r),
            load_read(final(self).reg(), path@, r),
            r matches Ok(id) ==> final(self).watched_id(path@) == Some(id),
            r matches Ok(_) ==> forall|p: Seq<char>| p != path@ ==> final(self).watched_id(p) == old(self).watched_id(p),
            r is Err ==> forall|p: Seq<char>| final(self).watched_id(p) == old(self).watched_id(p),
    {
        match self.registry.load(path) {
            Ok(id) => {
                self.watched.set(path, id, Ghost(0));
                Ok(id)
            },
            Err(e) => Err(e),
        }
    }
}

impl<A> Default for AssetLoader<A> {
    fn default() -> (l: Self)
        ensures
            l.wf(),
            l.reg().count() == 0,
    {
        Self::new()
    }
}

} // verus!

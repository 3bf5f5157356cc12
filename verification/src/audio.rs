//! Audio data kept by the engine: its error type, the cache of loaded sound
//! file bytes, and the music player's playback state.
//!
//! Playback itself goes through an audio output device and lives with the
//! application.

use std::io;

use vstd::prelude::*;

use crate::io_support::io_error_text;
use crate::keyed::{
    find_keyed, key_position, keys_unique, lemma_find_keyed_at, lemma_find_keyed_none,
    lemma_find_keyed_remove, lemma_find_keyed_update,
};
use crate::text::string_from;

verus! {

// ──────────────────────────────────────────────
// Error Types
// ──────────────────────────────────────────────

/// Errors that can occur during audio operations.
#[derive(Debug)]
pub enum AudioError {
    /// No audio output device is available.
    NoDeviceAvailable(String),
    /// Failed to decode audio data.
    DecodeFailed(String),
    /// File I/O error.
    FileError(io::Error),
}

impl AudioError {
    /// Human-readable message for this error.
    pub fn to_string(&self) -> (s: String)
        ensures
            match self {
                AudioError::NoDeviceAvailable(m) => s@ == "no audio device: "@ + m@,
                AudioError::DecodeFailed(m) => s@ == "decode failed: "@ + m@,
                AudioError::FileError(e) => s@.len() >= 12 && s@.subrange(0, 12) == "file error: "@,
            },
    {
        let mut s = String::new();
        match self {
            AudioError::NoDeviceAvailable(m) => {
                s.append("no audio device: ");
                s.append(m.as_str());
            },
            AudioError::DecodeFailed(m) => {
                s.append("decode failed: ");
                s.append(m.as_str());
            },
            AudioError::FileError(e) => {
                s.append("file error: ");
                let ghost prefix = s@;
                let t = io_error_text(e);
                s.append(t.as_str());
                proof {
                    reveal_strlit("file error: ");
                    assert(s@.subrange(0, 12) =~= prefix);
                }
            },
        }
        s
    }
}

// ──────────────────────────────────────────────
// Sound Buffer Cache
// ──────────────────────────────────────────────

/// Caches loaded audio file bytes to avoid per-play file I/O.
///
/// Load a file once, then replay from memory on each trigger.
#[derive(Debug, Clone)]
pub struct SoundBuffer {
    cache: Vec<(String, Vec<u8>)>,
}

impl SoundBuffer {
    /// The bytes cached for `path`.
    pub closed spec fn cached(&self, path: Seq<char>) -> Option<Vec<u8>> {
        find_keyed(self.cache@, path)
    }

    /// Number of cached sound files.
    pub closed spec fn count(&self) -> nat {
        self.cache@.len()
    }

    /// Each path is cached at most once.
    pub closed spec fn wf(&self) -> bool {
        keys_unique(self.cache@)
    }

    /// Creates an empty buffer cache.
    pub fn new() -> (b: Self)
        ensures
            b.wf(),
            b.count() == 0,
            forall|p: Seq<char>| b.cached(p) is None,
    {
        SoundBuffer { cache: Vec::new() }
    }

    /// Stores the bytes read from `path` under that path, replacing what was
    /// cached for it before.
    pub fn insert(&mut self, path: &str, bytes: Vec<u8>)
        requires
            old(self).wf(),
        ensures
            final(self).wf(),
            final(self).cached(path@) == Some(bytes),
            forall|p: Seq<char>| p != path@ ==> final(self).cached(p) == old(self).cached(p),
            old(self).cached(path@) is None ==> final(self).count() == old(self).count() + 1,
            old(self).cached(path@) is Some ==> final(self).count() == old(self).count(),
    {
        let ghost before = self.cache@;
        match key_position(&self.cache, path) {
            Some(k) => {
                proof {
                    lemma_find_keyed_at(before, k as int);
                }
                let entry = (string_from(path), bytes);
                self.cache.set(k, entry);
                proof {
                    lemma_find_keyed_update(before, k as int, entry);
                    assert(self.cache@ =~= before.update(k as int, entry));
                    lemma_find_keyed_at(self.cache@, k as int);
                }
            },
            None => {
                proof {
                    lemma_find_keyed_none(before, path@);
                }
                self.cache.push((string_from(path), bytes));
                proof {
                    assert(self.cache@.drop_last() =~= before);
                }
            },
        }
    }

    /// Returns true if the given path is cached.
    pub fn contains(&self, path: &str) -> (b: bool)
        requires
            self.wf(),
        ensures
            b == self.cached(path@) is Some,
    {
        match key_position(&self.cache, path) {
            Some(k) => {
                proof {
                    lemma_find_keyed_at(self.cache@, k as int);
                }
                true
            },
            None => {
                proof {
                    lemma_find_keyed_none(self.cache@, path@);
                }
                false
            },
        }
    }

    /// Returns the cached bytes for a path, if loaded.
    pub fn get(&self, path: &str) -> (r: Option<&Vec<u8>>)
        requires
            self.wf(),
        ensures
            r matches Some(b) ==> self.cached(path@) == Some(*b),
            r is None ==> self.cached(path@) is None,
    {
        match key_position(&self.cache, path) {
            Some(k) => {
                proof {
                    lemma_find_keyed_at(self.cache@, k as int);
                }
                Some(&self.cache[k].1)
            },
            None => {
                proof {
                    lemma_find_keyed_none(self.cache@, path@);
                }
                None
            },
        }
    }

    /// Removes a cached entry, freeing memory.
    pub fn remove(&mut self, path: &str)
        requires
            old(self).wf(),
        ensures
            final(self).wf(),
            final(self).cached(path@) is None,
            forall|p: Seq<char>| p != path@ ==> final(self).cached(p) == old(self).cached(p),
            old(self).cached(path@) is Some ==> final(self).count() + 1 == old(self).count(),
            old(self).cached(path@) is None ==> final(self).count() == old(self).count(),
    {
        let ghost before = self.cache@;
        match key_position(&self.cache, path) {
            Some(k) => {
                proof {
                    lemma_find_keyed_at(before, k as int);
                    lemma_find_keyed_remove(before, k as int);
                }
                self.cache.remove(k);
            },
            None => {
                proof {
                    lemma_find_keyed_none(before, path@);
                }
            },
        }
    }

    /// Returns the number of cached sound files.
    pub fn len(&self) -> (n: usize)
        ensures
            n == self.count(),
    {
        self.cache.len()
    }

    /// Returns true if no sounds are cached.
    pub fn is_empty(&self) -> (b: bool)
        ensures
            b == (self.count() == 0),
    {
        self.cache.len() == 0
    }
}

/// A call that changes a sound cache: storing bytes under a path, or
/// removing a path.
pub enum SoundCall {
    Insert { path: Seq<char>, bytes: Vec<u8> },
    Remove { path: Seq<char> },
}

/// Whether `call` takes `before` to `after`, as `insert` and `remove` state.
pub open spec fn sound_step(before: SoundBuffer, after: SoundBuffer, call: SoundCall) -> bool {
    match call {
        SoundCall::Insert { path, bytes } => {
            &&& after.cached(path) == Some(bytes)
            &&& forall|p: Seq<char>| p != path ==> #[trigger] after.cached(p) == before.cached(p)
        },
        SoundCall::Remove { path } => {
            &&& after.cached(path) is None
            &&& forall|p: Seq<char>| p != path ==> #[trigger] after.cached(p) == before.cached(p)
        },
    }
}

/// What a cache that started empty holds for `path` after `calls`: the
/// bytes of its last insert, unless it was removed since.
pub open spec fn replayed_sound(calls: Seq<SoundCall>, path: Seq<char>) -> Option<Vec<u8>>
    decreases calls.len(),
{
    if calls.len() == 0 {
        None
    } else {
        match calls.last() {
            SoundCall::Insert { path: p, bytes } => if p == path {
                Some(bytes)
            } else {
                replayed_sound(calls.drop_last(), path)
            },
            SoundCall::Remove { path: p } => if p == path {
                None
            } else {
                replayed_sound(calls.drop_last(), path)
            },
        }
    }
}

proof fn lemma_sound_prefix(bufs: Seq<SoundBuffer>, calls: Seq<SoundCall>, n: int, path: Seq<char>)
    requires
        bufs.len() == calls.len() + 1,
        0 <= n <= calls.len(),
        forall|p: Seq<char>| #[trigger] bufs[0].cached(p) is None,
        forall|i: int| 0 <= i < calls.len() ==> #[trigger] sound_step(bufs[i], bufs[i + 1], calls[i]),
    ensures
        bufs[n].cached(path) == replayed_sound(calls.take(n), path),
    decreases n,
{
    if n > 0 {
        lemma_sound_prefix(bufs, calls, n - 1, path);
        let i = n - 1;
        assert(sound_step(bufs[i], bufs[i + 1], calls[i]));
        assert(calls.take(n).drop_last() =~= calls.take(i));
        assert(calls.take(n).last() == calls[i]);
    }
}

/// A cache that started empty holds a path exactly when its last insert was
/// not followed by a remove, and then holds that insert's bytes.
pub proof fn cache_follows_calls(bufs: Seq<SoundBuffer>, calls: Seq<SoundCall>, path: Seq<char>)
    requires
        bufs.len() == calls.len() + 1,
        forall|p: Seq<char>| #[trigger] bufs[0].cached(p) is None,
        forall|i: int| 0 <= i < calls.len() ==> #[trigger] sound_step(bufs[i], bufs[i + 1], calls[i]),
    ensures
        bufs.last().cached(path) == replayed_sound(calls, path),
{
    lemma_sound_prefix(bufs, calls, calls.len() as int, path);
    assert(calls.take(calls.len() as int) =~= calls);
}

impl Default for SoundBuffer {
    fn default() -> (b: Self)
        ensures
            b.wf(),
            b.count() == 0,
            forall|p: Seq<char>| b.cached(p) is None,
    {
        Self::new()
    }
}

// ──────────────────────────────────────────────
// Spatial audio
// ──────────────────────────────────────────────

/// Distance attenuation for positioned sound sources (an inverse distance
/// model; the volume computation is floating point and lives with playback).
#[derive(Debug, Clone, Copy)]
pub struct SpatialAudio;

// ──────────────────────────────────────────────
// Music State
// ──────────────────────────────────────────────

/// Playback state of the music player.
#[derive(Debug, Clone, Copy, PartialEq, Eq, Structural)]
pub enum MusicState {
    /// No track loaded.
    Idle,
    /// A track is playing normally.
    Playing,
    /// Crossfade from a previous track is in progress.
    Fading,
}

} // verus!

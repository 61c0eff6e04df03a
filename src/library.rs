//! The track catalog: directories and tracks keyed by the hash of their path.
//!
//! Paths are held as `String`s. The key of a path is its xxh3 64-bit hash.

use vstd::prelude::*;

use std::collections::HashMap;
use std::collections::hash_map::Entry;

verus! {

broadcast use vstd::std_specs::hash::group_hash_axioms;

/// The xxh3 64-bit hash of the UTF-8 bytes of a string.
pub uninterp spec fn xxh3_of(path: Seq<char>) -> u64;

/// Relies on `xxhash_rust::xxh3::xxh3_64`, a function of the bytes alone.
#[verifier::external_body]
pub(crate) fn xxh3_of_str(s: &str) -> (h: u64)
    ensures
        h == xxh3_of(s@),
{
    xxhash_rust::xxh3::xxh3_64(s.as_bytes())
}

/// The codec of a track.
#[derive(Clone, Copy, Debug, PartialEq, Eq, Structural)]
pub enum AudioType {
    Flac,
    Mp3,
    Vorbis,
    Wav,
}

/// What is known of a track beyond its path.
#[derive(Clone, Debug)]
pub struct Metadata {
    pub title: Option<String>,
    pub artists: Vec<String>,
    pub album: Option<String>,
    pub discnum: Option<usize>,
    pub num: Option<usize>,
    /// Length in milliseconds.
    pub duration: Option<u64>,
}

impl Default for Metadata {
    /// Metadata that knows nothing.
    fn default() -> (m: Metadata)
        ensures
            m.title is None,
            m.artists@.len() == 0,
            m.album is None,
            m.discnum is None,
            m.num is None,
            m.duration is None,
    {
        Metadata { title: None, artists: Vec::new(), album: None, discnum: None, num: None, duration: None }
    }
}

/// A track of the catalog.
#[derive(Clone, Debug)]
pub struct Track {
    pub path: String,
    pub audio_type: AudioType,
    pub metadata: Metadata,
}

/// A directory of the catalog: its parent's key, its path, its cover image,
/// and the keys of its subdirectories and tracks.
#[derive(Clone, Debug)]
pub struct Directory {
    pub parent: u64,
    pub path: String,
    pub img: Option<String>,
    pub subdirs: Vec<u64>,
    pub tracks: Vec<u64>,
}

impl Directory {
    /// An empty directory at `path`, with no parent, image, subdirectory or track.
    pub fn new(path: String) -> (d: Directory)
        ensures
            d.parent == 0,
            d.path@ == path@,
            d.img is None,
            d.subdirs@.len() == 0,
            d.tracks@.len() == 0,
    {
        Directory { parent: 0, path, img: None, subdirs: Vec::new(), tracks: Vec::new() }
    }
}

/// The key of a directory: the hash of its path.
pub fn directory_hash(dir: &Directory) -> (h: u64)
    ensures
        h == xxh3_of(dir.path@),
{
    xxh3_of_str(dir.path.as_str())
}

/// The key of a path.
pub fn path_hash(path: &String) -> (h: u64)
    ensures
        h == xxh3_of(path@),
{
    xxh3_of_str(path.as_str())
}

/// The key of a track: the hash of its path.
pub fn track_hash(track: &Track) -> (h: u64)
    ensures
        h == xxh3_of(track.path@),
{
    xxh3_of_str(track.path.as_str())
}

/// `dirs` with the parent of each directory listed in `subs` set to `p`.
pub open spec fn reparented(dirs: Map<u64, Directory>, subs: Seq<u64>, p: u64) -> Map<u64, Directory> {
    Map::new(
        |k: u64| dirs.contains_key(k),
        |k: u64|
            if subs.contains(k) {
                Directory { parent: p, ..dirs[k] }
            } else {
                dirs[k]
            },
    )
}

/// Every track that a directory of `dirs` lists is in `tracks`.
pub open spec fn closed_maps(dirs: Map<u64, Directory>, tracks: Map<u64, Track>) -> bool {
    forall|d: u64, i: int|
        #![trigger dirs[d].tracks@[i]]
        dirs.contains_key(d) && 0 <= i < dirs[d].tracks@.len() ==> tracks.contains_key(dirs[d].tracks@[i])
}

/// Adding a directory whose tracks are all registered keeps a closed
/// catalog closed; reparenting its subdirectories changes no track list.
pub proof fn lemma_add_directory_keeps_closed(
    dirs: Map<u64, Directory>,
    tracks: Map<u64, Track>,
    subs: Seq<u64>,
    id: u64,
    d: Directory,
)
    requires
        closed_maps(dirs, tracks),
        forall|i: int| 0 <= i < d.tracks@.len() ==> tracks.contains_key(#[trigger] d.tracks@[i]),
    ensures
        closed_maps(reparented(dirs, subs, id).insert(id, d), tracks),
{
    let nd = reparented(dirs, subs, id).insert(id, d);
    assert forall|k: u64, i: int|
        #![trigger nd[k].tracks@[i]]
        nd.contains_key(k) && 0 <= i < nd[k].tracks@.len() implies tracks.contains_key(nd[k].tracks@[i]) by {
        if k != id {
            assert(nd[k].tracks == dirs[k].tracks);
            assert(dirs[k].tracks@[i] == nd[k].tracks@[i]);
        }
    }
}

/// The catalog of directories and tracks, and the root and current directory.
#[derive(Clone, Debug)]
pub struct Library {
    pub root_dir: u64,
    pub curr_dir: u64,
    dir_registry: HashMap<u64, Directory>,
    track_registry: HashMap<u64, Track>,
}

impl Library {
    /// The key of the root directory.
    pub closed spec fn root(&self) -> u64 {
        self.root_dir
    }

    /// The key of the directory being viewed.
    pub closed spec fn curr(&self) -> u64 {
        self.curr_dir
    }

    /// The directories, by key.
    pub closed spec fn dirs(&self) -> Map<u64, Directory> {
        self.dir_registry@
    }

    /// The tracks, by key.
    pub closed spec fn tracks(&self) -> Map<u64, Track> {
        self.track_registry@
    }

    /// Every track a directory lists is registered.
    pub open spec fn closed(&self) -> bool {
        closed_maps(self.dirs(), self.tracks())
    }

    /// Every track is held under the hash of its path.
    pub open spec fn wf(&self) -> bool {
        forall|k: u64| #[trigger] self.tracks().contains_key(k) ==> xxh3_of(self.tracks()[k].path@) == k
    }

    /// Removes and returns the track with key `id`, if there is one.
    pub(crate) fn take_track(&mut self, id: u64) -> (r: Option<Track>)
        ensures
            final(self).tracks() == old(self).tracks().remove(id),
            final(self).dirs() == old(self).dirs(),
            final(self).root() == old(self).root(),
            final(self).curr() == old(self).curr(),
            match r {
                Some(t) => old(self).tracks().contains_key(id) && t == old(self).tracks()[id],
                None => !old(self).tracks().contains_key(id),
            },
    {
        self.track_registry.remove(&id)
    }

    /// Removes and returns the directory with key `id`, if there is one.
    pub(crate) fn take_directory(&mut self, id: u64) -> (r: Option<Directory>)
        ensures
            final(self).dirs() == old(self).dirs().remove(id),
            final(self).tracks() == old(self).tracks(),
            final(self).root() == old(self).root(),
            final(self).curr() == old(self).curr(),
            match r {
                Some(d) => old(self).dirs().contains_key(id) && d == old(self).dirs()[id],
                None => !old(self).dirs().contains_key(id),
            },
    {
        self.dir_registry.remove(&id)
    }

    /// An empty catalog.
    pub fn new() -> (l: Library)
        ensures
            l.root() == 0,
            l.curr() == 0,
            l.dirs() == Map::<u64, Directory>::empty(),
            l.tracks() == Map::<u64, Track>::empty(),
            l.wf(),
            l.closed(),
    {
        Library { root_dir: 0, curr_dir: 0, dir_registry: HashMap::new(), track_registry: HashMap::new() }
    }

    /// Adds `dir` under the key of its path, replacing any directory held
    /// there, and makes it the parent of those of its subdirectories that
    /// the catalog holds. Returns the key.
    pub fn add_directory(&mut self, dir: Directory) -> (id: u64)
        ensures
            id == xxh3_of(dir.path@),
            final(self).dirs() == reparented(old(self).dirs(), dir.subdirs@, id).insert(id, dir),
            final(self).tracks() == old(self).tracks(),
            final(self).root() == old(self).root(),
            final(self).curr() == old(self).curr(),
    {
        let hash = directory_hash(&dir);
        let mut i: usize = 0;
        while i < dir.subdirs.len()
            invariant
                0 <= i <= dir.subdirs@.len(),
                hash == xxh3_of(dir.path@),
                self.dir_registry@ == reparented(old(self).dirs(), dir.subdirs@.take(i as int), hash),
                self.track_registry@ == old(self).tracks(),
                self.root() == old(self).root(),
                self.curr() == old(self).curr(),
            decreases dir.subdirs@.len() - i,
        {
            let sub = dir.subdirs[i];
            let ghost before = self.dir_registry@;
            match self.dir_registry.remove(&sub) {
                Some(d) => {
                    let mut d = d;
                    d.parent = hash;
                    self.dir_registry.insert(sub, d);
                },
                None => {},
            }
            assert(self.dir_registry@ =~= reparented(old(self).dirs(), dir.subdirs@.take(i as int + 1), hash)) by {
                assert(dir.subdirs@.take(i as int + 1) =~= dir.subdirs@.take(i as int).push(sub));
                assert forall|k: u64| #[trigger] dir.subdirs@.take(i as int + 1).contains(k) <==> (
                dir.subdirs@.take(i as int).contains(k) || k == sub) by {
                    if k == sub {
                        assert(dir.subdirs@.take(i as int + 1)[i as int] == sub);
                    }
                    if dir.subdirs@.take(i as int + 1).contains(k) && k != sub {
                        let j = choose|j: int| 0 <= j < i + 1 && #[trigger] dir.subdirs@.take(i as int + 1)[j] == k;
                        assert(dir.subdirs@.take(i as int)[j] == k);
                    }
                    if dir.subdirs@.take(i as int).contains(k) {
                        let j = choose|j: int| 0 <= j < i && #[trigger] dir.subdirs@.take(i as int)[j] == k;
                        assert(dir.subdirs@.take(i as int + 1)[j] == k);
                    }
                }
            }
            i = i + 1;
        }
        assert(dir.subdirs@.take(dir.subdirs@.len() as int) =~= dir.subdirs@);
        self.dir_registry.insert(hash, dir);
        hash
    }

    /// The directory with key `id`, if the catalog holds one.
    pub fn get_directory(&self, id: u64) -> (r: Option<&Directory>)
        ensures
            match r {
                Some(d) => self.dirs().contains_key(id) && *d == self.dirs()[id],
                None => !self.dirs().contains_key(id),
            },
    {
        self.dir_registry.get(&id)
    }

    /// Mutable access to the directory with key `id`, if the catalog holds one.
    pub fn get_directory_mut(&mut self, id: u64) -> (r: Option<&mut Directory>)
        ensures
            match r {
                Some(d) => old(self).dirs().contains_key(id) && *d == old(self).dirs()[id]
                    && final(self).dirs() == old(self).dirs().insert(id, *final(d)),
                None => !old(self).dirs().contains_key(id) && final(self).dirs() == old(self).dirs(),
            },
            final(self).tracks() == old(self).tracks(),
            final(self).root() == old(self).root(),
            final(self).curr() == old(self).curr(),
    {
        match self.dir_registry.entry(id) {
            Entry::Occupied(o) => Some(o.into_mut()),
            Entry::Vacant(_) => None,
        }
    }

    /// Adds `track` under the key of its path, replacing any track held
    /// there. Returns the key.
    pub fn add_track(&mut self, track: Track) -> (id: u64)
        ensures
            id == xxh3_of(track.path@),
            final(self).tracks() == old(self).tracks().insert(id, track),
            final(self).dirs() == old(self).dirs(),
            final(self).root() == old(self).root(),
            final(self).curr() == old(self).curr(),
    {
        let hash = track_hash(&track);
        self.track_registry.insert(hash, track);
        hash
    }

    /// The track with key `id`, if the catalog holds one.
    pub fn get_track(&self, id: u64) -> (r: Option<&Track>)
        ensures
            match r {
                Some(t) => self.tracks().contains_key(id) && *t == self.tracks()[id],
                None => !self.tracks().contains_key(id),
            },
    {
        self.track_registry.get(&id)
    }

    /// The directory being viewed.
    pub fn current_directory(&self) -> (d: &Directory)
        requires
            self.dirs().contains_key(self.curr()),
        ensures
            *d == self.dirs()[self.curr()],
    {
        self.dir_registry.get(&self.curr_dir).unwrap()
    }

    /// The root directory.
    pub fn root_directory(&self) -> (d: &Directory)
        requires
            self.dirs().contains_key(self.root()),
        ensures
            *d == self.dirs()[self.root()],
    {
        self.dir_registry.get(&self.root_dir).unwrap()
    }

    /// Makes `id` the directory being viewed.
    pub fn set_current(&mut self, id: u64)
        ensures
            final(self).curr() == id,
            final(self).root() == old(self).root(),
            final(self).dirs() == old(self).dirs(),
            final(self).tracks() == old(self).tracks(),
    {
        self.curr_dir = id;
    }

    /// Makes `id` the root directory, and the one being viewed.
    pub fn set_root(&mut self, id: u64)
        ensures
            final(self).root() == id,
            final(self).curr() == id,
            final(self).dirs() == old(self).dirs(),
            final(self).tracks() == old(self).tracks(),
    {
        self.root_dir = id;
        self.curr_dir = id;
    }
}

} // verus!

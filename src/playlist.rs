//! Playlists: a title, an optional image and an ordered list of tracks, each
//! either resolved to a catalog key or left as an unresolved path.

use vstd::prelude::*;

use std::collections::HashMap;
use std::collections::hash_map::{Entry, Iter};

use crate::library::{xxh3_of, xxh3_of_str};
use vstd::std_specs::iter::IteratorSpec;

verus! {

broadcast use vstd::std_specs::hash::group_hash_axioms;

/// A playlist entry.
#[derive(Clone, Debug)]
pub enum PlaylistTrack {
    /// A track present on disk, with its catalog key and path.
    Track(u64, String),
    /// A path that could not be found.
    Unresolved(String),
}

impl PlaylistTrack {
    /// The entry's path.
    pub open spec fn path_view(self) -> Seq<char> {
        match self {
            PlaylistTrack::Track(_, p) => p@,
            PlaylistTrack::Unresolved(p) => p@,
        }
    }
}

/// A playlist as it is stored in its file: a title, an optional image path
/// and the track paths in order.
#[derive(Clone, Debug)]
pub struct TomlPlaylist {
    pub title: String,
    pub img: Option<String>,
    pub tracks: Vec<String>,
}

/// A playlist.
#[derive(Clone, Debug)]
pub struct Playlist {
    /// The name of the file it is stored in.
    pub filename: String,
    pub title: String,
    pub img: Option<String>,
    pub tracks: Vec<PlaylistTrack>,
}

impl Playlist {
    /// A playlist from its parts.
    pub fn new(title: String, filename: String, img: Option<String>, tracks: Vec<PlaylistTrack>) -> (p: Playlist)
        ensures
            p.title == title,
            p.filename == filename,
            p.img == img,
            p.tracks == tracks,
    {
        Playlist { title, filename, img, tracks }
    }

    /// A playlist from its stored form. `present[i]` tells whether the
    /// file of the `i`-th track exists: those that do are resolved to their
    /// catalog key, the others are kept as unresolved paths, in order.
    pub fn from_toml(toml: TomlPlaylist, filename: String, present: &Vec<bool>) -> (p: Playlist)
        requires
            present@.len() == toml.tracks@.len(),
        ensures
            p.filename == filename,
            p.title == toml.title,
            p.img == toml.img,
            p.tracks@.len() == toml.tracks@.len(),
            forall|i: int|
                0 <= i < p.tracks@.len() ==> (if present@[i] {
                    #[trigger] p.tracks@[i] matches PlaylistTrack::Track(id, path) && id == xxh3_of(
                        toml.tracks@[i]@,
                    ) && path@ == toml.tracks@[i]@
                } else {
                    p.tracks@[i] matches PlaylistTrack::Unresolved(path) && path@ == toml.tracks@[i]@
                }),
    {
        let TomlPlaylist { title, img, tracks: paths } = toml;
        let mut tracks: Vec<PlaylistTrack> = Vec::new();
        let mut i: usize = 0;
        while i < paths.len()
            invariant
                0 <= i <= paths@.len(),
                paths@ == toml.tracks@,
                present@.len() == paths@.len(),
                tracks@.len() == i,
                forall|j: int|
                    0 <= j < i ==> (if present@[j] {
                        #[trigger] tracks@[j] matches PlaylistTrack::Track(id, path) && id == xxh3_of(
                            paths@[j]@,
                        ) && path@ == paths@[j]@
                    } else {
                        tracks@[j] matches PlaylistTrack::Unresolved(path) && path@ == paths@[j]@
                    }),
            decreases paths@.len() - i,
        {
            let path = paths[i].as_str().to_owned();
            if present[i] {
                let id = xxh3_of_str(path.as_str());
                tracks.push(PlaylistTrack::Track(id, path));
            } else {
                tracks.push(PlaylistTrack::Unresolved(path));
            }
            i = i + 1;
        }
        Playlist { filename, title, img, tracks }
    }

    /// The stored form: title, image and every track's path, in order.
    pub fn to_toml(&self) -> (t: TomlPlaylist)
        ensures
            t.title@ == self.title@,
            t.img is Some <==> self.img is Some,
            t.img is Some ==> t.img->0@ == self.img->0@,
            t.tracks@.len() == self.tracks@.len(),
            forall|i: int| 0 <= i < t.tracks@.len() ==> (#[trigger] t.tracks@[i])@ == self.tracks@[i].path_view(),
    {
        let img = match &self.img {
            Some(s) => Some(s.as_str().to_owned()),
            None => None,
        };
        let mut tracks: Vec<String> = Vec::new();
        let mut i: usize = 0;
        while i < self.tracks.len()
            invariant
                0 <= i <= self.tracks@.len(),
                tracks@.len() == i,
                forall|j: int| 0 <= j < i ==> (#[trigger] tracks@[j])@ == self.tracks@[j].path_view(),
            decreases self.tracks@.len() - i,
        {
            let path = match &self.tracks[i] {
                PlaylistTrack::Track(_, p) => p.as_str().to_owned(),
                PlaylistTrack::Unresolved(p) => p.as_str().to_owned(),
            };
            tracks.push(path);
            i = i + 1;
        }
        TomlPlaylist { title: self.title.as_str().to_owned(), img, tracks }
    }

    /// The text shown for the playlist: its title.
    pub fn to_string(&self) -> (s: String)
        ensures
            s@ == self.title@,
    {
        self.title.as_str().to_owned()
    }
}

/// The playlists, keyed by the hash of their file name.
pub struct PlaylistMap {
    map: HashMap<u64, Playlist>,
}

impl PlaylistMap {
    /// The playlists, by key.
    pub closed spec fn view(&self) -> Map<u64, Playlist> {
        self.map@
    }

    /// No playlists.
    pub fn new() -> (m: PlaylistMap)
        ensures
            m@ == Map::<u64, Playlist>::empty(),
    {
        PlaylistMap { map: HashMap::new() }
    }

    /// Adds `pl` under the hash of its file name, replacing any playlist
    /// held there. Returns the key.
    pub fn add_playlist(&mut self, pl: Playlist) -> (id: u64)
        ensures
            id == xxh3_of(pl.filename@),
            final(self)@ == old(self)@.insert(id, pl),
    {
        let id = xxh3_of_str(pl.filename.as_str());
        self.map.insert(id, pl);
        id
    }

    /// The playlist with key `id`, if there is one.
    pub fn get_playlist(&self, id: u64) -> (r: Option<&Playlist>)
        ensures
            match r {
                Some(p) => self@.contains_key(id) && *p == self@[id],
                None => !self@.contains_key(id),
            },
    {
        self.map.get(&id)
    }

    /// Mutable access to the playlist with key `id`, if there is one.
    pub fn get_playlist_mut(&mut self, id: u64) -> (r: Option<&mut Playlist>)
        ensures
            match r {
                Some(p) => old(self)@.contains_key(id) && *p == old(self)@[id] && final(self)@ == old(
                    self,
                )@.insert(id, *final(p)),
                None => !old(self)@.contains_key(id) && final(self)@ == old(self)@,
            },
    {
        match self.map.entry(id) {
            Entry::Occupied(o) => Some(o.into_mut()),
            Entry::Vacant(_) => None,
        }
    }

    /// Every playlist with its key, in no particular order.
    pub fn playlists(&self) -> (it: Iter<'_, u64, Playlist>)
        ensures
            it.remaining().len() == self@.dom().len(),
            forall|k: u64| #[trigger] self@.contains_key(k) ==> it.remaining().contains((&k, &self@[k])),
    {
        self.map.iter()
    }

    /// Removes and returns the playlist with key `id`, if there is one.
    pub fn remove_playlist(&mut self, id: u64) -> (r: Option<Playlist>)
        ensures
            final(self)@ == old(self)@.remove(id),
            match r {
                Some(p) => old(self)@.contains_key(id) && p == old(self)@[id],
                None => !old(self)@.contains_key(id),
            },
    {
        self.map.remove(&id)
    }
}

} // verus!

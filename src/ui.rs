//! The state the interface keeps around playback: what is playing, what is
//! viewed, and the messages that change the queue and the sidebar.

use vstd::prelude::*;

use crate::config::{Library as LibrarySettings, Playlists as PlaylistSettings};
use crate::library::Library;

verus! {

/// What a sidebar pin refers to.
#[derive(Clone, Copy, Debug, PartialEq, Eq, Structural)]
pub enum PinKind {
    Library,
    Playlist,
}

/// Whether playback runs.
#[derive(Clone, Copy, Debug, Default, PartialEq, Eq, Structural)]
pub enum PlayStatus {
    #[default]
    Pause,
    Play,
    Stopped,
}

/// What is repeated when the queue runs out.
#[derive(Clone, Copy, Debug, Default, PartialEq, Eq, Structural)]
pub enum RepeatStatus {
    /// Nothing is repeated.
    #[default]
    Off,
    One,
    All,
}

/// What the main view shows: the catalog, or a playlist (none chosen yet).
#[derive(Clone, Copy, Debug, PartialEq, Eq, Structural)]
pub enum Viewing {
    Library,
    Playlist(Option<u64>),
}

/// Changes to the play queue.
#[derive(Clone, Copy, Debug, PartialEq, Eq, Structural)]
pub enum QueueMessage {
    Append(u64),
    PlayFolder,
    PlayList,
    PlayTrack(usize),
    Remove(usize),
    Shuffle,
    ShuffleFolder,
    ShuffleList,
    SkipBack,
    SkipForward,
    Stop,
    Swap(usize, usize),
}

/// Changes to the sidebar's pins.
#[derive(Clone, Debug)]
pub enum SidebarMessage {
    LibraryAppend(u64, String),
    LibraryRemove(usize),
    LibrarySwap(usize, usize),
    PlaylistAppend(u64, String),
    PlaylistRemove(usize),
    PlaylistSwap(usize, usize),
}

/// The pinned directories and playlists, each with its key and label.
pub struct Sidebar {
    library_pins: Vec<(u64, String)>,
    playlist_pins: Vec<(u64, String)>,
}

impl Sidebar {
    pub closed spec fn library_pins_spec(&self) -> Seq<(u64, String)> {
        self.library_pins@
    }

    pub closed spec fn playlist_pins_spec(&self) -> Seq<(u64, String)> {
        self.playlist_pins@
    }

    /// A sidebar with the given pins.
    pub fn new(library_pins: Vec<(u64, String)>, playlist_pins: Vec<(u64, String)>) -> (s: Sidebar)
        ensures
            s.library_pins_spec() == library_pins@,
            s.playlist_pins_spec() == playlist_pins@,
    {
        Sidebar { library_pins, playlist_pins }
    }

    /// Applies a change to the pins. The settings' pin lists are kept in
    /// step with the sidebar's: a removal or swap applies to both lists of
    /// its kind, and only when every index it names exists in both;
    /// otherwise nothing changes. Returns whether the change was applied.
    pub fn update(&mut self, msg: SidebarMessage, settings: &mut LibrarySettings, playlists: &mut PlaylistSettings) -> (ok: bool)
        ensures
            final(settings).path == old(settings).path,
            final(settings).full_rescan_on_start == old(settings).full_rescan_on_start,
            match msg {
                SidebarMessage::LibraryAppend(id, name) => ok && final(self).library_pins_spec()
                    == old(self).library_pins_spec().push((id, name)) && final(self).playlist_pins_spec()
                    == old(self).playlist_pins_spec() && final(settings).pins@ == old(settings).pins@
                    && final(playlists).pins@ == old(playlists).pins@,
                SidebarMessage::PlaylistAppend(id, name) => ok && final(self).playlist_pins_spec()
                    == old(self).playlist_pins_spec().push((id, name)) && final(self).library_pins_spec()
                    == old(self).library_pins_spec() && final(settings).pins@ == old(settings).pins@
                    && final(playlists).pins@ == old(playlists).pins@,
                SidebarMessage::LibraryRemove(i) => {
                    &&& ok == (i < old(self).library_pins_spec().len() && i < old(settings).pins@.len())
                    &&& ok ==> final(self).library_pins_spec() == old(self).library_pins_spec().remove(i as int)
                        && final(settings).pins@ == old(settings).pins@.remove(i as int)
                    &&& !ok ==> final(self).library_pins_spec() == old(self).library_pins_spec()
                        && final(settings).pins@ == old(settings).pins@
                    &&& final(self).playlist_pins_spec() == old(self).playlist_pins_spec()
                    &&& final(playlists).pins@ == old(playlists).pins@
                },
                SidebarMessage::PlaylistRemove(i) => {
                    &&& ok == (i < old(self).playlist_pins_spec().len() && i < old(playlists).pins@.len())
                    &&& ok ==> final(self).playlist_pins_spec() == old(self).playlist_pins_spec().remove(i as int)
                        && final(playlists).pins@ == old(playlists).pins@.remove(i as int)
                    &&& !ok ==> final(self).playlist_pins_spec() == old(self).playlist_pins_spec()
                        && final(playlists).pins@ == old(playlists).pins@
                    &&& final(self).library_pins_spec() == old(self).library_pins_spec()
                    &&& final(settings).pins@ == old(settings).pins@
                },
                SidebarMessage::LibrarySwap(i, j) => {
                    &&& ok == (i < old(self).library_pins_spec().len() && j < old(self).library_pins_spec().len()
                        && i < old(settings).pins@.len() && j < old(settings).pins@.len())
                    &&& ok ==> final(self).library_pins_spec() == swapped(old(self).library_pins_spec(), i as int, j as int)
                        && final(settings).pins@ == swapped(old(settings).pins@, i as int, j as int)
                    &&& !ok ==> final(self).library_pins_spec() == old(self).library_pins_spec()
                        && final(settings).pins@ == old(settings).pins@
                    &&& final(self).playlist_pins_spec() == old(self).playlist_pins_spec()
                    &&& final(playlists).pins@ == old(playlists).pins@
                },
                SidebarMessage::PlaylistSwap(i, j) => {
                    &&& ok == (i < old(self).playlist_pins_spec().len() && j < old(self).playlist_pins_spec().len()
                        && i < old(playlists).pins@.len() && j < old(playlists).pins@.len())
                    &&& ok ==> final(self).playlist_pins_spec() == swapped(old(self).playlist_pins_spec(), i as int, j as int)
                        && final(playlists).pins@ == swapped(old(playlists).pins@, i as int, j as int)
                    &&& !ok ==> final(self).playlist_pins_spec() == old(self).playlist_pins_spec()
                        && final(playlists).pins@ == old(playlists).pins@
                    &&& final(self).library_pins_spec() == old(self).library_pins_spec()
                    &&& final(settings).pins@ == old(settings).pins@
                },
            },
    {
        match msg {
            SidebarMessage::LibraryAppend(id, name) => {
                self.library_pins.push((id, name));
                true
            },
            SidebarMessage::PlaylistAppend(id, name) => {
                self.playlist_pins.push((id, name));
                true
            },
            SidebarMessage::LibraryRemove(i) => {
                if i < self.library_pins.len() && i < settings.pins.len() {
                    settings.pins.remove(i);
                    self.library_pins.remove(i);
                    true
                } else {
                    false
                }
            },
            SidebarMessage::PlaylistRemove(i) => {
                if i < self.playlist_pins.len() && i < playlists.pins.len() {
                    playlists.pins.remove(i);
                    self.playlist_pins.remove(i);
                    true
                } else {
                    false
                }
            },
            SidebarMessage::LibrarySwap(i, j) => {
                if i < self.library_pins.len() && j < self.library_pins.len() && i < settings.pins.len()
                    && j < settings.pins.len() {
                    swap_in(&mut settings.pins, i, j);
                    swap_in(&mut self.library_pins, i, j);
                    true
                } else {
                    false
                }
            },
            SidebarMessage::PlaylistSwap(i, j) => {
                if i < self.playlist_pins.len() && j < self.playlist_pins.len() && i < playlists.pins.len()
                    && j < playlists.pins.len() {
                    swap_in(&mut playlists.pins, i, j);
                    swap_in(&mut self.playlist_pins, i, j);
                    true
                } else {
                    false
                }
            },
        }
    }
}

/// `s` with the items at `i` and `j` exchanged.
pub open spec fn swapped<T>(s: Seq<T>, i: int, j: int) -> Seq<T> {
    s.update(i, s[j]).update(j, s[i])
}

fn swap_in<T>(v: &mut Vec<T>, i: usize, j: usize)
    requires
        i < old(v)@.len(),
        j < old(v)@.len(),
    ensures
        final(v)@ == swapped(old(v)@, i as int, j as int),
{
    if i != j {
        let (lo, hi) = if i < j { (i, j) } else { (j, i) };
        let b = v.remove(hi);
        let a = v.remove(lo);
        v.insert(lo, b);
        v.insert(hi, a);
        assert(v@ =~= swapped(old(v)@, i as int, j as int));
    } else {
        assert(old(v)@ =~= swapped(old(v)@, i as int, j as int));
    }
}

/// The first-run screen: the path typed so far, whether a scan runs or
/// failed, and the catalog once scanned.
pub struct StartScreen {
    error: bool,
    pub lib: Option<Library>,
    path: String,
    scanning: bool,
}

impl StartScreen {
    pub closed spec fn lib_spec(&self) -> Option<Library> {
        self.lib
    }

    pub closed spec fn error_spec(&self) -> bool {
        self.error
    }

    pub closed spec fn path_spec(&self) -> Seq<char> {
        self.path@
    }

    pub closed spec fn scanning_spec(&self) -> bool {
        self.scanning
    }

    /// No path, no catalog, no scan, no error.
    pub fn new() -> (s: StartScreen)
        ensures
            !s.error_spec(),
            s.lib_spec() is None,
            s.path_spec().len() == 0,
            !s.scanning_spec(),
    {
        StartScreen { error: false, lib: None, path: String::new(), scanning: false }
    }
}

} // verus!

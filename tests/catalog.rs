use polypody::config::{Library as LibrarySettings, Playlists};
use polypody::images::{sort_images, ImageFile};
use polypody::library::{path_hash, AudioType, Directory, Library, Metadata, Track};
use polypody::playlist::{Playlist, PlaylistMap, PlaylistTrack, TomlPlaylist};
use polypody::scan::{partial_scan, scan, scan_file, FileKind, ScannedDir};
use polypody::sort::sort_tracks;
use polypody::text::{print_artists, print_duration};
use polypody::ui::{Sidebar, SidebarMessage, StartScreen};

fn track(path: &str) -> Track {
    Track {
        path: String::from(path),
        audio_type: AudioType::Mp3,
        metadata: Metadata::default(),
    }
}

fn track_with_title(s: &str) -> Track {
    Track {
        path: String::new(),
        audio_type: AudioType::Mp3,
        metadata: Metadata {
            title: Some(String::from(s)),
            ..Metadata::default()
        },
    }
}

#[test]
#[allow(non_snake_case)]
fn alphabetical_sort_is_correct() {
    let track_A = track("A");
    let track_B = track("B");
    let track_a = track_with_title("a");

    let mut tracks = vec![track_A, track_B, track_a];
    sort_tracks(&mut tracks, true);
    assert_eq!(tracks[0].path, String::from("A"));
    assert_eq!(tracks[1].metadata.title, Some(String::from("a")));
    assert_eq!(tracks[2].path, String::from("B"));
}

#[test]
fn sort_ignores_case() {
    let mut tracks = vec![track("B"), track("a")];
    sort_tracks(&mut tracks, false);
    assert_eq!(tracks[0].path, "a");
    assert_eq!(tracks[1].path, "B");
}

#[test]
fn sort_orders_by_disc_then_number() {
    let mut t1 = track("z");
    t1.metadata.discnum = Some(1);
    t1.metadata.num = Some(2);
    let mut t2 = track("y");
    t2.metadata.discnum = Some(1);
    t2.metadata.num = Some(1);
    let mut t3 = track("x");
    t3.metadata.discnum = Some(2);
    t3.metadata.num = Some(1);
    let t4 = track("w");
    let mut tracks = vec![t3, t1, t4, t2];
    sort_tracks(&mut tracks, true);
    let paths: Vec<&str> = tracks.iter().map(|t| t.path.as_str()).collect();
    assert_eq!(paths, vec!["w", "y", "z", "x"]);
}

#[test]
fn sort_of_nothing_is_nothing() {
    let mut tracks: Vec<Track> = vec![];
    sort_tracks(&mut tracks, true);
    assert!(tracks.is_empty());
}

#[test]
fn path_hash_is_xxh3_of_the_bytes() {
    let p = String::from("/music/album");
    assert_eq!(path_hash(&p), xxhash_rust::xxh3::xxh3_64(b"/music/album"));
    assert_ne!(path_hash(&p), path_hash(&String::from("/music/other")));
}

#[test]
fn add_directory_reparents_known_subdirectories() {
    let mut lib = Library::new();
    let child = Directory::new(String::from("/m/a"));
    let child_id = lib.add_directory(child);
    assert_eq!(lib.get_directory(child_id).unwrap().parent, 0);
    let mut parent = Directory::new(String::from("/m"));
    parent.subdirs.push(child_id);
    parent.subdirs.push(12345);
    let parent_id = lib.add_directory(parent);
    assert_eq!(parent_id, path_hash(&String::from("/m")));
    assert_eq!(lib.get_directory(child_id).unwrap().parent, parent_id);
    assert!(lib.get_directory(12345).is_none());
    lib.set_root(parent_id);
    assert_eq!(lib.root_directory().path, "/m");
    lib.set_current(child_id);
    assert_eq!(lib.current_directory().path, "/m/a");
    assert_eq!(lib.root_dir, parent_id);
}

#[test]
fn get_directory_mut_changes_the_stored_directory() {
    let mut lib = Library::new();
    let id = lib.add_directory(Directory::new(String::from("/x")));
    lib.get_directory_mut(id).unwrap().img = Some(String::from("/x/c.jpg"));
    assert_eq!(lib.get_directory(id).unwrap().img, Some(String::from("/x/c.jpg")));
    assert!(lib.get_directory_mut(id.wrapping_add(1)).is_none());
}

#[test]
fn add_track_keys_by_path() {
    let mut lib = Library::new();
    let id = lib.add_track(track("/m/song.flac"));
    assert_eq!(id, path_hash(&String::from("/m/song.flac")));
    assert_eq!(lib.get_track(id).unwrap().path, "/m/song.flac");
    assert!(lib.get_track(id ^ 1).is_none());
}

fn image(path: &str, stem: &str) -> ImageFile {
    ImageFile { path: String::from(path), stem: String::from(stem) }
}

#[test]
fn cover_prefers_directory_name() {
    let imgs = vec![image("/a/cover.jpg", "cover"), image("/a/Album.png", "ALBUM")];
    assert_eq!(sort_images(&imgs, &String::from("album")), Some(String::from("/a/Album.png")));
}

#[test]
fn cover_then_folder_then_front() {
    let imgs = vec![image("/a/front.jpg", "front"), image("/a/folder.jpg", "Folder"), image("/a/x.jpg", "x")];
    assert_eq!(sort_images(&imgs, &String::from("d")), Some(String::from("/a/folder.jpg")));
    let imgs = vec![image("/a/front.jpg", "front"), image("/a/my_cover.jpg", "My_Cover")];
    assert_eq!(sort_images(&imgs, &String::from("d")), Some(String::from("/a/my_cover.jpg")));
    let imgs = vec![image("/a/z.jpg", "z"), image("/a/front.jpg", "front")];
    assert_eq!(sort_images(&imgs, &String::from("d")), Some(String::from("/a/front.jpg")));
}

#[test]
fn cover_falls_back_to_first_alphabetical() {
    let imgs = vec![image("/a/c.jpg", "c"), image("/a/b.jpg", "b"), image("/a/d.jpg", "d")];
    assert_eq!(sort_images(&imgs, &String::from("x")), Some(String::from("/a/b.jpg")));
    assert_eq!(sort_images(&vec![image("/a/q.jpg", "q")], &String::from("x")), Some(String::from("/a/q.jpg")));
    assert_eq!(sort_images(&vec![], &String::from("x")), None);
}

fn walked(path: &str, stem: &str, subdirs: Vec<ScannedDir>, tracks: Vec<Track>) -> ScannedDir {
    ScannedDir {
        path: String::from(path),
        stem: String::from(stem),
        subdirs,
        tracks,
        images: vec![],
    }
}

#[test]
fn scan_builds_the_tree() {
    let leaf = walked("/m/a", "a", vec![], vec![track("/m/a/2.mp3"), track("/m/a/1.mp3")]);
    let empty = walked("/m/e", "e", vec![], vec![]);
    let root = walked("/m", "m", vec![leaf, empty], vec![]);
    let lib = scan(root);
    let root_id = path_hash(&String::from("/m"));
    let leaf_id = path_hash(&String::from("/m/a"));
    assert_eq!(lib.root_dir, root_id);
    assert_eq!(lib.curr_dir, root_id);
    assert_eq!(lib.root_directory().subdirs, vec![leaf_id]);
    assert!(lib.get_directory(path_hash(&String::from("/m/e"))).is_none());
    let a = lib.get_directory(leaf_id).unwrap();
    assert_eq!(a.parent, root_id);
    assert_eq!(
        a.tracks,
        vec![path_hash(&String::from("/m/a/1.mp3")), path_hash(&String::from("/m/a/2.mp3"))]
    );
}

#[test]
fn scan_of_an_empty_directory_still_has_a_root() {
    let lib = scan(walked("/empty", "empty", vec![], vec![]));
    assert_eq!(lib.root_directory().path, "/empty");
    assert!(lib.root_directory().tracks.is_empty());
}

#[test]
fn partial_scan_keeps_what_was_there() {
    let lib = scan(walked("/m", "m", vec![], vec![track("/m/1.mp3")]));
    let lib = partial_scan(walked("/m", "m", vec![], vec![track("/m/0.mp3")]), lib);
    let root = lib.root_directory();
    assert_eq!(
        root.tracks,
        vec![path_hash(&String::from("/m/0.mp3")), path_hash(&String::from("/m/1.mp3"))]
    );
}

#[test]
fn playlist_round_trip_through_stored_form() {
    let toml = TomlPlaylist {
        title: String::from("Mix"),
        img: Some(String::from("/i.png")),
        tracks: vec![String::from("/a.mp3"), String::from("/gone.mp3")],
    };
    let pl = Playlist::from_toml(toml, String::from("mix.toml"), &vec![true, false]);
    assert_eq!(pl.title, "Mix");
    assert_eq!(pl.filename, "mix.toml");
    match &pl.tracks[0] {
        PlaylistTrack::Track(id, p) => {
            assert_eq!(*id, path_hash(&String::from("/a.mp3")));
            assert_eq!(p, "/a.mp3");
        }
        _ => panic!("expected a resolved track"),
    }
    assert!(matches!(&pl.tracks[1], PlaylistTrack::Unresolved(p) if p == "/gone.mp3"));
    let back = pl.to_toml();
    assert_eq!(back.title, "Mix");
    assert_eq!(back.img, Some(String::from("/i.png")));
    assert_eq!(back.tracks, vec![String::from("/a.mp3"), String::from("/gone.mp3")]);
    assert_eq!(pl.to_string(), "Mix");
}

#[test]
fn playlist_map_operations() {
    let mut map = PlaylistMap::new();
    let pl = Playlist::new(String::from("T"), String::from("t.toml"), None, vec![]);
    let id = map.add_playlist(pl);
    assert_eq!(id, xxhash_rust::xxh3::xxh3_64(b"t.toml"));
    assert_eq!(map.get_playlist(id).unwrap().title, "T");
    map.get_playlist_mut(id).unwrap().title = String::from("U");
    assert_eq!(map.get_playlist(id).unwrap().title, "U");
    assert_eq!(map.playlists().count(), 1);
    assert!(map.remove_playlist(id).is_some());
    assert!(map.get_playlist(id).is_none());
    assert!(map.remove_playlist(id).is_none());
}

#[test]
fn artists_are_joined() {
    assert_eq!(print_artists(&vec![]), "");
    assert_eq!(print_artists(&vec![String::from("A")]), "A");
    assert_eq!(print_artists(&vec![String::from("A"), String::from("B C")]), "A, B C");
}

#[test]
fn durations_are_printed() {
    assert_eq!(print_duration(0), "00:00");
    assert_eq!(print_duration(65_000), "01:05");
    assert_eq!(print_duration(5_999_999), "99:59");
    assert_eq!(print_duration(6_000_000), "1:40:00");
    assert_eq!(print_duration(36_005_000), "10:00:05");
}

#[test]
fn pins_are_verified() {
    let mut lib = Library::new();
    lib.add_directory(Directory::new(String::from("/kept")));
    let settings = LibrarySettings {
        path: String::from("/"),
        full_rescan_on_start: true,
        pins: vec![String::from("/gone"), String::from("/kept")],
    };
    let settings = settings.verify_pins(&lib);
    assert_eq!(settings.pins, vec![String::from("/kept")]);
    assert!(settings.full_rescan_on_start);
    let pls = Playlists { pins: vec![String::from("a.toml"), String::from("b.toml")] };
    assert_eq!(pls.verify_pins(&vec![false, true]).pins, vec![String::from("b.toml")]);
    let d = LibrarySettings::default();
    assert_eq!(d.path, "/");
    assert!(d.pins.is_empty());
}

#[test]
fn sidebar_edits_are_checked() {
    let mut sidebar = Sidebar::new(
        vec![(1, String::from("a")), (2, String::from("b"))],
        vec![(3, String::from("p"))],
    );
    let mut lib_pins = LibrarySettings {
        path: String::from("/"),
        full_rescan_on_start: false,
        pins: vec![String::from("/a"), String::from("/b")],
    };
    let mut pl_pins = Playlists { pins: vec![String::from("p.toml")] };
    assert!(sidebar.update(SidebarMessage::LibrarySwap(0, 1), &mut lib_pins, &mut pl_pins));
    assert_eq!(lib_pins.pins, vec![String::from("/b"), String::from("/a")]);
    assert!(!sidebar.update(SidebarMessage::LibrarySwap(5, 0), &mut lib_pins, &mut pl_pins));
    assert!(!sidebar.update(SidebarMessage::PlaylistRemove(1), &mut lib_pins, &mut pl_pins));
    assert!(sidebar.update(SidebarMessage::PlaylistRemove(0), &mut lib_pins, &mut pl_pins));
    assert!(pl_pins.pins.is_empty());
    assert_eq!(lib_pins.pins.len(), 2);
    assert!(sidebar.update(SidebarMessage::LibraryRemove(1), &mut lib_pins, &mut pl_pins));
    assert_eq!(lib_pins.pins, vec![String::from("/b")]);
    assert!(sidebar.update(SidebarMessage::PlaylistAppend(4, String::from("q")), &mut lib_pins, &mut pl_pins));
    let _ = StartScreen::new();
}

#[test]
fn file_kinds_by_extension() {
    assert_eq!(scan_file(&String::from("flac")), Some(FileKind::Track(AudioType::Flac)));
    assert_eq!(scan_file(&String::from("mp3")), Some(FileKind::Track(AudioType::Mp3)));
    assert_eq!(scan_file(&String::from("ogg")), Some(FileKind::Track(AudioType::Vorbis)));
    assert_eq!(scan_file(&String::from("wave")), Some(FileKind::Track(AudioType::Wav)));
    assert_eq!(scan_file(&String::from("jpeg")), Some(FileKind::Image));
    assert_eq!(scan_file(&String::from("FLAC")), None);
    assert_eq!(scan_file(&String::from("txt")), None);
}

#[test]
fn sort_keeps_equal_keys_in_order() {
    let mut tracks = vec![track("x"), track_with_title("X"), track("X"), track("a")];
    tracks[1].path = String::from("second");
    sort_tracks(&mut tracks, false);
    let paths: Vec<&str> = tracks.iter().map(|t| t.path.as_str()).collect();
    assert_eq!(paths, vec!["a", "x", "second", "X"]);
}

#[test]
fn rescan_keeps_known_tracks_unchanged() {
    let mut titled = track("/m/1.mp3");
    titled.metadata.title = Some(String::from("One"));
    let lib = scan(walked("/m", "m", vec![], vec![titled]));
    let id = path_hash(&String::from("/m/1.mp3"));
    let lib = partial_scan(walked("/m", "m", vec![], vec![track("/m/1.mp3"), track("/m/2.mp3")]), lib);
    assert_eq!(lib.get_track(id).unwrap().metadata.title, Some(String::from("One")));
    assert_eq!(lib.root_directory().tracks.len(), 2);
}

#[test]
fn repeated_walked_track_is_counted_once() {
    let lib = scan(walked("/m", "m", vec![], vec![track("/m/1.mp3"), track("/m/1.mp3")]));
    assert_eq!(lib.root_directory().tracks, vec![path_hash(&String::from("/m/1.mp3"))]);
}

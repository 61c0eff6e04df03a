//! Building the catalog from a walk of the file system.
//!
//! The walk itself (listing directories, reading each audio file's tags)
//! happens outside; it hands over a tree of what it found. Folding the tree
//! into the catalog keeps what the catalog already holds, sorts each
//! directory's tracks, picks its cover and leaves out directories with
//! neither tracks nor subdirectories.

use vstd::prelude::*;

use crate::images::{sort_images, ImageFile};
use crate::library::{lemma_add_directory_keeps_closed, path_hash, reparented, AudioType, track_hash, xxh3_of, Directory, Library, Track};
use crate::sort::{sort_tracks, sorted_by_key, stable_rearrangement};

verus! {

broadcast use vstd::seq_lib::group_to_multiset_ensures;

/// A directory as the walk found it: its path and file stem, its
/// subdirectories, the tracks read from its audio files, and its images.
#[derive(Debug)]
pub struct ScannedDir {
    pub path: String,
    pub stem: String,
    pub subdirs: Vec<ScannedDir>,
    pub tracks: Vec<Track>,
    pub images: Vec<ImageFile>,
}

/// What a walked file is, by its extension.
#[derive(Clone, Copy, Debug, PartialEq, Eq, Structural)]
pub enum FileKind {
    Track(AudioType),
    Image,
}

/// The kind of a file with extension `ext` (compared exactly), if it is one
/// the catalog takes.
pub open spec fn file_kind_spec(ext: Seq<char>) -> Option<FileKind> {
    if ext == "flac"@ {
        Some(FileKind::Track(AudioType::Flac))
    } else if ext == "mp3"@ {
        Some(FileKind::Track(AudioType::Mp3))
    } else if ext == "ogg"@ {
        Some(FileKind::Track(AudioType::Vorbis))
    } else if ext == "wav"@ || ext == "wave"@ {
        Some(FileKind::Track(AudioType::Wav))
    } else if ext == "jpg"@ || ext == "jpeg"@ || ext == "png"@ {
        Some(FileKind::Image)
    } else {
        None
    }
}

/// Tells tracks (FLAC, MP3, Ogg Vorbis, WAV) and images (JPEG, PNG) apart
/// by their extension.
pub fn scan_file(ext: &String) -> (k: Option<FileKind>)
    ensures
        k == file_kind_spec(ext@),
{
    if *ext == "flac".to_owned() {
        Some(FileKind::Track(AudioType::Flac))
    } else if *ext == "mp3".to_owned() {
        Some(FileKind::Track(AudioType::Mp3))
    } else if *ext == "ogg".to_owned() {
        Some(FileKind::Track(AudioType::Vorbis))
    } else if *ext == "wav".to_owned() || *ext == "wave".to_owned() {
        Some(FileKind::Track(AudioType::Wav))
    } else if *ext == "jpg".to_owned() || *ext == "jpeg".to_owned() || *ext == "png".to_owned() {
        Some(FileKind::Image)
    } else {
        None
    }
}

/// `after` keeps every key of `before`.
pub open spec fn keeps_keys<V>(before: Map<u64, V>, after: Map<u64, V>) -> bool {
    forall|k: u64| #[trigger] before.contains_key(k) ==> after.contains_key(k)
}

fn contains_id(ids: &Vec<u64>, id: u64) -> (r: bool)
    ensures
        r == ids@.contains(id),
{
    let mut i: usize = 0;
    while i < ids.len()
        invariant
            0 <= i <= ids@.len(),
            forall|k: int| 0 <= k < i ==> ids@[k] != id,
        decreases ids@.len() - i,
    {
        if ids[i] == id {
            return true;
        }
        i = i + 1;
    }
    false
}

/// `after` holds every entry of `before`, unchanged.
pub open spec fn keeps_values(before: Map<u64, Track>, after: Map<u64, Track>) -> bool {
    forall|k: u64| #[trigger] before.contains_key(k) ==> after.contains_key(k) && after[k] == before[k]
}

/// No key occurs twice in `s`.
pub open spec fn distinct(s: Seq<u64>) -> bool {
    forall|i: int, j: int| #![trigger s[i], s[j]] 0 <= i < s.len() && 0 <= j < s.len() && i != j ==> s[i] != s[j]
}

/// `ids` lists distinct keys, in key order of the tracks that `tracks`
/// holds under them.
pub open spec fn lists_in_order(tracks: Map<u64, Track>, ids: Seq<u64>) -> bool {
    distinct(ids) && sorted_by_key(ids.map_values(|k: u64| tracks[k]))
}

/// Every directory of `dirs` lists its tracks in order, each once.
pub open spec fn listed_in_order(dirs: Map<u64, Directory>, tracks: Map<u64, Track>) -> bool {
    forall|k: u64| #[trigger] dirs.contains_key(k) ==> lists_in_order(tracks, dirs[k].tracks@)
}

proof fn lemma_lists_in_order_frame(t1: Map<u64, Track>, t2: Map<u64, Track>, ids: Seq<u64>)
    requires
        lists_in_order(t1, ids),
        forall|i: int| 0 <= i < ids.len() ==> t1.contains_key(#[trigger] ids[i]) ==> t2[ids[i]] == t1[ids[i]],
        forall|i: int| 0 <= i < ids.len() ==> t1.contains_key(#[trigger] ids[i]),
    ensures
        lists_in_order(t2, ids),
{
    assert(ids.map_values(|k: u64| t2[k]) =~= ids.map_values(|k: u64| t1[k]));
}

proof fn lemma_add_directory_keeps_order(
    dirs: Map<u64, Directory>,
    tracks: Map<u64, Track>,
    subs: Seq<u64>,
    id: u64,
    d: Directory,
)
    requires
        listed_in_order(dirs, tracks),
        lists_in_order(tracks, d.tracks@),
    ensures
        listed_in_order(reparented(dirs, subs, id).insert(id, d), tracks),
{
    let nd = reparented(dirs, subs, id).insert(id, d);
    assert forall|k: u64| #[trigger] nd.contains_key(k) implies lists_in_order(tracks, nd[k].tracks@) by {
        if k != id {
            assert(nd[k].tracks == dirs[k].tracks);
        }
    }
}

/// Registers each track of `tracks`, whose keys are distinct, in `lib`;
/// returns their keys in order.
fn add_tracks(lib: &mut Library, tracks: Vec<Track>) -> (ids: Vec<u64>)
    requires
        old(lib).wf(),
        distinct(keys_of(tracks@)),
    ensures
        final(lib).wf(),
        final(lib).dirs() == old(lib).dirs(),
        final(lib).root() == old(lib).root(),
        final(lib).curr() == old(lib).curr(),
        ids@ == keys_of(tracks@),
        forall|j: int| 0 <= j < tracks@.len() ==> final(lib).tracks().contains_key(#[trigger] keys_of(tracks@)[j])
            && final(lib).tracks()[keys_of(tracks@)[j]] == tracks@[j],
        forall|k: u64|
            #[trigger] old(lib).tracks().contains_key(k) && !keys_of(tracks@).contains(k)
                ==> final(lib).tracks().contains_key(k) && final(lib).tracks()[k] == old(lib).tracks()[k],
        forall|k: u64|
            #[trigger] final(lib).tracks().contains_key(k)
                ==> old(lib).tracks().contains_key(k) || keys_of(tracks@).contains(k),
{
    let ghost all = tracks@;
    let ghost keys = keys_of(all);
    let mut rest = tracks;
    let mut ids: Vec<u64> = Vec::new();
    while rest.len() > 0
        invariant
            lib.wf(),
            lib.dirs() == old(lib).dirs(),
            lib.root() == old(lib).root(),
            lib.curr() == old(lib).curr(),
            keys == keys_of(all),
            distinct(keys),
            ids@.len() + rest@.len() == all.len(),
            rest@ == all.skip(ids@.len() as int),
            ids@ == keys.take(ids@.len() as int),
            forall|j: int| 0 <= j < ids@.len() ==> lib.tracks().contains_key(#[trigger] keys[j]) && lib.tracks()[keys[j]] == all[j],
            forall|k: u64| #[trigger] old(lib).tracks().contains_key(k) && !ids@.contains(k) ==> lib.tracks().contains_key(k)
                && lib.tracks()[k] == old(lib).tracks()[k],
            forall|k: u64| #[trigger] lib.tracks().contains_key(k) ==> old(lib).tracks().contains_key(k) || ids@.contains(k),
        decreases rest@.len(),
    {
        let ghost i = ids@.len() as int;
        let ghost before = lib.tracks();
        let ghost prev = ids@;
        let t = rest.remove(0);
        assert(t == all[i]);
        let id = lib.add_track(t);
        assert(id == keys[i]);
        ids.push(id);
        assert(ids@ =~= keys.take(i + 1));
        assert forall|j: int| 0 <= j < ids@.len() implies lib.tracks().contains_key(#[trigger] keys[j]) && lib.tracks()[keys[j]] == all[j] by {
            if j < i {
                assert(keys[j] != keys[i]);
            }
        }
        assert forall|k: u64| #[trigger] old(lib).tracks().contains_key(k) && !ids@.contains(k) implies lib.tracks().contains_key(k)
            && lib.tracks()[k] == old(lib).tracks()[k] by {
            assert(ids@[i] == id);
            if prev.contains(k) {
                let j = choose|j: int| 0 <= j < prev.len() && prev[j] == k;
                assert(ids@[j] == k);
            }
        }
        assert forall|k: u64| #[trigger] lib.tracks().contains_key(k) implies old(lib).tracks().contains_key(k) || ids@.contains(k) by {
            assert(ids@[i] == id);
            if k != id && prev.contains(k) {
                let j = choose|j: int| 0 <= j < prev.len() && prev[j] == k;
                assert(ids@[j] == k);
            }
        }
        assert(rest@ =~= all.skip(ids@.len() as int));
    }
    assert(ids@ =~= keys);
    ids
}

/// The keys of the tracks of `s`, in order.
pub open spec fn keys_of(s: Seq<Track>) -> Seq<u64> {
    s.map_values(|t: Track| xxh3_of(t.path@))
}

proof fn lemma_push_keeps_contains(s: Seq<u64>, x: u64, y: u64)
    requires
        s.contains(y),
    ensures
        s.push(x).contains(y),
{
    let j = choose|j: int| 0 <= j < s.len() && s[j] == y;
    assert(s.push(x)[j] == y);
}

proof fn lemma_permutation_keeps_keys(a: Seq<Track>, b: Seq<Track>, k: u64)
    requires
        a.to_multiset() == b.to_multiset(),
        keys_of(a).contains(k),
    ensures
        keys_of(b).contains(k),
{
    let m = choose|m: int| 0 <= m < keys_of(a).len() && keys_of(a)[m] == k;
    assert(a.contains(a[m]));
    assert(b.to_multiset().count(a[m]) > 0);
    assert(b.contains(a[m]));
    let j = choose|j: int| 0 <= j < b.len() && b[j] == a[m];
    assert(keys_of(b)[j] == k);
}

/// Folds one walked directory, and below it its subdirectories, into `lib`.
/// Tracks the catalog already holds are kept as they are; the directory's
/// tracks are sorted and its cover picked if it has none. A walked track
/// whose key already came up in the same directory is counted once. Returns
/// the directory's key, unless it ends up with neither tracks nor
/// subdirectories, in which case it is not registered.
pub fn scan_dir(lib: &mut Library, dir: ScannedDir) -> (r: Option<u64>)
    requires
        old(lib).wf(),
    ensures
        final(lib).wf(),
        keeps_keys(old(lib).dirs(), final(lib).dirs()),
        keeps_values(old(lib).tracks(), final(lib).tracks()),
        old(lib).closed() ==> final(lib).closed(),
        old(lib).closed() && listed_in_order(old(lib).dirs(), old(lib).tracks()) ==> listed_in_order(
            final(lib).dirs(),
            final(lib).tracks(),
        ),
        final(lib).root() == old(lib).root(),
        final(lib).curr() == old(lib).curr(),
        r matches Some(id) ==> id == xxh3_of(dir.path@) && final(lib).dirs().contains_key(id),
        forall|i: int| 0 <= i < dir.tracks@.len() ==> final(lib).tracks().contains_key(
            xxh3_of(#[trigger] dir.tracks@[i].path@),
        ),
    decreases dir,
{
    let ghost orig = dir;
    let ScannedDir { path, stem, subdirs, tracks, images } = dir;
    let id = path_hash(&path);
    let taken = lib.take_directory(id);
    let had = taken.is_some();
    let mut d = match taken {
        Some(existing) => existing,
        None => Directory::new(String::new()),
    };
    d.path = path;
    let ghost good = old(lib).closed() && listed_in_order(old(lib).dirs(), old(lib).tracks());
    proof {
        if good {
            assert forall|k: u64| #[trigger] lib.dirs().contains_key(k) implies lists_in_order(lib.tracks(), lib.dirs()[k].tracks@) by {
                assert(old(lib).dirs().contains_key(k));
            }
            if !had {
                assert(d.tracks@.map_values(|k: u64| lib.tracks()[k]) =~= Seq::<Track>::empty());
            }
            assert(lists_in_order(lib.tracks(), d.tracks@));
        }
        if old(lib).closed() {
            assert forall|i: int| 0 <= i < d.tracks@.len() implies lib.tracks().contains_key(#[trigger] d.tracks@[i]) by {
                assert(old(lib).dirs()[id].tracks@[i] == d.tracks@[i]);
            }
            assert forall|k: u64, i: int|
                #![trigger lib.dirs()[k].tracks@[i]]
                lib.dirs().contains_key(k) && 0 <= i < lib.dirs()[k].tracks@.len() implies lib.tracks().contains_key(
                lib.dirs()[k].tracks@[i]) by {
                assert(old(lib).dirs()[k] == lib.dirs()[k]);
                assert(old(lib).dirs()[k].tracks@[i] == lib.dirs()[k].tracks@[i]);
            }
        }
    }

    let mut subs = subdirs;
    let ghost n_subs = subs@.len();
    while subs.len() > 0
        invariant
            orig == dir,
            lib.wf(),
            id == xxh3_of(orig.path@),
            xxh3_of(d.path@) == id,
            keeps_keys(old(lib).dirs().remove(id), lib.dirs()),
            keeps_values(old(lib).tracks(), lib.tracks()),
            old(lib).closed() ==> lib.closed(),
            old(lib).closed() ==> forall|i: int| 0 <= i < d.tracks@.len() ==> lib.tracks().contains_key(#[trigger] d.tracks@[i]),
            good == (old(lib).closed() && listed_in_order(old(lib).dirs(), old(lib).tracks())),
            good ==> listed_in_order(lib.dirs(), lib.tracks()) && lists_in_order(lib.tracks(), d.tracks@),
            lib.root() == old(lib).root(),
            lib.curr() == old(lib).curr(),
            n_subs == orig.subdirs@.len(),
            subs@.len() <= n_subs,
            subs@ == orig.subdirs@.skip(n_subs - subs@.len()),
        decreases subs@.len(),
    {
        let ghost k = n_subs - subs@.len();
        let ghost before = lib.tracks();
        let sub = subs.remove(0);
        assert(sub == orig.subdirs@[k]);
        assert(decreases_to!(orig => orig.subdirs));
        assert(decreases_to!(orig.subdirs => orig.subdirs@));
        assert(decreases_to!(orig.subdirs@ => orig.subdirs@[k]));
        assert(decreases_to!(orig => sub));
        let found = scan_dir(lib, sub);
        proof {
            if good {
                lemma_lists_in_order_frame(before, lib.tracks(), d.tracks@);
            }
        }
        match found {
            Some(sid) => {
                if !contains_id(&d.subdirs, sid) {
                    d.subdirs.push(sid);
                }
            },
            None => {},
        }
        assert(subs@ =~= orig.subdirs@.skip(n_subs - subs@.len()));
    }

    let ghost h0 = lib.tracks();
    let ghost dirs0 = lib.dirs();
    let mut fresh: Vec<Track> = Vec::new();
    let mut fresh_ids: Vec<u64> = Vec::new();
    let mut walked = tracks;
    let ghost n_walked = walked@.len();
    while walked.len() > 0
        invariant
            lib.tracks() == h0,
            lib.dirs() == dirs0,
            lib.wf(),
            good ==> listed_in_order(lib.dirs(), lib.tracks()) && lists_in_order(lib.tracks(), d.tracks@),
            old(lib).closed() ==> lib.closed(),
            old(lib).closed() ==> forall|i: int| 0 <= i < d.tracks@.len() ==> lib.tracks().contains_key(#[trigger] d.tracks@[i]),
            xxh3_of(d.path@) == id,
            id == xxh3_of(orig.path@),
            keeps_keys(old(lib).dirs().remove(id), lib.dirs()),
            lib.root() == old(lib).root(),
            lib.curr() == old(lib).curr(),
            n_walked == orig.tracks@.len(),
            walked@.len() <= n_walked,
            walked@ == orig.tracks@.skip(n_walked - walked@.len()),
            fresh_ids@ == keys_of(fresh@),
            distinct(fresh_ids@),
            forall|m: int| 0 <= m < fresh_ids@.len() ==> !h0.contains_key(#[trigger] fresh_ids@[m]),
            forall|j: int|
                0 <= j < n_walked - walked@.len() ==> h0.contains_key(
                    xxh3_of(#[trigger] orig.tracks@[j].path@),
                ) || fresh_ids@.contains(xxh3_of(orig.tracks@[j].path@)),
        decreases walked@.len(),
    {
        let ghost k = n_walked - walked@.len();
        let t = walked.remove(0);
        assert(t == orig.tracks@[k]);
        let key = track_hash(&t);
        let known = lib.get_track(key).is_some();
        let ghost before = fresh_ids@;
        if !known && !contains_id(&fresh_ids, key) {
            fresh.push(t);
            fresh_ids.push(key);
            assert(keys_of(fresh@) =~= fresh_ids@);
            assert(fresh_ids@[before.len() as int] == key);
            assert forall|j: int|
                0 <= j < k && before.contains(xxh3_of(#[trigger] orig.tracks@[j].path@)) implies fresh_ids@.contains(
                xxh3_of(orig.tracks@[j].path@)) by {
                lemma_push_keeps_contains(before, key, xxh3_of(orig.tracks@[j].path@));
            }
            assert forall|i: int, j: int|
                #![trigger fresh_ids@[i], fresh_ids@[j]]
                0 <= i < fresh_ids@.len() && 0 <= j < fresh_ids@.len() && i != j implies fresh_ids@[i] != fresh_ids@[j] by {
                if i < before.len() && j < before.len() {
                    assert(before[i] == fresh_ids@[i] && before[j] == fresh_ids@[j]);
                } else if i < before.len() {
                    assert(before[i] == fresh_ids@[i]);
                } else if j < before.len() {
                    assert(before[j] == fresh_ids@[j]);
                }
            }
        }
        assert(walked@ =~= orig.tracks@.skip(n_walked - walked@.len()));
    }

    if fresh.len() > 0 {
        let ghost fresh0 = fresh@;
        let mut all = fresh;
        let mut k: usize = 0;
        while k < d.tracks.len()
            invariant
                lib.wf(),
                lib.dirs() == dirs0,
                xxh3_of(d.path@) == id,
                id == xxh3_of(orig.path@),
                keeps_keys(old(lib).dirs().remove(id), lib.dirs()),
                lib.root() == old(lib).root(),
                lib.curr() == old(lib).curr(),
                0 <= k <= d.tracks@.len(),
                all@.len() >= fresh0.len(),
                all@.take(fresh0.len() as int) == fresh0,
                distinct(keys_of(all@)),
                forall|m: int| 0 <= m < all@.len() ==> !lib.tracks().contains_key(#[trigger] keys_of(all@)[m]),
                forall|m: int|
                    0 <= m < all@.len() && h0.contains_key(#[trigger] keys_of(all@)[m]) ==> all@[m] == h0[keys_of(all@)[m]],
                forall|key: u64| #[trigger] h0.contains_key(key) ==> lib.tracks().contains_key(key) || keys_of(all@).contains(key),
                forall|key: u64| #[trigger] lib.tracks().contains_key(key) ==> h0.contains_key(key) && lib.tracks()[key] == h0[key],
            decreases d.tracks@.len() - k,
        {
            let ghost before = all@;
            let ghost lt = lib.tracks();
            let tid = d.tracks[k];
            match lib.take_track(tid) {
                Some(t) => {
                    all.push(t);
                    assert(keys_of(all@) =~= keys_of(before).push(tid));
                    assert(keys_of(all@)[before.len() as int] == tid);
                    assert(all@.take(fresh0.len() as int) =~= before.take(fresh0.len() as int));
                    assert forall|i: int, j: int|
                        #![trigger keys_of(all@)[i], keys_of(all@)[j]]
                        0 <= i < all@.len() && 0 <= j < all@.len() && i != j implies keys_of(all@)[i] != keys_of(all@)[j] by {
                        if i < before.len() && j < before.len() {
                            assert(keys_of(before)[i] == keys_of(all@)[i] && keys_of(before)[j] == keys_of(all@)[j]);
                        } else if i < before.len() {
                            assert(keys_of(before)[i] == keys_of(all@)[i]);
                            assert(!lt.contains_key(keys_of(before)[i]));
                        } else if j < before.len() {
                            assert(keys_of(before)[j] == keys_of(all@)[j]);
                            assert(!lt.contains_key(keys_of(before)[j]));
                        }
                    }
                    assert forall|m: int| 0 <= m < all@.len() implies !lib.tracks().contains_key(#[trigger] keys_of(all@)[m]) by {
                        if m < before.len() {
                            assert(keys_of(before)[m] == keys_of(all@)[m]);
                        }
                    }
                    assert forall|m: int|
                        0 <= m < all@.len() && h0.contains_key(#[trigger] keys_of(all@)[m]) implies all@[m] == h0[keys_of(all@)[m]] by {
                        if m < before.len() {
                            assert(keys_of(before)[m] == keys_of(all@)[m]);
                        }
                    }
                    assert forall|key: u64| #[trigger] h0.contains_key(key) implies lib.tracks().contains_key(key) || keys_of(all@).contains(key) by {
                        if keys_of(before).contains(key) {
                            lemma_push_keeps_contains(keys_of(before), tid, key);
                        }
                    }
                },
                None => {},
            }
            k = k + 1;
        }
        let ghost unsorted = all@;
        let ghost lt = lib.tracks();
        sort_tracks(&mut all, false);
        let ghost sorted = all@;
        let ghost perm = choose|perm: Seq<int>| stable_rearrangement(unsorted, sorted, perm);
        assert(stable_rearrangement(unsorted, sorted, perm));
        proof {
            assert forall|i: int, j: int|
                #![trigger keys_of(sorted)[i], keys_of(sorted)[j]]
                0 <= i < sorted.len() && 0 <= j < sorted.len() && i != j implies keys_of(sorted)[i] != keys_of(sorted)[j] by {
                assert(perm[i] != perm[j]);
                assert(sorted[i] == unsorted[perm[i]] && sorted[j] == unsorted[perm[j]]);
                assert(keys_of(unsorted)[perm[i]] != keys_of(unsorted)[perm[j]]);
            }
        }
        let ids = add_tracks(lib, all);
        proof {
            assert forall|key: u64| keys_of(sorted).contains(key) implies #[trigger] lib.tracks().contains_key(key) by {
                let j = choose|j: int| 0 <= j < keys_of(sorted).len() && keys_of(sorted)[j] == key;
                assert(lib.tracks().contains_key(keys_of(sorted)[j]));
            }
            assert forall|key: u64| keys_of(unsorted).contains(key) implies #[trigger] keys_of(sorted).contains(key) by {
                lemma_permutation_keeps_keys(unsorted, sorted, key);
            }
            assert forall|key: u64| keys_of(fresh0).contains(key) implies #[trigger] lib.tracks().contains_key(key) by {
                let m = choose|m: int| 0 <= m < keys_of(fresh0).len() && keys_of(fresh0)[m] == key;
                assert(unsorted[m] == fresh0[m]);
                assert(keys_of(unsorted)[m] == key);
                assert(keys_of(unsorted).contains(key));
                assert(keys_of(sorted).contains(key));
            }
            assert forall|key: u64| #[trigger] h0.contains_key(key) implies lib.tracks().contains_key(key) && lib.tracks()[key] == h0[key] by {
                if keys_of(sorted).contains(key) {
                    let j = choose|j: int| 0 <= j < keys_of(sorted).len() && keys_of(sorted)[j] == key;
                    assert(lib.tracks()[keys_of(sorted)[j]] == sorted[j]);
                    assert(sorted[j] == unsorted[perm[j]]);
                    assert(keys_of(unsorted)[perm[j]] == key);
                } else {
                    if !lt.contains_key(key) {
                        assert(keys_of(unsorted).contains(key));
                    }
                }
            }
            assert(keys_of(fresh0) == fresh_ids@);
            assert(ids@.map_values(|k: u64| lib.tracks()[k]) =~= sorted);
            assert(lists_in_order(lib.tracks(), ids@));
            if good {
                assert forall|kk: u64| #[trigger] lib.dirs().contains_key(kk) implies lists_in_order(lib.tracks(), lib.dirs()[kk].tracks@) by {
                    assert(dirs0.contains_key(kk));
                    assert forall|i: int| 0 <= i < dirs0[kk].tracks@.len() implies h0.contains_key(#[trigger] dirs0[kk].tracks@[i]) by {
                        assert(h0.contains_key(dirs0[kk].tracks@[i]));
                    }
                    lemma_lists_in_order_frame(h0, lib.tracks(), dirs0[kk].tracks@);
                }
            }
        }
        d.tracks = ids;
    }
    proof {
        if old(lib).closed() {
            assert forall|kk: u64, i: int|
                #![trigger lib.dirs()[kk].tracks@[i]]
                lib.dirs().contains_key(kk) && 0 <= i < lib.dirs()[kk].tracks@.len() implies lib.tracks().contains_key(
                lib.dirs()[kk].tracks@[i]) by {
                assert(dirs0[kk].tracks@[i] == lib.dirs()[kk].tracks@[i]);
                assert(h0.contains_key(dirs0[kk].tracks@[i]));
            }
        }
    }
    if d.img.is_none() {
        d.img = sort_images(&images, &stem);
    }
    let ghost dirs1 = lib.dirs();
    let ghost tracks1 = lib.tracks();
    if d.subdirs.len() == 0 && d.tracks.len() == 0 {
        if had {
            proof {
                if old(lib).closed() {
                    lemma_add_directory_keeps_closed(dirs1, tracks1, d.subdirs@, id, d);
                }
                if good {
                    lemma_add_directory_keeps_order(dirs1, tracks1, d.subdirs@, id, d);
                }
            }
            lib.add_directory(d);
            assert(keeps_keys(old(lib).dirs(), lib.dirs())) by {
                assert forall|k: u64| #[trigger] old(lib).dirs().contains_key(k) implies lib.dirs().contains_key(k) by {
                    if k != id {
                        assert(old(lib).dirs().remove(id).contains_key(k));
                    }
                }
            }
        } else {
            assert(old(lib).dirs().remove(id) =~= old(lib).dirs());
        }
        None
    } else {
        proof {
            if old(lib).closed() {
                lemma_add_directory_keeps_closed(dirs1, tracks1, d.subdirs@, id, d);
            }
            if good {
                lemma_add_directory_keeps_order(dirs1, tracks1, d.subdirs@, id, d);
            }
        }
        let key = lib.add_directory(d);
        assert(keeps_keys(old(lib).dirs(), lib.dirs())) by {
            assert forall|k: u64| #[trigger] old(lib).dirs().contains_key(k) implies lib.dirs().contains_key(k) by {
                if k != id {
                    assert(old(lib).dirs().remove(id).contains_key(k));
                }
            }
        }
        Some(key)
    }
}

/// A catalog of everything under `root`, rooted (and viewed) at `root`'s
/// directory, which is registered even if it holds nothing. Every track
/// that a directory of it lists is registered, and each directory lists its
/// tracks sorted by key, each once.
pub fn scan(root: ScannedDir) -> (lib: Library)
    ensures
        lib.wf(),
        lib.closed(),
        listed_in_order(lib.dirs(), lib.tracks()),
        lib.root() == xxh3_of(root.path@),
        lib.curr() == lib.root(),
        lib.dirs().contains_key(lib.root()),
        forall|i: int| 0 <= i < root.tracks@.len() ==> lib.tracks().contains_key(
            xxh3_of(#[trigger] root.tracks@[i].path@),
        ),
{
    let mut lib = Library::new();
    let path = root.path.clone();
    let id = match scan_dir(&mut lib, root) {
        Some(id) => id,
        None => {
            let empty = Directory::new(path);
            proof {
                lemma_add_directory_keeps_closed(lib.dirs(), lib.tracks(), empty.subdirs@, xxh3_of(empty.path@), empty);
                assert(empty.tracks@.map_values(|k: u64| lib.tracks()[k]) =~= Seq::<Track>::empty());
                lemma_add_directory_keeps_order(lib.dirs(), lib.tracks(), empty.subdirs@, xxh3_of(empty.path@), empty);
            }
            lib.add_directory(empty)
        },
    };
    lib.set_root(id);
    lib
}

/// `lib` with everything under `root` folded in: the directories it held
/// stay, the tracks it held stay unchanged, a closed catalog stays closed
/// and keeps every directory's listing sorted and without repeats, and the
/// tracks found directly in `root` are registered.
pub fn partial_scan(root: ScannedDir, lib: Library) -> (r: Library)
    requires
        lib.wf(),
    ensures
        r.wf(),
        keeps_keys(lib.dirs(), r.dirs()),
        keeps_values(lib.tracks(), r.tracks()),
        lib.closed() ==> r.closed(),
        lib.closed() && listed_in_order(lib.dirs(), lib.tracks()) ==> listed_in_order(r.dirs(), r.tracks()),
        r.root() == lib.root(),
        r.curr() == lib.curr(),
        forall|i: int| 0 <= i < root.tracks@.len() ==> r.tracks().contains_key(
            xxh3_of(#[trigger] root.tracks@[i].path@),
        ),
{
    let mut lib = lib;
    scan_dir(&mut lib, root);
    lib
}

} // verus!

//! Settings of the catalog and of the playlists.

use vstd::prelude::*;

use crate::library::{path_hash, xxh3_of};

verus! {

/// The pins of `pins` that `keep` accepts, in order.
pub open spec fn kept(pins: Seq<String>, keep: Seq<bool>) -> Seq<String>
    decreases pins.len(),
{
    if pins.len() == 0 {
        Seq::empty()
    } else {
        let rest = kept(pins.drop_last(), keep);
        if keep[pins.len() - 1] {
            rest.push(pins.last())
        } else {
            rest
        }
    }
}

proof fn lemma_kept_prefix(pins: Seq<String>, keep: Seq<bool>, k: int)
    requires
        0 <= k < pins.len(),
        keep.len() == pins.len(),
    ensures
        pins.take(k + 1).drop_last() == pins.take(k),
        pins.take(k + 1).last() == pins[k],
        kept(pins.take(k + 1), keep) == if keep[k] {
            kept(pins.take(k), keep).push(pins[k])
        } else {
            kept(pins.take(k), keep)
        },
{
    assert(pins.take(k + 1).drop_last() =~= pins.take(k));
}

/// Keeps the pins for which `keep[i]` holds, in order.
fn filter_pins(pins: Vec<String>, keep: &Vec<bool>) -> (r: Vec<String>)
    requires
        keep@.len() == pins@.len(),
    ensures
        r@ == kept(pins@, keep@),
{
    let ghost all = pins@;
    let mut rest = pins;
    let mut out: Vec<String> = Vec::new();
    let mut i: usize = 0;
    while i < keep.len()
        invariant
            0 <= i <= keep@.len(),
            i + rest@.len() == all.len(),
            keep@.len() == all.len(),
            rest@ == all.skip(i as int),
            out@ == kept(all.take(i as int), keep@),
        decreases keep@.len() - i,
    {
        let p = rest.remove(0);
        proof {
            lemma_kept_prefix(all, keep@, i as int);
        }
        if keep[i] {
            out.push(p);
        }
        i = i + 1;
        assert(rest@ =~= all.skip(i as int));
    }
    assert(all.take(all.len() as int) =~= all);
    out
}

/// Where the catalog is read from, whether it is rescanned on start, and
/// the pinned directories.
#[derive(Clone, Debug)]
pub struct Library {
    pub path: String,
    pub full_rescan_on_start: bool,
    pub pins: Vec<String>,
}

impl Default for Library {
    /// The file system root, no rescan on start, no pin.
    fn default() -> (r: Self)
        ensures
            r.path@ == seq!['/'],
            !r.full_rescan_on_start,
            r.pins@.len() == 0,
    {
        proof {
            reveal_strlit("/");
        }
        Library { path: "/".to_owned(), full_rescan_on_start: false, pins: Vec::new() }
    }
}

impl Library {
    /// Drops the pinned directories that the catalog `lib` does not hold.
    pub fn verify_pins(self, lib: &crate::library::Library) -> (r: Self)
        ensures
            r.path == self.path,
            r.full_rescan_on_start == self.full_rescan_on_start,
            r.pins@ == kept(
                self.pins@,
                Seq::new(self.pins@.len(), |i: int| lib.dirs().contains_key(xxh3_of(self.pins@[i]@))),
            ),
    {
        let Library { path, full_rescan_on_start, pins } = self;
        let mut keep: Vec<bool> = Vec::new();
        let mut i: usize = 0;
        while i < pins.len()
            invariant
                0 <= i <= pins@.len(),
                keep@.len() == i,
                forall|j: int| 0 <= j < i ==> #[trigger] keep@[j] == lib.dirs().contains_key(xxh3_of(pins@[j]@)),
            decreases pins@.len() - i,
        {
            keep.push(lib.get_directory(path_hash(&pins[i])).is_some());
            i = i + 1;
        }
        let ghost all = pins@;
        let kept_pins = filter_pins(pins, &keep);
        assert(keep@ =~= Seq::new(all.len(), |i: int| lib.dirs().contains_key(xxh3_of(all[i]@))));
        Library { path, full_rescan_on_start, pins: kept_pins }
    }
}

/// The pinned playlists.
#[derive(Clone, Debug)]
pub struct Playlists {
    pub pins: Vec<String>,
}

impl Default for Playlists {
    /// No pin.
    fn default() -> (r: Self)
        ensures
            r.pins@.len() == 0,
    {
        Playlists { pins: Vec::new() }
    }
}

impl Playlists {
    /// Drops the pinned playlists whose file is missing: `present[i]` tells
    /// whether the `i`-th pin's file exists.
    pub fn verify_pins(self, present: &Vec<bool>) -> (r: Self)
        requires
            present@.len() == self.pins@.len(),
        ensures
            r.pins@ == kept(self.pins@, present@),
    {
        Playlists { pins: filter_pins(self.pins, present) }
    }
}

} // verus!

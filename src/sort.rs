//! Ordering tracks for display: by disc number, then track number, then
//! title (or path, for an untitled track) compared case-insensitively.

use vstd::prelude::*;

use crate::library::Track;

verus! {

broadcast use vstd::seq_lib::group_to_multiset_ensures;

/// The UTF-8 bytes of the lowercase form of `s`.
pub uninterp spec fn lowercase_utf8(s: Seq<char>) -> Seq<u8>;

/// Relies on `str::to_lowercase`, a function of the characters alone; the
/// result is handed back as its UTF-8 bytes.
#[verifier::external_body]
pub(crate) fn lowercase_bytes(s: &str) -> (r: Vec<u8>)
    ensures
        r@ == lowercase_utf8(s@),
{
    s.to_lowercase().into_bytes()
}

/// `None` first, then numbers in increasing order.
pub open spec fn opt_le(a: Option<usize>, b: Option<usize>) -> bool {
    match (a, b) {
        (None, _) => true,
        (Some(_), None) => false,
        (Some(x), Some(y)) => x <= y,
    }
}

/// Lexicographic order on byte strings (a prefix comes first).
pub open spec fn bytes_le(a: Seq<u8>, b: Seq<u8>) -> bool
    decreases a.len(),
{
    if a.len() == 0 {
        true
    } else if b.len() == 0 {
        false
    } else if a[0] != b[0] {
        a[0] < b[0]
    } else {
        bytes_le(a.drop_first(), b.drop_first())
    }
}

/// A track's sort key: disc number, track number, lowercase name.
pub type KeyView = (Option<usize>, Option<usize>, Seq<u8>);

/// The order on sort keys: by disc, then number, then name.
pub open spec fn key_le(a: KeyView, b: KeyView) -> bool {
    if a.0 != b.0 {
        opt_le(a.0, b.0)
    } else if a.1 != b.1 {
        opt_le(a.1, b.1)
    } else {
        bytes_le(a.2, b.2)
    }
}

/// The name a track is sorted by: its title, or else its path.
pub open spec fn name_of(t: Track) -> Seq<char> {
    match t.metadata.title {
        Some(s) => s@,
        None => t.path@,
    }
}

/// The sort key of a track.
pub open spec fn track_key(t: Track) -> KeyView {
    (t.metadata.discnum, t.metadata.num, lowercase_utf8(name_of(t)))
}

/// Each track's key is at most the next one's.
pub open spec fn sorted_by_key(s: Seq<Track>) -> bool {
    forall|i: int| 0 <= i < s.len() - 1 ==> key_le(#[trigger] track_key(s[i]), track_key(s[i + 1]))
}

/// `new` is `old` rearranged by `perm` (`new[i]` is `old[perm[i]]`, each
/// old position used once), and tracks with equal keys keep their old
/// relative order.
pub open spec fn stable_rearrangement(old: Seq<Track>, new: Seq<Track>, perm: Seq<int>) -> bool {
    &&& perm.len() == new.len()
    &&& new.len() == old.len()
    &&& forall|i: int| 0 <= i < perm.len() ==> 0 <= #[trigger] perm[i] < old.len() && new[i] == old[perm[i]]
    &&& forall|i: int, j: int|
        #![trigger perm[i], perm[j]]
        0 <= i < perm.len() && 0 <= j < perm.len() && i != j ==> perm[i] != perm[j]
    &&& forall|i: int, j: int|
        #![trigger perm[i], perm[j]]
        0 <= i < j < perm.len() && track_key(new[i]) == track_key(new[j]) ==> perm[i] < perm[j]
}

/// `sorted` holds tracks of `orig`, by `perm`, from its first
/// `sorted.len()` positions, each used once, equal keys in their old order.
pub open spec fn rearranges_prefix(orig: Seq<Track>, sorted: Seq<Track>, perm: Seq<int>) -> bool {
    &&& perm.len() == sorted.len()
    &&& forall|i: int| 0 <= i < perm.len() ==> 0 <= #[trigger] perm[i] < sorted.len() && sorted[i] == orig[perm[i]]
    &&& forall|i: int, j: int|
        #![trigger perm[i], perm[j]]
        0 <= i < perm.len() && 0 <= j < perm.len() && i != j ==> perm[i] != perm[j]
    &&& forall|i: int, j: int|
        #![trigger perm[i], perm[j]]
        0 <= i < j < perm.len() && track_key(sorted[i]) == track_key(sorted[j]) ==> perm[i] < perm[j]
}

/// Inserting the next track of `orig` before every track with a different
/// key that it does not precede keeps the rearrangement stable.
proof fn lemma_insert_keeps_rearrangement(orig: Seq<Track>, sorted: Seq<Track>, perm: Seq<int>, p: int, t: Track)
    requires
        rearranges_prefix(orig, sorted, perm),
        0 <= p <= sorted.len(),
        t == orig[sorted.len() as int],
        forall|j: int| p <= j < sorted.len() ==> track_key(#[trigger] sorted[j]) != track_key(t),
    ensures
        rearranges_prefix(orig, sorted.insert(p, t), perm.insert(p, sorted.len() as int)),
{
    let idx = sorted.len() as int;
    let ns = sorted.insert(p, t);
    let np = perm.insert(p, idx);
    assert forall|i: int| 0 <= i < np.len() implies 0 <= #[trigger] np[i] < ns.len() && ns[i] == orig[np[i]] by {
        if i < p {
            assert(np[i] == perm[i] && ns[i] == sorted[i]);
        } else if i > p {
            assert(np[i] == perm[i - 1] && ns[i] == sorted[i - 1]);
        }
    }
    assert forall|i: int, j: int|
        #![trigger np[i], np[j]]
        0 <= i < np.len() && 0 <= j < np.len() && i != j implies np[i] != np[j] by {
        let oi = if i < p { i } else { i - 1 };
        let oj = if j < p { j } else { j - 1 };
        if i != p && j != p {
            assert(np[i] == perm[oi] && np[j] == perm[oj]);
            assert(perm[oi] != perm[oj]);
        } else if i == p {
            assert(np[j] == perm[oj]);
            assert(perm[oj] < idx);
        } else {
            assert(np[i] == perm[oi]);
            assert(perm[oi] < idx);
        }
    }
    assert forall|i: int, j: int|
        #![trigger np[i], np[j]]
        0 <= i < j < np.len() && track_key(ns[i]) == track_key(ns[j]) implies np[i] < np[j] by {
        let oi = if i < p { i } else { i - 1 };
        let oj = if j < p { j } else { j - 1 };
        if i != p && j != p {
            assert(np[i] == perm[oi] && np[j] == perm[oj]);
            assert(ns[i] == sorted[oi] && ns[j] == sorted[oj]);
            assert(perm[oi] < perm[oj]);
        } else if j == p {
            assert(np[i] == perm[oi]);
            assert(perm[oi] < idx);
        } else {
            assert(ns[j] == sorted[oj]);
            assert(ns[i] == t);
            assert(track_key(sorted[oj]) != track_key(t));
        }
    }
}

/// Every byte string is at most itself.
pub proof fn lemma_bytes_le_refl(a: Seq<u8>)
    ensures
        bytes_le(a, a),
    decreases a.len(),
{
    if a.len() > 0 {
        lemma_bytes_le_refl(a.drop_first());
    }
}

/// Byte strings are totally ordered.
pub proof fn lemma_bytes_le_total(a: Seq<u8>, b: Seq<u8>)
    ensures
        bytes_le(a, b) || bytes_le(b, a),
    decreases a.len(),
{
    if a.len() > 0 && b.len() > 0 && a[0] == b[0] {
        lemma_bytes_le_total(a.drop_first(), b.drop_first());
    }
}

/// Sort keys are totally ordered.
pub proof fn lemma_key_le_total(a: KeyView, b: KeyView)
    ensures
        key_le(a, b) || key_le(b, a),
{
    lemma_bytes_le_total(a.2, b.2);
}

/// A computed sort key.
pub struct SortKey {
    pub disc: Option<usize>,
    pub num: Option<usize>,
    pub name: Vec<u8>,
}

impl SortKey {
    pub open spec fn view(&self) -> KeyView {
        (self.disc, self.num, self.name@)
    }
}

fn sort_key(t: &Track) -> (k: SortKey)
    ensures
        k@ == track_key(*t),
{
    let name = match &t.metadata.title {
        Some(s) => lowercase_bytes(s.as_str()),
        None => lowercase_bytes(t.path.as_str()),
    };
    SortKey { disc: t.metadata.discnum, num: t.metadata.num, name }
}

fn opt_le_exec(a: Option<usize>, b: Option<usize>) -> (r: bool)
    ensures
        r == opt_le(a, b),
{
    match (a, b) {
        (None, _) => true,
        (Some(_), None) => false,
        (Some(x), Some(y)) => x <= y,
    }
}

pub(crate) fn bytes_le_exec(a: &[u8], b: &[u8]) -> (r: bool)
    ensures
        r == bytes_le(a@, b@),
{
    let mut i: usize = 0;
    assert(a@.skip(0) =~= a@ && b@.skip(0) =~= b@);
    while i < a.len() && i < b.len() && a[i] == b[i]
        invariant
            0 <= i <= a@.len(),
            i <= b@.len(),
            bytes_le(a@, b@) == bytes_le(a@.skip(i as int), b@.skip(i as int)),
        decreases a@.len() - i,
    {
        assert(a@.skip(i as int).drop_first() =~= a@.skip(i as int + 1));
        assert(b@.skip(i as int).drop_first() =~= b@.skip(i as int + 1));
        i = i + 1;
    }
    if i == a.len() {
        true
    } else if i == b.len() {
        false
    } else {
        a[i] < b[i]
    }
}

fn key_le_exec(a: &SortKey, b: &SortKey) -> (r: bool)
    ensures
        r == key_le(a@, b@),
{
    if a.disc != b.disc {
        opt_le_exec(a.disc, b.disc)
    } else if a.num != b.num {
        opt_le_exec(a.num, b.num)
    } else {
        bytes_le_exec(a.name.as_slice(), b.name.as_slice())
    }
}

/// Sorts `tracks` by disc number, then track number, then lowercase title
/// (or path when untitled). The sort is stable whether or not `stable` asks
/// for it: tracks with equal keys keep their relative order.
pub fn sort_tracks(tracks: &mut Vec<Track>, stable: bool)
    ensures
        final(tracks)@.to_multiset() == old(tracks)@.to_multiset(),
        sorted_by_key(final(tracks)@),
        exists|perm: Seq<int>| stable_rearrangement(old(tracks)@, final(tracks)@, perm),
{
    let ghost orig = tracks@;
    let mut rest: Vec<Track> = Vec::new();
    std::mem::swap(tracks, &mut rest);
    let mut sorted: Vec<Track> = Vec::new();
    let mut keys: Vec<SortKey> = Vec::new();
    let ghost mut perm: Seq<int> = Seq::empty();
    while rest.len() > 0
        invariant
            sorted@.to_multiset().add(rest@.to_multiset()) == orig.to_multiset(),
            sorted@.len() + rest@.len() == orig.len(),
            rest@ == orig.skip(sorted@.len() as int),
            rearranges_prefix(orig, sorted@, perm),
            sorted_by_key(sorted@),
            keys@.len() == sorted@.len(),
            forall|j: int| 0 <= j < keys@.len() ==> (#[trigger] keys@[j])@ == track_key(sorted@[j]),
        decreases rest@.len(),
    {
        let ghost idx = sorted@.len() as int;
        let t = rest.remove(0);
        assert(t == orig[idx]);
        let k = sort_key(&t);
        let mut p: usize = sorted.len();
        while p > 0 && !key_le_exec(&keys[p - 1], &k)
            invariant
                0 <= p <= sorted@.len(),
                keys@.len() == sorted@.len(),
                forall|j: int| p <= j < sorted@.len() ==> !key_le(#[trigger] keys@[j]@, k@),
            decreases p,
        {
            p = p - 1;
        }
        proof {
            if p < sorted@.len() {
                lemma_key_le_total(keys@[p as int]@, k@);
            }
        }
        let ghost old_sorted = sorted@;
        let ghost old_keys = keys@;
        let ghost old_perm = perm;
        proof {
            lemma_bytes_le_refl(k@.2);
            assert forall|j: int| p <= j < old_sorted.len() implies track_key(#[trigger] old_sorted[j]) != k@ by {
                assert(keys@[j]@ == track_key(old_sorted[j]));
                assert(!key_le(keys@[j]@, k@));
            }
        }
        sorted.insert(p, t);
        keys.insert(p, k);
        proof {
            lemma_insert_keeps_rearrangement(orig, old_sorted, old_perm, p as int, t);
            perm = old_perm.insert(p as int, idx);
        }
        assert forall|j: int| 0 <= j < keys@.len() implies (#[trigger] keys@[j])@ == track_key(sorted@[j]) by {
            if j < p {
                assert(keys@[j] == old_keys[j]);
            } else if j > p {
                assert(keys@[j] == old_keys[j - 1]);
            }
        }
        assert forall|i: int| 0 <= i < sorted@.len() - 1 implies key_le(#[trigger] track_key(sorted@[i]), track_key(sorted@[i + 1])) by {
            if i < p - 1 {
                assert(sorted@[i] == old_sorted[i] && sorted@[i + 1] == old_sorted[i + 1]);
            } else if i == p - 1 {
                assert(keys@[i]@ == track_key(sorted@[i]));
            } else if i == p {
                assert(keys@[i + 1]@ == track_key(sorted@[i + 1]));
            } else {
                assert(sorted@[i] == old_sorted[i - 1] && sorted@[i + 1] == old_sorted[i]);
            }
        }
        assert(sorted@.to_multiset().add(rest@.to_multiset()) =~= orig.to_multiset());
    }
    assert(rest@ =~= Seq::<Track>::empty());
    assert(sorted@.to_multiset() =~= orig.to_multiset());
    assert(stable_rearrangement(orig, sorted@, perm));
    *tracks = sorted;
}

} // verus!

//! The play queue: the keys of the tracks to play next, in order. Indices
//! that come from the interface are checked; an out-of-range one leaves the
//! queue as it is.

use vstd::prelude::*;

use crate::playlist::PlaylistTrack;
use crate::ui::RepeatStatus;

verus! {

/// The catalog keys of the resolved entries of a playlist, in order.
pub open spec fn resolved_ids(tracks: Seq<PlaylistTrack>) -> Seq<u64>
    decreases tracks.len(),
{
    if tracks.len() == 0 {
        Seq::empty()
    } else {
        let rest = resolved_ids(tracks.drop_last());
        match tracks.last() {
            PlaylistTrack::Track(id, _) => rest.push(id),
            PlaylistTrack::Unresolved(_) => rest,
        }
    }
}

/// The keys of the resolved entries of `tracks`, in order.
pub fn playlist_track_ids(tracks: &Vec<PlaylistTrack>) -> (ids: Vec<u64>)
    ensures
        ids@ == resolved_ids(tracks@),
{
    let mut ids: Vec<u64> = Vec::new();
    let mut i: usize = 0;
    while i < tracks.len()
        invariant
            0 <= i <= tracks@.len(),
            ids@ == resolved_ids(tracks@.take(i as int)),
        decreases tracks@.len() - i,
    {
        assert(tracks@.take(i as int + 1).drop_last() =~= tracks@.take(i as int));
        match &tracks[i] {
            PlaylistTrack::Track(id, _) => ids.push(*id),
            PlaylistTrack::Unresolved(_) => {},
        }
        i = i + 1;
    }
    assert(tracks@.take(tracks@.len() as int) =~= tracks@);
    ids
}

/// Replaces the queue with `tracks`.
pub fn play_all(queue: &mut Vec<u64>, tracks: &Vec<u64>)
    ensures
        final(queue)@ == tracks@,
{
    queue.clear();
    let mut i: usize = 0;
    while i < tracks.len()
        invariant
            0 <= i <= tracks@.len(),
            queue@ == tracks@.take(i as int),
        decreases tracks@.len() - i,
    {
        queue.push(tracks[i]);
        assert(queue@ =~= tracks@.take(i as int + 1));
        i = i + 1;
    }
    assert(tracks@.take(tracks@.len() as int) =~= tracks@);
}

/// Starts playing `tracks` at index `i`: the queue becomes `tracks` from `i`
/// on, followed, when everything repeats, by the tracks before `i`. Returns
/// `false`, leaving the queue as it is, when `i` is past the end.
pub fn play_from(queue: &mut Vec<u64>, tracks: &Vec<u64>, i: usize, repeat: RepeatStatus) -> (ok: bool)
    ensures
        ok == (i <= tracks@.len()),
        ok && repeat == RepeatStatus::All ==> final(queue)@ == tracks@.skip(i as int) + tracks@.take(i as int),
        ok && repeat != RepeatStatus::All ==> final(queue)@ == tracks@.skip(i as int),
        !ok ==> final(queue)@ == old(queue)@,
{
    if i > tracks.len() {
        return false;
    }
    queue.clear();
    let mut k: usize = i;
    while k < tracks.len()
        invariant
            i <= k <= tracks@.len(),
            queue@ == tracks@.subrange(i as int, k as int),
        decreases tracks@.len() - k,
    {
        queue.push(tracks[k]);
        assert(queue@ =~= tracks@.subrange(i as int, k + 1));
        k = k + 1;
    }
    let ghost head = queue@;
    assert(head =~= tracks@.skip(i as int));
    if repeat == RepeatStatus::All {
        let mut k: usize = 0;
        while k < i
            invariant
                0 <= k <= i <= tracks@.len(),
                queue@ == head + tracks@.take(k as int),
            decreases i - k,
        {
            queue.push(tracks[k]);
            assert(queue@ =~= head + tracks@.take(k + 1));
            k = k + 1;
        }
    }
    true
}

/// Removes the entry at `i`, if there is one.
pub fn remove_at(queue: &mut Vec<u64>, i: usize) -> (r: Option<u64>)
    ensures
        i < old(queue)@.len() ==> r == Some(old(queue)@[i as int]) && final(queue)@ == old(queue)@.remove(i as int),
        i >= old(queue)@.len() ==> r is None && final(queue)@ == old(queue)@,
{
    if i < queue.len() {
        Some(queue.remove(i))
    } else {
        None
    }
}

/// Exchanges the entries at `i` and `j` when both exist. Returns whether it did.
pub fn swap_entries(queue: &mut Vec<u64>, i: usize, j: usize) -> (ok: bool)
    ensures
        ok == (i < old(queue)@.len() && j < old(queue)@.len()),
        ok ==> final(queue)@ == old(queue)@.update(i as int, old(queue)@[j as int]).update(j as int, old(queue)@[i as int]),
        !ok ==> final(queue)@ == old(queue)@,
{
    if i < queue.len() && j < queue.len() {
        let a = queue[i];
        let b = queue[j];
        queue.set(i, b);
        queue.set(j, a);
        true
    } else {
        false
    }
}

/// Requeues the track that just ended: first when it repeats alone, last
/// when everything repeats.
pub fn requeue_finished(queue: &mut Vec<u64>, finished: u64, repeat: RepeatStatus)
    ensures
        repeat == RepeatStatus::One ==> final(queue)@ == old(queue)@.insert(0, finished),
        repeat == RepeatStatus::All ==> final(queue)@ == old(queue)@.push(finished),
        repeat == RepeatStatus::Off ==> final(queue)@ == old(queue)@,
{
    match repeat {
        RepeatStatus::One => queue.insert(0, finished),
        RepeatStatus::All => queue.push(finished),
        RepeatStatus::Off => {},
    }
}

/// Skipping forward past `playing`: when everything repeats, it goes to the
/// end of the queue.
pub fn skip_forward(queue: &mut Vec<u64>, playing: u64, repeat: RepeatStatus)
    ensures
        repeat == RepeatStatus::All ==> final(queue)@ == old(queue)@.push(playing),
        repeat != RepeatStatus::All ==> final(queue)@ == old(queue)@,
{
    if repeat == RepeatStatus::All {
        queue.push(playing);
    }
}

/// Skipping back from `playing`, `position_secs` seconds in. When everything
/// repeats and playback is within its first second, the last queued track
/// comes first, followed by `playing`, and `true` is returned: play the next
/// track. Otherwise the queue is unchanged and `false` is returned: restart
/// the current track.
pub fn skip_back(queue: &mut Vec<u64>, playing: u64, position_secs: u64, repeat: RepeatStatus) -> (next: bool)
    ensures
        next == (repeat == RepeatStatus::All && position_secs <= 1 && old(queue)@.len() > 0),
        next ==> final(queue)@ == seq![old(queue)@.last(), playing] + old(queue)@.drop_last(),
        !next ==> final(queue)@ == old(queue)@,
{
    if repeat == RepeatStatus::All && position_secs <= 1 && queue.len() > 0 {
        let last = queue.pop().unwrap();
        queue.insert(0, last);
        queue.insert(1, playing);
        assert(queue@ =~= seq![old(queue)@.last(), playing] + old(queue)@.drop_last());
        true
    } else {
        false
    }
}

} // verus!

//! Control messages between the playback adapter and the decode worker, and
//! how a batch of them is coalesced.

use vstd::prelude::*;

verus! {

/// How many control messages the channel holds, and how many one drain takes.
pub const CHANNEL_CAPACITY: usize = 16;

/// A control message sent from the playback side to the decode worker.
#[derive(Clone, Copy, Debug, PartialEq, Eq, Structural)]
pub enum StreamMessage {
    /// Seek to this position, in milliseconds from the start of the track.
    Seek(u64),
    /// The buffer had this many vacant slots when the message was sent.
    VacantLen(usize),
}

/// What a drained batch of messages amounts to.
#[derive(Clone, Copy, Debug, PartialEq, Eq, Structural)]
pub struct Batch {
    /// The most recent seek request of the batch, if any.
    pub seek: Option<u64>,
    /// The most recent vacancy report, or the vacancy known before the batch.
    pub vacant: usize,
}

/// The target of the last `Seek` in `msgs`, if there is one.
pub open spec fn last_seek(msgs: Seq<StreamMessage>) -> Option<u64>
    decreases msgs.len(),
{
    if msgs.len() == 0 {
        None
    } else {
        match msgs.last() {
            StreamMessage::Seek(t) => Some(t),
            StreamMessage::VacantLen(_) => last_seek(msgs.drop_last()),
        }
    }
}

/// The count of the last `VacantLen` in `msgs`, or `known` if there is none.
pub open spec fn last_vacancy(msgs: Seq<StreamMessage>, known: usize) -> usize
    decreases msgs.len(),
{
    if msgs.len() == 0 {
        known
    } else {
        match msgs.last() {
            StreamMessage::VacantLen(n) => n,
            StreamMessage::Seek(_) => last_vacancy(msgs.drop_last(), known),
        }
    }
}

/// Coalesces a drained batch: only the latest seek is honored (a superseded
/// seek has no observable effect) and only the latest vacancy report counts.
/// `known` is the vacancy that the worker read from the buffer before.
pub fn coalesce(msgs: &Vec<StreamMessage>, known: usize) -> (b: Batch)
    ensures
        b.seek == last_seek(msgs@),
        b.vacant == last_vacancy(msgs@, known),
{
    let mut seek: Option<u64> = None;
    let mut vacant: usize = known;
    let mut i: usize = 0;
    while i < msgs.len()
        invariant
            0 <= i <= msgs@.len(),
            seek == last_seek(msgs@.take(i as int)),
            vacant == last_vacancy(msgs@.take(i as int), known),
        decreases msgs@.len() - i,
    {
        assert(msgs@.take(i as int + 1).drop_last() =~= msgs@.take(i as int));
        match msgs[i] {
            StreamMessage::Seek(t) => {
                seek = Some(t);
            },
            StreamMessage::VacantLen(n) => {
                vacant = n;
            },
        }
        i = i + 1;
    }
    assert(msgs@.take(msgs@.len() as int) =~= msgs@);
    Batch { seek, vacant }
}

/// Last seek wins: appending a seek request to any batch makes it the one
/// that is honored, whatever the batch held before.
pub proof fn lemma_last_seek_wins(msgs: Seq<StreamMessage>, target: u64)
    ensures
        last_seek(msgs.push(StreamMessage::Seek(target))) == Some(target),
{
}

/// Vacancy reports do not cancel a seek: appending one keeps the seek that
/// the batch held.
pub proof fn lemma_vacancy_keeps_seek(msgs: Seq<StreamMessage>, n: usize)
    ensures
        last_seek(msgs.push(StreamMessage::VacantLen(n))) == last_seek(msgs),
{
    assert(msgs.push(StreamMessage::VacantLen(n)).drop_last() =~= msgs);
}

} // verus!

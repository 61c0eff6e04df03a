//! The playback source adapter's own logic: what a pull yields, the vacancy
//! report that goes with every pull, and the fixed stream properties it
//! exposes.

use vstd::prelude::*;

use crate::control::StreamMessage;
use crate::worker::LOW_WATERMARK;

verus! {

/// Slots of the sample buffer between worker and adapter: a power of two,
/// plus the worker's low watermark.
pub const RING_CAPACITY: usize = 65536 + LOW_WATERMARK;

/// What one pull from the adapter yields.
#[derive(Clone, Copy, Debug, PartialEq, Eq, Structural)]
pub enum Pull<T> {
    /// The next sample of the stream.
    Sample(T),
    /// Nothing is buffered yet but the worker is still running: play silence
    /// rather than wait.
    Silence,
    /// The worker has finished and the buffer is drained: the stream ended.
    Ended,
}

/// The pull outcome for what the buffer gave and whether the worker finished.
pub open spec fn pull_spec<T>(popped: Option<T>, worker_finished: bool) -> Pull<T> {
    match popped {
        Some(s) => Pull::Sample(s),
        None => if worker_finished {
            Pull::Ended
        } else {
            Pull::Silence
        },
    }
}

/// The length of a stream in milliseconds: the length the catalog knows,
/// or else the one its frame count and rate give, if the container states it.
pub open spec fn length_ms(known: Option<u64>, frames: Option<u64>, rate: u32) -> Option<u64> {
    match known {
        Some(ms) => Some(ms),
        None => match frames {
            Some(f) => if rate > 0 && f * 1000 / (rate as int) <= u64::MAX {
                Some((f * 1000 / (rate as int)) as u64)
            } else {
                None
            },
            None => None,
        },
    }
}

/// Works out the stream length that the adapter reports.
pub fn stream_length_ms(known: Option<u64>, frames: Option<u64>, rate: u32) -> (r: Option<u64>)
    ensures
        r == length_ms(known, frames, rate),
{
    match known {
        Some(ms) => Some(ms),
        None => match frames {
            Some(f) => {
                if rate == 0 {
                    None
                } else {
                    assert((f as int) * 1000 <= u64::MAX as int * 1000) by (nonlinear_arith)
                        requires
                            f <= u64::MAX,
                    ;
                    let ms: u128 = (f as u128) * 1000 / (rate as u128);
                    if ms <= u64::MAX as u128 {
                        Some(ms as u64)
                    } else {
                        None
                    }
                }
            },
            None => None,
        },
    }
}

/// The adapter's fixed stream properties.
#[derive(Clone, Copy, Debug, PartialEq, Eq, Structural)]
pub struct Adapter {
    channels: u16,
    sample_rate: u32,
    total_ms: Option<u64>,
}

impl Adapter {
    pub closed spec fn channels_spec(self) -> u16 {
        self.channels
    }

    pub closed spec fn sample_rate_spec(self) -> u32 {
        self.sample_rate
    }

    pub closed spec fn total_ms_spec(self) -> Option<u64> {
        self.total_ms
    }

    /// An adapter for a stream with the given properties.
    pub fn new(channels: u16, sample_rate: u32, total_ms: Option<u64>) -> (a: Adapter)
        ensures
            a.channels_spec() == channels,
            a.sample_rate_spec() == sample_rate,
            a.total_ms_spec() == total_ms,
    {
        Adapter { channels, sample_rate, total_ms }
    }

    /// The number of interleaved channels.
    pub fn channel_count(&self) -> (c: u16)
        ensures
            c == self.channels_spec(),
    {
        self.channels
    }

    /// Frames per second.
    pub fn sample_rate(&self) -> (r: u32)
        ensures
            r == self.sample_rate_spec(),
    {
        self.sample_rate
    }

    /// The track's length in milliseconds, if known.
    pub fn total_duration(&self) -> (d: Option<u64>)
        ensures
            d == self.total_ms_spec(),
    {
        self.total_ms
    }

    /// One pull: `popped` is what the buffer gave without blocking,
    /// `worker_finished` whether the worker had completed before the pop,
    /// `vacant` the buffer's free slots. Yields the sample, silence or the
    /// end, together with the vacancy report to send to the worker.
    pub fn next_sample<T>(&self, popped: Option<T>, worker_finished: bool, vacant: usize) -> (r: (Pull<T>, StreamMessage))
        ensures
            r.0 == pull_spec(popped, worker_finished),
            r.1 == StreamMessage::VacantLen(vacant),
    {
        let pulled = match popped {
            Some(s) => Pull::Sample(s),
            None => if worker_finished {
                Pull::Ended
            } else {
                Pull::Silence
            },
        };
        (pulled, StreamMessage::VacantLen(vacant))
    }

    /// A seek request to `target_ms`, to be sent to the worker; the call
    /// returns at once and the seek happens asynchronously.
    pub fn seek(&self, target_ms: u64) -> (m: StreamMessage)
        ensures
            m == StreamMessage::Seek(target_ms),
    {
        StreamMessage::Seek(target_ms)
    }
}

/// A stalled worker never makes a pull wait: with nothing buffered and the
/// worker still running, a pull yields silence; once it has finished, the
/// end of the stream; whenever a sample is buffered, that sample.
pub proof fn lemma_pull_never_waits<T>(popped: Option<T>, worker_finished: bool)
    ensures
        popped is None && !worker_finished ==> pull_spec(popped, worker_finished) == Pull::<T>::Silence,
        popped is None && worker_finished ==> pull_spec(popped, worker_finished) == Pull::<T>::Ended,
        popped matches Some(s) ==> pull_spec(popped, worker_finished) == Pull::Sample(s),
{
}

} // verus!

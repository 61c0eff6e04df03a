//! The decode worker's decisions, as a state machine.
//!
//! The worker's outside work (draining the control channel, decoding a unit
//! of compressed data, pushing samples, waiting on the channel with a
//! periodic wake-up, seeking or reopening the source) is carried out by the
//! runner around this machine. The runner performs the action that `step`
//! returns and reports what happened as the next event.

use vstd::prelude::*;

use crate::control::Batch;
use crate::seek::{plan_seek, scan_step, seek_plan, scan_step_spec, trim_len, ScanStep, SeekPlan};

verus! {

/// Below this many vacant slots the worker suspends rather than push a unit
/// piecemeal.
pub const LOW_WATERMARK: usize = 8;

/// The stream parameters, fixed when the source is opened.
#[derive(Clone, Copy, Debug, PartialEq, Eq, Structural)]
pub struct StreamParams {
    pub sample_rate: u32,
    pub channels: u16,
    /// The number of frames in the stream, when the container states it.
    pub total_frames: Option<u64>,
    /// The format reader cannot seek backwards without reopening the source.
    pub reopen_backward: bool,
}

/// Where the worker stands.
#[derive(Clone, Copy, Debug, PartialEq, Eq, Structural)]
pub enum Phase {
    /// Between units: draining messages, decoding, or pushing a unit.
    Decoding,
    /// Suspended on the control channel until there is room for the unit.
    AwaitingVacancy,
    /// The format reader is seeking with its own index.
    Seeking,
    /// The source was reopened and is scanned forward to the target.
    Scanning,
    /// Terminal: end of input, a fatal error, or cancellation.
    Stopped,
}

/// What the runner reports back after performing an action.
#[derive(Clone, Copy, Debug, PartialEq, Eq, Structural)]
pub enum Event {
    /// The pending control messages were drained and coalesced.
    Drained(Batch),
    /// One unit was decoded into the scratch buffer: `frames` frames,
    /// `samples` interleaved samples; the buffer had `vacant` free slots.
    Decoded { frames: u64, samples: usize, vacant: usize },
    /// The source has no more data.
    EndOfInput,
    /// A unit could not be read or decoded.
    DecodeFailed,
    /// A push wrote `written` samples and left `vacant` free slots. It may
    /// have written none: a vacancy report can be stale by the time it is
    /// read, and the worker then waits again.
    Pushed { written: usize, vacant: usize },
    /// While waiting: a vacancy report, or the vacancy read on a periodic wake.
    Vacancy(usize),
    /// While waiting: a seek request arrived (milliseconds).
    SeekRequested(u64),
    /// The control channel closed: the playback side is gone.
    ChannelClosed,
    /// The format reader's seek landed on this frame.
    SeekDone(u64),
    /// The format reader could not seek.
    SeekFailed,
    /// The source was reopened at its start.
    Reopened,
    /// The source could not be reopened.
    ReopenFailed,
    /// During the scan, one block of `frames` frames and `samples` samples
    /// was decoded into the scratch buffer.
    Scanned { frames: u64, samples: usize },
}

/// What the runner is to do next.
#[derive(Clone, Copy, Debug, PartialEq, Eq, Structural)]
pub enum Action {
    /// Drain the control channel without blocking.
    Drain,
    /// Decode the next unit into the scratch buffer.
    Decode,
    /// Suspend on the control channel, with a periodic wake-up.
    Wait,
    /// Push the pending tail of the scratch buffer.
    Push,
    /// Ask the format reader to seek to this time (milliseconds).
    SeekNative(u64),
    /// Close and reopen the source at its start.
    Reopen,
    /// Decode the next block of the scan into the scratch buffer.
    ScanNext,
    /// Drop this many samples from the head of the scratch buffer, then
    /// report the vacancy with `Event::Vacancy`.
    Trim(usize),
    /// Stop: release the source and produce nothing more.
    Stop,
}

/// The decode worker's state.
#[derive(Clone, Copy, Debug, PartialEq, Eq, Structural)]
pub struct Worker {
    pub params: StreamParams,
    pub phase: Phase,
    /// Frames produced since the start of the stream.
    pub frames: u64,
    /// Samples of the scratch buffer not yet pushed.
    pub pending: usize,
    /// The frame that a forward scan looks for.
    pub scan_target: u64,
    /// The worker stopped on an error rather than at the end of the input.
    pub failed: bool,
}

/// Whether a unit of `pending` samples must wait for room, the buffer having
/// `vacant` free slots: it does not fit whole and the vacancy is below the
/// low watermark.
pub open spec fn must_wait(vacant: usize, pending: usize) -> bool {
    vacant < pending && vacant < LOW_WATERMARK
}

/// The samples produced, with `frames` more frames, saturating.
pub open spec fn advance(at: u64, frames: u64) -> u64 {
    if at + frames > u64::MAX {
        u64::MAX
    } else {
        (at + frames) as u64
    }
}

impl Worker {
    /// Fixed parameters are usable.
    pub open spec fn wf(self) -> bool {
        self.params.sample_rate > 0 && self.params.channels > 0
    }

    /// The events that the runner can report in the current phase.
    pub open spec fn accepts_spec(self, e: Event) -> bool {
        match self.phase {
            Phase::Decoding => match e {
                Event::Drained(_) | Event::Decoded { .. } | Event::EndOfInput
                | Event::DecodeFailed | Event::ChannelClosed => self.pending == 0,
                Event::Pushed { written, .. } => written <= self.pending,
                Event::Vacancy(_) => true,
                _ => false,
            },
            Phase::AwaitingVacancy => match e {
                Event::Vacancy(_) | Event::SeekRequested(_) | Event::ChannelClosed => true,
                _ => false,
            },
            Phase::Seeking => match e {
                Event::SeekDone(_) | Event::SeekFailed | Event::ChannelClosed => true,
                _ => false,
            },
            Phase::Scanning => match e {
                Event::Reopened | Event::ReopenFailed | Event::Scanned { .. }
                | Event::EndOfInput | Event::DecodeFailed | Event::ChannelClosed => true,
                _ => false,
            },
            Phase::Stopped => true,
        }
    }

    /// Given `vacant` free slots, push the pending samples, wait for room,
    /// or go back to draining messages when nothing is pending.
    pub open spec fn fill_spec(self, vacant: usize) -> (Worker, Action) {
        if self.pending == 0 {
            (Worker { phase: Phase::Decoding, ..self }, Action::Drain)
        } else if must_wait(vacant, self.pending) {
            (Worker { phase: Phase::AwaitingVacancy, ..self }, Action::Wait)
        } else {
            (Worker { phase: Phase::Decoding, ..self }, Action::Push)
        }
    }

    /// Acting on a seek request to `target_ms`; `idle` is what happens when
    /// the request is a no-op or cannot be carried out.
    pub open spec fn seek_spec(self, target_ms: u64, idle: (Worker, Action)) -> (Worker, Action) {
        match seek_plan(
            self.frames as int,
            self.params.sample_rate as int,
            self.params.total_frames,
            target_ms as int,
            self.params.reopen_backward,
        ) {
            SeekPlan::Stay | SeekPlan::Unreachable => idle,
            SeekPlan::Native(ms) => (
                Worker { phase: Phase::Seeking, pending: 0, ..self },
                Action::SeekNative(ms),
            ),
            SeekPlan::Reopen(tf) => (
                Worker { phase: Phase::Scanning, pending: 0, frames: 0, scan_target: tf, ..self },
                Action::Reopen,
            ),
        }
    }

    /// Stopping, on an error if `failed`.
    pub open spec fn stop_spec(self, failed: bool) -> (Worker, Action) {
        (Worker { phase: Phase::Stopped, pending: 0, failed: self.failed || failed, ..self }, Action::Stop)
    }

    /// The transition of the worker on event `e`.
    pub open spec fn step_spec(self, e: Event) -> (Worker, Action) {
        match self.phase {
            Phase::Stopped => (self, Action::Stop),
            Phase::Decoding => match e {
                Event::Drained(b) => match b.seek {
                    Some(t) => self.seek_spec(t, (self, Action::Decode)),
                    None => (self, Action::Decode),
                },
                Event::Decoded { frames, samples, vacant } => Worker {
                    frames: advance(self.frames, frames),
                    pending: samples,
                    ..self
                }.fill_spec(vacant),
                Event::Pushed { written, vacant } => Worker {
                    pending: (self.pending - written) as usize,
                    ..self
                }.fill_spec(vacant),
                Event::Vacancy(vacant) => self.fill_spec(vacant),
                Event::EndOfInput | Event::ChannelClosed => self.stop_spec(false),
                _ => self.stop_spec(true),
            },
            Phase::AwaitingVacancy => match e {
                Event::Vacancy(n) => if n >= self.pending || n >= LOW_WATERMARK {
                    (Worker { phase: Phase::Decoding, ..self }, Action::Push)
                } else {
                    (self, Action::Wait)
                },
                Event::SeekRequested(t) => self.seek_spec(t, (self, Action::Wait)),
                _ => self.stop_spec(false),
            },
            Phase::Seeking => match e {
                Event::SeekDone(f) => (Worker { phase: Phase::Decoding, frames: f, ..self }, Action::Decode),
                Event::SeekFailed => (Worker { phase: Phase::Decoding, ..self }, Action::Decode),
                _ => self.stop_spec(false),
            },
            Phase::Scanning => match e {
                Event::Reopened => (self, Action::ScanNext),
                Event::Scanned { frames, samples } => {
                    if self.frames + frames > u64::MAX {
                        self.stop_spec(true)
                    } else {
                        match scan_step_spec(self.frames as int, frames as int, self.scan_target as int) {
                            ScanStep::Continue(end) => (Worker { frames: end, ..self }, Action::ScanNext),
                            ScanStep::Found { end, skip } => {
                                let n = skip * self.params.channels;
                                if n <= samples {
                                    (
                                        Worker {
                                            phase: Phase::Decoding,
                                            frames: end,
                                            pending: (samples - n) as usize,
                                            ..self
                                        },
                                        Action::Trim(n as usize),
                                    )
                                } else {
                                    self.stop_spec(true)
                                }
                            },
                        }
                    }
                },
                Event::EndOfInput | Event::ChannelClosed => self.stop_spec(false),
                _ => self.stop_spec(true),
            },
        }
    }

    /// A push that wrote nothing because the buffer was full does not stop
    /// the worker: it waits for room again.
    pub proof fn lemma_empty_push_waits(self, vacant: usize)
        requires
            self.phase == Phase::Decoding,
            self.pending > 0,
            vacant < LOW_WATERMARK,
            vacant < self.pending,
        ensures
            self.accepts_spec(Event::Pushed { written: 0, vacant }),
            self.step_spec(Event::Pushed { written: 0, vacant }) == (
                Worker { phase: Phase::AwaitingVacancy, ..self },
                Action::Wait,
            ),
    {
    }

    /// A worker at the start of a stream.
    pub fn new(params: StreamParams) -> (w: Worker)
        requires
            params.sample_rate > 0,
            params.channels > 0,
        ensures
            w.wf(),
            w.params == params,
            w.phase == Phase::Decoding,
            w.frames == 0,
            w.pending == 0,
            !w.failed,
    {
        Worker { params, phase: Phase::Decoding, frames: 0, pending: 0, scan_target: 0, failed: false }
    }

    /// Whether the runner may report `e` in the current phase.
    pub fn accepts(&self, e: Event) -> (b: bool)
        ensures
            b == self.accepts_spec(e),
    {
        match self.phase {
            Phase::Decoding => match e {
                Event::Drained(_) | Event::Decoded { .. } | Event::EndOfInput
                | Event::DecodeFailed | Event::ChannelClosed => self.pending == 0,
                Event::Pushed { written, .. } => written <= self.pending,
                Event::Vacancy(_) => true,
                _ => false,
            },
            Phase::AwaitingVacancy => match e {
                Event::Vacancy(_) | Event::SeekRequested(_) | Event::ChannelClosed => true,
                _ => false,
            },
            Phase::Seeking => match e {
                Event::SeekDone(_) | Event::SeekFailed | Event::ChannelClosed => true,
                _ => false,
            },
            Phase::Scanning => match e {
                Event::Reopened | Event::ReopenFailed | Event::Scanned { .. }
                | Event::EndOfInput | Event::DecodeFailed | Event::ChannelClosed => true,
                _ => false,
            },
            Phase::Stopped => true,
        }
    }

    fn fill(self, vacant: usize) -> (r: (Worker, Action))
        ensures
            r == self.fill_spec(vacant),
    {
        if self.pending == 0 {
            (Worker { phase: Phase::Decoding, ..self }, Action::Drain)
        } else if vacant < self.pending && vacant < LOW_WATERMARK {
            (Worker { phase: Phase::AwaitingVacancy, ..self }, Action::Wait)
        } else {
            (Worker { phase: Phase::Decoding, ..self }, Action::Push)
        }
    }

    fn seek(self, target_ms: u64, idle: (Worker, Action)) -> (r: (Worker, Action))
        requires
            self.wf(),
        ensures
            r == self.seek_spec(target_ms, idle),
    {
        match plan_seek(
            self.frames,
            self.params.sample_rate,
            self.params.total_frames,
            target_ms,
            self.params.reopen_backward,
        ) {
            SeekPlan::Stay | SeekPlan::Unreachable => idle,
            SeekPlan::Native(ms) => (Worker { phase: Phase::Seeking, pending: 0, ..self }, Action::SeekNative(ms)),
            SeekPlan::Reopen(tf) => (
                Worker { phase: Phase::Scanning, pending: 0, frames: 0, scan_target: tf, ..self },
                Action::Reopen,
            ),
        }
    }

    fn stop(self, failed: bool) -> (r: (Worker, Action))
        ensures
            r == self.stop_spec(failed),
    {
        (Worker { phase: Phase::Stopped, pending: 0, failed: self.failed || failed, ..self }, Action::Stop)
    }

    /// Takes the worker one step: from its state and the runner's report of
    /// what happened, to its next state and the runner's next action.
    pub fn step(self, e: Event) -> (r: (Worker, Action))
        requires
            self.wf(),
            self.accepts_spec(e),
        ensures
            r == self.step_spec(e),
            r.0.wf(),
            r.0.params == self.params,
    {
        match self.phase {
            Phase::Stopped => (self, Action::Stop),
            Phase::Decoding => match e {
                Event::Drained(b) => match b.seek {
                    Some(t) => self.seek(t, (self, Action::Decode)),
                    None => (self, Action::Decode),
                },
                Event::Decoded { frames, samples, vacant } => Worker {
                    frames: self.frames.saturating_add(frames),
                    pending: samples,
                    ..self
                }.fill(vacant),
                Event::Pushed { written, vacant } => Worker {
                    pending: self.pending - written,
                    ..self
                }.fill(vacant),
                Event::Vacancy(vacant) => self.fill(vacant),
                Event::EndOfInput | Event::ChannelClosed => self.stop(false),
                _ => self.stop(true),
            },
            Phase::AwaitingVacancy => match e {
                Event::Vacancy(n) => if n >= self.pending || n >= LOW_WATERMARK {
                    (Worker { phase: Phase::Decoding, ..self }, Action::Push)
                } else {
                    (self, Action::Wait)
                },
                Event::SeekRequested(t) => self.seek(t, (self, Action::Wait)),
                _ => self.stop(false),
            },
            Phase::Seeking => match e {
                Event::SeekDone(f) => (Worker { phase: Phase::Decoding, frames: f, ..self }, Action::Decode),
                Event::SeekFailed => (Worker { phase: Phase::Decoding, ..self }, Action::Decode),
                _ => self.stop(false),
            },
            Phase::Scanning => match e {
                Event::Reopened => (self, Action::ScanNext),
                Event::Scanned { frames, samples } => {
                    if frames > u64::MAX - self.frames {
                        self.stop(true)
                    } else {
                        match scan_step(self.frames, frames, self.scan_target) {
                            ScanStep::Continue(end) => (Worker { frames: end, ..self }, Action::ScanNext),
                            ScanStep::Found { end, skip } => {
                                match trim_len(skip, self.params.channels) {
                                    Some(n) => if n <= samples {
                                        (
                                            Worker {
                                                phase: Phase::Decoding,
                                                frames: end,
                                                pending: samples - n,
                                                ..self
                                            },
                                            Action::Trim(n),
                                        )
                                    } else {
                                        self.stop(true)
                                    },
                                    None => self.stop(true),
                                }
                            },
                        }
                    }
                },
                Event::EndOfInput | Event::ChannelClosed => self.stop(false),
                _ => self.stop(true),
            },
        }
    }
}

} // verus!

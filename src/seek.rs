//! Seek resolution for the decode worker.
//!
//! The worker tracks its position as the number of frames (samples per
//! channel) produced since the start of the stream. A request is resolved
//! against that position: within a second of it, nothing happens; past the
//! known end of the stream, the request is dropped; otherwise the format
//! reader seeks with its own index, except backwards on a format that cannot
//! seek back, where the source is reopened and scanned forward block by block
//! to the block holding the target, whose head is then trimmed.

use vstd::prelude::*;

verus! {

/// Requests closer than this to the current position, in milliseconds, are
/// not acted upon: the perceptual difference does not justify a reopen.
pub const NOOP_WINDOW_MS: u64 = 1000;

/// The playback time, in milliseconds, after `frames` frames at `rate` Hz.
pub open spec fn position_ms(frames: int, rate: int) -> int {
    frames * 1000 / rate
}

/// The frame at which the time `ms` (milliseconds) falls, at `rate` Hz.
pub open spec fn frame_at(ms: int, rate: int) -> int {
    ms * rate / 1000
}

/// How a seek request is carried out.
#[derive(Clone, Copy, Debug, PartialEq, Eq, Structural)]
pub enum SeekPlan {
    /// The target is within the no-op window: keep playing.
    Stay,
    /// The target lies past the known end of the stream: the request is dropped.
    Unreachable,
    /// Ask the format reader to seek to this time (milliseconds).
    Native(u64),
    /// Reopen the source and scan forward to this frame.
    Reopen(u64),
}

/// The plan for a request to seek to `target_ms` when `frames` frames have
/// been produced at `rate` Hz, the stream holds `total` frames if known, and
/// `reopen_backward` tells whether the format must be reopened to go back.
pub open spec fn seek_plan(
    frames: int,
    rate: int,
    total: Option<u64>,
    target_ms: int,
    reopen_backward: bool,
) -> SeekPlan {
    let cur = position_ms(frames, rate);
    let tf = frame_at(target_ms, rate);
    if cur - NOOP_WINDOW_MS < target_ms < cur + NOOP_WINDOW_MS {
        SeekPlan::Stay
    } else if (total is Some && tf >= total->0) || tf > u64::MAX {
        SeekPlan::Unreachable
    } else if target_ms > cur || !reopen_backward {
        SeekPlan::Native(target_ms as u64)
    } else {
        SeekPlan::Reopen(tf as u64)
    }
}

/// Resolves a seek request against the current position.
pub fn plan_seek(
    frames: u64,
    rate: u32,
    total: Option<u64>,
    target_ms: u64,
    reopen_backward: bool,
) -> (p: SeekPlan)
    requires
        rate > 0,
    ensures
        p == seek_plan(frames as int, rate as int, total, target_ms as int, reopen_backward),
{
    let cur: u128 = (frames as u128) * 1000 / (rate as u128);
    let target: u128 = target_ms as u128;
    assert((frames as int) * 1000 <= u64::MAX as int * 1000) by (nonlinear_arith);
    assert((target_ms as int) * (rate as int) <= u64::MAX as int * u32::MAX as int)
        by (nonlinear_arith)
        requires
            target_ms <= u64::MAX,
            rate <= u32::MAX,
    ;
    let tf: u128 = target * (rate as u128) / 1000;
    if cur < target + 1000 && target < cur + 1000 {
        SeekPlan::Stay
    } else if tf > u64::MAX as u128 {
        SeekPlan::Unreachable
    } else {
        let unreachable = match total {
            Some(t) => tf >= t as u128,
            None => false,
        };
        if unreachable {
            SeekPlan::Unreachable
        } else if target > cur || !reopen_backward {
            SeekPlan::Native(target_ms)
        } else {
            SeekPlan::Reopen(tf as u64)
        }
    }
}

/// One step of the forward scan that follows a reopen.
#[derive(Clone, Copy, Debug, PartialEq, Eq, Structural)]
pub enum ScanStep {
    /// The block ends before the target: this many frames are now behind.
    Continue(u64),
    /// The block holds the target: playback resumes after dropping `skip`
    /// frames from its head, and `end` frames have been produced so far.
    Found { end: u64, skip: u64 },
}

/// The scan step for a block of `len` frames that starts at frame `start`,
/// looking for frame `target`.
pub open spec fn scan_step_spec(start: int, len: int, target: int) -> ScanStep {
    if start <= target < start + len {
        ScanStep::Found { end: (start + len) as u64, skip: (target - start) as u64 }
    } else {
        ScanStep::Continue((start + len) as u64)
    }
}

/// Accounts for one decoded block during the forward scan.
pub fn scan_step(start: u64, len: u64, target: u64) -> (s: ScanStep)
    requires
        start + len <= u64::MAX,
    ensures
        s == scan_step_spec(start as int, len as int, target as int),
{
    let end = start + len;
    if start <= target && target < end {
        ScanStep::Found { end, skip: target - start }
    } else {
        ScanStep::Continue(end)
    }
}

/// The number of interleaved samples to drop for `skip` frames of
/// `channels` channels each, or `None` if that count does not fit.
pub fn trim_len(skip: u64, channels: u16) -> (n: Option<usize>)
    ensures
        n is Some <==> skip * channels <= usize::MAX,
        n is Some ==> n->0 == skip * channels,
{
    assert(skip as int * channels as int <= u64::MAX as int * u16::MAX as int)
        by (nonlinear_arith)
        requires
            skip <= u64::MAX,
            channels <= u16::MAX,
    ;
    let prod: u128 = (skip as u128) * (channels as u128);
    if prod <= usize::MAX as u128 {
        Some(prod as usize)
    } else {
        None
    }
}

/// A seek to within a second of the current position is a no-op.
pub proof fn lemma_near_seek_is_noop(
    frames: int,
    rate: int,
    total: Option<u64>,
    target_ms: int,
    reopen_backward: bool,
)
    requires
        rate > 0,
        -(NOOP_WINDOW_MS as int) < target_ms - position_ms(frames, rate) < NOOP_WINDOW_MS,
    ensures
        seek_plan(frames, rate, total, target_ms, reopen_backward) == SeekPlan::Stay,
{
}

/// Seeking to the start from a position at least a second in, on a format
/// that must be reopened to go back, reopens and scans for frame 0; the scan
/// stops at the first block, with nothing trimmed, so production restarts
/// from the first sample.
pub proof fn lemma_seek_to_start_restarts(
    frames: int,
    rate: int,
    total: Option<u64>,
    first_block_len: int,
)
    requires
        rate > 0,
        position_ms(frames, rate) >= NOOP_WINDOW_MS,
        total is Some ==> total->0 > 0,
        0 < first_block_len <= u64::MAX,
    ensures
        seek_plan(frames, rate, total, 0, true) == SeekPlan::Reopen(0),
        scan_step_spec(0, first_block_len, 0) == (ScanStep::Found {
            end: first_block_len as u64,
            skip: 0,
        }),
{
}

/// After the scan finds the block holding the target, the position estimate
/// (frames produced) lies at most one block past the target.
pub proof fn lemma_scan_lands_within_block(start: int, len: int, target: int)
    requires
        0 <= start,
        0 <= len,
        start + len <= u64::MAX,
        start <= target < start + len,
    ensures
        scan_step_spec(start, len, target) matches ScanStep::Found { end, skip }
            && target < end <= target + len
            && start + skip == target,
{
}

} // verus!

use polypody::adapter::{stream_length_ms, Adapter, Pull, RING_CAPACITY};
use polypody::control::{coalesce, StreamMessage};
use polypody::pcm::{
    pcm_s16_to_ieee, pcm_s24_to_ieee, pcm_s32_to_ieee, pcm_s8_to_ieee, pcm_u16_to_ieee,
    pcm_u24_to_ieee, pcm_u32_to_ieee, pcm_u8_to_ieee, Ratio, I24_MAX, I24_MIN, U24_MAX,
};
use polypody::queue::{play_from, remove_at, requeue_finished, skip_back, skip_forward, swap_entries};
use polypody::ring::SampleRing;
use polypody::seek::{plan_seek, scan_step, trim_len, ScanStep, SeekPlan};
use polypody::ui::RepeatStatus;
use polypody::worker::{Action, Event, Phase, StreamParams, Worker};

fn as_f32(r: Ratio) -> f32 {
    (r.num as f64 / r.den as f64) as f32
}

#[test]
fn signed_extremes_normalize_to_unit() {
    assert_eq!(as_f32(pcm_s8_to_ieee(i8::MIN)), -1.0);
    assert_eq!(as_f32(pcm_s8_to_ieee(i8::MAX)), 1.0);
    assert_eq!(as_f32(pcm_s16_to_ieee(i16::MIN)), -1.0);
    assert_eq!(as_f32(pcm_s16_to_ieee(i16::MAX)), 1.0);
    assert_eq!(as_f32(pcm_s24_to_ieee(I24_MIN)), -1.0);
    assert_eq!(as_f32(pcm_s24_to_ieee(I24_MAX)), 1.0);
    assert_eq!(as_f32(pcm_s32_to_ieee(i32::MIN)), -1.0);
    assert_eq!(as_f32(pcm_s32_to_ieee(i32::MAX)), 1.0);
    assert_eq!(as_f32(pcm_s16_to_ieee(0)), 0.0);
}

#[test]
fn unsigned_extremes_normalize_to_unit() {
    assert_eq!(as_f32(pcm_u8_to_ieee(0)), -1.0);
    assert_eq!(as_f32(pcm_u8_to_ieee(u8::MAX)), 1.0);
    assert_eq!(as_f32(pcm_u16_to_ieee(0)), -1.0);
    assert_eq!(as_f32(pcm_u16_to_ieee(u16::MAX)), 1.0);
    assert_eq!(as_f32(pcm_u24_to_ieee(0)), -1.0);
    assert_eq!(as_f32(pcm_u24_to_ieee(U24_MAX)), 1.0);
    assert_eq!(as_f32(pcm_u32_to_ieee(0)), -1.0);
    assert_eq!(as_f32(pcm_u32_to_ieee(u32::MAX)), 1.0);
}

#[test]
fn normalization_scales_each_side_separately() {
    assert_eq!(pcm_s8_to_ieee(-64), Ratio { num: -64, den: 128 });
    assert_eq!(pcm_s8_to_ieee(64), Ratio { num: 64, den: 127 });
    assert_eq!(pcm_u8_to_ieee(100), Ratio { num: -55, den: 255 });
}

#[test]
fn push_then_pop_is_fifo() {
    let mut ring = SampleRing::new(8);
    assert_eq!(ring.push_slice(&[9]), 1);
    assert_eq!(ring.pop_one(), Some(9));
    let samples = [1, -2, 3, -4, 5];
    assert_eq!(ring.push_slice(&samples), 5);
    let out: Vec<i32> = (0..5).map(|_| ring.pop_one().unwrap()).collect();
    assert_eq!(out, samples.to_vec());
    assert_eq!(ring.pop_one(), None);
}

#[test]
fn push_writes_only_what_fits() {
    let mut ring = SampleRing::new(4);
    assert_eq!(ring.push_slice(&[1, 2, 3]), 3);
    assert_eq!(ring.push_slice(&[4, 5, 6]), 1);
    assert!(ring.is_full());
    assert_eq!(ring.push_slice(&[7]), 0);
    assert_eq!(ring.pop_one(), Some(1));
    assert_eq!(ring.push_slice(&[5, 6]), 1);
    let out: Vec<i32> = (0..4).map(|_| ring.pop_one().unwrap()).collect();
    assert_eq!(out, vec![2, 3, 4, 5]);
    assert!(ring.is_empty());
}

#[test]
fn vacancy_plus_occupancy_is_capacity() {
    let mut ring = SampleRing::new(5);
    let mut pushed = 0i32;
    for round in 0..20 {
        let batch: Vec<i32> = (0..(round % 4)).map(|k| pushed + k).collect();
        let n = ring.push_slice(&batch);
        pushed += n as i32;
        assert_eq!(ring.vacant_len() + ring.occupied_len(), ring.capacity());
        for _ in 0..(round % 3) {
            ring.pop_one();
            assert_eq!(ring.vacant_len() + ring.occupied_len(), ring.capacity());
        }
    }
    assert_eq!(ring.capacity(), 5);
}

#[test]
fn stalled_worker_yields_silence_until_data_arrives() {
    let mut ring = SampleRing::new(16);
    let adapter = Adapter::new(1, 44100, Some(1000));
    for _ in 0..100 {
        let (pull, _) = adapter.next_sample(ring.pop_one(), false, ring.vacant_len());
        assert_eq!(pull, Pull::Silence);
    }
    ring.push_slice(&[42, 43]);
    assert_eq!(adapter.next_sample(ring.pop_one(), false, 0).0, Pull::Sample(42));
    assert_eq!(adapter.next_sample(ring.pop_one(), false, 0).0, Pull::Sample(43));
    assert_eq!(adapter.next_sample(ring.pop_one(), false, 0).0, Pull::Silence);
    assert_eq!(adapter.next_sample(ring.pop_one(), true, 0).0, Pull::Ended);
}

#[test]
fn every_pull_reports_vacancy() {
    let adapter = Adapter::new(2, 48000, None);
    for k in 0..20 {
        let (_, report) = adapter.next_sample(None::<i32>, false, k);
        assert_eq!(report, StreamMessage::VacantLen(k));
    }
    assert_eq!(adapter.channel_count(), 2);
    assert_eq!(adapter.sample_rate(), 48000);
    assert_eq!(adapter.total_duration(), None);
    assert_eq!(adapter.seek(5000), StreamMessage::Seek(5000));
}

#[test]
fn stream_length_prefers_the_known_length() {
    assert_eq!(stream_length_ms(Some(1234), Some(441000), 44100), Some(1234));
    assert_eq!(stream_length_ms(None, Some(441000), 44100), Some(10000));
    assert_eq!(stream_length_ms(None, Some(22050), 44100), Some(500));
    assert_eq!(stream_length_ms(None, None, 44100), None);
    assert_eq!(stream_length_ms(None, Some(5), 0), None);
}

#[test]
fn worker_survives_an_empty_push() {
    let params = StreamParams { sample_rate: RATE, channels: 1, total_frames: None, reopen_backward: false };
    let w = Worker::new(params);
    // a stale report says there is room; the ring is in fact full
    let (w, a) = w.step(Event::Decoded { frames: 1152, samples: 1152, vacant: 4096 });
    assert_eq!(a, Action::Push);
    let empty = Event::Pushed { written: 0, vacant: 0 };
    assert!(w.accepts(empty));
    let (w, a) = w.step(empty);
    assert_eq!(a, Action::Wait);
    assert_eq!(w.phase, Phase::AwaitingVacancy);
    assert_eq!(w.pending, 1152);
    assert!(!w.failed);
    let (w, a) = w.step(Event::Vacancy(2048));
    assert_eq!(a, Action::Push);
    let (_, a) = w.step(Event::Pushed { written: 1152, vacant: 896 });
    assert_eq!(a, Action::Drain);
}

#[test]
fn last_seek_wins() {
    let msgs = vec![
        StreamMessage::Seek(1000),
        StreamMessage::VacantLen(3),
        StreamMessage::Seek(7000),
        StreamMessage::VacantLen(9),
    ];
    let b = coalesce(&msgs, 100);
    assert_eq!(b.seek, Some(7000));
    assert_eq!(b.vacant, 9);
    let b = coalesce(&vec![], 100);
    assert_eq!(b.seek, None);
    assert_eq!(b.vacant, 100);
}

#[test]
fn seek_within_a_second_is_a_noop() {
    // 30 s in, at 44.1 kHz.
    let frames = 30 * 44100;
    assert_eq!(plan_seek(frames, 44100, None, 30_500, true), SeekPlan::Stay);
    assert_eq!(plan_seek(frames, 44100, None, 29_001, true), SeekPlan::Stay);
    assert_eq!(plan_seek(frames, 44100, None, 31_000, true), SeekPlan::Native(31_000));
    assert_eq!(plan_seek(frames, 44100, None, 29_000, true), SeekPlan::Reopen(29 * 44100));
    assert_eq!(plan_seek(frames, 44100, None, 29_000, false), SeekPlan::Native(29_000));
    assert_eq!(plan_seek(frames, 44100, Some(60 * 44100), 60_000, true), SeekPlan::Unreachable);
}

#[test]
fn seek_to_start_restarts_from_first_sample() {
    assert_eq!(plan_seek(30 * 44100, 44100, Some(60 * 44100), 0, true), SeekPlan::Reopen(0));
    assert_eq!(scan_step(0, 1152, 0), ScanStep::Found { end: 1152, skip: 0 });
    assert_eq!(scan_step(0, 1152, 5000), ScanStep::Continue(1152));
    assert_eq!(scan_step(4608, 1152, 5000), ScanStep::Found { end: 5760, skip: 392 });
    assert_eq!(trim_len(392, 2), Some(784));
    assert_eq!(trim_len(u64::MAX, 2), None);
}

const RATE: u32 = 44100;
const BLOCK: u64 = 1152;

/// Drives a worker over a synthetic mono source of `total` frames whose
/// sample at frame `f` is `f`, with a consumer that takes `per_wait`
/// samples whenever the worker waits. Seeks to `seek_ms` once `seek_after`
/// samples have been pulled. Returns what the consumer pulled, the worker,
/// and the frame estimate right after the seek resolved.
fn run(total: u64, reopen_backward: bool, seek_after: Option<(usize, u64)>) -> (Vec<i32>, Worker, Option<u64>) {
    let params = StreamParams {
        sample_rate: RATE,
        channels: 1,
        total_frames: Some(total),
        reopen_backward,
    };
    let mut worker = Worker::new(params);
    let mut action = Action::Drain;
    let mut ring = SampleRing::new(RING_CAPACITY);
    let adapter = Adapter::new(1, RATE, Some(total * 1000 / RATE as u64));
    let mut cursor: u64 = 0;
    let mut scratch: Vec<i32> = vec![];
    let mut offset = 0usize;
    let mut pulled: Vec<i32> = vec![];
    let mut inbox: Vec<StreamMessage> = vec![];
    let mut pending_seek = seek_after;
    let mut after_seek = None;
    let mut steps = 0;
    let decode = |cursor: &mut u64| -> Option<Vec<i32>> {
        if *cursor >= total {
            return None;
        }
        let n = BLOCK.min(total - *cursor);
        let block = (*cursor..*cursor + n).map(|f| f as i32).collect();
        *cursor += n;
        Some(block)
    };
    loop {
        steps += 1;
        assert!(steps < 10_000_000);
        let event = match action {
            Action::Drain => {
                let b = coalesce(&inbox, ring.vacant_len());
                inbox.clear();
                Event::Drained(b)
            }
            Action::Decode => match decode(&mut cursor) {
                Some(block) => {
                    let n = block.len();
                    scratch = block;
                    offset = 0;
                    Event::Decoded { frames: n as u64, samples: n, vacant: ring.vacant_len() }
                }
                None => Event::EndOfInput,
            },
            Action::Push => {
                let written = ring.push_slice(&scratch[offset..]);
                offset += written;
                Event::Pushed { written, vacant: ring.vacant_len() }
            }
            Action::Wait => {
                let mut seek = None;
                for _ in 0..4096 {
                    let (pull, hint) = adapter.next_sample(ring.pop_one(), false, ring.vacant_len());
                    if let Pull::Sample(s) = pull {
                        pulled.push(s);
                    }
                    assert!(matches!(hint, StreamMessage::VacantLen(_)));
                    if let Some((after, ms)) = pending_seek {
                        if pulled.len() >= after {
                            seek = Some(adapter.seek(ms));
                            pending_seek = None;
                            break;
                        }
                    }
                }
                match seek {
                    Some(StreamMessage::Seek(ms)) => {
                        ring = SampleRing::new(RING_CAPACITY);
                        pulled.clear();
                        Event::SeekRequested(ms)
                    }
                    _ => Event::Vacancy(ring.vacant_len()),
                }
            }
            Action::SeekNative(ms) => {
                cursor = ms * RATE as u64 / 1000;
                Event::SeekDone(cursor)
            }
            Action::Reopen => {
                cursor = 0;
                Event::Reopened
            }
            Action::ScanNext => match decode(&mut cursor) {
                Some(block) => {
                    let n = block.len();
                    scratch = block;
                    offset = 0;
                    Event::Scanned { frames: n as u64, samples: n }
                }
                None => Event::EndOfInput,
            },
            Action::Trim(n) => {
                offset = n;
                Event::Vacancy(ring.vacant_len())
            }
            Action::Stop => break,
        };
        assert!(worker.accepts(event));
        let was = worker.phase;
        let (next, act) = worker.step(event);
        if matches!(was, Phase::Seeking | Phase::Scanning) && next.phase == Phase::Decoding {
            after_seek = Some(next.frames);
        }
        worker = next;
        action = act;
    }
    loop {
        match adapter.next_sample(ring.pop_one(), true, ring.vacant_len()).0 {
            Pull::Sample(s) => pulled.push(s),
            Pull::Silence => panic!("silence after the worker finished"),
            Pull::Ended => break,
        }
    }
    (pulled, worker, after_seek)
}

#[test]
fn ten_second_mono_track_yields_every_sample_then_ends() {
    let total = 10 * RATE as u64;
    let (pulled, worker, _) = run(total, false, None);
    assert_eq!(pulled.len() as u64, total);
    assert!(pulled.iter().enumerate().all(|(i, s)| *s == i as i32));
    assert_eq!(worker.phase, Phase::Stopped);
    assert!(!worker.failed);
    let mut ring = SampleRing::new(4);
    let adapter = Adapter::new(1, RATE, Some(10_000));
    for _ in 0..3 {
        assert_eq!(adapter.next_sample(ring.pop_one(), true, 4).0, Pull::Ended);
    }
}

#[test]
fn native_seek_to_five_seconds_lands_there() {
    let total = 10 * RATE as u64;
    let (pulled, _, after) = run(total, false, Some((RING_CAPACITY, 5000)));
    let target = 5 * RATE as u64;
    assert_eq!(after, Some(target));
    assert_eq!(pulled[0] as u64, target);
    assert_eq!(pulled.len() as u64, total - target);
}

#[test]
fn backward_seek_by_rescan_resumes_at_the_target() {
    let total = 10 * RATE as u64;
    // Pull past 8 s, then seek back to 5 s: the source is reopened and scanned.
    let (pulled, _, after) = run(total, true, Some((8 * RATE as usize, 5000)));
    let target = 5 * RATE as u64;
    let estimate = after.unwrap();
    assert!(estimate > target && estimate <= target + BLOCK);
    assert_eq!(pulled[0] as u64, target);
    assert_eq!(pulled.len() as u64, total - target);
}

#[test]
fn worker_waits_below_the_low_watermark() {
    let params = StreamParams { sample_rate: RATE, channels: 2, total_frames: None, reopen_backward: false };
    let w = Worker::new(params);
    let (w, a) = w.step(Event::Decoded { frames: 576, samples: 1152, vacant: 3 });
    assert_eq!(a, Action::Wait);
    assert_eq!(w.phase, Phase::AwaitingVacancy);
    assert_eq!(w.frames, 576);
    let (w, a) = w.step(Event::Vacancy(5));
    assert_eq!(a, Action::Wait);
    let (w, a) = w.step(Event::Vacancy(100));
    assert_eq!(a, Action::Push);
    let (w, a) = w.step(Event::Pushed { written: 100, vacant: 0 });
    assert_eq!(a, Action::Wait);
    assert_eq!(w.pending, 1052);
    let (w, a) = w.step(Event::ChannelClosed);
    assert_eq!(a, Action::Stop);
    assert_eq!(w.phase, Phase::Stopped);
    assert!(!w.failed);
}

#[test]
fn decode_failure_stops_the_worker() {
    let params = StreamParams { sample_rate: RATE, channels: 1, total_frames: None, reopen_backward: false };
    let (w, a) = Worker::new(params).step(Event::DecodeFailed);
    assert_eq!(a, Action::Stop);
    assert!(w.failed);
    assert_eq!(w.phase, Phase::Stopped);
}

#[test]
fn queue_operations_check_indices() {
    let tracks = vec![1, 2, 3, 4];
    let mut q = vec![9];
    assert!(play_from(&mut q, &tracks, 2, RepeatStatus::All));
    assert_eq!(q, vec![3, 4, 1, 2]);
    assert!(play_from(&mut q, &tracks, 1, RepeatStatus::Off));
    assert_eq!(q, vec![2, 3, 4]);
    assert!(!play_from(&mut q, &tracks, 5, RepeatStatus::Off));
    assert_eq!(q, vec![2, 3, 4]);
    assert!(swap_entries(&mut q, 0, 2));
    assert_eq!(q, vec![4, 3, 2]);
    assert!(!swap_entries(&mut q, 0, 3));
    assert_eq!(remove_at(&mut q, 1), Some(3));
    assert_eq!(remove_at(&mut q, 7), None);
    assert_eq!(q, vec![4, 2]);
    requeue_finished(&mut q, 8, RepeatStatus::One);
    assert_eq!(q, vec![8, 4, 2]);
    requeue_finished(&mut q, 7, RepeatStatus::All);
    assert_eq!(q, vec![8, 4, 2, 7]);
    skip_forward(&mut q, 5, RepeatStatus::All);
    assert_eq!(q, vec![8, 4, 2, 7, 5]);
    assert!(skip_back(&mut q, 6, 1, RepeatStatus::All));
    assert_eq!(q, vec![5, 6, 8, 4, 2, 7]);
    assert!(!skip_back(&mut q, 6, 2, RepeatStatus::All));
}

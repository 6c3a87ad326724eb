//! The pacing of the sync loop: when to capture and when to send a frame, and the counts
//! kept while it runs.
//!
//! Instants are nanoseconds since the loop started; the caller sleeps, captures and sends,
//! and reports each outcome here.
use vstd::prelude::*;
use crate::presets::{effective_capture_poll_timeout, expected_frames, frame_delay_for_fps};
use crate::sync_stats::{StageStats, SyncStats, MAX_DURATION_NANOS};

verus! {

/// The first slot of the cadence that starts at `start` with period `delay` and lies after
/// `now`: `start + k * delay` for the least `k >= 1` with `start + k * delay > now`.
pub open spec fn slot_after(start: int, delay: int, now: int) -> int {
    if now < start + delay {
        start + delay
    } else {
        start + ((now - start) / delay + 1) * delay
    }
}

/// The slot after `now` is one whole number of periods past `start`, lies after `now`, and
/// no earlier slot past `start` does.
pub proof fn lemma_slot_after(start: int, delay: int, now: int)
    requires
        delay > 0,
    ensures
        ({
            let s = slot_after(start, delay, now);
            &&& s > now
            &&& s >= start + delay
            &&& (s - start) % delay == 0
            &&& (s == start + delay || s - delay <= now)
        }),
{
    if now >= start + delay {
        let q = (now - start) / delay;
        let r = (now - start) % delay;
        vstd::arithmetic::div_mod::lemma_fundamental_div_mod(now - start, delay);
        assert(now - start == delay * q + r);
        assert(0 <= r < delay);
        assert((q + 1) * delay == q * delay + delay) by (nonlinear_arith);
        assert(q * delay == delay * q) by (nonlinear_arith);
        assert(q >= 1) by (nonlinear_arith)
            requires
                now - start == delay * q + r,
                now - start >= delay,
                r < delay,
                delay > 0,
        ;
        vstd::arithmetic::div_mod::lemma_mod_multiples_basic(q + 1, delay);
    } else {
        vstd::arithmetic::div_mod::lemma_mod_self_0(delay);
    }
}

/// The next slot of a cadence after `now`, found as the loop does it: one period on, then
/// further periods while the slot is not after `now`.
pub fn next_slot(start: u128, delay: u128, now: u128) -> (r: u128)
    requires
        delay > 0,
        start + delay <= u128::MAX,
        now + delay <= u128::MAX,
    ensures
        r == slot_after(start as int, delay as int, now as int),
        r > now,
        r >= start + delay,
        (r - start) % (delay as int) == 0,
        r == start + delay || r - delay <= now,
{
    proof {
        lemma_slot_after(start as int, delay as int, now as int);
    }
    let mut next = start + delay;
    let ghost mut k: int = 1;
    while next <= now
        invariant
            delay > 0,
            now + delay <= u128::MAX,
            k >= 1,
            next == start + k * delay,
            k == 1 || start + (k - 1) * delay <= now,
        decreases now + delay - next,
    {
        assert((k + 1) * delay == k * delay + delay) by (nonlinear_arith);
        next = next + delay;
        proof {
            k = k + 1;
        }
    }
    proof {
        if k > 1 {
            let q = k - 1;
            assert(k * delay == q * delay + delay) by (nonlinear_arith)
                requires
                    q == k - 1,
            ;
            assert(q * delay >= delay) by (nonlinear_arith)
                requires
                    q >= 1,
                    delay > 0,
            ;
            let x = now - start;
            let rem = x - q * delay;
            assert(0 <= rem < delay);
            vstd::arithmetic::div_mod::lemma_fundamental_div_mod_converse(x, delay as int, q, rem);
        }
    }
    next
}

/// What the loop does next: sleep until a capture slot and capture, or sleep until a stream
/// slot and send a frame.
#[derive(Debug, Clone, Copy, PartialEq, Eq, Structural)]
pub enum LoopStep {
    Capture { at: u128 },
    Stream { at: u128 },
}

/// How a capture poll ended.
#[derive(Debug, Clone, Copy, PartialEq, Eq, Structural)]
pub enum CaptureOutcome {
    /// New colors arrived; the time spent capturing and grading them.
    Fresh { capture_nanos: u128, color_nanos: u128 },
    /// The poll timed out without a frame; the time spent waiting.
    TimedOut { capture_nanos: u128 },
}

/// The first capture of a run may take this long (5 s) before it times out.
pub const FIRST_CAPTURE_TIMEOUT_NANOS: u128 = 5_000_000_000;

/// The delay between frames at `fps`, in nanoseconds (whole microseconds).
pub open spec fn delay_nanos(fps: u8) -> int {
    1000 * (1_000_000int / (fps as int))
}

/// A stage's longest duration is at most its total.
pub open spec fn stage_consistent(s: StageStats) -> bool {
    s.spec_max() <= s.spec_total()
}

/// The end of a run `duration_ms` long, in nanoseconds; none when the duration is 0 (run
/// until stopped).
pub fn deadline_for(duration_ms: u64) -> (r: Option<u128>)
    ensures
        duration_ms == 0 ==> r is None,
        duration_ms > 0 ==> r == Some((duration_ms as int * 1_000_000) as u128),
{
    if duration_ms == 0 {
        None
    } else {
        Some(duration_ms as u128 * 1_000_000)
    }
}

/// The state of a running sync loop: the next capture and stream slots, whether a capture
/// arrived since the last frame was sent, the sequence number of the next frame, and the
/// statistics so far.
pub struct SyncSchedule {
    capture_delay: u128,
    stream_delay: u128,
    next_capture_at: u128,
    next_stream_at: u128,
    fresh_capture: bool,
    sequence: u8,
    stats: SyncStats,
}

impl SyncSchedule {
    /// The period of capture slots.
    pub closed spec fn spec_capture_delay(&self) -> int {
        self.capture_delay as int
    }

    /// The period of stream slots.
    pub closed spec fn spec_stream_delay(&self) -> int {
        self.stream_delay as int
    }

    /// The next capture slot.
    pub closed spec fn spec_next_capture(&self) -> int {
        self.next_capture_at as int
    }

    /// The next stream slot.
    pub closed spec fn spec_next_stream(&self) -> int {
        self.next_stream_at as int
    }

    /// A capture arrived since the last frame was sent.
    pub closed spec fn spec_fresh(&self) -> bool {
        self.fresh_capture
    }

    /// The sequence number of the next frame.
    pub closed spec fn spec_sequence(&self) -> u8 {
        self.sequence
    }

    /// The statistics so far.
    pub closed spec fn spec_stats(&self) -> SyncStats {
        self.stats
    }

    /// What every state of the loop keeps: slots on their cadence, one capture-stage sample
    /// per poll, one color sample per capture, one encode and one send sample per frame, the
    /// first capture counted, no more repeated frames than frames, and the sequence number
    /// equal to the frame count modulo 256.
    pub open spec fn wf(&self) -> bool {
        let st = self.spec_stats();
        &&& self.spec_capture_delay() > 0
        &&& self.spec_stream_delay() > 0
        &&& self.spec_next_capture() >= self.spec_capture_delay()
        &&& self.spec_next_capture() % self.spec_capture_delay() == 0
        &&& self.spec_next_stream() % self.spec_stream_delay() == 0
        &&& st.capture.spec_samples() == st.capture_frames + st.empty_capture_polls
        &&& st.color.spec_samples() == st.capture_frames
        &&& st.encode.spec_samples() == st.frames
        &&& st.send.spec_samples() == st.frames
        &&& st.capture_frames >= 1
        &&& st.repeated_frames <= st.frames
        &&& self.spec_sequence() == st.frames % 256
        &&& stage_consistent(st.capture)
        &&& stage_consistent(st.color)
        &&& stage_consistent(st.encode)
        &&& stage_consistent(st.send)
    }

    /// The loop after its first capture: capture slots at the higher of the two rates,
    /// stream slots at the stream rate, the first frame due at once and the next capture one
    /// period in.
    pub fn start(capture_fps: u8, stream_fps: u8, first_capture_nanos: u128, first_color_nanos: u128) -> (r: SyncSchedule)
        requires
            capture_fps > 0,
            stream_fps > 0,
            first_capture_nanos <= MAX_DURATION_NANOS,
            first_color_nanos <= MAX_DURATION_NANOS,
        ensures
            r.wf(),
            r.spec_capture_delay() == delay_nanos(if capture_fps >= stream_fps { capture_fps } else { stream_fps }),
            r.spec_stream_delay() == delay_nanos(stream_fps),
            r.spec_next_capture() == r.spec_capture_delay(),
            r.spec_next_stream() == 0,
            r.spec_fresh(),
            r.spec_sequence() == 0,
            r.spec_stats().capture_backend is None,
            !r.spec_stats().interrupted,
            r.spec_stats().frames == 0,
            r.spec_stats().capture_frames == 1,
            r.spec_stats().repeated_frames == 0,
            r.spec_stats().missed_capture_frames == 0,
            r.spec_stats().empty_capture_polls == 0,
            r.spec_stats().capture.spec_samples() == 1,
            r.spec_stats().capture.spec_total() == first_capture_nanos,
            r.spec_stats().capture.spec_max() == first_capture_nanos,
            r.spec_stats().color.spec_samples() == 1,
            r.spec_stats().color.spec_total() == first_color_nanos,
            r.spec_stats().color.spec_max() == first_color_nanos,
            r.spec_stats().encode.spec_samples() == 0 && r.spec_stats().encode.spec_total() == 0,
            r.spec_stats().send.spec_samples() == 0 && r.spec_stats().send.spec_total() == 0,
    {
        let fastest = if capture_fps >= stream_fps { capture_fps } else { stream_fps };
        proof {
            lemma_delay_positive(fastest);
            lemma_delay_positive(stream_fps);
        }
        let capture_delay = frame_delay_for_fps(fastest) as u128 * 1000;
        let stream_delay = frame_delay_for_fps(stream_fps) as u128 * 1000;
        let mut stats = SyncStats::new();
        stats.capture.record(first_capture_nanos);
        stats.capture_frames = 1;
        stats.color.record(first_color_nanos);
        proof {
            vstd::arithmetic::div_mod::lemma_mod_self_0(capture_delay as int);
            vstd::arithmetic::div_mod::lemma_small_mod(0nat, stream_delay as nat);
        }
        SyncSchedule {
            capture_delay,
            stream_delay,
            next_capture_at: capture_delay,
            next_stream_at: 0,
            fresh_capture: true,
            sequence: 0,
            stats,
        }
    }

    /// Capture when the next capture slot is not later than the next stream slot, else send.
    pub fn next_step(&self) -> (r: LoopStep)
        ensures
            r == if self.spec_next_capture() <= self.spec_next_stream() {
                LoopStep::Capture { at: self.spec_next_capture() as u128 }
            } else {
                LoopStep::Stream { at: self.spec_next_stream() as u128 }
            },
    {
        if self.next_capture_at <= self.next_stream_at {
            LoopStep::Capture { at: self.next_capture_at }
        } else {
            LoopStep::Stream { at: self.next_stream_at }
        }
    }

    /// How long a capture poll may wait: 5 s before the first frame is sent, then the
    /// configured poll timeout, but at least half the stream period.
    pub fn capture_timeout(&self, configured_poll_nanos: u128) -> (r: u128)
        ensures
            r == if self.spec_stats().frames == 0 {
                FIRST_CAPTURE_TIMEOUT_NANOS as int
            } else if configured_poll_nanos >= self.spec_stream_delay() / 2 {
                configured_poll_nanos as int
            } else {
                self.spec_stream_delay() / 2
            },
    {
        if self.stats.frames == 0 {
            FIRST_CAPTURE_TIMEOUT_NANOS
        } else {
            effective_capture_poll_timeout(configured_poll_nanos, self.stream_delay)
        }
    }

    /// Room is left in the counters, totals and clock for recording this capture at `now`.
    pub open spec fn capture_fits(&self, outcome: CaptureOutcome, now: u128) -> bool {
        let st = self.spec_stats();
        &&& st.capture.spec_samples() < u64::MAX
        &&& self.spec_next_capture() + self.spec_capture_delay() <= u128::MAX
        &&& now + self.spec_capture_delay() <= u128::MAX
        &&& match outcome {
            CaptureOutcome::Fresh { capture_nanos, color_nanos } => {
                &&& st.capture.spec_total() + capture_nanos <= MAX_DURATION_NANOS
                &&& st.color.spec_total() + color_nanos <= MAX_DURATION_NANOS
            },
            CaptureOutcome::TimedOut { capture_nanos } => {
                st.capture.spec_total() + capture_nanos <= MAX_DURATION_NANOS
            },
        }
    }

    /// Whether this capture can be recorded (see `capture_fits`).
    pub fn room_for_capture(&self, outcome: CaptureOutcome, now: u128) -> (r: bool)
        ensures
            r == self.capture_fits(outcome, now),
    {
        let capture_nanos = match outcome {
            CaptureOutcome::Fresh { capture_nanos, .. } => capture_nanos,
            CaptureOutcome::TimedOut { capture_nanos } => capture_nanos,
        };
        let color_ok = match outcome {
            CaptureOutcome::Fresh { color_nanos, .. } => color_nanos <= MAX_DURATION_NANOS
                && self.stats.color.total_nanos() <= MAX_DURATION_NANOS - color_nanos,
            CaptureOutcome::TimedOut { .. } => true,
        };
        self.stats.capture.samples() < u64::MAX && self.next_capture_at <= u128::MAX
            - self.capture_delay && now <= u128::MAX - self.capture_delay && capture_nanos
            <= MAX_DURATION_NANOS && self.stats.capture.total_nanos() <= MAX_DURATION_NANOS
            - capture_nanos && color_ok
    }

    /// Records a capture poll that ended at `now`: fresh colors count a capture and make the
    /// next frame fresh, a timeout counts an empty poll; either way the next capture slot is
    /// the first one after `now`.
    pub fn record_capture(&mut self, outcome: CaptureOutcome, now: u128)
        requires
            old(self).wf(),
            old(self).capture_fits(outcome, now),
        ensures
            final(self).wf(),
            final(self).spec_capture_delay() == old(self).spec_capture_delay(),
            final(self).spec_stream_delay() == old(self).spec_stream_delay(),
            final(self).spec_next_stream() == old(self).spec_next_stream(),
            final(self).spec_sequence() == old(self).spec_sequence(),
            final(self).spec_next_capture() == slot_after(
                old(self).spec_next_capture(),
                old(self).spec_capture_delay(),
                now as int,
            ),
            final(self).spec_stats().frames == old(self).spec_stats().frames,
            final(self).spec_stats().repeated_frames == old(self).spec_stats().repeated_frames,
            final(self).spec_stats().interrupted == old(self).spec_stats().interrupted,
            final(self).spec_stats().capture_backend == old(self).spec_stats().capture_backend,
            final(self).spec_stats().missed_capture_frames == old(self).spec_stats().missed_capture_frames,
            final(self).spec_stats().encode == old(self).spec_stats().encode,
            final(self).spec_stats().send == old(self).spec_stats().send,
            match outcome {
                CaptureOutcome::Fresh { capture_nanos, color_nanos } => {
                    &&& final(self).spec_fresh()
                    &&& final(self).spec_stats().capture_frames == old(self).spec_stats().capture_frames + 1
                    &&& final(self).spec_stats().empty_capture_polls == old(self).spec_stats().empty_capture_polls
                    &&& final(self).spec_stats().capture.spec_total() == old(self).spec_stats().capture.spec_total() + capture_nanos
                    &&& final(self).spec_stats().color.spec_total() == old(self).spec_stats().color.spec_total() + color_nanos
                },
                CaptureOutcome::TimedOut { capture_nanos } => {
                    &&& final(self).spec_fresh() == old(self).spec_fresh()
                    &&& final(self).spec_stats().capture_frames == old(self).spec_stats().capture_frames
                    &&& final(self).spec_stats().empty_capture_polls == old(self).spec_stats().empty_capture_polls + 1
                    &&& final(self).spec_stats().capture.spec_total() == old(self).spec_stats().capture.spec_total() + capture_nanos
                    &&& final(self).spec_stats().color == old(self).spec_stats().color
                },
            },
    {
        match outcome {
            CaptureOutcome::Fresh { capture_nanos, color_nanos } => {
                self.stats.capture.record(capture_nanos);
                self.stats.capture_frames = self.stats.capture_frames + 1;
                self.fresh_capture = true;
                self.stats.color.record(color_nanos);
            },
            CaptureOutcome::TimedOut { capture_nanos } => {
                self.stats.capture.record(capture_nanos);
                self.stats.empty_capture_polls = self.stats.empty_capture_polls + 1;
            },
        }
        let old_next = self.next_capture_at;
        self.next_capture_at = next_slot(old_next, self.capture_delay, now);
        proof {
            lemma_slot_after(old_next as int, self.capture_delay as int, now as int);
            lemma_on_grid(old_next as int, self.next_capture_at as int, self.capture_delay as int);
        }
    }

    /// The sequence number the next frame carries.
    pub fn sequence(&self) -> (r: u8)
        ensures
            r == self.spec_sequence(),
    {
        self.sequence
    }

    /// Room is left in the counters, totals and clock for recording a sent frame at `now`.
    pub open spec fn frame_fits(&self, encode_nanos: u128, send_nanos: u128, now: u128) -> bool {
        let st = self.spec_stats();
        &&& st.frames < u64::MAX
        &&& st.encode.spec_total() + encode_nanos <= MAX_DURATION_NANOS
        &&& st.send.spec_total() + send_nanos <= MAX_DURATION_NANOS
        &&& self.spec_next_stream() + self.spec_stream_delay() <= u128::MAX
        &&& now + self.spec_stream_delay() <= u128::MAX
    }

    /// Whether a sent frame can be recorded (see `frame_fits`).
    pub fn room_for_frame(&self, encode_nanos: u128, send_nanos: u128, now: u128) -> (r: bool)
        ensures
            r == self.frame_fits(encode_nanos, send_nanos, now),
    {
        self.stats.frames < u64::MAX && encode_nanos <= MAX_DURATION_NANOS
            && self.stats.encode.total_nanos() <= MAX_DURATION_NANOS - encode_nanos && send_nanos
            <= MAX_DURATION_NANOS && self.stats.send.total_nanos() <= MAX_DURATION_NANOS
            - send_nanos && self.next_stream_at <= u128::MAX - self.stream_delay && now
            <= u128::MAX - self.stream_delay
    }

    /// Records a frame sent at `now`: one more frame, counted as repeated when no capture
    /// arrived since the previous one; the sequence number wraps after 255; the next stream
    /// slot is the first one after `now`.
    pub fn record_frame_sent(&mut self, encode_nanos: u128, send_nanos: u128, now: u128)
        requires
            old(self).wf(),
            old(self).frame_fits(encode_nanos, send_nanos, now),
        ensures
            final(self).wf(),
            final(self).spec_capture_delay() == old(self).spec_capture_delay(),
            final(self).spec_stream_delay() == old(self).spec_stream_delay(),
            final(self).spec_next_capture() == old(self).spec_next_capture(),
            final(self).spec_next_stream() == slot_after(
                old(self).spec_next_stream(),
                old(self).spec_stream_delay(),
                now as int,
            ),
            !final(self).spec_fresh(),
            final(self).spec_sequence() == (old(self).spec_sequence() + 1) % 256,
            final(self).spec_stats().frames == old(self).spec_stats().frames + 1,
            final(self).spec_stats().repeated_frames == old(self).spec_stats().repeated_frames + if old(self).spec_fresh() {
                0int
            } else {
                1int
            },
            final(self).spec_stats().encode.spec_total() == old(self).spec_stats().encode.spec_total() + encode_nanos,
            final(self).spec_stats().send.spec_total() == old(self).spec_stats().send.spec_total() + send_nanos,
            final(self).spec_stats().capture_frames == old(self).spec_stats().capture_frames,
            final(self).spec_stats().empty_capture_polls == old(self).spec_stats().empty_capture_polls,
            final(self).spec_stats().interrupted == old(self).spec_stats().interrupted,
            final(self).spec_stats().capture_backend == old(self).spec_stats().capture_backend,
            final(self).spec_stats().missed_capture_frames == old(self).spec_stats().missed_capture_frames,
            final(self).spec_stats().capture == old(self).spec_stats().capture,
            final(self).spec_stats().color == old(self).spec_stats().color,
    {
        self.stats.encode.record(encode_nanos);
        self.stats.send.record(send_nanos);
        self.sequence = self.sequence.wrapping_add(1);
        self.stats.frames = self.stats.frames + 1;
        if !self.fresh_capture {
            self.stats.repeated_frames = self.stats.repeated_frames + 1;
        }
        self.fresh_capture = false;
        let old_next = self.next_stream_at;
        self.next_stream_at = next_slot(old_next, self.stream_delay, now);
        proof {
            lemma_slot_after(old_next as int, self.stream_delay as int, now as int);
            lemma_on_grid(old_next as int, self.next_stream_at as int, self.stream_delay as int);
            lemma_sequence_step(old(self).sequence, old(self).stats.frames as int);
        }
    }

    /// Records that a signal stopped the run.
    pub fn mark_interrupted(&mut self)
        requires
            old(self).wf(),
        ensures
            final(self).wf(),
            final(self).spec_stats() == (SyncStats { interrupted: true, ..old(self).spec_stats() }),
            final(self).spec_capture_delay() == old(self).spec_capture_delay(),
            final(self).spec_stream_delay() == old(self).spec_stream_delay(),
            final(self).spec_next_capture() == old(self).spec_next_capture(),
            final(self).spec_next_stream() == old(self).spec_next_stream(),
            final(self).spec_fresh() == old(self).spec_fresh(),
            final(self).spec_sequence() == old(self).spec_sequence(),
    {
        self.stats.interrupted = true;
    }

    /// The statistics so far.
    pub fn stats(&self) -> (r: &SyncStats)
        ensures
            *r == self.spec_stats(),
    {
        &self.stats
    }

    /// The statistics of the finished run: the captures the capture rate called for over
    /// `elapsed_ms` that did not happen are counted as missed (none when more happened).
    pub fn finish(self, elapsed_ms: u64, capture_fps: u8) -> (r: SyncStats)
        ensures
            r == (SyncStats {
                missed_capture_frames: if expected_capture_count(elapsed_ms, capture_fps)
                    >= self.spec_stats().capture_frames {
                    (expected_capture_count(elapsed_ms, capture_fps) - self.spec_stats().capture_frames) as u64
                } else {
                    0
                },
                ..self.spec_stats()
            }),
    {
        let expected = expected_frames(elapsed_ms, capture_fps);
        let mut stats = self.stats;
        stats.missed_capture_frames = expected.saturating_sub(stats.capture_frames);
        stats
    }
}

/// Whole captures in `elapsed_ms` milliseconds at `fps` (the product saturating at
/// `u64::MAX`).
pub open spec fn expected_capture_count(elapsed_ms: u64, fps: u8) -> int {
    (if elapsed_ms * fps <= u64::MAX {
        elapsed_ms * fps
    } else {
        u64::MAX as int
    }) / 1000
}

/// A slot one whole number of periods after a slot on the grid is on the grid too.
proof fn lemma_on_grid(start: int, slot: int, delay: int)
    requires
        delay > 0,
        start % delay == 0,
        (slot - start) % delay == 0,
    ensures
        slot % delay == 0,
{
    vstd::arithmetic::div_mod::lemma_add_mod_noop(start, slot - start, delay);
    vstd::arithmetic::div_mod::lemma_small_mod(0nat, delay as nat);
}

/// A frame delay is at least 3921 microseconds (255 frames per second at most).
proof fn lemma_delay_positive(fps: u8)
    requires
        fps > 0,
    ensures
        1_000_000int / (fps as int) >= 3921,
{
    vstd::arithmetic::div_mod::lemma_div_is_ordered_by_denominator(1_000_000, fps as int, 255);
    assert(1_000_000int / 255 == 3921);
}

/// Adding one to a sequence number that is the frame count modulo 256 (wrapping after 255)
/// gives the next frame count modulo 256.
proof fn lemma_sequence_step(seq: u8, frames: int)
    requires
        frames >= 0,
        seq == frames % 256,
    ensures
        (if seq == 255 { 0int } else { seq + 1 }) == (frames + 1) % 256,
        (seq + 1) % 256 == (frames + 1) % 256,
{
    vstd::arithmetic::div_mod::lemma_add_mod_noop(frames, 1, 256);
}

/// The pacing of a fixed-color run (`test-color`): frames are sent while the clock is
/// before the deadline, one every frame delay, with a sequence number that wraps at 256.
/// Instants are nanoseconds since the run started.
pub struct FixedColorRun {
    deadline: u128,
    delay: u128,
    sequence: u8,
    frames_sent: u64,
}

impl FixedColorRun {
    /// The end of the run.
    pub closed spec fn spec_deadline(&self) -> u128 {
        self.deadline
    }

    /// The pause between frames.
    pub closed spec fn spec_delay(&self) -> u128 {
        self.delay
    }

    /// Frames sent so far.
    pub closed spec fn spec_frames(&self) -> u64 {
        self.frames_sent
    }

    /// The sequence number of the next frame.
    pub closed spec fn spec_sequence(&self) -> u8 {
        self.sequence
    }

    /// The sequence number is the count of frames sent, modulo 256.
    pub open spec fn wf(&self) -> bool {
        self.spec_sequence() == self.spec_frames() % 256
    }

    /// A run of `duration_ms` milliseconds at `fps` frames per second, nothing sent yet.
    pub fn start(duration_ms: u64, fps: u8) -> (r: FixedColorRun)
        requires
            fps > 0,
        ensures
            r.wf(),
            r.spec_deadline() == duration_ms as int * 1_000_000,
            r.spec_delay() == (1_000_000int / (fps as int)) * 1000,
            r.spec_frames() == 0,
    {
        let delay = frame_delay_for_fps(fps) as u128 * 1000;
        FixedColorRun { deadline: duration_ms as u128 * 1_000_000, delay, sequence: 0, frames_sent: 0 }
    }

    /// Whether to send another frame at `now`: while `now` is before the deadline.
    pub fn should_send(&self, now: u128) -> (r: bool)
        ensures
            r == (now < self.spec_deadline()),
    {
        now < self.deadline
    }

    /// The sequence number for the next frame.
    pub fn sequence(&self) -> (r: u8)
        ensures
            r == self.spec_sequence(),
    {
        self.sequence
    }

    /// The pause after a frame, in nanoseconds.
    pub fn delay_nanos(&self) -> (r: u128)
        ensures
            r == self.spec_delay(),
    {
        self.delay
    }

    /// Frames sent so far.
    pub fn frames_sent(&self) -> (r: u64)
        ensures
            r == self.spec_frames(),
    {
        self.frames_sent
    }

    /// Notes that a frame was sent: the count goes up by one and the sequence number wraps.
    pub fn record_sent(&mut self)
        requires
            old(self).wf(),
            old(self).spec_frames() < u64::MAX,
        ensures
            final(self).wf(),
            final(self).spec_frames() == old(self).spec_frames() + 1,
            final(self).spec_sequence() == (old(self).spec_sequence() + 1) % 256,
            final(self).spec_deadline() == old(self).spec_deadline(),
            final(self).spec_delay() == old(self).spec_delay(),
    {
        self.sequence = self.sequence.wrapping_add(1);
        self.frames_sent = self.frames_sent + 1;
    }
}

} // verus!

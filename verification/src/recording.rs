//! The recording session: a bounded hand-off channel from the capture
//! threads to the encoder thread, with a wall-clock FPS throttle and
//! back-pressure drop. Submission never blocks; when the queue is full the
//! frame is counted as dropped rather than delaying capture.

use vstd::prelude::*;

verus! {

/// A frame of BGRA pixel data ready for encoding.
pub struct Frame {
    pub bgra_data: Vec<u8>,
    pub width: u32,
    pub height: u32,
}

/// Statistics returned after recording stops.
pub struct RecordingResult {
    pub path: String,
    pub frames: u64,
    pub duration_ms: u64,
}

/// Configuration for a recording session.
pub struct RecordingConfig {
    pub output_path: String,
    pub fps: u32,
}

/// Capacity of the hand-off channel between capture and encoder.
pub const CHANNEL_CAPACITY: usize = 10;

/// What a non-blocking send did.
pub enum SendOutcome {
    Sent,
    Full,
    Disconnected,
}

/// What a bounded-wait receive returned.
pub enum RecvOutcome {
    Received(Frame),
    TimedOut,
    Disconnected,
}

/// Declares crossbeam_channel's sending endpoint so the session can hold it.
#[verifier::external_type_specification]
#[verifier::external_body]
#[verifier::reject_recursive_types(T)]
pub struct ExSender<T>(crossbeam_channel::Sender<T>);

/// Declares crossbeam_channel's receiving endpoint for the encoder thread.
#[verifier::external_type_specification]
#[verifier::external_body]
#[verifier::reject_recursive_types(T)]
pub struct ExReceiver<T>(crossbeam_channel::Receiver<T>);

/// Relies on crossbeam_channel::bounded: creates a channel that holds at
/// most `cap` messages in flight.
#[verifier::external_body]
fn channel_bounded(cap: usize) -> (crossbeam_channel::Sender<Frame>, crossbeam_channel::Receiver<
    Frame,
>) {
    crossbeam_channel::bounded::<Frame>(cap)
}

/// Relies on Sender::try_send: never blocks; the error says whether the
/// channel was full or all receivers are gone. The frame handed back inside
/// the error is discarded, which is the drop the back-pressure policy asks
/// for.
#[verifier::external_body]
fn try_send_raw(tx: &crossbeam_channel::Sender<Frame>, frame: Frame) -> SendOutcome {
    match tx.try_send(frame) {
        Ok(()) => SendOutcome::Sent,
        Err(crossbeam_channel::TrySendError::Full(_)) => SendOutcome::Full,
        Err(crossbeam_channel::TrySendError::Disconnected(_)) => SendOutcome::Disconnected,
    }
}

/// Relies on Receiver::recv_timeout: waits at most `timeout_ms` for a
/// message; a frame comes back only if a sender delivered one.
#[verifier::external_body]
pub fn recv_frame_timeout(rx: &crossbeam_channel::Receiver<Frame>, timeout_ms: u64) -> RecvOutcome {
    match rx.recv_timeout(std::time::Duration::from_millis(timeout_ms)) {
        Ok(frame) => RecvOutcome::Received(frame),
        Err(crossbeam_channel::RecvTimeoutError::Timeout) => RecvOutcome::TimedOut,
        Err(crossbeam_channel::RecvTimeoutError::Disconnected) => RecvOutcome::Disconnected,
    }
}

/// Relies on Receiver::try_recv: returns immediately, with a frame only if
/// one was queued. Used to drain the queue during shutdown.
#[verifier::external_body]
pub fn try_recv_frame(rx: &crossbeam_channel::Receiver<Frame>) -> RecvOutcome {
    match rx.try_recv() {
        Ok(frame) => RecvOutcome::Received(frame),
        Err(crossbeam_channel::TryRecvError::Empty) => RecvOutcome::TimedOut,
        Err(crossbeam_channel::TryRecvError::Disconnected) => RecvOutcome::Disconnected,
    }
}

/// The frame budget of the throttle: how many frames may have been sent once
/// `elapsed_ms` milliseconds have passed at the target rate.
pub open spec fn expected_frames(elapsed_ms: int, fps: int) -> int {
    elapsed_ms * fps / 1000
}

/// One throttle decision: a frame goes through exactly when the count is
/// under budget and the channel accepted it.
pub open spec fn throttle_step(sent: int, elapsed_ms: int, fps: int, accepted: bool) -> int {
    if sent < expected_frames(elapsed_ms, fps) && accepted {
        sent + 1
    } else {
        sent
    }
}

/// The sent-count after a run of throttle decisions at the given submission
/// times.
pub open spec fn throttle_run(sent0: int, times: Seq<int>, fps: int, accepted: Seq<bool>) -> int
    decreases times.len(),
{
    if times.len() == 0 {
        sent0
    } else {
        throttle_run(
            throttle_step(sent0, times[0], fps, accepted[0]),
            times.drop_first(),
            fps,
            accepted.drop_first(),
        )
    }
}

/// A recording session's sending half: the channel into the encoder thread
/// and the throttle counters. The encoder thread itself runs outside and
/// owns the matching receiver.
pub struct RecordingSession {
    pub frame_tx: crossbeam_channel::Sender<Frame>,
    pub frames_sent: u64,
    pub frames_dropped: u64,
    pub fps: u32,
}

impl RecordingSession {
    /// Start a new recording session: a bounded hand-off channel of
    /// [`CHANNEL_CAPACITY`] frames and zeroed counters. The caller hands the
    /// returned receiver to the encoder thread it spawns.
    pub fn start(fps: u32) -> (r: (Self, crossbeam_channel::Receiver<Frame>))
        ensures
            r.0.frames_sent == 0,
            r.0.frames_dropped == 0,
            r.0.fps == fps,
    {
        let (tx, rx) = channel_bounded(CHANNEL_CAPACITY);
        (RecordingSession { frame_tx: tx, frames_sent: 0, frames_dropped: 0, fps }, rx)
    }

    /// Try to send a frame to the encoder; never blocks. `elapsed_ms` is the
    /// wall-clock time since the session started. The frame is sent only
    /// when the count of sent frames is still under the budget
    /// `elapsed_ms * fps / 1000`; a frame refused by a full channel counts
    /// as dropped; a disconnected channel changes nothing.
    pub fn try_send_frame(&mut self, frame: Frame, elapsed_ms: u64) -> (sent: bool)
        requires
            elapsed_ms * old(self).fps <= u64::MAX,
            old(self).frames_sent < u64::MAX,
            old(self).frames_dropped < u64::MAX,
        ensures
            final(self).fps == old(self).fps,
            final(self).frames_sent == throttle_step(
                old(self).frames_sent as int,
                elapsed_ms as int,
                old(self).fps as int,
                sent,
            ),
            sent ==> old(self).frames_sent < expected_frames(
                elapsed_ms as int,
                old(self).fps as int,
            ) && final(self).frames_sent == old(self).frames_sent + 1 && final(self).frames_dropped
                == old(self).frames_dropped,
            !sent ==> final(self).frames_sent == old(self).frames_sent,
            old(self).frames_sent >= expected_frames(elapsed_ms as int, old(self).fps as int)
                ==> !sent && final(self).frames_dropped == old(self).frames_dropped,
            final(self).frames_dropped == old(self).frames_dropped || final(self).frames_dropped
                == old(self).frames_dropped + 1,
    {
        let expected: u64 = elapsed_ms * (self.fps as u64) / 1000;
        if self.frames_sent >= expected {
            // Budget used up: skip without counting.
            return false;
        }
        let out = try_send_raw(&self.frame_tx, frame);
        self.apply_send_outcome(out)
    }

    /// Applies one channel outcome to the counters, as the back-pressure
    /// policy fixes: a delivered frame counts as sent, a frame refused by a
    /// full queue counts as dropped, and a disconnected channel changes
    /// nothing.
    pub fn apply_send_outcome(&mut self, out: SendOutcome) -> (sent: bool)
        requires
            old(self).frames_sent < u64::MAX,
            old(self).frames_dropped < u64::MAX,
        ensures
            final(self).fps == old(self).fps,
            final(self).frame_tx == old(self).frame_tx,
            sent <==> out is Sent,
            out is Sent ==> final(self).frames_sent == old(self).frames_sent + 1 && final(self).frames_dropped == old(self).frames_dropped,
            out is Full ==> final(self).frames_dropped == old(self).frames_dropped + 1 && final(self).frames_sent == old(self).frames_sent,
            out is Disconnected ==> final(self).frames_sent == old(self).frames_sent && final(self).frames_dropped == old(self).frames_dropped,
    {
        match out {
            SendOutcome::Sent => {
                self.frames_sent = self.frames_sent + 1;
                true
            },
            SendOutcome::Full => {
                self.frames_dropped = self.frames_dropped + 1;
                false
            },
            SendOutcome::Disconnected => false,
        }
    }

    /// Stop sending: consume the session, disconnecting the channel (the
    /// encoder thread sees the disconnect and finalizes), and hand back the
    /// final counters as `(frames_sent, frames_dropped)`.
    pub fn stop(self) -> (counters: (u64, u64))
        ensures
            counters.0 == self.frames_sent,
            counters.1 == self.frames_dropped,
    {
        (self.frames_sent, self.frames_dropped)
    }
}

/// FPS throttle, upper half: whatever the channel did, after any run of
/// submissions at non-decreasing times starting from a zero count, the
/// number of sent frames never exceeds the budget of the last submission
/// time -- over an interval of `T` milliseconds at most `T * fps / 1000`
/// frames go through.
pub proof fn lemma_throttle_upper_bound(times: Seq<int>, fps: int, accepted: Seq<bool>)
    requires
        times.len() == accepted.len(),
        times.len() > 0,
        fps >= 0,
        forall|i: int, j: int| 0 <= i <= j < times.len() ==> times[i] <= times[j],
        forall|i: int| 0 <= i < times.len() ==> times[i] >= 0,
    ensures
        throttle_run(0, times, fps, accepted) <= expected_frames(times.last(), fps),
{
    lemma_throttle_upper_general(0, times, fps, accepted);
}

proof fn lemma_throttle_upper_general(sent0: int, times: Seq<int>, fps: int, accepted: Seq<bool>)
    requires
        times.len() == accepted.len(),
        times.len() > 0,
        fps >= 0,
        sent0 <= max_int(0, expected_frames(times[0], fps)),
        forall|i: int, j: int| 0 <= i <= j < times.len() ==> times[i] <= times[j],
        forall|i: int| 0 <= i < times.len() ==> times[i] >= 0,
    ensures
        throttle_run(sent0, times, fps, accepted) <= max_int(0, expected_frames(times.last(), fps)),
    decreases times.len(),
{
    let sent1 = throttle_step(sent0, times[0], fps, accepted[0]);
    lemma_expected_nonneg(times[0], fps);
    assert(throttle_run(sent0, times, fps, accepted) == throttle_run(
        sent1,
        times.drop_first(),
        fps,
        accepted.drop_first(),
    ));
    if times.len() == 1 {
        assert(throttle_run(sent1, times.drop_first(), fps, accepted.drop_first()) == sent1);
        assert(sent1 <= max_int(0, expected_frames(times[0], fps)));
    } else {
        lemma_expected_monotone(times[0], times[1], fps);
        assert(sent1 <= max_int(0, expected_frames(times.drop_first()[0], fps)));
        lemma_throttle_upper_general(sent1, times.drop_first(), fps, accepted.drop_first());
        assert(times.drop_first().last() == times.last());
    }
}

/// FPS throttle, lower half: when the channel never refuses a frame and
/// submissions come often enough that the budget grows by at most one
/// between consecutive attempts, the sent count trails the budget of the
/// last attempt by at most one -- over an interval of `T` milliseconds at
/// least `T * fps / 1000 - 1` frames go through.
pub proof fn lemma_throttle_lower_bound(times: Seq<int>, fps: int, accepted: Seq<bool>)
    requires
        times.len() == accepted.len(),
        times.len() > 0,
        fps >= 0,
        forall|i: int| 0 <= i < accepted.len() ==> accepted[i],
        expected_frames(times[0], fps) <= 1,
        forall|i: int|
            0 < i < times.len() ==> expected_frames(#[trigger] times[i], fps) <= expected_frames(
                times[i - 1],
                fps,
            ) + 1,
    ensures
        throttle_run(0, times, fps, accepted) >= expected_frames(times.last(), fps) - 1,
{
    lemma_throttle_lower_general(0, times, fps, accepted);
}

proof fn lemma_throttle_lower_general(sent0: int, times: Seq<int>, fps: int, accepted: Seq<bool>)
    requires
        times.len() == accepted.len(),
        times.len() > 0,
        fps >= 0,
        forall|i: int| 0 <= i < accepted.len() ==> accepted[i],
        sent0 >= expected_frames(times[0], fps) - 1,
        forall|i: int|
            0 < i < times.len() ==> expected_frames(#[trigger] times[i], fps) <= expected_frames(
                times[i - 1],
                fps,
            ) + 1,
    ensures
        throttle_run(sent0, times, fps, accepted) >= expected_frames(times.last(), fps) - 1,
    decreases times.len(),
{
    let sent1 = throttle_step(sent0, times[0], fps, accepted[0]);
    assert(sent1 >= expected_frames(times[0], fps) - 1 + (if sent0 < expected_frames(times[0], fps)
        && accepted[0] {
        1int
    } else {
        0int
    }));
    assert(throttle_run(sent0, times, fps, accepted) == throttle_run(
        sent1,
        times.drop_first(),
        fps,
        accepted.drop_first(),
    ));
    if times.len() == 1 {
        assert(throttle_run(sent1, times.drop_first(), fps, accepted.drop_first()) == sent1);
    } else {
        assert(expected_frames(times.drop_first()[0], fps) <= expected_frames(times[0], fps) + 1);
        assert(sent1 >= expected_frames(times.drop_first()[0], fps) - 1);
        assert forall|i: int|
            0 < i < times.drop_first().len() implies expected_frames(
            #[trigger] times.drop_first()[i],
            fps,
        ) <= expected_frames(times.drop_first()[i - 1], fps) + 1 by {
            assert(times.drop_first()[i] == times[i + 1]);
            assert(times.drop_first()[i - 1] == times[i]);
        }
        lemma_throttle_lower_general(sent1, times.drop_first(), fps, accepted.drop_first());
        assert(times.drop_first().last() == times.last());
    }
}

/// The larger of two integers.
pub open spec fn max_int(a: int, b: int) -> int {
    if a > b {
        a
    } else {
        b
    }
}

proof fn lemma_expected_nonneg(t: int, fps: int)
    requires
        t >= 0,
        fps >= 0,
    ensures
        expected_frames(t, fps) >= 0,
{
    assert(t * fps >= 0) by (nonlinear_arith)
        requires
            t >= 0 && fps >= 0,
    ;
}

proof fn lemma_expected_monotone(t1: int, t2: int, fps: int)
    requires
        0 <= t1 <= t2,
        fps >= 0,
    ensures
        expected_frames(t1, fps) <= expected_frames(t2, fps),
{
    assert(t1 * fps <= t2 * fps) by (nonlinear_arith)
        requires
            0 <= t1 <= t2 && fps >= 0,
    ;
    vstd::arithmetic::div_mod::lemma_div_is_ordered(t1 * fps, t2 * fps, 1000);
}

/// What the encoder thread does with one round's observation.
#[derive(Debug, PartialEq, Eq, Structural)]
pub enum EncoderAction {
    /// First frame: open the encoder with this frame's dimensions, then
    /// encode it.
    OpenThenEncode,
    /// Encode the received frame with the already open encoder.
    Encode,
    /// Nothing arrived within the bounded wait: check the stop flag and go
    /// round again.
    Continue,
    /// The stop flag was seen: drain whatever is still queued, then
    /// finalize.
    DrainThenFinalize,
    /// All senders are gone: finalize.
    Finalize,
}

/// One encoder-thread decision: a seen stop flag wins and leads to the
/// drain; a received frame opens the encoder lazily the first time and is
/// encoded; a timed-out wait loops; a disconnected channel finalizes.
pub open spec fn spec_encoder_step(
    stop_seen: bool,
    encoder_open: bool,
    ev: RecvOutcome,
) -> EncoderAction {
    if stop_seen {
        EncoderAction::DrainThenFinalize
    } else {
        match ev {
            RecvOutcome::Received(_) => if encoder_open {
                EncoderAction::Encode
            } else {
                EncoderAction::OpenThenEncode
            },
            RecvOutcome::TimedOut => EncoderAction::Continue,
            RecvOutcome::Disconnected => EncoderAction::Finalize,
        }
    }
}

/// Decides the encoder thread's next step from the stop flag, whether the
/// encoder is open yet, and what the bounded wait returned.
pub fn encoder_step(stop_seen: bool, encoder_open: bool, ev: &RecvOutcome) -> (a: EncoderAction)
    ensures
        a == spec_encoder_step(stop_seen, encoder_open, *ev),
{
    if stop_seen {
        EncoderAction::DrainThenFinalize
    } else {
        match ev {
            RecvOutcome::Received(_) => {
                if encoder_open {
                    EncoderAction::Encode
                } else {
                    EncoderAction::OpenThenEncode
                }
            },
            RecvOutcome::TimedOut => EncoderAction::Continue,
            RecvOutcome::Disconnected => EncoderAction::Finalize,
        }
    }
}

} // verus!

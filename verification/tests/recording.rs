use capture_core::encoder::{new_h264_encoder, package_bitstream, FrameKind, Mp4EncoderCore};
use capture_core::recording::{
    encoder_step, recv_frame_timeout, EncoderAction, Frame, RecordingSession, RecvOutcome,
    SendOutcome,
};

fn frame(byte: u8) -> Frame {
    Frame { bgra_data: vec![byte; 16], width: 2, height: 2 }
}

#[test]
fn throttle_rejects_before_budget_and_sends_within_it() {
    let (mut session, rx) = RecordingSession::start(5);
    // At elapsed 0 the budget is 0: nothing goes through, nothing counts.
    assert!(!session.try_send_frame(frame(1), 0));
    assert_eq!(session.frames_sent, 0);
    assert_eq!(session.frames_dropped, 0);
    // At 1000 ms and 5 fps the budget is 5.
    for _ in 0..5 {
        assert!(session.try_send_frame(frame(2), 1000));
    }
    assert_eq!(session.frames_sent, 5);
    assert!(!session.try_send_frame(frame(3), 1000));
    assert_eq!(session.frames_sent, 5);
    // The five frames really crossed the channel.
    for _ in 0..5 {
        match recv_frame_timeout(&rx, 100) {
            RecvOutcome::Received(f) => assert_eq!(f.bgra_data, vec![2u8; 16]),
            _ => panic!("expected a frame"),
        }
    }
    let (sent, dropped) = session.stop();
    assert_eq!((sent, dropped), (5, 0));
    // The sender is gone: the receiver sees the disconnect.
    match recv_frame_timeout(&rx, 100) {
        RecvOutcome::Disconnected => {}
        _ => panic!("expected disconnect"),
    }
}

#[test]
fn throttle_counts_drops_when_the_queue_is_full() {
    let (mut session, rx) = RecordingSession::start(1000);
    // Budget is huge; the channel holds 10 frames and nobody drains it.
    for _ in 0..10 {
        assert!(session.try_send_frame(frame(1), 60_000));
    }
    assert!(!session.try_send_frame(frame(1), 60_000));
    assert_eq!(session.frames_sent, 10);
    assert_eq!(session.frames_dropped, 1);
    drop(rx);
    // Disconnected channel: refused without counting a drop.
    assert!(!session.try_send_frame(frame(1), 60_000));
    assert_eq!(session.frames_dropped, 1);
}

#[test]
fn encoder_core_counts_frames_and_marks_keyframes() {
    let enc = new_h264_encoder().expect("encoder init");
    let mut core = Mp4EncoderCore::new(enc, 64, 64, 5);
    let bgra: Vec<u8> = (0..64u32 * 64)
        .flat_map(|_| [255u8, 0, 0, 255])
        .collect();
    let first = core.encode_frame(&bgra).expect("encode");
    assert_eq!(core.frames_encoded(), 1);
    let f = first.expect("first frame should produce bitstream");
    assert_eq!(f.frame_index, 0);
    assert_eq!(f.timestamp_ms, 0);
    assert!(f.is_keyframe, "first frame must be a keyframe");
    assert!(f.data.len() > 0);
    // A second frame advances the count and the timestamp.
    let second = core.encode_frame(&bgra).expect("encode");
    assert_eq!(core.frames_encoded(), 2);
    if let Some(f2) = second {
        assert_eq!(f2.frame_index, 1);
        assert_eq!(f2.timestamp_ms, 200); // 1 * 1000 / 5
    }
}

#[test]
fn encode_frame_rejects_wrong_buffer_size() {
    let enc = new_h264_encoder().expect("encoder init");
    let mut core = Mp4EncoderCore::new(enc, 64, 64, 30);
    let too_small = vec![0u8; 100];
    let result = core.encode_frame(&too_small);
    assert!(result.is_err());
    let msg = result.err().unwrap().message();
    assert_eq!(msg, "BGRA buffer size mismatch: expected 16384 bytes, got 100");
    assert_eq!(core.frames_encoded(), 0);
}

#[test]
fn encode_thirty_frames_counts_thirty() {
    let enc = new_h264_encoder().expect("encoder init");
    let mut core = Mp4EncoderCore::new(enc, 128, 128, 10);
    for i in 0..30u32 {
        let bgra: Vec<u8> = (0..128u32 * 128)
            .flat_map(|px| {
                let x = (px % 128) as u8;
                let y = (px / 128) as u8;
                [x.wrapping_add(i as u8), y, 128, 255]
            })
            .collect();
        core.encode_frame(&bgra).expect("encode");
    }
    assert_eq!(core.frames_encoded(), 30);
}

#[test]
fn send_outcomes_move_the_counters_the_policy_fixes() {
    let (mut session, _rx) = RecordingSession::start(5);
    assert!(session.apply_send_outcome(SendOutcome::Sent));
    assert_eq!((session.frames_sent, session.frames_dropped), (1, 0));
    assert!(!session.apply_send_outcome(SendOutcome::Full));
    assert_eq!((session.frames_sent, session.frames_dropped), (1, 1));
    assert!(!session.apply_send_outcome(SendOutcome::Disconnected));
    assert_eq!((session.frames_sent, session.frames_dropped), (1, 1));
}

#[test]
fn encoder_thread_decisions_follow_the_session_policy() {
    let f = || RecvOutcome::Received(frame(1));
    assert_eq!(encoder_step(true, true, &f()), EncoderAction::DrainThenFinalize);
    assert_eq!(encoder_step(false, false, &f()), EncoderAction::OpenThenEncode);
    assert_eq!(encoder_step(false, true, &f()), EncoderAction::Encode);
    assert_eq!(encoder_step(false, true, &RecvOutcome::TimedOut), EncoderAction::Continue);
    assert_eq!(encoder_step(false, false, &RecvOutcome::Disconnected), EncoderAction::Finalize);
}

#[test]
fn bitstreams_are_packaged_with_keyframe_marks() {
    assert!(package_bitstream(Vec::new(), FrameKind::Idr, 0, 0).is_none());
    let f = package_bitstream(vec![1, 2, 3], FrameKind::Idr, 4, 800).unwrap();
    assert!(f.is_keyframe);
    assert_eq!(f.data, vec![1, 2, 3]);
    assert_eq!(f.frame_index, 4);
    assert_eq!(f.timestamp_ms, 800);
    assert!(package_bitstream(vec![9], FrameKind::I, 0, 0).unwrap().is_keyframe);
    assert!(!package_bitstream(vec![9], FrameKind::P, 0, 0).unwrap().is_keyframe);
    assert!(!package_bitstream(vec![9], FrameKind::Skip, 0, 0).unwrap().is_keyframe);
}

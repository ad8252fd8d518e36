use capture_core::capture::{
    capture_step, copy_rows, drop_cache_on_stop, dxgi_shm_name_string, needs_new_resources,
    swap_chain_step, AcquireEvent, CaptureAction, SwapChainAction, SwapChainEvent, WaitOutcome,
};
use capture_core::ipc::should_forward_event;
use capture_core::monitor::{has_duplicates, FlattenModes, Mode, ModeItem, Monitor};
use capture_core::service::{
    select_targets, CaptureService, Command, DisplayInfo, RecordingMode, Response,
};
use capture_core::service_codec::{decode_service_command, encode_response_frame};
use capture_core::text::decimal_string;
use capture_core::wire::{strip_bom, take_frames};

#[test]
fn frames_split_at_terminators_and_keep_the_tail() {
    let mut buf = Vec::new();
    buf.extend_from_slice(b"\"Ok\"");
    buf.push(4);
    buf.extend_from_slice(b"{\"a\":1}");
    buf.push(4);
    buf.extend_from_slice(b"{\"part");
    let (frames, rest) = take_frames(buf);
    assert_eq!(frames.len(), 2);
    assert_eq!(frames[0], b"\"Ok\"".to_vec());
    assert_eq!(frames[1], b"{\"a\":1}".to_vec());
    assert_eq!(rest, b"{\"part".to_vec());

    let (frames, rest) = take_frames(b"no terminator".to_vec());
    assert!(frames.is_empty());
    assert_eq!(rest, b"no terminator".to_vec());
}

#[test]
fn bom_strip_only_removes_a_leading_mark() {
    assert_eq!(strip_bom(vec![0xEF, 0xBB, 0xBF, b'x']), vec![b'x']);
    assert_eq!(strip_bom(vec![b'x', 0xEF, 0xBB, 0xBF]), vec![b'x', 0xEF, 0xBB, 0xBF]);
    assert_eq!(strip_bom(vec![0xEF, 0xBB]), vec![0xEF, 0xBB]);
}

#[test]
fn decimal_rendering_matches_expected_text() {
    assert_eq!(decimal_string(0), "0");
    assert_eq!(decimal_string(7), "7");
    assert_eq!(decimal_string(1080), "1080");
    assert_eq!(decimal_string(u64::MAX), "18446744073709551615");
}

#[test]
fn shm_names_follow_the_documented_templates() {
    assert_eq!(dxgi_shm_name_string(2, 7), "Local\\DxgiCapture_2_7");
    assert_eq!(
        capture_core::driver_shm::vdd_shm_name_string(12),
        "Global\\VDD_Frame_12"
    );
}

#[test]
fn capture_loop_decisions_follow_the_retry_policy() {
    assert_eq!(capture_step(true, AcquireEvent::Frame), CaptureAction::Exit);
    assert_eq!(capture_step(false, AcquireEvent::Frame), CaptureAction::Process);
    assert_eq!(capture_step(false, AcquireEvent::Timeout), CaptureAction::Retry);
    assert_eq!(
        capture_step(false, AcquireEvent::AccessLost),
        CaptureAction::RecreateDuplication
    );
    assert_eq!(capture_step(false, AcquireEvent::Fatal), CaptureAction::Exit);

    assert_eq!(
        swap_chain_step(false, SwapChainEvent::Pending(WaitOutcome::Ready)),
        SwapChainAction::Retry
    );
    assert_eq!(
        swap_chain_step(true, SwapChainEvent::Pending(WaitOutcome::Ready)),
        SwapChainAction::Exit
    );
    assert_eq!(swap_chain_step(false, SwapChainEvent::Acquired), SwapChainAction::Process);
    assert_eq!(swap_chain_step(false, SwapChainEvent::Failed), SwapChainAction::Exit);

    assert!(needs_new_resources(None, 64, 64));
    assert!(needs_new_resources(Some((64, 32)), 64, 64));
    assert!(!needs_new_resources(Some((64, 64)), 64, 64));
}

#[test]
fn row_copy_handles_stride_mismatch() {
    // Source rows are 4 bytes wide; destination rows are 3: truncate.
    let src = vec![1u8, 2, 3, 4, 5, 6, 7, 8];
    let out = copy_rows(&src, 4, 3, 2);
    assert_eq!(out, vec![1, 2, 3, 5, 6, 7]);
    // Destination rows wider than the source: tail bytes are zero.
    let out = copy_rows(&src, 4, 5, 2);
    assert_eq!(out, vec![1, 2, 3, 4, 0, 5, 6, 7, 8, 0]);
}

fn display(primary: bool, a: u32, o: u32) -> DisplayInfo {
    DisplayInfo {
        adapter_index: a,
        output_index: o,
        name: format!("D{a}-{o}"),
        width: 1920,
        height: 1080,
        left: 0,
        top: 0,
        is_primary: primary,
        adapter_luid: 9,
    }
}

#[test]
fn target_selection_by_mode() {
    let none: Vec<DisplayInfo> = Vec::new();
    assert!(select_targets(&none, &RecordingMode::All).is_err());
    let ds = vec![display(false, 0, 0), display(true, 0, 1), display(false, 1, 0)];
    assert_eq!(select_targets(&ds, &RecordingMode::All).unwrap(), vec![0, 1, 2]);
    assert_eq!(select_targets(&ds, &RecordingMode::PrimaryOnly).unwrap(), vec![1]);
    let no_primary = vec![display(false, 0, 0)];
    let e = select_targets(&no_primary, &RecordingMode::PrimaryOnly).err().unwrap();
    assert_eq!(e.message(), "No primary display found");
}

#[test]
fn capture_service_registers_and_reports() {
    let mut svc = CaptureService::new();
    svc.register_capture(display(true, 0, 1));
    svc.begin_recording(RecordingMode::PrimaryOnly);
    let st = svc.get_state();
    assert!(st.recording);
    assert_eq!(st.mode, Some(RecordingMode::PrimaryOnly));
    assert_eq!(st.displays.len(), 1);
    assert_eq!(st.displays[0].index, 0);
    assert_eq!(st.displays[0].shm_name, "Local\\DxgiCapture_0_1");
    assert!(st.displays[0].primary);
    svc.stop_recording();
    let st = svc.get_state();
    assert!(!st.recording);
    assert!(st.displays.is_empty());
}

#[test]
fn duplicate_rules_catch_each_kind() {
    let mk = |id: u32, w: u32, rates: Vec<u32>| Monitor {
        id,
        name: None,
        enabled: true,
        modes: vec![Mode { width: w, height: 1080, refresh_rates: rates }],
    };
    assert!(!has_duplicates(&[mk(1, 1920, vec![60]), mk(2, 1920, vec![60])]));
    assert!(has_duplicates(&[mk(1, 1920, vec![60]), mk(1, 1280, vec![60])]));
    assert!(has_duplicates(&[mk(1, 1920, vec![60, 75, 60])]));
    let two_same_size = Monitor {
        id: 1,
        name: None,
        enabled: true,
        modes: vec![
            Mode { width: 1920, height: 1080, refresh_rates: vec![60] },
            Mode { width: 1920, height: 1080, refresh_rates: vec![75] },
        ],
    };
    assert!(has_duplicates(&[two_same_size]));
}

#[test]
fn mode_lists_flatten_in_order() {
    let modes = vec![
        Mode { width: 1920, height: 1080, refresh_rates: vec![60, 75] },
        Mode { width: 1280, height: 720, refresh_rates: vec![120] },
    ];
    let items = modes.flatten();
    assert_eq!(
        items,
        vec![
            ModeItem { width: 1920, height: 1080, refresh_rate: 60 },
            ModeItem { width: 1920, height: 1080, refresh_rate: 75 },
            ModeItem { width: 1280, height: 720, refresh_rate: 120 },
        ]
    );
}

#[test]
fn display_description_mentions_primary() {
    let d = display(true, 0, 0);
    assert_eq!(d.describe(), "Display D0-0 (1920x1080 PRIMARY)");
    let d = display(false, 1, 2);
    assert_eq!(d.describe(), "Display D1-2 (1920x1080)");
}

#[test]
fn capture_cache_drops_when_recording_turns_inactive() {
    assert!(drop_cache_on_stop(true, false));
    assert!(!drop_cache_on_stop(true, true));
    assert!(!drop_cache_on_stop(false, false));
    assert!(!drop_cache_on_stop(false, true));
}

#[test]
fn change_events_skip_their_origin() {
    assert!(!should_forward_event(3, 3));
    assert!(should_forward_event(3, 4));
}

#[test]
fn service_commands_decode_from_their_wire_forms() {
    match decode_service_command(br#"{"StartRecording":{"mode":"PrimaryOnly"}}"#.to_vec()) {
        Some(Command::StartRecording { mode: RecordingMode::PrimaryOnly }) => {}
        _ => panic!("expected StartRecording PrimaryOnly"),
    }
    match decode_service_command(br#"{"StartRecording":{"mode":"All"}}"#.to_vec()) {
        Some(Command::StartRecording { mode: RecordingMode::All }) => {}
        _ => panic!("expected StartRecording All"),
    }
    assert!(matches!(decode_service_command(b"\"StopRecording\"".to_vec()), Some(Command::StopRecording)));
    assert!(matches!(decode_service_command(b"\"QueryState\"".to_vec()), Some(Command::QueryState)));
    assert!(decode_service_command(br#"{"StartRecording":{"mode":"Sideways"}}"#.to_vec()).is_none());
    assert!(decode_service_command(b"\"Reboot\"".to_vec()).is_none());
}

#[test]
fn service_responses_encode_to_framed_json() {
    assert_eq!(encode_response_frame(&Response::Okay), b"\"Ok\"\x04".to_vec());
    let frame = encode_response_frame(&Response::Error("nope".to_string()));
    assert_eq!(frame, b"{\"Error\":\"nope\"}\x04".to_vec());
    let mut svc = CaptureService::new();
    svc.register_capture(display(true, 0, 1));
    svc.begin_recording(RecordingMode::PrimaryOnly);
    let frame = encode_response_frame(&Response::State(svc.get_state()));
    let text = String::from_utf8(frame[..frame.len() - 1].to_vec()).unwrap();
    assert!(text.contains("\"recording\":true"));
    assert!(text.contains("\"mode\":\"PrimaryOnly\""));
    assert!(text.contains("Local\\\\DxgiCapture_0_1"));
}

use capture_core::codec::{
    decode_command_frame, encode_command_frame, encode_reply_frame, reply_to_json,
};
use capture_core::monitor::{Mode, Monitor};
use capture_core::json::{parse_json, print_json, JsonValue};
use capture_core::ipc::{DriverService, ReplyOutcome};
use capture_core::protocol::{DriverCommand, ReplyCommand, RequestCommand, ServerCommand};

#[test]
fn start_recording_with_output_path_deserializes() {
    let json = r#"{"StartRecording":{"monitor_ids":[],"output_path":"C:\\temp\\test.mp4","fps":5}}"#;
    let cmd = decode_command_frame(json.as_bytes().to_vec()).unwrap();
    match cmd {
        ServerCommand::Driver(DriverCommand::StartRecording { monitor_ids, output_path, fps }) => {
            assert!(monitor_ids.is_empty());
            assert_eq!(output_path.as_deref(), Some("C:\\temp\\test.mp4"));
            assert_eq!(fps, Some(5));
        }
        _ => panic!("Expected StartRecording"),
    }
}

#[test]
fn start_recording_without_new_fields_deserializes() {
    // Backward compat: old clients send only monitor_ids
    let json = r#"{"StartRecording":{"monitor_ids":[0,1]}}"#;
    let cmd = decode_command_frame(json.as_bytes().to_vec()).unwrap();
    match cmd {
        ServerCommand::Driver(DriverCommand::StartRecording { monitor_ids, output_path, fps }) => {
            assert_eq!(monitor_ids, vec![0, 1]);
            assert_eq!(output_path, None);
            assert_eq!(fps, None);
        }
        _ => panic!("Expected StartRecording"),
    }
}

#[test]
fn recording_finished_serializes() {
    let reply = ReplyCommand::RecordingFinished {
        path: "C:\\temp\\out.mp4".to_string(),
        frames: 150,
        duration_ms: 30000,
    };
    let json = String::from_utf8(print_json(&reply_to_json(&reply))).unwrap();
    assert!(json.contains("RecordingFinished"));
    assert!(json.contains("out.mp4"));
    assert!(json.contains("150"));
    assert!(json.contains("30000"));
}

#[test]
fn request_commands_deserialize_from_strings() {
    match decode_command_frame(b"\"State\"".to_vec()).unwrap() {
        ServerCommand::Request(RequestCommand::State) => {}
        _ => panic!("Expected State"),
    }
    match decode_command_frame(b"\"RecordingState\"".to_vec()).unwrap() {
        ServerCommand::Request(RequestCommand::RecordingState) => {}
        _ => panic!("Expected RecordingState"),
    }
    match decode_command_frame(b"\"RemoveAll\"".to_vec()).unwrap() {
        ServerCommand::Driver(DriverCommand::RemoveAll) => {}
        _ => panic!("Expected RemoveAll"),
    }
    match decode_command_frame(b"\"StopRecording\"".to_vec()).unwrap() {
        ServerCommand::Driver(DriverCommand::StopRecording) => {}
        _ => panic!("Expected StopRecording"),
    }
}

#[test]
fn notify_command_deserializes_monitors() {
    let json = r#"{"Notify":[{"id":3,"name":"Main","enabled":true,
        "modes":[{"width":1920,"height":1080,"refresh_rates":[60,120]}]}]}"#;
    let cmd = decode_command_frame(json.as_bytes().to_vec()).unwrap();
    match cmd {
        ServerCommand::Driver(DriverCommand::Notify(ms)) => {
            assert_eq!(ms.len(), 1);
            assert_eq!(ms[0].id, 3);
            assert_eq!(ms[0].name.as_deref(), Some("Main"));
            assert!(ms[0].enabled);
            assert_eq!(ms[0].modes.len(), 1);
            assert_eq!(ms[0].modes[0].width, 1920);
            assert_eq!(ms[0].modes[0].height, 1080);
            assert_eq!(ms[0].modes[0].refresh_rates, vec![60, 120]);
        }
        _ => panic!("Expected Notify"),
    }
}

#[test]
fn notify_accepts_missing_or_null_name() {
    let json = r#"{"Notify":[{"id":1,"name":null,"enabled":false,"modes":[]}]}"#;
    match decode_command_frame(json.as_bytes().to_vec()).unwrap() {
        ServerCommand::Driver(DriverCommand::Notify(ms)) => assert_eq!(ms[0].name, None),
        _ => panic!("Expected Notify"),
    }
    let json = r#"{"Notify":[{"id":1,"enabled":false,"modes":[]}]}"#;
    match decode_command_frame(json.as_bytes().to_vec()).unwrap() {
        ServerCommand::Driver(DriverCommand::Notify(ms)) => assert_eq!(ms[0].name, None),
        _ => panic!("Expected Notify"),
    }
}

#[test]
fn malformed_frames_are_rejected() {
    assert!(decode_command_frame(b"{\"StartRecording\":".to_vec()).is_none());
    assert!(decode_command_frame(b"\"NoSuchCommand\"".to_vec()).is_none());
    assert!(decode_command_frame(b"{\"StartRecording\":{}}".to_vec()).is_none());
    // fps too large for u32 is rejected, not truncated
    assert!(decode_command_frame(
        b"{\"StartRecording\":{\"monitor_ids\":[],\"fps\":4294967296}}".to_vec()
    )
    .is_none());
    // invalid UTF-8 inside a string is rejected
    assert!(decode_command_frame(b"{\"StartRecording\":{\"monitor_ids\":[],\"output_path\":\"\xFF\"}}".to_vec()).is_none());
}

#[test]
fn bom_is_stripped_before_parsing() {
    let mut bytes = vec![0xEFu8, 0xBB, 0xBF];
    bytes.extend_from_slice(b"\"State\"");
    match decode_command_frame(bytes).unwrap() {
        ServerCommand::Request(RequestCommand::State) => {}
        _ => panic!("Expected State"),
    }
}

#[test]
fn reply_frames_end_with_a_single_terminator() {
    let frame = encode_reply_frame(&ReplyCommand::Okay);
    assert_eq!(frame, b"\"Ok\"\x04".to_vec());
    let frame = encode_reply_frame(&ReplyCommand::Error("bad".to_string()));
    assert_eq!(frame.iter().filter(|&&b| b == 4).count(), 1);
    assert_eq!(*frame.last().unwrap(), 4u8);
}

#[test]
fn json_parser_handles_whitespace_and_escapes() {
    let v = parse_json(b" { \"a\" : [ 1 , true , null , \"x\\n\\u0001\" ] } ").unwrap();
    match v {
        JsonValue::Obj(fields) => {
            assert_eq!(fields.len(), 1);
            assert_eq!(fields[0].0, b"a".to_vec());
            match &fields[0].1 {
                JsonValue::Arr(items) => {
                    assert_eq!(items.len(), 4);
                    assert!(matches!(items[0], JsonValue::UInt(1)));
                    assert!(matches!(items[1], JsonValue::Bool(true)));
                    assert!(matches!(items[2], JsonValue::Null));
                    match &items[3] {
                        JsonValue::Str(s) => assert_eq!(s, &vec![120u8, 10, 1]),
                        _ => panic!("expected string"),
                    }
                }
                _ => panic!("expected array"),
            }
        }
        _ => panic!("expected object"),
    }
}

#[test]
fn json_print_parse_round_trip() {
    let v = JsonValue::Obj(vec![
        (b"k".to_vec(), JsonValue::Arr(vec![JsonValue::UInt(7), JsonValue::Str(b"a\"b\\c".to_vec())])),
        (b"ctrl".to_vec(), JsonValue::Str(vec![9u8, 10, 13, 1])),
    ]);
    let printed = print_json(&v);
    let reparsed = parse_json(&printed).unwrap();
    let reprinted = print_json(&reparsed);
    assert_eq!(printed, reprinted);
}

#[test]
fn start_recording_frame_yields_exact_reply_bytes() {
    let svc = DriverService::new();
    let frame = br#"{"StartRecording":{"monitor_ids":[],"output_path":"C:\\t\\a.mp4","fps":5}}"#.to_vec();
    let (svc, outcome, effects) = svc.handle_frame(frame);
    assert!(effects.new_receiver.is_some());
    assert!(svc.recording.session.is_some());
    let reply = match outcome {
        ReplyOutcome::Reply(r) => r,
        _ => panic!("expected an immediate reply"),
    };
    let bytes = encode_reply_frame(&reply);
    assert_eq!(
        bytes,
        b"{\"RecordingStarted\":{\"active\":true,\"monitor_ids\":[],\"has_session\":true}}\x04"
            .to_vec()
    );
}

#[test]
fn malformed_frame_yields_error_reply_and_no_change() {
    let svc = DriverService::new();
    let (svc, outcome, effects) = svc.handle_frame(b"{not json".to_vec());
    assert!(matches!(outcome, ReplyOutcome::Reply(ReplyCommand::Error(_))));
    assert!(effects.event.is_none());
    assert!(!svc.recording.active);
    assert!(svc.monitors.is_empty());
}

#[test]
fn commands_survive_their_own_wire_encoding() {
    let commands = vec![
        ServerCommand::Driver(DriverCommand::Notify(vec![Monitor {
            id: 9,
            name: Some("Side\nPanel".to_string()),
            enabled: true,
            modes: vec![Mode { width: 800, height: 600, refresh_rates: vec![60] }],
        }])),
        ServerCommand::Driver(DriverCommand::Remove(vec![1, 2, 3])),
        ServerCommand::Driver(DriverCommand::RemoveAll),
        ServerCommand::Driver(DriverCommand::StartRecording {
            monitor_ids: vec![4],
            output_path: Some("C:\\out dir\\clip.mp4".to_string()),
            fps: Some(30),
        }),
        ServerCommand::Driver(DriverCommand::StopRecording),
        ServerCommand::Request(RequestCommand::State),
        ServerCommand::Request(RequestCommand::RecordingState),
    ];
    for cmd in commands {
        let mut frame = encode_command_frame(&cmd);
        assert_eq!(frame.pop(), Some(4u8)); // drop the terminator
        let decoded = decode_command_frame(frame).expect("must decode");
        // Compare by re-encoding: equal wire forms mean equal commands.
        assert_eq!(encode_command_frame(&cmd), encode_command_frame(&decoded));
    }
}

use capture_core::ipc::{finish_reply, DriverService, MonitorObject, ReplyOutcome};
use capture_core::monitor::{Mode, Monitor};
use capture_core::protocol::{DriverCommand, ReplyCommand, RequestCommand, ServerCommand};
use capture_core::recording::RecordingResult;

fn monitor(id: u32, enabled: bool, rates: Vec<u32>) -> Monitor {
    Monitor {
        id,
        name: None,
        enabled,
        modes: vec![Mode { width: 1920, height: 1080, refresh_rates: rates }],
    }
}

fn table_ids(svc: &DriverService) -> Vec<u32> {
    svc.monitors.iter().map(|e: &MonitorObject| e.data.id).collect()
}

#[test]
fn notify_with_duplicate_id_changes_nothing() {
    let svc = DriverService::new();
    let (svc, _, _) = svc.apply_command(ServerCommand::Driver(DriverCommand::Notify(vec![
        monitor(1, true, vec![60]),
    ])));
    assert_eq!(table_ids(&svc), vec![1]);
    // Duplicate monitor id: rejected, table unchanged.
    let dup = vec![monitor(2, true, vec![60]), monitor(2, true, vec![75])];
    let (svc, reply, fx) = svc.apply_command(ServerCommand::Driver(DriverCommand::Notify(dup)));
    assert!(matches!(reply, ReplyOutcome::Reply(ReplyCommand::Error(_))));
    assert!(fx.event.is_none());
    assert_eq!(table_ids(&svc), vec![1]);
    // Duplicate refresh rate within a mode: also rejected.
    let dup = vec![monitor(3, true, vec![60, 60])];
    let (svc, reply, _) = svc.apply_command(ServerCommand::Driver(DriverCommand::Notify(dup)));
    assert!(matches!(reply, ReplyOutcome::Reply(ReplyCommand::Error(_))));
    assert_eq!(table_ids(&svc), vec![1]);
    // Duplicate (width, height) within a monitor: also rejected.
    let mut m = monitor(4, true, vec![60]);
    m.modes.push(Mode { width: 1920, height: 1080, refresh_rates: vec![75] });
    let (svc, reply, _) = svc.apply_command(ServerCommand::Driver(DriverCommand::Notify(vec![m])));
    assert!(matches!(reply, ReplyOutcome::Reply(ReplyCommand::Error(_))));
    assert_eq!(table_ids(&svc), vec![1]);
}

#[test]
fn notify_reconciles_and_lists_platform_calls() {
    let svc = DriverService::new();
    // Two new enabled monitors arrive.
    let (svc, reply, fx) = svc.apply_command(ServerCommand::Driver(DriverCommand::Notify(vec![
        monitor(1, true, vec![60]),
        monitor(2, true, vec![60]),
    ])));
    assert!(matches!(reply, ReplyOutcome::Reply(ReplyCommand::Okay)));
    assert_eq!(fx.arrived, vec![1, 2]);
    assert!(fx.departed.is_empty());
    assert!(fx.event.is_some());
    // The caller attaches them; model that here.
    let mut svc = svc;
    for e in svc.monitors.iter_mut() {
        e.attached = true;
    }
    // Monitor 2 is dropped; monitor 1 changes modes: departs and re-arrives.
    let (svc, _, fx) = svc.apply_command(ServerCommand::Driver(DriverCommand::Notify(vec![
        monitor(1, true, vec![75]),
    ])));
    assert_eq!(fx.departed, vec![2, 1]);
    assert_eq!(fx.arrived, vec![1]);
    assert_eq!(table_ids(&svc), vec![1]);
    // Unchanged notify: no departures, no arrivals (still disconnected ones
    // re-arrive only if enabled and detached; here entry is detached).
    let (svc, _, fx) = svc.apply_command(ServerCommand::Driver(DriverCommand::Notify(vec![
        monitor(1, true, vec![75]),
    ])));
    assert!(fx.departed.is_empty());
    assert_eq!(fx.arrived, vec![1]); // detached and enabled: must re-arrive
    assert_eq!(table_ids(&svc), vec![1]);
}

#[test]
fn remove_and_remove_all_depart_attached_monitors() {
    let svc = DriverService::new();
    let (mut svc, _, _) = svc.apply_command(ServerCommand::Driver(DriverCommand::Notify(vec![
        monitor(1, true, vec![60]),
        monitor(2, true, vec![60]),
        monitor(3, false, vec![60]),
    ])));
    for e in svc.monitors.iter_mut() {
        e.attached = e.data.enabled;
    }
    let (svc, reply, fx) =
        svc.apply_command(ServerCommand::Driver(DriverCommand::Remove(vec![2, 3])));
    assert!(matches!(reply, ReplyOutcome::Reply(ReplyCommand::Okay)));
    assert_eq!(fx.departed, vec![2]); // 3 was never attached
    assert_eq!(table_ids(&svc), vec![1]);
    let (svc, reply, fx) = svc.apply_command(ServerCommand::Driver(DriverCommand::RemoveAll));
    assert!(matches!(reply, ReplyOutcome::Reply(ReplyCommand::Okay)));
    assert_eq!(fx.departed, vec![1]);
    assert!(table_ids(&svc).is_empty());
}

#[test]
fn start_recording_with_path_creates_session() {
    // A start with an output path creates a session and reports it.
    let svc = DriverService::new();
    let cmd = ServerCommand::Driver(DriverCommand::StartRecording {
        monitor_ids: vec![],
        output_path: Some("C:\\t\\a.mp4".to_string()),
        fps: Some(5),
    });
    let (svc, reply, fx) = svc.apply_command(cmd);
    match reply {
        ReplyOutcome::Reply(ReplyCommand::RecordingStarted { active, monitor_ids, has_session }) => {
            assert!(active);
            assert!(monitor_ids.is_empty());
            assert!(has_session);
        }
        _ => panic!("expected RecordingStarted"),
    }
    assert!(fx.new_receiver.is_some());
    assert!(fx.old_session.is_none());
    assert!(svc.recording.active);
    assert!(svc.recording.session.is_some());
    assert_eq!(svc.recording.session.as_ref().unwrap().fps, 5);
    // Starting again hands the old session out before the reply.
    let cmd = ServerCommand::Driver(DriverCommand::StartRecording {
        monitor_ids: vec![7],
        output_path: None,
        fps: None,
    });
    let (svc, _, fx) = svc.apply_command(cmd);
    assert!(fx.old_session.is_some());
    assert!(svc.recording.session.is_none());
    assert!(svc.recording.active);
}

#[test]
fn start_recording_without_path_has_no_session() {
    // Legacy start: no output path, no fps; recording is shared-memory only.
    let svc = DriverService::new();
    let cmd = ServerCommand::Driver(DriverCommand::StartRecording {
        monitor_ids: vec![0, 1],
        output_path: None,
        fps: None,
    });
    let (svc, reply, fx) = svc.apply_command(cmd);
    match reply {
        ReplyOutcome::Reply(ReplyCommand::RecordingStarted { active, monitor_ids, has_session }) => {
            assert!(active);
            assert_eq!(monitor_ids, vec![0, 1]);
            assert!(!has_session);
        }
        _ => panic!("expected RecordingStarted"),
    }
    assert!(fx.new_receiver.is_none());
    assert!(svc.recording.session.is_none());
}

#[test]
fn recording_state_round_trip() {
    // StartRecording then RecordingState reports active with the requested
    // monitors; StopRecording then RecordingState reports inactive and none.
    let svc = DriverService::new();
    let (svc, _, _) = svc.apply_command(ServerCommand::Driver(DriverCommand::StartRecording {
        monitor_ids: vec![4, 9],
        output_path: None,
        fps: None,
    }));
    let (svc, reply, _) =
        svc.apply_command(ServerCommand::Request(RequestCommand::RecordingState));
    match reply {
        ReplyOutcome::Reply(ReplyCommand::RecordingState { active, monitor_ids, shm_names }) => {
            assert!(active);
            assert_eq!(monitor_ids, vec![4, 9]);
            assert!(shm_names.is_empty()); // no monitors in the table
        }
        _ => panic!("expected RecordingState"),
    }
    let (svc, reply, fx) = svc.apply_command(ServerCommand::Driver(DriverCommand::StopRecording));
    assert!(matches!(reply, ReplyOutcome::ReplyAfterStop));
    assert!(fx.old_session.is_none());
    let (_, reply, _) = svc.apply_command(ServerCommand::Request(RequestCommand::RecordingState));
    match reply {
        ReplyOutcome::Reply(ReplyCommand::RecordingState { active, monitor_ids, .. }) => {
            assert!(!active);
            assert!(monitor_ids.is_empty());
        }
        _ => panic!("expected RecordingState"),
    }
}

#[test]
fn recording_state_reports_shm_names_of_recorded_monitors() {
    let svc = DriverService::new();
    let (mut svc, _, _) = svc.apply_command(ServerCommand::Driver(DriverCommand::Notify(vec![
        monitor(3, true, vec![60]),
        monitor(8, true, vec![60]),
    ])));
    svc.recording.active = true;
    svc.recording.monitor_ids = vec![3];
    let (_, reply, _) = svc.apply_command(ServerCommand::Request(RequestCommand::RecordingState));
    match reply {
        ReplyOutcome::Reply(ReplyCommand::RecordingState { shm_names, .. }) => {
            assert_eq!(shm_names, vec!["Global\\VDD_Frame_3".to_string()]);
        }
        _ => panic!("expected RecordingState"),
    }
}

#[test]
fn stop_reply_reports_stats_or_zeros() {
    let reply = finish_reply(Some(RecordingResult {
        path: "out.mp4".to_string(),
        frames: 30,
        duration_ms: 6000,
    }));
    match reply {
        ReplyCommand::RecordingFinished { path, frames, duration_ms } => {
            assert_eq!(path, "out.mp4");
            assert_eq!(frames, 30);
            assert_eq!(duration_ms, 6000);
        }
        _ => panic!("expected RecordingFinished"),
    }
    match finish_reply(None) {
        ReplyCommand::RecordingFinished { path, frames, duration_ms } => {
            assert_eq!(path, "");
            assert_eq!(frames, 0);
            assert_eq!(duration_ms, 0);
        }
        _ => panic!("expected RecordingFinished"),
    }
}

#[test]
fn state_query_reports_monitor_table() {
    let svc = DriverService::new();
    let (svc, _, _) = svc.apply_command(ServerCommand::Driver(DriverCommand::Notify(vec![
        monitor(5, true, vec![60, 75]),
    ])));
    let (_, reply, _) = svc.apply_command(ServerCommand::Request(RequestCommand::State));
    match reply {
        ReplyOutcome::Reply(ReplyCommand::State(ms)) => {
            assert_eq!(ms.len(), 1);
            assert_eq!(ms[0].id, 5);
            assert_eq!(ms[0].modes[0].refresh_rates, vec![60, 75]);
        }
        _ => panic!("expected State"),
    }
}

#[test]
fn start_recording_dedupes_requested_monitors() {
    let svc = DriverService::new();
    let cmd = ServerCommand::Driver(DriverCommand::StartRecording {
        monitor_ids: vec![4, 9, 4, 9, 4],
        output_path: None,
        fps: None,
    });
    let (svc, reply, _) = svc.apply_command(cmd);
    assert_eq!(svc.recording.monitor_ids, vec![4, 9]);
    match reply {
        ReplyOutcome::Reply(ReplyCommand::RecordingStarted { monitor_ids, .. }) => {
            assert_eq!(monitor_ids, vec![4, 9]);
        }
        _ => panic!("expected RecordingStarted"),
    }
    assert!(svc.recording.is_recording(9));
    assert!(!svc.recording.is_recording(5));
}

#[test]
fn start_recording_hands_out_the_session_config() {
    let svc = DriverService::new();
    let cmd = ServerCommand::Driver(DriverCommand::StartRecording {
        monitor_ids: vec![],
        output_path: Some("out.mp4".to_string()),
        fps: None,
    });
    let (_, _, fx) = svc.apply_command(cmd);
    let cfg = fx.session_config.expect("a created session carries its config");
    assert_eq!(cfg.output_path, "out.mp4");
    assert_eq!(cfg.fps, 5); // the default rate when the command names none
    assert!(fx.new_receiver.is_some());
}

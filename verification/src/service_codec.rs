//! The JSON wire form of the user-mode capture service's protocol: its
//! commands as clients send them and its replies as the service answers,
//! over the same framed-JSON transport as the driver's control plane.

use crate::codec::{str_bytes, string_bytes, str_slice_bytes};
use crate::json::{JsonValue, SpecJson};
use crate::service::{
    Command, DisplayState, DisplayStateView, RecordingMode, Response, ResponseView, ServiceState,
    ServiceCommandView, ServiceStateView,
};
use vstd::prelude::*;

verus! {

/// The wire name of a recording mode.
pub open spec fn mode_name(m: RecordingMode) -> Seq<u8> {
    match m {
        RecordingMode::All => str_bytes("All"@),
        RecordingMode::PrimaryOnly => str_bytes("PrimaryOnly"@),
    }
}

/// The wire form of a service command: the start command is an object with
/// its mode, the others are bare strings.
pub open spec fn service_command_json(c: ServiceCommandView) -> SpecJson {
    match c {
        ServiceCommandView::StartRecording { mode } => SpecJson::Obj(
            seq![
                (
                    str_bytes("StartRecording"@),
                    SpecJson::Obj(seq![(str_bytes("mode"@), SpecJson::Str(mode_name(mode)))]),
                ),
            ],
        ),
        ServiceCommandView::StopRecording => SpecJson::Str(str_bytes("StopRecording"@)),
        ServiceCommandView::QueryState => SpecJson::Str(str_bytes("QueryState"@)),
    }
}

/// The wire form of one reported capture.
pub open spec fn display_state_json(d: DisplayStateView) -> SpecJson {
    SpecJson::Obj(
        seq![
            (str_bytes("index"@), SpecJson::UInt(d.index as u64)),
            (str_bytes("name"@), SpecJson::Str(str_bytes(d.name))),
            (str_bytes("width"@), SpecJson::UInt(d.width as u64)),
            (str_bytes("height"@), SpecJson::UInt(d.height as u64)),
            (str_bytes("primary"@), SpecJson::Bool(d.primary)),
            (str_bytes("shm_name"@), SpecJson::Str(str_bytes(d.shm_name))),
        ],
    )
}

/// The wire forms of the reported captures.
pub open spec fn display_states_json(ds: Seq<DisplayStateView>) -> Seq<SpecJson> {
    Seq::new(ds.len(), |i: int| display_state_json(ds[i]))
}

/// The wire form of the reported service state.
pub open spec fn service_state_json(s: ServiceStateView) -> SpecJson {
    SpecJson::Obj(
        seq![
            (str_bytes("recording"@), SpecJson::Bool(s.recording)),
            (
                str_bytes("mode"@),
                match s.mode {
                    Some(m) => SpecJson::Str(mode_name(m)),
                    None => SpecJson::Null,
                },
            ),
            (str_bytes("displays"@), SpecJson::Arr(display_states_json(s.displays))),
        ],
    )
}

/// The wire form of a service reply.
pub open spec fn response_json(r: ResponseView) -> SpecJson {
    match r {
        ResponseView::Okay => SpecJson::Str(str_bytes("Ok"@)),
        ResponseView::State(st) => SpecJson::Obj(
            seq![(str_bytes("State"@), service_state_json(st))],
        ),
        ResponseView::Error(e) => SpecJson::Obj(
            seq![(str_bytes("Error"@), SpecJson::Str(str_bytes(e)))],
        ),
    }
}

/// A service command read from its wire form.
pub open spec fn service_command_from_json(j: SpecJson) -> Option<ServiceCommandView> {
    match j {
        SpecJson::Str(s) => if s == str_bytes("StopRecording"@) {
            Some(ServiceCommandView::StopRecording)
        } else if s == str_bytes("QueryState"@) {
            Some(ServiceCommandView::QueryState)
        } else {
            None
        },
        SpecJson::Obj(fields) => if fields.len() == 1 && fields[0].0 == str_bytes(
            "StartRecording"@,
        ) {
            match fields[0].1 {
                SpecJson::Obj(sf) => {
                    match crate::codec::obj_get(sf, str_bytes("mode"@), 0) {
                        Some(SpecJson::Str(m)) => if m == str_bytes("All"@) {
                            Some(
                                ServiceCommandView::StartRecording { mode: RecordingMode::All },
                            )
                        } else if m == str_bytes("PrimaryOnly"@) {
                            Some(
                                ServiceCommandView::StartRecording {
                                    mode: RecordingMode::PrimaryOnly,
                                },
                            )
                        } else {
                            None
                        },
                        _ => None,
                    }
                },
                _ => None,
            }
        } else {
            None
        },
        _ => None,
    }
}

/// What one received service frame means: after stripping a byte-order
/// mark, the bytes must parse as one JSON document that maps to a command.
pub open spec fn spec_decode_service_frame(frame: Seq<u8>) -> Option<ServiceCommandView> {
    match crate::json::spec_parse_document(crate::wire::spec_strip_bom(frame)) {
        Some(j) => service_command_from_json(j),
        None => None,
    }
}

fn mode_to_json(m: &RecordingMode) -> (j: JsonValue)
    ensures
        j@ == SpecJson::Str(mode_name(*m)),
{
    match m {
        RecordingMode::All => JsonValue::Str(str_slice_bytes("All")),
        RecordingMode::PrimaryOnly => JsonValue::Str(str_slice_bytes("PrimaryOnly")),
    }
}

fn display_state_to_json(d: &DisplayState) -> (j: JsonValue)
    ensures
        j@ == display_state_json(d@),
{
    let mut fields: Vec<(Vec<u8>, JsonValue)> = Vec::new();
    fields.push((str_slice_bytes("index"), JsonValue::UInt(d.index as u64)));
    fields.push((str_slice_bytes("name"), JsonValue::Str(string_bytes(&d.name))));
    fields.push((str_slice_bytes("width"), JsonValue::UInt(d.width as u64)));
    fields.push((str_slice_bytes("height"), JsonValue::UInt(d.height as u64)));
    fields.push((str_slice_bytes("primary"), JsonValue::Bool(d.primary)));
    fields.push((str_slice_bytes("shm_name"), JsonValue::Str(string_bytes(&d.shm_name))));
    let j = crate::codec::obj(fields);
    proof {
        assert(j@->Obj_0 =~= display_state_json(d@)->Obj_0);
    }
    j
}

fn service_state_to_json(s: &ServiceState) -> (j: JsonValue)
    ensures
        j@ == service_state_json(s@),
{
    let mut displays: Vec<JsonValue> = Vec::new();
    let n = s.displays.len();
    for i in 0..n
        invariant
            n == s.displays@.len(),
            displays@.len() == i,
            forall|k: int|
                0 <= k < i ==> crate::json::jv_view(#[trigger] displays@[k]) == display_state_json(
                    s.displays@[k]@,
                ),
    {
        displays.push(display_state_to_json(&s.displays[i]));
    }
    proof {
        assert(crate::json::jv_views(displays@) =~= display_states_json(s@.displays));
    }
    let mode_json = match &s.mode {
        Some(m) => mode_to_json(m),
        None => JsonValue::Null,
    };
    let mut fields: Vec<(Vec<u8>, JsonValue)> = Vec::new();
    fields.push((str_slice_bytes("recording"), JsonValue::Bool(s.recording)));
    fields.push((str_slice_bytes("mode"), mode_json));
    fields.push((str_slice_bytes("displays"), crate::codec::arr(displays)));
    let j = crate::codec::obj(fields);
    proof {
        assert(j@->Obj_0 =~= service_state_json(s@)->Obj_0);
    }
    j
}

/// The framed wire bytes of a service reply: its canonical JSON printing
/// followed by the terminator.
pub fn encode_response_frame(r: &Response) -> (out: Vec<u8>)
    ensures
        out@ == crate::json::spec_print(response_json(r@)) + seq![crate::wire::EOT],
{
    let j = match r {
        Response::Okay => JsonValue::Str(str_slice_bytes("Ok")),
        Response::State(st) => {
            let mut fields: Vec<(Vec<u8>, JsonValue)> = Vec::new();
            fields.push((str_slice_bytes("State"), service_state_to_json(st)));
            let j = crate::codec::obj(fields);
            proof {
                assert(j@->Obj_0 =~= response_json(r@)->Obj_0);
            }
            j
        },
        Response::Error(e) => {
            let mut fields: Vec<(Vec<u8>, JsonValue)> = Vec::new();
            fields.push((str_slice_bytes("Error"), JsonValue::Str(string_bytes(e))));
            let j = crate::codec::obj(fields);
            proof {
                assert(j@->Obj_0 =~= response_json(r@)->Obj_0);
            }
            j
        },
    };
    let mut out: Vec<u8> = Vec::new();
    crate::wire::push_frame(&mut out, &j);
    proof {
        assert(Seq::<u8>::empty() + crate::json::spec_print(response_json(r@)) + seq![
            crate::wire::EOT,
        ] =~= crate::json::spec_print(response_json(r@)) + seq![crate::wire::EOT]);
    }
    out
}

/// Reads one framed message as a service command: strips a leading
/// byte-order mark, parses the JSON document, and maps it to the command
/// set. Malformed or unrecognised frames give nothing.
pub fn decode_service_command(frame: Vec<u8>) -> (r: Option<Command>)
    ensures
        match r {
            Some(c) => spec_decode_service_frame(frame@) == Some(c@),
            None => spec_decode_service_frame(frame@) is None,
        },
{
    let stripped = crate::wire::strip_bom(frame);
    let j = match crate::json::parse_json(stripped.as_slice()) {
        Some(j) => j,
        None => {
            return None;
        },
    };
    match &j {
        JsonValue::Str(s) => {
            if crate::codec::bytes_eq(s, "StopRecording".as_bytes()) {
                Some(Command::StopRecording)
            } else if crate::codec::bytes_eq(s, "QueryState".as_bytes()) {
                Some(Command::QueryState)
            } else {
                None
            }
        },
        JsonValue::Obj(fields) => {
            proof {
                crate::json::lemma_view_obj(*fields);
            }
            if fields.len() != 1 {
                return None;
            }
            if !crate::codec::bytes_eq(&fields[0].0, "StartRecording".as_bytes()) {
                return None;
            }
            match &fields[0].1 {
                JsonValue::Obj(sf) => {
                    proof {
                        crate::json::lemma_view_obj(*sf);
                    }
                    match crate::codec::obj_get_at(sf, "mode", 0) {
                        Some(JsonValue::Str(m)) => {
                            if crate::codec::bytes_eq(m, "All".as_bytes()) {
                                Some(Command::StartRecording { mode: RecordingMode::All })
                            } else if crate::codec::bytes_eq(m, "PrimaryOnly".as_bytes()) {
                                Some(Command::StartRecording { mode: RecordingMode::PrimaryOnly })
                            } else {
                                None
                            }
                        },
                        _ => None,
                    }
                },
                _ => None,
            }
        },
        _ => None,
    }
}

} // verus!

//! The JSON wire form of the control-plane types: how commands, replies and
//! events appear as JSON values, and the conversions in both directions.
//!
//! Discrimination is structural: a top-level string names a command without
//! data; a top-level object with a single key carries the command's data
//! under that key. `StartRecording` accepts missing `output_path` and `fps`
//! fields; a monitor's `name` may be missing or null.

use crate::json::{JsonValue, SpecJson};
use crate::monitor::{Mode, ModeView, Monitor, MonitorView};
use crate::protocol::{
    CommandView, DriverCommand, EventCommand, EventView, ReplyCommand, ReplyView, RequestCommand,
    ServerCommand,
};
use vstd::prelude::*;
use vstd::string::StrSliceExecFns;
use vstd::utf8::{decode_utf8, encode_utf8, valid_utf8};

verus! {

/// The UTF-8 bytes of a character sequence.
pub open spec fn str_bytes(s: Seq<char>) -> Seq<u8> {
    encode_utf8(s)
}

/// The wire form of a refresh-rate or id list: an array of numbers.
pub open spec fn uints_json(xs: Seq<u32>) -> Seq<SpecJson> {
    Seq::new(xs.len(), |i: int| SpecJson::UInt(xs[i] as u64))
}

/// The wire form of a string list.
pub open spec fn strings_json(xs: Seq<Seq<char>>) -> Seq<SpecJson> {
    Seq::new(xs.len(), |i: int| SpecJson::Str(str_bytes(xs[i])))
}

/// The wire form of a display mode.
pub open spec fn mode_json(m: ModeView) -> SpecJson {
    SpecJson::Obj(
        seq![
            (str_bytes("width"@), SpecJson::UInt(m.width as u64)),
            (str_bytes("height"@), SpecJson::UInt(m.height as u64)),
            (str_bytes("refresh_rates"@), SpecJson::Arr(uints_json(m.refresh_rates))),
        ],
    )
}

/// The wire forms of a mode list.
pub open spec fn modes_json(ms: Seq<ModeView>) -> Seq<SpecJson> {
    Seq::new(ms.len(), |i: int| mode_json(ms[i]))
}

/// The wire form of a monitor.
pub open spec fn monitor_json(m: MonitorView) -> SpecJson {
    SpecJson::Obj(
        seq![
            (str_bytes("id"@), SpecJson::UInt(m.id as u64)),
            (
                str_bytes("name"@),
                match m.name {
                    Some(n) => SpecJson::Str(str_bytes(n)),
                    None => SpecJson::Null,
                },
            ),
            (str_bytes("enabled"@), SpecJson::Bool(m.enabled)),
            (str_bytes("modes"@), SpecJson::Arr(modes_json(m.modes))),
        ],
    )
}

/// The wire forms of a monitor list.
pub open spec fn monitors_json(ms: Seq<MonitorView>) -> Seq<SpecJson> {
    Seq::new(ms.len(), |i: int| monitor_json(ms[i]))
}

/// The wire form of a server command.
pub open spec fn command_json(c: CommandView) -> SpecJson {
    match c {
        CommandView::Notify(ms) => SpecJson::Obj(
            seq![(str_bytes("Notify"@), SpecJson::Arr(monitors_json(ms)))],
        ),
        CommandView::Remove(ids) => SpecJson::Obj(
            seq![(str_bytes("Remove"@), SpecJson::Arr(uints_json(ids)))],
        ),
        CommandView::RemoveAll => SpecJson::Str(str_bytes("RemoveAll"@)),
        CommandView::StartRecording { monitor_ids, output_path, fps } => SpecJson::Obj(
            seq![
                (
                    str_bytes("StartRecording"@),
                    SpecJson::Obj(
                        seq![
                            (str_bytes("monitor_ids"@), SpecJson::Arr(uints_json(monitor_ids))),
                            (
                                str_bytes("output_path"@),
                                match output_path {
                                    Some(p) => SpecJson::Str(str_bytes(p)),
                                    None => SpecJson::Null,
                                },
                            ),
                            (
                                str_bytes("fps"@),
                                match fps {
                                    Some(f) => SpecJson::UInt(f as u64),
                                    None => SpecJson::Null,
                                },
                            ),
                        ],
                    ),
                ),
            ],
        ),
        CommandView::StopRecording => SpecJson::Str(str_bytes("StopRecording"@)),
        CommandView::State => SpecJson::Str(str_bytes("State"@)),
        CommandView::RecordingState => SpecJson::Str(str_bytes("RecordingState"@)),
    }
}

/// The wire form of a reply.
pub open spec fn reply_json(r: ReplyView) -> SpecJson {
    match r {
        ReplyView::Okay => SpecJson::Str(str_bytes("Ok"@)),
        ReplyView::State(ms) => SpecJson::Obj(
            seq![(str_bytes("State"@), SpecJson::Arr(monitors_json(ms)))],
        ),
        ReplyView::RecordingState { active, monitor_ids, shm_names } => SpecJson::Obj(
            seq![
                (
                    str_bytes("RecordingState"@),
                    SpecJson::Obj(
                        seq![
                            (str_bytes("active"@), SpecJson::Bool(active)),
                            (str_bytes("monitor_ids"@), SpecJson::Arr(uints_json(monitor_ids))),
                            (str_bytes("shm_names"@), SpecJson::Arr(strings_json(shm_names))),
                        ],
                    ),
                ),
            ],
        ),
        ReplyView::RecordingStarted { active, monitor_ids, has_session } => SpecJson::Obj(
            seq![
                (
                    str_bytes("RecordingStarted"@),
                    SpecJson::Obj(
                        seq![
                            (str_bytes("active"@), SpecJson::Bool(active)),
                            (str_bytes("monitor_ids"@), SpecJson::Arr(uints_json(monitor_ids))),
                            (str_bytes("has_session"@), SpecJson::Bool(has_session)),
                        ],
                    ),
                ),
            ],
        ),
        ReplyView::RecordingFinished { path, frames, duration_ms } => SpecJson::Obj(
            seq![
                (
                    str_bytes("RecordingFinished"@),
                    SpecJson::Obj(
                        seq![
                            (str_bytes("path"@), SpecJson::Str(str_bytes(path))),
                            (str_bytes("frames"@), SpecJson::UInt(frames)),
                            (str_bytes("duration_ms"@), SpecJson::UInt(duration_ms)),
                        ],
                    ),
                ),
            ],
        ),
        ReplyView::Error(e) => SpecJson::Obj(
            seq![(str_bytes("Error"@), SpecJson::Str(str_bytes(e)))],
        ),
    }
}

/// The wire form of an event.
pub open spec fn event_json(e: EventView) -> SpecJson {
    match e {
        EventView::Changed(ms) => SpecJson::Obj(
            seq![(str_bytes("Changed"@), SpecJson::Arr(monitors_json(ms)))],
        ),
    }
}

/// Wraps elements as a JSON array value.
pub(crate) fn arr(items: Vec<JsonValue>) -> (r: JsonValue)
    ensures
        r@ == SpecJson::Arr(crate::json::jv_views(items@)),
{
    proof {
        crate::json::lemma_view_arr(items);
    }
    JsonValue::Arr(items)
}

/// Wraps fields as a JSON object value.
pub(crate) fn obj(fields: Vec<(Vec<u8>, JsonValue)>) -> (r: JsonValue)
    ensures
        r@ == SpecJson::Obj(crate::json::jv_field_views(fields@)),
{
    proof {
        crate::json::lemma_view_obj(fields);
    }
    JsonValue::Obj(fields)
}

/// The UTF-8 bytes of a string.
pub fn string_bytes(s: &String) -> (b: Vec<u8>)
    ensures
        b@ == str_bytes(s@),
{
    s.as_str().as_bytes_vec()
}

/// The UTF-8 bytes of a string slice.
pub fn str_slice_bytes(s: &str) -> (b: Vec<u8>)
    ensures
        b@ == str_bytes(s@),
{
    s.as_bytes_vec()
}

fn uints_to_json(xs: &Vec<u32>) -> (r: Vec<JsonValue>)
    ensures
        crate::json::jv_views(r@) == uints_json(xs@),
{
    let mut out: Vec<JsonValue> = Vec::new();
    let n = xs.len();
    for i in 0..n
        invariant
            n == xs@.len(),
            out@.len() == i,
            forall|k: int| 0 <= k < i ==> crate::json::jv_view(#[trigger] out@[k])
                == SpecJson::UInt(xs@[k] as u64),
    {
        out.push(JsonValue::UInt(xs[i] as u64));
    }
    proof {
        assert(crate::json::jv_views(out@) =~= uints_json(xs@));
    }
    out
}

fn mode_to_json(m: &Mode) -> (r: JsonValue)
    ensures
        r@ == mode_json(m@),
{
    let mut fields: Vec<(Vec<u8>, JsonValue)> = Vec::new();
    fields.push((str_slice_bytes("width"), JsonValue::UInt(m.width as u64)));
    fields.push((str_slice_bytes("height"), JsonValue::UInt(m.height as u64)));
    fields.push((str_slice_bytes("refresh_rates"), arr(uints_to_json(&m.refresh_rates))));
    let r = obj(fields);
    proof {
        assert(r@->Obj_0 =~= mode_json(m@)->Obj_0);
    }
    r
}

fn monitor_to_json(m: &Monitor) -> (r: JsonValue)
    ensures
        r@ == monitor_json(m@),
{
    let mut modes: Vec<JsonValue> = Vec::new();
    let n = m.modes.len();
    for i in 0..n
        invariant
            n == m.modes@.len(),
            modes@.len() == i,
            forall|k: int| 0 <= k < i ==> crate::json::jv_view(#[trigger] modes@[k]) == mode_json(
                m.modes@[k]@,
            ),
    {
        modes.push(mode_to_json(&m.modes[i]));
    }
    let name_json = match &m.name {
        Some(n) => JsonValue::Str(string_bytes(n)),
        None => JsonValue::Null,
    };
    proof {
        assert(crate::json::jv_views(modes@) =~= modes_json(m@.modes));
    }
    let mut fields: Vec<(Vec<u8>, JsonValue)> = Vec::new();
    fields.push((str_slice_bytes("id"), JsonValue::UInt(m.id as u64)));
    fields.push((str_slice_bytes("name"), name_json));
    fields.push((str_slice_bytes("enabled"), JsonValue::Bool(m.enabled)));
    fields.push((str_slice_bytes("modes"), arr(modes)));
    let r = obj(fields);
    proof {
        assert(r@->Obj_0 =~= monitor_json(m@)->Obj_0);
    }
    r
}

/// The wire forms of a monitor list, as one JSON array's elements.
pub fn monitors_to_json(ms: &Vec<Monitor>) -> (r: Vec<JsonValue>)
    ensures
        crate::json::jv_views(r@) == monitors_json(crate::monitor::monitor_views(ms@)),
{
    let mut out: Vec<JsonValue> = Vec::new();
    let n = ms.len();
    for i in 0..n
        invariant
            n == ms@.len(),
            out@.len() == i,
            forall|k: int| 0 <= k < i ==> crate::json::jv_view(#[trigger] out@[k]) == monitor_json(
                ms@[k]@,
            ),
    {
        out.push(monitor_to_json(&ms[i]));
    }
    proof {
        assert(crate::json::jv_views(out@) =~= monitors_json(crate::monitor::monitor_views(ms@)));
    }
    out
}

fn strings_to_json(xs: &Vec<String>) -> (r: Vec<JsonValue>)
    ensures
        crate::json::jv_views(r@) == strings_json(Seq::new(xs@.len(), |i: int| xs@[i]@)),
{
    let mut out: Vec<JsonValue> = Vec::new();
    let n = xs.len();
    for i in 0..n
        invariant
            n == xs@.len(),
            out@.len() == i,
            forall|k: int| 0 <= k < i ==> crate::json::jv_view(#[trigger] out@[k]) == SpecJson::Str(
                str_bytes(xs@[k]@),
            ),
    {
        out.push(JsonValue::Str(string_bytes(&xs[i])));
    }
    proof {
        assert(crate::json::jv_views(out@) =~= strings_json(Seq::new(xs@.len(), |i: int| xs@[i]@)));
    }
    out
}

/// The JSON value a reply is sent as.
pub fn reply_to_json(r: &ReplyCommand) -> (j: JsonValue)
    ensures
        j@ == reply_json(r@),
{
    match r {
        ReplyCommand::Okay => JsonValue::Str(str_slice_bytes("Ok")),
        ReplyCommand::State(ms) => {
            let mut fields: Vec<(Vec<u8>, JsonValue)> = Vec::new();
            fields.push((str_slice_bytes("State"), arr(monitors_to_json(ms))));
            let j = obj(fields);
            proof {
                assert(j@->Obj_0 =~= reply_json(r@)->Obj_0);
            }
            j
        },
        ReplyCommand::RecordingState { active, monitor_ids, shm_names } => {
            let mut inner: Vec<(Vec<u8>, JsonValue)> = Vec::new();
            inner.push((str_slice_bytes("active"), JsonValue::Bool(*active)));
            inner.push((str_slice_bytes("monitor_ids"), arr(uints_to_json(monitor_ids))));
            inner.push((str_slice_bytes("shm_names"), arr(strings_to_json(shm_names))));
            let io = obj(inner);
            proof {
                assert(io@->Obj_0 =~= reply_json(r@)->Obj_0[0].1->Obj_0);
            }
            let mut fields: Vec<(Vec<u8>, JsonValue)> = Vec::new();
            fields.push((str_slice_bytes("RecordingState"), io));
            let j = obj(fields);
            proof {
                assert(j@->Obj_0 =~= reply_json(r@)->Obj_0);
            }
            j
        },
        ReplyCommand::RecordingStarted { active, monitor_ids, has_session } => {
            let mut inner: Vec<(Vec<u8>, JsonValue)> = Vec::new();
            inner.push((str_slice_bytes("active"), JsonValue::Bool(*active)));
            inner.push((str_slice_bytes("monitor_ids"), arr(uints_to_json(monitor_ids))));
            inner.push((str_slice_bytes("has_session"), JsonValue::Bool(*has_session)));
            let io = obj(inner);
            proof {
                assert(io@->Obj_0 =~= reply_json(r@)->Obj_0[0].1->Obj_0);
            }
            let mut fields: Vec<(Vec<u8>, JsonValue)> = Vec::new();
            fields.push((str_slice_bytes("RecordingStarted"), io));
            let j = obj(fields);
            proof {
                assert(j@->Obj_0 =~= reply_json(r@)->Obj_0);
            }
            j
        },
        ReplyCommand::RecordingFinished { path, frames, duration_ms } => {
            let mut inner: Vec<(Vec<u8>, JsonValue)> = Vec::new();
            inner.push((str_slice_bytes("path"), JsonValue::Str(string_bytes(path))));
            inner.push((str_slice_bytes("frames"), JsonValue::UInt(*frames)));
            inner.push((str_slice_bytes("duration_ms"), JsonValue::UInt(*duration_ms)));
            let io = obj(inner);
            proof {
                assert(io@->Obj_0 =~= reply_json(r@)->Obj_0[0].1->Obj_0);
            }
            let mut fields: Vec<(Vec<u8>, JsonValue)> = Vec::new();
            fields.push((str_slice_bytes("RecordingFinished"), io));
            let j = obj(fields);
            proof {
                assert(j@->Obj_0 =~= reply_json(r@)->Obj_0);
            }
            j
        },
        ReplyCommand::Error(e) => {
            let mut fields: Vec<(Vec<u8>, JsonValue)> = Vec::new();
            fields.push((str_slice_bytes("Error"), JsonValue::Str(string_bytes(e))));
            let j = obj(fields);
            proof {
                assert(j@->Obj_0 =~= reply_json(r@)->Obj_0);
            }
            j
        },
    }
}

/// The JSON value an event is sent as.
pub fn event_to_json(e: &EventCommand) -> (j: JsonValue)
    ensures
        j@ == event_json(e@),
{
    match e {
        EventCommand::Changed(ms) => {
            let mut fields: Vec<(Vec<u8>, JsonValue)> = Vec::new();
            fields.push((str_slice_bytes("Changed"), arr(monitors_to_json(ms))));
            let j = obj(fields);
            proof {
                assert(j@->Obj_0 =~= event_json(e@)->Obj_0);
            }
            j
        },
    }
}

/// The JSON value a command is sent as.
pub fn command_to_json(c: &ServerCommand) -> (j: JsonValue)
    ensures
        j@ == command_json(c@),
{
    match c {
        ServerCommand::Driver(DriverCommand::Notify(ms)) => {
            let mut fields: Vec<(Vec<u8>, JsonValue)> = Vec::new();
            fields.push((str_slice_bytes("Notify"), arr(monitors_to_json(ms))));
            let j = obj(fields);
            proof {
                assert(j@->Obj_0 =~= command_json(c@)->Obj_0);
            }
            j
        },
        ServerCommand::Driver(DriverCommand::Remove(ids)) => {
            let mut fields: Vec<(Vec<u8>, JsonValue)> = Vec::new();
            fields.push((str_slice_bytes("Remove"), arr(uints_to_json(ids))));
            let j = obj(fields);
            proof {
                assert(j@->Obj_0 =~= command_json(c@)->Obj_0);
            }
            j
        },
        ServerCommand::Driver(DriverCommand::RemoveAll) => JsonValue::Str(
            str_slice_bytes("RemoveAll"),
        ),
        ServerCommand::Driver(DriverCommand::StartRecording { monitor_ids, output_path, fps }) => {
            let mut inner: Vec<(Vec<u8>, JsonValue)> = Vec::new();
            inner.push((str_slice_bytes("monitor_ids"), arr(uints_to_json(monitor_ids))));
            inner.push(
                (
                    str_slice_bytes("output_path"),
                    match output_path {
                        Some(p) => JsonValue::Str(string_bytes(p)),
                        None => JsonValue::Null,
                    },
                ),
            );
            inner.push(
                (
                    str_slice_bytes("fps"),
                    match fps {
                        Some(f) => JsonValue::UInt(*f as u64),
                        None => JsonValue::Null,
                    },
                ),
            );
            let io = obj(inner);
            proof {
                assert(io@->Obj_0 =~= command_json(c@)->Obj_0[0].1->Obj_0);
            }
            let mut fields: Vec<(Vec<u8>, JsonValue)> = Vec::new();
            fields.push((str_slice_bytes("StartRecording"), io));
            let j = obj(fields);
            proof {
                assert(j@->Obj_0 =~= command_json(c@)->Obj_0);
            }
            j
        },
        ServerCommand::Driver(DriverCommand::StopRecording) => JsonValue::Str(
            str_slice_bytes("StopRecording"),
        ),
        ServerCommand::Request(RequestCommand::State) => JsonValue::Str(str_slice_bytes("State")),
        ServerCommand::Request(RequestCommand::RecordingState) => JsonValue::Str(
            str_slice_bytes("RecordingState"),
        ),
    }
}

/// The first field of an object with the given key, from position `i` on.
pub open spec fn obj_get(fields: Seq<(Seq<u8>, SpecJson)>, key: Seq<u8>, i: int) -> Option<
    SpecJson,
>
    decreases fields.len() - i,
{
    if i < 0 || i >= fields.len() {
        None
    } else if fields[i].0 == key {
        Some(fields[i].1)
    } else {
        obj_get(fields, key, i + 1)
    }
}

/// A number that fits a 32-bit unsigned field.
pub open spec fn u32_from_json(j: SpecJson) -> Option<u32> {
    match j {
        SpecJson::UInt(n) => if n <= u32::MAX as u64 {
            Some(n as u32)
        } else {
            None
        },
        _ => None,
    }
}

/// The numbers of an array, each fitting 32 bits.
pub open spec fn u32s_from_json(items: Seq<SpecJson>, i: int) -> Option<Seq<u32>>
    decreases items.len() - i,
{
    if i < 0 || i > items.len() {
        None
    } else if i == items.len() {
        Some(Seq::empty())
    } else {
        match u32_from_json(items[i]) {
            Some(v) => match u32s_from_json(items, i + 1) {
                Some(rest) => Some(seq![v] + rest),
                None => None,
            },
            None => None,
        }
    }
}

/// A string value: its content bytes must be valid UTF-8.
pub open spec fn string_from_json(j: SpecJson) -> Option<Seq<char>> {
    match j {
        SpecJson::Str(b) => if valid_utf8(b) {
            Some(decode_utf8(b))
        } else {
            None
        },
        _ => None,
    }
}

/// A display mode read from its wire form: `width`, `height` and
/// `refresh_rates` are all required.
pub open spec fn mode_from_json(j: SpecJson) -> Option<ModeView> {
    match j {
        SpecJson::Obj(fields) => {
            match (
                obj_get(fields, str_bytes("width"@), 0),
                obj_get(fields, str_bytes("height"@), 0),
                obj_get(fields, str_bytes("refresh_rates"@), 0),
            ) {
                (Some(wj), Some(hj), Some(SpecJson::Arr(rj))) => {
                    match (u32_from_json(wj), u32_from_json(hj), u32s_from_json(rj, 0)) {
                        (Some(w), Some(h), Some(rates)) => Some(
                            ModeView { width: w, height: h, refresh_rates: rates },
                        ),
                        _ => None,
                    }
                },
                _ => None,
            }
        },
        _ => None,
    }
}

/// The modes of an array, each well-formed.
pub open spec fn modes_from_json(items: Seq<SpecJson>, i: int) -> Option<Seq<ModeView>>
    decreases items.len() - i,
{
    if i < 0 || i > items.len() {
        None
    } else if i == items.len() {
        Some(Seq::empty())
    } else {
        match mode_from_json(items[i]) {
            Some(m) => match modes_from_json(items, i + 1) {
                Some(rest) => Some(seq![m] + rest),
                None => None,
            },
            None => None,
        }
    }
}

/// A monitor read from its wire form: `id`, `enabled` and `modes` are
/// required; `name` may be missing or null.
pub open spec fn monitor_from_json(j: SpecJson) -> Option<MonitorView> {
    match j {
        SpecJson::Obj(fields) => {
            match (
                obj_get(fields, str_bytes("id"@), 0),
                obj_get(fields, str_bytes("enabled"@), 0),
                obj_get(fields, str_bytes("modes"@), 0),
            ) {
                (Some(ij), Some(SpecJson::Bool(enabled)), Some(SpecJson::Arr(mj))) => {
                    match (u32_from_json(ij), modes_from_json(mj, 0)) {
                        (Some(id), Some(modes)) => {
                            match obj_get(fields, str_bytes("name"@), 0) {
                                None => Some(MonitorView { id, name: None, enabled, modes }),
                                Some(SpecJson::Null) => Some(
                                    MonitorView { id, name: None, enabled, modes },
                                ),
                                Some(nj) => match string_from_json(nj) {
                                    Some(n) => Some(
                                        MonitorView { id, name: Some(n), enabled, modes },
                                    ),
                                    None => None,
                                },
                            }
                        },
                        _ => None,
                    }
                },
                _ => None,
            }
        },
        _ => None,
    }
}

/// The monitors of an array, each well-formed.
pub open spec fn monitors_from_json(items: Seq<SpecJson>, i: int) -> Option<Seq<MonitorView>>
    decreases items.len() - i,
{
    if i < 0 || i > items.len() {
        None
    } else if i == items.len() {
        Some(Seq::empty())
    } else {
        match monitor_from_json(items[i]) {
            Some(m) => match monitors_from_json(items, i + 1) {
                Some(rest) => Some(seq![m] + rest),
                None => None,
            },
            None => None,
        }
    }
}

/// An optional string field: missing or null both mean absent.
pub open spec fn opt_string_from_json(f: Option<SpecJson>) -> Option<Option<Seq<char>>> {
    match f {
        None => Some(None),
        Some(SpecJson::Null) => Some(None),
        Some(j) => match string_from_json(j) {
            Some(p) => Some(Some(p)),
            None => None,
        },
    }
}

/// An optional number field: missing or null both mean absent.
pub open spec fn opt_u32_from_json(f: Option<SpecJson>) -> Option<Option<u32>> {
    match f {
        None => Some(None),
        Some(SpecJson::Null) => Some(None),
        Some(j) => match u32_from_json(j) {
            Some(n) => Some(Some(n)),
            None => None,
        },
    }
}

/// A command read from its wire form. A top-level string names a command
/// without data; an object with a single recognised key carries that
/// command's data. `StartRecording` requires `monitor_ids` and accepts
/// missing `output_path` and `fps`.
pub open spec fn command_from_json(j: SpecJson) -> Option<CommandView> {
    match j {
        SpecJson::Str(s) => if s == str_bytes("RemoveAll"@) {
            Some(CommandView::RemoveAll)
        } else if s == str_bytes("StopRecording"@) {
            Some(CommandView::StopRecording)
        } else if s == str_bytes("State"@) {
            Some(CommandView::State)
        } else if s == str_bytes("RecordingState"@) {
            Some(CommandView::RecordingState)
        } else {
            None
        },
        SpecJson::Obj(fields) => if fields.len() == 1 {
            let key = fields[0].0;
            let val = fields[0].1;
            if key == str_bytes("Notify"@) {
                match val {
                    SpecJson::Arr(items) => match monitors_from_json(items, 0) {
                        Some(ms) => Some(CommandView::Notify(ms)),
                        None => None,
                    },
                    _ => None,
                }
            } else if key == str_bytes("Remove"@) {
                match val {
                    SpecJson::Arr(items) => match u32s_from_json(items, 0) {
                        Some(ids) => Some(CommandView::Remove(ids)),
                        None => None,
                    },
                    _ => None,
                }
            } else if key == str_bytes("StartRecording"@) {
                match val {
                    SpecJson::Obj(sf) => {
                        match obj_get(sf, str_bytes("monitor_ids"@), 0) {
                            Some(SpecJson::Arr(items)) => match u32s_from_json(items, 0) {
                                Some(ids) => {
                                    match (
                                        opt_string_from_json(
                                            obj_get(sf, str_bytes("output_path"@), 0),
                                        ),
                                        opt_u32_from_json(obj_get(sf, str_bytes("fps"@), 0)),
                                    ) {
                                        (Some(path), Some(fps)) => Some(
                                            CommandView::StartRecording {
                                                monitor_ids: ids,
                                                output_path: path,
                                                fps,
                                            },
                                        ),
                                        _ => None,
                                    }
                                },
                                None => None,
                            },
                            _ => None,
                        }
                    },
                    _ => None,
                }
            } else {
                None
            }
        } else {
            None
        },
        _ => None,
    }
}

/// Relies on String::from_utf8: it succeeds exactly on valid UTF-8 input,
/// and the returned string's UTF-8 encoding is exactly the input bytes.
#[verifier::external_body]
pub fn bytes_to_string(v: Vec<u8>) -> (r: Option<String>)
    ensures
        r is Some <==> valid_utf8(v@),
        r matches Some(s) ==> encode_utf8(s@) == v@,
{
    match String::from_utf8(v) {
        Ok(s) => Some(s),
        Err(_) => None,
    }
}

/// Compares byte strings.
pub(crate) fn bytes_eq(a: &Vec<u8>, b: &[u8]) -> (r: bool)
    ensures
        r == (a@ == b@),
{
    if a.len() != b.len() {
        return false;
    }
    let n = a.len();
    for i in 0..n
        invariant
            n == a@.len() == b@.len(),
            forall|k: int| 0 <= k < i ==> a@[k] == b@[k],
    {
        if a[i] != b[i] {
            return false;
        }
    }
    proof {
        assert(a@ =~= b@);
    }
    true
}

pub(crate) fn obj_get_at<'a>(fields: &'a Vec<(Vec<u8>, JsonValue)>, key: &str, i: usize) -> (r: Option<
    &'a JsonValue,
>)
    requires
        i <= fields@.len(),
    ensures
        match r {
            Some(v) => obj_get(crate::json::jv_field_views(fields@), str_bytes(key@), i as int)
                == Some(v@),
            None => obj_get(crate::json::jv_field_views(fields@), str_bytes(key@), i as int)
                is None,
        },
    decreases fields@.len() - i,
{
    if i < fields.len() {
        if bytes_eq(&fields[i].0, key.as_bytes()) {
            Some(&fields[i].1)
        } else {
            obj_get_at(fields, key, i + 1)
        }
    } else {
        None
    }
}

fn u32_of_json(j: &JsonValue) -> (r: Option<u32>)
    ensures
        r == u32_from_json(j@),
{
    match j {
        JsonValue::UInt(n) => {
            if *n <= 0xFFFF_FFFF {
                Some(*n as u32)
            } else {
                None
            }
        },
        _ => None,
    }
}

fn u32s_of_json(items: &Vec<JsonValue>, i: usize) -> (r: Option<Vec<u32>>)
    requires
        i <= items@.len(),
    ensures
        match r {
            Some(v) => u32s_from_json(crate::json::jv_views(items@), i as int) == Some(v@),
            None => u32s_from_json(crate::json::jv_views(items@), i as int) is None,
        },
    decreases items@.len() - i,
{
    if i == items.len() {
        proof {
            assert(u32s_from_json(crate::json::jv_views(items@), i as int) == Some(
                Seq::<u32>::empty(),
            ));
        }
        return Some(Vec::new());
    }
    match u32_of_json(&items[i]) {
        Some(v) => {
            match u32s_of_json(items, i + 1) {
                Some(rest) => {
                    let ghost rest0 = rest@;
                    let mut out: Vec<u32> = Vec::new();
                    out.push(v);
                    let mut rest = rest;
                    out.append(&mut rest);
                    proof {
                        assert(out@ =~= seq![v] + rest0);
                    }
                    Some(out)
                },
                None => None,
            }
        },
        None => None,
    }
}

fn mode_of_json(j: &JsonValue) -> (r: Option<Mode>)
    ensures
        match r {
            Some(m) => mode_from_json(j@) == Some(m@),
            None => mode_from_json(j@) is None,
        },
{
    match j {
        JsonValue::Obj(fields) => {
            proof {
                crate::json::lemma_view_obj(*fields);
            }
            let wj = obj_get_at(fields, "width", 0);
            let hj = obj_get_at(fields, "height", 0);
            let rj = obj_get_at(fields, "refresh_rates", 0);
            match (wj, hj, rj) {
                (Some(wj), Some(hj), Some(JsonValue::Arr(ritems))) => {
                    proof {
                        crate::json::lemma_view_arr(*ritems);
                    }
                    match (u32_of_json(wj), u32_of_json(hj), u32s_of_json(ritems, 0)) {
                        (Some(w), Some(h), Some(rates)) => Some(
                            Mode { width: w, height: h, refresh_rates: rates },
                        ),
                        _ => None,
                    }
                },
                _ => None,
            }
        },
        _ => None,
    }
}

fn modes_of_json(items: &Vec<JsonValue>, i: usize) -> (r: Option<Vec<Mode>>)
    requires
        i <= items@.len(),
    ensures
        match r {
            Some(v) => modes_from_json(crate::json::jv_views(items@), i as int) == Some(
                Seq::new(v@.len(), |k: int| v@[k]@),
            ),
            None => modes_from_json(crate::json::jv_views(items@), i as int) is None,
        },
    decreases items@.len() - i,
{
    if i == items.len() {
        proof {
            assert(Seq::new(Seq::<Mode>::empty().len(), |k: int| Seq::<Mode>::empty()[k]@)
                =~= Seq::<ModeView>::empty());
        }
        return Some(Vec::new());
    }
    match mode_of_json(&items[i]) {
        Some(m) => {
            match modes_of_json(items, i + 1) {
                Some(rest) => {
                    let ghost m0 = m@;
                    let ghost rest0 = rest@;
                    let mut out: Vec<Mode> = Vec::new();
                    out.push(m);
                    let mut rest = rest;
                    out.append(&mut rest);
                    proof {
                        assert(Seq::new(out@.len(), |k: int| out@[k]@) =~= seq![m0] + Seq::new(
                            rest0.len(),
                            |k: int| rest0[k]@,
                        ));
                    }
                    Some(out)
                },
                None => None,
            }
        },
        None => None,
    }
}

pub(crate) fn string_of_json(j: &JsonValue) -> (r: Option<String>)
    ensures
        match r {
            Some(p) => string_from_json(j@) == Some(p@),
            None => string_from_json(j@) is None,
        },
{
    match j {
        JsonValue::Str(b) => {
            match bytes_to_string(b.clone()) {
                Some(p) => {
                    proof {
                        vstd::utf8::encode_utf8_decode_utf8(p@);
                    }
                    Some(p)
                },
                None => None,
            }
        },
        _ => None,
    }
}

fn monitor_of_json(j: &JsonValue) -> (r: Option<Monitor>)
    ensures
        match r {
            Some(m) => monitor_from_json(j@) == Some(m@),
            None => monitor_from_json(j@) is None,
        },
{
    match j {
        JsonValue::Obj(fields) => {
            proof {
                crate::json::lemma_view_obj(*fields);
            }
            let ij = obj_get_at(fields, "id", 0);
            let ej = obj_get_at(fields, "enabled", 0);
            let mj = obj_get_at(fields, "modes", 0);
            match (ij, ej, mj) {
                (Some(ij), Some(JsonValue::Bool(enabled)), Some(JsonValue::Arr(mitems))) => {
                    proof {
                        crate::json::lemma_view_arr(*mitems);
                    }
                    match (u32_of_json(ij), modes_of_json(mitems, 0)) {
                        (Some(id), Some(modes)) => {
                            match obj_get_at(fields, "name", 0) {
                                None => Some(
                                    Monitor { id, name: None, enabled: *enabled, modes },
                                ),
                                Some(JsonValue::Null) => Some(
                                    Monitor { id, name: None, enabled: *enabled, modes },
                                ),
                                Some(nj) => {
                                    match string_of_json(nj) {
                                        Some(n) => Some(
                                            Monitor {
                                                id,
                                                name: Some(n),
                                                enabled: *enabled,
                                                modes,
                                            },
                                        ),
                                        None => None,
                                    }
                                },
                            }
                        },
                        _ => None,
                    }
                },
                _ => None,
            }
        },
        _ => None,
    }
}

fn monitors_of_json(items: &Vec<JsonValue>, i: usize) -> (r: Option<Vec<Monitor>>)
    requires
        i <= items@.len(),
    ensures
        match r {
            Some(v) => monitors_from_json(crate::json::jv_views(items@), i as int) == Some(
                crate::monitor::monitor_views(v@),
            ),
            None => monitors_from_json(crate::json::jv_views(items@), i as int) is None,
        },
    decreases items@.len() - i,
{
    if i == items.len() {
        proof {
            assert(crate::monitor::monitor_views(Seq::<Monitor>::empty())
                =~= Seq::<MonitorView>::empty());
        }
        return Some(Vec::new());
    }
    match monitor_of_json(&items[i]) {
        Some(m) => {
            match monitors_of_json(items, i + 1) {
                Some(rest) => {
                    let ghost m0 = m@;
                    let ghost rest0 = rest@;
                    let mut out: Vec<Monitor> = Vec::new();
                    out.push(m);
                    let mut rest = rest;
                    out.append(&mut rest);
                    proof {
                        assert(crate::monitor::monitor_views(out@) =~= seq![m0]
                            + crate::monitor::monitor_views(rest0));
                    }
                    Some(out)
                },
                None => None,
            }
        },
        None => None,
    }
}

/// Reads a server command from its JSON value.
pub fn json_to_command(j: &JsonValue) -> (r: Option<ServerCommand>)
    ensures
        match r {
            Some(c) => command_from_json(j@) == Some(c@),
            None => command_from_json(j@) is None,
        },
{
    match j {
        JsonValue::Str(s) => {
            if bytes_eq(s, "RemoveAll".as_bytes()) {
                Some(ServerCommand::Driver(DriverCommand::RemoveAll))
            } else if bytes_eq(s, "StopRecording".as_bytes()) {
                Some(ServerCommand::Driver(DriverCommand::StopRecording))
            } else if bytes_eq(s, "State".as_bytes()) {
                Some(ServerCommand::Request(RequestCommand::State))
            } else if bytes_eq(s, "RecordingState".as_bytes()) {
                Some(ServerCommand::Request(RequestCommand::RecordingState))
            } else {
                None
            }
        },
        JsonValue::Obj(fields) => {
            proof {
                crate::json::lemma_view_obj(*fields);
            }
            if fields.len() != 1 {
                return None;
            }
            let key = &fields[0].0;
            let val = &fields[0].1;
            if bytes_eq(key, "Notify".as_bytes()) {
                match val {
                    JsonValue::Arr(items) => {
                        proof {
                            crate::json::lemma_view_arr(*items);
                        }
                        match monitors_of_json(items, 0) {
                            Some(ms) => Some(ServerCommand::Driver(DriverCommand::Notify(ms))),
                            None => None,
                        }
                    },
                    _ => None,
                }
            } else if bytes_eq(key, "Remove".as_bytes()) {
                match val {
                    JsonValue::Arr(items) => {
                        proof {
                            crate::json::lemma_view_arr(*items);
                        }
                        match u32s_of_json(items, 0) {
                            Some(ids) => Some(ServerCommand::Driver(DriverCommand::Remove(ids))),
                            None => None,
                        }
                    },
                    _ => None,
                }
            } else if bytes_eq(key, "StartRecording".as_bytes()) {
                match val {
                    JsonValue::Obj(sf) => {
                        proof {
                            crate::json::lemma_view_obj(*sf);
                        }
                        match obj_get_at(sf, "monitor_ids", 0) {
                            Some(JsonValue::Arr(items)) => {
                                proof {
                                    crate::json::lemma_view_arr(*items);
                                }
                                match u32s_of_json(items, 0) {
                                    Some(ids) => {
                                        let path = match obj_get_at(sf, "output_path", 0) {
                                            None => Some(None),
                                            Some(JsonValue::Null) => Some(None),
                                            Some(pj) => match string_of_json(pj) {
                                                Some(p) => Some(Some(p)),
                                                None => None,
                                            },
                                        };
                                        let fps = match obj_get_at(sf, "fps", 0) {
                                            None => Some(None),
                                            Some(JsonValue::Null) => Some(None),
                                            Some(fj) => match u32_of_json(fj) {
                                                Some(f) => Some(Some(f)),
                                                None => None,
                                            },
                                        };
                                        match (path, fps) {
                                            (Some(output_path), Some(fps)) => Some(
                                                ServerCommand::Driver(
                                                    DriverCommand::StartRecording {
                                                        monitor_ids: ids,
                                                        output_path,
                                                        fps,
                                                    },
                                                ),
                                            ),
                                            _ => None,
                                        }
                                    },
                                    None => None,
                                }
                            },
                            _ => None,
                        }
                    },
                    _ => None,
                }
            } else {
                None
            }
        },
        _ => None,
    }
}

/// The framed wire bytes of a reply: its canonical JSON printing followed by
/// the terminator. The JSON part holds no terminator byte, so each reply
/// frame carries exactly one terminator -- one frame per reply.
pub fn encode_reply_frame(r: &ReplyCommand) -> (out: Vec<u8>)
    ensures
        out@ == crate::json::spec_print(reply_json(r@)) + seq![crate::wire::EOT],
        crate::json::is_json_document(out@.take(out@.len() - 1)),
        forall|i: int| 0 <= i < out@.len() - 1 ==> out@[i] != 4,
        out@[out@.len() - 1] == 4,
{
    let j = reply_to_json(r);
    let mut out: Vec<u8> = Vec::new();
    crate::wire::push_frame(&mut out, &j);
    proof {
        assert(Seq::<u8>::empty() + crate::json::spec_print(reply_json(r@)) + seq![
            crate::wire::EOT,
        ] =~= crate::json::spec_print(reply_json(r@)) + seq![crate::wire::EOT]);
        assert(out@.take(out@.len() - 1) =~= crate::json::spec_print(reply_json(r@)));
        crate::wire::lemma_print_has_no_eot(reply_json(r@));
    }
    out
}

/// The framed wire bytes of an event, as pushed to the other clients.
pub fn encode_event_frame(e: &EventCommand) -> (out: Vec<u8>)
    ensures
        out@ == crate::json::spec_print(event_json(e@)) + seq![crate::wire::EOT],
        forall|i: int| 0 <= i < out@.len() - 1 ==> out@[i] != 4,
        out@[out@.len() - 1] == 4,
{
    let j = event_to_json(e);
    let mut out: Vec<u8> = Vec::new();
    crate::wire::push_frame(&mut out, &j);
    proof {
        assert(Seq::<u8>::empty() + crate::json::spec_print(event_json(e@)) + seq![
            crate::wire::EOT,
        ] =~= crate::json::spec_print(event_json(e@)) + seq![crate::wire::EOT]);
        crate::wire::lemma_print_has_no_eot(event_json(e@));
        assert forall|i: int| 0 <= i < out@.len() - 1 implies out@[i] != 4 by {
            assert(out@[i] == crate::json::spec_print(event_json(e@))[i]);
        }
    }
    out
}

/// The framed wire bytes of a command, as a client sends it.
pub fn encode_command_frame(c: &ServerCommand) -> (out: Vec<u8>)
    ensures
        out@ == crate::json::spec_print(command_json(c@)) + seq![crate::wire::EOT],
{
    let j = command_to_json(c);
    let mut out: Vec<u8> = Vec::new();
    crate::wire::push_frame(&mut out, &j);
    proof {
        assert(Seq::<u8>::empty() + crate::json::spec_print(command_json(c@)) + seq![
            crate::wire::EOT,
        ] =~= crate::json::spec_print(command_json(c@)) + seq![crate::wire::EOT]);
    }
    out
}

/// What one received frame means: after stripping a byte-order mark, the
/// bytes must parse as one JSON document that maps to a command.
pub open spec fn spec_decode_command_frame(frame: Seq<u8>) -> Option<CommandView> {
    match crate::json::spec_parse_document(crate::wire::spec_strip_bom(frame)) {
        Some(j) => command_from_json(j),
        None => None,
    }
}

/// Reads one framed message as a command: strips a leading byte-order mark,
/// parses the JSON document, and maps it to the command set. Malformed or
/// unrecognised frames give nothing.
pub fn decode_command_frame(frame: Vec<u8>) -> (r: Option<ServerCommand>)
    ensures
        match r {
            Some(c) => spec_decode_command_frame(frame@) == Some(c@),
            None => spec_decode_command_frame(frame@) is None,
        },
{
    let stripped = crate::wire::strip_bom(frame);
    match crate::json::parse_json(stripped.as_slice()) {
        Some(j) => json_to_command(&j),
        None => None,
    }
}

/// The UTF-8 bytes of two different ASCII key names differ.
proof fn lemma_ascii_bytes(s: &str)
    requires
        vstd::utf8::is_ascii_chars(s@),
    ensures
        str_bytes(s@).len() == s@.len(),
        forall|i: int| 0 <= i < s@.len() ==> #[trigger] str_bytes(s@)[i] == s@[i] as u8,
{
    vstd::utf8::is_ascii_chars_encode_utf8(s@);
}

/// A number field encodes and decodes to itself.
proof fn lemma_u32_round_trip(x: u32)
    ensures
        u32_from_json(SpecJson::UInt(x as u64)) == Some(x),
{
}

/// A string field encodes and decodes to itself: its UTF-8 bytes are valid
/// and decode back to the same characters.
proof fn lemma_string_round_trip(p: Seq<char>)
    ensures
        string_from_json(SpecJson::Str(str_bytes(p))) == Some(p),
{
    vstd::utf8::encode_utf8_valid_utf8(p);
    vstd::utf8::encode_utf8_decode_utf8(p);
}

/// A number list encodes and decodes to itself.
proof fn lemma_u32s_round_trip(xs: Seq<u32>, k: int)
    requires
        0 <= k <= xs.len(),
    ensures
        u32s_from_json(uints_json(xs), k) == Some(xs.skip(k)),
    decreases xs.len() - k,
{
    if k == xs.len() {
        assert(xs.skip(k) =~= Seq::<u32>::empty());
    } else {
        lemma_u32_round_trip(xs[k]);
        lemma_u32s_round_trip(xs, k + 1);
        assert(seq![xs[k]] + xs.skip(k + 1) =~= xs.skip(k));
    }
}

/// A display mode encodes and decodes to itself.
proof fn lemma_mode_round_trip(m: ModeView)
    ensures
        mode_from_json(mode_json(m)) == Some(m),
{
    let fields = mode_json(m)->Obj_0;
    reveal_with_fuel(obj_get, 6);
    strlit_facts();
    lemma_ascii_bytes("width");
    lemma_ascii_bytes("height");
    lemma_ascii_bytes("refresh_rates");
    assert(obj_get(fields, str_bytes("width"@), 0) == Some(SpecJson::UInt(m.width as u64)));
    assert(str_bytes("height"@).len() != str_bytes("width"@).len());
    assert(obj_get(fields, str_bytes("height"@), 0) == Some(SpecJson::UInt(m.height as u64)));
    assert(obj_get(fields, str_bytes("refresh_rates"@), 0) == Some(
        SpecJson::Arr(uints_json(m.refresh_rates)),
    ));
    lemma_u32s_round_trip(m.refresh_rates, 0);
    assert(m.refresh_rates.skip(0) =~= m.refresh_rates);
    assert(mode_from_json(mode_json(m)) == Some(
        ModeView { width: m.width, height: m.height, refresh_rates: m.refresh_rates },
    ));
}

proof fn strlit_facts()
    ensures
        "width"@.len() == 5,
        "height"@.len() == 6,
        "refresh_rates"@.len() == 13,
        "id"@.len() == 2,
        "name"@.len() == 4,
        "enabled"@.len() == 7,
        "modes"@.len() == 5,
        "monitor_ids"@.len() == 11,
        "output_path"@.len() == 11,
        "fps"@.len() == 3,
        "Notify"@.len() == 6,
        "Remove"@.len() == 6,
        "StartRecording"@.len() == 14,
        "width"@[0] == 'w',
        "modes"@[0] == 'm',
        "monitor_ids"@[0] == 'm',
        "output_path"@[0] == 'o',
        "Remove"@[0] == 'R',
        "Notify"@[0] == 'N',
        vstd::utf8::is_ascii_chars("width"@),
        vstd::utf8::is_ascii_chars("height"@),
        vstd::utf8::is_ascii_chars("refresh_rates"@),
        vstd::utf8::is_ascii_chars("id"@),
        vstd::utf8::is_ascii_chars("name"@),
        vstd::utf8::is_ascii_chars("enabled"@),
        vstd::utf8::is_ascii_chars("modes"@),
        vstd::utf8::is_ascii_chars("monitor_ids"@),
        vstd::utf8::is_ascii_chars("output_path"@),
        vstd::utf8::is_ascii_chars("fps"@),
        vstd::utf8::is_ascii_chars("Notify"@),
        vstd::utf8::is_ascii_chars("Remove"@),
        vstd::utf8::is_ascii_chars("StartRecording"@),
{
    reveal_strlit("width");
    reveal_strlit("height");
    reveal_strlit("refresh_rates");
    reveal_strlit("id");
    reveal_strlit("name");
    reveal_strlit("enabled");
    reveal_strlit("modes");
    reveal_strlit("monitor_ids");
    reveal_strlit("output_path");
    reveal_strlit("fps");
    reveal_strlit("Notify");
    reveal_strlit("Remove");
    reveal_strlit("StartRecording");
}

/// A mode list encodes and decodes to itself.
proof fn lemma_modes_round_trip(ms: Seq<ModeView>, k: int)
    requires
        0 <= k <= ms.len(),
    ensures
        modes_from_json(modes_json(ms), k) == Some(ms.skip(k)),
    decreases ms.len() - k,
{
    if k == ms.len() {
        assert(ms.skip(k) =~= Seq::<ModeView>::empty());
    } else {
        lemma_mode_round_trip(ms[k]);
        lemma_modes_round_trip(ms, k + 1);
        assert(seq![ms[k]] + ms.skip(k + 1) =~= ms.skip(k));
    }
}

/// A monitor encodes and decodes to itself.
proof fn lemma_monitor_round_trip(m: MonitorView)
    ensures
        monitor_from_json(monitor_json(m)) == Some(m),
{
    let fields = monitor_json(m)->Obj_0;
    reveal_with_fuel(obj_get, 6);
    strlit_facts();
    lemma_ascii_bytes("id");
    lemma_ascii_bytes("name");
    lemma_ascii_bytes("enabled");
    lemma_ascii_bytes("modes");
    assert(str_bytes("modes"@)[0] == 'm' as u8);
    assert(obj_get(fields, str_bytes("id"@), 0) == Some(SpecJson::UInt(m.id as u64)));
    assert(obj_get(fields, str_bytes("enabled"@), 0) == Some(SpecJson::Bool(m.enabled)));
    assert(obj_get(fields, str_bytes("modes"@), 0) == Some(SpecJson::Arr(modes_json(m.modes))));
    assert(obj_get(fields, str_bytes("name"@), 0) == Some(
        match m.name {
            Some(n) => SpecJson::Str(str_bytes(n)),
            None => SpecJson::Null,
        },
    ));
    lemma_modes_round_trip(m.modes, 0);
    assert(m.modes.skip(0) =~= m.modes);
    match m.name {
        Some(n) => {
            lemma_string_round_trip(n);
        },
        None => {},
    }
}

/// A monitor list encodes and decodes to itself.
proof fn lemma_monitors_round_trip(ms: Seq<MonitorView>, k: int)
    requires
        0 <= k <= ms.len(),
    ensures
        monitors_from_json(monitors_json(ms), k) == Some(ms.skip(k)),
    decreases ms.len() - k,
{
    if k == ms.len() {
        assert(ms.skip(k) =~= Seq::<MonitorView>::empty());
    } else {
        lemma_monitor_round_trip(ms[k]);
        lemma_monitors_round_trip(ms, k + 1);
        assert(seq![ms[k]] + ms.skip(k + 1) =~= ms.skip(k));
    }
}

/// Protocol coherence: every command's wire form decodes back to exactly
/// that command, so a command a client encodes is the command the server
/// acts on.
pub proof fn lemma_command_round_trip(c: CommandView)
    ensures
        command_from_json(command_json(c)) == Some(c),
{
    reveal_with_fuel(obj_get, 6);
    strlit_facts();
    match c {
        CommandView::Notify(ms) => {
            lemma_ascii_bytes("Notify");
            lemma_monitors_round_trip(ms, 0);
            assert(ms.skip(0) =~= ms);
        },
        CommandView::Remove(ids) => {
            lemma_ascii_bytes("Remove");
            lemma_ascii_bytes("Notify");
            assert(str_bytes("Remove"@)[0] == 'R' as u8);
            assert(str_bytes("Notify"@)[0] == 'N' as u8);
            assert(str_bytes("Remove"@) != str_bytes("Notify"@));
            lemma_u32s_round_trip(ids, 0);
            assert(ids.skip(0) =~= ids);
        },
        CommandView::RemoveAll => {
            lemma_distinct_literals();
        },
        CommandView::StartRecording { monitor_ids, output_path, fps } => {
            lemma_ascii_bytes("StartRecording");
            lemma_ascii_bytes("Notify");
            lemma_ascii_bytes("Remove");
            lemma_ascii_bytes("monitor_ids");
            lemma_ascii_bytes("output_path");
            lemma_ascii_bytes("fps");
            assert(str_bytes("StartRecording"@).len() != str_bytes("Notify"@).len());
            assert(str_bytes("StartRecording"@).len() != str_bytes("Remove"@).len());
            let sf = command_json(c)->Obj_0[0].1->Obj_0;
            assert(obj_get(sf, str_bytes("monitor_ids"@), 0) == Some(
                SpecJson::Arr(uints_json(monitor_ids)),
            ));
            assert(str_bytes("output_path"@)[0] == 'o' as u8);
            assert(str_bytes("monitor_ids"@)[0] == 'm' as u8);
            assert(str_bytes("output_path"@) != str_bytes("monitor_ids"@));
            assert(obj_get(sf, str_bytes("output_path"@), 0) == Some(
                match output_path {
                    Some(p) => SpecJson::Str(str_bytes(p)),
                    None => SpecJson::Null,
                },
            ));
            assert(obj_get(sf, str_bytes("fps"@), 0) == Some(
                match fps {
                    Some(f) => SpecJson::UInt(f as u64),
                    None => SpecJson::Null,
                },
            ));
            lemma_u32s_round_trip(monitor_ids, 0);
            assert(monitor_ids.skip(0) =~= monitor_ids);
            match output_path {
                Some(p) => {
                    lemma_string_round_trip(p);
                },
                None => {},
            }
        },
        CommandView::StopRecording => {
            lemma_distinct_literals();
        },
        CommandView::State => {
            lemma_distinct_literals();
        },
        CommandView::RecordingState => {
            lemma_distinct_literals();
        },
    }
}

/// The four string-shaped commands have pairwise different wire bytes.
proof fn lemma_distinct_literals()
    ensures
        str_bytes("RemoveAll"@) != str_bytes("StopRecording"@),
        str_bytes("RemoveAll"@) != str_bytes("State"@),
        str_bytes("RemoveAll"@) != str_bytes("RecordingState"@),
        str_bytes("StopRecording"@) != str_bytes("State"@),
        str_bytes("StopRecording"@) != str_bytes("RecordingState"@),
        str_bytes("State"@) != str_bytes("RecordingState"@),
        command_from_json(SpecJson::Str(str_bytes("RemoveAll"@))) == Some(CommandView::RemoveAll),
        command_from_json(SpecJson::Str(str_bytes("StopRecording"@))) == Some(
            CommandView::StopRecording,
        ),
        command_from_json(SpecJson::Str(str_bytes("State"@))) == Some(CommandView::State),
        command_from_json(SpecJson::Str(str_bytes("RecordingState"@))) == Some(
            CommandView::RecordingState,
        ),
{
    reveal_strlit("RemoveAll");
    reveal_strlit("StopRecording");
    reveal_strlit("State");
    reveal_strlit("RecordingState");
    lemma_ascii_bytes("RemoveAll");
    lemma_ascii_bytes("StopRecording");
    lemma_ascii_bytes("State");
    lemma_ascii_bytes("RecordingState");
    assert(str_bytes("RemoveAll"@).len() == 9);
    assert(str_bytes("StopRecording"@).len() == 13);
    assert(str_bytes("State"@).len() == 5);
    assert(str_bytes("RecordingState"@).len() == 14);
}

/// One reply per command, on the wire: the server answers a batch of
/// commands with one framed reply each; the resulting byte stream splits at
/// the terminators back into exactly those replies, in order, and the bytes
/// between consecutive terminators are each a canonical JSON document.
pub proof fn lemma_reply_stream_frames(replies: Seq<ReplyView>)
    ensures
        ({
            let frames = Seq::new(replies.len(), |i: int| crate::json::spec_print(reply_json(replies[i])));
            &&& crate::wire::spec_frames(crate::wire::spec_stream(frames)) == frames
            &&& crate::wire::spec_remainder(crate::wire::spec_stream(frames))
                == Seq::<u8>::empty()
            &&& forall|i: int|
                0 <= i < frames.len() ==> crate::json::is_json_document(#[trigger] frames[i])
            &&& forall|i: int|
                0 <= i < frames.len() ==> crate::json::spec_parse_document(#[trigger] frames[i])
                    == Some(reply_json(replies[i]))
        }),
{
    let frames = Seq::new(replies.len(), |i: int| crate::json::spec_print(reply_json(replies[i])));
    assert forall|j: int, i: int|
        0 <= j < frames.len() && 0 <= i < frames[j].len() implies #[trigger] frames[j][i] != 4 by {
        crate::wire::lemma_print_has_no_eot(reply_json(replies[j]));
    }
    crate::wire::lemma_frames_of_stream(frames);
    assert forall|i: int|
        0 <= i < frames.len() implies crate::json::is_json_document(#[trigger] frames[i]) by {
        assert(frames[i] == crate::json::spec_print(reply_json(replies[i])));
    }
    assert forall|i: int|
        0 <= i < frames.len() implies crate::json::spec_parse_document(#[trigger] frames[i])
        == Some(reply_json(replies[i])) by {
        crate::json::lemma_document_round_trip(reply_json(replies[i]));
    }
}

/// Wire fidelity for commands: the framed bytes a client encodes for a
/// command decode, on the server, back to exactly that command.
pub proof fn lemma_command_wire_round_trip(c: CommandView)
    ensures
        spec_decode_command_frame(crate::json::spec_print(command_json(c))) == Some(c),
{
    let frame = crate::json::spec_print(command_json(c));
    crate::json::lemma_print_first_byte(command_json(c));
    assert(frame[0] != 0xEF);
    assert(crate::wire::spec_strip_bom(frame) == frame);
    crate::json::lemma_document_round_trip(command_json(c));
    lemma_command_round_trip(c);
}

} // verus!

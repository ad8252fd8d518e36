//! The user-mode capture service: its command set, its state, and the
//! decisions of starting and stopping a recording. Display enumeration and
//! the capture threads themselves are platform work done outside; the
//! service receives plain display descriptions and registers the captures it
//! starts.

use crate::capture::{dxgi_shm_name, dxgi_shm_name_string};
use vstd::prelude::*;
use vstd::string::StringExecFns;

verus! {

/// Which displays a recording covers.
#[derive(Debug, Clone, Copy, PartialEq, Eq, Structural)]
pub enum RecordingMode {
    All,
    PrimaryOnly,
}

/// Commands the capture service accepts over its control pipe.
pub enum Command {
    StartRecording { mode: RecordingMode },
    StopRecording,
    QueryState,
}

/// One active capture as reported to clients.
pub struct DisplayState {
    pub index: u32,
    pub name: String,
    pub width: u32,
    pub height: u32,
    pub primary: bool,
    pub shm_name: String,
}

/// The service's reported state.
pub struct ServiceState {
    pub recording: bool,
    pub mode: Option<RecordingMode>,
    pub displays: Vec<DisplayState>,
}

/// Replies the capture service sends. (The no-data reply appears as the
/// string "Ok" on the wire.)
pub enum Response {
    Okay,
    State(ServiceState),
    Error(String),
}

/// A display as the platform enumerates it: adapter and output indices,
/// name, geometry in the virtual desktop, the primary flag, and the
/// adapter's identifier.
pub struct DisplayInfo {
    pub adapter_index: u32,
    pub output_index: u32,
    pub name: String,
    pub width: u32,
    pub height: u32,
    pub left: i32,
    pub top: i32,
    pub is_primary: bool,
    pub adapter_luid: i64,
}

impl DisplayInfo {
    /// Copies the description, keeping every field.
    pub fn duplicate(&self) -> (d: DisplayInfo)
        ensures
            d.adapter_index == self.adapter_index,
            d.output_index == self.output_index,
            d.name@ == self.name@,
            d.width == self.width,
            d.height == self.height,
            d.left == self.left,
            d.top == self.top,
            d.is_primary == self.is_primary,
            d.adapter_luid == self.adapter_luid,
    {
        DisplayInfo {
            adapter_index: self.adapter_index,
            output_index: self.output_index,
            name: self.name.clone(),
            width: self.width,
            height: self.height,
            left: self.left,
            top: self.top,
            is_primary: self.is_primary,
            adapter_luid: self.adapter_luid,
        }
    }

    /// A one-line human-readable description of the display.
    pub fn describe(&self) -> (s: String)
        ensures
            s@ == "Display "@ + self.name@ + " ("@ + crate::text::spec_decimal(self.width as int)
                + "x"@ + crate::text::spec_decimal(self.height as int) + (if self.is_primary {
                " PRIMARY)"@
            } else {
                ")"@
            }),
    {
        let mut s = String::new();
        s.append("Display ");
        s.append(self.name.as_str());
        s.append(" (");
        crate::text::append_decimal(&mut s, self.width as u64);
        s.append("x");
        crate::text::append_decimal(&mut s, self.height as u64);
        if self.is_primary {
            s.append(" PRIMARY)");
        } else {
            s.append(")");
        }
        proof {
            assert(Seq::<char>::empty() + "Display "@ =~= "Display "@);
        }
        s
    }
}

/// Why a recording could not start.
#[derive(Debug)]
pub enum ServiceError {
    /// The platform reported no displays at all.
    NoDisplays,
    /// Primary-only mode was asked for but no display is primary.
    NoPrimary,
}

impl ServiceError {
    /// The message reported to the client.
    pub fn message(&self) -> (s: String)
        ensures
            self is NoDisplays ==> s@ == "No displays found"@,
            self is NoPrimary ==> s@ == "No primary display found"@,
    {
        match self {
            ServiceError::NoDisplays => {
                let mut s = String::new();
                s.append("No displays found");
                proof {
                    assert(Seq::<char>::empty() + "No displays found"@ =~= "No displays found"@);
                }
                s
            },
            ServiceError::NoPrimary => {
                let mut s = String::new();
                s.append("No primary display found");
                proof {
                    assert(Seq::<char>::empty() + "No primary display found"@
                        =~= "No primary display found"@);
                }
                s
            },
        }
    }
}

/// The primary displays among the enumerated ones, in order, from position
/// `k` on.
pub open spec fn spec_primaries(ds: Seq<DisplayInfo>, k: int) -> Seq<int>
    decreases ds.len() - k,
{
    if k < 0 || k >= ds.len() {
        Seq::empty()
    } else {
        let rest = spec_primaries(ds, k + 1);
        if ds[k].is_primary {
            seq![k] + rest
        } else {
            rest
        }
    }
}

/// Selects which of the enumerated displays a recording covers: all of them,
/// or only the primary ones. An empty enumeration is an error; primary-only
/// mode with no primary display is an error. The result lists indices into
/// the enumeration.
pub fn select_targets(displays: &Vec<DisplayInfo>, mode: &RecordingMode) -> (r: Result<
    Vec<usize>,
    ServiceError,
>)
    ensures
        r matches Ok(idx) ==> forall|i: int|
            0 <= i < idx@.len() ==> (#[trigger] idx@[i]) < displays@.len(),
        displays@.len() == 0 <==> (r matches Err(e) && e is NoDisplays),
        displays@.len() > 0 && mode is All ==> (r matches Ok(idx) && idx@ == Seq::new(
            displays@.len(),
            |i: int| i as usize,
        )),
        displays@.len() > 0 && mode is PrimaryOnly ==> {
            if spec_primaries(displays@, 0).len() == 0 {
                r matches Err(e) && e is NoPrimary
            } else {
                (r matches Ok(idx) && Seq::new(idx@.len(), |i: int| idx@[i] as int)
                    == spec_primaries(displays@, 0))
            }
        },
{
    if displays.len() == 0 {
        return Err(ServiceError::NoDisplays);
    }
    match mode {
        RecordingMode::All => {
            let mut idx: Vec<usize> = Vec::new();
            let n = displays.len();
            for i in 0..n
                invariant
                    n == displays@.len(),
                    idx@.len() == i,
                    forall|k: int| 0 <= k < i ==> idx@[k] == k as usize,
            {
                idx.push(i);
            }
            proof {
                assert(idx@ =~= Seq::new(displays@.len(), |i: int| i as usize));
            }
            Ok(idx)
        },
        RecordingMode::PrimaryOnly => {
            let ghost goal = spec_primaries(displays@, 0);
            let mut idx: Vec<usize> = Vec::new();
            let n = displays.len();
            let mut k: usize = 0;
            while k < n
                invariant
                    k <= n,
                    n == displays@.len(),
                    goal == spec_primaries(displays@, 0),
                    goal == Seq::new(idx@.len(), |i: int| idx@[i] as int) + spec_primaries(
                        displays@,
                        k as int,
                    ),
                    forall|i: int| 0 <= i < idx@.len() ==> (#[trigger] idx@[i]) < n,
                decreases n - k,
            {
                let ghost iv = Seq::new(idx@.len(), |i: int| idx@[i] as int);
                if displays[k].is_primary {
                    idx.push(k);
                    proof {
                        assert(Seq::new(idx@.len(), |i: int| idx@[i] as int) =~= iv + seq![
                            k as int,
                        ]);
                        assert((iv + seq![k as int]) + spec_primaries(displays@, k + 1) =~= iv + (
                        seq![k as int] + spec_primaries(displays@, k + 1)));
                    }
                }
                k = k + 1;
            }
            proof {
                assert(spec_primaries(displays@, n as int) =~= Seq::<int>::empty());
                assert(Seq::new(idx@.len(), |i: int| idx@[i] as int) + Seq::<int>::empty()
                    =~= Seq::new(idx@.len(), |i: int| idx@[i] as int));
            }
            if idx.len() == 0 {
                Err(ServiceError::NoPrimary)
            } else {
                Ok(idx)
            }
        },
    }
}

/// One registered capture: the display it covers and the ring name readers
/// open. The capture thread itself is owned outside.
pub struct CaptureEntry {
    pub display: DisplayInfo,
    pub shm_name: String,
}

/// The capture service's state: the registered captures, whether a recording
/// runs, and its mode.
pub struct CaptureService {
    pub captures: Vec<CaptureEntry>,
    pub recording: bool,
    pub mode: Option<RecordingMode>,
}

impl CaptureService {
    /// A fresh service: no captures, not recording.
    pub fn new() -> (s: Self)
        ensures
            s.captures@.len() == 0,
            !s.recording,
            s.mode is None,
    {
        CaptureService { captures: Vec::new(), recording: false, mode: None }
    }

    /// Registers one started capture: the display and its ring name, derived
    /// from the adapter and output indices.
    pub fn register_capture(&mut self, display: DisplayInfo)
        ensures
            final(self).captures@.len() == old(self).captures@.len() + 1,
            forall|i: int|
                0 <= i < old(self).captures@.len() ==> final(self).captures@[i] == old(
                    self,
                ).captures@[i],
            final(self).captures@.last().display == display,
            final(self).captures@.last().shm_name@ == dxgi_shm_name(
                display.adapter_index as int,
                display.output_index as int,
            ),
            final(self).recording == old(self).recording,
            final(self).mode == old(self).mode,
    {
        let shm_name = dxgi_shm_name_string(display.adapter_index, display.output_index);
        self.captures.push(CaptureEntry { display, shm_name });
    }

    /// Starts a recording over the enumerated displays: stops any previous
    /// one, selects the targets the mode asks for, registers a capture (with
    /// its ring name) for each, and marks the recording as running. The
    /// caller spawns one capture thread per returned index and rolls back
    /// with [`Self::stop_recording`] if a thread fails to start, as the
    /// platform layer must.
    pub fn start_recording(&mut self, mode: RecordingMode, displays: &Vec<DisplayInfo>) -> (r:
        Result<Vec<usize>, ServiceError>)
        ensures
            displays@.len() > 0 && (mode is All || spec_primaries(displays@, 0).len() > 0)
                ==> r is Ok,
            (r matches Err(e) && e is NoDisplays) <==> displays@.len() == 0,
            (r matches Err(e) && e is NoPrimary) <==> (mode is PrimaryOnly && displays@.len() > 0
                && spec_primaries(displays@, 0).len() == 0),
            r matches Ok(idx) ==> idx@.len() > 0 && (mode is All ==> idx@.len()
                == displays@.len()) && (mode is PrimaryOnly ==> idx@.len() == spec_primaries(
                displays@,
                0,
            ).len()),
            match r {
                Ok(idx) => {
                    &&& final(self).recording
                    &&& final(self).mode == Some(mode)
                    &&& final(self).captures@.len() == idx@.len()
                    &&& forall|k: int|
                        0 <= k < idx@.len() ==> {
                            let e = #[trigger] final(self).captures@[k];
                            &&& idx@[k] < displays@.len()
                            &&& e.display.name@ == displays@[idx@[k] as int].name@
                            &&& e.display.adapter_index == displays@[idx@[k] as int].adapter_index
                            &&& e.display.output_index == displays@[idx@[k] as int].output_index
                            &&& e.shm_name@ == dxgi_shm_name(
                                displays@[idx@[k] as int].adapter_index as int,
                                displays@[idx@[k] as int].output_index as int,
                            )
                        }
                    &&& (displays@.len() > 0)
                },
                Err(e) => {
                    &&& !final(self).recording
                    &&& final(self).mode is None
                    &&& final(self).captures@.len() == 0
                    &&& (e is NoDisplays <==> displays@.len() == 0)
                },
            },
    {
        self.stop_recording();
        match select_targets(displays, &mode) {
            Ok(idx) => {
                let n = idx.len();
                for k in 0..n
                    invariant
                        n == idx@.len(),
                        forall|i: int| 0 <= i < idx@.len() ==> (#[trigger] idx@[i]) < displays@.len(),
                        self.captures@.len() == k,
                        !self.recording,
                        self.mode is None,
                        forall|j: int|
                            0 <= j < k ==> {
                                let e = #[trigger] self.captures@[j];
                                &&& e.display.name@ == displays@[idx@[j] as int].name@
                                &&& e.display.adapter_index == displays@[idx@[j] as int].adapter_index
                                &&& e.display.output_index == displays@[idx@[j] as int].output_index
                                &&& e.shm_name@ == dxgi_shm_name(
                                    displays@[idx@[j] as int].adapter_index as int,
                                    displays@[idx@[j] as int].output_index as int,
                                )
                            },
                {
                    self.register_capture(displays[idx[k]].duplicate());
                }
                self.begin_recording(mode);
                Ok(idx)
            },
            Err(e) => Err(e),
        }
    }

    /// Marks the recording as running in the given mode. Called once every
    /// selected display's capture thread is up.
    pub fn begin_recording(&mut self, mode: RecordingMode)
        ensures
            final(self).recording,
            final(self).mode == Some(mode),
            final(self).captures == old(self).captures,
    {
        self.recording = true;
        self.mode = Some(mode);
    }

    /// Stops the recording: drops every registered capture (their threads
    /// are stopped outside) and clears the flags.
    pub fn stop_recording(&mut self)
        ensures
            final(self).captures@.len() == 0,
            !final(self).recording,
            final(self).mode is None,
    {
        self.captures = Vec::new();
        self.recording = false;
        self.mode = None;
    }

    /// The state reported to clients: the recording flag and mode, and one
    /// entry per registered capture, indexed in registration order.
    pub fn get_state(&self) -> (st: ServiceState)
        requires
            self.captures@.len() <= u32::MAX,
        ensures
            st.recording == self.recording,
            st.mode == self.mode,
            st.displays@.len() == self.captures@.len(),
            forall|i: int|
                0 <= i < self.captures@.len() ==> {
                    let d = #[trigger] st.displays@[i];
                    &&& d.index == i
                    &&& d.name@ == self.captures@[i].display.name@
                    &&& d.width == self.captures@[i].display.width
                    &&& d.height == self.captures@[i].display.height
                    &&& d.primary == self.captures@[i].display.is_primary
                    &&& d.shm_name@ == self.captures@[i].shm_name@
                },
    {
        let mut displays: Vec<DisplayState> = Vec::new();
        let n = self.captures.len();
        for i in 0..n
            invariant
                n == self.captures@.len(),
                n <= u32::MAX,
                displays@.len() == i,
                forall|k: int|
                    0 <= k < i ==> {
                        let d = #[trigger] displays@[k];
                        &&& d.index == k
                        &&& d.name@ == self.captures@[k].display.name@
                        &&& d.width == self.captures@[k].display.width
                        &&& d.height == self.captures@[k].display.height
                        &&& d.primary == self.captures@[k].display.is_primary
                        &&& d.shm_name@ == self.captures@[k].shm_name@
                    },
        {
            displays.push(
                DisplayState {
                    index: i as u32,
                    name: self.captures[i].display.name.clone(),
                    width: self.captures[i].display.width,
                    height: self.captures[i].display.height,
                    primary: self.captures[i].display.is_primary,
                    shm_name: self.captures[i].shm_name.clone(),
                },
            );
        }
        ServiceState { recording: self.recording, mode: self.mode, displays }
    }
}

/// The mathematical value of a reported capture.
pub struct DisplayStateView {
    pub index: u32,
    pub name: Seq<char>,
    pub width: u32,
    pub height: u32,
    pub primary: bool,
    pub shm_name: Seq<char>,
}

/// The mathematical value of the reported service state.
pub struct ServiceStateView {
    pub recording: bool,
    pub mode: Option<RecordingMode>,
    pub displays: Seq<DisplayStateView>,
}

/// The mathematical value of a service command.
pub enum ServiceCommandView {
    StartRecording { mode: RecordingMode },
    StopRecording,
    QueryState,
}

/// The mathematical value of a service reply.
pub enum ResponseView {
    Okay,
    State(ServiceStateView),
    Error(Seq<char>),
}

impl View for DisplayState {
    type V = DisplayStateView;

    open spec fn view(&self) -> DisplayStateView {
        DisplayStateView {
            index: self.index,
            name: self.name@,
            width: self.width,
            height: self.height,
            primary: self.primary,
            shm_name: self.shm_name@,
        }
    }
}

impl View for ServiceState {
    type V = ServiceStateView;

    open spec fn view(&self) -> ServiceStateView {
        ServiceStateView {
            recording: self.recording,
            mode: self.mode,
            displays: Seq::new(self.displays@.len(), |i: int| self.displays@[i]@),
        }
    }
}

impl View for Command {
    type V = ServiceCommandView;

    open spec fn view(&self) -> ServiceCommandView {
        match self {
            Command::StartRecording { mode } => ServiceCommandView::StartRecording { mode: *mode },
            Command::StopRecording => ServiceCommandView::StopRecording,
            Command::QueryState => ServiceCommandView::QueryState,
        }
    }
}

impl View for Response {
    type V = ResponseView;

    open spec fn view(&self) -> ResponseView {
        match self {
            Response::Okay => ResponseView::Okay,
            Response::State(st) => ResponseView::State(st@),
            Response::Error(e) => ResponseView::Error(e@),
        }
    }
}

} // verus!

//! The driver's control-plane state: the monitor table, the process-wide
//! recording state, and the handling of every command the pipe server can
//! receive. Platform work (monitor departure and arrival calls, thread
//! joins, the pipe itself) is returned to the caller as plain directives.

use crate::monitor::{
    clone_monitor, copy_u32s, modes_eq, monitor_views, monitors_have_duplicates, Monitor,
    MonitorView,
};
use crate::recording::RecordingSession;
use vstd::prelude::*;

verus! {

/// One entry of the driver's monitor table: the monitor's description and
/// whether the monitor object is currently attached to the adapter.
pub struct MonitorObject {
    pub attached: bool,
    pub data: Monitor,
}

/// The mathematical value of a table entry.
pub struct EntryView {
    pub attached: bool,
    pub data: MonitorView,
}

impl View for MonitorObject {
    type V = EntryView;

    open spec fn view(&self) -> EntryView {
        EntryView { attached: self.attached, data: self.data@ }
    }
}

/// The mathematical values of a monitor table.
pub open spec fn entry_views(t: Seq<MonitorObject>) -> Seq<EntryView> {
    Seq::new(t.len(), |i: int| t[i]@)
}

/// The monitor descriptions a table holds, in order.
pub open spec fn table_datas(t: Seq<EntryView>) -> Seq<MonitorView> {
    Seq::new(t.len(), |i: int| t[i].data)
}

/// Whether some requested monitor carries this id.
pub open spec fn id_in_views(id: u32, ms: Seq<MonitorView>) -> bool {
    exists|k: int| 0 <= k < ms.len() && ms[k].id == id
}

/// The first table index holding this id, from position `i` on.
pub open spec fn spec_find(t: Seq<EntryView>, id: u32, i: int) -> Option<int>
    decreases t.len() - i,
{
    if i < 0 || i >= t.len() {
        None
    } else if t[i].data.id == id {
        Some(i)
    } else {
        spec_find(t, id, i + 1)
    }
}

/// The entries kept by a reconcile: those whose id occurs in the request.
pub open spec fn spec_keep(t: Seq<EntryView>, req: Seq<MonitorView>) -> Seq<EntryView>
    decreases t.len(),
{
    if t.len() == 0 {
        Seq::empty()
    } else {
        let rest = spec_keep(t.drop_first(), req);
        if id_in_views(t[0].data.id, req) {
            seq![t[0]] + rest
        } else {
            rest
        }
    }
}

/// The monitors a reconcile departs while dropping entries: those removed
/// from the table that were attached.
pub open spec fn spec_keep_departed(t: Seq<EntryView>, req: Seq<MonitorView>) -> Seq<u32>
    decreases t.len(),
{
    if t.len() == 0 {
        Seq::empty()
    } else {
        let rest = spec_keep_departed(t.drop_first(), req);
        if !id_in_views(t[0].data.id, req) && t[0].attached {
            seq![t[0].data.id] + rest
        } else {
            rest
        }
    }
}

/// An updated monitor must be detached when its modes changed or it was
/// disabled: Windows only picks up such changes across a departure.
pub open spec fn spec_detach(e: EntryView, m: MonitorView) -> bool {
    e.data.modes != m.modes || !m.enabled
}

/// An updated monitor must arrive when it was just enabled, or is enabled
/// with changed modes, or is enabled but currently disconnected.
pub open spec fn spec_should_arrive(e: EntryView, m: MonitorView) -> bool {
    (!e.data.enabled && m.enabled) || (m.enabled && e.data.modes != m.modes) || (m.enabled
        && !e.attached)
}

/// The update phase of a reconcile, processing requested monitors from
/// position `k` on: known monitors are updated in place (detaching when
/// needed), new ones are appended detached. Returns the final table, the
/// departures and the arrivals of this phase, in order.
pub open spec fn spec_apply_req(t: Seq<EntryView>, req: Seq<MonitorView>, k: int) -> (
    Seq<EntryView>,
    Seq<u32>,
    Seq<u32>,
)
    decreases req.len() - k,
{
    if k < 0 || k >= req.len() {
        (t, Seq::empty(), Seq::empty())
    } else {
        let m = req[k];
        match spec_find(t, m.id, 0) {
            Some(i) => {
                let e = t[i];
                let dep: Seq<u32> = if spec_detach(e, m) && e.attached {
                    seq![m.id]
                } else {
                    Seq::empty()
                };
                let arr: Seq<u32> = if spec_should_arrive(e, m) {
                    seq![m.id]
                } else {
                    Seq::empty()
                };
                let e2 = EntryView { attached: e.attached && !spec_detach(e, m), data: m };
                let r = spec_apply_req(t.update(i, e2), req, k + 1);
                (r.0, dep + r.1, arr + r.2)
            },
            None => {
                let arr: Seq<u32> = if m.enabled {
                    seq![m.id]
                } else {
                    Seq::empty()
                };
                let r = spec_apply_req(t.push(EntryView { attached: false, data: m }), req, k + 1);
                (r.0, r.1, arr + r.2)
            },
        }
    }
}

/// A full reconcile: drop entries missing from the request, then update or
/// append each requested monitor. Departures happen in two waves -- removed
/// entries first, then updated ones -- matching the order the platform calls
/// are made in.
pub open spec fn spec_notify(t: Seq<EntryView>, req: Seq<MonitorView>) -> (
    Seq<EntryView>,
    Seq<u32>,
    Seq<u32>,
) {
    let kept = spec_keep(t, req);
    let r = spec_apply_req(kept, req, 0);
    (r.0, spec_keep_departed(t, req) + r.1, r.2)
}

/// The platform calls a reconcile asks for: monitors to depart (detach) and
/// monitors to arrive, in call order.
pub struct NotifyOutcome {
    pub departed: Vec<u32>,
    pub arrived: Vec<u32>,
}

fn monitor_id_present(ms: &Vec<Monitor>, id: u32) -> (r: bool)
    ensures
        r == id_in_views(id, monitor_views(ms@)),
{
    let n = ms.len();
    for k in 0..n
        invariant
            n == ms@.len(),
            forall|j: int| 0 <= j < k ==> monitor_views(ms@)[j].id != id,
    {
        if ms[k].id == id {
            proof {
                assert(monitor_views(ms@)[k as int].id == id);
            }
            return true;
        }
        proof {
            assert(monitor_views(ms@)[k as int].id == ms@[k as int]@.id);
        }
    }
    false
}

fn find_index(t: &Vec<MonitorObject>, id: u32) -> (r: Option<usize>)
    ensures
        match r {
            Some(i) => spec_find(entry_views(t@), id, 0) == Some(i as int) && i < t@.len(),
            None => spec_find(entry_views(t@), id, 0) is None,
        },
{
    find_index_from(t, id, 0)
}

fn find_index_from(t: &Vec<MonitorObject>, id: u32, i: usize) -> (r: Option<usize>)
    requires
        i <= t@.len(),
    ensures
        match r {
            Some(j) => spec_find(entry_views(t@), id, i as int) == Some(j as int) && j < t@.len(),
            None => spec_find(entry_views(t@), id, i as int) is None,
        },
    decreases t@.len() - i,
{
    if i < t.len() {
        if t[i].data.id == id {
            proof {
                assert(entry_views(t@)[i as int].data.id == id);
            }
            Some(i)
        } else {
            proof {
                assert(entry_views(t@)[i as int].data.id == t@[i as int]@.data.id);
            }
            find_index_from(t, id, i + 1)
        }
    } else {
        None
    }
}

/// Reconciles the monitor table with a requested monitor set.
///
/// A request that breaks the uniqueness rules (duplicate id, duplicate size
/// within a monitor, duplicate refresh rate within a mode) leaves the table
/// untouched and asks for no platform calls. Otherwise entries missing from
/// the request are dropped (departing if attached), known monitors are
/// updated in place (departing when their modes changed or they were
/// disabled), new monitors are appended, and every monitor that needs
/// (re)attachment is listed as an arrival.
pub fn notify(table: Vec<MonitorObject>, monitors: Vec<Monitor>) -> (r: (
    Vec<MonitorObject>,
    NotifyOutcome,
))
    ensures
        monitors_have_duplicates(monitors@) ==> r.0 == table && r.1.departed@.len() == 0
            && r.1.arrived@.len() == 0,
        !monitors_have_duplicates(monitors@) ==> {
            let out = spec_notify(entry_views(table@), monitor_views(monitors@));
            entry_views(r.0@) == out.0 && r.1.departed@ == out.1 && r.1.arrived@ == out.2
        },
{
    if crate::monitor::has_duplicates(monitors.as_slice()) {
        return (table, NotifyOutcome { departed: Vec::new(), arrived: Vec::new() });
    }
    let ghost t0 = entry_views(table@);
    let ghost req0 = monitor_views(monitors@);

    // Keep phase: drop entries whose id is not requested.
    let mut kept: Vec<MonitorObject> = Vec::new();
    let mut departed: Vec<u32> = Vec::new();
    let mut t = table;
    while t.len() > 0
        invariant
            entry_views(kept@) + spec_keep(entry_views(t@), req0) == spec_keep(t0, req0),
            departed@ + spec_keep_departed(entry_views(t@), req0) == spec_keep_departed(t0, req0),
            req0 == monitor_views(monitors@),
        decreases t@.len(),
    {
        let ghost tv = entry_views(t@);
        let e = t.remove(0);
        proof {
            assert(entry_views(t@) =~= tv.drop_first());
            assert(tv[0] == e@);
        }
        if monitor_id_present(&monitors, e.data.id) {
            let ghost kv = entry_views(kept@);
            kept.push(e);
            proof {
                assert(entry_views(kept@) =~= kv + seq![e@]);
                assert((kv + seq![e@]) + spec_keep(entry_views(t@), req0) =~= kv + (seq![e@]
                    + spec_keep(entry_views(t@), req0)));
            }
        } else {
            if e.attached {
                let ghost dv = departed@;
                departed.push(e.data.id);
                proof {
                    assert(departed@ =~= dv + seq![e@.data.id]);
                    assert((dv + seq![e@.data.id]) + spec_keep_departed(entry_views(t@), req0)
                        =~= dv + (seq![e@.data.id] + spec_keep_departed(entry_views(t@), req0)));
                }
            }
        }
    }
    proof {
        assert(entry_views(t@).len() == 0);
        assert(entry_views(t@) =~= Seq::<EntryView>::empty());
        assert(spec_keep(entry_views(t@), req0) =~= Seq::<EntryView>::empty());
        assert(spec_keep_departed(entry_views(t@), req0) =~= Seq::<u32>::empty());
        assert(entry_views(kept@) + Seq::<EntryView>::empty() =~= entry_views(kept@));
        assert(departed@ + Seq::<u32>::empty() =~= departed@);
    }
    let ghost kept0 = entry_views(kept@);
    let ghost keep_dep0 = departed@;

    // Update phase: fold each requested monitor into the table.
    let ghost goal = spec_apply_req(kept0, req0, 0);
    let mut arrived: Vec<u32> = Vec::new();
    let mut dep_upd: Vec<u32> = Vec::new();
    let mut monitors = monitors;
    let mut k: usize = 0;
    let total: usize = monitors.len();
    let ghost n_req = req0.len();
    while monitors.len() > 0
        invariant
            k + monitors@.len() == n_req,
            n_req == req0.len(),
            n_req == total as int,
            forall|j: int| 0 <= j < monitors@.len() ==> #[trigger] monitors@[j]@ == req0[k + j],
            goal == spec_apply_req(kept0, req0, 0),
            goal.0 == spec_apply_req(entry_views(kept@), req0, k as int).0,
            goal.1 == dep_upd@ + spec_apply_req(entry_views(kept@), req0, k as int).1,
            goal.2 == arrived@ + spec_apply_req(entry_views(kept@), req0, k as int).2,
        decreases monitors@.len(),
    {
        let ghost mv = monitor_views(monitors@);
        let m = monitors.remove(0);
        proof {
            assert(m@ == req0[k as int]);
            assert(forall|j: int| 0 <= j < monitors@.len() ==> #[trigger] monitors@[j]@ == req0[k
                + 1 + j]);
        }
        let ghost cur = entry_views(kept@);
        match find_index(&kept, m.id) {
            Some(i) => {
                let ghost e = cur[i as int];
                let changed = !modes_eq(&kept[i].data.modes, &m.modes);
                proof {
                    crate::monitor::lemma_modes_eq_views(kept@[i as int].data, m);
                    assert(changed == (e.data.modes != m@.modes));
                }
                let detach = changed || !m.enabled;
                let should_arrive = (!kept[i].data.enabled && m.enabled) || (m.enabled && changed)
                    || (m.enabled && !kept[i].attached);
                proof {
                    assert(detach == spec_detach(e, m@));
                    assert(should_arrive == spec_should_arrive(e, m@));
                }
                if detach && kept[i].attached {
                    dep_upd.push(m.id);
                }
                if should_arrive {
                    arrived.push(m.id);
                }
                let new_attached = kept[i].attached && !detach;
                kept.set(i, MonitorObject { attached: new_attached, data: m });
                proof {
                    let e2 = EntryView { attached: e.attached && !spec_detach(e, m@), data: m@ };
                    assert(entry_views(kept@) =~= cur.update(i as int, e2));
                }
            },
            None => {
                if m.enabled {
                    arrived.push(m.id);
                }
                kept.push(MonitorObject { attached: false, data: m });
                proof {
                    assert(entry_views(kept@) =~= cur.push(
                        EntryView { attached: false, data: m@ },
                    ));
                }
            },
        }
        k = k + 1;
    }
    proof {
        assert(k == n_req);
        assert(spec_apply_req(entry_views(kept@), req0, k as int).0 == entry_views(kept@));
        assert(dep_upd@ + spec_apply_req(entry_views(kept@), req0, k as int).1 =~= dep_upd@);
        assert(arrived@ + spec_apply_req(entry_views(kept@), req0, k as int).2 =~= arrived@);
    }
    let mut departed = departed;
    let ghost dep_all = departed@;
    let mut dep_upd = dep_upd;
    departed.append(&mut dep_upd);
    proof {
        assert(departed@ == keep_dep0 + goal.1);
    }
    (kept, NotifyOutcome { departed, arrived })
}

/// The table left after removing entries with one id, and the departures
/// that removal makes (in table order).
pub open spec fn spec_remove_one(t: Seq<EntryView>, id: u32) -> (Seq<EntryView>, Seq<u32>)
    decreases t.len(),
{
    if t.len() == 0 {
        (Seq::empty(), Seq::empty())
    } else {
        let r = spec_remove_one(t.drop_first(), id);
        if t[0].data.id == id {
            if t[0].attached {
                (r.0, seq![id] + r.1)
            } else {
                (r.0, r.1)
            }
        } else {
            (seq![t[0]] + r.0, r.1)
        }
    }
}

/// The table and departures after removing each listed id in turn.
pub open spec fn spec_remove(t: Seq<EntryView>, ids: Seq<u32>, k: int) -> (Seq<EntryView>, Seq<u32>)
    decreases ids.len() - k,
{
    if k < 0 || k >= ids.len() {
        (t, Seq::empty())
    } else {
        let one = spec_remove_one(t, ids[k]);
        let rest = spec_remove(one.0, ids, k + 1);
        (rest.0, one.1 + rest.1)
    }
}

/// The ids of all attached entries, in table order.
pub open spec fn spec_attached_ids(t: Seq<EntryView>) -> Seq<u32>
    decreases t.len(),
{
    if t.len() == 0 {
        Seq::empty()
    } else {
        let rest = spec_attached_ids(t.drop_first());
        if t[0].attached {
            seq![t[0].data.id] + rest
        } else {
            rest
        }
    }
}

fn remove_one(table: Vec<MonitorObject>, id: u32) -> (r: (Vec<MonitorObject>, Vec<u32>))
    ensures
        entry_views(r.0@) == spec_remove_one(entry_views(table@), id).0,
        r.1@ == spec_remove_one(entry_views(table@), id).1,
{
    let ghost t0 = entry_views(table@);
    let mut kept: Vec<MonitorObject> = Vec::new();
    let mut departed: Vec<u32> = Vec::new();
    let mut t = table;
    while t.len() > 0
        invariant
            entry_views(kept@) + spec_remove_one(entry_views(t@), id).0 == spec_remove_one(
                t0,
                id,
            ).0,
            departed@ + spec_remove_one(entry_views(t@), id).1 == spec_remove_one(t0, id).1,
        decreases t@.len(),
    {
        let ghost tv = entry_views(t@);
        let e = t.remove(0);
        proof {
            assert(entry_views(t@) =~= tv.drop_first());
            assert(tv[0] == e@);
        }
        if e.data.id == id {
            if e.attached {
                let ghost dv = departed@;
                departed.push(id);
                proof {
                    assert(departed@ =~= dv + seq![id]);
                    assert((dv + seq![id]) + spec_remove_one(entry_views(t@), id).1 =~= dv + (
                    seq![id] + spec_remove_one(entry_views(t@), id).1));
                }
            }
        } else {
            let ghost kv = entry_views(kept@);
            kept.push(e);
            proof {
                assert(entry_views(kept@) =~= kv + seq![e@]);
                assert((kv + seq![e@]) + spec_remove_one(entry_views(t@), id).0 =~= kv + (seq![e@]
                    + spec_remove_one(entry_views(t@), id).0));
            }
        }
    }
    proof {
        assert(entry_views(t@) =~= Seq::<EntryView>::empty());
        assert(entry_views(kept@) + spec_remove_one(entry_views(t@), id).0 =~= entry_views(kept@));
        assert(departed@ + spec_remove_one(entry_views(t@), id).1 =~= departed@);
    }
    (kept, departed)
}

/// Removes the named monitors from the table; each removed entry that was
/// attached is listed as a departure, ids processed in order.
pub fn remove(table: Vec<MonitorObject>, ids: &Vec<u32>) -> (r: (Vec<MonitorObject>, Vec<u32>))
    ensures
        entry_views(r.0@) == spec_remove(entry_views(table@), ids@, 0).0,
        r.1@ == spec_remove(entry_views(table@), ids@, 0).1,
{
    let ghost t0 = entry_views(table@);
    let ghost goal = spec_remove(t0, ids@, 0);
    let mut t = table;
    let mut departed: Vec<u32> = Vec::new();
    let n = ids.len();
    let mut k: usize = 0;
    while k < n
        invariant
            k <= n,
            n == ids@.len(),
            goal == spec_remove(t0, ids@, 0),
            goal.0 == spec_remove(entry_views(t@), ids@, k as int).0,
            goal.1 == departed@ + spec_remove(entry_views(t@), ids@, k as int).1,
        decreases n - k,
    {
        let ghost cur = entry_views(t@);
        let (t2, dep) = remove_one(t, ids[k]);
        t = t2;
        let ghost dv = departed@;
        let ghost depv = dep@;
        let mut dep = dep;
        departed.append(&mut dep);
        proof {
            assert(departed@ == dv + depv);
            assert((dv + depv) + spec_remove(entry_views(t@), ids@, k + 1).1 =~= dv + (depv
                + spec_remove(entry_views(t@), ids@, k + 1).1));
        }
        k = k + 1;
    }
    proof {
        assert(spec_remove(entry_views(t@), ids@, k as int).0 == entry_views(t@));
        assert(departed@ + spec_remove(entry_views(t@), ids@, k as int).1 =~= departed@);
    }
    (t, departed)
}

/// Empties the table; every attached entry is listed as a departure.
pub fn remove_all(table: Vec<MonitorObject>) -> (departed: Vec<u32>)
    ensures
        departed@ == spec_attached_ids(entry_views(table@)),
{
    let ghost t0 = entry_views(table@);
    let mut departed: Vec<u32> = Vec::new();
    let mut t = table;
    while t.len() > 0
        invariant
            departed@ + spec_attached_ids(entry_views(t@)) == spec_attached_ids(t0),
        decreases t@.len(),
    {
        let ghost tv = entry_views(t@);
        let e = t.remove(0);
        proof {
            assert(entry_views(t@) =~= tv.drop_first());
            assert(tv[0] == e@);
        }
        if e.attached {
            let ghost dv = departed@;
            departed.push(e.data.id);
            proof {
                assert(departed@ =~= dv + seq![e@.data.id]);
                assert((dv + seq![e@.data.id]) + spec_attached_ids(entry_views(t@)) =~= dv + (
                seq![e@.data.id] + spec_attached_ids(entry_views(t@))));
            }
        }
    }
    proof {
        assert(entry_views(t@) =~= Seq::<EntryView>::empty());
        assert(departed@ + spec_attached_ids(entry_views(t@)) =~= departed@);
    }
    departed
}

/// The process-wide recording state: whether recording is active, which
/// monitors are selected (empty means all), and the running session, if a
/// file is being written.
pub struct RecordingState {
    pub active: bool,
    pub monitor_ids: Vec<u32>,
    pub session: Option<RecordingSession>,
}

impl Default for RecordingState {
    /// Not recording, no monitors selected, no session.
    fn default() -> (s: Self)
        ensures
            !s.active,
            s.monitor_ids@.len() == 0,
            s.session is None,
    {
        RecordingState { active: false, monitor_ids: Vec::new(), session: None }
    }
}

impl RecordingState {
    /// A session only exists while recording is active. (Recording may be
    /// active without a session: shared-memory-only mode.)
    pub open spec fn inv(&self) -> bool {
        self.session is Some ==> self.active
    }

    /// Whether frames of this monitor should be recorded: recording is
    /// active and the monitor is selected (an empty selection means all).
    pub open spec fn spec_is_recording(&self, monitor_id: u32) -> bool {
        self.active && (self.monitor_ids@.len() == 0 || self.monitor_ids@.contains(monitor_id))
    }

    /// Checks whether this monitor's frames should be recorded.
    pub fn is_recording(&self, monitor_id: u32) -> (r: bool)
        ensures
            r == self.spec_is_recording(monitor_id),
    {
        if !self.active {
            return false;
        }
        if self.monitor_ids.len() == 0 {
            return true;
        }
        let n = self.monitor_ids.len();
        for k in 0..n
            invariant
                self.active,
                n == self.monitor_ids@.len(),
                forall|j: int| 0 <= j < k ==> self.monitor_ids@[j] != monitor_id,
        {
            if self.monitor_ids[k] == monitor_id {
                proof {
                    assert(self.spec_is_recording(monitor_id)) by {
                        assert(self.monitor_ids@[k as int] == monitor_id);
                        assert(self.monitor_ids@.contains(monitor_id));
                    }
                }
                return true;
            }
        }
        proof {
            assert(!self.monitor_ids@.contains(monitor_id));
        }
        false
    }

    /// The shared-memory region names of the monitors being recorded, in
    /// table order.
    pub fn shm_names(&self, table: &Vec<MonitorObject>) -> (names: Vec<String>)
        ensures
            Seq::new(names@.len(), |i: int| names@[i]@) == spec_shm_names(
                *self,
                entry_views(table@),
            ),
    {
        let ghost t0 = entry_views(table@);
        let mut names: Vec<String> = Vec::new();
        let n = table.len();
        let mut k: usize = 0;
        while k < n
            invariant
                k <= n,
                n == table@.len(),
                t0 == entry_views(table@),
                Seq::new(names@.len(), |i: int| names@[i]@) + spec_shm_names_from(
                    *self,
                    t0,
                    k as int,
                ) == spec_shm_names(*self, t0),
            decreases n - k,
        {
            let ghost nv = Seq::new(names@.len(), |i: int| names@[i]@);
            if self.is_recording(table[k].data.id) {
                names.push(crate::driver_shm::vdd_shm_name_string(table[k].data.id));
                proof {
                    assert(Seq::new(names@.len(), |i: int| names@[i]@) =~= nv
                        + seq![crate::driver_shm::vdd_shm_name(t0[k as int].data.id as int)]);
                    assert((nv + seq![crate::driver_shm::vdd_shm_name(t0[k as int].data.id as int)])
                        + spec_shm_names_from(*self, t0, k + 1) =~= nv + (
                    seq![crate::driver_shm::vdd_shm_name(t0[k as int].data.id as int)]
                        + spec_shm_names_from(*self, t0, k + 1)));
                }
            }
            k = k + 1;
        }
        proof {
            assert(Seq::new(names@.len(), |i: int| names@[i]@) + spec_shm_names_from(
                *self,
                t0,
                k as int,
            ) =~= Seq::new(names@.len(), |i: int| names@[i]@));
        }
        names
    }
}

/// The region names reported for the monitors being recorded, from table
/// position `k` on.
pub open spec fn spec_shm_names_from(st: RecordingState, t: Seq<EntryView>, k: int) -> Seq<
    Seq<char>,
>
    decreases t.len() - k,
{
    if k < 0 || k >= t.len() {
        Seq::empty()
    } else {
        let rest = spec_shm_names_from(st, t, k + 1);
        if st.spec_is_recording(t[k].data.id) {
            seq![crate::driver_shm::vdd_shm_name(t[k].data.id as int)] + rest
        } else {
            rest
        }
    }
}

/// The region names reported for the monitors being recorded, in table
/// order.
pub open spec fn spec_shm_names(st: RecordingState, t: Seq<EntryView>) -> Seq<Seq<char>> {
    spec_shm_names_from(st, t, 0)
}

/// The id list with later repeats dropped: each id keeps its first
/// occurrence, so the selection carries the same monitors, once each, in
/// request order.
pub open spec fn spec_dedup_ids(ids: Seq<u32>) -> Seq<u32>
    decreases ids.len(),
{
    if ids.len() == 0 {
        Seq::empty()
    } else {
        let rest = spec_dedup_ids(ids.drop_last());
        if ids.drop_last().contains(ids.last()) {
            rest
        } else {
            rest.push(ids.last())
        }
    }
}

/// Dropping repeats keeps membership and leaves no duplicate behind.
proof fn lemma_dedup_ids(ids: Seq<u32>)
    ensures
        forall|x: u32| spec_dedup_ids(ids).contains(x) <==> ids.contains(x),
        !crate::monitor::seq_has_duplicate(spec_dedup_ids(ids)),
    decreases ids.len(),
{
    if ids.len() > 0 {
        let pre = ids.drop_last();
        lemma_dedup_ids(pre);
        let d = spec_dedup_ids(ids);
        let dp = spec_dedup_ids(pre);
        assert forall|x: u32| d.contains(x) implies ids.contains(x) by {
            let j = choose|j: int| 0 <= j < d.len() && d[j] == x;
            if pre.contains(ids.last()) || j < dp.len() {
                assert(dp[j] == x);
                assert(dp.contains(x));
                assert(pre.contains(x));
                let i = choose|i: int| 0 <= i < pre.len() && pre[i] == x;
                assert(ids[i] == x);
            } else {
                assert(x == ids.last());
                assert(ids[ids.len() - 1] == x);
            }
        }
        assert forall|x: u32| ids.contains(x) implies d.contains(x) by {
            let i = choose|i: int| 0 <= i < ids.len() && ids[i] == x;
            if pre.contains(x) {
                assert(dp.contains(x));
                let j = choose|j: int| 0 <= j < dp.len() && dp[j] == x;
                assert(d[j] == x);
            } else {
                if i < pre.len() {
                    assert(pre[i] == x);
                    assert(pre.contains(x));
                }
                assert(x == ids.last());
                assert(!pre.contains(ids.last()));
                assert(d[d.len() - 1] == x);
            }
        }
        if !pre.contains(ids.last()) {
            assert(!dp.contains(ids.last()));
            assert forall|i: int, j: int| 0 <= i < j < d.len() implies d[i] != d[j] by {
                if j < dp.len() {
                    assert(d[i] == dp[i] && d[j] == dp[j]);
                    assert(!crate::monitor::seq_has_duplicate(dp));
                } else {
                    assert(d[j] == ids.last());
                    assert(d[i] == dp[i]);
                    assert(dp.contains(dp[i]));
                }
            }
        }
    }
}

fn vec_contains_u32(v: &Vec<u32>, x: u32) -> (r: bool)
    ensures
        r == v@.contains(x),
{
    let n = v.len();
    for k in 0..n
        invariant
            n == v@.len(),
            forall|j: int| 0 <= j < k ==> v@[j] != x,
    {
        if v[k] == x {
            proof {
                assert(v@[k as int] == x);
            }
            return true;
        }
    }
    proof {
        assert(!v@.contains(x));
    }
    false
}

/// Drops later repeats from an id list: the result holds each requested id
/// once, first occurrences in order.
pub fn dedup_ids(ids: Vec<u32>) -> (r: Vec<u32>)
    ensures
        r@ == spec_dedup_ids(ids@),
        forall|x: u32| r@.contains(x) <==> ids@.contains(x),
        !crate::monitor::seq_has_duplicate(r@),
{
    let mut out: Vec<u32> = Vec::new();
    let n = ids.len();
    for k in 0..n
        invariant
            n == ids@.len(),
            out@ == spec_dedup_ids(ids@.take(k as int)),
            forall|x: u32| out@.contains(x) <==> ids@.take(k as int).contains(x),
    {
        let ghost prefix = ids@.take(k as int);
        proof {
            assert(ids@.take(k + 1).drop_last() =~= prefix);
            assert(ids@.take(k + 1).last() == ids@[k as int]);
        }
        if !vec_contains_u32(&out, ids[k]) {
            let ghost out0 = out@;
            out.push(ids[k]);
            proof {
                assert forall|x: u32| out@.contains(x) implies ids@.take(k + 1).contains(x) by {
                    let j = choose|j: int| 0 <= j < out@.len() && out@[j] == x;
                    if j < out0.len() {
                        assert(out0[j] == x);
                        assert(out0.contains(x));
                        assert(prefix.contains(x));
                        let i = choose|i: int| 0 <= i < prefix.len() && prefix[i] == x;
                        assert(ids@.take(k + 1)[i] == x);
                    } else {
                        assert(x == ids@[k as int]);
                        assert(ids@.take(k + 1)[k as int] == x);
                    }
                }
                assert forall|x: u32| ids@.take(k + 1).contains(x) implies out@.contains(x) by {
                    let i = choose|i: int| 0 <= i < k + 1 && #[trigger] ids@.take(k + 1)[i] == x;
                    if i < k {
                        assert(prefix[i] == x);
                        assert(prefix.contains(x));
                        assert(out0.contains(x));
                        let j = choose|j: int| 0 <= j < out0.len() && out0[j] == x;
                        assert(out@[j] == x);
                    } else {
                        assert(out@[out@.len() - 1] == x);
                    }
                }
            }
        } else {
            proof {
                assert forall|x: u32| ids@.take(k + 1).contains(x) implies out@.contains(x) by {
                    let i = choose|i: int| 0 <= i < k + 1 && #[trigger] ids@.take(k + 1)[i] == x;
                    if i < k {
                        assert(prefix[i] == x);
                        assert(prefix.contains(x));
                    } else {
                        assert(x == ids@[k as int]);
                        assert(prefix.contains(x));
                    }
                }
                assert forall|x: u32| out@.contains(x) implies ids@.take(k + 1).contains(x) by {
                    assert(prefix.contains(x));
                    let i = choose|i: int| 0 <= i < prefix.len() && prefix[i] == x;
                    assert(ids@.take(k + 1)[i] == x);
                }
            }
        }
    }
    proof {
        assert(ids@.take(n as int) =~= ids@);
        lemma_dedup_ids(ids@);
    }
    out
}

/// Whether a change event goes to a subscriber: every connected client but
/// the one whose command caused the change.
pub fn should_forward_event(origin_client: usize, subscriber: usize) -> (r: bool)
    ensures
        r == (origin_client != subscriber),
{
    origin_client != subscriber
}

/// How a command is answered: most commands have their reply ready at once;
/// `StopRecording` must first join the encoder thread, and its reply is then
/// built with [`finish_reply`] from what the thread returned. Either way
/// every command gets exactly one reply.
pub enum ReplyOutcome {
    Reply(crate::protocol::ReplyCommand),
    ReplyAfterStop,
}

/// The outside work a command asks for: monitors to detach and attach, an
/// old recording session to stop and join, a receiver for a fresh encoder
/// thread, and an event to broadcast to the other connected clients.
pub struct CommandEffects {
    pub departed: Vec<u32>,
    pub arrived: Vec<u32>,
    pub old_session: Option<RecordingSession>,
    pub new_receiver: Option<crossbeam_channel::Receiver<crate::recording::Frame>>,
    pub session_config: Option<crate::recording::RecordingConfig>,
    pub event: Option<crate::protocol::EventCommand>,
}

/// The driver service's state: the monitor table and the process-wide
/// recording state.
pub struct DriverService {
    pub monitors: Vec<MonitorObject>,
    pub recording: RecordingState,
}

/// The reply sent once a stopped session's encoder thread has been joined:
/// the recording statistics, or all zeros when no encoder ever ran.
pub fn finish_reply(result: Option<crate::recording::RecordingResult>) -> (r:
    crate::protocol::ReplyCommand)
    ensures
        match result {
            Some(res) => r == (crate::protocol::ReplyCommand::RecordingFinished {
                path: res.path,
                frames: res.frames,
                duration_ms: res.duration_ms,
            }),
            None => r matches crate::protocol::ReplyCommand::RecordingFinished {
                path,
                frames,
                duration_ms,
            } && path@.len() == 0 && frames == 0 && duration_ms == 0,
        },
{
    match result {
        Some(res) => crate::protocol::ReplyCommand::RecordingFinished {
            path: res.path,
            frames: res.frames,
            duration_ms: res.duration_ms,
        },
        None => crate::protocol::ReplyCommand::RecordingFinished {
            path: String::new(),
            frames: 0,
            duration_ms: 0,
        },
    }
}

impl DriverService {
    /// A fresh service: no monitors, not recording.
    pub fn new() -> (s: Self)
        ensures
            s.monitors@.len() == 0,
            !s.recording.active,
            s.recording.monitor_ids@.len() == 0,
            s.recording.session is None,
            s.recording.inv(),
    {
        DriverService { monitors: Vec::new(), recording: RecordingState::default() }
    }

    /// Handles one control-plane command and produces exactly one reply
    /// outcome for it, the new state, and the outside work to perform.
    ///
    /// `Notify` reconciles the monitor table (a request with duplicates is
    /// rejected with an error and changes nothing) and broadcasts the new
    /// monitor set; `Remove` and `RemoveAll` detach monitors and broadcast;
    /// `StartRecording` hands any old session out for finalization before
    /// the reply, activates recording, and creates a session exactly when an
    /// output path was given (at the requested rate, or 5 frames per second
    /// when unset); `StopRecording` clears the state and defers its reply
    /// until the session is joined; the two queries report the state without
    /// changing it.
    pub fn apply_command(self, cmd: crate::protocol::ServerCommand) -> (r: (
        DriverService,
        ReplyOutcome,
        CommandEffects,
    ))
        requires
            self.recording.inv(),
        ensures
            r.0.recording.inv(),
            cmd matches crate::protocol::ServerCommand::Driver(
                crate::protocol::DriverCommand::Notify(ms),
            ) ==> {
                &&& r.0.recording == self.recording
                &&& (monitors_have_duplicates(ms@) ==> {
                    &&& entry_views(r.0.monitors@) == entry_views(self.monitors@)
                    &&& r.1 matches ReplyOutcome::Reply(rep) && rep is Error
                    &&& r.2.event is None
                    &&& r.2.departed@.len() == 0 && r.2.arrived@.len() == 0
                })
                &&& (!monitors_have_duplicates(ms@) ==> {
                    let out = spec_notify(entry_views(self.monitors@), monitor_views(ms@));
                    &&& entry_views(r.0.monitors@) == out.0
                    &&& r.2.departed@ == out.1
                    &&& r.2.arrived@ == out.2
                    &&& r.1 matches ReplyOutcome::Reply(rep) && rep is Okay
                    &&& r.2.event matches Some(ev) && ev@ == crate::protocol::EventView::Changed(
                        monitor_views(ms@),
                    )
                })
                &&& r.2.old_session is None
                &&& r.2.new_receiver is None
                &&& r.2.session_config is None
            },
            cmd matches crate::protocol::ServerCommand::Driver(
                crate::protocol::DriverCommand::Remove(ids),
            ) ==> {
                let out = spec_remove(entry_views(self.monitors@), ids@, 0);
                &&& r.0.recording == self.recording
                &&& entry_views(r.0.monitors@) == out.0
                &&& r.2.departed@ == out.1
                &&& r.2.arrived@.len() == 0
                &&& r.1 matches ReplyOutcome::Reply(rep) && rep is Okay
                &&& r.2.event matches Some(ev) && ev@ == crate::protocol::EventView::Changed(
                    table_datas(out.0),
                )
                &&& r.2.old_session is None
                &&& r.2.new_receiver is None
                &&& r.2.session_config is None
            },
            cmd matches crate::protocol::ServerCommand::Driver(
                crate::protocol::DriverCommand::RemoveAll,
            ) ==> {
                &&& r.0.recording == self.recording
                &&& r.0.monitors@.len() == 0
                &&& r.2.departed@ == spec_attached_ids(entry_views(self.monitors@))
                &&& r.2.arrived@.len() == 0
                &&& r.1 matches ReplyOutcome::Reply(rep) && rep is Okay
                &&& r.2.event matches Some(ev) && ev@ == crate::protocol::EventView::Changed(
                    Seq::empty(),
                )
                &&& r.2.old_session is None
                &&& r.2.new_receiver is None
                &&& r.2.session_config is None
            },
            cmd matches crate::protocol::ServerCommand::Driver(
                crate::protocol::DriverCommand::StartRecording { monitor_ids, output_path, fps },
            ) ==> {
                &&& r.0.monitors == self.monitors
                &&& r.0.recording.active
                &&& r.0.recording.monitor_ids@ == spec_dedup_ids(monitor_ids@)
                &&& (r.0.recording.session is Some <==> output_path is Some)
                &&& (r.0.recording.session matches Some(sess) ==> sess.frames_sent == 0
                    && sess.frames_dropped == 0 && sess.fps == (match fps {
                    Some(f) => f,
                    None => 5u32,
                }))
                &&& (r.2.new_receiver is Some <==> output_path is Some)
                &&& (r.2.session_config is Some <==> output_path is Some)
                &&& (output_path matches Some(p) ==> r.2.session_config matches Some(cfg)
                    && cfg.output_path == p && cfg.fps == (match fps {
                    Some(f) => f,
                    None => 5u32,
                }))
                &&& r.2.old_session == self.recording.session
                &&& r.1 matches ReplyOutcome::Reply(rep) && rep matches
                    crate::protocol::ReplyCommand::RecordingStarted {
                    active,
                    monitor_ids: reply_ids,
                    has_session,
                } && active && reply_ids@ == spec_dedup_ids(monitor_ids@) && has_session == (
                output_path is Some)
                &&& r.2.event is None
                &&& r.2.departed@.len() == 0 && r.2.arrived@.len() == 0
            },
            cmd matches crate::protocol::ServerCommand::Driver(
                crate::protocol::DriverCommand::StopRecording,
            ) ==> {
                &&& r.0.monitors == self.monitors
                &&& !r.0.recording.active
                &&& r.0.recording.monitor_ids@.len() == 0
                &&& r.0.recording.session is None
                &&& r.2.old_session == self.recording.session
                &&& r.1 is ReplyAfterStop
                &&& r.2.event is None
                &&& r.2.new_receiver is None
                &&& r.2.session_config is None
                &&& r.2.departed@.len() == 0 && r.2.arrived@.len() == 0
            },
            cmd matches crate::protocol::ServerCommand::Request(
                crate::protocol::RequestCommand::State,
            ) ==> {
                &&& r.0.monitors == self.monitors
                &&& r.0.recording == self.recording
                &&& r.1 matches ReplyOutcome::Reply(rep) && rep matches
                    crate::protocol::ReplyCommand::State(ms) && monitor_views(ms@) == table_datas(
                    entry_views(self.monitors@),
                )
                &&& r.2.event is None && r.2.old_session is None && r.2.new_receiver is None
                &&& r.2.session_config is None
                &&& r.2.departed@.len() == 0 && r.2.arrived@.len() == 0
            },
            cmd matches crate::protocol::ServerCommand::Request(
                crate::protocol::RequestCommand::RecordingState,
            ) ==> {
                &&& r.0.monitors == self.monitors
                &&& r.0.recording == self.recording
                &&& r.1 matches ReplyOutcome::Reply(rep) && rep matches
                    crate::protocol::ReplyCommand::RecordingState {
                    active,
                    monitor_ids,
                    shm_names,
                } && active == self.recording.active && monitor_ids@
                    == self.recording.monitor_ids@ && Seq::new(
                    shm_names@.len(),
                    |i: int| shm_names@[i]@,
                ) == spec_shm_names(self.recording, entry_views(self.monitors@))
                &&& r.2.event is None && r.2.old_session is None && r.2.new_receiver is None
                &&& r.2.session_config is None
                &&& r.2.departed@.len() == 0 && r.2.arrived@.len() == 0
            },
    {
        let DriverService { monitors: table, recording } = self;
        match cmd {
            crate::protocol::ServerCommand::Driver(crate::protocol::DriverCommand::Notify(ms)) => {
                if crate::monitor::has_duplicates(ms.as_slice()) {
                    let svc = DriverService { monitors: table, recording };
                    let mut msg = String::new();
                    msg.append("duplicate monitor data; update aborted");
                    return (
                        svc,
                        ReplyOutcome::Reply(crate::protocol::ReplyCommand::Error(msg)),
                        CommandEffects {
                            departed: Vec::new(),
                            arrived: Vec::new(),
                            old_session: None,
                            new_receiver: None,
                            session_config: None,
                            event: None,
                        },
                    );
                }
                let announced = crate::monitor::clone_monitors(&ms);
                let (table2, out) = notify(table, ms);
                let svc = DriverService { monitors: table2, recording };
                (
                    svc,
                    ReplyOutcome::Reply(crate::protocol::ReplyCommand::Okay),
                    CommandEffects {
                        departed: out.departed,
                        arrived: out.arrived,
                        old_session: None,
                        new_receiver: None,
                        session_config: None,
                        event: Some(crate::protocol::EventCommand::Changed(announced)),
                    },
                )
            },
            crate::protocol::ServerCommand::Driver(crate::protocol::DriverCommand::Remove(ids)) => {
                let (table2, departed) = remove(table, &ids);
                let datas = clone_table_datas(&table2);
                let svc = DriverService { monitors: table2, recording };
                (
                    svc,
                    ReplyOutcome::Reply(crate::protocol::ReplyCommand::Okay),
                    CommandEffects {
                        departed,
                        arrived: Vec::new(),
                        old_session: None,
                        new_receiver: None,
                        session_config: None,
                        event: Some(crate::protocol::EventCommand::Changed(datas)),
                    },
                )
            },
            crate::protocol::ServerCommand::Driver(crate::protocol::DriverCommand::RemoveAll) => {
                let departed = remove_all(table);
                let svc = DriverService { monitors: Vec::new(), recording };
                proof {
                    assert(monitor_views(Seq::<Monitor>::empty()) =~= Seq::<MonitorView>::empty());
                }
                (
                    svc,
                    ReplyOutcome::Reply(crate::protocol::ReplyCommand::Okay),
                    CommandEffects {
                        departed,
                        arrived: Vec::new(),
                        old_session: None,
                        new_receiver: None,
                        session_config: None,
                        event: Some(crate::protocol::EventCommand::Changed(Vec::new())),
                    },
                )
            },
            crate::protocol::ServerCommand::Driver(
                crate::protocol::DriverCommand::StartRecording { monitor_ids, output_path, fps },
            ) => {
                let old_session = recording.session;
                let fps_value = match fps {
                    Some(f) => f,
                    None => 5,
                };
                let (session, receiver, session_config) = match output_path {
                    Some(path) => {
                        let (sess, rx) = RecordingSession::start(fps_value);
                        (
                            Some(sess),
                            Some(rx),
                            Some(
                                crate::recording::RecordingConfig {
                                    output_path: path,
                                    fps: fps_value,
                                },
                            ),
                        )
                    },
                    None => (None, None, None),
                };
                let selected = dedup_ids(monitor_ids);
                let reply = crate::protocol::ReplyCommand::RecordingStarted {
                    active: true,
                    monitor_ids: copy_u32s(&selected),
                    has_session: match &session {
                        Some(_) => true,
                        None => false,
                    },
                };
                let recording2 = RecordingState { active: true, monitor_ids: selected, session };
                let svc = DriverService { monitors: table, recording: recording2 };
                (
                    svc,
                    ReplyOutcome::Reply(reply),
                    CommandEffects {
                        departed: Vec::new(),
                        arrived: Vec::new(),
                        old_session,
                        new_receiver: receiver,
                        session_config,
                        event: None,
                    },
                )
            },
            crate::protocol::ServerCommand::Driver(
                crate::protocol::DriverCommand::StopRecording,
            ) => {
                let old_session = recording.session;
                let recording2 = RecordingState {
                    active: false,
                    monitor_ids: Vec::new(),
                    session: None,
                };
                let svc = DriverService { monitors: table, recording: recording2 };
                (
                    svc,
                    ReplyOutcome::ReplyAfterStop,
                    CommandEffects {
                        departed: Vec::new(),
                        arrived: Vec::new(),
                        old_session,
                        new_receiver: None,
                        session_config: None,
                        event: None,
                    },
                )
            },
            crate::protocol::ServerCommand::Request(crate::protocol::RequestCommand::State) => {
                let datas = clone_table_datas(&table);
                let svc = DriverService { monitors: table, recording };
                (
                    svc,
                    ReplyOutcome::Reply(crate::protocol::ReplyCommand::State(datas)),
                    CommandEffects {
                        departed: Vec::new(),
                        arrived: Vec::new(),
                        old_session: None,
                        new_receiver: None,
                        session_config: None,
                        event: None,
                    },
                )
            },
            crate::protocol::ServerCommand::Request(
                crate::protocol::RequestCommand::RecordingState,
            ) => {
                let names = recording.shm_names(&table);
                let reply = crate::protocol::ReplyCommand::RecordingState {
                    active: recording.active,
                    monitor_ids: copy_u32s(&recording.monitor_ids),
                    shm_names: names,
                };
                let svc = DriverService { monitors: table, recording };
                (
                    svc,
                    ReplyOutcome::Reply(reply),
                    CommandEffects {
                        departed: Vec::new(),
                        arrived: Vec::new(),
                        old_session: None,
                        new_receiver: None,
                        session_config: None,
                        event: None,
                    },
                )
            },
        }
    }
}

fn clone_table_datas(table: &Vec<MonitorObject>) -> (datas: Vec<Monitor>)
    ensures
        monitor_views(datas@) == table_datas(entry_views(table@)),
{
    let mut datas: Vec<Monitor> = Vec::new();
    let n = table.len();
    for k in 0..n
        invariant
            n == table@.len(),
            datas@.len() == k,
            forall|j: int| 0 <= j < k ==> (#[trigger] datas@[j])@ == table@[j]@.data,
    {
        datas.push(clone_monitor(&table[k].data));
    }
    proof {
        assert(monitor_views(datas@) =~= table_datas(entry_views(table@)));
    }
    datas
}

/// What a command's mathematical value says about its shape: each view
/// constructor comes from exactly one command constructor, with the fields'
/// views lining up (and the uniqueness rules agreeing across the view).
proof fn lemma_command_shape(cmd: crate::protocol::ServerCommand)
    ensures
        forall|ms: Seq<MonitorView>|
            cmd@ == crate::protocol::CommandView::Notify(ms) ==> (cmd matches
                crate::protocol::ServerCommand::Driver(crate::protocol::DriverCommand::Notify(mv))
                && monitor_views(mv@) == ms && monitors_have_duplicates(mv@)
                == crate::monitor::monitor_views_have_duplicates(ms)),
        forall|ids: Seq<u32>|
            cmd@ == crate::protocol::CommandView::Remove(ids) ==> (cmd matches
                crate::protocol::ServerCommand::Driver(crate::protocol::DriverCommand::Remove(iv))
                && iv@ == ids),
        cmd@ is RemoveAll ==> cmd matches crate::protocol::ServerCommand::Driver(
            crate::protocol::DriverCommand::RemoveAll,
        ),
        forall|ids: Seq<u32>, path: Option<Seq<char>>, fps: Option<u32>|
            cmd@ == (crate::protocol::CommandView::StartRecording {
                monitor_ids: ids,
                output_path: path,
                fps,
            }) ==> (cmd matches crate::protocol::ServerCommand::Driver(
                crate::protocol::DriverCommand::StartRecording {
                    monitor_ids: iv,
                    output_path: pv,
                    fps: fv,
                },
            ) && iv@ == ids && fv == fps && (pv is Some <==> path is Some) && (pv matches Some(p)
                ==> path == Some(p@))),
        cmd@ is StopRecording ==> cmd matches crate::protocol::ServerCommand::Driver(
            crate::protocol::DriverCommand::StopRecording,
        ),
        cmd@ is State ==> cmd matches crate::protocol::ServerCommand::Request(
            crate::protocol::RequestCommand::State,
        ),
        cmd@ is RecordingState ==> cmd matches crate::protocol::ServerCommand::Request(
            crate::protocol::RequestCommand::RecordingState,
        ),
{
    match cmd {
        crate::protocol::ServerCommand::Driver(crate::protocol::DriverCommand::Notify(mv)) => {
            crate::monitor::lemma_duplicates_view(mv@);
        },
        _ => {},
    }
}

impl DriverService {
    /// Handles one framed message from a client: a frame that decodes to a
    /// command is applied, with exactly one reply outcome and the
    /// per-command guarantees below; a malformed or unrecognised frame is
    /// answered with an error reply and changes nothing.
    pub fn handle_frame(self, frame: Vec<u8>) -> (r: (
        DriverService,
        ReplyOutcome,
        CommandEffects,
    ))
        requires
            self.recording.inv(),
        ensures
            r.0.recording.inv(),
            crate::codec::spec_decode_command_frame(frame@) is None ==> {
                &&& r.0.monitors == self.monitors
                &&& r.0.recording == self.recording
                &&& r.1 matches ReplyOutcome::Reply(rep) && rep is Error
                &&& r.2.event is None && r.2.old_session is None && r.2.new_receiver is None
                &&& r.2.session_config is None
                &&& r.2.departed@.len() == 0 && r.2.arrived@.len() == 0
            },
            crate::codec::spec_decode_command_frame(frame@) matches Some(c) ==> {
                &&& (c matches crate::protocol::CommandView::Notify(ms) ==> {
                    &&& r.0.recording == self.recording
                    &&& r.2.old_session is None && r.2.new_receiver is None
                        && r.2.session_config is None
                    &&& (crate::monitor::monitor_views_have_duplicates(ms) ==> {
                        &&& entry_views(r.0.monitors@) == entry_views(self.monitors@)
                        &&& r.1 matches ReplyOutcome::Reply(rep) && rep is Error
                        &&& r.2.event is None
                        &&& r.2.departed@.len() == 0 && r.2.arrived@.len() == 0
                    })
                    &&& (!crate::monitor::monitor_views_have_duplicates(ms) ==> {
                        let out = spec_notify(entry_views(self.monitors@), ms);
                        &&& entry_views(r.0.monitors@) == out.0
                        &&& r.2.departed@ == out.1
                        &&& r.2.arrived@ == out.2
                        &&& r.1 matches ReplyOutcome::Reply(rep) && rep is Okay
                        &&& r.2.event matches Some(ev) && ev@
                            == crate::protocol::EventView::Changed(ms)
                    })
                })
                &&& (c matches crate::protocol::CommandView::Remove(ids) ==> {
                    let out = spec_remove(entry_views(self.monitors@), ids, 0);
                    &&& r.0.recording == self.recording
                    &&& entry_views(r.0.monitors@) == out.0
                    &&& r.2.departed@ == out.1 && r.2.arrived@.len() == 0
                    &&& r.1 matches ReplyOutcome::Reply(rep) && rep is Okay
                    &&& r.2.event matches Some(ev) && ev@ == crate::protocol::EventView::Changed(
                        table_datas(out.0),
                    )
                    &&& r.2.old_session is None && r.2.new_receiver is None
                        && r.2.session_config is None
                })
                &&& (c is RemoveAll ==> {
                    &&& r.0.recording == self.recording
                    &&& r.0.monitors@.len() == 0
                    &&& r.2.departed@ == spec_attached_ids(entry_views(self.monitors@))
                    &&& r.2.arrived@.len() == 0
                    &&& r.1 matches ReplyOutcome::Reply(rep) && rep is Okay
                    &&& r.2.event matches Some(ev) && ev@ == crate::protocol::EventView::Changed(
                        Seq::empty(),
                    )
                    &&& r.2.old_session is None && r.2.new_receiver is None
                        && r.2.session_config is None
                })
                &&& (c matches crate::protocol::CommandView::StartRecording {
                    monitor_ids,
                    output_path,
                    fps,
                } ==> {
                    &&& r.0.monitors == self.monitors
                    &&& r.0.recording.active
                    &&& r.0.recording.monitor_ids@ == spec_dedup_ids(monitor_ids)
                    &&& (r.0.recording.session is Some <==> output_path is Some)
                    &&& (r.2.new_receiver is Some <==> output_path is Some)
                    &&& (r.2.session_config is Some <==> output_path is Some)
                    &&& (output_path matches Some(p) ==> r.2.session_config matches Some(cfg)
                        && cfg.output_path@ == p && cfg.fps == (match fps {
                        Some(f) => f,
                        None => 5u32,
                    }))
                    &&& r.2.old_session == self.recording.session
                    &&& r.1 matches ReplyOutcome::Reply(rep) && rep matches
                        crate::protocol::ReplyCommand::RecordingStarted {
                        active,
                        monitor_ids: reply_ids,
                        has_session,
                    } && active && reply_ids@ == spec_dedup_ids(monitor_ids) && has_session == (
                    output_path is Some)
                    &&& r.2.event is None
                    &&& r.2.departed@.len() == 0 && r.2.arrived@.len() == 0
                })
                &&& (c is StopRecording ==> {
                    &&& r.0.monitors == self.monitors
                    &&& !r.0.recording.active
                    &&& r.0.recording.monitor_ids@.len() == 0
                    &&& r.0.recording.session is None
                    &&& r.2.old_session == self.recording.session
                    &&& r.1 is ReplyAfterStop
                    &&& r.2.event is None && r.2.new_receiver is None
                        && r.2.session_config is None
                    &&& r.2.departed@.len() == 0 && r.2.arrived@.len() == 0
                })
                &&& (c is State ==> {
                    &&& r.0.monitors == self.monitors
                    &&& r.0.recording == self.recording
                    &&& r.1 matches ReplyOutcome::Reply(rep) && rep matches
                        crate::protocol::ReplyCommand::State(ms) && monitor_views(ms@)
                        == table_datas(entry_views(self.monitors@))
                    &&& r.2.event is None && r.2.old_session is None && r.2.new_receiver is None
                        && r.2.session_config is None
                    &&& r.2.departed@.len() == 0 && r.2.arrived@.len() == 0
                })
                &&& (c is RecordingState ==> {
                    &&& r.0.monitors == self.monitors
                    &&& r.0.recording == self.recording
                    &&& r.1 matches ReplyOutcome::Reply(rep) && rep matches
                        crate::protocol::ReplyCommand::RecordingState {
                        active,
                        monitor_ids,
                        shm_names,
                    } && active == self.recording.active && monitor_ids@
                        == self.recording.monitor_ids@ && Seq::new(
                        shm_names@.len(),
                        |i: int| shm_names@[i]@,
                    ) == spec_shm_names(self.recording, entry_views(self.monitors@))
                    &&& r.2.event is None && r.2.old_session is None && r.2.new_receiver is None
                        && r.2.session_config is None
                    &&& r.2.departed@.len() == 0 && r.2.arrived@.len() == 0
                })
            },
    {
        match crate::codec::decode_command_frame(frame) {
            Some(cmd) => {
                proof {
                    lemma_command_shape(cmd);
                }
                self.apply_command(cmd)
            },
            None => {
                let mut msg = String::new();
                msg.append("invalid command");
                (
                    self,
                    ReplyOutcome::Reply(crate::protocol::ReplyCommand::Error(msg)),
                    CommandEffects {
                        departed: Vec::new(),
                        arrived: Vec::new(),
                        old_session: None,
                        new_receiver: None,
                        session_config: None,
                        event: None,
                    },
                )
            },
        }
    }
}

} // verus!

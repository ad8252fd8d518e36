//! Virtual-monitor descriptions and the uniqueness rules a monitor set must
//! obey before the driver accepts it.

use vstd::prelude::*;

verus! {

/// A display mode: fixed pixel dimensions together with the refresh rates
/// offered at that size.
#[derive(Debug, Clone, PartialEq)]
pub struct Mode {
    pub width: u32,
    pub height: u32,
    pub refresh_rates: Vec<u32>,
}

/// A virtual monitor: a driver-unique id, an optional human-readable name,
/// an enabled flag, and the modes it offers.
#[derive(Debug, Clone, PartialEq)]
pub struct Monitor {
    pub id: u32,
    pub name: Option<String>,
    pub enabled: bool,
    pub modes: Vec<Mode>,
}

/// One `(width, height, refresh_rate)` triple of a flattened mode list.
#[derive(Debug, Clone, Copy, PartialEq, Eq, Structural)]
pub struct ModeItem {
    pub width: u32,
    pub height: u32,
    pub refresh_rate: u32,
}

pub open spec fn seq_has_duplicate(s: Seq<u32>) -> bool {
    exists|i: int, j: int| 0 <= i < j < s.len() && s[i] == s[j]
}

pub open spec fn modes_have_duplicate_size(modes: Seq<Mode>) -> bool {
    exists|i: int, j: int|
        0 <= i < j < modes.len() && modes[i].width == modes[j].width && modes[i].height
            == modes[j].height
}

pub open spec fn monitor_ids_have_duplicate(ms: Seq<Monitor>) -> bool {
    exists|i: int, j: int| 0 <= i < j < ms.len() && ms[i].id == ms[j].id
}

/// A monitor set is rejected when it repeats a monitor id, repeats a
/// `(width, height)` pair within one monitor, or repeats a refresh rate
/// within one mode.
pub open spec fn monitors_have_duplicates(ms: Seq<Monitor>) -> bool {
    ||| monitor_ids_have_duplicate(ms)
    ||| exists|k: int| 0 <= k < ms.len() && modes_have_duplicate_size(ms[k].modes@)
    ||| exists|k: int, l: int|
        0 <= k < ms.len() && 0 <= l < ms[k].modes@.len() && seq_has_duplicate(
            ms[k].modes@[l].refresh_rates@,
        )
}

fn rates_have_duplicate(rates: &Vec<u32>) -> (dup: bool)
    ensures
        dup == seq_has_duplicate(rates@),
{
    let n = rates.len();
    for i in 0..n
        invariant
            n == rates@.len(),
            forall|p: int, q: int| 0 <= p < q < rates@.len() && p < i ==> rates@[p] != rates@[q],
    {
        for j in (i + 1)..n
            invariant
                i < n == rates@.len(),
                forall|p: int, q: int|
                    0 <= p < q < rates@.len() && p < i ==> rates@[p] != rates@[q],
                forall|q: int| i < q < j ==> rates@[i as int] != rates@[q],
        {
            if rates[i] == rates[j] {
                return true;
            }
        }
    }
    false
}

fn modes_have_duplicate(modes: &Vec<Mode>) -> (dup: bool)
    ensures
        dup == modes_have_duplicate_size(modes@),
{
    let n = modes.len();
    for i in 0..n
        invariant
            n == modes@.len(),
            forall|p: int, q: int|
                0 <= p < q < modes@.len() && p < i ==> !(modes@[p].width == modes@[q].width
                    && modes@[p].height == modes@[q].height),
    {
        for j in (i + 1)..n
            invariant
                i < n == modes@.len(),
                forall|p: int, q: int|
                    0 <= p < q < modes@.len() && p < i ==> !(modes@[p].width == modes@[q].width
                        && modes@[p].height == modes@[q].height),
                forall|q: int|
                    i < q < j ==> !(modes@[i as int].width == modes@[q].width
                        && modes@[i as int].height == modes@[q].height),
        {
            if modes[i].width == modes[j].width && modes[i].height == modes[j].height {
                return true;
            }
        }
    }
    false
}

/// Checks the uniqueness rules of a monitor set: monitor ids unique across
/// the set, `(width, height)` unique within each monitor, refresh rates
/// unique within each mode.
pub fn has_duplicates(monitors: &[Monitor]) -> (dup: bool)
    ensures
        dup == monitors_have_duplicates(monitors@),
{
    let n = monitors.len();
    for i in 0..n
        invariant
            n == monitors@.len(),
            forall|p: int, q: int|
                0 <= p < q < monitors@.len() && p < i ==> monitors@[p].id != monitors@[q].id,
            forall|k: int| 0 <= k < i ==> !modes_have_duplicate_size(monitors@[k].modes@),
            forall|k: int, l: int|
                0 <= k < i && 0 <= l < monitors@[k].modes@.len() ==> !seq_has_duplicate(
                    monitors@[k].modes@[l].refresh_rates@,
                ),
    {
        for j in (i + 1)..n
            invariant
                i < n == monitors@.len(),
                forall|q: int| i < q < j ==> monitors@[i as int].id != monitors@[q].id,
        {
            if monitors[i].id == monitors[j].id {
                return true;
            }
        }
        if modes_have_duplicate(&monitors[i].modes) {
            return true;
        }
        let m = monitors[i].modes.len();
        for l in 0..m
            invariant
                i < n == monitors@.len(),
                m == monitors@[i as int].modes@.len(),
                forall|l2: int| 0 <= l2 < l ==> !seq_has_duplicate(
                    monitors@[i as int].modes@[l2].refresh_rates@,
                ),
        {
            if rates_have_duplicate(&monitors[i].modes[l].refresh_rates) {
                return true;
            }
        }
    }
    false
}

/// Flattens a mode list to one item per `(width, height, refresh_rate)`
/// combination, in order.
pub open spec fn spec_flatten_modes(modes: Seq<Mode>) -> Seq<ModeItem>
    decreases modes.len(),
{
    if modes.len() == 0 {
        Seq::empty()
    } else {
        let m = modes[0];
        Seq::new(
            m.refresh_rates@.len(),
            |i: int|
                ModeItem {
                    width: m.width,
                    height: m.height,
                    refresh_rate: m.refresh_rates@[i],
                },
        ) + spec_flatten_modes(modes.drop_first())
    }
}

/// Mode lists that can be flattened into one item per
/// `(width, height, refresh_rate)` combination.
pub trait FlattenModes {
    fn flatten(&self) -> Vec<ModeItem>;
}

impl FlattenModes for Vec<Mode> {
    /// Takes a list of modes and creates a flattened list of every
    /// `(width, height, refresh_rate)` combination, in order.
    fn flatten(&self) -> (items: Vec<ModeItem>)
        ensures
            items@ == spec_flatten_modes(self@),
    {
        let mut items: Vec<ModeItem> = Vec::new();
        let n = self.len();
        for k in 0..n
            invariant
                n == self@.len(),
                items@ == spec_flatten_modes(self@.take(k as int)),
        {
            let m = self[k].refresh_rates.len();
            for l in 0..m
                invariant
                    k < n == self@.len(),
                    m == self@[k as int].refresh_rates@.len(),
                    items@ == spec_flatten_modes(self@.take(k as int)) + Seq::new(
                        l as nat,
                        |i: int|
                            ModeItem {
                                width: self@[k as int].width,
                                height: self@[k as int].height,
                                refresh_rate: self@[k as int].refresh_rates@[i],
                            },
                    ),
            {
                items.push(
                    ModeItem {
                        width: self[k].width,
                        height: self[k].height,
                        refresh_rate: self[k].refresh_rates[l],
                    },
                );
            }
            proof {
                lemma_flatten_modes_take_step(self@, k as int);
            }
        }
        proof {
            assert(self@.take(n as int) =~= self@);
        }
        items
    }
}

proof fn lemma_flatten_modes_take_step(modes: Seq<Mode>, k: int)
    requires
        0 <= k < modes.len(),
    ensures
        spec_flatten_modes(modes.take(k + 1)) =~= spec_flatten_modes(modes.take(k)) + Seq::new(
            modes[k].refresh_rates@.len(),
            |i: int|
                ModeItem {
                    width: modes[k].width,
                    height: modes[k].height,
                    refresh_rate: modes[k].refresh_rates@[i],
                },
        ),
    decreases k,
{
    if k == 0 {
        assert(modes.take(1).drop_first() =~= modes.take(0));
    } else {
        assert(modes.take(k + 1).drop_first() =~= modes.drop_first().take(k));
        assert(modes.take(k).drop_first() =~= modes.drop_first().take(k - 1));
        lemma_flatten_modes_take_step(modes.drop_first(), k - 1);
        assert(modes.drop_first().take(k - 1 + 1) =~= modes.drop_first().take(k));
        assert(modes.take(k + 1)[0] == modes[0]);
        assert(modes.take(k)[0] == modes[0]);
        assert(modes.drop_first()[k - 1] == modes[k]);
    }
}

/// The mathematical value of a display mode.
pub struct ModeView {
    pub width: u32,
    pub height: u32,
    pub refresh_rates: Seq<u32>,
}

/// The mathematical value of a monitor.
pub struct MonitorView {
    pub id: u32,
    pub name: Option<Seq<char>>,
    pub enabled: bool,
    pub modes: Seq<ModeView>,
}

impl View for Mode {
    type V = ModeView;

    open spec fn view(&self) -> ModeView {
        ModeView { width: self.width, height: self.height, refresh_rates: self.refresh_rates@ }
    }
}

impl View for Monitor {
    type V = MonitorView;

    open spec fn view(&self) -> MonitorView {
        MonitorView {
            id: self.id,
            name: match self.name {
                Some(n) => Some(n@),
                None => None,
            },
            enabled: self.enabled,
            modes: Seq::new(self.modes@.len(), |i: int| self.modes@[i]@),
        }
    }
}

/// The views of a list of monitors.
pub open spec fn monitor_views(ms: Seq<Monitor>) -> Seq<MonitorView> {
    Seq::new(ms.len(), |i: int| ms[i]@)
}

/// Deep equality of two mode lists: same sizes and refresh rates in the
/// same order.
pub open spec fn modes_seq_eq(a: Seq<Mode>, b: Seq<Mode>) -> bool {
    a.len() == b.len() && forall|k: int| 0 <= k < a.len() ==> #[trigger] a[k]@ == b[k]@
}

/// Compares two mode lists by value.
pub fn modes_eq(a: &Vec<Mode>, b: &Vec<Mode>) -> (r: bool)
    ensures
        r == modes_seq_eq(a@, b@),
{
    if a.len() != b.len() {
        return false;
    }
    let n = a.len();
    for i in 0..n
        invariant
            n == a@.len() == b@.len(),
            forall|k: int| 0 <= k < i ==> #[trigger] a@[k]@ == b@[k]@,
    {
        if a[i].width != b[i].width || a[i].height != b[i].height {
            proof {
                assert(a@[i as int]@ != b@[i as int]@);
            }
            return false;
        }
        if !rates_eq(&a[i].refresh_rates, &b[i].refresh_rates) {
            proof {
                assert(a@[i as int]@.refresh_rates != b@[i as int]@.refresh_rates);
            }
            return false;
        }
        proof {
            assert(a@[i as int]@ == b@[i as int]@);
        }
    }
    true
}

fn rates_eq(a: &Vec<u32>, b: &Vec<u32>) -> (r: bool)
    ensures
        r == (a@ == b@),
{
    if a.len() != b.len() {
        return false;
    }
    let n = a.len();
    for i in 0..n
        invariant
            n == a@.len() == b@.len(),
            forall|k: int| 0 <= k < i ==> a@[k] == b@[k],
    {
        if a[i] != b[i] {
            return false;
        }
    }
    proof {
        assert(a@ =~= b@);
    }
    true
}

/// Copies a list of numbers.
pub fn copy_u32s(v: &Vec<u32>) -> (r: Vec<u32>)
    ensures
        r@ == v@,
{
    let mut r: Vec<u32> = Vec::new();
    let n = v.len();
    for i in 0..n
        invariant
            n == v@.len(),
            r@ == v@.take(i as int),
    {
        r.push(v[i]);
        proof {
            assert(v@.take(i as int).push(v@[i as int]) =~= v@.take(i + 1));
        }
    }
    proof {
        assert(v@.take(n as int) =~= v@);
    }
    r
}

/// Copies a mode, keeping its value.
pub fn clone_mode(m: &Mode) -> (r: Mode)
    ensures
        r@ == m@,
{
    Mode { width: m.width, height: m.height, refresh_rates: copy_u32s(&m.refresh_rates) }
}

/// Copies a monitor, keeping its value.
pub fn clone_monitor(m: &Monitor) -> (r: Monitor)
    ensures
        r@ == m@,
{
    let name = match &m.name {
        Some(s) => Some(s.clone()),
        None => None,
    };
    let mut modes: Vec<Mode> = Vec::new();
    let n = m.modes.len();
    for i in 0..n
        invariant
            n == m.modes@.len(),
            modes@.len() == i,
            forall|k: int| 0 <= k < i ==> (#[trigger] modes@[k])@ == m.modes@[k]@,
    {
        modes.push(clone_mode(&m.modes[i]));
    }
    let r = Monitor { id: m.id, name, enabled: m.enabled, modes };
    proof {
        assert(r@.modes =~= m@.modes);
    }
    r
}

/// Copies a monitor list, keeping its values.
pub fn clone_monitors(v: &Vec<Monitor>) -> (r: Vec<Monitor>)
    ensures
        monitor_views(r@) == monitor_views(v@),
{
    let mut r: Vec<Monitor> = Vec::new();
    let n = v.len();
    for i in 0..n
        invariant
            n == v@.len(),
            r@.len() == i,
            forall|k: int| 0 <= k < i ==> (#[trigger] r@[k])@ == v@[k]@,
    {
        r.push(clone_monitor(&v[i]));
    }
    proof {
        assert(monitor_views(r@) =~= monitor_views(v@));
    }
    r
}

/// Two monitors offer the same modes exactly when the mathematical values of
/// their mode lists agree.
pub proof fn lemma_modes_eq_views(a: Monitor, b: Monitor)
    ensures
        modes_seq_eq(a.modes@, b.modes@) <==> a@.modes == b@.modes,
{
    if modes_seq_eq(a.modes@, b.modes@) {
        assert(a@.modes =~= b@.modes);
    }
    if a@.modes == b@.modes {
        assert(a@.modes.len() == a.modes@.len());
        assert(b@.modes.len() == b.modes@.len());
        assert forall|k: int| 0 <= k < a.modes@.len() implies #[trigger] a.modes@[k]@
            == b.modes@[k]@ by {
            assert(a@.modes[k] == a.modes@[k]@);
            assert(b@.modes[k] == b.modes@[k]@);
        }
    }
}

/// The uniqueness rules, stated over monitor values: same rules as
/// [`monitors_have_duplicates`], which only reads ids, sizes and refresh
/// rates -- all preserved by the view.
pub open spec fn monitor_views_have_duplicates(ms: Seq<MonitorView>) -> bool {
    ||| exists|i: int, j: int| 0 <= i < j < ms.len() && ms[i].id == ms[j].id
    ||| exists|k: int, i: int, j: int|
        0 <= k < ms.len() && 0 <= i < j < ms[k].modes.len() && ms[k].modes[i].width
            == ms[k].modes[j].width && ms[k].modes[i].height == ms[k].modes[j].height
    ||| exists|k: int, l: int, i: int, j: int|
        0 <= k < ms.len() && 0 <= l < ms[k].modes.len() && 0 <= i < j
            < ms[k].modes[l].refresh_rates.len() && ms[k].modes[l].refresh_rates[i]
            == ms[k].modes[l].refresh_rates[j]
}

/// The uniqueness rules read only what the view keeps, so they agree with
/// their view-level statement.
pub proof fn lemma_duplicates_view(ms: Seq<Monitor>)
    ensures
        monitors_have_duplicates(ms) == monitor_views_have_duplicates(monitor_views(ms)),
{
    let vs = monitor_views(ms);
    if monitors_have_duplicates(ms) {
        if monitor_ids_have_duplicate(ms) {
            let (i, j) = choose|i: int, j: int| 0 <= i < j < ms.len() && ms[i].id == ms[j].id;
            assert(vs[i].id == vs[j].id);
        } else if exists|k: int| 0 <= k < ms.len() && modes_have_duplicate_size(ms[k].modes@) {
            let k = choose|k: int| 0 <= k < ms.len() && modes_have_duplicate_size(ms[k].modes@);
            let (i, j) = choose|i: int, j: int|
                0 <= i < j < ms[k].modes@.len() && ms[k].modes@[i].width == ms[k].modes@[j].width
                    && ms[k].modes@[i].height == ms[k].modes@[j].height;
            assert(vs[k].modes[i].width == vs[k].modes[j].width
                && vs[k].modes[i].height == vs[k].modes[j].height);
        } else {
            let (k, l) = choose|k: int, l: int|
                0 <= k < ms.len() && 0 <= l < ms[k].modes@.len() && seq_has_duplicate(
                    ms[k].modes@[l].refresh_rates@,
                );
            let (i, j) = choose|i: int, j: int|
                0 <= i < j < ms[k].modes@[l].refresh_rates@.len() && ms[k].modes@[l].refresh_rates@[i]
                    == ms[k].modes@[l].refresh_rates@[j];
            assert(vs[k].modes[l].refresh_rates[i] == vs[k].modes[l].refresh_rates[j]);
        }
    }
    if monitor_views_have_duplicates(vs) {
        if exists|i: int, j: int| 0 <= i < j < vs.len() && vs[i].id == vs[j].id {
            let (i, j) = choose|i: int, j: int| 0 <= i < j < vs.len() && vs[i].id == vs[j].id;
            assert(ms[i].id == ms[j].id);
        } else if exists|k: int, i: int, j: int|
            0 <= k < vs.len() && 0 <= i < j < vs[k].modes.len() && vs[k].modes[i].width
                == vs[k].modes[j].width && vs[k].modes[i].height == vs[k].modes[j].height {
            let (k, i, j) = choose|k: int, i: int, j: int|
                0 <= k < vs.len() && 0 <= i < j < vs[k].modes.len() && vs[k].modes[i].width
                    == vs[k].modes[j].width && vs[k].modes[i].height == vs[k].modes[j].height;
            assert(ms[k].modes@[i].width == ms[k].modes@[j].width
                && ms[k].modes@[i].height == ms[k].modes@[j].height);
            assert(modes_have_duplicate_size(ms[k].modes@));
        } else {
            let (k, l, i, j) = choose|k: int, l: int, i: int, j: int|
                0 <= k < vs.len() && 0 <= l < vs[k].modes.len() && 0 <= i < j
                    < vs[k].modes[l].refresh_rates.len() && vs[k].modes[l].refresh_rates[i]
                    == vs[k].modes[l].refresh_rates[j];
            assert(ms[k].modes@[l].refresh_rates@[i] == ms[k].modes@[l].refresh_rates@[j]);
            assert(seq_has_duplicate(ms[k].modes@[l].refresh_rates@));
        }
    }
}

} // verus!

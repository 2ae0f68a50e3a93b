//! The registry of open input devices, and the bookkeeping of one grab or
//! release round over all of them.
use vstd::prelude::*;

verus! {

/// Size of the worker pool that issues the per-device grab requests.
pub const GRAB_WORKERS: usize = 4;

/// An open input device: its path and its OS handle.
#[derive(Debug)]
pub struct Device {
    pub path: String,
    pub fd: i32,
}

/// The open input devices, one entry per path.
#[derive(Debug)]
pub struct DeviceRegistry {
    pub devices: Vec<Device>,
}

pub open spec fn unique_paths(s: Seq<(Seq<char>, i32)>) -> bool {
    forall|i: int, j: int|
        0 <= i < s.len() && 0 <= j < s.len() && i != j ==> #[trigger] s[i].0 != #[trigger] s[j].0
}

impl DeviceRegistry {
    /// The entries, as (path, handle) pairs, in registration order.
    pub open spec fn entries(&self) -> Seq<(Seq<char>, i32)> {
        entries_of(self.devices@)
    }

    pub open spec fn wf(&self) -> bool {
        unique_paths(self.entries())
    }

    pub fn new() -> (r: Self)
        ensures
            r.wf(),
            r.entries() == Seq::<(Seq<char>, i32)>::empty(),
    {
        DeviceRegistry { devices: Vec::new() }
    }

    pub fn len(&self) -> (r: usize)
        ensures
            r == self.entries().len(),
    {
        self.devices.len()
    }

    /// The handles of all devices, in registration order.
    pub fn handles(&self) -> (r: Vec<i32>)
        ensures
            r@.len() == self.entries().len(),
            forall|i: int| 0 <= i < r@.len() ==> r@[i] == #[trigger] self.entries()[i].1,
    {
        let mut r: Vec<i32> = Vec::new();
        let mut i: usize = 0;
        while i < self.devices.len()
            invariant
                i <= self.devices@.len(),
                r@.len() == i,
                forall|k: int| 0 <= k < i ==> r@[k] == #[trigger] self.entries()[k].1,
            decreases self.devices@.len() - i,
        {
            r.push(self.devices[i].fd);
            i = i + 1;
        }
        r
    }
}

/// Registers the device at `path`; a path already present gets the new
/// handle in place.
pub fn add_device(registry: &mut DeviceRegistry, path: String, fd: i32)
    requires
        old(registry).wf(),
    ensures
        final(registry).wf(),
        forall|i: int|
            0 <= i < old(registry).entries().len() && old(registry).entries()[i].0 == path@
                ==> final(registry).entries() == old(registry).entries().update(i, (path@, fd)),
        (forall|i: int|
            0 <= i < old(registry).entries().len() ==> old(registry).entries()[i].0 != path@)
            ==> final(registry).entries() == old(registry).entries().push((path@, fd)),
{
    let ghost before = registry.entries();
    let mut i: usize = 0;
    while i < registry.devices.len() && registry.devices[i].path != path
        invariant
            i <= registry.devices@.len(),
            registry.entries() == before,
            forall|k: int| 0 <= k < i ==> (#[trigger] before[k]).0 != path@,
        decreases registry.devices@.len() - i,
    {
        i = i + 1;
    }
    if i < registry.devices.len() {
        assert(before[i as int].0 == path@);
        assert forall|k: int| 0 <= k < before.len() && before[k].0 == path@ implies k == i by {
            if k != i {
                assert(before[k].0 != before[i as int].0);
            }
        }
        let ghost p = path@;
        registry.devices.set(i, Device { path, fd });
        assert(registry.entries() =~= before.update(i as int, (p, fd)));
        assert forall|a: int, b: int|
            0 <= a < before.len() && 0 <= b < before.len() && a != b implies
            #[trigger] registry.entries()[a].0 != #[trigger] registry.entries()[b].0 by {
            if a != i as int && b != i as int {
                assert(before[a].0 != before[b].0);
            }
        }
    } else {
        let ghost p = path@;
        registry.devices.push(Device { path, fd });
        assert(registry.entries() =~= before.push((p, fd)));
        assert forall|a: int, b: int|
            0 <= a < registry.entries().len() && 0 <= b < registry.entries().len() && a != b implies
            #[trigger] registry.entries()[a].0 != #[trigger] registry.entries()[b].0 by {
            if a < before.len() && b < before.len() {
                assert(before[a].0 != before[b].0);
            }
        }
    }
}

pub open spec fn other_handle(fd: i32) -> spec_fn((Seq<char>, i32)) -> bool {
    |e: (Seq<char>, i32)| e.1 != fd
}

pub open spec fn entry(d: Device) -> (Seq<char>, i32) {
    (d.path@, d.fd)
}

pub open spec fn entries_of(s: Seq<Device>) -> Seq<(Seq<char>, i32)> {
    s.map_values(|d: Device| entry(d))
}

/// Drops every device whose handle is `fd`; the rest keep their order.
pub fn remove_device(registry: &mut DeviceRegistry, fd: i32)
    requires
        old(registry).wf(),
    ensures
        final(registry).wf(),
        final(registry).entries() == old(registry).entries().filter(other_handle(fd)),
{
    let ghost before = registry.entries();
    let mut kept: Vec<Device> = Vec::new();
    let mut i: usize = 0;
    while i < registry.devices.len()
        invariant
            i <= registry.devices@.len(),
            registry.entries() == before,
            unique_paths(before),
            entries_of(kept@) == before.take(i as int).filter(other_handle(fd)),
            unique_paths(entries_of(kept@)),
            forall|j: int|
                0 <= j < kept@.len() ==> exists|k: int|
                    0 <= k < i && #[trigger] entry(kept@[j]) == before[k],
        decreases registry.devices@.len() - i,
    {
        let d = Device { path: registry.devices[i].path.clone(), fd: registry.devices[i].fd };
        assert(entry(d) == before[i as int]);
        proof {
            let t = before.take(i + 1);
            assert(t.drop_last() =~= before.take(i as int));
            assert(t.last() == before[i as int]);
            assert(t.len() > 0);
            reveal(Seq::filter);
            if d.fd != fd {
                assert(t.filter(other_handle(fd)) == before.take(i as int).filter(other_handle(fd)).push(
                    before[i as int],
                ));
            } else {
                assert(t.filter(other_handle(fd)) == before.take(i as int).filter(other_handle(fd)));
            }
        }
        if d.fd != fd {
            let ghost old_kept = kept@;
            kept.push(d);
            proof {
                let m = entries_of(kept@);
                let om = entries_of(old_kept);
                assert(m =~= om.push(entry(d)));
                assert(m == before.take(i + 1).filter(other_handle(fd)));
                assert forall|a: int, b: int|
                    0 <= a < m.len() && 0 <= b < m.len() && a != b implies #[trigger] m[a].0
                    != #[trigger] m[b].0 by {
                    if a < om.len() && b < om.len() {
                        assert(om[a].0 != om[b].0);
                    } else if a < om.len() {
                        assert(entry(old_kept[a]) == m[a]);
                        let k = choose|k: int| 0 <= k < i && #[trigger] entry(old_kept[a]) == before[k];
                        assert(before[k].0 != before[i as int].0);
                    } else {
                        assert(entry(old_kept[b]) == m[b]);
                        let k = choose|k: int| 0 <= k < i && #[trigger] entry(old_kept[b]) == before[k];
                        assert(before[k].0 != before[i as int].0);
                    }
                }
                assert forall|j: int| 0 <= j < kept@.len() implies exists|k: int|
                    0 <= k < i + 1 && #[trigger] entry(kept@[j]) == before[k] by {
                    if j < old_kept.len() {
                        assert(kept@[j] == old_kept[j]);
                        let k = choose|k: int| 0 <= k < i && #[trigger] entry(old_kept[j]) == before[k];
                        assert(entry(kept@[j]) == before[k]);
                    } else {
                        assert(entry(kept@[j]) == before[i as int]);
                    }
                }
            }
        }
        i = i + 1;
    }
    proof {
        assert(before.take(i as int) =~= before);
    }
    registry.devices = kept;
}

/// The outcomes after a device reports: a device's first report stands,
/// and no other device's outcome changes.
pub open spec fn spec_record(o: Seq<Option<bool>>, i: int, ok: bool) -> Seq<Option<bool>> {
    if 0 <= i < o.len() && o[i] is None {
        o.update(i, Some(ok))
    } else {
        o
    }
}

/// The outcomes after `reports`, in order, as (device index, success).
pub open spec fn apply_reports(o: Seq<Option<bool>>, reports: Seq<(int, bool)>) -> Seq<Option<bool>>
    decreases reports.len(),
{
    if reports.len() == 0 {
        o
    } else {
        let prev = apply_reports(o, reports.drop_last());
        spec_record(prev, reports.last().0, reports.last().1)
    }
}

/// One grab or release round: a request per registered device, and the
/// outcome that each request reported.
#[derive(Debug)]
pub struct GrabRound {
    pub enable: bool,
    pub handles: Vec<i32>,
    pub outcomes: Vec<Option<bool>>,
}

impl GrabRound {
    pub open spec fn wf(&self) -> bool {
        self.handles@.len() == self.outcomes@.len()
    }

    /// A round over every device of `registry`, none reported yet.
    pub fn new(registry: &DeviceRegistry, enable: bool) -> (r: Self)
        ensures
            r.wf(),
            r.enable == enable,
            r.handles@.len() == registry.entries().len(),
            forall|i: int| 0 <= i < r.handles@.len() ==> r.handles@[i] == #[trigger] registry.entries()[i].1,
            forall|i: int| 0 <= i < r.outcomes@.len() ==> #[trigger] r.outcomes@[i] is None,
    {
        let handles = registry.handles();
        let mut outcomes: Vec<Option<bool>> = Vec::new();
        let mut i: usize = 0;
        while i < handles.len()
            invariant
                i <= handles@.len(),
                outcomes@.len() == i,
                forall|k: int| 0 <= k < i ==> #[trigger] outcomes@[k] is None,
            decreases handles@.len() - i,
        {
            outcomes.push(None);
            i = i + 1;
        }
        GrabRound { enable, handles, outcomes }
    }

    /// Device `i` reports; only its own outcome can change.
    pub fn record(&mut self, i: usize, ok: bool)
        requires
            old(self).wf(),
        ensures
            final(self).wf(),
            final(self).enable == old(self).enable,
            final(self).handles@ == old(self).handles@,
            final(self).outcomes@ == spec_record(old(self).outcomes@, i as int, ok),
    {
        if i < self.outcomes.len() && self.outcomes[i].is_none() {
            self.outcomes.set(i, Some(ok));
        }
    }

    /// Every device has reported.
    pub fn is_complete(&self) -> (r: bool)
        ensures
            r == forall|i: int| 0 <= i < self.outcomes@.len() ==> #[trigger] self.outcomes@[i] is Some,
    {
        let mut i: usize = 0;
        while i < self.outcomes.len()
            invariant
                i <= self.outcomes@.len(),
                forall|k: int| 0 <= k < i ==> #[trigger] self.outcomes@[k] is Some,
            decreases self.outcomes@.len() - i,
        {
            if self.outcomes[i].is_none() {
                return false;
            }
            i = i + 1;
        }
        true
    }

    /// Indices of the devices whose request failed, in increasing order.
    pub fn failures(&self) -> (r: Vec<usize>)
        ensures
            forall|a: int, b: int| 0 <= a < b < r@.len() ==> r@[a] < r@[b],
            forall|k: usize| #[trigger] r@.contains(k) <==> (k < self.outcomes@.len() && self.outcomes@[k as int] == Some(false)),
    {
        let mut r: Vec<usize> = Vec::new();
        let mut i: usize = 0;
        while i < self.outcomes.len()
            invariant
                i <= self.outcomes@.len(),
                forall|a: int, b: int| 0 <= a < b < r@.len() ==> r@[a] < r@[b],
                forall|a: int| 0 <= a < r@.len() ==> r@[a] < i,
                forall|k: usize| #[trigger] r@.contains(k) <==> (k < i && self.outcomes@[k as int] == Some(false)),
            decreases self.outcomes@.len() - i,
        {
            let ghost before = r@;
            let failed = match self.outcomes[i] {
                Some(false) => true,
                _ => false,
            };
            if failed {
                r.push(i);
                assert forall|k: usize| #[trigger] r@.contains(k) <==> (k < i + 1 && self.outcomes@[k as int] == Some(false)) by {
                    if k == i {
                        assert(r@[before.len() as int] == k);
                    }
                    if r@.contains(k) && k != i {
                        let j = choose|j: int| 0 <= j < r@.len() && r@[j] == k;
                        assert(j < before.len());
                        assert(before[j] == k);
                        assert(before.contains(k));
                    }
                    if k < i && self.outcomes@[k as int] == Some(false) {
                        assert(before.contains(k));
                        let j = choose|j: int| 0 <= j < before.len() && before[j] == k;
                        assert(r@[j] == k);
                    }
                }
            } else {
                assert forall|k: usize| #[trigger] r@.contains(k) <==> (k < i + 1 && self.outcomes@[k as int] == Some(false)) by {
                    if r@.contains(k) {
                        let j = choose|j: int| 0 <= j < r@.len() && r@[j] == k;
                        assert(r@[j] < i);
                    }
                }
            }
            i = i + 1;
        }
        r
    }
}

/// Devices are independent failure domains: whatever the order of the
/// reports and however many fail, every device that reported has an
/// outcome, and a device's outcome is a failure only if that device itself
/// reported one.
pub proof fn lemma_grab_round_independent(o: Seq<Option<bool>>, reports: Seq<(int, bool)>)
    ensures
        apply_reports(o, reports).len() == o.len(),
        forall|j: int|
            0 <= j < o.len() && (exists|k: int| 0 <= k < reports.len() && (#[trigger] reports[k]).0 == j)
                ==> (#[trigger] apply_reports(o, reports)[j]) is Some,
        forall|j: int|
            0 <= j < o.len() && #[trigger] apply_reports(o, reports)[j] == Some(false) ==> (o[j] == Some(false)
                || exists|k: int| 0 <= k < reports.len() && #[trigger] reports[k] == (j, false)),
    decreases reports.len(),
{
    if reports.len() > 0 {
        let rest = reports.drop_last();
        lemma_grab_round_independent(o, rest);
        let prev = apply_reports(o, rest);
        let cur = apply_reports(o, reports);
        assert forall|j: int|
            0 <= j < o.len() && (exists|k: int| 0 <= k < reports.len() && (#[trigger] reports[k]).0 == j)
                implies (#[trigger] apply_reports(o, reports)[j]) is Some by {
            let k = choose|k: int| 0 <= k < reports.len() && (#[trigger] reports[k]).0 == j;
            if k < rest.len() {
                assert(rest[k].0 == j);
            }
        }
        assert forall|j: int|
            0 <= j < o.len() && #[trigger] apply_reports(o, reports)[j] == Some(false) implies (o[j] == Some(false)
                || exists|k: int| 0 <= k < reports.len() && #[trigger] reports[k] == (j, false)) by {
            if prev[j] == Some(false) {
                if o[j] != Some(false) {
                    let k = choose|k: int| 0 <= k < rest.len() && #[trigger] rest[k] == (j, false);
                    assert(reports[k] == (j, false));
                }
            } else {
                assert(reports[reports.len() - 1] == (j, false));
            }
        }
    }
}

/// Read and write access for a device opened with `flags`, given the
/// platform's values of the three access-mode flags.
pub fn open_access(flags: i32, rdonly: i32, wronly: i32, rdwr: i32) -> (r: (bool, bool))
    ensures
        r.0 == ((flags & rdonly) != 0 || (flags & rdwr) != 0),
        r.1 == ((flags & wronly) != 0 || (flags & rdwr) != 0),
{
    ((flags & rdonly) != 0 || (flags & rdwr) != 0, (flags & wronly) != 0 || (flags & rdwr) != 0)
}

} // verus!

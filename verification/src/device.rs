//! The catalog of attached devices: which ports are Bus Pirates, the first
//! device, the device that a pattern finds, and the order of the catalog.

use vstd::prelude::*;
use std::cmp::Ordering;
use crate::path::{
    lemma_pieces_total, lemma_pieces_transitive, path_precedes, pieces_of, str_path_precedes,
};
use crate::text::{contains, str_contains};

verus! {

/// The USB vendor identifier of the Bus Pirate.
pub const BUSPIRATE_VID: u16 = 0x04D8;

/// The USB product identifier of the Bus Pirate.
pub const BUSPIRATE_PID: u16 = 0xFB00;

/// How a serial port is attached, as far as the catalog looks at it.
#[derive(Debug, Clone, Copy, PartialEq, Eq, Structural)]
pub enum PortType {
    /// A USB device with these vendor and product identifiers.
    UsbPort { vid: u16, pid: u16 },
    /// Anything else.
    Other,
}

/// A serial port as the system lists it.
#[derive(Debug, Clone, PartialEq, Eq)]
pub struct PortInfo {
    pub device: String,
    pub hwid: String,
    pub port_type: PortType,
}

/// A device that the catalog holds: the path of its port and its hardware
/// identifier.
#[derive(Debug, Clone, PartialEq, Eq)]
pub struct Device {
    pub device: String,
    pub hwid: String,
}

/// The catalog: the devices in the order in which they were found, unless
/// sorted.
#[derive(Debug, PartialEq, Eq)]
pub struct Devices(Vec<Device>);

impl PortInfo {
    /// Whether the port is a Bus Pirate: a USB device with the Bus Pirate's
    /// vendor and product identifiers.
    pub open spec fn is_bus_pirate(self) -> bool {
        self.port_type == (PortType::UsbPort { vid: BUSPIRATE_VID, pid: BUSPIRATE_PID })
    }

    /// The catalog's record of the port.
    pub open spec fn as_device(self) -> Device {
        Device { device: self.device, hwid: self.hwid }
    }
}

/// Whether the port is a Bus Pirate.
pub fn is_bus_pirate(port: &PortInfo) -> (yes: bool)
    ensures
        yes == port.is_bus_pirate(),
{
    match port.port_type {
        PortType::UsbPort { vid, pid } => vid == BUSPIRATE_VID && pid == BUSPIRATE_PID,
        _ => false,
    }
}

/// The records of the Bus Pirates among `ports`, in the order of `ports`.
pub open spec fn detected(ports: Seq<PortInfo>) -> Seq<Device>
    decreases ports.len(),
{
    if ports.len() == 0 {
        Seq::empty()
    } else if ports.last().is_bus_pirate() {
        detected(ports.drop_last()).push(ports.last().as_device())
    } else {
        detected(ports.drop_last())
    }
}

impl Device {
    /// Whether `pat` stands in the device's path or in its hardware
    /// identifier.
    pub open spec fn matches(self, pat: Seq<char>) -> bool {
        contains(self.device@, pat) || contains(self.hwid@, pat)
    }

    /// Whether `pat` stands in the device's path or, failing that, in its
    /// hardware identifier.
    pub fn is_match(&self, pat: &str) -> (yes: bool)
        ensures
            yes == self.matches(pat@),
    {
        str_contains(self.device.as_str(), pat) || str_contains(self.hwid.as_str(), pat)
    }
}

impl View for Devices {
    type V = Seq<Device>;

    closed spec fn view(&self) -> Seq<Device> {
        self.0@
    }
}

/// Whether `at` is the first position in `devices` of a device that `pat`
/// matches.
pub open spec fn first_match(devices: Seq<Device>, pat: Seq<char>, at: int) -> bool {
    &&& 0 <= at < devices.len()
    &&& devices[at].matches(pat)
    &&& forall|k: int| 0 <= k < at ==> !devices[k].matches(pat)
}

impl Devices {
    /// The catalog of the Bus Pirates among the ports that the system
    /// lists, in the order of the list.
    pub fn detect(ports: &Vec<PortInfo>) -> (found: Devices)
        ensures
            found@ == detected(ports@),
    {
        let mut devices: Vec<Device> = Vec::new();
        let mut i: usize = 0;
        while i < ports.len()
            invariant
                i <= ports.len(),
                devices@ == detected(ports@.subrange(0, i as int)),
            decreases ports.len() - i,
        {
            let port = &ports[i];
            assert(ports@.subrange(0, i + 1).drop_last() =~= ports@.subrange(0, i as int));
            assert(ports@.subrange(0, i + 1).last() == ports@[i as int]);
            if is_bus_pirate(port) {
                devices.push(Device { device: port.device.clone(), hwid: port.hwid.clone() });
            }
            i += 1;
        }
        assert(ports@.subrange(0, i as int) =~= ports@);
        Devices(devices)
    }

    /// The catalog of exactly these devices, in this order.
    pub fn from_vec(devices: Vec<Device>) -> (catalog: Devices)
        ensures
            catalog@ == devices@,
    {
        Devices(devices)
    }

    /// The first device of the catalog, if it has one.
    pub fn default(&self) -> (first: Option<&Device>)
        ensures
            self@.len() == 0 ==> first.is_none(),
            self@.len() > 0 ==> first == Some(&self@[0]),
    {
        if self.0.len() > 0 {
            Some(&self.0[0])
        } else {
            None
        }
    }

    /// The first device of the catalog whose path or hardware identifier
    /// holds `pat`, if there is one.
    pub fn find(&self, pat: &str) -> (found: Option<&Device>)
        ensures
            match found {
                Some(device) => exists|at: int|
                    first_match(self@, pat@, at) && *device == self@[at],
                None => forall|k: int| 0 <= k < self@.len() ==> !self@[k].matches(pat@),
            },
    {
        let mut i: usize = 0;
        while i < self.0.len()
            invariant
                i <= self.0.len(),
                forall|k: int| 0 <= k < i ==> !self@[k].matches(pat@),
            decreases self.0.len() - i,
        {
            if self.0[i].is_match(pat) {
                assert(first_match(self@, pat@, i as int));
                return Some(&self.0[i]);
            }
            i += 1;
        }
        None
    }

    /// The device that `pat` finds where one is given, the first device of
    /// the catalog where none is.
    pub fn find_or_default(&self, pat: Option<&str>) -> (found: Option<&Device>)
        ensures
            match pat {
                Some(text) => match found {
                    Some(device) => exists|at: int|
                        first_match(self@, text@, at) && *device == self@[at],
                    None => forall|k: int| 0 <= k < self@.len() ==> !self@[k].matches(text@),
                },
                None => {
                    &&& self@.len() == 0 ==> found.is_none()
                    &&& self@.len() > 0 ==> found == Some(&self@[0])
                },
            },
    {
        match pat {
            Some(text) => self.find(text),
            None => self.default(),
        }
    }

    /// How many devices the catalog holds.
    pub fn len(&self) -> (len: usize)
        ensures
            len == self@.len(),
    {
        self.0.len()
    }

    /// The device at position `at`.
    pub fn get(&self, at: usize) -> (device: Option<&Device>)
        ensures
            at < self@.len() ==> device == Some(&self@[at as int]),
            at >= self@.len() ==> device.is_none(),
    {
        if at < self.0.len() {
            Some(&self.0[at])
        } else {
            None
        }
    }
}

/// A position in a vector, as a position in its view.
spec fn idx(i: usize) -> int {
    i as int
}

/// How many devices a sequence holds.
pub open spec fn count(devices: Seq<Device>) -> int {
    devices.len() as int
}

/// Whether `compare` may say of `a` and `b`, in this order, that `a` is the
/// greater.
pub open spec fn swaps<F: Fn(&Device, &Device) -> Ordering>(
    compare: F,
    a: Device,
    b: Device,
) -> bool {
    call_ensures(compare, (&a, &b), Ordering::Greater)
}

/// Whether `compare` may say of `a` and `b`, in this order, that `a` is the
/// less or that the two are equal.
pub open spec fn keeps<F: Fn(&Device, &Device) -> Ordering>(
    compare: F,
    a: Device,
    b: Device,
) -> bool {
    call_ensures(compare, (&a, &b), Ordering::Less) || call_ensures(
        compare,
        (&a, &b),
        Ordering::Equal,
    )
}

/// Whether `a` may stand directly before `b` by what `compare` says of the
/// two, asked in either order.
pub open spec fn in_order<F: Fn(&Device, &Device) -> Ordering>(
    compare: F,
    a: Device,
    b: Device,
) -> bool {
    keeps(compare, a, b) || swaps(compare, b, a)
}

/// Whether `after` holds the devices of `before` in another order, the one
/// at position `k` being the one that stood at position `from[k]`.
pub open spec fn rearranges(before: Seq<Device>, after: Seq<Device>, from: Seq<int>) -> bool {
    &&& after.len() == before.len()
    &&& from.len() == before.len()
    &&& forall|k: int| 0 <= k < from.len() ==> 0 <= #[trigger] from[k] < before.len()
    &&& forall|k: int| 0 <= k < from.len() ==> #[trigger] after[k] == before[from[k]]
    &&& forall|k: int, l: int|
        0 <= k < l < from.len() ==> #[trigger] from[k] != #[trigger] from[l]
}

/// Whether each of the first `upto` devices may stand directly before the
/// next by what `compare` says.
pub open spec fn neighbours_in_order<F: Fn(&Device, &Device) -> Ordering>(
    compare: F,
    devices: Seq<Device>,
    upto: int,
) -> bool {
    forall|p: int| 1 <= p < upto ==> in_order(compare, devices[p - 1], #[trigger] devices[p])
}

/// Whether, among the first `upto` devices, two have changed their order
/// only where `compare` said that the one that stood first is the greater.
pub open spec fn passed_only_greater<F: Fn(&Device, &Device) -> Ordering>(
    compare: F,
    devices: Seq<Device>,
    from: Seq<int>,
    upto: int,
) -> bool {
    forall|p: int, q: int|
        0 <= p < q < upto && from[p] > from[q] ==> swaps(
            compare,
            #[trigger] devices[q],
            #[trigger] devices[p],
        )
}

/// Whether `after` is `before` sorted by `compare`, stably: the same
/// devices, each able to stand before the next, and no two in another order
/// than before unless `compare` said so.
pub open spec fn sorted_by<F: Fn(&Device, &Device) -> Ordering>(
    compare: F,
    before: Seq<Device>,
    after: Seq<Device>,
) -> bool {
    &&& after.to_multiset() == before.to_multiset()
    &&& exists|from: Seq<int>|
        {
            &&& #[trigger] rearranges(before, after, from)
            &&& neighbours_in_order(compare, after, count(after))
            &&& passed_only_greater(compare, after, from, count(after))
        }
}

/// Taking the device at `i` out and putting it in at `j`, past the devices
/// that `compare` called greater, keeps what an insertion sort has built.
proof fn lemma_reinsert<F: Fn(&Device, &Device) -> Ordering>(
    compare: F,
    before: Seq<Device>,
    devices: Seq<Device>,
    from: Seq<int>,
    i: int,
    j: int,
)
    requires
        0 <= j <= i < devices.len(),
        rearranges(before, devices, from),
        forall|k: int| i <= k < from.len() ==> from[k] == k,
        forall|k: int| 0 <= k < i ==> from[k] < i,
        neighbours_in_order(compare, devices, i),
        passed_only_greater(compare, devices, from, i),
        forall|k: int| j <= k < i ==> swaps(compare, #[trigger] devices[k], devices[i]),
        j > 0 ==> keeps(compare, devices[j - 1], devices[i]),
    ensures
        ({
            let moved = devices.remove(i).insert(j, devices[i]);
            let origin = from.remove(i).insert(j, from[i]);
            &&& rearranges(before, moved, origin)
            &&& forall|k: int| i + 1 <= k < origin.len() ==> origin[k] == k
            &&& forall|k: int| 0 <= k < i + 1 ==> origin[k] < i + 1
            &&& neighbours_in_order(compare, moved, i + 1)
            &&& passed_only_greater(compare, moved, origin, i + 1)
            &&& moved.to_multiset() == devices.to_multiset()
            &&& j == i ==> moved == devices
        }),
{
    let moved = devices.remove(i).insert(j, devices[i]);
    let origin = from.remove(i).insert(j, from[i]);
    let n = count(devices);
    assert(moved.len() == n && origin.len() == n);
    assert forall|k: int| 0 <= k < n implies #[trigger] moved[k] == devices[if k < j {
        k
    } else if k == j {
        i
    } else if k <= i {
        k - 1
    } else {
        k
    }] && #[trigger] origin[k] == from[if k < j {
        k
    } else if k == j {
        i
    } else if k <= i {
        k - 1
    } else {
        k
    }] by {}
    assert(rearranges(before, moved, origin));
    assert forall|p: int| 1 <= p < i + 1 implies in_order(
        compare,
        moved[p - 1],
        #[trigger] moved[p],
    ) by {
        if p < j {
            assert(in_order(compare, devices[p - 1], devices[p]));
        } else if p == j {
        } else if p == j + 1 {
            assert(swaps(compare, devices[j], devices[i]));
        } else {
            assert(in_order(compare, devices[p - 2], devices[p - 1]));
        }
    }
    assert forall|p: int, q: int| 0 <= p < q < i + 1 && origin[p] > origin[q] implies swaps(
        compare,
        #[trigger] moved[q],
        #[trigger] moved[p],
    ) by {
        if p == j {
            assert(swaps(compare, devices[q - 1], devices[i]));
        } else if q == j {
            assert(from[p] < i);
        } else {
            let mp = if p < j {
                p
            } else {
                p - 1
            };
            let mq = if q < j {
                q
            } else {
                q - 1
            };
            assert(from[mp] > from[mq]);
            assert(swaps(compare, devices[mq], devices[mp]));
        }
    }
    if j == i {
        assert(moved =~= devices);
    }
    assert(moved.to_multiset() == devices.to_multiset()) by {
        broadcast use vstd::seq_lib::group_to_multiset_ensures;

        let taken = devices.remove(i);
        assert(moved.remove(j) =~= taken);
        assert(moved[j] == devices[i]);
        assert(taken.to_multiset() == devices.to_multiset().remove(devices[i]));
        assert(taken.to_multiset() == moved.to_multiset().remove(devices[i]));
        assert(devices.contains(devices[i]));
        assert(moved.contains(moved[j]));
        assert(moved.to_multiset() =~= devices.to_multiset());
    }
}

impl Devices {
    /// Sorts the catalog by `compare`, stably. A device moves towards the
    /// front only past devices of which `compare` said that they are
    /// greater than it.
    pub fn sort_by<F>(&mut self, compare: F) where F: Fn(&Device, &Device) -> Ordering
        requires
            forall|a: Device, b: Device| call_requires(compare, (&a, &b)),
        ensures
            sorted_by(compare, old(self)@, final(self)@),
    {
        let ghost before = self.0@;
        let ghost mut from: Seq<int> = Seq::new(self.0@.len(), |k: int| k);
        let n = self.0.len();
        if n < 2 {
            assert(rearranges(before, self.0@, from));
            return ;
        }
        let mut i: usize = 1;
        while i < n
            invariant
                1 <= i <= n,
                n == self.0@.len(),
                self.0@.to_multiset() == before.to_multiset(),
                rearranges(before, self.0@, from),
                forall|k: int| i <= k < from.len() ==> from[k] == k,
                forall|k: int| 0 <= k < i ==> from[k] < i,
                neighbours_in_order(compare, self.0@, idx(i)),
                passed_only_greater(compare, self.0@, from, idx(i)),
                forall|a: Device, b: Device| call_requires(compare, (&a, &b)),
            decreases n - i,
        {
            let mut j: usize = i;
            let mut scanning = true;
            while j > 0 && scanning
                invariant
                    j <= i < n,
                    n == self.0@.len(),
                    forall|k: int|
                        j <= k < i ==> swaps(compare, #[trigger] self.0@[k], self.0@[idx(i)]),
                    !scanning ==> j > 0 && keeps(compare, self.0@[j - 1], self.0@[idx(i)]),
                    forall|a: Device, b: Device| call_requires(compare, (&a, &b)),
                decreases j + (if scanning { 1int } else { 0int }),
            {
                match compare(&self.0[j - 1], &self.0[i]) {
                    Ordering::Greater => {
                        j -= 1;
                    },
                    _ => {
                        scanning = false;
                    },
                }
            }
            proof {
                lemma_reinsert(compare, before, self.0@, from, idx(i), idx(j));
                from = from.remove(idx(i)).insert(idx(j), from[idx(i)]);
            }
            if j < i {
                let device = self.0.remove(i);
                self.0.insert(j, device);
            }
            i += 1;
        }
        assert(rearranges(before, self.0@, from));
    }
}

/// How the paths of two devices compare: component by component, the
/// root directory before any name, names in the order of a dictionary
/// whose alphabet is the code points, and a path before every path that it
/// is the beginning of. Paths of the same components are equal.
pub open spec fn path_order(a: Device, b: Device) -> Ordering {
    if !path_precedes(a.device@, b.device@) {
        Ordering::Greater
    } else if !path_precedes(b.device@, a.device@) {
        Ordering::Less
    } else {
        Ordering::Equal
    }
}

/// How the paths of two devices compare.
pub fn compare_paths(a: &Device, b: &Device) -> (order: Ordering)
    ensures
        order == path_order(*a, *b),
{
    if !str_path_precedes(a.device.as_str(), b.device.as_str()) {
        Ordering::Greater
    } else if !str_path_precedes(b.device.as_str(), a.device.as_str()) {
        Ordering::Less
    } else {
        Ordering::Equal
    }
}

/// Whether `after` is `before` sorted by path, stably: the same devices,
/// each path preceding those behind it, and devices whose paths have the
/// same components in the order they had.
pub open spec fn sorted_by_path(before: Seq<Device>, after: Seq<Device>) -> bool {
    &&& after.to_multiset() == before.to_multiset()
    &&& exists|from: Seq<int>|
        {
            &&& #[trigger] rearranges(before, after, from)
            &&& forall|p: int, q: int|
                0 <= p < q < after.len() ==> path_precedes(
                    (#[trigger] after[p]).device@,
                    (#[trigger] after[q]).device@,
                )
            &&& forall|p: int, q: int|
                0 <= p < q < after.len() && path_precedes(after[q].device@, after[p].device@)
                    ==> #[trigger] from[p] < #[trigger] from[q]
        }
}

/// Where each device may stand before the next by their paths, each path
/// precedes every path behind it.
proof fn lemma_paths_ascend(devices: Seq<Device>, p: int, q: int)
    requires
        0 <= p < q < devices.len(),
        forall|k: int|
            1 <= k < devices.len() ==> path_precedes(
                devices[k - 1].device@,
                (#[trigger] devices[k]).device@,
            ),
    ensures
        path_precedes(devices[p].device@, devices[q].device@),
    decreases q - p,
{
    assert(path_precedes(devices[q - 1].device@, devices[q].device@));
    if p < q - 1 {
        lemma_paths_ascend(devices, p, q - 1);
        lemma_pieces_transitive(
            pieces_of(devices[p].device@),
            pieces_of(devices[q - 1].device@),
            pieces_of(devices[q].device@),
        );
    }
}

/// A catalog sorted by a comparison that is the order of the paths is
/// sorted by path.
proof fn lemma_sorted_by_path<F: Fn(&Device, &Device) -> Ordering>(
    compare: F,
    before: Seq<Device>,
    after: Seq<Device>,
)
    requires
        sorted_by(compare, before, after),
        forall|a: Device, b: Device, order: Ordering|
            call_ensures(compare, (&a, &b), order) ==> order == path_order(a, b),
    ensures
        sorted_by_path(before, after),
{
    let from = choose|from: Seq<int>|
        {
            &&& #[trigger] rearranges(before, after, from)
            &&& neighbours_in_order(compare, after, count(after))
            &&& passed_only_greater(compare, after, from, count(after))
        };
    assert forall|k: int| 1 <= k < after.len() implies path_precedes(
        after[k - 1].device@,
        (#[trigger] after[k]).device@,
    ) by {
        assert(in_order(compare, after[k - 1], after[k]));
        lemma_pieces_total(pieces_of(after[k - 1].device@), pieces_of(after[k].device@));
    }
    assert forall|p: int, q: int| 0 <= p < q < after.len() implies path_precedes(
        (#[trigger] after[p]).device@,
        (#[trigger] after[q]).device@,
    ) by {
        lemma_paths_ascend(after, p, q);
    }
    assert forall|p: int, q: int|
        0 <= p < q < after.len() && path_precedes(
            after[q].device@,
            after[p].device@,
        ) implies #[trigger] from[p] < #[trigger] from[q] by {
        if from[p] > from[q] {
            assert(swaps(compare, after[q], after[p]));
        }
    }
    assert(rearranges(before, after, from));
}

impl Devices {
    /// Sorts the catalog by path, in the order of the paths' components.
    /// The sort is stable: devices whose paths have the same components
    /// keep the order they had.
    pub fn sort(&mut self)
        ensures
            sorted_by_path(old(self)@, final(self)@),
    {
        let ghost before = self@;
        let by_path = |a: &Device, b: &Device| -> (order: Ordering)
            ensures
                order == path_order(*a, *b),
            { compare_paths(a, b) };
        self.sort_by(by_path);
        proof {
            lemma_sorted_by_path(by_path, before, self@);
        }
    }

    /// The devices of the catalog, in its order.
    pub fn into_vec(self) -> (devices: Vec<Device>)
        ensures
            devices@ == self@,
    {
        self.0
    }
}

/// Sorting does not change what the catalog holds, and so not whether a
/// pattern finds a device in it: a device is in the sorted catalog if and
/// only if it was in the catalog, and some device of the sorted catalog
/// matches a pattern if and only if some device of the catalog did.
pub proof fn sorting_keeps_the_devices(before: Seq<Device>, after: Seq<Device>, pat: Seq<char>)
    requires
        sorted_by_path(before, after),
    ensures
        after.len() == before.len(),
        forall|device: Device| before.contains(device) <==> after.contains(device),
        (exists|k: int| 0 <= k < before.len() && before[k].matches(pat)) <==> (exists|k: int|
            0 <= k < after.len() && after[k].matches(pat)),
{
    broadcast use vstd::seq_lib::group_to_multiset_ensures;

    assert forall|device: Device| before.contains(device) <==> after.contains(device) by {
        assert(before.contains(device) <==> before.to_multiset().count(device) > 0);
        assert(after.contains(device) <==> after.to_multiset().count(device) > 0);
    }
    if exists|k: int| 0 <= k < before.len() && before[k].matches(pat) {
        let k = choose|k: int| 0 <= k < before.len() && before[k].matches(pat);
        assert(before.contains(before[k]));
        assert(after.contains(before[k]));
        let l = choose|l: int| 0 <= l < after.len() && after[l] == before[k];
        assert(after[l].matches(pat));
    }
    if exists|k: int| 0 <= k < after.len() && after[k].matches(pat) {
        let k = choose|k: int| 0 <= k < after.len() && after[k].matches(pat);
        assert(after.contains(after[k]));
        assert(before.contains(after[k]));
        let l = choose|l: int| 0 <= l < before.len() && before[l] == after[k];
        assert(before[l].matches(pat));
    }
    assert(after.len() == before.len()) by {
        assert(after.to_multiset().len() == after.len());
        assert(before.to_multiset().len() == before.len());
    }
}

} // verus!

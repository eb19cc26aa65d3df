//! Device tracking: the registry scan, the notification hub's queue, and the
//! plug-event matcher.
//!
//! The host registry yields two lists: the currently connected serial ports,
//! and the name-arbiter descriptors that encode each port's vendor and
//! product identifiers at fixed character positions.  Their composition maps
//! connected ports to identifiers.  The hub serialises device-change events
//! into a queue an async stream consumes; the tracker pairs matching plug and
//! unplug events, emitting one tracked port per matching plug and resolving
//! its unplug channel exactly once.

use crate::hex::all_hex;
use crate::hex::hex4_chars;
use crate::hex::hex4_string;
use crate::hex::hex_seq_val;
use crate::hex::lemma_hex_seq_val_bound;
use crate::hex::lemma_pow16_increases;
use crate::hex::parse_hex_range;
use crate::hex::pow16;
use crate::hkey::UnexpectedRegistryData;
use crate::message::DeviceEvent;
use crate::message::DeviceEventData;
use crate::message::DeviceEventType;
use std::collections::VecDeque;
use vstd::prelude::*;
use vstd::string::StringSliceAdditionalSpecFns;

verus! {

/// The registry key whose values name the currently connected serial ports.
pub const SERIAL_PORTS_KEY: &'static str = "HARDWARE\\DEVICEMAP\\SERIALCOMM";

/// The registry key whose values map port names to identifier descriptors.
pub const NAME_ARBITER_KEY: &'static str =
    "SYSTEM\\CurrentControlSet\\Control\\COM Name Arbiter\\Devices";

/// Why the registry scan fails.
#[derive(Debug, Clone, PartialEq, Eq)]
pub enum ScanError {
    /// A registry read failed, by its system error code.
    Io(i32),
    /// A registry value had an unexpected type.
    UnexpectedRegistryData(UnexpectedRegistryData),
    /// A name-arbiter descriptor does not carry identifiers where expected;
    /// the descriptor is handed back.
    InvalidRegistryData(String),
    /// The port is not present in the registry's connected-device map.
    ComPortMissingFromRegistry(String),
}

/// Why tracking fails.
#[derive(Debug, Clone, PartialEq, Eq)]
pub enum TrackingError {
    /// Allocating an unplug channel failed, by its system error code.
    Io(i32),
    /// The registry scan for a plugged port failed.
    Scan(ScanError),
}

/// A vendor/product identifier pair: two 16-bit values, rendered as
/// four-digit uppercase hexadecimal.
#[derive(Debug, Copy, Clone, PartialEq, Eq, Structural)]
pub struct UsbVidPid {
    pub vid: u16,
    pub pid: u16,
}

/// The character positions of the vendor identifier inside a name-arbiter
/// descriptor.
pub const DESCRIPTOR_VID_START: usize = 12;

/// One past the vendor identifier's last character.
pub const DESCRIPTOR_VID_END: usize = 16;

/// The character positions of the product identifier inside a name-arbiter
/// descriptor.
pub const DESCRIPTOR_PID_START: usize = 21;

/// One past the product identifier's last character.
pub const DESCRIPTOR_PID_END: usize = 25;

/// The identifiers a name-arbiter descriptor encodes, when its identifier
/// ranges hold hexadecimal text.
pub open spec fn descriptor_ids(bytes: Seq<u8>) -> Option<(int, int)> {
    if bytes.len() >= DESCRIPTOR_PID_END && all_hex(
        bytes.subrange(DESCRIPTOR_VID_START as int, DESCRIPTOR_VID_END as int),
    ) && all_hex(bytes.subrange(DESCRIPTOR_PID_START as int, DESCRIPTOR_PID_END as int)) {
        Some(
            (
                hex_seq_val(
                    bytes.subrange(DESCRIPTOR_VID_START as int, DESCRIPTOR_VID_END as int),
                ),
                hex_seq_val(
                    bytes.subrange(DESCRIPTOR_PID_START as int, DESCRIPTOR_PID_END as int),
                ),
            ),
        )
    } else {
        None
    }
}

impl UsbVidPid {
    pub open spec fn spec_vid(&self) -> u16 {
        self.vid
    }

    pub open spec fn spec_pid(&self) -> u16 {
        self.pid
    }

    pub fn new(vid: u16, pid: u16) -> (r: UsbVidPid)
        ensures
            r.spec_vid() == vid,
            r.spec_pid() == pid,
    {
        UsbVidPid { vid, pid }
    }

    /// The vendor identifier as four uppercase hexadecimal digits.
    pub fn vid(&self) -> (r: String)
        ensures
            r@ == hex4_chars(self.spec_vid() as int),
    {
        hex4_string(self.vid)
    }

    /// The product identifier as four uppercase hexadecimal digits.
    pub fn pid(&self) -> (r: String)
        ensures
            r@ == hex4_chars(self.spec_pid() as int),
    {
        hex4_string(self.pid)
    }

    /// Whether the given texts are exactly this pair's rendered identifiers.
    pub fn matches(&self, vid: &str, pid: &str) -> (r: bool)
        ensures
            r == (vid@ == hex4_chars(self.spec_vid() as int) && pid@ == hex4_chars(
                self.spec_pid() as int,
            )),
    {
        let same_vid = String::eq(&vid.to_owned(), &self.vid());
        let same_pid = String::eq(&pid.to_owned(), &self.pid());
        same_vid && same_pid
    }

    /// Parse an identifier pair from hexadecimal text, at most four digits
    /// each, as a caller writes filters.
    pub fn from_hex(vid: &str, pid: &str) -> (r: Option<UsbVidPid>)
        ensures
            ({
                let vb = vid.spec_bytes();
                let pb = pid.spec_bytes();
                if 1 <= vb.len() <= 4 && 1 <= pb.len() <= 4 && all_hex(vb) && all_hex(pb) {
                    r matches Some(ids) && ids.spec_vid() == hex_seq_val(vb)
                        && ids.spec_pid() == hex_seq_val(pb)
                } else {
                    r is None
                }
            }),
    {
        let vb = vid.as_bytes();
        let pb = pid.as_bytes();
        if vb.len() < 1 || vb.len() > 4 || pb.len() < 1 || pb.len() > 4 {
            return None;
        }
        let v = parse_hex_range(vb, 0, vb.len());
        let p = parse_hex_range(pb, 0, pb.len());
        proof {
            assert(vb@.subrange(0, vb@.len() as int) =~= vb@);
            assert(pb@.subrange(0, pb@.len() as int) =~= pb@);
        }
        match (v, p) {
            (Some(v), Some(p)) => {
                proof {
                    lemma_hex_seq_val_bound(vb@);
                    lemma_hex_seq_val_bound(pb@);
                    lemma_pow16_increases(vb@.len(), 4nat);
                    lemma_pow16_increases(pb@.len(), 4nat);
                    reveal_with_fuel(pow16, 5);
                }
                Some(UsbVidPid { vid: v as u16, pid: p as u16 })
            },
            _ => None,
        }
    }

    /// Parse a name-arbiter descriptor: the identifiers at the fixed
    /// character positions, read as hexadecimal; anything else is invalid
    /// registry data carrying the descriptor.
    pub fn parse_descriptor(descriptor: &str) -> (r: Result<UsbVidPid, ScanError>)
        ensures
            match descriptor_ids(descriptor.spec_bytes()) {
                Some(ids) => r matches Ok(pair) && pair.spec_vid() == ids.0 && pair.spec_pid()
                    == ids.1,
                None => r matches Err(ScanError::InvalidRegistryData(d)) && d@ == descriptor@,
            },
    {
        let bytes = descriptor.as_bytes();
        if bytes.len() < DESCRIPTOR_PID_END {
            return Err(ScanError::InvalidRegistryData(descriptor.to_owned()));
        }
        let v = parse_hex_range(bytes, DESCRIPTOR_VID_START, DESCRIPTOR_VID_END);
        let p = parse_hex_range(bytes, DESCRIPTOR_PID_START, DESCRIPTOR_PID_END);
        match (v, p) {
            (Some(v), Some(p)) => {
                proof {
                    lemma_hex_seq_val_bound(
                        bytes@.subrange(DESCRIPTOR_VID_START as int, DESCRIPTOR_VID_END as int),
                    );
                    lemma_hex_seq_val_bound(
                        bytes@.subrange(DESCRIPTOR_PID_START as int, DESCRIPTOR_PID_END as int),
                    );
                    reveal_with_fuel(pow16, 5);
                }
                Ok(UsbVidPid { vid: v as u16, pid: p as u16 })
            },
            _ => Err(ScanError::InvalidRegistryData(descriptor.to_owned())),
        }
    }
}

/// Some entry of `ports` reads as this text.
pub open spec fn contains_port(ports: Seq<String>, port: Seq<char>) -> bool {
    exists|i: int| 0 <= i < ports.len() && ports[i]@ == port
}

/// The result of composing the two registry reads over view-level values:
/// each connected port from the name-arbiter list paired with its
/// identifiers, in list order, or the index of the first descriptor that does
/// not parse.
pub open spec fn spec_scan(connected: Seq<String>, devices: Seq<(String, String)>) -> Result<
    Seq<(Seq<char>, UsbVidPid)>,
    int,
>
    decreases devices.len(),
{
    if devices.len() == 0 {
        Ok(Seq::<(Seq<char>, UsbVidPid)>::empty())
    } else {
        let entry = devices.last();
        match spec_scan(connected, devices.drop_last()) {
            Err(i) => Err(i),
            Ok(front) => match descriptor_ids(entry.1.view_bytes()) {
                None => Err(devices.len() - 1),
                Some(ids) => if contains_port(connected, entry.0@) {
                    Ok(
                        front.push(
                            (
                                entry.0@,
                                (UsbVidPid { vid: ids.0 as u16, pid: ids.1 as u16 }),
                            ),
                        ),
                    )
                } else {
                    Ok(front)
                },
            },
        }
    }
}

/// The encoded bytes of a text value, as the descriptor positions count them.
pub trait StringBytes {
    spec fn view_bytes(&self) -> Seq<u8>;
}

impl StringBytes for String {
    open spec fn view_bytes(&self) -> Seq<u8> {
        vstd::utf8::encode_utf8(self@)
    }
}

/// Whether some entry of `ports` reads as `port`.
fn ports_contain(ports: &Vec<String>, port: &String) -> (r: bool)
    ensures
        r == contains_port(ports@, port@),
{
    let mut i: usize = 0;
    while i < ports.len()
        invariant
            i <= ports@.len(),
            forall|j: int| 0 <= j < i ==> ports@[j]@ != port@,
        decreases ports@.len() - i,
    {
        if String::eq(&ports[i], port) {
            return true;
        }
        i = i + 1;
    }
    false
}

/// Compose the two registry reads: the name-arbiter descriptors, parsed,
/// filtered down to the currently connected ports.  Fails on the first
/// descriptor that does not carry identifiers, handing that descriptor back.
pub fn scan(connected: &Vec<String>, devices: &Vec<(String, String)>) -> (r: Result<
    Vec<(String, UsbVidPid)>,
    ScanError,
>)
    ensures
        match spec_scan(connected@, devices@) {
            Ok(map) => r matches Ok(out) && out@.len() == map.len() && (forall|j: int|
                0 <= j < map.len() ==> (#[trigger] out@[j]).0@ == map[j].0 && out@[j].1
                    == map[j].1),
            Err(i) => r matches Err(ScanError::InvalidRegistryData(d)) && d@ == devices@[i].1@,
        },
{
    let mut out: Vec<(String, UsbVidPid)> = Vec::new();
    let ghost all = devices@;
    let mut i: usize = 0;
    proof {
        assert(all.subrange(0, 0) =~= Seq::<(String, String)>::empty());
    }
    while i < devices.len()
        invariant
            i <= devices@.len(),
            devices@ == all,
            spec_scan(connected@, all.subrange(0, i as int)) matches Ok(map) && out@.len()
                == map.len() && (forall|j: int|
                0 <= j < map.len() ==> (#[trigger] out@[j]).0@ == map[j].0 && out@[j].1
                    == map[j].1),
        decreases devices@.len() - i,
    {
        let ghost prefix = all.subrange(0, i as int);
        let ghost step = all.subrange(0, (i + 1) as int);
        proof {
            assert(step.drop_last() =~= prefix);
            assert(step.last() == all[i as int]);
        }
        let port = &devices[i].0;
        let descriptor = &devices[i].1;
        match UsbVidPid::parse_descriptor(descriptor.as_str()) {
            Err(e) => {
                proof {
                    lemma_spec_scan_later_error(connected@, all, i as int);
                }
                return Err(e);
            },
            Ok(ids) => {
                if ports_contain(connected, port) {
                    out.push((port.clone(), ids));
                }
                i = i + 1;
            },
        }
    }
    proof {
        assert(all.subrange(0, all.len() as int) =~= all);
    }
    Ok(out)
}

/// When the scan fails at entry `i` of the device list and every earlier
/// descriptor parses, the whole scan fails at `i`.
proof fn lemma_spec_scan_later_error(connected: Seq<String>, devices: Seq<(String, String)>, i: int)
    requires
        0 <= i < devices.len(),
        spec_scan(connected, devices.subrange(0, i)) is Ok,
        descriptor_ids(devices[i].1.view_bytes()) is None,
    ensures
        spec_scan(connected, devices) == Err::<Seq<(Seq<char>, UsbVidPid)>, int>(i),
    decreases devices.len(),
{
    if devices.len() - 1 == i {
        assert(devices.drop_last() =~= devices.subrange(0, i));
    } else {
        assert(devices.drop_last().subrange(0, i) =~= devices.subrange(0, i));
        assert(devices.drop_last()[i] == devices[i]);
        lemma_spec_scan_later_error(connected, devices.drop_last(), i);
    }
}

/// Look one port up in the scan's result: its identifiers when the scan
/// found it connected, and a missing-port error otherwise.
#[verifier::loop_isolation(false)]
pub fn scan_for(port: &String, connected: &Vec<String>, devices: &Vec<(String, String)>) -> (r:
    Result<UsbVidPid, ScanError>)
    ensures
        match spec_scan(connected@, devices@) {
            Err(i) => r matches Err(ScanError::InvalidRegistryData(d)) && d@ == devices@[i].1@,
            Ok(map) => match r {
                Ok(ids) => exists|j: int| 0 <= j < map.len() && (#[trigger] map[j]).0 == port@
                    && map[j].1 == ids,
                Err(e) => (forall|j: int| 0 <= j < map.len() ==> (#[trigger] map[j]).0 != port@)
                    && (e matches ScanError::ComPortMissingFromRegistry(p) && p@ == port@),
                _ => false,
            },
        },
{
    let map = match scan(connected, devices) {
        Err(e) => {
            return Err(e);
        },
        Ok(map) => map,
    };
    let ghost specmap = spec_scan(connected@, devices@)->Ok_0;
    let mut i: usize = 0;
    while i < map.len()
        invariant
            spec_scan(connected@, devices@) == Ok::<Seq<(Seq<char>, UsbVidPid)>, int>(specmap),
            i <= map@.len(),
            map@.len() == specmap.len(),
            forall|j: int|
                0 <= j < specmap.len() ==> (#[trigger] map@[j]).0@ == specmap[j].0 && map@[j].1
                    == specmap[j].1,
            forall|j: int| 0 <= j < i ==> (#[trigger] map@[j]).0@ != port@,
        decreases map@.len() - i,
    {
        if String::eq(&map[i].0, port) {
            let found = map[i].1;
            proof {
                assert(specmap[i as int].0 == port@);
                assert(specmap[i as int].1 == found);
                assert(exists|j: int|
                    0 <= j < specmap.len() && (#[trigger] specmap[j]).0 == port@ && specmap[j].1
                        == found);
            }
            return Ok(found);
        }
        i = i + 1;
    }
    proof {
        assert forall|j: int| 0 <= j < specmap.len() implies (#[trigger] specmap[j]).0
            != port@ by {
            assert(map@[j].0@ == specmap[j].0);
            assert(map@[j].0@ != port@);
        }
    }
    Err(ScanError::ComPortMissingFromRegistry(port.clone()))
}

/// What polling the notification stream yields.
pub enum HubPoll {
    /// The next device-change event.
    Event(DeviceEvent),
    /// The hub's window was destroyed; the stream is over.
    Ended,
    /// Nothing queued; the embedding program parks the task.
    Pending,
}

/// The queue shared by the hub's message thread and the consuming stream.
/// The message thread enqueues each parsed device-change event; destroying
/// the window enqueues the end-of-stream sentinel.  On construction the hub
/// seeds the queue with synthetic arrivals for the devices the registry scan
/// already found, so consumers see the current world plus live deltas.
pub struct DeviceNotificationData {
    queue: VecDeque<Option<DeviceEvent>>,
}

impl DeviceNotificationData {
    /// The queued entries, oldest first; the sentinel `None` marks the end
    /// of the stream.
    pub closed spec fn spec_queue(&self) -> Seq<Option<DeviceEvent>> {
        self.queue@
    }

    pub fn new() -> (r: DeviceNotificationData)
        ensures
            r.spec_queue() == Seq::<Option<DeviceEvent>>::empty(),
    {
        DeviceNotificationData { queue: VecDeque::new() }
    }

    /// Seed the queue with one synthetic arrival per already-present port.
    pub fn seed_arrivals(&mut self, ports: Vec<String>)
        ensures
            final(self).spec_queue() == old(self).spec_queue() + Seq::new(
                ports@.len(),
                |i: int|
                    Some(
                        (DeviceEvent {
                            ty: DeviceEventType::Arrival,
                            data: DeviceEventData::Port(ports@[i]),
                        }),
                    ),
            ),
    {
        let ghost all = ports@;
        let mut ports = ports;
        while ports.len() > 0
            invariant
                ports@.len() <= all.len(),
                ports@ == all.skip(all.len() - ports@.len()),
                self.spec_queue() == old(self).spec_queue() + Seq::new(
                    (all.len() - ports@.len()) as nat,
                    |i: int|
                        Some(
                            (DeviceEvent {
                                ty: DeviceEventType::Arrival,
                                data: DeviceEventData::Port(all[i]),
                            }),
                        ),
                ),
            decreases ports@.len(),
        {
            let ghost consumed = all.len() - ports@.len();
            let port = ports.remove(0);
            proof {
                assert(port == all[consumed]);
                assert(ports@ =~= all.skip(all.len() - ports@.len()));
            }
            self.queue.push_back(
                Some(DeviceEvent { ty: DeviceEventType::Arrival, data: DeviceEventData::Port(port) }),
            );
            proof {
                assert(self.spec_queue() =~= old(self).spec_queue() + Seq::new(
                    (consumed + 1) as nat,
                    |i: int|
                        Some(
                            (DeviceEvent {
                                ty: DeviceEventType::Arrival,
                                data: DeviceEventData::Port(all[i]),
                            }),
                        ),
                ));
            }
        }
        proof {
            assert(final(self).spec_queue() =~= old(self).spec_queue() + Seq::new(
                all.len(),
                |i: int|
                    Some(
                        (DeviceEvent {
                            ty: DeviceEventType::Arrival,
                            data: DeviceEventData::Port(all[i]),
                        }),
                    ),
            ));
        }
    }

    /// The message thread parsed one device-change message (or, with the
    /// sentinel, saw the window destroyed): enqueue it and wake the consumer.
    pub fn try_wake_with(&mut self, ev: Option<DeviceEvent>)
        ensures
            final(self).spec_queue() == old(self).spec_queue().push(ev),
    {
        self.queue.push_back(ev);
    }

    /// Pop the next event for the consuming stream.  The embedding program
    /// installs its waker before calling and parks the task on `Pending`.
    pub fn poll_next(&mut self) -> (r: HubPoll)
        ensures
            if old(self).spec_queue().len() == 0 {
                r is Pending && final(self).spec_queue() == old(self).spec_queue()
            } else {
                final(self).spec_queue() == old(self).spec_queue().skip(1) && match old(self).spec_queue()[0] {
                    Some(ev) => r == HubPoll::Event(ev),
                    None => r is Ended,
                }
            },
    {
        match self.queue.pop_front() {
            None => HubPoll::Pending,
            Some(Some(ev)) => {
                proof {
                    assert(self.queue@ =~= old(self).queue@.skip(1));
                }
                HubPoll::Event(ev)
            },
            Some(None) => {
                proof {
                    assert(self.queue@ =~= old(self).queue@.skip(1));
                }
                HubPoll::Ended
            },
        }
    }
}

/// A device plugged in or unplugged, by port name.
#[derive(Debug, Clone, PartialEq, Eq)]
pub enum PlugEvent {
    Plug(String),
    Unplug(String),
}

/// Map a raw device-change event to a plug event: a port arrival is a plug,
/// a completed port removal is an unplug, everything else is discarded.
pub fn plug_events(ev: DeviceEvent) -> (r: Option<PlugEvent>)
    ensures
        match ev {
            DeviceEvent { ty: DeviceEventType::Arrival, data: DeviceEventData::Port(port) } => r
                == Some(PlugEvent::Plug(port)),
            DeviceEvent {
                ty: DeviceEventType::RemoveComplete,
                data: DeviceEventData::Port(port),
            } => r == Some(PlugEvent::Unplug(port)),
            _ => r is None,
        },
{
    match ev {
        DeviceEvent { ty: DeviceEventType::Arrival, data: DeviceEventData::Port(port) } => Some(
            PlugEvent::Plug(port),
        ),
        DeviceEvent { ty: DeviceEventType::RemoveComplete, data: DeviceEventData::Port(port) } => {
            Some(PlugEvent::Unplug(port))
        },
        _ => None,
    }
}

/// A port the tracker matched against its filters.  The unplug token names
/// the one-shot channel the embedding program allocates for it: the tracker
/// orders that channel signalled exactly once, on the port's unplug.
#[derive(Debug, Clone, PartialEq, Eq)]
pub struct TrackedPort {
    /// The port name.
    pub port: String,
    /// The port's vendor and product identifiers.
    pub ids: UsbVidPid,
    /// Names the unplug channel paired with this port.
    pub unplug_token: u64,
}

/// What the tracker orders after one upstream event.
#[derive(Debug, Clone, PartialEq, Eq)]
pub enum TrackerStep {
    /// Emit this tracked port to the consumer.
    Emit(TrackedPort),
    /// Resolve the unplug channel with this token.
    SignalUnplug(u64),
    /// Nothing to do: the event concerns no tracked or matching port.
    Ignore,
    /// The upstream ended; the tracker ends.
    End,
    /// Report this failure to the consumer; tracking continues.
    Fail(TrackingError),
}

/// Some filter equals these identifiers.
pub open spec fn filter_match(filters: Seq<UsbVidPid>, ids: UsbVidPid) -> bool {
    exists|i: int| 0 <= i < filters.len() && filters[i] == ids
}

/// Some tracked entry carries this port.
pub open spec fn cache_contains(cache: Seq<(Seq<char>, u64)>, port: Seq<char>) -> bool {
    exists|i: int| 0 <= i < cache.len() && (#[trigger] cache[i]).0 == port
}

/// No two tracked entries carry the same port.
pub open spec fn distinct_ports(cache: Seq<(Seq<char>, u64)>) -> bool {
    forall|i: int, j: int|
        0 <= i < cache.len() && 0 <= j < cache.len() && i != j ==> (#[trigger] cache[i]).0 != (
        #[trigger] cache[j]).0
}

/// The tracked entries with every entry for `port` dropped.
pub open spec fn cache_drop_port(cache: Seq<(Seq<char>, u64)>, port: Seq<char>) -> Seq<
    (Seq<char>, u64),
>
    decreases cache.len(),
{
    if cache.len() == 0 {
        Seq::<(Seq<char>, u64)>::empty()
    } else if cache[0].0 == port {
        cache_drop_port(cache.skip(1), port)
    } else {
        seq![cache[0]] + cache_drop_port(cache.skip(1), port)
    }
}

/// Dropping a port nothing carries changes nothing.
proof fn lemma_drop_port_no_match(cache: Seq<(Seq<char>, u64)>, port: Seq<char>)
    requires
        !cache_contains(cache, port),
    ensures
        cache_drop_port(cache, port) == cache,
    decreases cache.len(),
{
    if cache.len() > 0 {
        assert(cache[0].0 != port) by {
            if cache[0].0 == port {
                assert(cache_contains(cache, port));
            }
        }
        assert(!cache_contains(cache.skip(1), port)) by {
            if cache_contains(cache.skip(1), port) {
                let k = choose|k: int|
                    0 <= k < cache.skip(1).len() && (#[trigger] cache.skip(1)[k]).0 == port;
                assert(cache[k + 1] == cache.skip(1)[k]);
                assert(cache_contains(cache, port));
            }
        }
        lemma_drop_port_no_match(cache.skip(1), port);
        assert(seq![cache[0]] + cache.skip(1) =~= cache);
    }
}

/// With distinct ports, dropping a port is removing its one entry.
proof fn lemma_drop_port_at(cache: Seq<(Seq<char>, u64)>, i: int, port: Seq<char>)
    requires
        distinct_ports(cache),
        0 <= i < cache.len(),
        cache[i].0 == port,
    ensures
        cache_drop_port(cache, port) == cache.remove(i),
    decreases cache.len(),
{
    let tail = cache.skip(1);
    if i == 0 {
        assert(!cache_contains(tail, port)) by {
            if cache_contains(tail, port) {
                let k = choose|k: int| 0 <= k < tail.len() && (#[trigger] tail[k]).0 == port;
                assert(cache[k + 1] == tail[k]);
                lemma_tracked_port_unique_contra(cache, port, 0, k + 1);
            }
        }
        lemma_drop_port_no_match(tail, port);
        assert(cache_drop_port(cache, port) =~= cache.remove(0));
    } else {
        lemma_tracked_port_unique_contra(cache, port, i, 0);
        assert(distinct_ports(tail)) by {
            assert forall|a: int, b: int|
                0 <= a < tail.len() && 0 <= b < tail.len() && a != b implies (
            #[trigger] tail[a]).0 != (#[trigger] tail[b]).0 by {
                assert(tail[a] == cache[a + 1]);
                assert(tail[b] == cache[b + 1]);
            }
        }
        assert(tail[i - 1] == cache[i]);
        lemma_drop_port_at(tail, i - 1, port);
        assert(seq![cache[0]] + tail.remove(i - 1) =~= cache.remove(i));
    }
}

/// Law: a tracked port names exactly one unplug channel — tracked entries
/// are keyed by distinct ports, so the entry an unplug resolves is unique.
pub proof fn lemma_tracked_port_unique(
    cache: Seq<(Seq<char>, u64)>,
    port: Seq<char>,
    i: int,
    j: int,
)
    requires
        distinct_ports(cache),
        0 <= i < cache.len(),
        0 <= j < cache.len(),
        cache[i].0 == port,
        cache[j].0 == port,
    ensures
        i == j,
{
}

/// Law: the channel a plug emits is the channel a later unplug resolves.
/// When the cache pairs `port` with `token` (as `on_plug` ensures for the
/// token it emitted) and the ports are distinct (as every tracker state is),
/// then any entry an unplug finds for `port` carries exactly `token`, so
/// `on_unplug` signals the emitted channel.
pub proof fn lemma_unplug_signals_the_paired_token(
    cache: Seq<(Seq<char>, u64)>,
    port: Seq<char>,
    token: u64,
    j: int,
)
    requires
        distinct_ports(cache),
        exists|i: int| 0 <= i < cache.len() && (#[trigger] cache[i]) == (port, token),
        0 <= j < cache.len(),
        cache[j].0 == port,
    ensures
        cache[j].1 == token,
{
    let i = choose|i: int| 0 <= i < cache.len() && (#[trigger] cache[i]) == (port, token);
    lemma_tracked_port_unique(cache, port, i, j);
}

/// The plug-event matcher: pairs plug and unplug events for the ports whose
/// identifiers match a filter.
///
/// For each plug of a matching port it orders one tracked-port emission and
/// remembers the port's unplug channel; for each unplug of a tracked port it
/// orders that channel signalled, exactly once — untracked unplugs are
/// ignored.  When the upstream ends the tracker ends.
pub struct Tracking {
    filters: Vec<UsbVidPid>,
    cache: Vec<(String, u64)>,
    next_token: u64,
    done: bool,
}

impl Tracking {
    /// The configured identifier filters.
    pub closed spec fn spec_filters(&self) -> Seq<UsbVidPid> {
        self.filters@
    }

    /// The tracked ports and their unplug tokens.
    pub closed spec fn spec_cache(&self) -> Seq<(Seq<char>, u64)> {
        Seq::new(self.cache@.len(), |i: int| (self.cache@[i].0@, self.cache@[i].1))
    }

    /// The token the next emitted port will carry.
    pub closed spec fn spec_next_token(&self) -> u64 {
        self.next_token
    }

    /// The upstream has ended.
    pub closed spec fn spec_done(&self) -> bool {
        self.done
    }

    /// Tracked ports are distinct, so every unplug resolves at most one
    /// channel.
    pub open spec fn wf(&self) -> bool {
        distinct_ports(self.spec_cache())
    }

    pub fn new(filters: Vec<UsbVidPid>) -> (r: Tracking)
        ensures
            r.wf(),
            r.spec_filters() == filters@,
            r.spec_cache() == Seq::<(Seq<char>, u64)>::empty(),
            !r.spec_done(),
    {
        let r = Tracking { filters, cache: Vec::new(), next_token: 0, done: false };
        proof {
            assert(r.spec_cache() =~= Seq::<(Seq<char>, u64)>::empty());
        }
        r
    }

    /// Whether some filter equals these identifiers.
    fn filters_match(&self, ids: UsbVidPid) -> (r: bool)
        ensures
            r == filter_match(self.spec_filters(), ids),
    {
        let mut i: usize = 0;
        while i < self.filters.len()
            invariant
                i <= self.filters@.len(),
                forall|j: int| 0 <= j < i ==> self.filters@[j] != ids,
            decreases self.filters@.len() - i,
        {
            if self.filters[i] == ids {
                return true;
            }
            i = i + 1;
        }
        false
    }

    /// The position of a tracked port, if any.
    fn cache_find(&self, port: &String) -> (r: Option<usize>)
        ensures
            match r {
                Some(i) => i < self.spec_cache().len() && self.spec_cache()[i as int].0 == port@,
                None => !cache_contains(self.spec_cache(), port@),
            },
    {
        let mut i: usize = 0;
        while i < self.cache.len()
            invariant
                i <= self.cache@.len(),
                forall|j: int| 0 <= j < i ==> (#[trigger] self.spec_cache()[j]).0 != port@,
            decreases self.cache@.len() - i,
        {
            if String::eq(&self.cache[i].0, port) {
                proof {
                    assert(self.spec_cache()[i as int].0 == port@);
                }
                return Some(i);
            }
            i = i + 1;
        }
        None
    }

    /// A plug arrived for `port`, and the registry lookup for its
    /// identifiers came back as `looked_up`.  Exactly a successful lookup
    /// matching a filter orders an emission: one tracked port carrying a
    /// fresh unplug token, and the cache pairs the port with that same token
    /// — plugged anew, the port's old entry is replaced.  A failed lookup is
    /// reported; a non-matching port is ignored.
    pub fn on_plug(&mut self, port: String, looked_up: Result<UsbVidPid, ScanError>) -> (r:
        TrackerStep)
        requires
            old(self).wf(),
            old(self).spec_next_token() < u64::MAX,
        ensures
            final(self).wf(),
            final(self).spec_filters() == old(self).spec_filters(),
            final(self).spec_done() == old(self).spec_done(),
            match looked_up {
                Err(e) => r == TrackerStep::Fail(TrackingError::Scan(e)) && final(self).spec_cache() == old(self).spec_cache() && final(self).spec_next_token() == old(self).spec_next_token(),
                Ok(ids) => if filter_match(old(self).spec_filters(), ids) {
                    r == TrackerStep::Emit(
                        (TrackedPort { port, ids, unplug_token: old(self).spec_next_token() }),
                    ) && final(self).spec_next_token() == old(self).spec_next_token() + 1
                        && final(self).spec_cache() == cache_drop_port(
                        old(self).spec_cache(),
                        port@,
                    ).push((port@, old(self).spec_next_token()))
                } else {
                    r is Ignore && final(self).spec_cache() == old(self).spec_cache() && final(self).spec_next_token() == old(self).spec_next_token()
                },
            },
    {
        let ids = match looked_up {
            Err(e) => {
                return TrackerStep::Fail(TrackingError::Scan(e));
            },
            Ok(ids) => ids,
        };
        if !self.filters_match(ids) {
            return TrackerStep::Ignore;
        }
        let token: u64 = self.next_token;
        self.next_token = self.next_token + 1;
        match self.cache_find(&port) {
            Some(i) => {
                let ghost pre = self.spec_cache();
                self.cache.remove(i);
                proof {
                    assert(self.spec_cache() =~= pre.remove(i as int));
                    lemma_distinct_remove(pre, i as int);
                    lemma_removed_contains(pre, i as int, port@);
                    lemma_drop_port_at(pre, i as int, port@);
                }
            },
            None => {
                proof {
                    lemma_drop_port_no_match(self.spec_cache(), port@);
                }
            },
        }
        let ghost mid = self.spec_cache();
        self.cache.push((port.clone(), token));
        proof {
            assert(self.spec_cache() =~= mid.push((port@, token)));
            lemma_distinct_push(mid, port@, token);
        }
        TrackerStep::Emit(TrackedPort { port, ids, unplug_token: token })
    }

    /// An unplug arrived for `port`: exactly a tracked port orders its
    /// channel signalled, and the port is forgotten, so a second unplug of
    /// the same port is ignored — the channel resolves exactly once.
    pub fn on_unplug(&mut self, port: &String) -> (r: TrackerStep)
        requires
            old(self).wf(),
        ensures
            final(self).wf(),
            final(self).spec_filters() == old(self).spec_filters(),
            final(self).spec_done() == old(self).spec_done(),
            final(self).spec_next_token() == old(self).spec_next_token(),
            if cache_contains(old(self).spec_cache(), port@) {
                (exists|i: int|
                    0 <= i < old(self).spec_cache().len() && (#[trigger] old(self).spec_cache()[i]).0 == port@ && r == TrackerStep::SignalUnplug(
                        old(self).spec_cache()[i].1,
                    )) && final(self).spec_cache() == cache_drop_port(
                    old(self).spec_cache(),
                    port@,
                ) && !cache_contains(final(self).spec_cache(), port@)
            } else {
                r is Ignore && final(self).spec_cache() == old(self).spec_cache()
            },
    {
        match self.cache_find(port) {
            None => TrackerStep::Ignore,
            Some(i) => {
                let ghost pre = self.spec_cache();
                let token: u64 = self.cache[i].1;
                self.cache.remove(i);
                proof {
                    assert(self.spec_cache() =~= pre.remove(i as int));
                    lemma_distinct_remove(pre, i as int);
                    lemma_removed_contains(pre, i as int, port@);
                    lemma_drop_port_at(pre, i as int, port@);
                }
                TrackerStep::SignalUnplug(token)
            },
        }
    }

    /// The token the next emitted port will carry.  Tokens never repeat, so
    /// an embedding checks they are not exhausted before feeding a plug.
    pub fn next_token(&self) -> (r: u64)
        ensures
            r == self.spec_next_token(),
    {
        self.next_token
    }

    /// The upstream event stream ended: the tracker ends with it.
    pub fn on_end(&mut self) -> (r: TrackerStep)
        ensures
            final(self).spec_done(),
            final(self).spec_cache() == old(self).spec_cache(),
            final(self).spec_filters() == old(self).spec_filters(),
            r is End,
    {
        self.done = true;
        TrackerStep::End
    }
}

/// Removing an entry keeps the remaining ports distinct.
proof fn lemma_distinct_remove(cache: Seq<(Seq<char>, u64)>, i: int)
    requires
        distinct_ports(cache),
        0 <= i < cache.len(),
    ensures
        distinct_ports(cache.remove(i)),
{
    assert forall|a: int, b: int|
        0 <= a < cache.remove(i).len() && 0 <= b < cache.remove(i).len() && a != b implies (
    #[trigger] cache.remove(i)[a]).0 != (#[trigger] cache.remove(i)[b]).0 by {
        let ra = if a < i {
            a
        } else {
            a + 1
        };
        let rb = if b < i {
            b
        } else {
            b + 1
        };
        assert(cache.remove(i)[a] == cache[ra]);
        assert(cache.remove(i)[b] == cache[rb]);
    }
}

/// After removing the only entry for a port from a distinct cache, the port
/// is gone.
proof fn lemma_removed_contains(cache: Seq<(Seq<char>, u64)>, i: int, port: Seq<char>)
    requires
        distinct_ports(cache),
        0 <= i < cache.len(),
        cache[i].0 == port,
    ensures
        !cache_contains(cache.remove(i), port),
{
    assert forall|k: int| 0 <= k < cache.remove(i).len() implies (#[trigger] cache.remove(
        i,
    )[k]).0 != port by {
        let rk = if k < i {
            k
        } else {
            k + 1
        };
        assert(cache.remove(i)[k] == cache[rk]);
        lemma_tracked_port_unique_contra(cache, port, i, rk);
    }
}

/// Helper: a second entry with the tracked port cannot exist.
proof fn lemma_tracked_port_unique_contra(
    cache: Seq<(Seq<char>, u64)>,
    port: Seq<char>,
    i: int,
    k: int,
)
    requires
        distinct_ports(cache),
        0 <= i < cache.len(),
        0 <= k < cache.len(),
        cache[i].0 == port,
        i != k,
    ensures
        cache[k].0 != port,
{
}

/// Appending a fresh port keeps the ports distinct.
proof fn lemma_distinct_push(cache: Seq<(Seq<char>, u64)>, port: Seq<char>, token: u64)
    requires
        distinct_ports(cache),
        !cache_contains(cache, port),
    ensures
        distinct_ports(cache.push((port, token))),
{
    let pushed = cache.push((port, token));
    assert forall|a: int, b: int|
        0 <= a < pushed.len() && 0 <= b < pushed.len() && a != b implies (
    #[trigger] pushed[a]).0 != (#[trigger] pushed[b]).0 by {
        if a < cache.len() && b < cache.len() {
            assert(pushed[a] == cache[a]);
            assert(pushed[b] == cache[b]);
        } else if a < cache.len() {
            assert(pushed[a] == cache[a]);
            assert(pushed[b] == (port, token));
        } else {
            assert(pushed[a] == (port, token));
            assert(pushed[b] == cache[b]);
        }
    }
}

} // verus!

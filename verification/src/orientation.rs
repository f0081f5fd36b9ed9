//! Orientation UDP datagrams and device tracking.
//!
//! Quaternion components are kept as the devices send them: signed
//! fixed-point numbers in units of 1/16384; the poi angular distance is an
//! unsigned fixed-point number in units of 1/65536.
use vstd::prelude::*;

verus! {

/// Known orientation datagram categories.
#[derive(Clone, Copy, Debug, PartialEq, Eq, Structural)]
pub enum DatagramKind {
    /// Wand protocol v1.
    WandV1,
    /// Poi protocol.
    Poi,
    /// Wand protocol v2.
    WandV2,
    /// Wristband protocol.
    Wristband,
}

/// Minimum bytes read before type-specific unpacking.
pub const MIN_DATAGRAM_LENGTH: usize = 6;
/// Devices are forgotten after this much wall-clock silence.
pub const DEVICE_TIMEOUT_MS: u64 = 1_000;
/// Action flags of one device are debounced with this timeout.
pub const DEVICE_EVENT_TIMEOUT_MS: u64 = 5;
/// Number of distinct device ids.
pub const DEVICE_ID_COUNT: usize = 256;

/// Required datagram length for a device type.
pub open spec fn required_length(device_type: u8) -> int {
    if device_type == 1 || device_type == 3 || device_type == 4 {
        15
    } else if device_type == 2 {
        17
    } else {
        MIN_DATAGRAM_LENGTH as int
    }
}

/// The kind a device-type byte names, if any.
pub open spec fn kind_of(device_type: u8) -> Option<DatagramKind> {
    if device_type == 1 {
        Some(DatagramKind::WandV1)
    } else if device_type == 2 {
        Some(DatagramKind::Poi)
    } else if device_type == 3 {
        Some(DatagramKind::WandV2)
    } else if device_type == 4 {
        Some(DatagramKind::Wristband)
    } else {
        None
    }
}

/// The required datagram length for one device type.
pub fn required_datagram_length(device_type: u8) -> (n: usize)
    ensures
        n == required_length(device_type),
{
    if device_type == 1 || device_type == 3 || device_type == 4 {
        15
    } else if device_type == 2 {
        17
    } else {
        MIN_DATAGRAM_LENGTH
    }
}

/// A quaternion in the devices' fixed-point layout (units of 1/16384).
#[derive(Clone, Copy, Debug, PartialEq, Eq, Structural)]
pub struct RawQuaternion {
    /// W component.
    pub w: i16,
    /// X component.
    pub x: i16,
    /// Y component.
    pub y: i16,
    /// Z component.
    pub z: i16,
}

/// The identity rotation in fixed point.
pub open spec fn identity_quaternion() -> RawQuaternion {
    RawQuaternion { w: 16384, x: 0, y: 0, z: 0 }
}

impl RawQuaternion {
    /// The identity rotation.
    pub fn identity() -> (q: RawQuaternion)
        ensures
            q == identity_quaternion(),
    {
        RawQuaternion { w: 16384, x: 0, y: 0, z: 0 }
    }
}

/// The fields of one datagram.
#[derive(Clone, Copy, Debug, PartialEq, Eq, Structural)]
pub struct RawOrientationDatagram {
    /// Device id from byte 0.
    pub device_id: u8,
    /// Device timestamp from bytes 1-4 (little endian).
    pub timestamp: i32,
    /// Device kind.
    pub kind: DatagramKind,
    /// Raw device type from byte 5.
    pub device_type: u8,
    /// Orientation from bytes 6-13 in `w, x, y, z` order (little endian).
    pub orientation: RawQuaternion,
    /// Action flag from byte 14; zero for poi.
    pub action_flag: u8,
    /// Poi angular distance from bytes 15-16 (units of 1/65536).
    pub avg_distance_short: Option<u16>,
}

/// Little-endian unsigned value of two bytes.
pub open spec fn le_u16(lo: u8, hi: u8) -> int {
    lo as int + 256 * hi as int
}

/// Little-endian two's-complement value of two bytes.
pub open spec fn le_i16(lo: u8, hi: u8) -> int {
    let v = le_u16(lo, hi);
    if v >= 0x8000 {
        v - 0x10000
    } else {
        v
    }
}

/// Little-endian two's-complement value of four bytes.
pub open spec fn le_i32(b0: u8, b1: u8, b2: u8, b3: u8) -> int {
    let v = b0 as int + 256 * b1 as int + 65536 * b2 as int + 16777216 * b3 as int;
    if v >= 0x8000_0000 {
        v - 0x1_0000_0000
    } else {
        v
    }
}

/// The datagram a byte string encodes, if it is a known, long enough one.
pub open spec fn parse_spec(bytes: Seq<u8>) -> Option<RawOrientationDatagram> {
    if bytes.len() < 6 || bytes.len() < required_length(bytes[5]) || kind_of(bytes[5]) is None {
        None
    } else {
        let kind = kind_of(bytes[5])->0;
        Some(
            RawOrientationDatagram {
                device_id: bytes[0],
                timestamp: le_i32(bytes[1], bytes[2], bytes[3], bytes[4]) as i32,
                kind,
                device_type: bytes[5],
                orientation: RawQuaternion {
                    w: le_i16(bytes[6], bytes[7]) as i16,
                    x: le_i16(bytes[8], bytes[9]) as i16,
                    y: le_i16(bytes[10], bytes[11]) as i16,
                    z: le_i16(bytes[12], bytes[13]) as i16,
                },
                action_flag: if kind == DatagramKind::Poi {
                    0
                } else {
                    bytes[14]
                },
                avg_distance_short: if kind == DatagramKind::Poi {
                    Some(le_u16(bytes[15], bytes[16]) as u16)
                } else {
                    None
                },
            },
        )
    }
}

fn decode_i16(lo: u8, hi: u8) -> (v: i16)
    ensures
        v == le_i16(lo, hi),
{
    let u: i32 = lo as i32 + 256 * (hi as i32);
    if u >= 0x8000 {
        (u - 0x10000) as i16
    } else {
        u as i16
    }
}

fn decode_i32(b0: u8, b1: u8, b2: u8, b3: u8) -> (v: i32)
    ensures
        v == le_i32(b0, b1, b2, b3),
{
    let u: i64 = b0 as i64 + 256 * (b1 as i64) + 65536 * (b2 as i64) + 16777216 * (b3 as i64);
    if u >= 0x8000_0000 {
        (u - 0x1_0000_0000) as i32
    } else {
        u as i32
    }
}

/// Parse the fields of one orientation datagram.
pub fn parse_datagram_fields(bytes: &[u8]) -> (r: Option<RawOrientationDatagram>)
    ensures
        r == parse_spec(bytes@),
{
    if bytes.len() < 6 {
        return None;
    }
    let device_type = bytes[5];
    if bytes.len() < required_datagram_length(device_type) {
        return None;
    }
    let kind = if device_type == 1 {
        DatagramKind::WandV1
    } else if device_type == 2 {
        DatagramKind::Poi
    } else if device_type == 3 {
        DatagramKind::WandV2
    } else if device_type == 4 {
        DatagramKind::Wristband
    } else {
        return None;
    };
    let timestamp = decode_i32(bytes[1], bytes[2], bytes[3], bytes[4]);
    let orientation = RawQuaternion {
        w: decode_i16(bytes[6], bytes[7]),
        x: decode_i16(bytes[8], bytes[9]),
        y: decode_i16(bytes[10], bytes[11]),
        z: decode_i16(bytes[12], bytes[13]),
    };
    let is_poi = device_type == 2;
    let action_flag = if is_poi {
        0
    } else {
        bytes[14]
    };
    let avg_distance_short = if is_poi {
        Some((bytes[15] as u16) + 256 * (bytes[16] as u16))
    } else {
        None
    };
    Some(
        RawOrientationDatagram {
            device_id: bytes[0],
            timestamp,
            kind,
            device_type,
            orientation,
            action_flag,
            avg_distance_short,
        },
    )
}

/// Classify a datagram by its device-type byte (byte 5) and its length.
pub fn classify_datagram(bytes: &[u8]) -> (r: Option<DatagramKind>)
    ensures
        r == (match parse_spec(bytes@) {
            Some(d) => Some(d.kind),
            None => None::<DatagramKind>,
        }),
{
    match parse_datagram_fields(bytes) {
        Some(d) => Some(d.kind),
        None => None,
    }
}

/// Runtime state of one orientation device.
#[derive(Clone, Copy, Debug, PartialEq, Eq, Structural)]
pub struct OrientationDevice {
    /// Device id from the datagram.
    pub device_id: u8,
    /// Last accepted device timestamp.
    pub timestamp: i32,
    /// Device kind.
    pub kind: DatagramKind,
    /// Raw device type.
    pub device_type: u8,
    /// Calibration origin.
    pub calibration_origin: RawQuaternion,
    /// Current orientation.
    pub current_orientation: RawQuaternion,
    /// Last poi angular distance (units of 1/65536); zero without speed data.
    pub avg_distance_short: u16,
    /// Whether this device has speed data.
    pub has_speed: bool,
    /// Current action flag.
    pub action_flag: u8,
}

/// A device first seen in a datagram: identity calibration, no action.
pub open spec fn device_from(d: RawOrientationDatagram) -> OrientationDevice {
    OrientationDevice {
        device_id: d.device_id,
        timestamp: d.timestamp,
        kind: d.kind,
        device_type: d.device_type,
        calibration_origin: identity_quaternion(),
        current_orientation: d.orientation,
        avg_distance_short: match d.avg_distance_short {
            Some(v) => v,
            None => 0,
        },
        has_speed: d.avg_distance_short is Some,
        action_flag: 0,
    }
}

/// Whether a later datagram's timestamp is accepted: newer, or more than a
/// second older (a device restart).
pub open spec fn accepts_timestamp(current: i32, incoming: i32) -> bool {
    incoming > current || incoming < current - 1000
}

/// A known device after a datagram: action flags first (debounced), then the
/// orientation if the timestamp is accepted.
pub open spec fn device_after(
    dev: OrientationDevice,
    d: RawOrientationDatagram,
    debounced: bool,
) -> OrientationDevice {
    let acted = if d.action_flag != 0 {
        if !debounced {
            dev
        } else if d.action_flag == 4 {
            OrientationDevice { calibration_origin: dev.current_orientation, ..dev }
        } else if 1 <= d.action_flag <= 3 {
            OrientationDevice { action_flag: d.action_flag, ..dev }
        } else {
            dev
        }
    } else {
        OrientationDevice { action_flag: 0, ..dev }
    };
    if accepts_timestamp(acted.timestamp, d.timestamp) {
        OrientationDevice {
            timestamp: d.timestamp,
            current_orientation: d.orientation,
            avg_distance_short: match d.avg_distance_short {
                Some(v) => v,
                None => 0,
            },
            has_speed: d.avg_distance_short is Some,
            ..acted
        }
    } else {
        acted
    }
}

/// Whether a device last heard from at `seen` is stale at `now`.
pub open spec fn is_stale(seen: Option<u64>, now: u64) -> bool {
    match seen {
        Some(t) => now - t > DEVICE_TIMEOUT_MS,
        None => false,
    }
}

/// A device entry calibrated to its current orientation.
pub open spec fn calibrated(e: Option<OrientationDevice>) -> Option<OrientationDevice> {
    match e {
        Some(dev) => Some(OrientationDevice { calibration_origin: dev.current_orientation, ..dev }),
        None => None,
    }
}

/// The present entries of a table indexed by device id, in id order.
pub open spec fn present(s: Seq<Option<OrientationDevice>>) -> Seq<OrientationDevice>
    decreases s.len(),
{
    if s.len() == 0 {
        Seq::empty()
    } else {
        let rest = present(s.drop_last());
        match s.last() {
            Some(d) => rest.push(d),
            None => rest,
        }
    }
}

/// Orientation input state: devices and bookkeeping, each indexed by device id.
#[derive(Clone, Debug)]
pub struct OrientationInputState {
    devices: Vec<Option<OrientationDevice>>,
    last_seen_ms: Vec<Option<u64>>,
    last_event_ms: Vec<u64>,
    last_checked_devices_ms: u64,
}

impl OrientationInputState {
    /// Known devices, indexed by device id.
    pub closed spec fn device_table(self) -> Seq<Option<OrientationDevice>> {
        self.devices@
    }

    /// When each device was last heard from, indexed by device id.
    pub closed spec fn seen_table(self) -> Seq<Option<u64>> {
        self.last_seen_ms@
    }

    /// When each device's last accepted action arrived, indexed by device id.
    pub closed spec fn event_table(self) -> Seq<u64> {
        self.last_event_ms@
    }

    /// When stale devices were last swept.
    pub closed spec fn last_sweep(self) -> u64 {
        self.last_checked_devices_ms
    }

    /// Tables hold one slot per device id; a device sits in the slot of its
    /// id and is present exactly when it has been heard from.
    pub open spec fn wf(self) -> bool {
        &&& self.device_table().len() == DEVICE_ID_COUNT
        &&& self.seen_table().len() == DEVICE_ID_COUNT
        &&& self.event_table().len() == DEVICE_ID_COUNT
        &&& forall|i: int|
            0 <= i < DEVICE_ID_COUNT ==> (#[trigger] self.device_table()[i] is Some
                <==> self.seen_table()[i] is Some)
        &&& forall|i: int|
            0 <= i < DEVICE_ID_COUNT && #[trigger] self.device_table()[i] is Some
                ==> self.device_table()[i]->0.device_id == i
    }

    /// State with no devices.
    pub fn new() -> (s: Self)
        ensures
            s.wf(),
            s.device_table() == Seq::new(DEVICE_ID_COUNT as nat, |i: int| None::<OrientationDevice>),
            s.seen_table() == Seq::new(DEVICE_ID_COUNT as nat, |i: int| None::<u64>),
            s.event_table() == Seq::new(DEVICE_ID_COUNT as nat, |i: int| 0u64),
            s.last_sweep() == 0,
    {
        let mut devices: Vec<Option<OrientationDevice>> = Vec::new();
        let mut seen: Vec<Option<u64>> = Vec::new();
        let mut events: Vec<u64> = Vec::new();
        let mut i: usize = 0;
        while i < DEVICE_ID_COUNT
            invariant
                i <= DEVICE_ID_COUNT,
                devices@ == Seq::new(i as nat, |k: int| None::<OrientationDevice>),
                seen@ == Seq::new(i as nat, |k: int| None::<u64>),
                events@ == Seq::new(i as nat, |k: int| 0u64),
            decreases DEVICE_ID_COUNT - i,
        {
            devices.push(None);
            seen.push(None);
            events.push(0);
            i = i + 1;
        }
        OrientationInputState {
            devices,
            last_seen_ms: seen,
            last_event_ms: events,
            last_checked_devices_ms: 0,
        }
    }

    /// Whether processing `bytes` would compare a known device's timestamp
    /// against a window that leaves the `i32` range.
    pub open spec fn timestamp_window_overflows(self, bytes: Seq<u8>) -> bool {
        match parse_spec(bytes) {
            Some(d) => match self.device_table()[d.device_id as int] {
                Some(dev) => dev.timestamp < i32::MIN + 1000,
                None => false,
            },
            None => false,
        }
    }

    /// Process one datagram received at `now_ms`.
    pub fn process_datagram(&mut self, bytes: &[u8], now_ms: u64) -> (r: Option<DatagramKind>)
        requires
            old(self).wf(),
            !old(self).timestamp_window_overflows(bytes@),
        ensures
            final(self).wf(),
            final(self).last_sweep() == old(self).last_sweep(),
            match parse_spec(bytes@) {
                None => {
                    &&& r is None
                    &&& final(self).device_table() == old(self).device_table()
                    &&& final(self).seen_table() == old(self).seen_table()
                    &&& final(self).event_table() == old(self).event_table()
                },
                Some(d) => {
                    let id = d.device_id as int;
                    &&& r == Some(d.kind)
                    &&& final(self).seen_table() == old(self).seen_table().update(id, Some(now_ms))
                    &&& match old(self).device_table()[id] {
                        None => {
                            &&& final(self).device_table() == old(self).device_table().update(
                                id,
                                Some(device_from(d)),
                            )
                            &&& final(self).event_table() == old(self).event_table()
                        },
                        Some(dev) => {
                            let debounced = now_ms - old(self).event_table()[id]
                                > DEVICE_EVENT_TIMEOUT_MS;
                            &&& final(self).device_table() == old(self).device_table().update(
                                id,
                                Some(device_after(dev, d, debounced)),
                            )
                            &&& final(self).event_table() == if d.action_flag != 0 && debounced {
                                old(self).event_table().update(id, now_ms)
                            } else {
                                old(self).event_table()
                            }
                        },
                    }
                },
            },
    {
        let parsed = parse_datagram_fields(bytes);
        let d = match parsed {
            Some(d) => d,
            None => {
                return None;
            },
        };
        let id = d.device_id as usize;
        self.last_seen_ms.set(id, Some(now_ms));
        let existing = self.devices[id];
        match existing {
            None => {
                let device = OrientationDevice {
                    device_id: d.device_id,
                    timestamp: d.timestamp,
                    kind: d.kind,
                    device_type: d.device_type,
                    calibration_origin: RawQuaternion::identity(),
                    current_orientation: d.orientation,
                    avg_distance_short: match d.avg_distance_short {
                        Some(v) => v,
                        None => 0,
                    },
                    has_speed: d.avg_distance_short.is_some(),
                    action_flag: 0,
                };
                self.devices.set(id, Some(device));
                proof {
                    assert forall|i: int|
                        0 <= i < DEVICE_ID_COUNT implies (#[trigger] self.device_table()[i] is Some
                        <==> self.seen_table()[i] is Some) by {
                        if i != id {
                            assert(self.device_table()[i] == old(self).device_table()[i]);
                        }
                    }
                }
                return Some(d.kind);
            },
            Some(dev) => {
                let mut device = dev;
                let action_flag = d.action_flag;
                if action_flag != 0 {
                    if now_ms.saturating_sub(self.last_event_ms[id]) > DEVICE_EVENT_TIMEOUT_MS {
                        self.last_event_ms.set(id, now_ms);
                        if action_flag == 4 {
                            device.calibration_origin = device.current_orientation;
                        } else if 1 <= action_flag && action_flag <= 3 {
                            device.action_flag = action_flag;
                        }
                    }
                } else {
                    device.action_flag = 0;
                }
                let window_start: i64 = device.timestamp as i64 - 1000;
                if d.timestamp > device.timestamp || (d.timestamp as i64) < window_start {
                    device.timestamp = d.timestamp;
                    device.current_orientation = d.orientation;
                    device.avg_distance_short =
                        match d.avg_distance_short {
                        Some(v) => v,
                        None => 0,
                    };
                    device.has_speed = d.avg_distance_short.is_some();
                }
                self.devices.set(id, Some(device));
                proof {
                    assert forall|i: int|
                        0 <= i < DEVICE_ID_COUNT implies (#[trigger] self.device_table()[i] is Some
                        <==> self.seen_table()[i] is Some) by {
                        if i != id {
                            assert(self.device_table()[i] == old(self).device_table()[i]);
                        }
                    }
                }
                return Some(d.kind);
            },
        }
    }

    /// Calibrate every known device to its current orientation.
    pub fn calibrate_all(&mut self)
        requires
            old(self).wf(),
        ensures
            final(self).wf(),
            final(self).seen_table() == old(self).seen_table(),
            final(self).event_table() == old(self).event_table(),
            final(self).last_sweep() == old(self).last_sweep(),
            final(self).device_table().len() == old(self).device_table().len(),
            forall|i: int|
                0 <= i < DEVICE_ID_COUNT ==> #[trigger] final(self).device_table()[i]
                    == calibrated(old(self).device_table()[i]),
    {
        let mut i: usize = 0;
        while i < DEVICE_ID_COUNT
            invariant
                i <= DEVICE_ID_COUNT,
                self.devices@.len() == DEVICE_ID_COUNT,
                old(self).wf(),
                self.last_seen_ms@ == old(self).seen_table(),
                self.last_event_ms@ == old(self).event_table(),
                self.last_checked_devices_ms == old(self).last_sweep(),
                forall|k: int|
                    0 <= k < i ==> #[trigger] self.devices@[k] == calibrated(
                        old(self).device_table()[k],
                    ),
                forall|k: int|
                    i <= k < DEVICE_ID_COUNT ==> #[trigger] self.devices@[k] == old(
                        self,
                    ).device_table()[k],
            decreases DEVICE_ID_COUNT - i,
        {
            assert(self.devices@[i as int] == old(self).device_table()[i as int]);
            let entry = self.devices[i];
            match entry {
                Some(dev) => {
                    let mut d = dev;
                    d.calibration_origin = d.current_orientation;
                    self.devices.set(i, Some(d));
                },
                None => {},
            }
            assert(self.devices@[i as int] == calibrated(old(self).device_table()[i as int]));
            i = i + 1;
        }
    }

    /// Forget devices silent for more than the device timeout, at most once
    /// per timeout period.
    pub fn remove_stale_devices(&mut self, now_ms: u64)
        requires
            old(self).wf(),
        ensures
            final(self).wf(),
            final(self).event_table() == old(self).event_table(),
            now_ms - old(self).last_sweep() <= DEVICE_TIMEOUT_MS ==> {
                &&& final(self).device_table() == old(self).device_table()
                &&& final(self).seen_table() == old(self).seen_table()
                &&& final(self).last_sweep() == old(self).last_sweep()
            },
            now_ms - old(self).last_sweep() > DEVICE_TIMEOUT_MS ==> {
                &&& final(self).last_sweep() == now_ms
                &&& forall|i: int|
                    0 <= i < DEVICE_ID_COUNT ==> #[trigger] final(self).device_table()[i] == if is_stale(
                        old(self).seen_table()[i],
                        now_ms,
                    ) {
                        None
                    } else {
                        old(self).device_table()[i]
                    }
                &&& forall|i: int|
                    0 <= i < DEVICE_ID_COUNT ==> #[trigger] final(self).seen_table()[i] == if is_stale(
                        old(self).seen_table()[i],
                        now_ms,
                    ) {
                        None
                    } else {
                        old(self).seen_table()[i]
                    }
            },
    {
        if now_ms.saturating_sub(self.last_checked_devices_ms) <= DEVICE_TIMEOUT_MS {
            return ;
        }
        let mut i: usize = 0;
        while i < DEVICE_ID_COUNT
            invariant
                i <= DEVICE_ID_COUNT,
                old(self).wf(),
                now_ms - old(self).last_sweep() > DEVICE_TIMEOUT_MS,
                self.devices@.len() == DEVICE_ID_COUNT,
                self.last_seen_ms@.len() == DEVICE_ID_COUNT,
                self.last_event_ms@ == old(self).event_table(),
                self.last_checked_devices_ms == old(self).last_sweep(),
                forall|k: int|
                    0 <= k < i ==> #[trigger] self.devices@[k] == if is_stale(
                        old(self).seen_table()[k],
                        now_ms,
                    ) {
                        None
                    } else {
                        old(self).device_table()[k]
                    },
                forall|k: int|
                    0 <= k < i ==> #[trigger] self.last_seen_ms@[k] == if is_stale(
                        old(self).seen_table()[k],
                        now_ms,
                    ) {
                        None
                    } else {
                        old(self).seen_table()[k]
                    },
                forall|k: int|
                    i <= k < DEVICE_ID_COUNT ==> #[trigger] self.devices@[k] == old(
                        self,
                    ).device_table()[k],
                forall|k: int|
                    i <= k < DEVICE_ID_COUNT ==> #[trigger] self.last_seen_ms@[k] == old(
                        self,
                    ).seen_table()[k],
            decreases DEVICE_ID_COUNT - i,
        {
            assert(self.devices@[i as int] == old(self).device_table()[i as int]);
            assert(self.last_seen_ms@[i as int] == old(self).seen_table()[i as int]);
            match self.last_seen_ms[i] {
                Some(last_seen) => {
                    if now_ms.saturating_sub(last_seen) > DEVICE_TIMEOUT_MS {
                        self.devices.set(i, None);
                        self.last_seen_ms.set(i, None);
                    }
                },
                None => {},
            }
            assert(self.devices@[i as int] == if is_stale(old(self).seen_table()[i as int], now_ms) {
                None
            } else {
                old(self).device_table()[i as int]
            });
            i = i + 1;
        }
        self.last_checked_devices_ms = now_ms;
    }

    /// Known devices in device-id order.
    pub fn devices(&self) -> (r: Vec<OrientationDevice>)
        requires
            self.wf(),
        ensures
            r@ == present(self.device_table()),
    {
        let mut out: Vec<OrientationDevice> = Vec::new();
        let mut i: usize = 0;
        while i < self.devices.len()
            invariant
                i <= self.devices@.len(),
                out@ == present(self.devices@.subrange(0, i as int)),
            decreases self.devices@.len() - i,
        {
            assert(self.devices@.subrange(0, i + 1).drop_last() == self.devices@.subrange(
                0,
                i as int,
            ));
            match self.devices[i] {
                Some(d) => {
                    out.push(d);
                },
                None => {},
            }
            i = i + 1;
        }
        assert(self.devices@.subrange(0, self.devices@.len() as int) == self.devices@);
        out
    }

    /// Whether at least one device is known and every known device is a poi.
    pub fn only_poi(&self) -> (r: bool)
        requires
            self.wf(),
        ensures
            r == (present(self.device_table()).len() > 0 && forall|k: int|
                0 <= k < present(self.device_table()).len() ==> #[trigger] present(
                    self.device_table(),
                )[k].device_type == 2),
    {
        let devices = self.devices();
        if devices.len() == 0 {
            return false;
        }
        let mut i: usize = 0;
        while i < devices.len()
            invariant
                i <= devices@.len(),
                devices@ == present(self.device_table()),
                forall|k: int| 0 <= k < i ==> #[trigger] devices@[k].device_type == 2,
            decreases devices@.len() - i,
        {
            if devices[i].device_type != 2 {
                assert(present(self.device_table())[i as int].device_type != 2);
                return false;
            }
            i = i + 1;
        }
        true
    }

    /// Number of known devices.
    pub fn device_count(&self) -> (n: usize)
        requires
            self.wf(),
        ensures
            n == present(self.device_table()).len(),
    {
        self.devices().len()
    }
}

impl Default for OrientationInputState {
    fn default() -> (s: Self)
        ensures
            s.wf(),
            present(s.device_table()).len() == 0,
    {
        let s = OrientationInputState::new();
        proof {
            lemma_present_of_empty(s.device_table());
        }
        s
    }
}

/// A table with no entries present lists no devices.
pub proof fn lemma_present_of_empty(s: Seq<Option<OrientationDevice>>)
    requires
        forall|i: int| 0 <= i < s.len() ==> s[i] is None,
    ensures
        present(s).len() == 0,
    decreases s.len(),
{
    if s.len() > 0 {
        lemma_present_of_empty(s.drop_last());
    }
}

/// Known devices are listed in strictly increasing device-id order, each
/// id below the table size.
pub proof fn law_devices_listed_by_id(table: Seq<Option<OrientationDevice>>)
    requires
        forall|i: int| 0 <= i < table.len() && #[trigger] table[i] is Some ==> table[i]->0.device_id == i,
    ensures
        forall|a: int, b: int|
            0 <= a < b < present(table).len() ==> present(table)[a].device_id < present(
                table,
            )[b].device_id,
        forall|a: int| 0 <= a < present(table).len() ==> present(table)[a].device_id < table.len(),
    decreases table.len(),
{
    if table.len() > 0 {
        let rest = table.drop_last();
        assert forall|i: int| 0 <= i < rest.len() && #[trigger] rest[i] is Some implies rest[i]->0.device_id == i by {
            assert(rest[i] == table[i]);
        }
        law_devices_listed_by_id(rest);
        if table.last() is Some {
            assert(table[table.len() - 1] is Some);
        }
    }
}

/// A debounced calibration action (flag 4) makes the calibration origin the
/// orientation the device held before the datagram; the action flag is kept.
pub proof fn law_calibration_action_uses_previous_orientation(
    dev: OrientationDevice,
    d: RawOrientationDatagram,
)
    requires
        d.action_flag == 4,
    ensures
        device_after(dev, d, true).calibration_origin == dev.current_orientation,
        device_after(dev, d, true).action_flag == dev.action_flag,
        device_after(dev, d, false).calibration_origin == dev.calibration_origin,
{
}

} // verus!

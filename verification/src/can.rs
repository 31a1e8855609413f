//! The cluster's CAN interface: a small set of classic (8-byte, 11-bit ID)
//! frames that carry exactly the fields of `Telemetry`, with an encoder and a
//! decoder for them.
//!
//! All multi-byte fields are little-endian (Intel byte order in DBC terms).
//! A frame updates only the fields it carries, so a sender is free to emit a
//! subset -- e.g. just `MOTION` from a bench script -- and the rest keeps its
//! last (or default) value.

use vstd::prelude::*;
use vstd::string::StringSliceAdditionalSpecFns;
use vstd::utf8::{encode_utf8, is_char_boundary};

pub use crate::bus::to_frame;
use crate::fixed::{clamped, quant, rounded_product};
use crate::telemetry::{Beam, Cruise, Lane, Telemetry, TelemetryView, Warn};
use crate::text::{lossy, shows, text_of};

verus! {

/// Speed and drivetrain: `speed_kmh` u16 x0.01, `power` i16 x0.001,
/// `efficiency_percent` u8, `gear` ASCII u8, byte 6 bit 0 `ready`.
pub const ID_MOTION: u16 = 0x100;

/// Energy: `battery_level` u8 %, `fuel_level` u8 %, `range_km` u16,
/// `avg_efficiency_kwh` u16 x0.01, `outside_temp_c` i8.
pub const ID_ENERGY: u16 = 0x101;

/// Trip: `odo_km` u32 x0.1, `trip_seconds` u32.
pub const ID_TRIP: u16 = 0x102;

/// Driver assistance: `cruise_speed_kmh` u8, `cruise` u8, `lane` u8,
/// flags (bit 0 `lta_on`, bit 1 `lca_on`), `turn_distance_km` u16 x0.01.
pub const ID_ADAS: u16 = 0x103;

/// Telltales: byte 0 flags (bit 0 left, 1 right, 2-3 headlights, 4 parking
/// brake, 5 seatbelt, 6 door), then `engine`, `oil`, `battery_warn`, `abs`
/// as 0 off / 1 amber / 2 red.
pub const ID_TELLTALES: u16 = 0x104;

/// Next-turn street name, as UTF-8 in chunks: byte 0 is the chunk index
/// (0..STREET_CHUNKS), bytes 1..8 are up to 7 bytes of text. Chunk 0 starts a
/// new name, so a short name needs only one frame.
pub const ID_STREET: u16 = 0x105;

/// Text bytes per `ID_STREET` frame.
pub const STREET_CHUNK: usize = 7;

/// Chunks per street name; 4 x 7 = 28 bytes.
pub const STREET_CHUNKS: usize = 4;

/// One classic CAN frame: an 11-bit ID and up to 8 data bytes. Kept
/// library-neutral so the encoder and decoder work without a socket.
#[derive(Clone, Debug, PartialEq, Eq)]
pub struct Message {
    pub id: u16,
    pub data: Vec<u8>,
}

/// What a `Message` carries.
#[verifier::ext_equal]
pub struct MessageView {
    pub id: u16,
    pub data: Seq<u8>,
}

impl View for Message {
    type V = MessageView;

    open spec fn view(&self) -> MessageView {
        MessageView { id: self.id, data: self.data@ }
    }
}

/// The frames in `ms`.
pub open spec fn messages(ms: Seq<Message>) -> Seq<MessageView> {
    Seq::new(ms.len(), |i: int| ms[i]@)
}

// ----- the layout of a frame ---------------------------------------------------

/// `n` as two little-endian bytes.
pub open spec fn le16(n: int) -> Seq<u8> {
    seq![(n % 256) as u8, (n / 256) as u8]
}

/// `n` as four little-endian bytes.
pub open spec fn le32(n: int) -> Seq<u8> {
    le16(n % 65536) + le16(n / 65536)
}

/// The little-endian 16-bit field at byte `i`.
pub open spec fn field16(d: Seq<u8>, i: int) -> int {
    d[i] + 256 * d[i + 1]
}

/// The little-endian 32-bit field at byte `i`.
pub open spec fn field32(d: Seq<u8>, i: int) -> int {
    field16(d, i) + 65536 * field16(d, i + 2)
}

/// `n` modulo `modulus`, read as two's complement.
pub open spec fn twos(n: int, modulus: int) -> int {
    if 2 * n < modulus {
        n
    } else {
        n - modulus
    }
}

/// Whether the bit `mask` is set in `b`.
pub open spec fn bit(b: u8, mask: u8) -> bool {
    b & mask != 0
}

/// The bit `mask` if `on`, else nothing.
pub open spec fn weight(on: bool, mask: u8) -> u8 {
    if on {
        mask
    } else {
        0
    }
}

pub open spec fn code_of_warn(w: Warn) -> u8 {
    match w {
        Warn::Off => 0,
        Warn::Amber => 1,
        Warn::Red => 2,
    }
}

pub open spec fn warn_of_code(code: u8) -> Warn {
    if code == 1 {
        Warn::Amber
    } else if code == 2 {
        Warn::Red
    } else {
        Warn::Off
    }
}

pub open spec fn code_of_cruise(c: Cruise) -> u8 {
    match c {
        Cruise::Off => 0,
        Cruise::Armed => 1,
        Cruise::Active => 2,
    }
}

pub open spec fn cruise_of_code(code: u8) -> Cruise {
    if code == 1 {
        Cruise::Armed
    } else if code == 2 {
        Cruise::Active
    } else {
        Cruise::Off
    }
}

pub open spec fn code_of_lane(l: Lane) -> u8 {
    match l {
        Lane::Off => 0,
        Lane::Tracking => 1,
        Lane::Warn => 2,
        Lane::Depart => 3,
    }
}

pub open spec fn lane_of_code(code: u8) -> Lane {
    if code == 1 {
        Lane::Tracking
    } else if code == 2 {
        Lane::Warn
    } else if code == 3 {
        Lane::Depart
    } else {
        Lane::Off
    }
}

pub open spec fn code_of_beam(b: Beam) -> u8 {
    match b {
        Beam::Off => 0,
        Beam::Low => 1,
        Beam::High => 2,
    }
}

pub open spec fn beam_of_code(code: u8) -> Beam {
    if code == 1 {
        Beam::Low
    } else if code == 2 {
        Beam::High
    } else {
        Beam::Off
    }
}

/// `v` times `k`, to the nearest integer, within `lo..=hi`.
pub open spec fn scaled(v: i64, k: int, lo: int, hi: int) -> int {
    clamped(rounded_product(v as int, k), lo, hi)
}

/// An ASCII gear letter as its byte, any other character as '?'.
pub open spec fn gear_byte(c: char) -> u8 {
    if c as u32 <= 127 {
        c as u8
    } else {
        0x3f
    }
}

/// The `ID_MOTION` frame of `t`.
pub open spec fn motion_message(t: TelemetryView) -> MessageView {
    MessageView {
        id: ID_MOTION,
        data: le16(scaled(t.speed_kmh, 100, 0, 65535)) + le16(
            scaled(t.power, 1_000, -1000, 1000) % 65536,
        ) + seq![
            scaled(t.efficiency_percent, 1, 0, 255) as u8,
            gear_byte(t.gear),
            weight(t.ready, 1),
            0u8,
        ],
    }
}

/// The `ID_ENERGY` frame of `t`.
pub open spec fn energy_message(t: TelemetryView) -> MessageView {
    MessageView {
        id: ID_ENERGY,
        data: seq![
            scaled(t.battery_level, 100, 0, 100) as u8,
            scaled(t.fuel_level, 100, 0, 100) as u8,
        ] + le16(scaled(t.range_km, 1, 0, 65535)) + le16(
            scaled(t.avg_efficiency_kwh, 100, 0, 65535),
        ) + seq![(clamped(t.outside_temp_c as int, -128, 127) % 256) as u8, 0u8],
    }
}

/// The `ID_TRIP` frame of `t`.
pub open spec fn trip_message(t: TelemetryView) -> MessageView {
    MessageView {
        id: ID_TRIP,
        data: le32(scaled(t.odo_km, 10, 0, 0xffff_ffff)) + le32(t.trip_seconds as int),
    }
}

/// The `ID_ADAS` frame of `t`.
pub open spec fn adas_message(t: TelemetryView) -> MessageView {
    MessageView {
        id: ID_ADAS,
        data: seq![
            scaled(t.cruise_speed_kmh, 1, 0, 255) as u8,
            code_of_cruise(t.cruise),
            code_of_lane(t.lane),
            weight(t.lta_on, 1) | weight(t.lca_on, 2),
        ] + le16(scaled(t.turn_distance_km, 100, 0, 65535)) + seq![0u8, 0u8],
    }
}

/// The lamp flags of `t`, one byte.
pub open spec fn lamp_flags(t: TelemetryView) -> u8 {
    weight(t.turn_left, 1) | weight(t.turn_right, 2) | (code_of_beam(t.headlights) << 2) | weight(
        t.parking_brake,
        0x10,
    ) | weight(t.seatbelt, 0x20) | weight(t.door_open, 0x40)
}

/// The `ID_TELLTALES` frame of `t`.
pub open spec fn telltales_message(t: TelemetryView) -> MessageView {
    MessageView {
        id: ID_TELLTALES,
        data: seq![
            lamp_flags(t),
            code_of_warn(t.engine),
            code_of_warn(t.oil),
            code_of_warn(t.battery_warn),
            code_of_warn(t.abs),
            0u8,
            0u8,
            0u8,
        ],
    }
}

/// The last character boundary of `bytes` that is not past `n`.
pub open spec fn boundary_upto(bytes: Seq<u8>, n: int) -> int
    decreases n,
{
    if n <= 0 || is_char_boundary(bytes, n) {
        n
    } else {
        boundary_upto(bytes, n - 1)
    }
}

/// The bytes of `name` that are sent: all of them if they fit the chunks, else
/// as many as fit without tearing a character.
pub open spec fn street_bytes(name: Seq<char>) -> Seq<u8> {
    let bytes = encode_utf8(name);
    if bytes.len() <= 28 {
        bytes
    } else {
        bytes.take(boundary_upto(bytes, 28))
    }
}

/// How many chunks carry `n` bytes of text; a name has at least one.
pub open spec fn chunk_count(n: int) -> int {
    if n <= 0 {
        1
    } else {
        (n + 6) / 7
    }
}

/// Chunk `i` of the text `bytes`.
pub open spec fn street_message(bytes: Seq<u8>, i: int) -> MessageView {
    let end = if 7 * i + 7 < bytes.len() {
        7 * i + 7
    } else {
        bytes.len() as int
    };
    MessageView { id: ID_STREET, data: seq![i as u8] + bytes.subrange(7 * i, end) }
}

/// The `ID_STREET` frames of `name`.
pub open spec fn street_messages(name: Seq<char>) -> Seq<MessageView> {
    let bytes = street_bytes(name);
    Seq::new(chunk_count(bytes.len() as int) as nat, |i: int| street_message(bytes, i))
}

/// All the frames that carry `t`, in the order they are sent.
pub open spec fn encoded(t: TelemetryView) -> Seq<MessageView> {
    seq![
        motion_message(t),
        energy_message(t),
        trip_message(t),
        adas_message(t),
        telltales_message(t),
    ] + street_messages(t.turn_street)
}

// ----- the meaning of a frame ----------------------------------------------------

/// Whether this cluster knows the frame `id`.
pub open spec fn known(id: u16) -> bool {
    ID_MOTION <= id <= ID_STREET
}

/// `t` after the `ID_MOTION` frame `d`.
pub open spec fn after_motion(t: TelemetryView, d: Seq<u8>) -> TelemetryView {
    TelemetryView {
        speed_kmh: if d.len() >= 2 {
            (field16(d, 0) * 10_000) as i64
        } else {
            t.speed_kmh
        },
        power: if d.len() >= 4 {
            (twos(field16(d, 2), 65536) * 1_000) as i64
        } else {
            t.power
        },
        efficiency_percent: if d.len() >= 5 {
            (d[4] * 1_000_000) as i64
        } else {
            t.efficiency_percent
        },
        gear: if d.len() >= 6 {
            d[5] as char
        } else {
            t.gear
        },
        ready: if d.len() >= 7 {
            bit(d[6], 1)
        } else {
            t.ready
        },
        ..t
    }
}

/// `t` after the `ID_ENERGY` frame `d`.
pub open spec fn after_energy(t: TelemetryView, d: Seq<u8>) -> TelemetryView {
    TelemetryView {
        battery_level: if d.len() >= 1 {
            (d[0] * 10_000) as i64
        } else {
            t.battery_level
        },
        fuel_level: if d.len() >= 2 {
            (d[1] * 10_000) as i64
        } else {
            t.fuel_level
        },
        range_km: if d.len() >= 4 {
            (field16(d, 2) * 1_000_000) as i64
        } else {
            t.range_km
        },
        avg_efficiency_kwh: if d.len() >= 6 {
            (field16(d, 4) * 10_000) as i64
        } else {
            t.avg_efficiency_kwh
        },
        outside_temp_c: if d.len() >= 7 {
            twos(d[6] as int, 256) as i32
        } else {
            t.outside_temp_c
        },
        ..t
    }
}

/// `t` after the `ID_TRIP` frame `d`.
pub open spec fn after_trip(t: TelemetryView, d: Seq<u8>) -> TelemetryView {
    TelemetryView {
        odo_km: if d.len() >= 4 {
            (field32(d, 0) * 100_000) as i64
        } else {
            t.odo_km
        },
        trip_seconds: if d.len() >= 8 {
            field32(d, 4) as u32
        } else {
            t.trip_seconds
        },
        ..t
    }
}

/// `t` after the `ID_ADAS` frame `d`.
pub open spec fn after_adas(t: TelemetryView, d: Seq<u8>) -> TelemetryView {
    TelemetryView {
        cruise_speed_kmh: if d.len() >= 1 {
            (d[0] * 1_000_000) as i64
        } else {
            t.cruise_speed_kmh
        },
        cruise: if d.len() >= 2 {
            cruise_of_code(d[1])
        } else {
            t.cruise
        },
        lane: if d.len() >= 3 {
            lane_of_code(d[2])
        } else {
            t.lane
        },
        lta_on: if d.len() >= 4 {
            bit(d[3], 1)
        } else {
            t.lta_on
        },
        lca_on: if d.len() >= 4 {
            bit(d[3], 2)
        } else {
            t.lca_on
        },
        turn_distance_km: if d.len() >= 6 {
            (field16(d, 4) * 10_000) as i64
        } else {
            t.turn_distance_km
        },
        ..t
    }
}

/// `t` with the lamps of the flag byte `f`.
pub open spec fn with_lamps(t: TelemetryView, f: u8) -> TelemetryView {
    TelemetryView {
        turn_left: bit(f, 1),
        turn_right: bit(f, 2),
        headlights: beam_of_code((f >> 2) & 3),
        parking_brake: bit(f, 0x10),
        seatbelt: bit(f, 0x20),
        door_open: bit(f, 0x40),
        ..t
    }
}

/// `t` after the `ID_TELLTALES` frame `d`.
pub open spec fn after_telltales(t: TelemetryView, d: Seq<u8>) -> TelemetryView {
    let lit = if d.len() >= 1 {
        with_lamps(t, d[0])
    } else {
        t
    };
    TelemetryView {
        engine: if d.len() >= 2 {
            warn_of_code(d[1])
        } else {
            t.engine
        },
        oil: if d.len() >= 3 {
            warn_of_code(d[2])
        } else {
            t.oil
        },
        battery_warn: if d.len() >= 4 {
            warn_of_code(d[3])
        } else {
            t.battery_warn
        },
        abs: if d.len() >= 5 {
            warn_of_code(d[4])
        } else {
            t.abs
        },
        ..lit
    }
}

/// Whether `d` is a street frame that carries a chunk.
pub open spec fn is_chunk(d: Seq<u8>) -> bool {
    d.len() >= 1 && d[0] < 4
}

/// The reassembly buffer `buffer` after the chunk `d`: chunk 0 clears the rest,
/// and text the frame does not carry is zero.
pub open spec fn with_chunk(buffer: Seq<u8>, d: Seq<u8>) -> Seq<u8> {
    let first = 7 * d[0];
    Seq::new(
        28,
        |k: int|
            if first <= k < first + 7 {
                if k - first + 1 < d.len() {
                    d[k - first + 1]
                } else {
                    0u8
                }
            } else if d[0] == 0 {
                0u8
            } else {
                buffer[k]
            },
    )
}

/// Where the first zero byte of `bytes` at or after `i` is, or the end.
pub open spec fn zero_from(bytes: Seq<u8>, i: int) -> int
    decreases bytes.len() - i,
{
    if i >= bytes.len() || bytes[i] == 0 {
        i
    } else {
        zero_from(bytes, i + 1)
    }
}

/// The bytes of the name in a reassembly buffer: those up to the first zero
/// byte.
pub open spec fn name_bytes(buffer: Seq<u8>) -> Seq<u8> {
    buffer.take(zero_from(buffer, 0))
}

/// The name in a reassembly buffer: the text up to the first zero byte.
pub open spec fn name_in(buffer: Seq<u8>) -> Seq<char> {
    text_of(name_bytes(buffer))
}

/// The reassembly buffer after the frame `id`, `d`.
pub open spec fn buffer_after(buffer: Seq<u8>, id: u16, d: Seq<u8>) -> Seq<u8> {
    if id == ID_STREET && is_chunk(d) {
        with_chunk(buffer, d)
    } else {
        buffer
    }
}

/// `t` after the frame `id`, `d`.
pub open spec fn decoded(t: TelemetryView, buffer: Seq<u8>, id: u16, d: Seq<u8>) -> TelemetryView {
    if id == ID_MOTION {
        after_motion(t, d)
    } else if id == ID_ENERGY {
        after_energy(t, d)
    } else if id == ID_TRIP {
        after_trip(t, d)
    } else if id == ID_ADAS {
        after_adas(t, d)
    } else if id == ID_TELLTALES {
        after_telltales(t, d)
    } else if id == ID_STREET && is_chunk(d) {
        TelemetryView { turn_street: name_in(with_chunk(buffer, d)), ..t }
    } else {
        t
    }
}

// ----- encoding ------------------------------------------------------------------

pub fn warn_code(w: Warn) -> (code: u8)
    ensures
        code == code_of_warn(w),
{
    match w {
        Warn::Off => 0,
        Warn::Amber => 1,
        Warn::Red => 2,
    }
}

pub fn warn_from(code: u8) -> (w: Warn)
    ensures
        w == warn_of_code(code),
{
    match code {
        1 => Warn::Amber,
        2 => Warn::Red,
        _ => Warn::Off,
    }
}

/// The bit `mask` if `on`, else zero.
fn flag(on: bool, mask: u8) -> (n: u8)
    ensures
        n == weight(on, mask),
{
    if on {
        mask
    } else {
        0
    }
}

/// Append `n` as two little-endian bytes.
fn push_u16(d: &mut Vec<u8>, n: u16)
    ensures
        final(d)@ == old(d)@ + le16(n as int),
{
    d.push((n % 256) as u8);
    d.push((n / 256) as u8);
}

/// Append `n` as four little-endian bytes.
fn push_u32(d: &mut Vec<u8>, n: u32)
    ensures
        final(d)@ == old(d)@ + le32(n as int),
{
    push_u16(d, (n % 65536) as u16);
    push_u16(d, (n / 65536) as u16);
    assert(d@ == old(d)@ + le32(n as int));
}

fn motion(t: &Telemetry) -> (m: Message)
    ensures
        m@ == motion_message(t@),
{
    let speed: u16 = quant(t.speed_kmh, 100, 0, 65535) as u16;
    let power: i64 = quant(t.power, 1_000, -1000, 1000);
    let power: u16 = if power < 0 { (power + 65536) as u16 } else { power as u16 };
    let mut d: Vec<u8> = Vec::with_capacity(8);
    push_u16(&mut d, speed);
    push_u16(&mut d, power);
    d.push(quant(t.efficiency_percent, 1, 0, 255) as u8);
    d.push(if t.gear as u32 <= 127 { t.gear as u8 } else { 0x3f });
    d.push(flag(t.ready, 1));
    d.push(0);
    assert(d@ == motion_message(t@).data);
    Message { id: ID_MOTION, data: d }
}

fn energy(t: &Telemetry) -> (m: Message)
    ensures
        m@ == energy_message(t@),
{
    let mut d: Vec<u8> = Vec::with_capacity(8);
    d.push(quant(t.battery_level, 100, 0, 100) as u8);
    d.push(quant(t.fuel_level, 100, 0, 100) as u8);
    push_u16(&mut d, quant(t.range_km, 1, 0, 65535) as u16);
    push_u16(&mut d, quant(t.avg_efficiency_kwh, 100, 0, 65535) as u16);
    let temp: i32 = if t.outside_temp_c < -128 {
        -128
    } else if t.outside_temp_c > 127 {
        127
    } else {
        t.outside_temp_c
    };
    d.push(if temp < 0 { (temp + 256) as u8 } else { temp as u8 });
    d.push(0);
    assert(d@ == energy_message(t@).data);
    Message { id: ID_ENERGY, data: d }
}

fn trip(t: &Telemetry) -> (m: Message)
    ensures
        m@ == trip_message(t@),
{
    let mut d: Vec<u8> = Vec::with_capacity(8);
    push_u32(&mut d, quant(t.odo_km, 10, 0, 0xffff_ffff) as u32);
    push_u32(&mut d, t.trip_seconds);
    assert(d@ == trip_message(t@).data);
    Message { id: ID_TRIP, data: d }
}

fn adas(t: &Telemetry) -> (m: Message)
    ensures
        m@ == adas_message(t@),
{
    let mut d: Vec<u8> = Vec::with_capacity(8);
    d.push(quant(t.cruise_speed_kmh, 1, 0, 255) as u8);
    d.push(
        match t.cruise {
            Cruise::Off => 0,
            Cruise::Armed => 1,
            Cruise::Active => 2,
        },
    );
    d.push(
        match t.lane {
            Lane::Off => 0,
            Lane::Tracking => 1,
            Lane::Warn => 2,
            Lane::Depart => 3,
        },
    );
    d.push(flag(t.lta_on, 1) | flag(t.lca_on, 2));
    push_u16(&mut d, quant(t.turn_distance_km, 100, 0, 65535) as u16);
    d.push(0);
    d.push(0);
    assert(d@ == adas_message(t@).data);
    Message { id: ID_ADAS, data: d }
}

/// The lamp flags, one byte.
fn lamps(t: &Telemetry) -> (flags: u8)
    ensures
        flags == lamp_flags(t@),
{
    let beam: u8 = match t.headlights {
        Beam::Off => 0,
        Beam::Low => 1,
        Beam::High => 2,
    };
    flag(t.turn_left, 1) | flag(t.turn_right, 2) | (beam << 2) | flag(t.parking_brake, 0x10) | flag(
        t.seatbelt,
        0x20,
    ) | flag(t.door_open, 0x40)
}

fn telltales(t: &Telemetry) -> (m: Message)
    ensures
        m@ == telltales_message(t@),
{
    let mut d: Vec<u8> = Vec::with_capacity(8);
    d.push(lamps(t));
    d.push(warn_code(t.engine));
    d.push(warn_code(t.oil));
    d.push(warn_code(t.battery_warn));
    d.push(warn_code(t.abs));
    d.push(0);
    d.push(0);
    d.push(0);
    assert(d@ == telltales_message(t@).data);
    Message { id: ID_TELLTALES, data: d }
}

/// The street name is cut at a character boundary so no chunk carries a
/// torn UTF-8 sequence -- the decoder tolerates one, but tools like
/// candump are nicer to read this way.
fn street_length(name: &str) -> (n: usize)
    ensures
        n <= 28,
        n <= encode_utf8(name@).len(),
        encode_utf8(name@).take(n as int) == street_bytes(name@),
{
    let bytes: &[u8] = name.as_bytes();
    let max: usize = STREET_CHUNK * STREET_CHUNKS;
    if bytes.len() <= max {
        assert(bytes@.take(bytes@.len() as int) == bytes@);
        return bytes.len();
    }
    let mut cut: usize = max;
    while cut > 0 && !name.is_char_boundary(cut)
        invariant
            bytes@ == encode_utf8(name@),
            cut <= 28 < bytes@.len(),
            boundary_upto(bytes@, cut as int) == boundary_upto(bytes@, 28),
        decreases cut,
    {
        cut = cut - 1;
    }
    cut
}

/// Encode a whole `Telemetry` frame as the set of CAN messages that carry it.
pub fn encode(t: &Telemetry) -> (out: Vec<Message>)
    ensures
        messages(out@) == encoded(t@),
{
    let mut out: Vec<Message> = Vec::with_capacity(5 + STREET_CHUNKS);
    out.push(motion(t));
    out.push(energy(t));
    out.push(trip(t));
    out.push(adas(t));
    out.push(telltales(t));
    let ghost head = messages(out@);

    let n: usize = street_length(t.turn_street.as_str());
    let bytes: &[u8] = t.turn_street.as_str().as_bytes();
    let ghost sent = bytes@.take(n as int);
    let chunks: usize = if n == 0 { 1 } else { (n + 6) / STREET_CHUNK };
    let mut i: usize = 0;
    while i < chunks
        invariant
            n <= 28,
            n <= bytes@.len(),
            sent == bytes@.take(n as int),
            chunks == chunk_count(n as int),
            i <= chunks,
            messages(out@) == head + Seq::new(i as nat, |k: int| street_message(sent, k)),
        decreases chunks - i,
    {
        let start: usize = i * STREET_CHUNK;
        let end: usize = if start + STREET_CHUNK < n { start + STREET_CHUNK } else { n };
        let mut d: Vec<u8> = Vec::with_capacity(8);
        d.push(i as u8);
        let mut k: usize = start;
        while k < end
            invariant
                start <= k <= end <= n <= bytes@.len(),
                sent == bytes@.take(n as int),
                d@ == seq![i as u8] + sent.subrange(start as int, k as int),
            decreases end - k,
        {
            d.push(bytes[k]);
            k = k + 1;
            assert(d@ == seq![i as u8] + sent.subrange(start as int, k as int));
        }
        let ghost before = messages(out@);
        out.push(Message { id: ID_STREET, data: d });
        assert(messages(out@) == before.push(street_message(sent, i as int)));
        i = i + 1;
        assert(messages(out@) == head + Seq::new(i as nat, |k: int| street_message(sent, k)));
    }
    assert(messages(out@) == encoded(t@));
    out
}

// ----- decoding ------------------------------------------------------------------

/// Reassembly buffer for the street name, which spans several frames.
pub struct StreetBuffer {
    bytes: [u8; 28],
}

impl View for StreetBuffer {
    type V = Seq<u8>;

    closed spec fn view(&self) -> Seq<u8> {
        self.bytes@
    }
}

impl Default for StreetBuffer {
    fn default() -> (b: Self)
        ensures
            b@ == Seq::new(28, |i: int| 0u8),
    {
        let b: StreetBuffer = StreetBuffer { bytes: [0u8; 28] };
        assert(b@ == Seq::new(28, |i: int| 0u8));
        b
    }
}

impl StreetBuffer {
    /// The name received so far.
    pub fn text(&self) -> (s: String)
        ensures
            s@ == name_in(self@),
            self@.len() == 28,
            shows(s@, name_bytes(self@)),
            !s@.contains('\0'),
    {
        let mut end: usize = 0;
        while end < 28 && self.bytes[end] != 0
            invariant
                end <= 28,
                forall|k: int| 0 <= k < end ==> self@[k] != 0,
                zero_from(self@, end as int) == zero_from(self@, 0),
            decreases 28 - end,
        {
            end = end + 1;
        }
        let bytes: &[u8] = self.bytes.as_slice();
        let text: &[u8] = vstd::slice::slice_subrange(bytes, 0, end);
        assert(text@ == name_bytes(self@));
        assert(!text@.contains(0u8));
        lossy(text)
    }

    /// Store the chunk `d` in its place.
    fn store(&mut self, d: &[u8])
        requires
            is_chunk(d@),
        ensures
            final(self)@ == with_chunk(old(self)@, d@),
    {
        let i: usize = d[0] as usize;
        let first: usize = i * STREET_CHUNK;
        let mut k: usize = 0;
        while k < 28
            invariant
                k <= 28,
                is_chunk(d@),
                i == d@[0],
                first == 7 * i,
                self@.len() == 28,
                forall|j: int| 0 <= j < k ==> self@[j] == with_chunk(old(self)@, d@)[j],
                forall|j: int| k <= j < 28 ==> self@[j] == old(self)@[j],
            decreases 28 - k,
        {
            if first <= k && k < first + STREET_CHUNK {
                let at: usize = k - first + 1;
                self.bytes[k] = if at < d.len() { d[at] } else { 0 };
            } else if i == 0 {
                self.bytes[k] = 0;
            }
            k = k + 1;
        }
        assert(self@ == with_chunk(old(self)@, d@));
    }
}

pub fn u16_at(d: &[u8], i: usize) -> (n: u16)
    requires
        i + 2 <= d@.len(),
    ensures
        n == field16(d@, i as int),
{
    d[i] as u16 + 256 * (d[i + 1] as u16)
}

pub fn u32_at(d: &[u8], i: usize) -> (n: u32)
    requires
        i + 4 <= d@.len(),
    ensures
        n == field32(d@, i as int),
{
    assert(i + 4 <= d.len());
    u16_at(d, i) as u32 + 65536 * (u16_at(d, i + 2) as u32)
}

/// A signed 16-bit field at byte `i`.
fn i16_at(d: &[u8], i: usize) -> (n: i64)
    requires
        i + 2 <= d@.len(),
    ensures
        n == twos(field16(d@, i as int), 65536),
{
    let n: i64 = u16_at(d, i) as i64;
    if n < 32768 {
        n
    } else {
        n - 65536
    }
}

/// A byte as a signed number.
fn signed(b: u8) -> (n: i32)
    ensures
        n == twos(b as int, 256),
{
    if b < 128 {
        b as i32
    } else {
        b as i32 - 256
    }
}

fn cruise_from(code: u8) -> (c: Cruise)
    ensures
        c == cruise_of_code(code),
{
    match code {
        1 => Cruise::Armed,
        2 => Cruise::Active,
        _ => Cruise::Off,
    }
}

fn lane_from(code: u8) -> (l: Lane)
    ensures
        l == lane_of_code(code),
{
    match code {
        1 => Lane::Tracking,
        2 => Lane::Warn,
        3 => Lane::Depart,
        _ => Lane::Off,
    }
}

fn decode_motion(t: &mut Telemetry, d: &[u8])
    ensures
        final(t)@ == after_motion(old(t)@, d@),
{
    let n: usize = d.len();
    t.speed_kmh = if n >= 2 { u16_at(d, 0) as i64 * 10_000 } else { t.speed_kmh };
    t.power = if n >= 4 { i16_at(d, 2) * 1_000 } else { t.power };
    t.efficiency_percent = if n >= 5 { d[4] as i64 * 1_000_000 } else { t.efficiency_percent };
    t.gear = if n >= 6 { d[5] as char } else { t.gear };
    t.ready = if n >= 7 { d[6] & 1 != 0 } else { t.ready };
}

fn decode_energy(t: &mut Telemetry, d: &[u8])
    ensures
        final(t)@ == after_energy(old(t)@, d@),
{
    let n: usize = d.len();
    t.battery_level = if n >= 1 { d[0] as i64 * 10_000 } else { t.battery_level };
    t.fuel_level = if n >= 2 { d[1] as i64 * 10_000 } else { t.fuel_level };
    t.range_km = if n >= 4 { u16_at(d, 2) as i64 * 1_000_000 } else { t.range_km };
    t.avg_efficiency_kwh = if n >= 6 { u16_at(d, 4) as i64 * 10_000 } else { t.avg_efficiency_kwh };
    t.outside_temp_c = if n >= 7 { signed(d[6]) } else { t.outside_temp_c };
}

fn decode_trip(t: &mut Telemetry, d: &[u8])
    ensures
        final(t)@ == after_trip(old(t)@, d@),
{
    let n: usize = d.len();
    t.odo_km = if n >= 4 { u32_at(d, 0) as i64 * 100_000 } else { t.odo_km };
    t.trip_seconds = if n >= 8 { u32_at(d, 4) } else { t.trip_seconds };
}

fn decode_adas(t: &mut Telemetry, d: &[u8])
    ensures
        final(t)@ == after_adas(old(t)@, d@),
{
    let n: usize = d.len();
    t.cruise_speed_kmh = if n >= 1 { d[0] as i64 * 1_000_000 } else { t.cruise_speed_kmh };
    t.cruise = if n >= 2 { cruise_from(d[1]) } else { t.cruise };
    t.lane = if n >= 3 { lane_from(d[2]) } else { t.lane };
    t.lta_on = if n >= 4 { d[3] & 1 != 0 } else { t.lta_on };
    t.lca_on = if n >= 4 { d[3] & 2 != 0 } else { t.lca_on };
    t.turn_distance_km = if n >= 6 { u16_at(d, 4) as i64 * 10_000 } else { t.turn_distance_km };
}

fn decode_lamps(t: &mut Telemetry, f: u8)
    ensures
        final(t)@ == with_lamps(old(t)@, f),
{
    t.turn_left = f & 1 != 0;
    t.turn_right = f & 2 != 0;
    t.headlights = match (f >> 2) & 3 {
        1 => Beam::Low,
        2 => Beam::High,
        _ => Beam::Off,
    };
    t.parking_brake = f & 0x10 != 0;
    t.seatbelt = f & 0x20 != 0;
    t.door_open = f & 0x40 != 0;
}

fn decode_telltales(t: &mut Telemetry, d: &[u8])
    ensures
        final(t)@ == after_telltales(old(t)@, d@),
{
    let n: usize = d.len();
    if n >= 1 {
        decode_lamps(t, d[0]);
    }
    t.engine = if n >= 2 { warn_from(d[1]) } else { t.engine };
    t.oil = if n >= 3 { warn_from(d[2]) } else { t.oil };
    t.battery_warn = if n >= 4 { warn_from(d[3]) } else { t.battery_warn };
    t.abs = if n >= 5 { warn_from(d[4]) } else { t.abs };
}

/// Apply one CAN message to `t`. A frame may be shorter than its message:
/// only the fields it fully contains are updated, so `cansend vcan0 100#1027`
/// sets the speed and nothing else. Returns `false` for an ID this cluster
/// does not know; `t` is then untouched.
pub fn decode(t: &mut Telemetry, street: &mut StreetBuffer, id: u16, d: &[u8]) -> (r: bool)
    ensures
        r == known(id),
        final(t)@ == decoded(old(t)@, old(street)@, id, d@),
        final(street)@ == buffer_after(old(street)@, id, d@),
        id == ID_STREET && is_chunk(d@) ==> shows(
            final(t)@.turn_street,
            name_bytes(final(street)@),
        ) && !final(t)@.turn_street.contains('\0'),
        !r ==> *final(t) == *old(t) && *final(street) == *old(street),
{
    match id {
        ID_MOTION => decode_motion(t, d),
        ID_ENERGY => decode_energy(t, d),
        ID_TRIP => decode_trip(t, d),
        ID_ADAS => decode_adas(t, d),
        ID_TELLTALES => decode_telltales(t, d),
        ID_STREET => {
            if d.len() >= 1 && (d[0] as usize) < STREET_CHUNKS {
                street.store(d);
                t.turn_street = street.text();
            }
        },
        _ => return false,
    }
    true
}

} // verus!

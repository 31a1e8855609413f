//! Between the frames of a SocketCAN interface and the cluster's messages.

use socketcan::{CanFrame, EmbeddedFrame, Frame};
use vstd::prelude::*;

use crate::can::{
    buffer_after, decode, decoded, is_chunk, known, name_bytes, Message, MessageView, StreetBuffer,
    ID_STREET,
};
use crate::telemetry::{Telemetry, TelemetryView};
use crate::text::shows;

verus! {

// ----- frames of the socketcan crate -----------------------------------------------

/// A classic CAN frame of the `socketcan` crate.
#[verifier::external_type_specification]
#[verifier::external_body]
pub struct ExCanFrame(socketcan::CanFrame);

/// Whether a frame is a data frame, neither a remote nor an error frame.
pub uninterp spec fn frame_is_data(frame: CanFrame) -> bool;

/// Whether a frame has a 29-bit identifier: what its `is_extended` returns.
pub uninterp spec fn frame_extended(frame: CanFrame) -> bool;

/// The identifier of a frame, without flags: what its `raw_id` returns.
pub uninterp spec fn frame_id(frame: CanFrame) -> u32;

/// How many data bytes a frame claims to have: what its `dlc` returns.
pub uninterp spec fn frame_length(frame: CanFrame) -> usize;

/// The data bytes that a frame holds: what its `data` returns.
pub uninterp spec fn frame_data(frame: CanFrame) -> Seq<u8>;

/// `socketcan::Frame::from_raw_id` on a `CanFrame`: a data frame for an
/// identifier of at most 29 bits and at most 8 bytes, nothing otherwise. The
/// frame holds the identifier and the bytes as given; the identifier is a
/// standard one if it fits 11 bits.
#[verifier::external_body]
fn from_raw_id(id: u32, data: &[u8]) -> (made: Option<CanFrame>)
    ensures
        made is Some == (id <= 0x1fff_ffff && data@.len() <= 8),
        made is Some ==> frame_is_data(made->0),
        made is Some ==> frame_extended(made->0) == (id > 0x7ff),
        made is Some ==> frame_id(made->0) == id,
        made is Some ==> frame_length(made->0) == data@.len(),
        made is Some ==> frame_data(made->0) == data@,
{
    CanFrame::from_raw_id(id, data)
}

/// The variant `socketcan::CanFrame::Data`, as opposed to `Remote` and `Error`.
#[verifier::external_body]
fn is_data(frame: &CanFrame) -> (r: bool)
    ensures
        r == frame_is_data(*frame),
{
    match frame {
        CanFrame::Data(_) => true,
        CanFrame::Remote(_) => false,
        CanFrame::Error(_) => false,
    }
}

/// `is_extended` of a `CanFrame`: whether it has a 29-bit identifier.
#[verifier::external_body]
fn is_extended(frame: &CanFrame) -> (r: bool)
    ensures
        r == frame_extended(*frame),
{
    frame.is_extended()
}

/// `raw_id` of a `CanFrame`: its identifier without flags, 11 bits of it if it
/// is a standard one.
#[verifier::external_body]
fn raw_id(frame: &CanFrame) -> (id: u32)
    ensures
        id == frame_id(*frame),
        frame_extended(*frame) || id <= 0x7ff,
{
    frame.raw_id()
}

/// `dlc` of a `CanFrame`: how many data bytes it claims to have.
#[verifier::external_body]
fn length(frame: &CanFrame) -> (n: usize)
    ensures
        n == frame_length(*frame),
{
    frame.dlc()
}

/// `data` of a `CanFrame` that is a data frame: as many bytes as its length
/// says. It panics on a length of more than 8, which a frame made from a raw
/// structure may have.
#[verifier::external_body]
fn data(frame: &CanFrame) -> (d: &[u8])
    requires
        frame_is_data(*frame),
        frame_length(*frame) <= 8,
    ensures
        d@ == frame_data(*frame),
        d@.len() == frame_length(*frame),
{
    frame.data()
}

// ----- sending and receiving --------------------------------------------------------

/// The message in a frame. Remote and error frames carry no signal data, and
/// only standard identifiers are assigned; a length of more than 8 is none of a
/// classic frame.
pub open spec fn message_in(frame: CanFrame) -> Option<(u16, Seq<u8>)> {
    if frame_is_data(frame) && !frame_extended(frame) && frame_length(frame) <= 8 {
        Some((frame_id(frame) as u16, frame_data(frame)))
    } else {
        None
    }
}

/// Whether `frame` is a data frame that carries `m` and nothing else.
pub open spec fn carries(frame: CanFrame, m: MessageView) -> bool {
    &&& frame_is_data(frame)
    &&& frame_id(frame) == m.id
    &&& frame_extended(frame) == (m.id > 0x7ff)
    &&& frame_length(frame) == m.data.len()
    &&& frame_data(frame) == m.data
}

/// Whether `frame` is a message that this cluster knows.
pub open spec fn understood(frame: CanFrame) -> bool {
    match message_in(frame) {
        Some((id, d)) => known(id),
        None => false,
    }
}

/// `t` and the reassembly buffer after `frame`.
pub open spec fn after_frame(t: TelemetryView, buffer: Seq<u8>, frame: CanFrame) -> (
    TelemetryView,
    Seq<u8>,
) {
    match message_in(frame) {
        Some((id, d)) => (decoded(t, buffer, id, d), buffer_after(buffer, id, d)),
        None => (t, buffer),
    }
}

/// Build a SocketCAN frame from a `Message`, for senders such as a simulated
/// vehicle.
pub fn to_frame(m: &Message) -> (frame: CanFrame)
    requires
        m@.data.len() <= 8,
    ensures
        carries(frame, m@),
        frame_is_data(frame),
        frame_id(frame) == m@.id,
        frame_length(frame) == m@.data.len(),
        frame_data(frame) == m@.data,
        frame_extended(frame) == (m@.id > 0x7ff),
        m@.id <= 0x7ff ==> message_in(frame) == Some((m@.id, m@.data)),
{
    from_raw_id(m.id as u32, m.data.as_slice()).unwrap()
}

/// Apply a received frame to `t`. Returns whether it was a message that this
/// cluster knows; `t` is untouched if it was not.
pub fn receive(t: &mut Telemetry, street: &mut StreetBuffer, frame: &CanFrame) -> (r: bool)
    ensures
        r == understood(*frame),
        (final(t)@, final(street)@) == after_frame(old(t)@, old(street)@, *frame),
        r == (message_in(*frame) matches Some(m) && known(m.0)),
        message_in(*frame) matches Some(m) ==> final(t)@ == decoded(
            old(t)@,
            old(street)@,
            m.0,
            m.1,
        ) && final(street)@ == buffer_after(old(street)@, m.0, m.1),
        message_in(*frame) matches Some(m) ==> m.0 == ID_STREET && is_chunk(m.1) ==> shows(
            final(t)@.turn_street,
            name_bytes(final(street)@),
        ) && !final(t)@.turn_street.contains('\0'),
        !r ==> *final(t) == *old(t) && *final(street) == *old(street),
{
    if !is_data(frame) || is_extended(frame) || length(frame) > 8 {
        return false;
    }
    decode(t, street, raw_id(frame) as u16, data(frame))
}

} // verus!

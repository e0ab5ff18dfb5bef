//! The capture pump's decision logic: building packet events out of raw
//! frames, deciding when a periodic driver-statistics snapshot is due,
//! and keeping the sequence counter from wrapping.
//!
//! The blocking capture loop itself — waiting on the device for the next
//! frame and pushing into the aggregator's mailbox — lives with the
//! process around the library; everything it decides or computes is here.

use vstd::prelude::*;

use crate::statistics::PacketData;

verus! {

/// Seconds between periodic driver-statistics snapshots. Querying the
/// capture source for its counters is expensive, so it happens only when
/// an event crosses this boundary.
pub const STATS_INTERVAL_SECONDS: i32 = 2;

/// Length of a link-layer header: two six-octet addresses and the
/// two-octet protocol field. A shorter buffer is not a decodable frame.
pub const ETHER_HEADER_BYTES: usize = 14;

/// The per-frame state of the capture pump: the watermark of the last
/// periodic statistics snapshot.
pub struct PacketHandler {
    pub rate_last_start: i32,
}

/// A frame that could not be decoded into a packet event.
#[derive(Clone, Copy, PartialEq, Eq, Structural, Debug)]
pub enum FrameDecodeError {
    /// The captured buffer is shorter than a link-layer header.
    FrameTooShort,
}

/// The sequence counter reached the last representable value; wrapping
/// would silently break the monotonic uniqueness that consumers rely on,
/// so the pump must stop instead.
#[derive(Clone, Copy, PartialEq, Eq, Structural, Debug)]
pub struct SequenceOverflowError;

impl PacketHandler {
    /// A fresh pump state with the watermark at zero.
    pub fn new() -> (h: PacketHandler)
        ensures
            h.rate_last_start == 0,
    {
        PacketHandler { rate_last_start: 0 }
    }

    /// Whether this event crosses the periodic-statistics boundary; if it
    /// does, the watermark moves to the event's capture time.
    pub fn should_statistics(&mut self, packet_seconds: i32) -> (r: bool)
        ensures
            r == (packet_seconds > old(self).rate_last_start + STATS_INTERVAL_SECONDS),
            r ==> final(self).rate_last_start == packet_seconds,
            !r ==> final(self).rate_last_start == old(self).rate_last_start,
    {
        let crossed: bool = (packet_seconds as i64) > (self.rate_last_start as i64) + (
        STATS_INTERVAL_SECONDS as i64);
        if crossed {
            self.rate_last_start = packet_seconds;
        }
        crossed
    }
}

/// The 48-bit value of six address octets, most significant octet first.
pub open spec fn spec_address_value(octets: Seq<u8>) -> int {
    ((((octets[0] * 256 + octets[1]) * 256 + octets[2]) * 256 + octets[3]) * 256 + octets[4]) * 256
        + octets[5]
}

/// Pack six address octets into their 48-bit value.
fn address_value(octets: &[u8; 6]) -> (v: u64)
    ensures
        v == spec_address_value(octets@),
{
    let b0 = octets[0] as u64;
    let b1 = octets[1] as u64;
    let b2 = octets[2] as u64;
    let b3 = octets[3] as u64;
    let b4 = octets[4] as u64;
    let b5 = octets[5] as u64;
    ((((b0 * 256 + b1) * 256 + b2) * 256 + b3) * 256 + b4) * 256 + b5
}

/// Relies on packet::ether::Packet::new, which accepts exactly the
/// buffers of at least a header's length, and on its destination() and
/// source() accessors together with hwaddr::HwAddr::octets: the
/// destination octets are bytes 0..6 of the frame and the source octets
/// are bytes 6..12.
#[verifier::external_body]
fn ether_addresses(data: &[u8]) -> (r: Option<([u8; 6], [u8; 6])>)
    ensures
        r is Some <==> data@.len() >= ETHER_HEADER_BYTES,
        r matches Some(addresses) ==> addresses.0@ == data@.subrange(0, 6) && addresses.1@
            == data@.subrange(6, 12),
{
    match packet::ether::Packet::new(data) {
        Ok(frame) => Some((frame.destination().octets(), frame.source().octets())),
        Err(_) => None,
    }
}

/// Build a normalized packet event out of a captured frame: the frame's
/// link-layer addresses as 48-bit values, the capture timestamp truncated
/// to whole seconds, the on-wire size reported by the capture header, and
/// the pump's sequence number. Exactly the too-short frames are rejected.
pub fn handle_packet(data: &[u8], packet_seconds: i32, size: u32, packet_number: u64) -> (r: Result<
    PacketData,
    FrameDecodeError,
>)
    ensures
        r is Ok <==> data@.len() >= ETHER_HEADER_BYTES,
        r matches Ok(pd) ==> {
            &&& pd.packet_number == packet_number
            &&& pd.packet_seconds == packet_seconds
            &&& pd.size == size
            &&& pd.ethernet_destination == spec_address_value(data@.subrange(0, 6))
            &&& pd.ethernet_source == spec_address_value(data@.subrange(6, 12))
        },
        r is Err ==> r->Err_0 == FrameDecodeError::FrameTooShort,
{
    match ether_addresses(data) {
        Some((destination, source)) => Ok(
            PacketData {
                packet_number,
                packet_seconds,
                size,
                ethernet_destination: address_value(&destination),
                ethernet_source: address_value(&source),
            },
        ),
        None => Err(FrameDecodeError::FrameTooShort),
    }
}

/// The sequence number for the next event, or the fatal condition when
/// the counter is about to reach its last representable value.
pub fn next_sequence(packet_number: u64) -> (r: Result<u64, SequenceOverflowError>)
    ensures
        r is Ok <==> packet_number + 1 < u64::MAX,
        r matches Ok(n) ==> n == packet_number + 1,
{
    if packet_number >= u64::MAX - 1 {
        Err(SequenceOverflowError)
    } else {
        Ok(packet_number + 1)
    }
}

} // verus!

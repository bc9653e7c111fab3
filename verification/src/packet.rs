//! The example binary packet protocol: a fixed header with a checksum over a
//! length-counted textual payload, composed over the framing core.

pub mod codec;
pub mod header;
pub mod payload;
pub mod payload_content;
pub mod payload_type;
pub mod raw_packet;

use vstd::prelude::*;

use crate::packet::payload::{
    spec_payload_decode, Payload, PayloadFromSliceError,
};
use crate::packet::payload_content::{PayloadContent, SpecPayloadContent};
use crate::packet::payload_type::PayloadType;
use crate::packet::raw_packet::{
    spec_raw_packet_decode, spec_raw_packet_encode, RawPacket, RawPacketFromSliceError,
    RawPacketWriteError,
};

verus! {

/// Error returned by [`Packet::write_to`].
#[derive(Debug, Clone, Copy, PartialEq, Eq, Structural)]
pub enum PacketWriteError {
    /// Failed to write the raw packet.
    RawPacket(RawPacketWriteError),
}

/// Error returned by [`Packet::maybe_packet_from_prefix`].
#[derive(Debug, Clone, Copy, PartialEq, Eq, Structural)]
pub enum PacketFromSliceError {
    /// Invalid raw packet.
    RawPacket(RawPacketFromSliceError),
    /// Unknown payload type.
    UnknownPayloadType,
    /// Invalid payload.
    Payload(PayloadFromSliceError),
}

/// What reading a packet off the front of `src` gives: too few bytes yet
/// (`Ok(None)`), the payload content with the bytes consumed, or the exact
/// error.
pub open spec fn spec_packet_decode(src: Seq<u8>) -> Result<
    Option<(SpecPayloadContent, int)>,
    PacketFromSliceError,
> {
    match spec_raw_packet_decode(src) {
        Err(e) => Err(PacketFromSliceError::RawPacket(e)),
        Ok(None) => Ok(None),
        Ok(Some((h, pb))) => match PayloadType::spec_from_u16(h.raw_payload_type) {
            None => Err(PacketFromSliceError::UnknownPayloadType),
            Some(t) => match spec_payload_decode(t, pb) {
                Err(e) => Err(PacketFromSliceError::Payload(e)),
                Ok(c) => Ok(Some((c, h.packet_length as int))),
            },
        },
    }
}

/// What serializing a packet into `dst_len` bytes gives: the packet bytes,
/// or the exact error.
pub open spec fn spec_packet_encode(c: SpecPayloadContent, dst_len: int) -> Result<
    Seq<u8>,
    PacketWriteError,
> {
    match spec_raw_packet_encode(c, dst_len) {
        Ok(bytes) => Ok(bytes),
        Err(e) => Err(PacketWriteError::RawPacket(e)),
    }
}

/// The payload contents the packet codec cuts from a whole byte stream, in
/// order.
pub open spec fn packet_frames(src: Seq<u8>) -> Seq<SpecPayloadContent>
    decreases src.len(),
{
    match spec_packet_decode(src) {
        Ok(Some((c, n))) => if 1 <= n <= src.len() {
            seq![c] + packet_frames(src.skip(n))
        } else {
            seq![]
        },
        _ => seq![],
    }
}

/// The byte stream that a sequence of payload contents makes, each encoded
/// as one packet for a scratch buffer of `dst_len` bytes.
pub open spec fn packets_wire(items: Seq<SpecPayloadContent>, dst_len: int) -> Seq<u8>
    decreases items.len(),
{
    if items.len() == 0 {
        Seq::empty()
    } else {
        spec_packet_encode(items[0], dst_len)->Ok_0 + packets_wire(items.drop_first(), dst_len)
    }
}

/// A packet that contains some payload.
#[derive(Debug, Clone, PartialEq)]
pub struct Packet {
    /// The payload of the packet.
    pub payload: Payload,
}

impl View for Packet {
    type V = SpecPayloadContent;

    open spec fn view(&self) -> SpecPayloadContent {
        self.payload@
    }
}

impl Packet {
    /// Creates a new packet with the given payload.
    pub fn new_raw(payload: Payload) -> (r: Packet)
        ensures
            r.payload == payload,
    {
        Packet { payload }
    }

    /// Creates a new packet with the given payload content.
    pub fn new(content: PayloadContent) -> (r: Packet)
        ensures
            r.payload.content == content,
    {
        Packet { payload: Payload::new(content) }
    }

    /// Returns a reference to the payload.
    pub fn payload(&self) -> (r: &Payload)
        ensures
            *r == self.payload,
    {
        &self.payload
    }

    /// Writes the packet to the given destination buffer, returning how many
    /// bytes it takes: see [`spec_packet_encode`].
    pub fn write_to(&self, dst: &mut Vec<u8>) -> (r: Result<usize, PacketWriteError>)
        ensures
            final(dst).len() == old(dst).len(),
            match r {
                Ok(n) => n <= final(dst).len() && spec_packet_encode(self@, old(dst).len() as int)
                    == Ok::<Seq<u8>, PacketWriteError>(final(dst)@.subrange(0, n as int))
                    && final(dst)@.subrange(n as int, final(dst).len() as int) == old(
                    dst,
                )@.subrange(n as int, old(dst).len() as int),
                Err(e) => spec_packet_encode(self@, old(dst).len() as int)
                    == Err::<Seq<u8>, PacketWriteError>(e) && final(dst)@ == old(dst)@,
            },
    {
        match RawPacket::write_to(&self.payload, dst) {
            Ok(n) => Ok(n),
            Err(e) => Err(PacketWriteError::RawPacket(e)),
        }
    }

    /// Returns the packet at the front of the given slice with the bytes it
    /// took, if a whole valid one is present: see [`spec_packet_decode`].
    pub fn maybe_packet_from_prefix(src: &[u8]) -> (r: Result<
        Option<(Packet, usize)>,
        PacketFromSliceError,
    >)
        ensures
            match r {
                Ok(Some((p, n))) => spec_packet_decode(src@) == Ok::<
                    Option<(SpecPayloadContent, int)>,
                    PacketFromSliceError,
                >(Some((p@, n as int))) && n <= src@.len(),
                Ok(None) => spec_packet_decode(src@) == Ok::<
                    Option<(SpecPayloadContent, int)>,
                    PacketFromSliceError,
                >(None),
                Err(e) => spec_packet_decode(src@) == Err::<
                    Option<(SpecPayloadContent, int)>,
                    PacketFromSliceError,
                >(e),
            },
    {
        match RawPacket::maybe_raw_packet_from_prefix(src) {
            Err(e) => Err(PacketFromSliceError::RawPacket(e)),
            Ok(None) => Ok(None),
            Ok(Some(rp)) => {
                proof {
                    raw_packet::lemma_spec_raw_packet_decode_wf(src@);
                }
                match rp.header().payload_type() {
                    None => Err(PacketFromSliceError::UnknownPayloadType),
                    Some(t) => match Payload::payload_from_json_slice(t, rp.payload_bytes()) {
                        Err(e) => Err(PacketFromSliceError::Payload(e)),
                        Ok((payload, _size)) => Ok(
                            Some((Packet { payload }, rp.header().packet_length_usize())),
                        ),
                    },
                }
            },
        }
    }
}

} // verus!

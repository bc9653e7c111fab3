//! Header module.

use vstd::prelude::*;

use crate::packet::payload_type::PayloadType;

verus! {

/// The size of the packet header in bytes.
pub const HEADER_SIZE: usize = 8;

/// The IEEE CRC-32 of a byte sequence, a function of the bytes alone.
pub uninterp spec fn crc32_of(data: Seq<u8>) -> u32;

/// A 16-bit big-endian value read from two bytes.
pub open spec fn be16(b0: u8, b1: u8) -> int {
    b0 * 256 + b1
}

/// A 32-bit big-endian value read from four bytes.
pub open spec fn be32(b0: u8, b1: u8, b2: u8, b3: u8) -> int {
    b0 * 16777216 + b1 * 65536 + b2 * 256 + b3
}

/// The two big-endian bytes of a 16-bit value.
pub open spec fn be16_bytes(v: u16) -> Seq<u8> {
    seq![(v / 256) as u8, (v % 256) as u8]
}

/// The four big-endian bytes of a 32-bit value.
pub open spec fn be32_bytes(v: u32) -> Seq<u8> {
    seq![
        (v / 16777216) as u8,
        ((v / 65536) % 256) as u8,
        ((v / 256) % 256) as u8,
        (v % 256) as u8,
    ]
}

/// Reading back the two big-endian bytes of a 16-bit value gives the value.
pub proof fn lemma_be16_roundtrip(v: u16)
    ensures
        be16(be16_bytes(v)[0], be16_bytes(v)[1]) == v,
{
}

/// Reading back the four big-endian bytes of a 32-bit value gives the value.
pub proof fn lemma_be32_roundtrip(v: u32)
    ensures
        be32(be32_bytes(v)[0], be32_bytes(v)[1], be32_bytes(v)[2], be32_bytes(v)[3]) == v,
{
}

/// The header of a packet: total length, payload type code and CRC-32
/// checksum, each big-endian on the wire.
#[derive(Debug, Clone, Copy, PartialEq, Eq, Structural)]
pub struct Header {
    /// The length of the packet, header included.
    pub packet_length: u16,
    /// The type of the payload as a raw u16.
    pub raw_payload_type: u16,
    /// The crc32 checksum of the packet.
    pub checksum: u32,
}

/// The header read from the first [`HEADER_SIZE`] bytes.
pub open spec fn header_of(src: Seq<u8>) -> Header
    recommends
        src.len() >= HEADER_SIZE,
{
    Header {
        packet_length: be16(src[0], src[1]) as u16,
        raw_payload_type: be16(src[2], src[3]) as u16,
        checksum: be32(src[4], src[5], src[6], src[7]) as u32,
    }
}

/// The eight bytes a header stands for on the wire.
pub open spec fn header_bytes(h: Header) -> Seq<u8> {
    be16_bytes(h.packet_length) + be16_bytes(h.raw_payload_type) + be32_bytes(h.checksum)
}

/// Reading back the bytes of a header gives the header.
pub proof fn lemma_header_roundtrip(h: Header)
    ensures
        header_bytes(h).len() == HEADER_SIZE,
        header_of(header_bytes(h)) == h,
{
    lemma_be16_roundtrip(h.packet_length);
    lemma_be16_roundtrip(h.raw_payload_type);
    lemma_be32_roundtrip(h.checksum);
    assert(header_of(header_bytes(h)) == h);
}

impl Header {
    /// Returns the size of the header.
    pub fn size() -> (n: usize)
        ensures
            n == HEADER_SIZE,
    {
        HEADER_SIZE
    }

    /// Calculates the checksum of the given data.
    ///
    /// Relies on `crc32fast::hash`: the IEEE CRC-32 of the bytes, a function
    /// of the bytes alone.
    #[verifier::external_body]
    pub fn calculate_checksum(data: &[u8]) -> (c: u32)
        ensures
            c == crc32_of(data@),
    {
        crc32fast::hash(data)
    }

    /// Returns the packet length.
    pub fn packet_length(&self) -> (v: u16)
        ensures
            v == self.packet_length,
    {
        self.packet_length
    }

    /// Returns the packet length as usize.
    pub fn packet_length_usize(&self) -> (v: usize)
        ensures
            v == self.packet_length,
    {
        self.packet_length as usize
    }

    /// Sets the packet length.
    pub fn set_packet_length(&mut self, length: u16)
        ensures
            *final(self) == (Header { packet_length: length, ..*old(self) }),
    {
        self.packet_length = length;
    }

    /// Returns the raw payload type.
    pub fn raw_payload_type(&self) -> (v: u16)
        ensures
            v == self.raw_payload_type,
    {
        self.raw_payload_type
    }

    /// Returns the payload type, if the raw code is one.
    pub fn payload_type(&self) -> (t: Option<PayloadType>)
        ensures
            t == PayloadType::spec_from_u16(self.raw_payload_type),
    {
        PayloadType::from_u16(self.raw_payload_type)
    }

    /// Sets the raw payload type.
    pub fn set_raw_payload_type(&mut self, raw_payload_type: u16)
        ensures
            *final(self) == (Header { raw_payload_type, ..*old(self) }),
    {
        self.raw_payload_type = raw_payload_type;
    }

    /// Theoretical payload length: what the packet length claims beyond the
    /// header.
    pub fn payload_length(&self) -> (n: usize)
        requires
            self.packet_length >= HEADER_SIZE,
        ensures
            n == self.packet_length - HEADER_SIZE,
    {
        self.packet_length as usize - HEADER_SIZE
    }

    /// Returns the checksum.
    pub fn checksum(&self) -> (v: u32)
        ensures
            v == self.checksum,
    {
        self.checksum
    }

    /// Clears the checksum.
    pub fn clear_checksum(&mut self)
        ensures
            *final(self) == (Header { checksum: 0, ..*old(self) }),
    {
        self.checksum = 0;
    }

    /// Sets the checksum.
    pub fn set_checksum(&mut self, checksum: u32)
        ensures
            *final(self) == (Header { checksum, ..*old(self) }),
    {
        self.checksum = checksum;
    }

    /// Makes the header ready for checksum calculation: sets the packet
    /// length and the payload type code, and clears the checksum.
    pub fn make_ready_for_checksum(&mut self, payload_type: PayloadType, payload_length: usize)
        requires
            payload_length + HEADER_SIZE <= u16::MAX,
        ensures
            *final(self) == (Header {
                packet_length: (payload_length + HEADER_SIZE) as u16,
                raw_payload_type: payload_type.spec_to_u16(),
                checksum: 0,
            }),
    {
        self.set_packet_length(HEADER_SIZE as u16 + payload_length as u16);
        self.set_raw_payload_type(payload_type.to_u16());
        self.clear_checksum();
    }

    /// Returns the header read from the front of the given slice, if at
    /// least [`HEADER_SIZE`] bytes are present.
    pub fn maybe_header_from_prefix(src: &[u8]) -> (r: Option<Header>)
        ensures
            match r {
                Some(h) => src@.len() >= HEADER_SIZE && h == header_of(src@),
                None => src@.len() < HEADER_SIZE,
            },
    {
        if src.len() < HEADER_SIZE {
            return None;
        }
        let packet_length = (src[0] as u16) * 256 + (src[1] as u16);
        let raw_payload_type = (src[2] as u16) * 256 + (src[3] as u16);
        let checksum = (src[4] as u32) * 16777216 + (src[5] as u32) * 65536 + (src[6] as u32) * 256
            + (src[7] as u32);
        Some(Header { packet_length, raw_payload_type, checksum })
    }

    /// The eight bytes this header stands for on the wire, written into the
    /// front of `dst`.
    pub fn write_to_prefix(&self, dst: &mut Vec<u8>)
        requires
            old(dst).len() >= HEADER_SIZE,
        ensures
            final(dst).len() == old(dst).len(),
            final(dst)@.subrange(0, HEADER_SIZE as int) == header_bytes(*self),
            final(dst)@.subrange(HEADER_SIZE as int, final(dst).len() as int) == old(
                dst,
            )@.subrange(HEADER_SIZE as int, old(dst).len() as int),
    {
        dst.set(0, (self.packet_length / 256) as u8);
        dst.set(1, (self.packet_length % 256) as u8);
        dst.set(2, (self.raw_payload_type / 256) as u8);
        dst.set(3, (self.raw_payload_type % 256) as u8);
        dst.set(4, (self.checksum / 16777216) as u8);
        dst.set(5, ((self.checksum / 65536) % 256) as u8);
        dst.set(6, ((self.checksum / 256) % 256) as u8);
        dst.set(7, (self.checksum % 256) as u8);
        proof {
            assert(dst@.subrange(0, HEADER_SIZE as int) =~= header_bytes(*self));
            assert(dst@.subrange(HEADER_SIZE as int, dst@.len() as int) =~= old(dst)@.subrange(
                HEADER_SIZE as int,
                old(dst).len() as int,
            ));
        }
    }
}

} // verus!

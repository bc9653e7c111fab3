//! Raw packet module: the header plus the raw payload bytes, with the
//! checksum verified but the payload not yet interpreted.

use vstd::prelude::*;

use crate::packet::header::{crc32_of, header_bytes, header_of, Header, HEADER_SIZE};
use crate::packet::payload::{spec_payload_encode, Payload};
use crate::packet::payload_content::SpecPayloadContent;

verus! {

/// Error returned by [`RawPacket::write_to`].
#[derive(Debug, Clone, Copy, PartialEq, Eq, Structural)]
pub enum RawPacketWriteError {
    /// The destination buffer cannot hold a header.
    HeaderWrite,
    /// The payload cannot be serialized into the destination buffer.
    PayloadWrite,
    /// The serialized packet would not fit the 16-bit length field.
    PacketTooLong,
}

/// Error returned by [`RawPacket::maybe_raw_packet_from_prefix`].
#[derive(Debug, Clone, Copy, PartialEq, Eq, Structural)]
pub enum RawPacketFromSliceError {
    /// The checksum does not match the packet bytes.
    Checksum,
    /// The header claims a packet shorter than a header.
    InvalidLength,
}

/// The bytes with the checksum field zeroed.
pub open spec fn zero_checksum(s: Seq<u8>) -> Seq<u8>
    recommends
        s.len() >= HEADER_SIZE,
{
    s.update(4, 0u8).update(5, 0u8).update(6, 0u8).update(7, 0u8)
}

/// What reading a raw packet off the front of `src` gives: too few bytes yet
/// (`Ok(None)`), the header with the payload bytes, or the exact error.  The
/// checksum is verified over the packet bytes with the checksum field
/// zeroed.
pub open spec fn spec_raw_packet_decode(src: Seq<u8>) -> Result<
    Option<(Header, Seq<u8>)>,
    RawPacketFromSliceError,
> {
    if src.len() < HEADER_SIZE {
        Ok(None)
    } else {
        let h = header_of(src);
        if h.packet_length < HEADER_SIZE {
            Err(RawPacketFromSliceError::InvalidLength)
        } else if src.len() < h.packet_length {
            Ok(None)
        } else if h.checksum != crc32_of(zero_checksum(src.subrange(0, h.packet_length as int))) {
            Err(RawPacketFromSliceError::Checksum)
        } else {
            Ok(Some((h, src.subrange(HEADER_SIZE as int, h.packet_length as int))))
        }
    }
}

/// A successfully read raw packet is consistent: the claimed length covers
/// the header and lies within the source, and the payload is the rest of the
/// packet.
pub proof fn lemma_spec_raw_packet_decode_wf(src: Seq<u8>)
    ensures
        spec_raw_packet_decode(src) matches Ok(Some((h, pb)))
            ==> HEADER_SIZE <= h.packet_length <= src.len() && pb.len() == h.packet_length
            - HEADER_SIZE,
{
}

/// What serializing a payload as a packet into `dst_len` bytes gives: the
/// packet bytes, or the exact error.  The checksum field holds the CRC-32 of
/// the packet bytes with that field zeroed.
pub open spec fn spec_raw_packet_encode(c: SpecPayloadContent, dst_len: int) -> Result<
    Seq<u8>,
    RawPacketWriteError,
> {
    if dst_len < HEADER_SIZE {
        Err(RawPacketWriteError::HeaderWrite)
    } else {
        match spec_payload_encode(c, dst_len - HEADER_SIZE) {
            Err(_) => Err(RawPacketWriteError::PayloadWrite),
            Ok(pb) => if HEADER_SIZE + pb.len() > u16::MAX {
                Err(RawPacketWriteError::PacketTooLong)
            } else {
                let h0 = Header {
                    packet_length: (HEADER_SIZE + pb.len()) as u16,
                    raw_payload_type: c.spec_payload_type().spec_to_u16(),
                    checksum: 0,
                };
                let h = Header { checksum: crc32_of(header_bytes(h0) + pb), ..h0 };
                Ok(header_bytes(h) + pb)
            },
        }
    }
}

/// A raw packet: a verified header and the payload bytes it counts.
#[derive(Debug, Clone, PartialEq)]
pub struct RawPacket {
    /// The header of the packet.
    header: Header,
    /// The payload bytes, exactly as counted by the header.
    payload: Vec<u8>,
}

/// A vector of `n` zero bytes.
fn zero_vec(n: usize) -> (v: Vec<u8>)
    ensures
        v.len() == n,
{
    let mut v: Vec<u8> = Vec::new();
    let mut i: usize = 0;
    while i < n
        invariant
            i <= n,
            v.len() == i,
        decreases n - i,
    {
        v.push(0);
        i += 1;
    }
    v
}

impl RawPacket {
    /// Returns a reference to the header.
    pub fn header(&self) -> (h: &Header)
        ensures
            *h == self.spec_header(),
    {
        &self.header
    }

    /// The header of the packet.
    pub closed spec fn spec_header(&self) -> Header {
        self.header
    }

    /// The payload bytes of the packet.
    pub closed spec fn spec_payload(&self) -> Seq<u8> {
        self.payload@
    }

    /// Returns a reference to the raw payload.
    pub fn raw_payload(&self) -> (r: &Vec<u8>)
        ensures
            r@ == self.spec_payload(),
    {
        &self.payload
    }

    /// Returns a reference to the payload bytes.
    pub fn payload_bytes(&self) -> (r: &[u8])
        ensures
            r@ == self.spec_payload(),
    {
        self.payload.as_slice()
    }

    /// Theoretical payload length as per the header.
    pub fn payload_length(&self) -> (n: usize)
        requires
            self.spec_header().packet_length >= HEADER_SIZE,
        ensures
            n == self.spec_header().packet_length - HEADER_SIZE,
    {
        self.header.payload_length()
    }

    /// Writes the given payload to the given destination buffer as one
    /// packet, returning how many bytes it takes: see
    /// [`spec_raw_packet_encode`].
    pub fn write_to(payload: &Payload, dst: &mut Vec<u8>) -> (r: Result<usize, RawPacketWriteError>)
        ensures
            final(dst).len() == old(dst).len(),
            match r {
                Ok(n) => n <= final(dst).len() && spec_raw_packet_encode(
                    payload@,
                    old(dst).len() as int,
                ) == Ok::<Seq<u8>, RawPacketWriteError>(final(dst)@.subrange(0, n as int))
                    && final(dst)@.subrange(n as int, final(dst).len() as int) == old(
                    dst,
                )@.subrange(n as int, old(dst).len() as int),
                Err(e) => spec_raw_packet_encode(payload@, old(dst).len() as int)
                    == Err::<Seq<u8>, RawPacketWriteError>(e) && final(dst)@ == old(dst)@,
            },
    {
        if dst.len() < HEADER_SIZE {
            return Err(RawPacketWriteError::HeaderWrite);
        }
        let mut tmp = zero_vec(dst.len() - HEADER_SIZE);
        match payload.write_to(&mut tmp) {
            Err(_) => Err(RawPacketWriteError::PayloadWrite),
            Ok(pn) => {
                if pn > u16::MAX as usize - HEADER_SIZE {
                    return Err(RawPacketWriteError::PacketTooLong);
                }
                let h0 = Header {
                    packet_length: (HEADER_SIZE + pn) as u16,
                    raw_payload_type: payload.payload_type().to_u16(),
                    checksum: 0,
                };
                h0.write_to_prefix(dst);
                proof {
                    assert forall|j: int| HEADER_SIZE <= j < dst@.len() implies dst@[j] == old(
                        dst,
                    )@[j] by {
                        assert(dst@.subrange(HEADER_SIZE as int, dst@.len() as int)[j
                            - HEADER_SIZE] == old(dst)@.subrange(
                            HEADER_SIZE as int,
                            old(dst).len() as int,
                        )[j - HEADER_SIZE]);
                    }
                }
                let mut i: usize = 0;
                while i < pn
                    invariant
                        i <= pn,
                        pn <= tmp@.len(),
                        HEADER_SIZE + pn <= usize::MAX,
                        HEADER_SIZE + pn <= dst@.len(),
                        dst@.len() == old(dst)@.len(),
                        dst@.subrange(0, HEADER_SIZE as int) == header_bytes(h0),
                        forall|j: int| 0 <= j < i ==> dst@[HEADER_SIZE + j] == tmp@[j],
                        forall|j: int| HEADER_SIZE + i <= j < dst@.len() ==> dst@[j] == old(
                            dst,
                        )@[j],
                    decreases pn - i,
                {
                    let b = tmp[i];
                    dst.set(HEADER_SIZE + i, b);
                    proof {
                        assert(dst@.subrange(0, HEADER_SIZE as int) =~= header_bytes(h0));
                    }
                    i += 1;
                }
                let total = HEADER_SIZE + pn;
                proof {
                    assert(dst@.subrange(0, total as int) =~= header_bytes(h0) + tmp@.subrange(
                        0,
                        pn as int,
                    ));
                }
                let c = Header::calculate_checksum(
                    vstd::slice::slice_subrange(dst.as_slice(), 0, total),
                );
                let h = Header {
                    packet_length: h0.packet_length,
                    raw_payload_type: h0.raw_payload_type,
                    checksum: c,
                };
                let ghost mid = dst@;
                h.write_to_prefix(dst);
                proof {
                    assert forall|j: int| HEADER_SIZE <= j < dst@.len() implies dst@[j] == mid[j] by {
                        assert(dst@.subrange(HEADER_SIZE as int, dst@.len() as int)[j
                            - HEADER_SIZE] == mid.subrange(HEADER_SIZE as int, mid.len() as int)[j
                            - HEADER_SIZE]);
                    }
                    assert(dst@.subrange(0, total as int) =~= header_bytes(h) + tmp@.subrange(
                        0,
                        pn as int,
                    ));
                    assert(dst@.subrange(total as int, dst@.len() as int) =~= old(dst)@.subrange(
                        total as int,
                        old(dst).len() as int,
                    ));
                }
                Ok(total)
            },
        }
    }

    /// Returns the raw packet at the front of the given slice, if a whole
    /// one with a valid checksum is present: see [`spec_raw_packet_decode`].
    pub fn maybe_raw_packet_from_prefix(src: &[u8]) -> (r: Result<
        Option<RawPacket>,
        RawPacketFromSliceError,
    >)
        ensures
            match r {
                Ok(Some(rp)) => spec_raw_packet_decode(src@) == Ok::<
                    Option<(Header, Seq<u8>)>,
                    RawPacketFromSliceError,
                >(Some((rp.spec_header(), rp.spec_payload()))) && HEADER_SIZE
                    <= rp.spec_header().packet_length,
                Ok(None) => spec_raw_packet_decode(src@) == Ok::<
                    Option<(Header, Seq<u8>)>,
                    RawPacketFromSliceError,
                >(None),
                Err(e) => spec_raw_packet_decode(src@) == Err::<
                    Option<(Header, Seq<u8>)>,
                    RawPacketFromSliceError,
                >(e),
            },
    {
        match Header::maybe_header_from_prefix(src) {
            None => Ok(None),
            Some(h) => {
                if h.packet_length() < HEADER_SIZE as u16 {
                    return Err(RawPacketFromSliceError::InvalidLength);
                }
                let plen = h.packet_length_usize();
                if src.len() < plen {
                    return Ok(None);
                }
                let mut scratch = vstd::slice::slice_to_vec(
                    vstd::slice::slice_subrange(src, 0, plen),
                );
                scratch.set(4, 0);
                scratch.set(5, 0);
                scratch.set(6, 0);
                scratch.set(7, 0);
                proof {
                    assert(scratch@ =~= zero_checksum(src@.subrange(0, plen as int)));
                }
                let c = Header::calculate_checksum(scratch.as_slice());
                if h.checksum() != c {
                    return Err(RawPacketFromSliceError::Checksum);
                }
                let payload = vstd::slice::slice_to_vec(
                    vstd::slice::slice_subrange(src, HEADER_SIZE, plen),
                );
                Ok(Some(RawPacket { header: h, payload }))
            },
        }
    }
}

} // verus!

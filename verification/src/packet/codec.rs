//! Packet codec implementation module.

use vstd::prelude::*;

use crate::decode::{fresh_owned, OwnedDecoder};
use crate::encode::Encoder;
use crate::packet::payload_content::SpecPayloadContent;
use crate::packet::raw_packet::lemma_spec_raw_packet_decode_wf;
use crate::packet::{spec_packet_decode, spec_packet_encode, Packet, PacketFromSliceError, PacketWriteError};

verus! {

/// A codec for encoding and decoding packets over the framing core.
#[derive(Debug, Clone)]
pub struct PacketCodec {}

impl PacketCodec {
    /// Creates a new [`PacketCodec`].
    pub fn new() -> (r: PacketCodec)
        ensures
            fresh_owned(&r),
    {
        PacketCodec {}
    }
}

impl OwnedDecoder for PacketCodec {
    type Item = Packet;

    type Error = PacketFromSliceError;

    open spec fn spec_decode_owned(&self, src: Seq<u8>) -> Result<
        Option<(SpecPayloadContent, int)>,
        Self::Error,
    > {
        spec_packet_decode(src)
    }

    open spec fn spec_decode_owned_eof(&self, src: Seq<u8>) -> Result<
        Option<(SpecPayloadContent, int)>,
        Self::Error,
    > {
        spec_packet_decode(src)
    }

    open spec fn valid(&self, src: Seq<u8>) -> bool {
        true
    }

    proof fn lemma_spec_decode_owned_wf(&self, src: Seq<u8>) {
        lemma_spec_raw_packet_decode_wf(src);
    }

    fn decode_owned(&mut self, src: &[u8]) -> (r: Result<Option<(Packet, usize)>, Self::Error>) {
        Packet::maybe_packet_from_prefix(src)
    }

    fn decode_owned_eof(&mut self, src: &[u8]) -> (r: Result<Option<(Packet, usize)>, Self::Error>) {
        self.decode_owned(src)
    }
}

impl Encoder<Packet> for PacketCodec {
    type Error = PacketWriteError;

    open spec fn spec_encode(&self, item: SpecPayloadContent, dst_len: int) -> Result<
        Seq<u8>,
        Self::Error,
    > {
        spec_packet_encode(item, dst_len)
    }

    proof fn lemma_spec_encode_wf(&self, item: SpecPayloadContent, dst_len: int) {
    }

    fn encode(&mut self, item: &Packet, dst: &mut Vec<u8>) -> (r: Result<usize, Self::Error>) {
        item.write_to(dst)
    }
}

} // verus!

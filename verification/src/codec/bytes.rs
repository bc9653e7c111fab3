//! Bytes codecs for encoding and decoding bytes.

use vstd::prelude::*;

use crate::decode::{fresh, fresh_owned, Decoder, FrameSpan, OwnedDecoder};
use crate::encode::Encoder;

verus! {

/// A codec that decodes bytes into bytes and encodes bytes into bytes: every
/// decode returns the whole region as one frame, and encoding copies the item.
#[derive(Debug, Clone)]
pub struct Bytes {}

impl Bytes {
    /// Creates a new [`Bytes`].
    pub fn new() -> (r: Bytes)
        ensures
            fresh(&r),
    {
        Bytes {}
    }
}

impl Decoder for Bytes {
    type Error = core::convert::Infallible;

    open spec fn spec_decode(&self, src: Seq<u8>) -> Result<Option<(int, int, int)>, Self::Error> {
        Ok(Some((0, src.len() as int, src.len() as int)))
    }

    open spec fn spec_decode_eof(&self, src: Seq<u8>) -> Result<Option<(int, int, int)>, Self::Error> {
        self.spec_decode(src)
    }

    open spec fn valid(&self, src: Seq<u8>) -> bool {
        true
    }

    proof fn lemma_spec_decode_wf(&self, src: Seq<u8>) {
    }

    fn decode(&mut self, src: &[u8]) -> (r: Result<Option<FrameSpan>, Self::Error>) {
        Ok(Some(FrameSpan { start: 0, end: src.len(), consumed: src.len() }))
    }

    fn decode_eof(&mut self, src: &[u8]) -> (r: Result<Option<FrameSpan>, Self::Error>) {
        self.decode(src)
    }
}

/// Error returned by [`Bytes::encode`].
#[derive(Debug, Clone, Copy, PartialEq, Eq, Structural)]
pub enum BytesEncodeError {
    /// The destination buffer is too small to fit the bytes.
    BufferTooSmall,
}

impl Encoder<Vec<u8>> for Bytes {
    type Error = BytesEncodeError;

    open spec fn spec_encode(&self, item: Seq<u8>, dst_len: int) -> Result<Seq<u8>, Self::Error> {
        if item.len() <= dst_len {
            Ok(item)
        } else {
            Err(BytesEncodeError::BufferTooSmall)
        }
    }

    proof fn lemma_spec_encode_wf(&self, item: Seq<u8>, dst_len: int) {
    }

    fn encode(&mut self, item: &Vec<u8>, dst: &mut Vec<u8>) -> (r: Result<usize, Self::Error>) {
        if item.len() > dst.len() {
            return Err(BytesEncodeError::BufferTooSmall);
        }
        let mut i: usize = 0;
        while i < item.len()
            invariant
                i <= item@.len(),
                item@.len() <= dst@.len(),
                dst@.len() == old(dst)@.len(),
                forall|j: int| 0 <= j < i ==> dst@[j] == item@[j],
                forall|j: int| i <= j < dst@.len() ==> dst@[j] == old(dst)@[j],
            decreases item@.len() - i,
        {
            let b = item[i];
            dst.set(i, b);
            i += 1;
        }
        proof {
            assert(dst@.subrange(0, item@.len() as int) =~= item@);
            assert(dst@.subrange(item@.len() as int, dst@.len() as int)
                =~= old(dst)@.subrange(item@.len() as int, old(dst)@.len() as int));
        }
        Ok(item.len())
    }
}

/// An owned [`Bytes`]: the frame is copied out of the region into a vector of
/// at most `N` bytes.
#[derive(Debug, Clone)]
pub struct OwnedBytes<const N: usize> {
    inner: Bytes,
}

impl<const N: usize> OwnedBytes<N> {
    /// Creates a new [`OwnedBytes`].
    pub fn new() -> (r: OwnedBytes<N>)
        ensures
            fresh_owned(&r),
    {
        OwnedBytes { inner: Bytes::new() }
    }
}

/// Error returned by [`OwnedBytes::decode_owned`].
#[derive(Debug, Clone, Copy, PartialEq, Eq, Structural)]
pub enum OwnedBytesDecodeError {
    /// The frame does not fit in the owned container.
    BufferTooSmall,
}

impl<const N: usize> OwnedDecoder for OwnedBytes<N> {
    type Item = Vec<u8>;

    type Error = OwnedBytesDecodeError;

    open spec fn spec_decode_owned(&self, src: Seq<u8>) -> Result<Option<(Seq<u8>, int)>, Self::Error> {
        if src.len() <= N {
            Ok(Some((src, src.len() as int)))
        } else {
            Err(OwnedBytesDecodeError::BufferTooSmall)
        }
    }

    open spec fn spec_decode_owned_eof(&self, src: Seq<u8>) -> Result<Option<(Seq<u8>, int)>, Self::Error> {
        self.spec_decode_owned(src)
    }

    open spec fn valid(&self, src: Seq<u8>) -> bool {
        true
    }

    proof fn lemma_spec_decode_owned_wf(&self, src: Seq<u8>) {
    }

    fn decode_owned(&mut self, src: &[u8]) -> (r: Result<Option<(Vec<u8>, usize)>, Self::Error>) {
        if src.len() > N {
            return Err(OwnedBytesDecodeError::BufferTooSmall);
        }
        let item = vstd::slice::slice_to_vec(src);
        Ok(Some((item, src.len())))
    }

    fn decode_owned_eof(&mut self, src: &[u8]) -> (r: Result<Option<(Vec<u8>, usize)>, Self::Error>) {
        self.decode_owned(src)
    }
}

impl<const N: usize> Encoder<Vec<u8>> for OwnedBytes<N> {
    type Error = BytesEncodeError;

    open spec fn spec_encode(&self, item: Seq<u8>, dst_len: int) -> Result<Seq<u8>, Self::Error> {
        if item.len() <= dst_len {
            Ok(item)
        } else {
            Err(BytesEncodeError::BufferTooSmall)
        }
    }

    proof fn lemma_spec_encode_wf(&self, item: Seq<u8>, dst_len: int) {
    }

    fn encode(&mut self, item: &Vec<u8>, dst: &mut Vec<u8>) -> (r: Result<usize, Self::Error>) {
        self.inner.encode(item, dst)
    }
}

} // verus!

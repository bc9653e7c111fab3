//! Decoder trait definitions.

use vstd::prelude::*;

verus! {

/// One decoded frame, as indices relative to the byte region that was handed
/// to the decoder: the frame bytes are `src[start..end]`, and the first
/// `consumed` bytes of `src` are consumed by it.
#[derive(Debug, Clone, Copy, PartialEq, Eq, Structural)]
pub struct FrameSpan {
    /// First byte of the frame.
    pub start: usize,
    /// One past the last byte of the frame.
    pub end: usize,
    /// How many bytes of the region the frame consumed.
    pub consumed: usize,
}

/// A decoder that cuts one frame off the front of a byte region.
///
/// The frame is returned by position ([`FrameSpan`]), so it borrows nothing
/// and the caller decides when to take the bytes out of its buffer.
///
/// A decoder value may carry private scan progress (a cursor over bytes it
/// has already rejected).  `valid` says when that progress agrees with a
/// region, and the contracts below keep it agreeing with the region a driver
/// holds: progress survives appending bytes at the tail after `Ok(None)` and
/// is reset by every decoded frame.  What a decoder finds is a function of
/// its configuration alone: `spec_decode` never changes across calls.
pub trait Decoder: Sized {
    /// The type of error that this decoder returns.
    type Error;

    /// What the decoder finds in `src`: no complete frame yet (`Ok(None)`),
    /// one frame with its consumed size, or a decode failure.
    spec fn spec_decode(&self, src: Seq<u8>) -> Result<Option<(int, int, int)>, Self::Error>;

    /// Same as [`Decoder::spec_decode`], used when no more bytes will arrive.
    spec fn spec_decode_eof(&self, src: Seq<u8>) -> Result<Option<(int, int, int)>, Self::Error>;

    /// The decoder's private progress agrees with the region `src`.
    spec fn valid(&self, src: Seq<u8>) -> bool;

    /// Frame positions returned by the specification lie inside the region.
    proof fn lemma_spec_decode_wf(&self, src: Seq<u8>)
        ensures
            self.spec_decode(src) matches Ok(Some((start, end, consumed)))
                ==> 0 <= start <= end <= src.len() && 0 <= consumed <= src.len(),
            self.spec_decode_eof(src) matches Ok(Some((start, end, consumed)))
                ==> 0 <= start <= end <= src.len() && 0 <= consumed <= src.len(),
    ;

    /// Decodes a frame from the provided region.
    fn decode(&mut self, src: &[u8]) -> (r: Result<Option<FrameSpan>, Self::Error>)
        requires
            old(self).valid(src@),
        ensures
            forall|s: Seq<u8>| #![auto] final(self).spec_decode(s) == old(self).spec_decode(s)
                && final(self).spec_decode_eof(s) == old(self).spec_decode_eof(s),
            match r {
                Ok(Some(f)) => old(self).spec_decode(src@)
                    == Ok::<Option<(int, int, int)>, Self::Error>(Some((f.start as int, f.end as int, f.consumed as int)))
                    && (forall|s2: Seq<u8>| #[trigger] final(self).valid(s2)),
                Ok(None) => old(self).spec_decode(src@)
                    == Ok::<Option<(int, int, int)>, Self::Error>(None)
                    && (forall|ext: Seq<u8>| #[trigger] final(self).valid(src@ + ext)),
                Err(e) => old(self).spec_decode(src@) == Err::<Option<(int, int, int)>, Self::Error>(e),
            },
    ;

    /// Decodes a frame from the provided region at the end of the stream.
    fn decode_eof(&mut self, src: &[u8]) -> (r: Result<Option<FrameSpan>, Self::Error>)
        requires
            old(self).valid(src@),
        ensures
            forall|s: Seq<u8>| #![auto] final(self).spec_decode(s) == old(self).spec_decode(s)
                && final(self).spec_decode_eof(s) == old(self).spec_decode_eof(s),
            match r {
                Ok(Some(f)) => old(self).spec_decode_eof(src@)
                    == Ok::<Option<(int, int, int)>, Self::Error>(Some((f.start as int, f.end as int, f.consumed as int)))
                    && (forall|s2: Seq<u8>| #[trigger] final(self).valid(s2)),
                Ok(None) => old(self).spec_decode_eof(src@)
                    == Ok::<Option<(int, int, int)>, Self::Error>(None)
                    && (forall|ext: Seq<u8>| #[trigger] final(self).valid(src@ + ext)),
                Err(e) => old(self).spec_decode_eof(src@) == Err::<Option<(int, int, int)>, Self::Error>(e),
            },
    ;
}

/// A fresh decoder: one whose progress can start on any region.
pub open spec fn fresh<C: Decoder>(codec: &C) -> bool {
    forall|src: Seq<u8>| #[trigger] codec.valid(src)
}

/// A decoder whose item is materialized independently of the byte region, so
/// the region may be reused right after the call.
pub trait OwnedDecoder: Sized {
    /// The type of item that this decoder decodes.
    type Item: View;

    /// The type of error that this decoder returns.
    type Error;

    /// What the decoder finds in `src`, the item given by its view.
    spec fn spec_decode_owned(&self, src: Seq<u8>) -> Result<
        Option<(<Self::Item as View>::V, int)>,
        Self::Error,
    >;

    /// Same as [`OwnedDecoder::spec_decode_owned`], used when no more bytes
    /// will arrive.
    spec fn spec_decode_owned_eof(&self, src: Seq<u8>) -> Result<
        Option<(<Self::Item as View>::V, int)>,
        Self::Error,
    >;

    /// The decoder's private progress agrees with the region `src`.
    spec fn valid(&self, src: Seq<u8>) -> bool;

    /// A fresh decoder can start on any region.
    open spec fn fresh(&self) -> bool {
        forall|src: Seq<u8>| #[trigger] self.valid(src)
    }

    /// Consumed sizes returned by the specification lie inside the region.
    proof fn lemma_spec_decode_owned_wf(&self, src: Seq<u8>)
        ensures
            self.spec_decode_owned(src) matches Ok(Some((item, consumed)))
                ==> 0 <= consumed <= src.len(),
            self.spec_decode_owned_eof(src) matches Ok(Some((item, consumed)))
                ==> 0 <= consumed <= src.len(),
    ;

    /// Decodes one item from the provided region.
    fn decode_owned(&mut self, src: &[u8]) -> (r: Result<Option<(Self::Item, usize)>, Self::Error>)
        requires
            old(self).valid(src@),
        ensures
            forall|s: Seq<u8>| #![auto] final(self).spec_decode_owned(s) == old(self).spec_decode_owned(s)
                && final(self).spec_decode_owned_eof(s) == old(self).spec_decode_owned_eof(s),
            match r {
                Ok(Some((item, consumed))) => old(self).spec_decode_owned(src@)
                    == Ok::<Option<(<Self::Item as View>::V, int)>, Self::Error>(Some((item@, consumed as int)))
                    && (forall|s2: Seq<u8>| #[trigger] final(self).valid(s2)),
                Ok(None) => old(self).spec_decode_owned(src@)
                    == Ok::<Option<(<Self::Item as View>::V, int)>, Self::Error>(None)
                    && (forall|ext: Seq<u8>| #[trigger] final(self).valid(src@ + ext)),
                Err(e) => old(self).spec_decode_owned(src@)
                    == Err::<Option<(<Self::Item as View>::V, int)>, Self::Error>(e),
            },
    ;

    /// Decodes one item from the provided region at the end of the stream.
    fn decode_owned_eof(&mut self, src: &[u8]) -> (r: Result<Option<(Self::Item, usize)>, Self::Error>)
        requires
            old(self).valid(src@),
        ensures
            forall|s: Seq<u8>| #![auto] final(self).spec_decode_owned(s) == old(self).spec_decode_owned(s)
                && final(self).spec_decode_owned_eof(s) == old(self).spec_decode_owned_eof(s),
            match r {
                Ok(Some((item, consumed))) => old(self).spec_decode_owned_eof(src@)
                    == Ok::<Option<(<Self::Item as View>::V, int)>, Self::Error>(Some((item@, consumed as int)))
                    && (forall|s2: Seq<u8>| #[trigger] final(self).valid(s2)),
                Ok(None) => old(self).spec_decode_owned_eof(src@)
                    == Ok::<Option<(<Self::Item as View>::V, int)>, Self::Error>(None)
                    && (forall|ext: Seq<u8>| #[trigger] final(self).valid(src@ + ext)),
                Err(e) => old(self).spec_decode_owned_eof(src@)
                    == Err::<Option<(<Self::Item as View>::V, int)>, Self::Error>(e),
            },
    ;
}

/// A fresh owned decoder: one whose progress can start on any region.
pub open spec fn fresh_owned<C: OwnedDecoder>(codec: &C) -> bool {
    forall|src: Seq<u8>| #[trigger] codec.valid(src)
}

} // verus!

//! Framers: a codec, a transport and the session state, packed together.

use vstd::prelude::*;

use crate::decode::{fresh, fresh_owned, Decoder, OwnedDecoder};
use crate::encode::Encoder;
use crate::error::{ReadError, WriteError};
use crate::functions;
use crate::functions::{next_ok, next_owned_ok, read_wf, read_wf_owned, send_ok, step_ok, step_owned_ok};
use crate::state::{ReadState, ReadWriteState, WriteState};
use crate::transport::{TransportRead, TransportWrite};

verus! {

/// A framer that reads bytes from a [`TransportRead`] source and decodes
/// them into frames using a [`Decoder`], and writes encoded frames into the
/// same transport using an [`Encoder`].
#[derive(Debug)]
pub struct Framed<C, RW> {
    /// The codec used to decode and encode frames.
    pub codec: C,
    /// The underlying reader/writer.
    pub inner: RW,
    /// The session state: both buffers and the read bookkeeping.
    pub state: ReadWriteState,
}

impl<C: Decoder, RW> Framed<C, RW> {
    /// The read half of the session is well formed.
    pub open spec fn wf(&self) -> bool {
        read_wf(&self.state.read, &self.codec)
    }

    /// Creates a new [`Framed`] with the given `codec` and `reader/writer`.
    pub fn new(codec: C, inner: RW, read_buffer: Vec<u8>, write_buffer: Vec<u8>) -> (r: Framed<
        C,
        RW,
    >)
        requires
            fresh(&codec),
        ensures
            r.codec == codec,
            r.inner == inner,
            r.state.read.index == 0,
            r.state.read.total_consumed == 0,
            r.state.read.eof == false,
            r.state.read.is_framable == false,
            r.state.read.shift == false,
            r.state.read.buffer == read_buffer,
            r.state.write.buffer == write_buffer,
            r.wf(),
    {
        let state = ReadWriteState::new(ReadState::new(read_buffer), WriteState::new(write_buffer));
        proof {
            assert forall|ext: Seq<u8>| #[trigger] codec.valid(state.read.region() + ext) by {
                assert(codec.valid(state.read.region() + ext));
            }
        }
        Framed { codec, inner, state }
    }

    /// Creates a new [`Framed`] from its parts.
    pub fn from_parts(codec: C, inner: RW, state: ReadWriteState) -> (r: Framed<C, RW>)
        requires
            read_wf(&state.read, &codec),
        ensures
            r.codec == codec,
            r.inner == inner,
            r.state == state,
            r.wf(),
    {
        Framed { codec, inner, state }
    }

    /// Tries to read a frame; one step of the session's state machine.  See
    /// [`functions::maybe_next`].
    pub fn maybe_next(&mut self) -> (r: Option<
        Result<Option<(usize, usize)>, ReadError<RW::Error, C::Error>>,
    >) where RW: TransportRead
        requires
            old(self).wf(),
        ensures
            step_ok(
                old(self).state.read,
                old(self).codec,
                old(self).inner,
                final(self).state.read,
                final(self).codec,
                final(self).inner,
                r,
            ),
    {
        functions::maybe_next(&mut self.state.read, &mut self.codec, &mut self.inner)
    }

    /// Reads until a frame is decoded or the session is over.  See
    /// [`functions::next`].
    pub fn next(&mut self) -> (r: Option<
        Result<(usize, usize), ReadError<RW::Error, C::Error>>,
    >) where RW: TransportRead
        requires
            old(self).wf(),
        ensures
            next_ok::<C, RW>(
                old(self).state.read,
                old(self).codec,
                final(self).state.read,
                final(self).codec,
                r,
            ),
    {
        functions::next(&mut self.state.read, &mut self.codec, &mut self.inner)
    }

    /// The bytes of a decoded frame, valid until the next step mutates the
    /// buffer.
    pub fn frame(&self, start: usize, end: usize) -> (r: &[u8])
        requires
            start <= end <= self.state.read.index,
            self.state.read.wf(),
        ensures
            r@ == self.state.read.buffer@.subrange(start as int, end as int),
    {
        vstd::slice::slice_subrange(self.state.read.buffer.as_slice(), start, end)
    }

    /// Returns the number of bytes that can be framed.
    pub fn framable(&self) -> (n: usize)
        requires
            self.wf(),
        ensures
            n == self.state.read.index - self.state.read.total_consumed,
    {
        self.state.read.framable()
    }
}

impl<C, RW> Framed<C, RW> {
    /// Writes a frame to the underlying writer and flushes it.  See
    /// [`functions::send`].
    pub fn send<I: View>(&mut self, item: &I) -> (r: Result<
        (),
        WriteError<RW::Error, C::Error>,
    >) where C: Encoder<I>, RW: TransportWrite
        ensures
            final(self).codec == old(self).codec,
            final(self).state.read == old(self).state.read,
            send_ok(
                old(self).state.write,
                old(self).codec,
                old(self).inner,
                final(self).state.write,
                final(self).inner,
                item@,
                r,
            ),
    {
        functions::send(&mut self.state.write, &mut self.codec, &mut self.inner, item)
    }

    /// Returns a reference to the codec.
    pub fn codec(&self) -> (r: &C)
        ensures
            *r == self.codec,
    {
        &self.codec
    }

    /// Returns a mutable reference to the codec.
    pub fn codec_mut(&mut self) -> (r: &mut C)
        ensures
            *r == old(self).codec,
            final(self).codec == *final(r),
            final(self).inner == old(self).inner,
            final(self).state == old(self).state,
    {
        &mut self.codec
    }

    /// Returns a reference to the reader/writer.
    pub fn inner(&self) -> (r: &RW)
        ensures
            *r == self.inner,
    {
        &self.inner
    }

    /// Returns a mutable reference to the reader/writer.
    pub fn inner_mut(&mut self) -> (r: &mut RW)
        ensures
            *r == old(self).inner,
            final(self).inner == *final(r),
            final(self).codec == old(self).codec,
            final(self).state == old(self).state,
    {
        &mut self.inner
    }

    /// Consumes the [`Framed`] and returns the codec, the reader/writer and
    /// the session state.
    pub fn into_parts(self) -> (r: (C, RW, ReadWriteState))
        ensures
            r.0 == self.codec,
            r.1 == self.inner,
            r.2 == self.state,
    {
        (self.codec, self.inner, self.state)
    }
}

/// A framer that reads bytes from a [`TransportRead`] source and decodes
/// them into frames using a [`Decoder`].
#[derive(Debug)]
pub struct FramedRead<C, R> {
    /// The codec used to decode frames.
    pub codec: C,
    /// The underlying reader.
    pub inner: R,
    /// The session state: the read buffer and its bookkeeping.
    pub state: ReadState,
}

impl<C: Decoder, R> FramedRead<C, R> {
    /// The session is well formed.
    pub open spec fn wf(&self) -> bool {
        read_wf(&self.state, &self.codec)
    }

    /// Creates a new [`FramedRead`] with the given `codec` and `reader`.
    pub fn new(codec: C, reader: R, buffer: Vec<u8>) -> (r: FramedRead<C, R>)
        requires
            fresh(&codec),
        ensures
            r.codec == codec,
            r.inner == reader,
            r.state.index == 0,
            r.state.total_consumed == 0,
            r.state.eof == false,
            r.state.is_framable == false,
            r.state.shift == false,
            r.state.buffer == buffer,
            r.wf(),
    {
        let state = ReadState::new(buffer);
        proof {
            assert forall|ext: Seq<u8>| #[trigger] codec.valid(state.region() + ext) by {
                assert(codec.valid(state.region() + ext));
            }
        }
        FramedRead { codec, inner: reader, state }
    }

    /// Creates a new [`FramedRead`] from its parts.
    pub fn from_parts(codec: C, reader: R, state: ReadState) -> (r: FramedRead<C, R>)
        requires
            read_wf(&state, &codec),
        ensures
            r.codec == codec,
            r.inner == reader,
            r.state == state,
            r.wf(),
    {
        FramedRead { codec, inner: reader, state }
    }

    /// Tries to read a frame; one step of the session's state machine.  See
    /// [`functions::maybe_next`].
    pub fn maybe_next(&mut self) -> (r: Option<
        Result<Option<(usize, usize)>, ReadError<R::Error, C::Error>>,
    >) where R: TransportRead
        requires
            old(self).wf(),
        ensures
            step_ok(
                old(self).state,
                old(self).codec,
                old(self).inner,
                final(self).state,
                final(self).codec,
                final(self).inner,
                r,
            ),
    {
        functions::maybe_next(&mut self.state, &mut self.codec, &mut self.inner)
    }

    /// Reads until a frame is decoded or the session is over.  See
    /// [`functions::next`].
    pub fn next(&mut self) -> (r: Option<
        Result<(usize, usize), ReadError<R::Error, C::Error>>,
    >) where R: TransportRead
        requires
            old(self).wf(),
        ensures
            next_ok::<C, R>(
                old(self).state,
                old(self).codec,
                final(self).state,
                final(self).codec,
                r,
            ),
    {
        functions::next(&mut self.state, &mut self.codec, &mut self.inner)
    }

    /// The bytes of a decoded frame, valid until the next step mutates the
    /// buffer.
    pub fn frame(&self, start: usize, end: usize) -> (r: &[u8])
        requires
            start <= end <= self.state.index,
            self.state.wf(),
        ensures
            r@ == self.state.buffer@.subrange(start as int, end as int),
    {
        vstd::slice::slice_subrange(self.state.buffer.as_slice(), start, end)
    }

    /// Returns the number of bytes that can be framed.
    pub fn framable(&self) -> (n: usize)
        requires
            self.wf(),
        ensures
            n == self.state.index - self.state.total_consumed,
    {
        self.state.framable()
    }
}

impl<C, R> FramedRead<C, R> {
    /// Returns a reference to the codec.
    pub fn codec(&self) -> (r: &C)
        ensures
            *r == self.codec,
    {
        &self.codec
    }

    /// Returns a mutable reference to the codec.
    pub fn codec_mut(&mut self) -> (r: &mut C)
        ensures
            *r == old(self).codec,
            final(self).codec == *final(r),
            final(self).inner == old(self).inner,
            final(self).state == old(self).state,
    {
        &mut self.codec
    }

    /// Returns a reference to the reader.
    pub fn inner(&self) -> (r: &R)
        ensures
            *r == self.inner,
    {
        &self.inner
    }

    /// Returns a mutable reference to the reader.
    pub fn inner_mut(&mut self) -> (r: &mut R)
        ensures
            *r == old(self).inner,
            final(self).inner == *final(r),
            final(self).codec == old(self).codec,
            final(self).state == old(self).state,
    {
        &mut self.inner
    }

    /// Consumes the [`FramedRead`] and returns the codec, the reader and the
    /// session state.
    pub fn into_parts(self) -> (r: (C, R, ReadState))
        ensures
            r.0 == self.codec,
            r.1 == self.inner,
            r.2 == self.state,
    {
        (self.codec, self.inner, self.state)
    }
}

/// A framer that reads bytes from a [`TransportRead`] source and decodes
/// them into owned items using an [`OwnedDecoder`].
#[derive(Debug)]
pub struct FramedReadOwned<C, R> {
    /// The decoder used to decode items.
    pub decoder: C,
    /// The underlying reader.
    pub reader: R,
    /// The session state: the read buffer and its bookkeeping.
    pub state: ReadState,
}

impl<C: OwnedDecoder, R> FramedReadOwned<C, R> {
    /// The session is well formed.
    pub open spec fn wf(&self) -> bool {
        read_wf_owned(&self.state, &self.decoder)
    }

    /// Creates a new [`FramedReadOwned`] with the given `decoder` and
    /// `reader`.
    pub fn new(decoder: C, reader: R, buffer: Vec<u8>) -> (r: FramedReadOwned<C, R>)
        requires
            fresh_owned(&decoder),
        ensures
            r.decoder == decoder,
            r.reader == reader,
            r.state.index == 0,
            r.state.total_consumed == 0,
            r.state.eof == false,
            r.state.is_framable == false,
            r.state.shift == false,
            r.state.buffer == buffer,
            r.wf(),
    {
        let state = ReadState::new(buffer);
        proof {
            assert forall|ext: Seq<u8>| #[trigger] decoder.valid(state.region() + ext) by {
                assert(decoder.valid(state.region() + ext));
            }
        }
        FramedReadOwned { decoder, reader, state }
    }

    /// Tries to decode one owned item; one step of the session's state
    /// machine.  See [`functions::maybe_next_owned`].
    pub fn maybe_next(&mut self) -> (r: Option<
        Result<Option<C::Item>, ReadError<R::Error, C::Error>>,
    >) where R: TransportRead
        requires
            old(self).wf(),
        ensures
            step_owned_ok(
                old(self).state,
                old(self).decoder,
                old(self).reader,
                final(self).state,
                final(self).decoder,
                final(self).reader,
                r,
            ),
    {
        functions::maybe_next_owned(&mut self.state, &mut self.decoder, &mut self.reader)
    }

    /// Reads until an item is decoded or the session is over.  See
    /// [`functions::next_owned`].
    pub fn next(&mut self) -> (r: Option<
        Result<C::Item, ReadError<R::Error, C::Error>>,
    >) where R: TransportRead
        requires
            old(self).wf(),
        ensures
            next_owned_ok::<C, R>(
                old(self).state,
                old(self).decoder,
                final(self).state,
                final(self).decoder,
                r,
            ),
    {
        functions::next_owned(&mut self.state, &mut self.decoder, &mut self.reader)
    }
}

impl<C, R> FramedReadOwned<C, R> {
    /// Returns a reference to the decoder.
    pub fn decoder(&self) -> (r: &C)
        ensures
            *r == self.decoder,
    {
        &self.decoder
    }

    /// Returns a mutable reference to the decoder.
    pub fn decoder_mut(&mut self) -> (r: &mut C)
        ensures
            *r == old(self).decoder,
            final(self).decoder == *final(r),
            final(self).reader == old(self).reader,
            final(self).state == old(self).state,
    {
        &mut self.decoder
    }

    /// Returns a reference to the reader.
    pub fn reader(&self) -> (r: &R)
        ensures
            *r == self.reader,
    {
        &self.reader
    }

    /// Returns a mutable reference to the reader.
    pub fn reader_mut(&mut self) -> (r: &mut R)
        ensures
            *r == old(self).reader,
            final(self).reader == *final(r),
            final(self).decoder == old(self).decoder,
            final(self).state == old(self).state,
    {
        &mut self.reader
    }

    /// Consumes the [`FramedReadOwned`] and returns the decoder, the reader
    /// and the session state.
    pub fn into_parts(self) -> (r: (C, R, ReadState))
        ensures
            r.0 == self.decoder,
            r.1 == self.reader,
            r.2 == self.state,
    {
        (self.decoder, self.reader, self.state)
    }
}

/// A sink that writes encoded frames into an underlying [`TransportWrite`]
/// sink using an [`Encoder`].
#[derive(Debug)]
pub struct FramedWrite<C, W> {
    /// The codec used to encode frames.
    pub codec: C,
    /// The underlying writer.
    pub inner: W,
    /// The session state: the scratch buffer one item is encoded into.
    pub state: WriteState,
}

impl<C, W> FramedWrite<C, W> {
    /// Creates a new [`FramedWrite`] with the given `codec` and `writer`.
    pub fn new(codec: C, writer: W, buffer: Vec<u8>) -> (r: FramedWrite<C, W>)
        ensures
            r.codec == codec,
            r.inner == writer,
            r.state.buffer == buffer,
    {
        FramedWrite { codec, inner: writer, state: WriteState::new(buffer) }
    }

    /// Creates a new [`FramedWrite`] from its parts.
    pub fn from_parts(codec: C, writer: W, state: WriteState) -> (r: FramedWrite<C, W>)
        ensures
            r.codec == codec,
            r.inner == writer,
            r.state == state,
    {
        FramedWrite { codec, inner: writer, state }
    }

    /// Writes a frame to the underlying writer and flushes it.  See
    /// [`functions::send`].
    pub fn send<I: View>(&mut self, item: &I) -> (r: Result<
        (),
        WriteError<W::Error, C::Error>,
    >) where C: Encoder<I>, W: TransportWrite
        ensures
            final(self).codec == old(self).codec,
            send_ok(
                old(self).state,
                old(self).codec,
                old(self).inner,
                final(self).state,
                final(self).inner,
                item@,
                r,
            ),
    {
        functions::send(&mut self.state, &mut self.codec, &mut self.inner, item)
    }

    /// Returns a reference to the codec.
    pub fn codec(&self) -> (r: &C)
        ensures
            *r == self.codec,
    {
        &self.codec
    }

    /// Returns a mutable reference to the codec.
    pub fn codec_mut(&mut self) -> (r: &mut C)
        ensures
            *r == old(self).codec,
            final(self).codec == *final(r),
            final(self).inner == old(self).inner,
            final(self).state == old(self).state,
    {
        &mut self.codec
    }

    /// Returns a reference to the writer.
    pub fn inner(&self) -> (r: &W)
        ensures
            *r == self.inner,
    {
        &self.inner
    }

    /// Returns a mutable reference to the writer.
    pub fn inner_mut(&mut self) -> (r: &mut W)
        ensures
            *r == old(self).inner,
            final(self).inner == *final(r),
            final(self).codec == old(self).codec,
            final(self).state == old(self).state,
    {
        &mut self.inner
    }

    /// Consumes the [`FramedWrite`] and returns the codec, the writer and
    /// the session state.
    pub fn into_parts(self) -> (r: (C, W, WriteState))
        ensures
            r.0 == self.codec,
            r.1 == self.inner,
            r.2 == self.state,
    {
        (self.codec, self.inner, self.state)
    }
}

} // verus!

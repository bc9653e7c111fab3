//! Internal states for reading and writing frames.

use vstd::prelude::*;

verus! {

/// Internal state for reading frames: a byte buffer plus the bookkeeping of
/// one framing session.
#[derive(Debug)]
pub struct ReadState {
    /// The current index in the buffer.
    ///
    /// Represents the number of bytes read into the buffer.
    pub index: usize,
    /// EOF was reached while decoding.
    pub eof: bool,
    /// The buffer is currently framable.
    pub is_framable: bool,
    /// The buffer must be shifted before reading more bytes.
    ///
    /// Makes room for more bytes to be read into the buffer, keeping the
    /// bytes that are not yet consumed.
    pub shift: bool,
    /// Total number of bytes decoded in a framing round.
    pub total_consumed: usize,
    /// The underlying buffer to read into.
    pub buffer: Vec<u8>,
}

impl ReadState {
    /// Bookkeeping invariant: bytes already consumed never pass the fill
    /// level, and the fill level never passes the end of the buffer.
    pub open spec fn wf(&self) -> bool {
        self.total_consumed <= self.index <= self.buffer.len()
    }

    /// The bytes currently available to the decoder.
    pub open spec fn region(&self) -> Seq<u8> {
        self.buffer@.subrange(self.total_consumed as int, self.index as int)
    }

    /// Creates a new [`ReadState`] over the given buffer.
    pub fn new(buffer: Vec<u8>) -> (r: ReadState)
        ensures
            r.index == 0,
            r.eof == false,
            r.is_framable == false,
            r.shift == false,
            r.total_consumed == 0,
            r.buffer == buffer,
            r.wf(),
    {
        ReadState { index: 0, eof: false, is_framable: false, shift: false, total_consumed: 0, buffer }
    }

    /// Resets the state to its initial values, keeping the buffer.
    pub fn reset(self) -> (r: ReadState)
        ensures
            r.index == 0,
            r.eof == false,
            r.is_framable == false,
            r.shift == false,
            r.total_consumed == 0,
            r.buffer == self.buffer,
    {
        ReadState::new(self.buffer)
    }

    /// Creates an empty [`ReadState`].
    pub fn empty() -> (r: ReadState)
        ensures
            r.index == 0,
            r.eof == false,
            r.is_framable == false,
            r.shift == false,
            r.total_consumed == 0,
            r.buffer@ == Seq::<u8>::empty(),
    {
        ReadState::new(Vec::new())
    }

    /// Returns the number of bytes that can be framed.
    pub fn framable(&self) -> (n: usize)
        requires
            self.wf(),
        ensures
            n == self.index - self.total_consumed,
            n == self.region().len(),
    {
        self.index - self.total_consumed
    }

    /// Compacts the buffer: moves the bytes that are not yet consumed to the
    /// front, making room at the tail.  The available bytes are unchanged,
    /// and when nothing was consumed the whole buffer is left untouched.
    pub fn compact(&mut self)
        requires
            old(self).wf(),
        ensures
            final(self).wf(),
            final(self).index == old(self).index - old(self).total_consumed,
            final(self).total_consumed == 0,
            final(self).shift == false,
            final(self).eof == old(self).eof,
            final(self).is_framable == old(self).is_framable,
            final(self).buffer.len() == old(self).buffer.len(),
            final(self).region() == old(self).region(),
            old(self).total_consumed == 0 ==> final(self).buffer@ == old(self).buffer@
                && final(self).index == old(self).index,
    {
        let consumed = self.total_consumed;
        let count = self.index - consumed;
        let mut i: usize = 0;
        while i < count
            invariant
                i <= count,
                count == self.index - consumed,
                consumed == self.total_consumed,
                self.total_consumed <= self.index <= self.buffer.len(),
                self.index == old(self).index,
                self.total_consumed == old(self).total_consumed,
                self.eof == old(self).eof,
                self.is_framable == old(self).is_framable,
                self.shift == old(self).shift,
                self.buffer.len() == old(self).buffer.len(),
                forall|j: int| 0 <= j < i ==> self.buffer@[j] == old(self).buffer@[consumed + j],
                forall|j: int| i <= j < self.buffer.len() ==> self.buffer@[j] == old(self).buffer@[j],
            decreases count - i,
        {
            let b = self.buffer[consumed + i];
            self.buffer.set(i, b);
            i += 1;
        }
        self.index = count;
        self.total_consumed = 0;
        self.shift = false;
        proof {
            assert(final(self).region() =~= old(self).region());
            if old(self).total_consumed == 0 {
                assert(final(self).buffer@ =~= old(self).buffer@);
            }
        }
    }
}

/// Internal state for writing frames: the scratch buffer one encoded item is
/// staged in before it is pushed to the transport.
#[derive(Debug)]
pub struct WriteState {
    /// The underlying buffer to write to.
    pub buffer: Vec<u8>,
}

impl WriteState {
    /// Creates a new [`WriteState`] over the given buffer.
    pub fn new(buffer: Vec<u8>) -> (r: WriteState)
        ensures
            r.buffer == buffer,
    {
        WriteState { buffer }
    }

    /// Resets the state to its initial values, keeping the buffer.
    pub fn reset(self) -> (r: WriteState)
        ensures
            r.buffer == self.buffer,
    {
        WriteState::new(self.buffer)
    }

    /// Creates an empty [`WriteState`].
    pub fn empty() -> (r: WriteState)
        ensures
            r.buffer@ == Seq::<u8>::empty(),
    {
        WriteState::new(Vec::new())
    }
}

/// Internal state for reading and writing frames.
#[derive(Debug)]
pub struct ReadWriteState {
    /// Internal read state.
    pub read: ReadState,
    /// Internal write state.
    pub write: WriteState,
}

impl ReadWriteState {
    /// Creates a new [`ReadWriteState`] with the given [`ReadState`] and [`WriteState`].
    pub fn new(read: ReadState, write: WriteState) -> (r: ReadWriteState)
        ensures
            r.read == read,
            r.write == write,
    {
        ReadWriteState { read, write }
    }

    /// Resets both halves to their initial values, keeping the buffers.
    pub fn reset(self) -> (r: ReadWriteState)
        ensures
            r.read.index == 0,
            r.read.eof == false,
            r.read.is_framable == false,
            r.read.shift == false,
            r.read.total_consumed == 0,
            r.read.buffer == self.read.buffer,
            r.write.buffer == self.write.buffer,
    {
        ReadWriteState::new(self.read.reset(), self.write.reset())
    }
}

} // verus!

//! In-memory transports, for tests and examples.

use vstd::prelude::*;

use crate::transport::{TransportRead, TransportWrite};

verus! {

/// A transport that claims to serve every read and accept every write while
/// touching nothing; what it claims to have accepted is kept as a ghost.
pub struct Noop {
    /// The bytes claimed accepted so far.
    accepted: Ghost<Seq<u8>>,
    /// The accepted bytes claimed flushed so far.
    flushed: Ghost<Seq<u8>>,
}

impl Noop {
    /// Creates a new [`Noop`].
    pub fn new() -> (r: Noop)
        ensures
            r.accepted() == Seq::<u8>::empty(),
            r.flushed() == Seq::<u8>::empty(),
    {
        Noop { accepted: Ghost(Seq::empty()), flushed: Ghost(Seq::empty()) }
    }

    /// The bytes this sink has accepted so far.
    pub closed spec fn accepted(&self) -> Seq<u8> {
        self.accepted@
    }

    /// The accepted bytes that have been flushed so far.
    pub closed spec fn flushed(&self) -> Seq<u8> {
        self.flushed@
    }
}

impl TransportRead for Noop {
    type Error = core::convert::Infallible;

    fn read(&mut self, buf: &mut Vec<u8>, start: usize) -> (r: Result<usize, Self::Error>) {
        proof {
            assert(buf@.subrange(0, start as int) =~= old(buf)@.subrange(0, start as int));
        }
        Ok(buf.len() - start)
    }
}

impl TransportWrite for Noop {
    type Error = core::convert::Infallible;

    closed spec fn accepted(&self) -> Seq<u8> {
        self.accepted@
    }

    closed spec fn flushed(&self) -> Seq<u8> {
        self.flushed@
    }

    fn write(&mut self, buf: &Vec<u8>, from: usize, to: usize) -> (r: Result<usize, Self::Error>) {
        self.accepted = Ghost(self.accepted@ + buf@.subrange(from as int, to as int));
        Ok(to - from)
    }

    fn flush(&mut self) -> (r: Result<(), Self::Error>) {
        self.flushed = Ghost(self.accepted@);
        Ok(())
    }
}

/// A byte source that serves a script of chunks, one partial chunk per read,
/// and reports end of stream when the script runs out.
#[derive(Debug)]
pub struct ChunkReader {
    /// The scripted chunks, served in order.
    chunks: Vec<Vec<u8>>,
    /// Index of the chunk being served.
    pos: usize,
    /// Offset inside the chunk being served.
    off: usize,
}

impl ChunkReader {
    /// Creates a new [`ChunkReader`] serving the given chunks.
    pub fn new(chunks: Vec<Vec<u8>>) -> (r: ChunkReader) {
        ChunkReader { chunks, pos: 0, off: 0 }
    }
}

impl TransportRead for ChunkReader {
    type Error = core::convert::Infallible;

    fn read(&mut self, buf: &mut Vec<u8>, start: usize) -> (r: Result<usize, Self::Error>) {
        if self.pos >= self.chunks.len() {
            proof {
                assert(buf@.subrange(0, start as int) =~= old(buf)@.subrange(0, start as int));
            }
            return Ok(0);
        }
        let chunk_len = self.chunks[self.pos].len();
        let mut off = self.off;
        if off > chunk_len {
            off = chunk_len;
        }
        let avail = chunk_len - off;
        let space = buf.len() - start;
        let take = if avail < space {
            avail
        } else {
            space
        };
        let mut i: usize = 0;
        while i < take
            invariant
                i <= take,
                self.pos < self.chunks@.len(),
                off + take <= usize::MAX,
                start + take <= usize::MAX,
                off + take <= self.chunks@[self.pos as int]@.len(),
                start + take <= buf@.len(),
                buf@.len() == old(buf)@.len(),
                self == old(self),
                forall|j: int| 0 <= j < start ==> buf@[j] == old(buf)@[j],
            decreases take - i,
        {
            let b = self.chunks[self.pos][off + i];
            buf.set(start + i, b);
            i += 1;
        }
        self.off = off + take;
        if self.off >= chunk_len {
            self.pos = self.pos + 1;
            self.off = 0;
        }
        proof {
            assert(buf@.subrange(0, start as int) =~= old(buf)@.subrange(0, start as int));
        }
        Ok(take)
    }
}

/// A byte sink that records everything it accepts, so a test can look at the
/// wire.  A capacity bounds how many bytes one `write` call accepts, which
/// exercises the callers' short-write handling.
pub struct RecordingWriter {
    /// Everything accepted so far, in order.
    written: Vec<u8>,
    /// How many times `flush` was called.
    flushes: usize,
    /// The accepted bytes flushed so far.
    flushed: Ghost<Seq<u8>>,
    /// Most bytes accepted by one `write` call.
    cap: usize,
}

impl RecordingWriter {
    /// Creates a new [`RecordingWriter`] that accepts any write whole.
    pub fn new() -> (r: RecordingWriter)
        ensures
            r.accepted() == Seq::<u8>::empty(),
            r.flushed() == Seq::<u8>::empty(),
    {
        RecordingWriter { written: Vec::new(), flushes: 0, flushed: Ghost(Seq::empty()), cap: usize::MAX }
    }

    /// Creates a new [`RecordingWriter`] that accepts at most `cap` bytes per
    /// `write` call.
    pub fn new_with_cap(cap: usize) -> (r: RecordingWriter)
        requires
            cap >= 1,
        ensures
            r.accepted() == Seq::<u8>::empty(),
            r.flushed() == Seq::<u8>::empty(),
    {
        RecordingWriter { written: Vec::new(), flushes: 0, flushed: Ghost(Seq::empty()), cap }
    }

    /// The bytes accepted so far.
    pub fn written(&self) -> (r: &Vec<u8>)
        ensures
            r@ == self.accepted(),
    {
        &self.written
    }

    /// How many times the sink was flushed (saturating).
    pub fn flush_count(&self) -> (r: usize) {
        self.flushes
    }
}

impl TransportWrite for RecordingWriter {
    type Error = core::convert::Infallible;

    closed spec fn accepted(&self) -> Seq<u8> {
        self.written@
    }

    closed spec fn flushed(&self) -> Seq<u8> {
        self.flushed@
    }

    fn write(&mut self, buf: &Vec<u8>, from: usize, to: usize) -> (r: Result<usize, Self::Error>) {
        let cap = if self.cap == 0 {
            1
        } else {
            self.cap
        };
        let len = to - from;
        let take = if len < cap {
            len
        } else {
            cap
        };
        let mut i: usize = 0;
        while i < take
            invariant
                i <= take,
                from + take <= to,
                to <= buf@.len(),
                self.written@ == old(self).written@ + buf@.subrange(from as int, from + i),
                self.flushed == old(self).flushed,
                self.cap == old(self).cap,
                self.flushes == old(self).flushes,
            decreases take - i,
        {
            let b = buf[from + i];
            self.written.push(b);
            proof {
                assert(self.written@ =~= old(self).written@ + buf@.subrange(
                    from as int,
                    from + i + 1,
                ));
            }
            i += 1;
        }
        Ok(take)
    }

    fn flush(&mut self) -> (r: Result<(), Self::Error>) {
        if self.flushes < usize::MAX {
            self.flushes = self.flushes + 1;
        }
        self.flushed = Ghost(self.written@);
        Ok(())
    }
}

} // verus!

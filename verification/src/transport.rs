//! Transport contracts: the byte source and byte sink a framing session runs
//! over.
//!
//! These are the session's only collaborators.  Implementations inside this
//! crate are verified against the contracts below; adapters over outside
//! transports implement the same traits at the crate's edge.

use vstd::prelude::*;

verus! {

/// A fallible byte source: `read` fills a prefix of `buf[start..]` and
/// returns the count; 0 means end of stream.
pub trait TransportRead: Sized {
    /// The type of error that this source returns.
    type Error;

    /// Reads into `buf[start..]`, returning how many bytes were placed there.
    ///
    /// The buffer keeps its length, and the bytes before `start` are left
    /// untouched.
    fn read(&mut self, buf: &mut Vec<u8>, start: usize) -> (r: Result<usize, Self::Error>)
        requires
            start <= old(buf).len(),
        ensures
            final(buf).len() == old(buf).len(),
            final(buf)@.subrange(0, start as int) == old(buf)@.subrange(0, start as int),
            match r {
                Ok(n) => start + n <= final(buf).len(),
                Err(_) => final(buf)@ == old(buf)@,
            },
    ;
}

/// A fallible byte sink: `write` accepts some prefix of the given bytes
/// (short writes allowed, but never zero for a nonempty slice), and `flush`
/// pushes everything accepted so far down the stack.
///
/// The sink carries a model of its wire: `accepted` is everything it has
/// taken so far, in order, and `flushed` is the prefix of that which a flush
/// has pushed down.  The contracts below tie every call to the model, so a
/// caller can state exactly what reached the wire.
pub trait TransportWrite: Sized {
    /// The type of error that this sink returns.
    type Error;

    /// The bytes this sink has accepted so far, in order.
    spec fn accepted(&self) -> Seq<u8>;

    /// The accepted bytes that have been flushed down the stack.
    spec fn flushed(&self) -> Seq<u8>;

    /// Writes `buf[from..to]`, returning how many of those bytes were
    /// accepted.  The accepted bytes grow by exactly the written prefix.
    fn write(&mut self, buf: &Vec<u8>, from: usize, to: usize) -> (r: Result<usize, Self::Error>)
        requires
            from <= to <= buf.len(),
        ensures
            final(self).flushed() == old(self).flushed(),
            match r {
                Ok(n) => from + n <= to && (from < to ==> n >= 1) && final(self).accepted()
                    == old(self).accepted() + buf@.subrange(from as int, from + n),
                Err(_) => final(self).accepted() == old(self).accepted(),
            },
    ;

    /// Flushes the sink: on success everything accepted so far has been
    /// pushed down.
    fn flush(&mut self) -> (r: Result<(), Self::Error>)
        ensures
            final(self).accepted() == old(self).accepted(),
            r is Ok ==> final(self).flushed() == old(self).accepted(),
    ;
}

} // verus!

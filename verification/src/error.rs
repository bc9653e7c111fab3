//! Errors surfaced by the framing drivers.

use vstd::prelude::*;

verus! {

/// An error that can occur while reading a frame.
#[derive(Debug, Clone, Copy, PartialEq, Eq, Structural)]
pub enum ReadError<I, D> {
    /// An IO error occurred while reading from the underlying source.
    IO(I),
    /// An error occurred while decoding a frame.
    Decode(D),
    /// The buffer is too small to read a frame.
    BufferTooSmall,
    /// There are bytes remaining on the stream after decoding.
    BytesRemainingOnStream,
}

/// An error that can occur while writing a frame.
#[derive(Debug, Clone, Copy, PartialEq, Eq, Structural)]
pub enum WriteError<I, E> {
    /// An IO error occurred while writing to the underlying sink.
    IO(I),
    /// An error occurred while encoding a frame.
    Encode(E),
}

} // verus!

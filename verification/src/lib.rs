//! A byte-stream framing engine.
//!
//! Bytes pulled from a transport are gathered in a caller-provided buffer and
//! cut into frames by a pluggable decoder; symmetrically, items are encoded
//! into a scratch buffer and pushed to a transport sink.  The read driver is a
//! small state machine with explicit shift/refill/end-of-stream bookkeeping.

pub mod codec;
pub mod decode;
pub mod encode;
pub mod error;
pub mod framed;
pub mod functions;
pub mod laws;
pub mod mock;
pub mod packet;
pub mod state;
pub mod text;
pub mod transport;

pub use vstd::view::View;

//! Built-in codecs for cutting byte streams into frames.

pub mod bytes;
pub mod delimiter;
pub mod lines;

//! A codec for Standard MIDI Files: byte buffers in, validated chunks and
//! events out, and back again byte for byte.

pub mod chunk;
pub mod endian;
pub mod nonzero;
pub mod vlq;

//! The header chunk: the file's format, its number of tracks and its time
//! division, in a payload of exactly six bytes.

pub mod chunk;
pub mod division;
pub mod format;
pub mod ntracks;

pub use chunk::{Chunk, ChunkError, HeaderView};
pub use division::{
    Division, DivisionError, DivisionView, SMPTETimecodeFormat, SMPTETimecodeFormatError,
};
pub use format::{Format, FormatError};
pub use ntracks::{NTracks, NTracksError};

//! Codec and manipulation layer for the BD1 binary level format.
//!
//! A BD1 file holds a fixed table of ten texture filenames followed by a
//! sequence of rectangular-prism geometry blocks.  The byte layout is fixed:
//! ten 31-byte NUL-padded filename records, a 2-byte block count (read
//! big-endian, written little-endian — a format asymmetry that is preserved
//! exactly), and one 316-byte record per block.  Float-valued fields
//! (vertex coordinates and texture UVs) are carried as their raw 32-bit
//! IEEE-754 little-endian bit patterns; this crate never interprets them as
//! numbers, so the codec round-trips them bit for bit.

pub mod block;
pub mod error;
pub mod laws;
pub mod layout;
pub mod manipulator;
pub mod reader;
pub mod table;
pub mod uv;
pub mod writer;

pub use block::Block;
pub use block::Vector3;
pub use error::ParseError;
pub use manipulator::BD1Manipulator;
pub use manipulator::Matrix4;
pub use reader::Reader;
pub use table::TextureTable;
pub use uv::UV;
pub use writer::Writer;

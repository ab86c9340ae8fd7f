//! Decoder for DTED Level-2 elevation tiles.
//!
//! A tile is a fixed-layout binary file: an 80-byte User Header Label, 3348
//! bytes of identification and accuracy records, and one checksummed record
//! per longitude column. [`DtedTile::from_bytes`] turns such a buffer into a
//! header and an elevation grid, or says why the buffer is not a tile.
//!
//! Everything here works on whole numbers: positions are whole degrees and
//! grid cells are addressed by index.
//!
//! - [`format`] says in mathematics what the bytes of a tile mean.
//! - [`parser`] holds the decoder, proved against [`format`].
//! - [`theorems`] holds what follows from the layout.
//! - [`tile`] holds the decoded tile and its queries.
//! - [`grid`] holds the elevation grid, which `ndarray` stores.
//! - [`coordinate_2d`] holds whole-degree positions.

pub mod coordinate_2d;
pub mod format;
pub mod grid;
pub mod parser;
pub mod theorems;
pub mod tile;

pub use coordinate_2d::{CoordinateError, DegreeCoordinate};
pub use format::ErrorKind;
pub use parser::{parse_dted_tile, ParseError, ParseFailure};
pub use tile::{DtedHeader, DtedTile};

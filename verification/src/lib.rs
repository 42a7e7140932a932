//! Tile container conversion: a per-zoom-level tile coordinate pyramid with
//! set-like operations, and a dispatcher that selects container readers and
//! converters by file extension and drives a single-pass transfer.

pub mod container;
pub mod tile_bbox;
pub mod tile_bbox_pyramide;
pub mod tile_coords;

pub use container::{ContainerProvider, Convert, ConvertError, Converter, IoFailure,
    Precompression, Reader, TileFormat, Tools};
pub use tile_bbox::TileBBox;
pub use tile_bbox_pyramide::{TileBBoxPyramide, TileIndexIterator};
pub use tile_coords::{TileCoord2, TileCoord3};

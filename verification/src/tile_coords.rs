use vstd::prelude::*;

verus! {

/// A tile column/row pair at one (implicit) zoom level.
#[derive(Debug, Clone, Copy, PartialEq, Eq, Structural)]
pub struct TileCoord2 {
    pub x: u64,
    pub y: u64,
}

/// A tile column/row/zoom triple; uniquely identifies one tile.
#[derive(Debug, Clone, Copy, PartialEq, Eq, Structural)]
pub struct TileCoord3 {
    pub x: u64,
    pub y: u64,
    pub z: u64,
}

} // verus!

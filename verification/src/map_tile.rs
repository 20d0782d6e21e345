//! A slippy-map tile address: zoom level plus column and row.

use vstd::prelude::*;

verus! {

/// Identifies one raster map tile in the `zoom/x/y` addressing scheme.
#[derive(Debug, Copy, Clone, PartialEq, Eq, Structural, Hash)]
pub struct MapTile {
    pub zoom: i32,
    pub x: i32,
    pub y: i32,
}

impl MapTile {
    pub fn new(zoom: i32, x: i32, y: i32) -> (r: MapTile)
        ensures
            r == (MapTile { zoom, x, y }),
    {
        MapTile { zoom, x, y }
    }
}

} // verus!

//! A decoded elevation tile held in memory: its source path, its pixel
//! dimensions, and its raster as a row-major grid of metre values.

use vstd::prelude::*;

verus! {

/// A decoded tile. `size` is `(width, height)` in pixels and `data` holds
/// `width * height` elevations in metres, row by row from the north-west
/// corner. Each dimension is capped at 65536 pixels: a one-degree tile
/// wider than that would resolve below two metres per pixel, far beyond
/// the source data, so anything larger is taken for a corrupt decode.
pub struct TileIdentity {
    pub file_path: String,
    pub data: Vec<i16>,
    pub size: (usize, usize),
}

impl TileIdentity {
    /// Both dimensions are positive and the raster holds exactly one value
    /// per pixel.
    pub open spec fn wf(&self) -> bool {
        &&& 1 <= self.size.0 <= 65536
        &&& 1 <= self.size.1 <= 65536
        &&& self.data@.len() == self.size.0 * self.size.1
    }

    /// Builds a tile from already-decoded parts, rejecting rasters whose
    /// length does not match their claimed dimensions. Decoding itself
    /// happens outside the library; this constructor is the checkpoint
    /// where its output is validated.
    pub fn new(file_path: String, size: (usize, usize), data: Vec<i16>) -> (r: Option<
        TileIdentity,
    >)
        ensures
            r matches Some(t) ==> t.wf() && t.file_path == file_path && t.size == size && t.data
                == data,
            r is None ==> !(TileIdentity { file_path, size, data }).wf(),
    {
        if size.0 == 0 || size.1 == 0 || size.0 > 65536 || size.1 > 65536 {
            return None;
        }
        let dlen = data.len();
        match size.0.checked_mul(size.1) {
            None => None,
            Some(n) => {
                if dlen == n {
                    Some(TileIdentity { file_path, data, size })
                } else {
                    None
                }
            },
        }
    }

    /// Runtime check of [`Self::wf`], used to validate tiles built outside
    /// the library.
    pub fn check(&self) -> (r: bool)
        ensures
            r == self.wf(),
    {
        if self.size.0 == 0 || self.size.1 == 0 || self.size.0 > 65536 || self.size.1 > 65536 {
            return false;
        }
        let dlen = self.data.len();
        match self.size.0.checked_mul(self.size.1) {
            None => false,
            Some(n) => dlen == n,
        }
    }

    /// The elevation in metres at pixel column `u`, row `v`; row zero is the
    /// northern edge of the tile.
    pub fn pixel(&self, u: usize, v: usize) -> (r: i16)
        requires
            self.wf(),
            u < self.size.0,
            v < self.size.1,
        ensures
            r == self.data@[v * self.size.0 + u],
    {
        let dlen = self.data.len();
        proof {
            assert(v * self.size.0 + u < self.size.0 * self.size.1) by (nonlinear_arith)
                requires
                    u < self.size.0,
                    v < self.size.1,
            ;
        }
        self.data[v * self.size.0 + u]
    }
}

} // verus!

//! The error taxonomy of the library.

use vstd::prelude::*;

use crate::tile_signature::TileSignature;

verus! {

/// Everything that can go wrong while resolving elevations or rendering
/// heightmaps. Variants that carry a signature name the tile concerned.
#[derive(Debug, PartialEq, Eq, Structural, Copy, Clone)]
pub enum Error {
    /// The requested feature is reserved but not available.
    NotImplemented,
    /// The tile is not present in the decoded in-memory cache.
    NoSuchTile(TileSignature),
    /// The remote store answered with the given non-success HTTP status.
    NetworkStatusCodeError(u16, TileSignature),
    /// The remote store definitively lacks this tile (404 or 410).
    NoSuchObjectInRemote(TileSignature),
    /// A quarter directory name was not a digit between 0 and 3.
    InvalidQuarterDirectorySpecifier,
    /// A coordinate lay outside latitude [-90, 90] or longitude [-180, 180].
    InvalidCoordinate,
    /// A rectangle was empty or had its corners out of order.
    InvalidGeorectangle,
    /// A tile file could not be decoded into a raster.
    DecodeError(TileSignature),
    /// The network transport failed before any HTTP status was received.
    NetworkError,
    /// A local file could not be created or written.
    FilesystemError,
    /// The rendered image could not be encoded.
    ImageSaveError,
}

} // verus!

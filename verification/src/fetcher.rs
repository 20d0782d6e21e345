//! The boundary where the store meets the filesystem and the network.
//!
//! The store never performs I/O itself: it asks an implementation of
//! [`TileFetcher`] to probe the disk, stream a download, and decode a file,
//! and its own contracts state what holds for every outcome those calls can
//! produce. Implementations live outside the library (a real HTTP client in
//! the application, counting stubs in tests), which is why the trait's
//! methods carry no contracts of their own: nothing here is taken on trust.

use vstd::prelude::*;

use crate::tile_identity::TileIdentity;

verus! {

/// What came of one attempt to stream a remote tile to a local file.
#[derive(Debug, PartialEq, Eq, Structural, Copy, Clone)]
pub enum DownloadOutcome {
    /// A 2xx response was streamed to the target path in full.
    Downloaded,
    /// The transfer finished with the given non-2xx HTTP status.
    HttpStatus(u16),
    /// The transport failed before any HTTP status arrived.
    NetworkError,
    /// The target file could not be created or written.
    FilesystemError,
}

/// The store's window onto the world: a disk probe, a downloader, and a
/// decoder.
pub trait TileFetcher {
    /// Whether a finished tile file already sits at `path`.
    fn is_cached(&mut self, path: &str) -> bool;

    /// Streams the tile at `url` into the file at `path`, creating missing
    /// parent directories.
    fn download(&mut self, url: &str, path: &str) -> DownloadOutcome;

    /// Reads and decodes the tile file at `path`; `None` when the file is
    /// unreadable or corrupt.
    fn decode(&mut self, path: &str) -> Option<TileIdentity>;
}

} // verus!

use meridian::elevation_at;
use meridian::replace_extension;
use meridian::validate_coordinate;
use meridian::DownloadOutcome;
use meridian::Error;
use meridian::TileFetcher;
use meridian::TileIdentity;
use meridian::TileSignature;
use meridian::TileStorage;
use meridian::MICRO;

/// Serves one fixed raster for every tile.
struct OneTileFetcher {
    width: usize,
    height: usize,
    pixels: Vec<i16>,
    download_calls: usize,
}

impl TileFetcher for OneTileFetcher {
    fn is_cached(&mut self, _path: &str) -> bool {
        false
    }

    fn download(&mut self, _url: &str, _path: &str) -> DownloadOutcome {
        self.download_calls += 1;
        DownloadOutcome::Downloaded
    }

    fn decode(&mut self, path: &str) -> Option<TileIdentity> {
        Some(TileIdentity {
            file_path: path.to_owned(),
            data: self.pixels.clone(),
            size: (self.width, self.height),
        })
    }
}

/// The remote store has nothing at all.
struct EmptyRemoteFetcher {
    download_calls: usize,
}

impl TileFetcher for EmptyRemoteFetcher {
    fn is_cached(&mut self, _path: &str) -> bool {
        false
    }

    fn download(&mut self, _url: &str, _path: &str) -> DownloadOutcome {
        self.download_calls += 1;
        DownloadOutcome::HttpStatus(404)
    }

    fn decode(&mut self, _path: &str) -> Option<TileIdentity> {
        None
    }
}

fn store_serving(
    width: usize,
    height: usize,
    pixels: Vec<i16>,
) -> TileStorage<OneTileFetcher> {
    TileStorage::new(
        OneTileFetcher { width, height, pixels, download_calls: 0 },
        4,
        "http://example.com/elevations".to_owned(),
        "cache/elevations".to_owned(),
        "tif".to_owned(),
    )
}

#[test]
fn test_elevation_at_tile_corner_snaps_south() {
    // Row-major 3x3 raster over tile (60, 30); the query sits on the tile's
    // south-west corner, so the sampler reads the bottom-left pixel.
    let mut store = store_serving(3, 3, vec![9, 9, 9, 9, 9, 9, 0, 9, 9]);
    let value = elevation_at(&mut store, (60 * MICRO, 30 * MICRO)).unwrap();
    assert_eq!(value, 0);
}

#[test]
fn test_elevation_at_interior_pixel() {
    // The centre of tile (60, 30) lands on the centre pixel of a 3x3 raster.
    let mut store = store_serving(3, 3, vec![0, 1, 2, 3, 42, 5, 6, 7, 8]);
    let value = elevation_at(&mut store, (60 * MICRO + 500_000, 30 * MICRO + 500_000)).unwrap();
    assert_eq!(value, 42);
}

#[test]
fn test_elevation_at_interior_pixel_small_raster() {
    // On a 2x2 raster the same query falls in the south-west quadrant: the
    // eastward offset, measured in metres along the 60.5 degree parallel,
    // is just under half the tile's width at the 60 degree corner.
    let mut store = store_serving(2, 2, vec![0, 1, 2, 3]);
    let value = elevation_at(&mut store, (60 * MICRO + 500_000, 30 * MICRO + 500_000)).unwrap();
    assert_eq!(value, 2);
}

#[test]
fn test_elevation_seam_snap() {
    // A hair south-west of the corner snaps onto it and samples the same
    // tile and pixel as the corner itself.
    let mut store = store_serving(3, 3, vec![9, 9, 9, 9, 9, 9, 0, 9, 9]);
    let value = elevation_at(&mut store, (60 * MICRO - 5, 30 * MICRO + 5)).unwrap();
    assert_eq!(value, 0);
    let sig = TileSignature::new(60, 30);
    assert!(store.has(sig));
}

#[test]
fn test_elevation_at_invalid_coordinate() {
    let mut store = store_serving(1, 1, vec![0]);
    assert_eq!(
        elevation_at(&mut store, (91 * MICRO, 0)).err(),
        Some(Error::InvalidCoordinate)
    );
    assert_eq!(
        elevation_at(&mut store, (0, -181 * MICRO)).err(),
        Some(Error::InvalidCoordinate)
    );
    assert_eq!(store.network.download_calls, 0);
}

#[test]
fn test_elevation_negative_cache_round_trip() {
    let mut store = TileStorage::new(
        EmptyRemoteFetcher { download_calls: 0 },
        4,
        "http://example.com/elevations".to_owned(),
        "cache/elevations".to_owned(),
        "tif".to_owned(),
    );
    let sig = TileSignature::new(0, 0);
    assert_eq!(
        elevation_at(&mut store, (0, 0)).err(),
        Some(Error::NoSuchObjectInRemote(sig))
    );
    assert_eq!(store.network.download_calls, 1);
    assert_eq!(
        elevation_at(&mut store, (0, 0)).err(),
        Some(Error::NoSuchObjectInRemote(sig))
    );
    // The second query made zero network calls.
    assert_eq!(store.network.download_calls, 1);
}

#[test]
fn test_validate_coordinate_snapping() {
    assert_eq!(validate_coordinate((59_999_995, 30_000_005)), Ok((60_000_000, 30_000_000)));
    assert_eq!(validate_coordinate((59_999_950, 30_000_050)), Ok((59_999_950, 30_000_050)));
    assert_eq!(validate_coordinate((90_000_001, 0)), Err(Error::InvalidCoordinate));
    assert_eq!(validate_coordinate((0, 180_000_001)), Err(Error::InvalidCoordinate));
    assert_eq!(validate_coordinate((-90_000_000, -180_000_000)), Ok((-90_000_000, -180_000_000)));
}

#[test]
fn test_replace_extension() {
    assert_eq!(replace_extension("out/map.png", "json"), "out/map.json");
    assert_eq!(replace_extension("a.b.c", "tif"), "a.b.tif");
    assert_eq!(replace_extension("x.", "raw"), "x.raw");
}

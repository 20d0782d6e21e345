use meridian::DownloadOutcome;
use meridian::Error;
use meridian::TileFetcher;
use meridian::TileIdentity;
use meridian::TileSignature;
use meridian::TileStorage;

/// Serves one uniform raster for every tile, or a fixed HTTP status, and
/// counts how often each of its duties is exercised.
struct StubFetcher {
    status: u16,
    width: usize,
    height: usize,
    pixels: Vec<i16>,
    decode_fail: bool,
    download_calls: usize,
    decode_calls: usize,
}

impl StubFetcher {
    fn serving(width: usize, height: usize, pixels: Vec<i16>) -> StubFetcher {
        StubFetcher {
            status: 0,
            width,
            height,
            pixels,
            decode_fail: false,
            download_calls: 0,
            decode_calls: 0,
        }
    }

    fn failing(status: u16) -> StubFetcher {
        StubFetcher {
            status,
            width: 1,
            height: 1,
            pixels: vec![0],
            decode_fail: false,
            download_calls: 0,
            decode_calls: 0,
        }
    }
}

impl TileFetcher for StubFetcher {
    fn is_cached(&mut self, _path: &str) -> bool {
        false
    }

    fn download(&mut self, _url: &str, _path: &str) -> DownloadOutcome {
        self.download_calls += 1;
        match self.status {
            0 => DownloadOutcome::Downloaded,
            c => DownloadOutcome::HttpStatus(c),
        }
    }

    fn decode(&mut self, path: &str) -> Option<TileIdentity> {
        self.decode_calls += 1;
        if self.decode_fail {
            return None;
        }
        Some(TileIdentity {
            file_path: path.to_owned(),
            data: self.pixels.clone(),
            size: (self.width, self.height),
        })
    }
}

fn store_with(fetcher: StubFetcher, capacity: usize) -> TileStorage<StubFetcher> {
    TileStorage::new(
        fetcher,
        capacity,
        "http://example.com/elevations".to_owned(),
        "cache/elevations".to_owned(),
        "tif".to_owned(),
    )
}

fn sig(lat: i8, lon: i16) -> TileSignature {
    TileSignature::new(lat, lon)
}

#[test]
fn test_load_then_get() {
    let mut store = store_with(StubFetcher::serving(2, 2, vec![1, 2, 3, 4]), 4);
    {
        let entry = store.load(&sig(60, 30)).unwrap();
        assert_eq!(entry.size, (2, 2));
        assert_eq!(entry.file_path, "cache/elevations/1/60/30.tif");
    }
    assert!(store.has(sig(60, 30)));
    let entry = store.get(&sig(60, 30)).unwrap();
    assert_eq!(entry.data, vec![1, 2, 3, 4]);
}

#[test]
fn test_load_is_idempotent() {
    let mut store = store_with(StubFetcher::serving(2, 2, vec![1, 2, 3, 4]), 4);
    let (path1, size1) = {
        let e = store.load(&sig(60, 30)).unwrap();
        (e.file_path.clone(), e.size)
    };
    let (path2, size2) = {
        let e = store.load(&sig(60, 30)).unwrap();
        (e.file_path.clone(), e.size)
    };
    assert_eq!(path1, path2);
    assert_eq!(size1, size2);
    // The second load was served from memory.
    assert_eq!(store.network.download_calls, 1);
    assert_eq!(store.network.decode_calls, 1);
}

#[test]
fn test_get_before_load_fails() {
    let mut store = store_with(StubFetcher::serving(1, 1, vec![7]), 4);
    assert_eq!(store.get(&sig(0, 0)).err(), Some(Error::NoSuchTile(sig(0, 0))));
}

#[test]
fn test_negative_cache_memoizes_absence() {
    let mut store = store_with(StubFetcher::failing(404), 4);
    let first = store.load(&sig(0, 0)).err();
    assert_eq!(first, Some(Error::NoSuchObjectInRemote(sig(0, 0))));
    assert_eq!(store.network.download_calls, 1);
    let second = store.load(&sig(0, 0)).err();
    assert_eq!(second, Some(Error::NoSuchObjectInRemote(sig(0, 0))));
    // The second answer came from the negative cache: zero network calls.
    assert_eq!(store.network.download_calls, 1);
}

#[test]
fn test_gone_status_is_memoized_too() {
    let mut store = store_with(StubFetcher::failing(410), 4);
    assert_eq!(store.load(&sig(5, 5)).err(), Some(Error::NoSuchObjectInRemote(sig(5, 5))));
    store.load(&sig(5, 5)).err();
    assert_eq!(store.network.download_calls, 1);
}

#[test]
fn test_transient_status_is_not_memoized() {
    let mut store = store_with(StubFetcher::failing(500), 4);
    assert_eq!(
        store.load(&sig(1, 1)).err(),
        Some(Error::NetworkStatusCodeError(500, sig(1, 1)))
    );
    store.load(&sig(1, 1)).err();
    // Transient failures are retried, not memoized.
    assert_eq!(store.network.download_calls, 2);
}

#[test]
fn test_network_error_variant() {
    struct DownFetcher;
    impl TileFetcher for DownFetcher {
        fn is_cached(&mut self, _path: &str) -> bool {
            false
        }
        fn download(&mut self, _url: &str, _path: &str) -> DownloadOutcome {
            DownloadOutcome::NetworkError
        }
        fn decode(&mut self, _path: &str) -> Option<TileIdentity> {
            None
        }
    }
    let mut store = TileStorage::new(
        DownFetcher,
        2,
        "http://example.com".to_owned(),
        "cache".to_owned(),
        "tif".to_owned(),
    );
    assert_eq!(store.load(&sig(1, 1)).err(), Some(Error::NetworkError));
}

#[test]
fn test_filesystem_error_variant() {
    struct FullDiskFetcher;
    impl TileFetcher for FullDiskFetcher {
        fn is_cached(&mut self, _path: &str) -> bool {
            false
        }
        fn download(&mut self, _url: &str, _path: &str) -> DownloadOutcome {
            DownloadOutcome::FilesystemError
        }
        fn decode(&mut self, _path: &str) -> Option<TileIdentity> {
            None
        }
    }
    let mut store = TileStorage::new(
        FullDiskFetcher,
        2,
        "http://example.com".to_owned(),
        "cache".to_owned(),
        "tif".to_owned(),
    );
    assert_eq!(store.load(&sig(1, 1)).err(), Some(Error::FilesystemError));
}

#[test]
fn test_decode_failure_rolls_back() {
    let mut fetcher = StubFetcher::serving(1, 1, vec![0]);
    fetcher.decode_fail = true;
    let mut store = store_with(fetcher, 4);
    assert_eq!(store.load(&sig(2, 2)).err(), Some(Error::DecodeError(sig(2, 2))));
    assert!(!store.has(sig(2, 2)));
    // A corrupt file is not a missing tile: nothing was memoized, the next
    // load tries again.
    store.load(&sig(2, 2)).err();
    assert_eq!(store.network.download_calls, 2);
}

#[test]
fn test_bad_raster_is_a_decode_error() {
    // Three pixels cannot fill a two-by-two raster.
    let mut store = store_with(StubFetcher::serving(2, 2, vec![1, 2, 3]), 4);
    assert_eq!(store.load(&sig(3, 3)).err(), Some(Error::DecodeError(sig(3, 3))));
}

#[test]
fn test_mismatched_decode_path_is_rejected() {
    // A decode that reports some other file than the one it was asked for
    // is treated as corrupt.
    struct WrongPathFetcher;
    impl TileFetcher for WrongPathFetcher {
        fn is_cached(&mut self, _path: &str) -> bool {
            false
        }
        fn download(&mut self, _url: &str, _path: &str) -> DownloadOutcome {
            DownloadOutcome::Downloaded
        }
        fn decode(&mut self, _path: &str) -> Option<TileIdentity> {
            Some(TileIdentity {
                file_path: "elsewhere/0/0/0.tif".to_owned(),
                data: vec![1],
                size: (1, 1),
            })
        }
    }
    let mut store = TileStorage::new(
        WrongPathFetcher,
        2,
        "http://example.com".to_owned(),
        "cache".to_owned(),
        "tif".to_owned(),
    );
    assert_eq!(store.load(&sig(4, 4)).err(), Some(Error::DecodeError(sig(4, 4))));
    assert!(!store.has(sig(4, 4)));
}

#[test]
fn test_lru_eviction() {
    let mut store = store_with(StubFetcher::serving(1, 1, vec![9]), 2);
    store.load(&sig(0, 0)).unwrap();
    store.load(&sig(1, 1)).unwrap();
    store.load(&sig(2, 2)).unwrap();
    // With capacity two, the first tile fell out and the newest two stayed.
    assert_eq!(store.table.len(), 2);
    assert!(!store.has(sig(0, 0)));
    assert!(store.has(sig(1, 1)));
    assert!(store.has(sig(2, 2)));
    // The most recently used entry survives the next eviction.
    store.load(&sig(3, 3)).unwrap();
    assert!(store.has(sig(2, 2)));
    assert!(!store.has(sig(1, 1)));
}

#[test]
fn test_unload_all_keeps_negative_cache() {
    let mut store = store_with(StubFetcher::failing(404), 4);
    store.load(&sig(0, 0)).err();
    store.unload_all();
    assert_eq!(store.load(&sig(0, 0)).err(), Some(Error::NoSuchObjectInRemote(sig(0, 0))));
    assert_eq!(store.network.download_calls, 1);
}

#[test]
fn test_unload_all_clears_decoded() {
    let mut store = store_with(StubFetcher::serving(1, 1, vec![3]), 4);
    store.load(&sig(7, 7)).unwrap();
    store.unload_all();
    assert!(!store.has(sig(7, 7)));
}

#[test]
fn test_tile_identity_new_validates() {
    assert!(TileIdentity::new("p".to_owned(), (2, 2), vec![1, 2, 3, 4]).is_some());
    assert!(TileIdentity::new("p".to_owned(), (2, 2), vec![1, 2, 3]).is_none());
    assert!(TileIdentity::new("p".to_owned(), (0, 2), vec![]).is_none());
    assert!(TileIdentity::new("p".to_owned(), (70_000, 1), vec![0; 70_000]).is_none());
}

#[test]
fn test_tile_identity_pixel_order() {
    let tile = TileIdentity {
        file_path: "p".to_owned(),
        data: vec![10, 11, 12, 13, 14, 15],
        size: (3, 2),
    };
    assert_eq!(tile.pixel(0, 0), 10);
    assert_eq!(tile.pixel(2, 0), 12);
    assert_eq!(tile.pixel(0, 1), 13);
    assert_eq!(tile.pixel(2, 1), 15);
}

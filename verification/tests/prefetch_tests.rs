use meridian::ElevationPrefetcher;
use meridian::Error;
use meridian::GeoCoordinate;
use meridian::GeoRectangle;
use meridian::TileSignature;
use meridian::MICRO;

fn prefetcher() -> ElevationPrefetcher {
    ElevationPrefetcher::new(
        "http://example.com/elevations".to_owned(),
        "cache/elevations".to_owned(),
        "tif".to_owned(),
        8,
    )
}

#[test]
fn test_split_rectangle_enumerates_row_major() {
    let rect = GeoRectangle::from_tuples(
        (60_900_000, 29_100_000),
        (59_900_000, 30_900_000),
    );
    let sigs = ElevationPrefetcher::split_rectangle(&rect).unwrap();
    assert_eq!(
        sigs,
        vec![
            TileSignature::new(59, 29),
            TileSignature::new(59, 30),
            TileSignature::new(60, 29),
            TileSignature::new(60, 30),
        ]
    );
}

#[test]
fn test_split_rectangle_single_tile() {
    let rect = GeoRectangle::from_tuples((60_600_000, 30_200_000), (60_100_000, 30_700_000));
    let sigs = ElevationPrefetcher::split_rectangle(&rect).unwrap();
    assert_eq!(sigs, vec![TileSignature::new(60, 30)]);
}

#[test]
fn test_split_rectangle_rejects_disorder() {
    let rect = GeoRectangle::from_tuples((60 * MICRO, 31 * MICRO), (61 * MICRO, 30 * MICRO));
    assert_eq!(
        ElevationPrefetcher::split_rectangle(&rect).err(),
        Some(Error::InvalidGeorectangle)
    );
}

#[test]
fn test_pending_filters_cached() {
    let p = prefetcher();
    let sigs = vec![
        TileSignature::new(59, 29),
        TileSignature::new(59, 30),
        TileSignature::new(60, 29),
    ];
    let cached = vec![true, false, true];
    assert_eq!(p.pending(&sigs, &cached), vec![TileSignature::new(59, 30)]);
}

#[test]
fn test_pending_over_cached_region_is_empty() {
    // A region whose every tile is already on disk needs zero downloads.
    let p = prefetcher();
    let rect = GeoRectangle::from_tuples(
        (60_900_000, 29_100_000),
        (59_900_000, 30_900_000),
    );
    let sigs = ElevationPrefetcher::split_rectangle(&rect).unwrap();
    let cached = vec![true; sigs.len()];
    assert_eq!(p.pending(&sigs, &cached), vec![]);
}

#[test]
fn test_happy_path_tile_budget() {
    // A 100 km square around (60, 30) touches at most nine tiles.
    let center = GeoCoordinate::new_2d(60 * MICRO, 30 * MICRO);
    let rect = GeoRectangle::from_center_and_size(center, 100_000, 100_000).unwrap();
    let sigs = ElevationPrefetcher::split_rectangle(&rect).unwrap();
    assert!(sigs.len() <= 9);
    assert!(sigs.contains(&TileSignature::new(60, 30)));
}

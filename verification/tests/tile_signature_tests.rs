use meridian::MapTile;
use meridian::Quarter;
use meridian::TileSignature;
use meridian::Error;
use meridian::MICRO;

#[test]
fn test_new_and_fields() {
    let sig = TileSignature::new(60, 30);
    assert_eq!(sig.latitude, 60);
    assert_eq!(sig.longitude, 30);
}

#[test]
fn test_from_floor_round_trip() {
    for (lat, lon) in [(60i64, 30i64), (-10, 20), (0, 0), (-90, -180), (89, 179)] {
        for eps in [1i64, 37, 500_000, 999_999] {
            let sig = TileSignature::from_micro_degrees(lat * MICRO + eps, lon * MICRO + eps);
            assert_eq!(sig, TileSignature::new(lat as i8, lon as i16));
        }
    }
}

#[test]
fn test_from_floor_clamps_far_edges() {
    let sig = TileSignature::from_micro_degrees(90 * MICRO, 180 * MICRO);
    assert_eq!(sig, TileSignature::new(89, 179));
}

#[test]
fn test_quarter_rule() {
    assert_eq!(TileSignature::new(10, -20).quarter(), Quarter::TopLeft);
    assert_eq!(TileSignature::new(10, 20).quarter(), Quarter::TopRight);
    assert_eq!(TileSignature::new(-10, -20).quarter(), Quarter::BottomLeft);
    assert_eq!(TileSignature::new(-10, 20).quarter(), Quarter::BottomRight);
}

#[test]
fn test_relative_path_quarters() {
    assert_eq!(TileSignature::new(-10, 20).to_relative_path("tif"), "3/10/20.tif");
    assert_eq!(TileSignature::new(10, 20).to_relative_path("tif"), "1/10/20.tif");
    assert_eq!(TileSignature::new(10, -20).to_relative_path("tif"), "0/10/20.tif");
    assert_eq!(TileSignature::new(-10, -20).to_relative_path("tif"), "2/10/20.tif");
}

#[test]
fn test_relative_path_of_fractional_floor() {
    // 41.85 north, 87.65 west: the floor of the longitude is -88.
    let sig = TileSignature::from_micro_degrees(41_850_000, -87_650_000);
    assert_eq!(sig, TileSignature::new(41, -88));
    assert_eq!(sig.to_relative_path("tif"), "0/41/88.tif");
}

#[test]
fn test_relative_path_empty_extension() {
    assert_eq!(TileSignature::new(60, 30).to_relative_path(""), "1/60/30");
}

#[test]
fn test_abs_path() {
    let sig = TileSignature::new(60, 30);
    assert_eq!(sig.to_abs_path("cache/elevations", "tif"), "cache/elevations/1/60/30.tif");
}

#[test]
fn test_url_forms() {
    let sig = TileSignature::new(60, 30);
    let url = "http://example.com/elevations";
    assert_eq!(sig.to_url("tif", url), "http://example.com/elevations/1/60/30.tif");
    assert_eq!(sig.to_url_threadsafe("tif", url), sig.to_url("tif", url));
}

#[test]
fn test_georectangle_size() {
    assert_eq!(TileSignature::new(60, 30).georectangle_size(), (55_597, 111_195));
    assert_eq!(TileSignature::new(0, 0).georectangle_size(), (111_195, 111_195));
    assert_eq!(TileSignature::new(-90, 0).georectangle_size(), (0, 111_195));
}

#[test]
fn test_quarter_from_str() {
    assert_eq!(Quarter::from_str("0"), Ok(Quarter::TopLeft));
    assert_eq!(Quarter::from_str("1"), Ok(Quarter::TopRight));
    assert_eq!(Quarter::from_str("2"), Ok(Quarter::BottomLeft));
    assert_eq!(Quarter::from_str("3"), Ok(Quarter::BottomRight));
    assert_eq!(Quarter::from_str("4"), Err(Error::InvalidQuarterDirectorySpecifier));
    assert_eq!(Quarter::from_str("17"), Err(Error::InvalidQuarterDirectorySpecifier));
    assert_eq!(Quarter::from_str(""), Err(Error::InvalidQuarterDirectorySpecifier));
}

#[test]
fn test_quarter_signs_and_index() {
    assert_eq!(Quarter::TopLeft.signs(), (1, -1));
    assert_eq!(Quarter::TopRight.signs(), (1, 1));
    assert_eq!(Quarter::BottomLeft.signs(), (-1, -1));
    assert_eq!(Quarter::BottomRight.signs(), (-1, 1));
    assert_eq!(Quarter::TopLeft.to_u8(), 0);
    assert_eq!(Quarter::TopRight.to_u8(), 1);
    assert_eq!(Quarter::BottomLeft.to_u8(), 2);
    assert_eq!(Quarter::BottomRight.to_u8(), 3);
}

#[test]
fn test_map_tile_new() {
    let tile = MapTile::new(5, 8, 11);
    assert_eq!(tile.zoom, 5);
    assert_eq!(tile.x, 8);
    assert_eq!(tile.y, 11);
}

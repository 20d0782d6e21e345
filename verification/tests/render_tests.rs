use meridian::convert_georectangle;
use meridian::sidecar_json;
use meridian::DownloadOutcome;
use meridian::Error;
use meridian::GeoRectangle;
use meridian::ImageFormat;
use meridian::Resolution;
use meridian::TileFetcher;
use meridian::TileIdentity;
use meridian::TileStorage;
use meridian::MICRO;

/// Serves one fixed raster for every tile.
struct UniformFetcher {
    width: usize,
    height: usize,
    pixels: Vec<i16>,
}

impl TileFetcher for UniformFetcher {
    fn is_cached(&mut self, _path: &str) -> bool {
        false
    }

    fn download(&mut self, _url: &str, _path: &str) -> DownloadOutcome {
        DownloadOutcome::Downloaded
    }

    fn decode(&mut self, path: &str) -> Option<TileIdentity> {
        Some(TileIdentity {
            file_path: path.to_owned(),
            data: self.pixels.clone(),
            size: (self.width, self.height),
        })
    }
}

/// The remote store has nothing at all.
struct AbsentFetcher;

impl TileFetcher for AbsentFetcher {
    fn is_cached(&mut self, _path: &str) -> bool {
        false
    }

    fn download(&mut self, _url: &str, _path: &str) -> DownloadOutcome {
        DownloadOutcome::HttpStatus(404)
    }

    fn decode(&mut self, _path: &str) -> Option<TileIdentity> {
        None
    }
}

fn store_of<F: TileFetcher>(fetcher: F) -> TileStorage<F> {
    TileStorage::new(
        fetcher,
        8,
        "http://example.com/elevations".to_owned(),
        "cache/elevations".to_owned(),
        "tif".to_owned(),
    )
}

#[test]
fn test_convert_georectangle() {
    // Corners in the wrong east-west order name no rectangle.
    let mut store = store_of(AbsentFetcher);
    let rect = GeoRectangle::from_tuples((61 * MICRO, 31 * MICRO), (60 * MICRO, 30 * MICRO));
    let _ = convert_georectangle(&mut store, "123", rect, Resolution::Low, ImageFormat::PNG);
}

#[test]
fn test_render_invalid_rect() {
    let mut store = store_of(AbsentFetcher);
    let rect = GeoRectangle::from_tuples((60 * MICRO, 31 * MICRO), (61 * MICRO, 30 * MICRO));
    let r = convert_georectangle(&mut store, "out", rect, Resolution::UltraLow, ImageFormat::PNG);
    assert_eq!(r.err(), Some(Error::InvalidGeorectangle));
}

#[test]
fn test_render_raw_not_implemented() {
    let mut store = store_of(AbsentFetcher);
    let rect = GeoRectangle::from_tuples((61 * MICRO, 30 * MICRO), (60 * MICRO, 31 * MICRO));
    let r = convert_georectangle(&mut store, "out", rect, Resolution::UltraLow, ImageFormat::RAW);
    assert_eq!(r.err(), Some(Error::NotImplemented));
}

#[test]
fn test_render_all_absent_is_black() {
    // No tile exists, so every sample collapses to sea level and the whole
    // image is black with equal extremes.
    let mut store = store_of(AbsentFetcher);
    let rect = GeoRectangle::from_tuples((61 * MICRO, 30 * MICRO), (60 * MICRO, 31 * MICRO));
    let out = convert_georectangle(&mut store, "out", rect, Resolution::UltraLow, ImageFormat::PNG)
        .unwrap();
    assert_eq!(out.size, 513);
    assert_eq!(out.pixels.len(), 513 * 513);
    assert_eq!(out.min, 0);
    assert_eq!(out.max, 0);
    assert!(out.pixels.iter().all(|&p| p == 0));
    let decoded = image::load_from_memory(&out.png).unwrap();
    assert_eq!(decoded.width(), 513);
    assert_eq!(decoded.height(), 513);
    assert!(decoded.to_luma8().pixels().all(|p| p.0[0] == 0));
}

#[test]
fn test_render_happy_path() {
    // A 100 km square around (60, 30) at Low resolution over uniform
    // terrain: a 1025 x 1025 image, a sea-level-or-higher minimum, and a
    // sidecar next to the image.
    let mut store = store_of(UniformFetcher { width: 2, height: 2, pixels: vec![5, 5, 5, 5] });
    let center = meridian::GeoCoordinate::new_2d(60 * MICRO, 30 * MICRO);
    let rect = GeoRectangle::from_center_and_size(center, 100_000, 100_000).unwrap();
    let out = convert_georectangle(
        &mut store,
        "out/heightmap",
        rect,
        Resolution::Low,
        ImageFormat::PNG,
    )
    .unwrap();
    assert_eq!(out.size, 1025);
    assert_eq!(out.pixels.len(), 1025 * 1025);
    assert!(out.min >= 0);
    assert_eq!(out.min, 5);
    assert_eq!(out.max, 5);
    assert_eq!(out.image_path, "out/heightmap.png");
    assert_eq!(out.sidecar_path, "out/heightmap.json");
    let decoded = image::load_from_memory(&out.png).unwrap();
    assert_eq!(decoded.width(), 1025);
    assert_eq!(decoded.height(), 1025);
}

#[test]
fn test_render_normalizes_between_extremes() {
    // Terrain alternating between two levels normalizes to black and white.
    let mut store = store_of(UniformFetcher { width: 2, height: 2, pixels: vec![0, 100, 0, 100] });
    let rect = GeoRectangle::from_tuples((61 * MICRO, 30 * MICRO), (60 * MICRO, 31 * MICRO));
    let out = convert_georectangle(&mut store, "out", rect, Resolution::UltraLow, ImageFormat::PNG)
        .unwrap();
    assert_eq!(out.min, 0);
    assert_eq!(out.max, 100);
    assert!(out.pixels.iter().all(|&p| p == 0 || p == 255));
    assert!(out.pixels.iter().any(|&p| p == 0));
    assert!(out.pixels.iter().any(|&p| p == 255));
}

#[test]
fn test_png_round_trips_pixels() {
    // The PNG bytes are a real encoding of the raster, not the raster
    // handed back unchanged.
    let mut store = store_of(UniformFetcher { width: 2, height: 2, pixels: vec![0, 50, 100, 25] });
    let rect = GeoRectangle::from_tuples((61 * MICRO, 30 * MICRO), (60 * MICRO, 31 * MICRO));
    let out = convert_georectangle(&mut store, "out", rect, Resolution::UltraLow, ImageFormat::PNG)
        .unwrap();
    assert_ne!(out.png, out.pixels);
    assert_eq!(&out.png[0..4], &[0x89, 0x50, 0x4e, 0x47]);
    let decoded = image::load_from_memory(&out.png).unwrap().to_luma8();
    let decoded_pixels: Vec<u8> = decoded.pixels().map(|p| p.0[0]).collect();
    assert_eq!(decoded_pixels, out.pixels);
}

#[test]
fn test_render_is_deterministic() {
    // Two renders over the same inputs and the same cache state produce
    // byte-identical artifacts.
    let mut store = store_of(UniformFetcher { width: 3, height: 3, pixels: vec![1, 2, 3, 4, 5, 6, 7, 8, 9] });
    let rect = GeoRectangle::from_tuples((61 * MICRO, 30 * MICRO), (60 * MICRO, 31 * MICRO));
    let a = convert_georectangle(&mut store, "out", rect, Resolution::UltraLow, ImageFormat::PNG)
        .unwrap();
    let b = convert_georectangle(&mut store, "out", rect, Resolution::UltraLow, ImageFormat::PNG)
        .unwrap();
    assert_eq!(a.png, b.png);
    assert_eq!(a.sidecar_json, b.sidecar_json);
    assert_eq!(a.pixels, b.pixels);
}

#[test]
fn test_sidecar_schema() {
    let mut store = store_of(UniformFetcher { width: 2, height: 2, pixels: vec![3, 8, 1, 4] });
    let rect = GeoRectangle::from_tuples((61 * MICRO, 30 * MICRO), (60 * MICRO, 31 * MICRO));
    let out = convert_georectangle(&mut store, "out", rect, Resolution::UltraLow, ImageFormat::PNG)
        .unwrap();
    let parsed = json::parse(&out.sidecar_json).unwrap();
    let min = parsed["heightmap"]["min"].as_i16().unwrap();
    let max = parsed["heightmap"]["max"].as_i16().unwrap();
    assert!(min <= max);
    assert_eq!(min, out.min);
    assert_eq!(max, out.max);
}

#[test]
fn test_sidecar_json_exact() {
    assert_eq!(
        sidecar_json(-5, 10),
        "{\n    \"heightmap\": {\n        \"min\": -5,\n        \"max\": 10\n    }\n}"
    );
    assert_eq!(
        sidecar_json(0, 0),
        "{\n    \"heightmap\": {\n        \"min\": 0,\n        \"max\": 0\n    }\n}"
    );
}

#[test]
fn test_resolution_values() {
    assert_eq!(Resolution::UltraLow.value(), 513);
    assert_eq!(Resolution::Low.value(), 1025);
    assert_eq!(Resolution::Medium.value(), 2049);
    assert_eq!(Resolution::High.value(), 4097);
    assert_eq!(Resolution::from_i32(0), Some(Resolution::UltraLow));
    assert_eq!(Resolution::from_i32(3), Some(Resolution::High));
    assert_eq!(Resolution::from_i32(4), None);
}

#[test]
fn test_image_format() {
    assert_eq!(ImageFormat::PNG.extension(), "png");
    assert_eq!(ImageFormat::RAW.extension(), "raw");
    assert!(ImageFormat::PNG.is_8bit());
    assert!(!ImageFormat::RAW.is_8bit());
    assert_eq!(ImageFormat::from_i32(0), Some(ImageFormat::PNG));
    assert_eq!(ImageFormat::from_i32(1), Some(ImageFormat::RAW));
    assert_eq!(ImageFormat::from_i32(2), None);
}

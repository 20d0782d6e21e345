use meridian::clip_latitude;
use meridian::clip_longitude;
use meridian::is_valid_latitude;
use meridian::is_valid_longitude;
use meridian::ExtendMode;
use meridian::GeoCoordinate;
use meridian::GeoCoordinateType;
use meridian::GeoRectangle;
use meridian::MICRO;

#[test]
fn test_validity_ranges() {
    assert!(is_valid_latitude(90 * MICRO));
    assert!(is_valid_latitude(-90 * MICRO));
    assert!(!is_valid_latitude(90 * MICRO + 1));
    assert!(is_valid_longitude(180 * MICRO));
    assert!(!is_valid_longitude(-180 * MICRO - 1));
}

#[test]
fn test_clipping() {
    assert_eq!(clip_latitude(95 * MICRO), 90 * MICRO);
    assert_eq!(clip_latitude(-95 * MICRO), -90 * MICRO);
    assert_eq!(clip_latitude(45 * MICRO), 45 * MICRO);
    assert_eq!(clip_longitude(190 * MICRO), -170 * MICRO);
    assert_eq!(clip_longitude(-190 * MICRO), 170 * MICRO);
    assert_eq!(clip_longitude(30 * MICRO), 30 * MICRO);
}

#[test]
fn test_coordinate_type() {
    assert_eq!(
        GeoCoordinate::new_2d(60 * MICRO, 30 * MICRO).coordinate_type(),
        GeoCoordinateType::Coordinate2D
    );
    assert_eq!(
        GeoCoordinate::new(60 * MICRO, 30 * MICRO, 1500).coordinate_type(),
        GeoCoordinateType::Coordinate3D
    );
    assert_eq!(
        GeoCoordinate::new_2d(95 * MICRO, 30 * MICRO).coordinate_type(),
        GeoCoordinateType::InvalidCoordinate
    );
    assert!(GeoCoordinate::new_2d(60 * MICRO, 30 * MICRO).valid());
    assert!(!GeoCoordinate::new_2d(60 * MICRO, 181 * MICRO).valid());
}

#[test]
fn test_rectangle_metrics() {
    let rect = GeoRectangle::from_tuples((61 * MICRO, 30 * MICRO), (60 * MICRO, 31 * MICRO));
    assert!(rect.valid());
    assert_eq!(rect.height_meters(), Ok(111_195));
    // One degree of longitude along the 61 degree parallel.
    assert_eq!(rect.width_meters(), Ok(53_908));
    assert_eq!(rect.size(), Ok((53_908, 111_195)));
}

#[test]
fn test_rectangle_center() {
    let rect = GeoRectangle::from_tuples((61 * MICRO, 30 * MICRO), (60 * MICRO, 31 * MICRO));
    let center = rect.center().unwrap();
    assert_eq!(center.latitude, 60_500_000);
    assert_eq!(center.longitude, 30_500_000);
    let point = GeoRectangle::from_tuples((60 * MICRO, 30 * MICRO), (60 * MICRO, 30 * MICRO));
    assert!(point.center().is_err());
}

#[test]
fn test_rectangle_center_across_antimeridian() {
    // A rectangle from 170 east to 170 west crosses the antimeridian: its
    // centre sits on it, not at the prime meridian.
    let rect = GeoRectangle::from_tuples((10 * MICRO, 170 * MICRO), (-10 * MICRO, -170 * MICRO));
    let center = rect.center().unwrap();
    assert_eq!(center.latitude, 0);
    assert_eq!(center.longitude, -180 * MICRO);
}

#[test]
fn test_from_center_and_size() {
    let center = GeoCoordinate::new_2d(60 * MICRO, 30 * MICRO);
    let rect = GeoRectangle::from_center_and_size(center, 100_000, 100_000).unwrap();
    assert_eq!(rect.top_left.latitude, 60_449_660);
    assert_eq!(rect.top_left.longitude, 29_088_207);
    assert_eq!(rect.bottom_right.latitude, 59_550_340);
    assert_eq!(rect.bottom_right.longitude, 30_887_327);
    assert!(rect.valid());
}

#[test]
fn test_from_center_rejects_out_of_reach() {
    let center = GeoCoordinate::new_2d(95 * MICRO, 30 * MICRO);
    assert!(GeoRectangle::from_center_and_size(center, 1000, 1000).is_err());
    let ok_center = GeoCoordinate::new_2d(0, 0);
    assert!(GeoRectangle::from_center_and_size(ok_center, 200_000_000, 1000).is_err());
}

#[test]
fn test_to_square_extends() {
    let rect = GeoRectangle::from_tuples((61 * MICRO, 30 * MICRO), (60 * MICRO, 31 * MICRO));
    let square = rect.to_square(ExtendMode::Extend).unwrap();
    assert!(square.valid());
    // The square's side is the larger edge: the full meridian height.
    let height = square.height_meters().unwrap();
    assert!(height > rect.width_meters().unwrap());
    let shrunk = rect.to_square(ExtendMode::Shrink).unwrap();
    assert!(shrunk.height_meters().unwrap() <= height);
}

//! Geographic coordinates and rectangles in fixed-point microdegrees.

use vstd::prelude::*;

use crate::errors::Error;
use crate::geodesy::meridian_distance;
use crate::geodesy::move_horizontal;
use crate::geodesy::move_vertical;
use crate::geodesy::parallel_distance;
use crate::geodesy::spec_meridian_distance;
use crate::geodesy::spec_move_horizontal;
use crate::geodesy::spec_move_vertical;
use crate::geodesy::spec_parallel_distance;
use crate::geodesy::spec_wrap_lon;
use crate::tile_signature::MICRO;

verus! {

/// Whether a latitude in microdegrees lies on the globe.
pub open spec fn spec_valid_latitude(lat_udeg: int) -> bool {
    -90 * (MICRO as int) <= lat_udeg <= 90 * (MICRO as int)
}

/// Whether a longitude in microdegrees lies on the globe.
pub open spec fn spec_valid_longitude(lon_udeg: int) -> bool {
    -180 * (MICRO as int) <= lon_udeg <= 180 * (MICRO as int)
}

pub fn is_valid_latitude(lat_udeg: i64) -> (r: bool)
    ensures
        r == spec_valid_latitude(lat_udeg as int),
{
    -90 * MICRO <= lat_udeg && lat_udeg <= 90 * MICRO
}

pub fn is_valid_longitude(lon_udeg: i64) -> (r: bool)
    ensures
        r == spec_valid_longitude(lon_udeg as int),
{
    -180 * MICRO <= lon_udeg && lon_udeg <= 180 * MICRO
}

/// Clamps a latitude to the poles.
pub fn clip_latitude(lat_udeg: i64) -> (r: i64)
    ensures
        r == if (lat_udeg as int) > 90 * (MICRO as int) {
            90 * (MICRO as int)
        } else if (lat_udeg as int) < -90 * (MICRO as int) {
            -90 * (MICRO as int)
        } else {
            lat_udeg as int
        },
        spec_valid_latitude(r as int),
{
    if lat_udeg > 90 * MICRO {
        90 * MICRO
    } else if lat_udeg < -90 * MICRO {
        -90 * MICRO
    } else {
        lat_udeg
    }
}

/// Folds a longitude less than one full turn out of range back into it.
pub fn clip_longitude(lon_udeg: i64) -> (r: i64)
    requires
        -540 * MICRO <= lon_udeg <= 540 * MICRO,
    ensures
        r == if (lon_udeg as int) > 180 * (MICRO as int) {
            lon_udeg as int - 360 * (MICRO as int)
        } else if (lon_udeg as int) < -180 * (MICRO as int) {
            lon_udeg as int + 360 * (MICRO as int)
        } else {
            lon_udeg as int
        },
        spec_valid_longitude(r as int),
{
    if lon_udeg > 180 * MICRO {
        lon_udeg - 360 * MICRO
    } else if lon_udeg < -180 * MICRO {
        lon_udeg + 360 * MICRO
    } else {
        lon_udeg
    }
}

/// How much of a position a coordinate value carries.
#[derive(Debug, PartialEq, Eq, Structural, Copy, Clone)]
pub enum GeoCoordinateType {
    InvalidCoordinate,
    Coordinate2D,
    Coordinate3D,
}

/// A point on (or above) the globe: latitude and longitude in microdegrees,
/// altitude in millimetres.
#[derive(Debug, PartialEq, Eq, Structural, Copy, Clone)]
pub struct GeoCoordinate {
    pub latitude: i64,
    pub longitude: i64,
    pub altitude: i64,
}

impl GeoCoordinate {
    pub fn new(latitude: i64, longitude: i64, altitude: i64) -> (r: GeoCoordinate)
        ensures
            r == (GeoCoordinate { latitude, longitude, altitude }),
    {
        GeoCoordinate { latitude, longitude, altitude }
    }

    pub fn new_2d(latitude: i64, longitude: i64) -> (r: GeoCoordinate)
        ensures
            r == (GeoCoordinate { latitude, longitude, altitude: 0 }),
    {
        GeoCoordinate { latitude, longitude, altitude: 0 }
    }

    /// Whether the point lies on the globe.
    pub open spec fn spec_valid(&self) -> bool {
        spec_valid_latitude(self.latitude as int) && spec_valid_longitude(self.longitude as int)
    }

    pub fn coordinate_type(&self) -> (r: GeoCoordinateType)
        ensures
            !self.spec_valid() ==> r == GeoCoordinateType::InvalidCoordinate,
            self.spec_valid() && self.altitude == 0 ==> r == GeoCoordinateType::Coordinate2D,
            self.spec_valid() && self.altitude != 0 ==> r == GeoCoordinateType::Coordinate3D,
    {
        if is_valid_latitude(self.latitude) && is_valid_longitude(self.longitude) {
            if self.altitude == 0 {
                GeoCoordinateType::Coordinate2D
            } else {
                GeoCoordinateType::Coordinate3D
            }
        } else {
            GeoCoordinateType::InvalidCoordinate
        }
    }

    pub fn valid(&self) -> (r: bool)
        ensures
            r == self.spec_valid(),
    {
        is_valid_latitude(self.latitude) && is_valid_longitude(self.longitude)
    }
}

/// How [`GeoRectangle::to_square`] picks the side of the square.
#[derive(Debug, PartialEq, Eq, Structural, Copy, Clone)]
pub enum ExtendMode {
    Extend,
    Shrink,
}

/// An axis-aligned rectangle on the globe, named by its north-west and
/// south-east corners.
#[derive(Debug, PartialEq, Eq, Structural, Copy, Clone)]
pub struct GeoRectangle {
    pub top_left: GeoCoordinate,
    pub bottom_right: GeoCoordinate,
}

/// The midpoint of two in-range microdegree values, computed in the
/// nonnegative range so that the halving is a plain floor.
pub open spec fn spec_mid(a: int, b: int, shift: int) -> int {
    ((a + shift) + (b + shift)) / 2 - shift
}

/// The central longitude of a rectangle: the plain mean, turned half the
/// globe and wrapped into `[-180, 180)` degrees when the west edge lies
/// east of the east edge (the rectangle crosses the antimeridian).
pub open spec fn spec_center_lon(west: int, east: int) -> int {
    let mean = spec_mid(west, east, 180 * (MICRO as int));
    if west > east {
        spec_wrap_lon(mean - 180 * (MICRO as int))
    } else {
        mean
    }
}

impl GeoRectangle {
    pub fn new(top_left: GeoCoordinate, bottom_right: GeoCoordinate) -> (r: GeoRectangle)
        ensures
            r == (GeoRectangle { top_left, bottom_right }),
    {
        GeoRectangle { top_left, bottom_right }
    }

    /// Builds a rectangle from `(latitude, longitude)` microdegree pairs,
    /// north-west corner first.
    pub fn from_tuples(top_left: (i64, i64), bottom_right: (i64, i64)) -> (r: GeoRectangle)
        ensures
            r.top_left == (GeoCoordinate { latitude: top_left.0, longitude: top_left.1, altitude: 0 }),
            r.bottom_right == (GeoCoordinate { latitude: bottom_right.0, longitude: bottom_right.1, altitude: 0 }),
    {
        GeoRectangle {
            top_left: GeoCoordinate::new(top_left.0, top_left.1, 0),
            bottom_right: GeoCoordinate::new(bottom_right.0, bottom_right.1, 0),
        }
    }

    /// Both corners lie on the globe, the top edge is strictly north of the
    /// bottom edge, and the left edge is no further east than the right one.
    pub open spec fn spec_valid(&self) -> bool {
        &&& self.top_left.spec_valid()
        &&& self.bottom_right.spec_valid()
        &&& self.top_left.latitude > self.bottom_right.latitude
        &&& self.top_left.longitude <= self.bottom_right.longitude
    }

    pub fn valid(&self) -> (r: bool)
        ensures
            r == self.spec_valid(),
    {
        self.top_left.valid() && self.bottom_right.valid() && self.top_left.latitude
            > self.bottom_right.latitude && self.top_left.longitude <= self.bottom_right.longitude
    }

    /// Metres along the rectangle's top edge.
    pub fn width_meters(&self) -> (r: Result<u64, Error>)
        requires
            self.spec_valid(),
        ensures
            r == Ok::<u64, Error>(
                spec_parallel_distance(
                    self.bottom_right.longitude - self.top_left.longitude,
                    self.top_left.latitude as int,
                ) as u64,
            ),
            r matches Ok(w) ==> w <= 360 * 111_195,
    {
        Ok(
            parallel_distance(
                self.bottom_right.longitude - self.top_left.longitude,
                self.top_left.latitude,
            ),
        )
    }

    /// Metres along the rectangle's left edge.
    pub fn height_meters(&self) -> (r: Result<u64, Error>)
        requires
            self.spec_valid(),
        ensures
            r == Ok::<u64, Error>(
                spec_meridian_distance(
                    self.top_left.latitude - self.bottom_right.latitude,
                ) as u64,
            ),
            r matches Ok(h) ==> h <= 360 * 111_195,
    {
        Ok(meridian_distance(self.top_left.latitude - self.bottom_right.latitude))
    }

    /// `(width, height)` in metres.
    pub fn size(&self) -> (r: Result<(u64, u64), Error>)
        requires
            self.spec_valid(),
        ensures
            r matches Ok(s) && s.0 == spec_parallel_distance(
                self.bottom_right.longitude - self.top_left.longitude,
                self.top_left.latitude as int,
            ) as u64 && s.1 == spec_meridian_distance(
                self.top_left.latitude - self.bottom_right.latitude,
            ) as u64,
    {
        let w = match self.width_meters() {
            Ok(w) => w,
            Err(e) => {
                return Err(e);
            },
        };
        let h = match self.height_meters() {
            Ok(h) => h,
            Err(e) => {
                return Err(e);
            },
        };
        Ok((w, h))
    }

    /// The rectangle's central point: the component means, with the mean
    /// longitude turned half the globe when the rectangle crosses the
    /// antimeridian. Two equal corners name a point, not a rectangle, and
    /// are rejected.
    pub fn center(&self) -> (r: Result<GeoCoordinate, Error>)
        requires
            self.top_left.spec_valid(),
            self.bottom_right.spec_valid(),
        ensures
            self.top_left == self.bottom_right ==> r == Err::<GeoCoordinate, Error>(
                Error::InvalidCoordinate,
            ),
            self.top_left != self.bottom_right ==> (r matches Ok(c) && c.latitude == spec_mid(
                self.top_left.latitude as int,
                self.bottom_right.latitude as int,
                90 * (MICRO as int),
            ) && c.longitude == spec_center_lon(
                self.top_left.longitude as int,
                self.bottom_right.longitude as int,
            ) && c.altitude == 0 && c.spec_valid()),
    {
        if self.top_left.latitude == self.bottom_right.latitude && self.top_left.longitude
            == self.bottom_right.longitude && self.top_left.altitude == self.bottom_right.altitude {
            return Err(Error::InvalidCoordinate);
        }
        let la: u64 = (self.top_left.latitude + 90 * MICRO) as u64;
        let lb: u64 = (self.bottom_right.latitude + 90 * MICRO) as u64;
        let c_lat: i64 = ((la + lb) / 2) as i64 - 90 * MICRO;
        let na: u64 = (self.top_left.longitude + 180 * MICRO) as u64;
        let nb: u64 = (self.bottom_right.longitude + 180 * MICRO) as u64;
        let mean: i64 = ((na + nb) / 2) as i64 - 180 * MICRO;
        let c_lon: i64 = if self.top_left.longitude > self.bottom_right.longitude {
            let shifted: i64 = mean - 180 * MICRO;
            proof {
                let y = shifted as int + 180 * (MICRO as int);
                assert(-180 * 1_000_000 <= y <= 180 * 1_000_000);
                if y >= 0 {
                    assert(y % 360_000_000 == y) by (nonlinear_arith)
                        requires
                            0 <= y < 360_000_000,
                    ;
                } else {
                    vstd::arithmetic::div_mod::lemma_mod_add_multiples_vanish(y, 360_000_000);
                    assert((y + 360_000_000) % 360_000_000 == y + 360_000_000)
                        by (nonlinear_arith)
                        requires
                            0 <= y + 360_000_000 < 360_000_000,
                    ;
                }
            }
            if shifted < -180 * MICRO {
                shifted + 360 * MICRO
            } else {
                shifted
            }
        } else {
            mean
        };
        Ok(GeoCoordinate::new(c_lat, c_lon, 0))
    }

    /// The rectangle spanning `width x height` metres around `center`.
    /// Spans beyond the fixed-point movers' reach are rejected as invalid.
    pub fn from_center_and_size(center: GeoCoordinate, width: u64, height: u64) -> (r: Result<
        GeoRectangle,
        Error,
    >)
        ensures
            (!center.spec_valid() || width > 100_000_000 || height > 100_000_000) <==> r is Err,
            r matches Err(e) ==> e == Error::InvalidCoordinate,
            r matches Ok(rect) ==> {
                let north = spec_move_vertical(center.latitude as int, (height / 2) as int, false);
                let south = spec_move_vertical(center.latitude as int, (height / 2) as int, true);
                &&& rect.top_left.latitude == north
                &&& rect.top_left.longitude == spec_move_horizontal(north, center.longitude as int, (width / 2) as int, true)
                &&& rect.bottom_right.latitude == south
                &&& rect.bottom_right.longitude == spec_move_horizontal(south, center.longitude as int, (width / 2) as int, false)
                &&& rect.top_left.altitude == 0 && rect.bottom_right.altitude == 0
                &&& rect.top_left.spec_valid() && rect.bottom_right.spec_valid()
            },
    {
        if !center.valid() || width > 100_000_000 || height > 100_000_000 {
            return Err(Error::InvalidCoordinate);
        }
        let north = move_vertical(center.latitude, height / 2, false);
        let south = move_vertical(center.latitude, height / 2, true);
        let west = move_horizontal(north, center.longitude, width / 2, true);
        let east = move_horizontal(south, center.longitude, width / 2, false);
        Ok(
            GeoRectangle {
                top_left: GeoCoordinate::new(north, west, 0),
                bottom_right: GeoCoordinate::new(south, east, 0),
            },
        )
    }

    /// Stretches (or shrinks) the rectangle into the square around its
    /// centre whose side is the larger (or smaller) of its two edges.
    pub fn to_square(&self, mode: ExtendMode) -> (r: Result<GeoRectangle, Error>)
        requires
            self.spec_valid(),
        ensures
            ({
                let w = spec_parallel_distance(
                    self.bottom_right.longitude - self.top_left.longitude,
                    self.top_left.latitude as int,
                ) as u64;
                let h = spec_meridian_distance(
                    self.top_left.latitude - self.bottom_right.latitude,
                ) as u64;
                let side = match mode {
                    ExtendMode::Extend => if w > h { w } else { h },
                    ExtendMode::Shrink => if w < h { w } else { h },
                };
                let c_lat = spec_mid(
                    self.top_left.latitude as int,
                    self.bottom_right.latitude as int,
                    90 * (MICRO as int),
                );
                let c_lon = spec_center_lon(
                    self.top_left.longitude as int,
                    self.bottom_right.longitude as int,
                );
                let north = spec_move_vertical(c_lat, (side / 2) as int, false);
                let south = spec_move_vertical(c_lat, (side / 2) as int, true);
                r matches Ok(sq) && sq.top_left.latitude == north && sq.top_left.longitude
                    == spec_move_horizontal(north, c_lon, (side / 2) as int, true)
                    && sq.bottom_right.latitude == south && sq.bottom_right.longitude
                    == spec_move_horizontal(south, c_lon, (side / 2) as int, false)
                    && sq.top_left.altitude == 0 && sq.bottom_right.altitude == 0
                    && sq.top_left.spec_valid() && sq.bottom_right.spec_valid()
            }),
    {
        let width = match self.width_meters() {
            Ok(w) => w,
            Err(e) => {
                return Err(e);
            },
        };
        let height = match self.height_meters() {
            Ok(h) => h,
            Err(e) => {
                return Err(e);
            },
        };
        let side = match mode {
            ExtendMode::Extend => if width > height {
                width
            } else {
                height
            },
            ExtendMode::Shrink => if width < height {
                width
            } else {
                height
            },
        };
        let center = match self.center() {
            Ok(c) => c,
            Err(e) => {
                return Err(e);
            },
        };
        proof {
            crate::geodesy::lemma_parallel_distance_bounds(
                self.bottom_right.longitude - self.top_left.longitude,
                self.top_left.latitude as int,
            );
            crate::geodesy::lemma_meridian_distance_bounds(
                self.top_left.latitude - self.bottom_right.latitude,
            );
            assert(self.top_left != self.bottom_right);
        }
        GeoRectangle::from_center_and_size(center, side, side)
    }
}

} // verus!

//! The integer-degree key identifying a one-degree elevation tile.

use vstd::prelude::*;

use crate::decimal::dec_digits;
use crate::decimal::push_decimal;
use crate::quarter::Quarter;

verus! {

/// Number of microdegrees in one degree. Coordinates handed to the library
/// are fixed-point degrees scaled by this factor.
pub const MICRO: i64 = 1_000_000;

/// Identifies the 1 x 1 degree tile whose south-west corner sits at
/// (`latitude`, `longitude`) integer degrees. The tile covers
/// `[latitude, latitude + 1] x [longitude, longitude + 1]`.
#[derive(Debug, PartialEq, Eq, Structural, Copy, Clone, Hash, PartialOrd, Ord)]
pub struct TileSignature {
    pub latitude: i8,
    pub longitude: i16,
}

impl TileSignature {
    /// A signature is well formed when its corner lies on the globe and a
    /// whole tile fits north and east of it.
    pub open spec fn wf(self) -> bool {
        &&& -90 <= self.latitude <= 89
        &&& -180 <= self.longitude <= 179
    }

    pub fn new(latitude: i8, longitude: i16) -> (r: Self)
        ensures
            r == (TileSignature { latitude, longitude }),
    {
        TileSignature { latitude, longitude }
    }

    /// The signature [`Self::from_micro_degrees`] returns.
    pub open spec fn spec_from_micro(lat_udeg: int, lon_udeg: int) -> TileSignature {
        TileSignature {
            latitude: if floor_degrees(lat_udeg) > 89 {
                89
            } else {
                floor_degrees(lat_udeg) as i8
            },
            longitude: if floor_degrees(lon_udeg) > 179 {
                179
            } else {
                floor_degrees(lon_udeg) as i16
            },
        }
    }

    /// The tile covering a point given in microdegrees. Takes the floor of
    /// both components; points on the far north and east edges of the globe
    /// are folded into the outermost tiles so that the result is always well
    /// formed.
    pub fn from_micro_degrees(lat_udeg: i64, lon_udeg: i64) -> (r: Self)
        requires
            -90 * MICRO <= lat_udeg <= 90 * MICRO,
            -180 * MICRO <= lon_udeg <= 180 * MICRO,
        ensures
            r == Self::spec_from_micro(lat_udeg as int, lon_udeg as int),
            r.latitude == if floor_degrees(lat_udeg as int) > 89 {
                89int
            } else {
                floor_degrees(lat_udeg as int)
            },
            r.longitude == if floor_degrees(lon_udeg as int) > 179 {
                179int
            } else {
                floor_degrees(lon_udeg as int)
            },
            r.wf(),
    {
        let lat_floor: i64 = floor_div_micro(lat_udeg, 90);
        let lon_floor: i64 = floor_div_micro(lon_udeg, 180);
        TileSignature {
            latitude: if lat_floor > 89 {
                89
            } else {
                lat_floor as i8
            },
            longitude: if lon_floor > 179 {
                179
            } else {
                lon_floor as i16
            },
        }
    }

    /// Which quadrant of the globe the tile lies in: northern tiles are
    /// "top", western tiles are "left".
    pub fn quarter(&self) -> (r: Quarter)
        ensures
            r == self.spec_quarter(),
    {
        if self.latitude >= 0 && self.longitude < 0 {
            return Quarter::TopLeft;
        }
        if self.latitude >= 0 && self.longitude >= 0 {
            return Quarter::TopRight;
        }
        if self.latitude < 0 && self.longitude < 0 {
            Quarter::BottomLeft
        } else {
            Quarter::BottomRight
        }
    }

    pub open spec fn spec_quarter(self) -> Quarter {
        if self.latitude >= 0 {
            if self.longitude < 0 {
                Quarter::TopLeft
            } else {
                Quarter::TopRight
            }
        } else {
            if self.longitude < 0 {
                Quarter::BottomLeft
            } else {
                Quarter::BottomRight
            }
        }
    }

    /// The metre lengths of the tile's edges, `(width, height)`: the
    /// west-east extent along the parallel at the tile's corner latitude,
    /// then the south-north extent along the meridian.
    pub fn georectangle_size(&self) -> (r: (usize, usize))
        requires
            self.wf(),
        ensures
            r.0 == crate::geodesy::spec_parallel_distance(
                MICRO as int,
                self.latitude * (MICRO as int),
            ),
            r.1 == crate::geodesy::spec_meridian_distance(MICRO as int),
    {
        let w = crate::geodesy::parallel_distance(MICRO, (self.latitude as i64) * MICRO);
        let h = crate::geodesy::meridian_distance(MICRO);
        (w as usize, h as usize)
    }

    /// The canonical cache-relative location of this tile's file:
    /// `{quarter}/{|latitude|}/{|longitude|}.{extension}`, with no dot when
    /// the extension is empty.
    pub open spec fn rel_path(self, ext: Seq<char>) -> Seq<char> {
        dec_digits(self.spec_quarter().index() as nat) + seq!['/'] + dec_digits(
            vstd::math::abs(self.latitude as int),
        ) + seq!['/'] + dec_digits(vstd::math::abs(self.longitude as int)) + if ext.len() == 0 {
            Seq::<char>::empty()
        } else {
            seq!['.'] + ext
        }
    }

    pub fn to_relative_path(&self, extension: &str) -> (r: String)
        requires
            self.wf(),
        ensures
            r@ == self.rel_path(extension@),
    {
        proof {
            reveal_strlit("/");
            reveal_strlit(".");
        }
        let mut s = String::new();
        push_decimal(&mut s, self.quarter().to_u8() as u32);
        s.append("/");
        let abs_lat: u32 = if self.latitude < 0 {
            (-(self.latitude as i32)) as u32
        } else {
            self.latitude as u32
        };
        push_decimal(&mut s, abs_lat);
        s.append("/");
        let abs_lon: u32 = if self.longitude < 0 {
            (-(self.longitude as i32)) as u32
        } else {
            self.longitude as u32
        };
        push_decimal(&mut s, abs_lon);
        if !extension.is_empty() {
            s.append(".");
            s.append(extension);
        }
        proof {
            assert(s@ =~= self.rel_path(extension@));
        }
        s
    }

    /// The location of this tile's file under the given cache root.
    pub fn to_abs_path(&self, cache_root: &str, extension: &str) -> (r: String)
        requires
            self.wf(),
        ensures
            r@ == cache_root@ + seq!['/'] + self.rel_path(extension@),
    {
        proof {
            reveal_strlit("/");
        }
        let mut s = cache_root.to_owned();
        s.append("/");
        let rel = self.to_relative_path(extension);
        s.append(rel.as_str());
        proof {
            assert(s@ =~= cache_root@ + seq!['/'] + self.rel_path(extension@));
        }
        s
    }

    /// The address of this tile on the remote store.
    pub fn to_url(&self, extension: &str, remote_url: &str) -> (r: String)
        requires
            self.wf(),
        ensures
            r@ == remote_url@ + seq!['/'] + self.rel_path(extension@),
    {
        proof {
            reveal_strlit("/");
        }
        let mut s = remote_url.to_owned();
        s.append("/");
        let rel = self.to_relative_path(extension);
        s.append(rel.as_str());
        proof {
            assert(s@ =~= remote_url@ + seq!['/'] + self.rel_path(extension@));
        }
        s
    }

    /// Same address as [`Self::to_url`]; this name is kept for callers that
    /// pass every ingredient explicitly instead of sharing configuration.
    pub fn to_url_threadsafe(&self, extension: &str, remote_url: &str) -> (r: String)
        requires
            self.wf(),
        ensures
            r@ == remote_url@ + seq!['/'] + self.rel_path(extension@),
    {
        self.to_url(extension, remote_url)
    }
}

/// Floor division of a microdegree value down to whole degrees.
pub open spec fn floor_degrees(udeg: int) -> int {
    udeg / (MICRO as int)
}

/// Floor division by `MICRO` for a value within `bound` degrees of zero,
/// computed by shifting into the nonnegative range where truncating division
/// is the floor.
fn floor_div_micro(udeg: i64, bound: i64) -> (r: i64)
    requires
        0 < bound <= 1000,
        -bound * MICRO <= udeg <= bound * MICRO,
    ensures
        r == floor_degrees(udeg as int),
{
    let shifted: u64 = (udeg + bound * MICRO) as u64;
    let q: u64 = shifted / (MICRO as u64);
    proof {
        let m = MICRO as int;
        let u = udeg as int;
        let b = bound as int;
        assert((u + b * m) / m == u / m + b) by (nonlinear_arith)
            requires
                m == 1_000_000,
                0 < b <= 1000,
                -b * m <= u <= b * m,
        ;
    }
    q as i64 - bound
}

/// Every point strictly inside a tile maps back to that tile's signature:
/// offsetting a well-formed corner by under one degree in each direction
/// changes nothing.
pub proof fn lemma_from_floor_round_trip(sig: TileSignature, eps_lat: int, eps_lon: int)
    requires
        sig.wf(),
        0 <= eps_lat < MICRO,
        0 <= eps_lon < MICRO,
    ensures
        floor_degrees(sig.latitude * MICRO + eps_lat) == sig.latitude,
        floor_degrees(sig.longitude * MICRO + eps_lon) == sig.longitude,
{
    let m = MICRO as int;
    assert((sig.latitude * m + eps_lat) / m == sig.latitude) by (nonlinear_arith)
        requires
            0 <= eps_lat < m,
            m == 1_000_000,
            -90 <= sig.latitude <= 89,
    ;
    assert((sig.longitude * m + eps_lon) / m == sig.longitude) by (nonlinear_arith)
        requires
            0 <= eps_lon < m,
            m == 1_000_000,
            -180 <= sig.longitude <= 179,
    ;
}

} // verus!

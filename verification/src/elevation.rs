//! Point elevation queries: find the tile covering a coordinate, bring it
//! into memory, and read the nearest raster pixel.

use vstd::prelude::*;

use crate::errors::Error;
use crate::fetcher::TileFetcher;
use crate::geodesy::parallel_distance;
use crate::geodesy::spec_parallel_distance;
use crate::positioning::spec_valid_latitude;
use crate::positioning::spec_valid_longitude;
use crate::tile_identity::TileIdentity;
use crate::tile_signature::TileSignature;
use crate::tile_signature::MICRO;
use crate::tile_storage::TileStorage;
use crate::utils::spec_snap;
use crate::utils::validate_coordinate;

verus! {

/// The raster column covering a point `fx` microdegrees east of its tile's
/// west edge: the metre offset along the query's own parallel, as a share
/// of the tile's metre width at the tile's corner latitude, scaled by the
/// pixel width and clamped into the raster. A tile at the pole has no
/// width, so there the longitude fraction is used directly.
pub open spec fn spec_pixel_column(fx: int, lat: int, corner_lat: int, width_px: int) -> int {
    let dx = spec_parallel_distance(fx, lat);
    let wm = spec_parallel_distance(MICRO as int, corner_lat * (MICRO as int));
    let u = if wm == 0 {
        fx * width_px / (MICRO as int)
    } else {
        dx * width_px / wm
    };
    if u >= width_px {
        width_px - 1
    } else {
        u
    }
}

/// The raster row covering a point `dy` microdegrees south of its tile's
/// north edge: the plain fraction of a degree, scaled by the pixel height
/// and clamped into the raster.
pub open spec fn spec_pixel_row(dy: int, height_px: int) -> int {
    let v = dy * height_px / (MICRO as int);
    if v >= height_px {
        height_px - 1
    } else {
        v
    }
}

/// The elevation the sampler reads for a point at `(lat, lon)` microdegrees
/// out of the decoded tile `entry` keyed by `sig`.
pub open spec fn spec_sample(
    entry: TileIdentity,
    lat: int,
    lon: int,
    sig: TileSignature,
) -> i16 {
    let fx = lon - sig.longitude * (MICRO as int);
    let dy = (sig.latitude + 1) * (MICRO as int) - lat;
    let u = spec_pixel_column(fx, lat, sig.latitude as int, entry.size.0 as int);
    let v = spec_pixel_row(dy, entry.size.1 as int);
    entry.data@[v * entry.size.0 + u]
}

/// Resolves the elevation in metres at a `(latitude, longitude)` microdegree
/// pair, materializing the covering tile if it is not yet decoded. The pair
/// is validated and snapped to whole degrees near tile seams; a coordinate
/// off the globe is rejected, and exactly then.
#[verifier::rlimit(30)]
pub fn elevation_at<F: TileFetcher>(storage: &mut TileStorage<F>, coordinate: (i64, i64)) -> (r:
    Result<i16, Error>)
    requires
        old(storage).wf(),
    ensures
        final(storage).wf(),
        TileStorage::<F>::same_config(*old(storage), *final(storage)),
        (!spec_valid_latitude(coordinate.0 as int) || !spec_valid_longitude(coordinate.1 as int))
            <==> r == Err::<i16, Error>(Error::InvalidCoordinate),
        r == Err::<i16, Error>(Error::InvalidCoordinate) ==> *final(storage) == *old(storage),
        ({
            let lat = spec_snap(coordinate.0 as int, 90 * (MICRO as int));
            let lon = spec_snap(coordinate.1 as int, 180 * (MICRO as int));
            let sig = TileSignature::spec_from_micro(lat, lon);
            let valid = spec_valid_latitude(coordinate.0 as int) && spec_valid_longitude(
                coordinate.1 as int,
            );
            &&& (r matches Ok(v) ==> final(storage).has_sig(sig) && v == spec_sample(
                final(storage).entry_for(sig),
                lat,
                lon,
                sig,
            ))
            &&& ((valid && old(storage).negative_contains(sig)) ==> (r == Err::<i16, Error>(
                Error::NoSuchObjectInRemote(sig),
            ) && final(storage).table == old(storage).table && final(storage).unavailable == old(
                storage,
            ).unavailable && final(storage).network == old(storage).network))
            &&& ((valid && old(storage).has_sig(sig)) ==> (r matches Ok(v) && v == spec_sample(
                old(storage).entry_for(sig),
                lat,
                lon,
                sig,
            ) && final(storage).table == old(storage).table && final(storage).unavailable == old(
                storage,
            ).unavailable && final(storage).network == old(storage).network))
            &&& (valid ==> (r == Err::<i16, Error>(Error::NoSuchObjectInRemote(sig))
                <==> final(storage).negative_contains(sig)))
            &&& (r matches Err(e) ==> match e {
                Error::InvalidCoordinate => !valid,
                Error::NoSuchObjectInRemote(s) => s == sig,
                Error::NetworkStatusCodeError(c, s) => s == sig && c != 404 && c != 410,
                Error::DecodeError(s) => s == sig,
                Error::NetworkError => true,
                Error::FilesystemError => true,
                _ => false,
            })
        }),
{
    let coord = match validate_coordinate(coordinate) {
        Ok(c) => c,
        Err(e) => {
            return Err(e);
        },
    };
    let key = TileSignature::from_micro_degrees(coord.0, coord.1);
    proof {
        if old(storage).has_sig(key) {
            assert(!old(storage).negative_contains(key));
        }
    }
    if !storage.has(key) {
        match storage.load(&key) {
            Ok(_) => {},
            Err(e) => {
                return Err(e);
            },
        }
    }
    let entry = match storage.get(&key) {
        Ok(x) => x,
        Err(_) => {
            proof {
                assert(false);
            }
            return Err(Error::NoSuchTile(key));
        },
    };
    let width_px = entry.size.0;
    let height_px = entry.size.1;
    proof {
        assert(entry.wf());
        assert(width_px <= 65536 && height_px <= 65536 && width_px >= 1 && height_px >= 1);
        let m = MICRO as int;
        let lon = coord.1 as int;
        let lat = coord.0 as int;
        assert(m * (lon / m) <= lon && lon < m * (lon / m) + m && m * (lat / m) <= lat && lat < m
            * (lat / m) + m && (lon / m >= 180 ==> lon >= 180 * m) && (lat / m >= 90 ==> lat >= 90
            * m) && m * (lon / m) == (lon / m) * m && m * (lat / m) == (lat / m) * m)
            by (nonlinear_arith)
            requires
                m == 1_000_000,
                lon <= 180 * m,
                lat <= 90 * m,
        ;
        assert(0 <= lon - key.longitude * m <= m);
        assert(0 <= (key.latitude + 1) * m - lat <= m);
    }
    let fx: i64 = coord.1 - (key.longitude as i64) * MICRO;
    let dy: i64 = ((key.latitude as i64) + 1) * MICRO - coord.0;
    let dx: u64 = parallel_distance(fx, coord.0);
    let wm: u64 = parallel_distance(MICRO, (key.latitude as i64) * MICRO);
    proof {
        let fi = fx as int;
        let di = dx as int;
        let yi = dy as int;
        let wi = width_px as int;
        let hi = height_px as int;
        assert(fi * wi <= 66_000_000_000 && di * wi <= 3_000_000_000_000 && yi * hi
            <= 66_000_000_000) by (nonlinear_arith)
            requires
                0 <= fi <= 1_000_000,
                0 <= yi <= 1_000_000,
                0 <= di <= 41_000_000,
                0 <= wi <= 65536,
                0 <= hi <= 65536,
        ;
    }
    let u: u64 = if wm == 0 {
        (fx as u64) * (width_px as u64) / 1_000_000
    } else {
        dx * (width_px as u64) / wm
    };
    let u_px: usize = if u >= width_px as u64 {
        width_px - 1
    } else {
        u as usize
    };
    let v: u64 = (dy as u64) * (height_px as u64) / 1_000_000;
    let v_px: usize = if v >= height_px as u64 {
        height_px - 1
    } else {
        v as usize
    };
    let value = entry.pixel(u_px, v_px);
    Ok(value)
}

} // verus!

//! Small helpers: coordinate validation with seam snapping, and path
//! extension rewriting.

use vstd::prelude::*;

use crate::errors::Error;
use crate::positioning::is_valid_latitude;
use crate::positioning::is_valid_longitude;
use crate::positioning::spec_valid_latitude;
use crate::positioning::spec_valid_longitude;
use crate::tile_signature::MICRO;

verus! {

/// How close to a whole degree a coordinate must sit, in microdegrees, to
/// be snapped onto it (one hundred-thousandth of a degree).
pub const SNAP_THRESHOLD: i64 = 10;

/// A microdegree value pulled onto the nearest whole degree when it sits
/// within [`SNAP_THRESHOLD`] of it; `shift` moves the value into the
/// nonnegative range first so the remainder is a plain floor remainder.
pub open spec fn spec_snap(v: int, shift: int) -> int {
    let r = (v + shift) % (MICRO as int);
    if r < SNAP_THRESHOLD {
        v - r
    } else if r > (MICRO as int) - SNAP_THRESHOLD {
        v + ((MICRO as int) - r)
    } else {
        v
    }
}

/// Snaps one shifted coordinate component.
fn snap(v: i64, shift: i64) -> (r: i64)
    requires
        0 <= shift <= 500 * MICRO,
        0 <= v + shift <= 1000 * MICRO,
    ensures
        r == spec_snap(v as int, shift as int),
        v - SNAP_THRESHOLD < r < v + MICRO,
{
    let a: u64 = (v + shift) as u64;
    let rem: u64 = a % 1_000_000;
    if rem < 10 {
        v - (rem as i64)
    } else if rem > 1_000_000 - 10 {
        v + (1_000_000 - rem as i64)
    } else {
        v
    }
}

/// Checks that a `(latitude, longitude)` microdegree pair lies on the
/// globe, and snaps each component onto a whole degree when it is within
/// [`SNAP_THRESHOLD`] of one, so that queries right at a tile seam fall
/// into one tile rather than straddling two.
pub fn validate_coordinate(coordinate: (i64, i64)) -> (r: Result<(i64, i64), Error>)
    ensures
        (spec_valid_latitude(coordinate.0 as int) && spec_valid_longitude(coordinate.1 as int))
            <==> r is Ok,
        r matches Ok(c) ==> c.0 == spec_snap(coordinate.0 as int, 90 * (MICRO as int)) && c.1
            == spec_snap(coordinate.1 as int, 180 * (MICRO as int)) && spec_valid_latitude(
            c.0 as int,
        ) && spec_valid_longitude(c.1 as int),
        r matches Err(e) ==> e == Error::InvalidCoordinate,
    {
    if !is_valid_latitude(coordinate.0) || !is_valid_longitude(coordinate.1) {
        return Err(Error::InvalidCoordinate);
    }
    let lat = snap(coordinate.0, 90 * MICRO);
    let lon = snap(coordinate.1, 180 * MICRO);
    proof {
        assert(lat <= 90 * MICRO);
        assert(lon <= 180 * MICRO);
        assert(lat >= -90 * MICRO);
        assert(lon >= -180 * MICRO);
    }
    Ok((lat, lon))
}

/// The text after the last `.` of `path`, replaced by `new_extension`.
pub fn replace_extension(path: &str, new_extension: &str) -> (r: String)
    requires
        path@.contains('.'),
    ensures
        exists|i: int|
            {
                &&& 0 <= i < path@.len()
                &&& path@[i] == '.'
                &&& (forall|j: int| i < j < path@.len() ==> path@[j] != '.')
                &&& r@ == path@.subrange(0, i + 1) + new_extension@
            },
{
    let n = path.unicode_len();
    proof {
        let w = choose|w: int| 0 <= w < path@.len() && path@[w] == '.';
        assert(path@[w] == '.');
    }
    let mut last: usize = 0;
    let mut k: usize = 0;
    let mut seen: bool = false;
    while k < n
        invariant
            k <= n,
            n == path@.len(),
            path@.contains('.'),
            seen ==> last < k && path@[last as int] == '.' && (forall|j: int| last < j < k ==> path@[j] != '.'),
            !seen ==> forall|j: int| 0 <= j < k ==> path@[j] != '.',
        decreases n - k,
    {
        if path.get_char(k) == '.' {
            last = k;
            seen = true;
        }
        k += 1;
    }
    proof {
        if !seen {
            let w = choose|w: int| 0 <= w < path@.len() && path@[w] == '.';
            assert(false);
        }
    }
    let prefix = path.substring_char(0, last + 1);
    let mut s = prefix.to_owned();
    s.append(new_extension);
    s
}

} // verus!

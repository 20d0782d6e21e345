//! Bulk prefetch planning: which tiles a rectangle needs, and which of them
//! still have to be downloaded. The downloads themselves are concurrent
//! I/O and happen outside the library; the enumeration and filtering logic
//! here decides exactly what they fetch.

use vstd::prelude::*;

use crate::errors::Error;
use crate::negative_cache::NegativeCache;
use crate::positioning::GeoRectangle;
use crate::tile_signature::TileSignature;
use crate::tile_signature::MICRO;

verus! {

/// Bulk tile prefetch over a remote store: the remote base address, the
/// local cache root, the tile file extension, how many downloads may run at
/// once, and the signatures found absent upstream in earlier rounds.
pub struct ElevationPrefetcher {
    pub server_url: String,
    pub storage_url: String,
    pub extension: String,
    pub parallel_threads: usize,
    pub unavailable: NegativeCache,
}

/// The signatures of `sigs` whose `cached` flag is off and which are not
/// listed in `unavailable`, keeping their order.
pub open spec fn pending_list(
    sigs: Seq<TileSignature>,
    cached: Seq<bool>,
    unavailable: Seq<TileSignature>,
) -> Seq<TileSignature>
    decreases sigs.len(),
{
    if sigs.len() == 0 {
        Seq::<TileSignature>::empty()
    } else {
        pending_list(sigs.drop_last(), cached.drop_last(), unavailable) + if !cached[sigs.len()
            - 1] && !unavailable.contains(sigs.last()) {
            seq![sigs.last()]
        } else {
            Seq::<TileSignature>::empty()
        }
    }
}

/// When every tile of a region already sits in the on-disk cache, there is
/// nothing left to download.
pub proof fn lemma_prefetch_idempotent(
    sigs: Seq<TileSignature>,
    cached: Seq<bool>,
    unavailable: Seq<TileSignature>,
)
    requires
        sigs.len() == cached.len(),
        forall|i: int| 0 <= i < cached.len() ==> cached[i],
    ensures
        pending_list(sigs, cached, unavailable) == Seq::<TileSignature>::empty(),
    decreases sigs.len(),
{
    if sigs.len() > 0 {
        lemma_prefetch_idempotent(sigs.drop_last(), cached.drop_last(), unavailable);
        assert(pending_list(sigs, cached, unavailable) =~= Seq::<TileSignature>::empty());
    }
}

impl ElevationPrefetcher {
    pub fn new(
        server_url: String,
        storage_url: String,
        extension: String,
        parallel_threads: usize,
    ) -> (r: ElevationPrefetcher)
        ensures
            r.server_url == server_url,
            r.storage_url == storage_url,
            r.extension == extension,
            r.parallel_threads == parallel_threads,
            r.unavailable.wf(),
            forall|x: TileSignature| !r.unavailable.spec_contains(x),
    {
        ElevationPrefetcher {
            server_url,
            storage_url,
            extension,
            parallel_threads,
            unavailable: NegativeCache::new(),
        }
    }

    /// Enumerates the signatures of every tile the rectangle touches, row
    /// by row from its south-west corner. Rejects empty or disordered
    /// rectangles, and exactly those.
    pub fn split_rectangle(rect: &GeoRectangle) -> (r: Result<Vec<TileSignature>, Error>)
        ensures
            rect.spec_valid() <==> r is Ok,
            r matches Err(e) ==> e == Error::InvalidGeorectangle,
            r matches Ok(v) ==> {
                let lo = TileSignature::spec_from_micro(
                    rect.bottom_right.latitude as int,
                    rect.top_left.longitude as int,
                );
                let hi = TileSignature::spec_from_micro(
                    rect.top_left.latitude as int,
                    rect.bottom_right.longitude as int,
                );
                let nlon = hi.longitude - lo.longitude + 1;
                &&& v@.len() == (hi.latitude - lo.latitude + 1) * nlon
                &&& forall|k: int|
                    0 <= k < v@.len() ==> #[trigger] v@[k] == (TileSignature {
                        latitude: (lo.latitude + k / nlon) as i8,
                        longitude: (lo.longitude + k % nlon) as i16,
                    })
                &&& forall|k: int| 0 <= k < v@.len() ==> (#[trigger] v@[k]).wf()
            },
    {
        if !rect.valid() {
            return Err(Error::InvalidGeorectangle);
        }
        let lo = TileSignature::from_micro_degrees(
            rect.bottom_right.latitude,
            rect.top_left.longitude,
        );
        let hi = TileSignature::from_micro_degrees(
            rect.top_left.latitude,
            rect.bottom_right.longitude,
        );
        let ghost nlon = hi.longitude - lo.longitude + 1;
        let mut v: Vec<TileSignature> = Vec::new();
        let mut lat: i16 = lo.latitude as i16;
        while lat <= hi.latitude as i16
            invariant
                lo.latitude <= hi.latitude,
                lo.longitude <= hi.longitude,
                lo.wf(),
                hi.wf(),
                nlon == hi.longitude - lo.longitude + 1,
                lo.latitude <= lat <= hi.latitude + 1,
                v@.len() == (lat - lo.latitude) * nlon,
                forall|k: int|
                    0 <= k < v@.len() ==> #[trigger] v@[k] == (TileSignature {
                        latitude: (lo.latitude + k / nlon) as i8,
                        longitude: (lo.longitude + k % nlon) as i16,
                    }),
            decreases hi.latitude + 1 - lat,
        {
            let mut lon: i32 = lo.longitude as i32;
            while lon <= hi.longitude as i32
                invariant
                    lo.latitude <= hi.latitude,
                    lo.longitude <= hi.longitude,
                    lo.wf(),
                    hi.wf(),
                    nlon == hi.longitude - lo.longitude + 1,
                    lo.latitude <= lat <= hi.latitude,
                    lo.longitude <= lon <= hi.longitude + 1,
                    v@.len() == (lat - lo.latitude) * nlon + (lon - lo.longitude),
                    forall|k: int|
                        0 <= k < v@.len() ==> #[trigger] v@[k] == (TileSignature {
                            latitude: (lo.latitude + k / nlon) as i8,
                            longitude: (lo.longitude + k % nlon) as i16,
                        }),
                decreases hi.longitude + 1 - lon,
            {
                let ghost k = v@.len() as int;
                v.push(TileSignature::new(lat as i8, lon as i16));
                proof {
                    let a = (lat - lo.latitude) as int;
                    let b = (lon - lo.longitude) as int;
                    assert((a * nlon + b) / nlon == a && (a * nlon + b) % nlon == b)
                        by (nonlinear_arith)
                        requires
                            0 <= b < nlon,
                            0 <= a,
                    ;
                    assert(k == a * nlon + b);
                }
                lon += 1;
            }
            proof {
                let a = (lat - lo.latitude) as int;
                assert(a * nlon + nlon == (a + 1) * nlon) by (nonlinear_arith);
            }
            lat += 1;
        }
        proof {
            let nlat = hi.latitude - lo.latitude + 1;
            assert(v@.len() == nlat * nlon);
            assert forall|k: int| 0 <= k < v@.len() implies (#[trigger] v@[k]).wf() by {
                assert(0 <= k % nlon < nlon && 0 <= k / nlon < nlat) by (nonlinear_arith)
                    requires
                        0 <= k,
                        k < nlat * nlon,
                        0 < nlon,
                        0 < nlat,
                ;
            }
        }
        Ok(v)
    }

    /// Keeps the signatures that still need a download: those whose cached
    /// flag is off and which earlier rounds did not find absent upstream.
    /// `cached` holds one flag per signature, in the same order.
    pub fn pending(&self, signatures: &Vec<TileSignature>, cached: &Vec<bool>) -> (r: Vec<
        TileSignature,
    >)
        requires
            signatures@.len() == cached@.len(),
        ensures
            r@ == pending_list(signatures@, cached@, self.unavailable.items@),
    {
        let n = signatures.len();
        let mut r: Vec<TileSignature> = Vec::new();
        let mut i: usize = 0;
        while i < n
            invariant
                i <= n,
                n == signatures@.len(),
                n == cached@.len(),
                r@ == pending_list(
                    signatures@.take(i as int),
                    cached@.take(i as int),
                    self.unavailable.items@,
                ),
            decreases n - i,
        {
            let keep = !cached[i] && !self.unavailable.is_unavailable(&signatures[i]);
            if keep {
                r.push(signatures[i]);
            }
            proof {
                let s1 = signatures@.take(i as int + 1);
                let c1 = cached@.take(i as int + 1);
                assert(s1.drop_last() =~= signatures@.take(i as int));
                assert(c1.drop_last() =~= cached@.take(i as int));
                assert(s1.last() == signatures@[i as int]);
            }
            i += 1;
        }
        proof {
            assert(signatures@.take(n as int) =~= signatures@);
            assert(cached@.take(n as int) =~= cached@);
        }
        r
    }
}

} // verus!

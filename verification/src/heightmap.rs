//! The heightmap rasterizer: sweeps a sampling grid over a georectangle,
//! collects elevations, and normalizes them into an 8-bit grayscale image
//! with a JSON sidecar naming the extremes.

use vstd::prelude::*;

use crate::decimal::dec_int;
use crate::decimal::push_signed;
use crate::elevation::elevation_at;
use crate::elevation::spec_sample;
use crate::errors::Error;
use crate::fetcher::TileFetcher;
use crate::geodesy::move_horizontal;
use crate::geodesy::move_vertical;
use crate::geodesy::spec_meridian_distance;
use crate::geodesy::spec_move_horizontal;
use crate::geodesy::spec_move_vertical;
use crate::geodesy::spec_parallel_distance;
use crate::png_codec::encode_gray_png;
use crate::png_codec::png_gray_bytes;
use crate::positioning::GeoRectangle;
use crate::tile_signature::TileSignature;
use crate::tile_signature::MICRO;
use crate::tile_storage::TileStorage;
use crate::utils::replace_extension;
use crate::utils::spec_snap;

verus! {

/// The file formats the renderer knows of. Only PNG is available; RAW is
/// reserved.
#[derive(Debug, PartialEq, Eq, Structural, Copy, Clone)]
pub enum ImageFormat {
    PNG,
    RAW,
}

impl ImageFormat {
    /// The file extension of this format.
    pub fn extension(&self) -> (r: &'static str)
        ensures
            self is PNG ==> r@ =~= "png"@,
            self is RAW ==> r@ =~= "raw"@,
    {
        proof {
            reveal_strlit("png");
            reveal_strlit("raw");
        }
        match self {
            ImageFormat::PNG => "png",
            ImageFormat::RAW => "raw",
        }
    }

    /// Whether the format stores one byte per pixel.
    pub fn is_8bit(&self) -> (r: bool)
        ensures
            r == (self is PNG),
    {
        match self {
            ImageFormat::PNG => true,
            ImageFormat::RAW => false,
        }
    }

    /// The format a small integer stands for in embeddings that cannot
    /// pass enums.
    pub fn from_i32(value: i32) -> (r: Option<ImageFormat>)
        ensures
            value == 0 ==> r == Some(ImageFormat::PNG),
            value == 1 ==> r == Some(ImageFormat::RAW),
            !(0 <= value <= 1) ==> r is None,
    {
        match value {
            0 => Some(ImageFormat::PNG),
            1 => Some(ImageFormat::RAW),
            _ => None,
        }
    }
}

/// The named edge sizes of a rendered heightmap, in edge-inclusive samples.
#[derive(Debug, PartialEq, Eq, Structural, Copy, Clone)]
pub enum Resolution {
    UltraLow,
    Low,
    Medium,
    High,
}

impl Resolution {
    /// The pixel edge length this name stands for.
    pub open spec fn spec_value(self) -> usize {
        match self {
            Resolution::UltraLow => 513,
            Resolution::Low => 1025,
            Resolution::Medium => 2049,
            Resolution::High => 4097,
        }
    }

    /// Computes [`Self::spec_value`].
    pub fn value(&self) -> (r: usize)
        ensures
            r == self.spec_value(),
    {
        match self {
            Resolution::UltraLow => 513,
            Resolution::Low => 1025,
            Resolution::Medium => 2049,
            Resolution::High => 4097,
        }
    }

    /// The resolution a small integer stands for in embeddings that cannot
    /// pass enums.
    pub fn from_i32(value: i32) -> (r: Option<Resolution>)
        ensures
            value == 0 ==> r == Some(Resolution::UltraLow),
            value == 1 ==> r == Some(Resolution::Low),
            value == 2 ==> r == Some(Resolution::Medium),
            value == 3 ==> r == Some(Resolution::High),
            !(0 <= value <= 3) ==> r is None,
    {
        match value {
            0 => Some(Resolution::UltraLow),
            1 => Some(Resolution::Low),
            2 => Some(Resolution::Medium),
            3 => Some(Resolution::High),
            _ => None,
        }
    }
}

/// The smallest elevation seen so far when folding over a raster from the
/// front, starting from the largest representable value.
pub open spec fn spec_min_fold(h: Seq<i16>) -> int
    decreases h.len(),
{
    if h.len() == 0 {
        32767
    } else {
        let rest = spec_min_fold(h.drop_last());
        if h.last() < rest {
            h.last() as int
        } else {
            rest
        }
    }
}

/// The largest elevation seen so far, starting from the smallest
/// representable value.
pub open spec fn spec_max_fold(h: Seq<i16>) -> int
    decreases h.len(),
{
    if h.len() == 0 {
        -32768
    } else {
        let rest = spec_max_fold(h.drop_last());
        if h.last() > rest {
            h.last() as int
        } else {
            rest
        }
    }
}

/// One elevation normalized into the 8-bit gray range: its share of the
/// span between the extremes, scaled to 255 and clamped. A raster without
/// spread renders as black.
pub open spec fn spec_gray(v: int, min: int, max: int) -> int {
    if max <= min {
        0
    } else {
        let g = (v - min) * 255 / (max - min);
        if g > 255 {
            255
        } else if g < 0 {
            0
        } else {
            g
        }
    }
}

/// A raster normalized value by value.
pub open spec fn spec_normalize(h: Seq<i16>, min: int, max: int) -> Seq<u8> {
    Seq::new(h.len(), |k: int| spec_gray(h[k] as int, min, max) as u8)
}

/// The JSON sidecar text naming the extremes, pretty-printed with
/// four-space indentation.
pub open spec fn spec_sidecar(min: int, max: int) -> Seq<char> {
    "{\n    \"heightmap\": {\n        \"min\": "@ + dec_int(min) + ",\n        \"max\": "@
        + dec_int(max) + "\n    }\n}"@
}

/// Renders the sidecar text for the given extremes.
pub fn sidecar_json(min: i16, max: i16) -> (r: String)
    ensures
        r@ == spec_sidecar(min as int, max as int),
{
    proof {
        reveal_strlit("{\n    \"heightmap\": {\n        \"min\": ");
        reveal_strlit(",\n        \"max\": ");
        reveal_strlit("\n    }\n}");
    }
    let mut s = String::new();
    s.append("{\n    \"heightmap\": {\n        \"min\": ");
    push_signed(&mut s, min as i32);
    s.append(",\n        \"max\": ");
    push_signed(&mut s, max as i32);
    s.append("\n    }\n}");
    proof {
        assert(s@ =~= spec_sidecar(min as int, max as int));
    }
    s
}

/// A region with no spread in it — for instance one whose tiles are all
/// absent, so that every sample collapses to sea level — renders as an
/// all-black image whose sidecar has equal extremes.
pub proof fn lemma_uniform_render_is_black(h: Seq<i16>, v: i16)
    requires
        h.len() > 0,
        forall|i: int| 0 <= i < h.len() ==> h[i] == v,
    ensures
        spec_min_fold(h) == v as int,
        spec_max_fold(h) == v as int,
        spec_normalize(h, v as int, v as int) =~= Seq::new(h.len(), |k: int| 0u8),
    decreases h.len(),
{
    assert(h.last() == v);
    if h.len() == 1 {
        assert(h.drop_last().len() == 0);
        assert(spec_min_fold(h.drop_last()) == 32767);
        assert(spec_max_fold(h.drop_last()) == -32768);
    } else {
        assert forall|i: int| 0 <= i < h.drop_last().len() implies h.drop_last()[i] == v by {
            assert(h.drop_last()[i] == h[i]);
        }
        lemma_uniform_render_is_black(h.drop_last(), v);
    }
}

/// The rectangle's west-east extent in metres, measured along the top
/// edge's parallel, as the renderer measures it.
pub open spec fn spec_rect_width_m(rect: GeoRectangle) -> int {
    spec_parallel_distance(
        rect.bottom_right.longitude - rect.top_left.longitude,
        rect.top_left.latitude as int,
    )
}

/// The rectangle's north-south extent in metres along the meridian.
pub open spec fn spec_rect_height_m(rect: GeoRectangle) -> int {
    spec_meridian_distance(rect.top_left.latitude - rect.bottom_right.latitude)
}

/// The latitude of grid row `i` of `n`: the top edge moved south by the
/// row's share of the rectangle's height.
pub open spec fn spec_grid_lat(rect: GeoRectangle, n: int, i: int) -> int {
    spec_move_vertical(rect.top_left.latitude as int, i * spec_rect_height_m(rect) / n, true)
}

/// The longitude of grid node `(i, j)`: the west edge moved east along row
/// `i`'s parallel by the column's share of the rectangle's width.
pub open spec fn spec_grid_lon(rect: GeoRectangle, n: int, i: int, j: int) -> int {
    spec_move_horizontal(
        spec_grid_lat(rect, n, i),
        rect.top_left.longitude as int,
        j * spec_rect_width_m(rect) / n,
        false,
    )
}

/// The tile signature grid node `k` samples, after seam snapping.
pub open spec fn spec_grid_sig(rect: GeoRectangle, n: int, k: int) -> TileSignature {
    TileSignature::spec_from_micro(
        spec_snap(spec_grid_lat(rect, n, k / n), 90 * (MICRO as int)),
        spec_snap(spec_grid_lon(rect, n, k / n, k % n), 180 * (MICRO as int)),
    )
}

/// Whether the store already holds an answer — a decoded tile or a
/// memoized absence — for every node of the sampling grid.
pub open spec fn spec_covers<F: TileFetcher>(
    store: TileStorage<F>,
    rect: GeoRectangle,
    n: int,
) -> bool {
    forall|k: int|
        0 <= k < n * n ==> store.has_sig(#[trigger] spec_grid_sig(rect, n, k))
            || store.negative_contains(spec_grid_sig(rect, n, k))
}

/// The elevation grid node `k` contributes when the store already holds
/// its answer: the sampled pixel of the decoded tile, or sea level for a
/// memoized absence.
pub open spec fn spec_grid_height<F: TileFetcher>(
    store: TileStorage<F>,
    rect: GeoRectangle,
    n: int,
    k: int,
) -> i16 {
    let sig = spec_grid_sig(rect, n, k);
    if store.has_sig(sig) {
        spec_sample(
            store.entry_for(sig),
            spec_snap(spec_grid_lat(rect, n, k / n), 90 * (MICRO as int)),
            spec_snap(spec_grid_lon(rect, n, k / n, k % n), 180 * (MICRO as int)),
            sig,
        )
    } else {
        0
    }
}

/// Rendering is deterministic. When the store already holds an answer for
/// every grid node — the decoded cache and the negative cache are "the
/// cache state" — the sampled grid is a function of that state, and every
/// artifact is a function of the sampled grid: two renders over equal
/// inputs and equal cache states agree byte for byte. The hypotheses are
/// exactly what [`convert_georectangle`] ensures of each run.
pub proof fn lemma_render_deterministic<F: TileFetcher>(
    pre1: TileStorage<F>,
    pre2: TileStorage<F>,
    out1: RenderOutput,
    out2: RenderOutput,
    rect: GeoRectangle,
    n: int,
)
    requires
        pre1.table == pre2.table,
        pre1.unavailable == pre2.unavailable,
        out1.heights@.len() == n * n,
        out2.heights@.len() == n * n,
        forall|k: int| 0 <= k < out1.heights@.len() ==> #[trigger] out1.heights@[k] == spec_grid_height(pre1, rect, n, k),
        forall|k: int| 0 <= k < out2.heights@.len() ==> #[trigger] out2.heights@[k] == spec_grid_height(pre2, rect, n, k),
        out1.min == spec_min_fold(out1.heights@),
        out2.min == spec_min_fold(out2.heights@),
        out1.max == spec_max_fold(out1.heights@),
        out2.max == spec_max_fold(out2.heights@),
        out1.pixels@ == spec_normalize(out1.heights@, out1.min as int, out1.max as int),
        out2.pixels@ == spec_normalize(out2.heights@, out2.min as int, out2.max as int),
        out1.png@ == png_gray_bytes(out1.pixels@, n),
        out2.png@ == png_gray_bytes(out2.pixels@, n),
        out1.sidecar_json@ == spec_sidecar(out1.min as int, out1.max as int),
        out2.sidecar_json@ == spec_sidecar(out2.min as int, out2.max as int),
    ensures
        out1.heights@ == out2.heights@,
        out1.min == out2.min,
        out1.max == out2.max,
        out1.pixels@ == out2.pixels@,
        out1.png@ == out2.png@,
        out1.sidecar_json@ == out2.sidecar_json@,
{
    assert forall|k: int| 0 <= k < out1.heights@.len() implies #[trigger] out1.heights@[k]
        == out2.heights@[k] by {
        assert(out1.heights@[k] == spec_grid_height(pre1, rect, n, k));
        assert(out2.heights@[k] == spec_grid_height(pre2, rect, n, k));
    }
    assert(out1.heights@ =~= out2.heights@);
}

/// Everything one render produces: where the two artifacts belong, the
/// normalized raster, its PNG encoding, the sidecar text, the elevation
/// extremes, and the edge length.
pub struct RenderOutput {
    pub image_path: String,
    pub sidecar_path: String,
    pub heights: Vec<i16>,
    pub pixels: Vec<u8>,
    pub png: Vec<u8>,
    pub sidecar_json: String,
    pub min: i16,
    pub max: i16,
    pub size: usize,
}

/// Renders `georectangle` into a `size x size` grayscale heightmap.
///
/// Pass one walks an edge-inclusive grid from the north-west corner, row
/// anchors moving south along the meridian and samples moving east along
/// each anchor's parallel, collecting one elevation per node; a tile that
/// is absent, not loaded, or unreachable over the network contributes sea
/// level, so partial coverage still renders. Pass two normalizes the grid
/// against its extremes and encodes it. Writing the two artifacts to disk
/// is the caller's business; their paths are part of the output.
#[verifier::rlimit(60)]
pub fn convert_georectangle<F: TileFetcher>(
    storage: &mut TileStorage<F>,
    target_path: &str,
    georectangle: GeoRectangle,
    target_size: Resolution,
    format: ImageFormat,
) -> (r: Result<RenderOutput, Error>)
    requires
        old(storage).wf(),
    ensures
        final(storage).wf(),
        TileStorage::<F>::same_config(*old(storage), *final(storage)),
        format is RAW <==> r == Err::<RenderOutput, Error>(Error::NotImplemented),
        (format is PNG && !georectangle.spec_valid()) <==> r == Err::<RenderOutput, Error>(
            Error::InvalidGeorectangle,
        ),
        (format is PNG && georectangle.spec_valid() && spec_covers(
            *old(storage),
            georectangle,
            target_size.spec_value() as int,
        )) ==> r is Ok,
        r matches Ok(out) ==> {
            let n = target_size.spec_value() as int;
            &&& out.size == target_size.spec_value()
            &&& out.heights@.len() == n * n
            &&& out.min == spec_min_fold(out.heights@)
            &&& out.max == spec_max_fold(out.heights@)
            &&& out.pixels@ == spec_normalize(out.heights@, out.min as int, out.max as int)
            &&& out.pixels@.len() == n * n
            &&& out.png@ == png_gray_bytes(out.pixels@, n)
            &&& out.sidecar_json@ == spec_sidecar(out.min as int, out.max as int)
            &&& out.image_path@ == target_path@ + "."@ + "png"@
            &&& out.sidecar_path@ == target_path@ + "."@ + "json"@
        },
        r matches Ok(out) ==> (spec_covers(
            *old(storage),
            georectangle,
            target_size.spec_value() as int,
        ) ==> (final(storage).table == old(storage).table && final(storage).unavailable == old(
            storage,
        ).unavailable && final(storage).network == old(storage).network && forall|k: int|
            0 <= k < out.heights@.len() ==> out.heights@[k] == spec_grid_height(
                *old(storage),
                georectangle,
                target_size.spec_value() as int,
                k,
            ))),
        r matches Err(e) ==> (e is NotImplemented || e is InvalidGeorectangle || e
            is ImageSaveError || e is DecodeError || e is FilesystemError || e
            is InvalidCoordinate),
{
    match format {
        ImageFormat::RAW => {
            return Err(Error::NotImplemented);
        },
        ImageFormat::PNG => {},
    }
    if !georectangle.valid() {
        return Err(Error::InvalidGeorectangle);
    }
    let size = target_size.value();
    let width_m: u64 = match georectangle.width_meters() {
        Ok(w) => w,
        Err(_) => {
            return Err(Error::InvalidGeorectangle);
        },
    };
    let height_m: u64 = match georectangle.height_meters() {
        Ok(h) => h,
        Err(_) => {
            return Err(Error::InvalidGeorectangle);
        },
    };
    proof {
        crate::geodesy::lemma_meridian_distance_bounds(
            georectangle.top_left.latitude - georectangle.bottom_right.latitude,
        );
        crate::geodesy::lemma_parallel_distance_bounds(
            georectangle.bottom_right.longitude - georectangle.top_left.longitude,
            georectangle.top_left.latitude as int,
        );
        assert(height_m as int == spec_rect_height_m(georectangle));
        assert(width_m as int == spec_rect_width_m(georectangle));
    }
    let mut heights: Vec<i16> = Vec::new();
    let mut mn: i16 = i16::MAX;
    let mut mx: i16 = i16::MIN;
    let mut i: usize = 0;
    while i < size
        invariant
            old(storage).wf(),
            storage.wf(),
            TileStorage::<F>::same_config(*old(storage), *storage),
            i <= size,
            format is PNG,
            size == target_size.spec_value(),
            width_m <= 360 * 111_195,
            height_m <= 360 * 111_195,
            height_m as int == spec_rect_height_m(georectangle),
            width_m as int == spec_rect_width_m(georectangle),
            georectangle.spec_valid(),
            heights@.len() == i * size,
            spec_covers(*old(storage), georectangle, size as int) ==> (storage.table == old(storage).table && storage.unavailable == old(storage).unavailable && storage.network == old(storage).network && (forall|k: int| 0 <= k < heights@.len() ==> #[trigger] heights@[k] == spec_grid_height(*old(storage), georectangle, size as int, k))),
            mn == spec_min_fold(heights@),
            mx == spec_max_fold(heights@),
            forall|k: int| 0 <= k < heights@.len() ==> mn <= #[trigger] heights@[k] <= mx,
        decreases size - i,
    {
        proof {
            let ii = i as int;
            let hm = height_m as int;
            let sz = size as int;
            assert(0 <= ii * hm <= 360 * 111_195 * 4097 && ii * hm / sz <= hm)
                by (nonlinear_arith)
                requires
                    0 <= ii < sz,
                    1 <= sz <= 4097,
                    0 <= hm <= 360 * 111_195,
            ;
        }
        let di: u64 = (i as u64) * height_m / (size as u64);
        let row_lat: i64 = move_vertical(georectangle.top_left.latitude, di, true);
        proof {
            assert(di as int == (i as int) * spec_rect_height_m(georectangle) / (size as int));
            assert(row_lat as int == spec_grid_lat(georectangle, size as int, i as int));
        }
        let mut j: usize = 0;
        while j < size
            invariant
                old(storage).wf(),
                storage.wf(),
                TileStorage::<F>::same_config(*old(storage), *storage),
                i < size,
                j <= size,
                format is PNG,
                size == target_size.spec_value(),
                width_m <= 360 * 111_195,
                height_m <= 360 * 111_195,
                height_m as int == spec_rect_height_m(georectangle),
                width_m as int == spec_rect_width_m(georectangle),
                georectangle.spec_valid(),
                -90 * 1_000_000 <= row_lat <= 90 * 1_000_000,
                row_lat as int == spec_grid_lat(georectangle, size as int, i as int),
                heights@.len() == i * size + j,
                spec_covers(*old(storage), georectangle, size as int) ==> (storage.table == old(storage).table && storage.unavailable == old(storage).unavailable && storage.network == old(storage).network && (forall|k: int| 0 <= k < heights@.len() ==> #[trigger] heights@[k] == spec_grid_height(*old(storage), georectangle, size as int, k))),
                mn == spec_min_fold(heights@),
                mx == spec_max_fold(heights@),
                forall|k: int| 0 <= k < heights@.len() ==> mn <= #[trigger] heights@[k] <= mx,
            decreases size - j,
        {
            proof {
                let ji = j as int;
                let wm = width_m as int;
                let sz = size as int;
                assert(0 <= ji * wm <= 360 * 111_195 * 4097 && ji * wm / sz <= wm)
                    by (nonlinear_arith)
                    requires
                        0 <= ji < sz,
                        1 <= sz <= 4097,
                        0 <= wm <= 360 * 111_195,
                ;
            }
            let dj: u64 = (j as u64) * width_m / (size as u64);
            let lon: i64 = move_horizontal(row_lat, georectangle.top_left.longitude, dj, false);
            let ghost h_old = heights@;
            let ghost store_before = *storage;
            proof {
                if spec_covers(*old(storage), georectangle, size as int) {
                    let n = size as int;
                    let ki = (i as int) * n + (j as int);
                    assert(ki / n == i as int && ki % n == j as int) by (nonlinear_arith)
                        requires
                            0 <= (j as int) < n,
                            0 <= (i as int),
                            ki == (i as int) * n + (j as int),
                    ;
                    assert(0 <= ki < n * n) by (nonlinear_arith)
                        requires
                            0 <= (i as int) < n,
                            0 <= (j as int) < n,
                            ki == (i as int) * n + (j as int),
                    ;
                    assert(dj as int == (j as int) * spec_rect_width_m(georectangle) / n);
                    assert(lon as int == spec_grid_lon(georectangle, n, i as int, j as int));
                    let sig = spec_grid_sig(georectangle, n, ki);
                    assert(old(storage).has_sig(sig) || old(storage).negative_contains(sig));
                    assert(store_before.table == old(storage).table);
                    assert(store_before.unavailable == old(storage).unavailable);
                    assert(store_before.has_sig(sig) || store_before.negative_contains(sig));
                }
            }
            let sampled = elevation_at(storage, (row_lat, lon));
            let h: i16 = match sampled {
                Ok(v) => v,
                Err(e) => match e {
                    Error::NoSuchObjectInRemote(_) => 0,
                    Error::NoSuchTile(_) => 0,
                    Error::NetworkError => 0,
                    Error::NetworkStatusCodeError(_, _) => 0,
                    other => {
                        proof {
                            // With every grid node already answered, the
                            // sampler returns the decoded pixel or the
                            // memoized absence; no aborting error can come
                            // back.
                            if spec_covers(*old(storage), georectangle, size as int) {
                                let n = size as int;
                                let ki = (i as int) * n + (j as int);
                                assert(ki / n == i as int && ki % n == j as int)
                                    by (nonlinear_arith)
                                    requires
                                        0 <= (j as int) < n,
                                        0 <= (i as int),
                                        ki == (i as int) * n + (j as int),
                                ;
                                let sig = spec_grid_sig(georectangle, n, ki);
                                assert(false);
                            }
                        }
                        return Err(other);
                    },
                },
            };
            if h < mn {
                mn = h;
            }
            if h > mx {
                mx = h;
            }
            heights.push(h);
            proof {
                assert(heights@.drop_last() =~= h_old);
                assert(heights@.last() == h);
                if spec_covers(*old(storage), georectangle, size as int) {
                    let n = size as int;
                    let ki = (i as int) * n + (j as int);
                    assert(ki / n == i as int && ki % n == j as int) by (nonlinear_arith)
                        requires
                            0 <= (j as int) < n,
                            0 <= (i as int),
                            ki == (i as int) * n + (j as int),
                    ;
                    assert(0 <= ki < n * n) by (nonlinear_arith)
                        requires
                            0 <= (i as int) < n,
                            0 <= (j as int) < n,
                            ki == (i as int) * n + (j as int),
                    ;
                    assert(dj as int == (j as int) * spec_rect_width_m(georectangle) / n);
                    assert(lon as int == spec_grid_lon(georectangle, n, i as int, j as int));
                    let sig = spec_grid_sig(georectangle, n, ki);
                    assert(old(storage).has_sig(sig) || old(storage).negative_contains(sig));
                    assert(store_before.table == old(storage).table);
                    assert(store_before.unavailable == old(storage).unavailable);
                    if old(storage).has_sig(sig) {
                        assert(store_before.has_sig(sig));
                        assert(sampled matches Ok(v) && v == spec_grid_height(
                            *old(storage),
                            georectangle,
                            n,
                            ki,
                        ));
                    } else {
                        assert(old(storage).negative_contains(sig));
                        assert(store_before.negative_contains(sig));
                        assert(!store_before.has_sig(sig));
                        assert(sampled == Err::<i16, Error>(Error::NoSuchObjectInRemote(sig)));
                        assert(h == 0);
                        assert(spec_grid_height(*old(storage), georectangle, n, ki) == 0i16);
                    }
                    assert(heights@[ki] == spec_grid_height(
                        *old(storage),
                        georectangle,
                        n,
                        ki,
                    ));
                    assert(storage.table == old(storage).table);
                    assert(storage.unavailable == old(storage).unavailable);
                    assert(storage.network == old(storage).network);
                    assert forall|k: int| 0 <= k < heights@.len() implies #[trigger] heights@[k]
                        == spec_grid_height(*old(storage), georectangle, n, k) by {
                        if k < ki {
                            assert(heights@[k] == h_old[k]);
                        }
                    }
                }
            }
            j += 1;
        }
        proof {
            let ii = i as int;
            let sz = size as int;
            assert(ii * sz + sz == (ii + 1) * sz) by (nonlinear_arith);
        }
        i += 1;
    }
    let total = heights.len();
    let mut pixels: Vec<u8> = Vec::new();
    let mut k: usize = 0;
    while k < total
        invariant
            k <= total,
            total == heights@.len(),
            pixels@.len() == k,
            forall|t: int| 0 <= t < heights@.len() ==> mn <= #[trigger] heights@[t] <= mx,
            forall|t: int|
                0 <= t < k ==> #[trigger] pixels@[t] == spec_gray(
                    heights@[t] as int,
                    mn as int,
                    mx as int,
                ) as u8,
        decreases total - k,
    {
        let v = heights[k];
        let g: u8 = if mx <= mn {
            0
        } else {
            let num: u64 = ((v as i64) - (mn as i64)) as u64 * 255;
            let den: u64 = ((mx as i64) - (mn as i64)) as u64;
            proof {
                let ni = num as int;
                let di = den as int;
                assert(ni / di <= 255) by (nonlinear_arith)
                    requires
                        di >= 1,
                        0 <= ni <= di * 255,
                ;
                assert((v as int - mn as int) * 255 <= (mx as int - mn as int) * 255)
                    by (nonlinear_arith)
                    requires
                        v as int - mn as int <= mx as int - mn as int,
                        0 <= v as int - mn as int,
                ;
            }
            (num / den) as u8
        };
        pixels.push(g);
        k += 1;
    }
    proof {
        assert(pixels@ =~= spec_normalize(heights@, mn as int, mx as int));
        let n = target_size.spec_value() as int;
        assert(heights@.len() == n * n);
        assert(n * n <= 8192 * 8192) by (nonlinear_arith)
            requires
                0 <= n <= 8192,
        ;
    }
    let png: Vec<u8> = match encode_gray_png(&pixels, size as u32) {
        Ok(b) => b,
        Err(_) => {
            return Err(Error::ImageSaveError);
        },
    };
    proof {
        reveal_strlit(".");
        reveal_strlit("png");
        reveal_strlit("json");
    }
    let mut image_path = target_path.to_owned();
    image_path.append(".");
    image_path.append(format.extension());
    proof {
        assert(image_path@ =~= target_path@ + "."@ + "png"@);
        assert(image_path@[target_path@.len() as int] == '.');
        assert(image_path@.contains('.'));
    }
    let sidecar_path = replace_extension(image_path.as_str(), "json");
    proof {
        let base = target_path@;
        let full = image_path@;
        assert(full =~= base + "."@ + "png"@);
        let dot = base.len() as int;
        assert(full[dot] == '.');
        assert(forall|j: int| dot < j < full.len() ==> full[j] != '.');
        let w = choose|w: int|
            {
                &&& 0 <= w < full.len()
                &&& full[w] == '.'
                &&& (forall|j: int| w < j < full.len() ==> full[j] != '.')
                &&& sidecar_path@ == full.subrange(0, w + 1) + "json"@
            };
        assert(w == dot);
        assert(full.subrange(0, dot + 1) =~= base + "."@);
        assert(sidecar_path@ =~= base + "."@ + "json"@);
    }
    let json = sidecar_json(mn, mx);
    Ok(
        RenderOutput {
            image_path,
            sidecar_path,
            heights,
            pixels,
            png,
            sidecar_json: json,
            min: mn,
            max: mx,
            size,
        },
    )
}

} // verus!

//! Fixed-point spherical geometry over integer microdegrees.
//!
//! Distances run along meridians and parallels of a sphere of mean earth
//! radius; cosines come from a table of the 91 whole degrees, scaled by one
//! million and linearly interpolated in between. Every function states its
//! result exactly over the spec-level mirror of the same arithmetic.

use vstd::prelude::*;

use crate::tile_signature::MICRO;

verus! {

/// Metres in one degree of arc on the meridian: the mean earth radius
/// (6 371 009 m) times pi over 180, rounded.
pub const METERS_PER_DEGREE: i64 = 111_195;

/// The cosine of `d` whole degrees, scaled by one million and rounded,
/// for `0 <= d <= 90`. Opaque: callers learn concrete values through
/// [`cos_deg`], whose contract is this table.
#[verifier::opaque]
pub open spec fn spec_cos_deg(d: int) -> int {
    if d == 0 {
        1000000
    } else if d == 1 {
        999848
    } else if d == 2 {
        999391
    } else if d == 3 {
        998630
    } else if d == 4 {
        997564
    } else if d == 5 {
        996195
    } else if d == 6 {
        994522
    } else if d == 7 {
        992546
    } else if d == 8 {
        990268
    } else if d == 9 {
        987688
    } else if d == 10 {
        984808
    } else if d == 11 {
        981627
    } else if d == 12 {
        978148
    } else if d == 13 {
        974370
    } else if d == 14 {
        970296
    } else if d == 15 {
        965926
    } else if d == 16 {
        961262
    } else if d == 17 {
        956305
    } else if d == 18 {
        951057
    } else if d == 19 {
        945519
    } else if d == 20 {
        939693
    } else if d == 21 {
        933580
    } else if d == 22 {
        927184
    } else if d == 23 {
        920505
    } else if d == 24 {
        913545
    } else if d == 25 {
        906308
    } else if d == 26 {
        898794
    } else if d == 27 {
        891007
    } else if d == 28 {
        882948
    } else if d == 29 {
        874620
    } else if d == 30 {
        866025
    } else if d == 31 {
        857167
    } else if d == 32 {
        848048
    } else if d == 33 {
        838671
    } else if d == 34 {
        829038
    } else if d == 35 {
        819152
    } else if d == 36 {
        809017
    } else if d == 37 {
        798636
    } else if d == 38 {
        788011
    } else if d == 39 {
        777146
    } else if d == 40 {
        766044
    } else if d == 41 {
        754710
    } else if d == 42 {
        743145
    } else if d == 43 {
        731354
    } else if d == 44 {
        719340
    } else if d == 45 {
        707107
    } else if d == 46 {
        694658
    } else if d == 47 {
        681998
    } else if d == 48 {
        669131
    } else if d == 49 {
        656059
    } else if d == 50 {
        642788
    } else if d == 51 {
        629320
    } else if d == 52 {
        615661
    } else if d == 53 {
        601815
    } else if d == 54 {
        587785
    } else if d == 55 {
        573576
    } else if d == 56 {
        559193
    } else if d == 57 {
        544639
    } else if d == 58 {
        529919
    } else if d == 59 {
        515038
    } else if d == 60 {
        500000
    } else if d == 61 {
        484810
    } else if d == 62 {
        469472
    } else if d == 63 {
        453990
    } else if d == 64 {
        438371
    } else if d == 65 {
        422618
    } else if d == 66 {
        406737
    } else if d == 67 {
        390731
    } else if d == 68 {
        374607
    } else if d == 69 {
        358368
    } else if d == 70 {
        342020
    } else if d == 71 {
        325568
    } else if d == 72 {
        309017
    } else if d == 73 {
        292372
    } else if d == 74 {
        275637
    } else if d == 75 {
        258819
    } else if d == 76 {
        241922
    } else if d == 77 {
        224951
    } else if d == 78 {
        207912
    } else if d == 79 {
        190809
    } else if d == 80 {
        173648
    } else if d == 81 {
        156434
    } else if d == 82 {
        139173
    } else if d == 83 {
        121869
    } else if d == 84 {
        104528
    } else if d == 85 {
        87156
    } else if d == 86 {
        69756
    } else if d == 87 {
        52336
    } else if d == 88 {
        34899
    } else if d == 89 {
        17452
    } else {
        0
    }
}

/// Table lookup of [`spec_cos_deg`].
pub fn cos_deg(d: u8) -> (r: u32)
    requires
        d <= 90,
    ensures
        r == spec_cos_deg(d as int),
        r <= 1_000_000,
{
    proof {
        reveal(spec_cos_deg);
    }
    match d {
            0 => 1000000,
            1 => 999848,
            2 => 999391,
            3 => 998630,
            4 => 997564,
            5 => 996195,
            6 => 994522,
            7 => 992546,
            8 => 990268,
            9 => 987688,
            10 => 984808,
            11 => 981627,
            12 => 978148,
            13 => 974370,
            14 => 970296,
            15 => 965926,
            16 => 961262,
            17 => 956305,
            18 => 951057,
            19 => 945519,
            20 => 939693,
            21 => 933580,
            22 => 927184,
            23 => 920505,
            24 => 913545,
            25 => 906308,
            26 => 898794,
            27 => 891007,
            28 => 882948,
            29 => 874620,
            30 => 866025,
            31 => 857167,
            32 => 848048,
            33 => 838671,
            34 => 829038,
            35 => 819152,
            36 => 809017,
            37 => 798636,
            38 => 788011,
            39 => 777146,
            40 => 766044,
            41 => 754710,
            42 => 743145,
            43 => 731354,
            44 => 719340,
            45 => 707107,
            46 => 694658,
            47 => 681998,
            48 => 669131,
            49 => 656059,
            50 => 642788,
            51 => 629320,
            52 => 615661,
            53 => 601815,
            54 => 587785,
            55 => 573576,
            56 => 559193,
            57 => 544639,
            58 => 529919,
            59 => 515038,
            60 => 500000,
            61 => 484810,
            62 => 469472,
            63 => 453990,
            64 => 438371,
            65 => 422618,
            66 => 406737,
            67 => 390731,
            68 => 374607,
            69 => 358368,
            70 => 342020,
            71 => 325568,
            72 => 309017,
            73 => 292372,
            74 => 275637,
            75 => 258819,
            76 => 241922,
            77 => 224951,
            78 => 207912,
            79 => 190809,
            80 => 173648,
            81 => 156434,
            82 => 139173,
            83 => 121869,
            84 => 104528,
            85 => 87156,
            86 => 69756,
            87 => 52336,
            88 => 34899,
            89 => 17452,
            _ => 0,
        }
}

/// The cosine at a latitude in microdegrees, scaled by one million:
/// the table value at the whole degree below, pulled toward the value one
/// degree above in proportion to the fractional part.
pub open spec fn spec_cos_udeg(lat_udeg: int) -> int {
    let a = vstd::math::abs(lat_udeg) as int;
    let d = a / (MICRO as int);
    let f = a % (MICRO as int);
    if d >= 90 {
        0
    } else {
        (spec_cos_deg(d) * ((MICRO as int) - f) + spec_cos_deg(d + 1) * f) / (MICRO as int)
    }
}

/// Computes [`spec_cos_udeg`].
pub fn cos_udeg(lat_udeg: i64) -> (r: u32)
    requires
        -90 * MICRO <= lat_udeg <= 90 * MICRO,
    ensures
        r == spec_cos_udeg(lat_udeg as int),
        r <= 1_000_000,
{
    let a: u64 = if lat_udeg < 0 {
        (-lat_udeg) as u64
    } else {
        lat_udeg as u64
    };
    let d: u64 = a / 1_000_000;
    let f: u64 = a % 1_000_000;
    if d >= 90 {
        return 0;
    }
    let c1: u64 = cos_deg(d as u8) as u64;
    let c2: u64 = cos_deg((d + 1) as u8) as u64;
    proof {
        let ci = c1 as int;
        let cj = c2 as int;
        let fi = f as int;
        assert(0 <= ci * (1_000_000 - fi) + cj * fi <= 2_000_000_000_000 && (ci * (1_000_000 - fi)
            + cj * fi) / 1_000_000 <= 1_000_000) by (nonlinear_arith)
            requires
                0 <= ci <= 1_000_000,
                0 <= cj <= 1_000_000,
                0 <= fi < 1_000_000,
        ;
    }
    let r: u64 = (c1 * (1_000_000 - f) + c2 * f) / 1_000_000;
    r as u32
}

/// Metres between two points on one meridian, `dlat_udeg` microdegrees
/// apart.
pub open spec fn spec_meridian_distance(dlat_udeg: int) -> int {
    dlat_udeg * (METERS_PER_DEGREE as int) / (MICRO as int)
}

/// Computes [`spec_meridian_distance`].
pub fn meridian_distance(dlat_udeg: i64) -> (r: u64)
    requires
        0 <= dlat_udeg <= 360 * MICRO,
    ensures
        r == spec_meridian_distance(dlat_udeg as int),
        r <= 360 * METERS_PER_DEGREE,
{
    let p: u64 = (dlat_udeg as u64) * (METERS_PER_DEGREE as u64);
    proof {
        let di = dlat_udeg as int;
        assert(di * 111_195 / 1_000_000 <= 360 * 111_195) by (nonlinear_arith)
            requires
                0 <= di <= 360 * 1_000_000,
        ;
    }
    p / 1_000_000
}

/// Metres between two points on one parallel at latitude `lat_udeg`,
/// `dlon_udeg` microdegrees apart: the longitude gap is shrunk by the
/// latitude's cosine and then measured like an arc of the meridian.
pub open spec fn spec_parallel_distance(dlon_udeg: int, lat_udeg: int) -> int {
    spec_meridian_distance(dlon_udeg * spec_cos_udeg(lat_udeg) / (MICRO as int))
}

/// Computes [`spec_parallel_distance`].
pub fn parallel_distance(dlon_udeg: i64, lat_udeg: i64) -> (r: u64)
    requires
        0 <= dlon_udeg <= 360 * MICRO,
        -90 * MICRO <= lat_udeg <= 90 * MICRO,
    ensures
        r == spec_parallel_distance(dlon_udeg as int, lat_udeg as int),
        r <= 360 * METERS_PER_DEGREE,
{
    let c: u64 = cos_udeg(lat_udeg) as u64;
    proof {
        let di = dlon_udeg as int;
        let ci = c as int;
        assert(0 <= di * ci <= 360_000_000_000_000 && di * ci / 1_000_000 <= 360 * 1_000_000)
            by (nonlinear_arith)
            requires
                0 <= di <= 360 * 1_000_000,
                0 <= ci <= 1_000_000,
        ;
    }
    let shrunk: u64 = (dlon_udeg as u64) * c / 1_000_000;
    meridian_distance(shrunk as i64)
}

/// The latitude reached by walking `meters` due south (when `south` holds)
/// or north along a meridian, clipped at the poles.
pub open spec fn spec_move_vertical(lat_udeg: int, meters: int, south: bool) -> int {
    let step = meters * (MICRO as int) / (METERS_PER_DEGREE as int);
    let moved = if south {
        lat_udeg - step
    } else {
        lat_udeg + step
    };
    if moved > 90 * (MICRO as int) {
        90 * (MICRO as int)
    } else if moved < -90 * (MICRO as int) {
        -90 * (MICRO as int)
    } else {
        moved
    }
}

/// Computes [`spec_move_vertical`]. Distances are capped at one hundred
/// thousand kilometres, far beyond any span of the globe.
pub fn move_vertical(lat_udeg: i64, meters: u64, south: bool) -> (r: i64)
    requires
        -90 * MICRO <= lat_udeg <= 90 * MICRO,
        meters <= 100_000_000,
    ensures
        r == spec_move_vertical(lat_udeg as int, meters as int, south),
        -90 * MICRO <= r <= 90 * MICRO,
{
    let step_num: u64 = meters * 1_000_000;
    let step: i64 = (step_num / (METERS_PER_DEGREE as u64)) as i64;
    proof {
        let mi = meters as int;
        assert(mi * 1_000_000 / 111_195 <= 1_000_000_000_000) by (nonlinear_arith)
            requires
                0 <= mi <= 100_000_000,
        ;
    }
    if south {
        let moved: i64 = lat_udeg - step;
        if moved < -90 * 1_000_000 {
            -90 * 1_000_000
        } else {
            moved
        }
    } else {
        let moved: i64 = lat_udeg + step;
        if moved > 90 * 1_000_000 {
            90 * 1_000_000
        } else {
            moved
        }
    }
}

/// The scaled cosine lies between zero and its scale.
pub proof fn lemma_cos_udeg_bounds(lat: int)
    ensures
        0 <= spec_cos_udeg(lat) <= 1_000_000,
{
    reveal(spec_cos_deg);
    let m = MICRO as int;
    let a = vstd::math::abs(lat) as int;
    let d = a / m;
    let f = a % m;
    if d < 90 {
        assert(a >= 0);
        assert(d >= 0 && 0 <= f < m) by (nonlinear_arith)
            requires
                a >= 0,
                m == 1_000_000,
                d == a / m,
                f == a % m,
        ;
        let c1 = spec_cos_deg(d);
        let c2 = spec_cos_deg(d + 1);
        assert(0 <= c1 <= 1_000_000);
        assert(0 <= c2 <= 1_000_000);
        assert(0 <= (c1 * (m - f) + c2 * f) / m <= 1_000_000) by (nonlinear_arith)
            requires
                0 <= c1 <= 1_000_000,
                0 <= c2 <= 1_000_000,
                0 <= f < m,
                m == 1_000_000,
        ;
    }
}

/// The metre arc of a nonnegative span of the meridian is nonnegative and
/// bounded by the full turn.
pub proof fn lemma_meridian_distance_bounds(dlat_udeg: int)
    requires
        0 <= dlat_udeg <= 360 * (MICRO as int),
    ensures
        0 <= spec_meridian_distance(dlat_udeg) <= 360 * (METERS_PER_DEGREE as int),
{
    assert(0 <= dlat_udeg * 111_195 / 1_000_000 <= 360 * 111_195) by (nonlinear_arith)
        requires
            0 <= dlat_udeg <= 360 * 1_000_000,
    ;
}

/// The metre arc of a nonnegative span of a parallel is nonnegative and
/// bounded by the full turn.
pub proof fn lemma_parallel_distance_bounds(dlon_udeg: int, lat_udeg: int)
    requires
        0 <= dlon_udeg <= 360 * (MICRO as int),
    ensures
        0 <= spec_parallel_distance(dlon_udeg, lat_udeg) <= 360 * (METERS_PER_DEGREE as int),
{
    lemma_cos_udeg_bounds(lat_udeg);
    let m = MICRO as int;
    let c = spec_cos_udeg(lat_udeg);
    let prod = dlon_udeg * c;
    assert(0 <= dlon_udeg * c <= 360 * 1_000_000 * 1_000_000) by (nonlinear_arith)
        requires
            0 <= dlon_udeg <= 360 * 1_000_000,
            0 <= c <= 1_000_000,
    ;
    vstd::arithmetic::div_mod::lemma_div_pos_is_pos(prod, m);
    vstd::arithmetic::div_mod::lemma_div_is_ordered(prod, 360_000_000_000_000, m);
    lemma_meridian_distance_bounds(prod / m);
}

/// A longitude folded into `[-180, 180)` degrees.
pub open spec fn spec_wrap_lon(x: int) -> int {
    (x + 180 * (MICRO as int)) % (360 * (MICRO as int)) - 180 * (MICRO as int)
}

/// The longitude reached by walking `meters` due west (when `west` holds)
/// or east along the parallel at `lat_udeg`, wrapped into `[-180, 180)`
/// degrees. At the poles a parallel has no length and the longitude stays
/// put.
pub open spec fn spec_move_horizontal(
    lat_udeg: int,
    lon_udeg: int,
    meters: int,
    west: bool,
) -> int {
    let mpl = (METERS_PER_DEGREE as int) * spec_cos_udeg(lat_udeg) / (MICRO as int);
    if mpl == 0 {
        lon_udeg
    } else {
        let step = meters * (MICRO as int) / mpl;
        spec_wrap_lon(
            if west {
                lon_udeg - step
            } else {
                lon_udeg + step
            },
        )
    }
}

/// Computes [`spec_move_horizontal`].
pub fn move_horizontal(lat_udeg: i64, lon_udeg: i64, meters: u64, west: bool) -> (r: i64)
    requires
        -90 * MICRO <= lat_udeg <= 90 * MICRO,
        -180 * MICRO <= lon_udeg <= 180 * MICRO,
        meters <= 100_000_000,
    ensures
        r == spec_move_horizontal(lat_udeg as int, lon_udeg as int, meters as int, west),
        -180 * MICRO <= r <= 180 * MICRO,
{
    let c = cos_udeg(lat_udeg);
    let mpl: u64 = (METERS_PER_DEGREE as u64) * (c as u64) / 1_000_000;
    if mpl == 0 {
        return lon_udeg;
    }
    proof {
        let mi = meters as int;
        let pi = mpl as int;
        assert(0 <= mi * 1_000_000 <= 100_000_000_000_000 && mi * 1_000_000 / pi <= mi * 1_000_000)
            by (nonlinear_arith)
            requires
                0 <= mi <= 100_000_000,
                1 <= pi,
        ;
    }
    let step_u: u64 = meters * 1_000_000 / mpl;
    let step: i64 = step_u as i64;
    let x: i64 = if west {
        lon_udeg - step
    } else {
        lon_udeg + step
    };
    let shifted: u64 = (x + 180 * 1_000_000 + 144_000_000_000_000) as u64;
    let m: u64 = shifted % 360_000_000;
    proof {
        vstd::arithmetic::div_mod::lemma_mod_multiples_vanish(
            400_000,
            x as int + 180 * 1_000_000,
            360_000_000,
        );
    }
    (m as i64) - 180 * 1_000_000
}

} // verus!

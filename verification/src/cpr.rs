//! Compact Position Reporting: pairing an even and an odd report into a
//! global position.
//!
//! A report holds latitude and longitude as 17-bit fractions of a zone. The
//! globe has 60 latitude zones for even reports and 59 for odd ones, so the
//! two fractions together say which zone is meant. All of it is integer
//! arithmetic: a decoded angle is an exact fraction of a degree.

use crate::aircraft::Aircraft;
use crate::angle::{Degrees, Ratio};
use vstd::arithmetic::div_mod::{
    lemma_fundamental_div_mod,
    lemma_fundamental_div_mod_converse,
    lemma_mod_bound,
};
use vstd::prelude::*;

verus! {

/// The 17-bit scale of a report: a fraction `f` stands for `f / 131072` of a
/// zone.
pub const CPR_SCALE: i64 = 131072;

/// The latitudes at which the number of longitude zones changes, in units of
/// `1e-8` degree: up to the first there are 59 zones, up to the next 58, and
/// so on down to 2 zones up to the last, 87 degrees; beyond it there is one.
pub const TRANSITION_LATITUDES: [u64; 58] = [
    1047047130,
    1482817437,
    1818626357,
    2102939493,
    2354504487,
    2582924707,
    2793898710,
    2991135686,
    3177209708,
    3353993436,
    3522899598,
    3685025108,
    3841241892,
    3992256684,
    4138651832,
    4280914012,
    4419454951,
    4554626723,
    4686733252,
    4816039128,
    4942776439,
    5067150166,
    5189342469,
    5309516153,
    5427817472,
    5544378444,
    5659318756,
    5772747354,
    5884763776,
    5995459277,
    6104917774,
    6213216659,
    6320427479,
    6426616523,
    6531845310,
    6636171008,
    6739646774,
    6842322022,
    6944242631,
    7045451075,
    7145986473,
    7245884545,
    7345177442,
    7443893416,
    7542056257,
    7639684391,
    7736789461,
    7833374083,
    7929428225,
    8024923213,
    8119801349,
    8213956981,
    8307199445,
    8399173563,
    8489166191,
    8575541621,
    8653536998,
    8700000000,
];

/// The remainder that truncating division leaves, brought back into `0..d`,
/// is the Euclidean remainder.
proof fn lemma_truncated_remainder(x: int, d: int)
    requires
        x < 0,
        d > 0,
    ensures
        (-x) % d == 0 ==> x % d == 0 && x / d == -((-x) / d),
        (-x) % d != 0 ==> x % d == d - (-x) % d && x / d == -((-x) / d) - 1,
{
    let y = -x;
    let q = y / d;
    let r = y % d;
    lemma_fundamental_div_mod(y, d);
    lemma_mod_bound(y, d);
    if r == 0 {
        assert(x == (-q) * d + 0) by (nonlinear_arith)
            requires
                -x == d * q + 0,
        ;
        lemma_fundamental_div_mod_converse(x, d, -q, 0);
    } else {
        assert(x == (-q - 1) * d + (d - r)) by (nonlinear_arith)
            requires
                -x == d * q + r,
        ;
        lemma_fundamental_div_mod_converse(x, d, -q - 1, d - r);
    }
}

/// The non-negative remainder of `a` by `b`.
pub fn cpr_mod(a: i32, b: i32) -> (r: i32)
    requires
        b > 0,
    ensures
        r == a as int % b as int,
        0 <= r < b,
{
    let mut res: i32 = a % b;
    if res < 0 {
        res += b;
    }
    proof {
        if a < 0 {
            lemma_truncated_remainder(a as int, b as int);
        }
        lemma_mod_bound(a as int, b as int);
    }
    res
}

/// The non-negative remainder of `a` by `b`, on wide integers.
fn wide_mod(a: i128, b: i128) -> (r: i128)
    requires
        b > 0,
    ensures
        r == a as int % b as int,
        0 <= r < b,
{
    let mut res: i128 = a % b;
    if res < 0 {
        res += b;
    }
    proof {
        if a < 0 {
            lemma_truncated_remainder(a as int, b as int);
        }
        lemma_mod_bound(a as int, b as int);
    }
    res
}

/// The quotient of `a` by `b`, rounded down.
fn floor_div(a: i64, b: i64) -> (q: i64)
    requires
        b > 0,
        a > i64::MIN,
    ensures
        q == a as int / b as int,
        q * b <= a < q * b + b,
{
    let mut q: i64 = a / b;
    if a % b < 0 {
        q -= 1;
    }
    proof {
        if a < 0 {
            lemma_truncated_remainder(a as int, b as int);
        }
        lemma_fundamental_div_mod(a as int, b as int);
        lemma_mod_bound(a as int, b as int);
        assert(b * (a as int / b as int) == (a as int / b as int) * b) by (nonlinear_arith);
    }
    q
}

/// The latitude behind `lat` as far as the zone count goes: the distance, in
/// degrees times `lat.den`, to the nearest point of the equator, which lies at
/// every multiple of 180 degrees. It is between 0 and `90 * lat.den`.
pub open spec fn distance_from_equator(lat: Ratio) -> int {
    let r = lat.num % (180 * lat.den);
    if r > 90 * lat.den {
        180 * lat.den - r
    } else {
        r
    }
}

/// The zone count where the first `k` candidates, 59 down to `k + 1`, have
/// been ruled out already: the largest count up to `k` whose transition
/// latitude is not below `x / den` degrees, and 1 where there is none.
pub open spec fn zones_up_to(x: int, den: int, k: int) -> int
    decreases k,
{
    if k < 2 {
        1
    } else if x * 100_000_000 <= TRANSITION_LATITUDES[59 - k] * den {
        k
    } else {
        zones_up_to(x, den, k - 1)
    }
}

/// The number of longitude zones at the latitude `lat`, between 1 and 59.
pub open spec fn zone_count(lat: Ratio) -> int {
    zones_up_to(distance_from_equator(lat), lat.den, 59)
}

/// The zone count is between 1 and `k`.
pub proof fn lemma_zones_up_to_range(x: int, den: int, k: int)
    requires
        1 <= k,
    ensures
        1 <= zones_up_to(x, den, k) <= k,
    decreases k,
{
    if k >= 2 {
        lemma_zones_up_to_range(x, den, k - 1);
    }
}

/// Calculate the longitude zone number for the given latitude
pub fn cpr_nl(lat: Degrees) -> (zones: i32)
    requires
        lat.wf(),
    ensures
        zones == zone_count(lat@),
        1 <= zones <= 59,
{
    let den: i128 = lat.den as i128;
    let r: i128 = wide_mod(lat.num as i128, 180 * den);
    let x: i128 = if r > 90 * den {
        180 * den - r
    } else {
        r
    };
    let mut i: usize = 0;
    while i < 58
        invariant
            i <= 58,
            den == lat.den,
            den > 0,
            0 <= x <= 90 * den,
            x == distance_from_equator(lat@),
            zone_count(lat@) == zones_up_to(x as int, den as int, 59 - i),
        decreases 58 - i,
    {
        let limit: i128 = TRANSITION_LATITUDES[i] as i128;
        assert(0 <= limit * den <= 0xffff_ffff_ffff_ffff * 0x7fff_ffff_ffff_ffff)
            by (nonlinear_arith)
            requires
                0 <= limit <= 0xffff_ffff_ffff_ffff,
                0 < den <= 0x7fff_ffff_ffff_ffff,
        ;
        if x * 100_000_000 <= limit * den {
            return 59 - i as i32;
        }
        i += 1;
    }
    1
}

/// The number of longitude zones that a report at `lat` divides the globe
/// into: the zone count, one less for an odd report, and never below one.
pub open spec fn longitude_zones(lat: Ratio, is_odd: bool) -> int {
    let n = zone_count(lat) - if is_odd {
        1int
    } else {
        0int
    };
    if n < 1 {
        1
    } else {
        n
    }
}

/// The number of longitude zones of a report at `lat`.
pub fn cpr_n(lat: Degrees, is_odd: bool) -> (n: i32)
    requires
        lat.wf(),
    ensures
        n == longitude_zones(lat@, is_odd),
        1 <= n <= 59,
{
    let mut nl: i32 = cpr_nl(lat) - if is_odd {
        1
    } else {
        0
    };
    if nl < 1 {
        nl = 1;
    }
    nl
}

/// The width of one longitude zone of a report at `lat`: 360 degrees over the
/// number of zones.
pub fn cpr_dlon(lat: Degrees, is_odd: bool) -> (width: Degrees)
    requires
        lat.wf(),
    ensures
        width@ == (Ratio { num: 360, den: longitude_zones(lat@, is_odd) }),
{
    Degrees { num: 360, den: cpr_n(lat, is_odd) as i64 }
}

/// The index of the latitude zone that an even and an odd latitude fraction
/// point at together: `(59 * even - 60 * odd) / 131072`, rounded to the
/// nearest integer, halves upwards.
pub open spec fn latitude_index(even_lat: int, odd_lat: int) -> int {
    (59 * even_lat - 60 * odd_lat + 65536) / 131072
}

/// The index of the longitude zone that an even and an odd longitude fraction
/// point at together, at a latitude of `zones` longitude zones.
pub open spec fn longitude_index(even_lon: int, odd_lon: int, zones: int) -> int {
    (even_lon * (zones - 1) - odd_lon * zones + 65536) / 131072
}

/// The angle at the fraction `frac / 131072` of zone `index mod zones`, where
/// `zones` zones of equal width make up 360 degrees.
pub open spec fn zone_angle(zones: int, index: int, frac: int) -> Ratio {
    Ratio { num: 360 * ((index % zones) * 131072 + frac), den: zones * 131072 }
}

/// A latitude from 270 degrees on is a southern one, 360 degrees less.
pub open spec fn southern(lat: Ratio) -> Ratio {
    if lat.at_least(270) {
        Ratio { num: lat.num - 360 * lat.den, den: lat.den }
    } else {
        lat
    }
}

/// A longitude above 180 degrees is a western one, 360 degrees less.
pub open spec fn western(lon: Ratio) -> Ratio {
    if lon.above(180) {
        Ratio { num: lon.num - 360 * lon.den, den: lon.den }
    } else {
        lon
    }
}

/// The latitude that the pair gives to the even report.
pub open spec fn even_latitude(even_lat: int, odd_lat: int) -> Ratio {
    southern(zone_angle(60, latitude_index(even_lat, odd_lat), even_lat))
}

/// The latitude that the pair gives to the odd report.
pub open spec fn odd_latitude(even_lat: int, odd_lat: int) -> Ratio {
    southern(zone_angle(59, latitude_index(even_lat, odd_lat), odd_lat))
}

/// The global position of a pair of reports: none where the two latitudes
/// have different zone counts; otherwise the latitude of the newer report,
/// the odd one where neither is newer, and the longitude of that report in
/// the longitude zone that the two longitude fractions point at.
pub open spec fn global_position_spec(
    even_lat: int,
    even_lon: int,
    odd_lat: int,
    odd_lon: int,
    even_newer: bool,
) -> Option<(Ratio, Ratio)> {
    let rlat_even = even_latitude(even_lat, odd_lat);
    let rlat_odd = odd_latitude(even_lat, odd_lat);
    if zone_count(rlat_even) != zone_count(rlat_odd) {
        None
    } else {
        let lat = if even_newer {
            rlat_even
        } else {
            rlat_odd
        };
        let raw = if even_newer {
            even_lon
        } else {
            odd_lon
        };
        let zones = longitude_zones(lat, !even_newer);
        let m = longitude_index(even_lon, odd_lon, zone_count(lat));
        Some((lat, western(zone_angle(zones, m, raw))))
    }
}

fn recover_latitude(zones: i64, index: i32, frac: u32) -> (lat: Degrees)
    requires
        zones == 59 || zones == 60,
    ensures
        lat.wf(),
        lat@ == southern(zone_angle(zones as int, index as int, frac as int)),
{
    let zone: i64 = cpr_mod(index, zones as i32) as i64;
    let den: i64 = zones * CPR_SCALE;
    let mut num: i64 = 360 * (zone * CPR_SCALE + frac as i64);
    if num >= 270 * den {
        num -= 360 * den;
    }
    Degrees { num, den }
}

/// The global position of a pair of reports, given as their four fractions
/// and whether the even report is the newer one.
pub fn global_position(
    even_lat: u32,
    even_lon: u32,
    odd_lat: u32,
    odd_lon: u32,
    even_newer: bool,
) -> (fix: Option<(Degrees, Degrees)>)
    ensures
        fix is Some <==> zone_count(even_latitude(even_lat as int, odd_lat as int)) == zone_count(
            odd_latitude(even_lat as int, odd_lat as int),
        ),
        match fix {
            Some((lat, lon)) => lat.wf() && lon.wf() && global_position_spec(
                even_lat as int,
                even_lon as int,
                odd_lat as int,
                odd_lon as int,
                even_newer,
            ) == Some((lat@, lon@)),
            None => global_position_spec(
                even_lat as int,
                even_lon as int,
                odd_lat as int,
                odd_lon as int,
                even_newer,
            ) is None,
        },
{
    let j: i64 = floor_div(59 * (even_lat as i64) - 60 * (odd_lat as i64) + 65536, CPR_SCALE);
    let rlat_even = recover_latitude(60, j as i32, even_lat);
    let rlat_odd = recover_latitude(59, j as i32, odd_lat);
    if cpr_nl(rlat_even) != cpr_nl(rlat_odd) {
        return None;
    }
    let (rlat, raw, is_odd) = if even_newer {
        (rlat_even, even_lon, false)
    } else {
        (rlat_odd, odd_lon, true)
    };
    let ni: i64 = cpr_n(rlat, is_odd) as i64;
    let nl: i64 = cpr_nl(rlat) as i64;
    let e: i64 = even_lon as i64;
    let o: i64 = odd_lon as i64;
    assert(0 <= e * (nl - 1) <= 0xffff_ffff * 58 && 0 <= o * nl <= 0xffff_ffff * 59)
        by (nonlinear_arith)
        requires
            0 <= e <= 0xffff_ffff,
            0 <= o <= 0xffff_ffff,
            1 <= nl <= 59,
    ;
    let m: i64 = floor_div(e * (nl - 1) - o * nl + 65536, CPR_SCALE);
    let zone: i64 = cpr_mod(m as i32, ni as i32) as i64;
    let den: i64 = ni * CPR_SCALE;
    let mut num: i64 = 360 * (zone * CPR_SCALE + raw as i64);
    if num > 180 * den {
        num -= 360 * den;
    }
    Some((rlat, Degrees { num, den }))
}

/// The global position that the even and the odd report of `a` decode to.
/// The report received last gives the latitude and the longitude fraction;
/// where both were received at the same time, the odd one does.
pub fn decode_cpr(a: &Aircraft) -> (fix: Option<(Degrees, Degrees)>)
    ensures
        fix is Some <==> zone_count(
            even_latitude(a.even_cprlat as int, a.odd_cprlat as int),
        ) == zone_count(odd_latitude(a.even_cprlat as int, a.odd_cprlat as int)),
        match fix {
            Some((lat, lon)) => lat.wf() && lon.wf() && a.decoded() == Some((lat@, lon@)),
            None => a.decoded() is None,
        },
{
    global_position(
        a.even_cprlat,
        a.even_cprlon,
        a.odd_cprlat,
        a.odd_cprlon,
        a.even_cprtime > a.odd_cprtime,
    )
}

/// Every latitude has between 1 and 59 longitude zones.
pub proof fn law_zone_count_range(lat: Ratio)
    ensures
        1 <= zone_count(lat) <= 59,
{
    lemma_zones_up_to_range(distance_from_equator(lat), lat.den, 59);
}

/// The first `n + 1` transition latitudes are in ascending order.
spec fn ascending_upto(n: int) -> bool
    decreases n,
{
    n <= 0 || (TRANSITION_LATITUDES[n - 1] < TRANSITION_LATITUDES[n] && ascending_upto(n - 1))
}

proof fn lemma_ascending_prefix(n: int, j: int)
    requires
        0 <= j <= n,
        ascending_upto(n),
    ensures
        ascending_upto(j),
    decreases n - j,
{
    if j < n {
        lemma_ascending_prefix(n - 1, j);
    }
}

/// The transition latitudes are in ascending order.
proof fn lemma_transitions_ascend(i: int, j: int)
    requires
        0 <= i <= j <= 57,
    ensures
        TRANSITION_LATITUDES[i] <= TRANSITION_LATITUDES[j],
    decreases j - i,
{
    if i < j {
        assert(ascending_upto(57)) by {
            reveal_with_fuel(ascending_upto, 58);
        }
        lemma_ascending_prefix(57, j);
        lemma_transitions_ascend(i, j - 1);
    }
}

/// Above the transition latitude of `j + 1` zones there are at most `j`.
proof fn lemma_zones_above(x: int, den: int, k: int, j: int)
    requires
        den > 0,
        1 <= j <= k <= 59,
        j < 59 ==> x * 100_000_000 > TRANSITION_LATITUDES[58 - j] * den,
    ensures
        zones_up_to(x, den, k) == zones_up_to(x, den, j),
    decreases k,
{
    if j < k {
        lemma_transitions_ascend(59 - k, 58 - j);
        let here = TRANSITION_LATITUDES[59 - k] as int;
        let bound = TRANSITION_LATITUDES[58 - j] as int;
        assert(here * den <= bound * den) by (nonlinear_arith)
            requires
                here <= bound,
                den > 0,
        ;
        lemma_zones_above(x, den, k - 1, j);
    }
}

/// At the equator there are 59 longitude zones, at 87 degrees there are 2,
/// and from there to the pole there is 1.
pub proof fn law_zone_count_boundaries(lat: Ratio)
    requires
        lat.den > 0,
    ensures
        lat.num == 0 ==> zone_count(lat) == 59,
        lat.num == 87 * lat.den ==> zone_count(lat) == 2,
        lat.above(87) && lat.at_most(90) ==> zone_count(lat) == 1,
{
    let den = lat.den;
    let last = TRANSITION_LATITUDES[57] as int;
    let before = TRANSITION_LATITUDES[56] as int;
    assert(last * den == 8700000000 * den && before * den == 8653536998 * den)
        by (nonlinear_arith)
        requires
            last == 8700000000,
            before == 8653536998,
    ;
    if 0 <= lat.num <= 90 * den {
        vstd::arithmetic::div_mod::lemma_small_mod(lat.num as nat, (180 * den) as nat);
        if lat.num == 87 * den {
            lemma_zones_above(lat.num, den, 59, 2);
        } else if lat.num > 87 * den {
            lemma_zones_above(lat.num, den, 59, 1);
        }
    }
}

/// The zone count is the same north and south of the equator.
pub proof fn law_zone_count_mirrored(lat: Ratio)
    requires
        lat.den > 0,
        lat.at_least(-90),
        lat.at_most(90),
    ensures
        zone_count(Ratio { num: -lat.num, den: lat.den }) == zone_count(lat),
{
    let turn = 180 * lat.den;
    if lat.num > 0 {
        vstd::arithmetic::div_mod::lemma_small_mod(lat.num as nat, turn as nat);
        lemma_fundamental_div_mod_converse(-lat.num, turn, -1, turn - lat.num);
    } else if lat.num < 0 {
        vstd::arithmetic::div_mod::lemma_small_mod((-lat.num) as nat, turn as nat);
        lemma_fundamental_div_mod_converse(lat.num, turn, -1, turn + lat.num);
    }
}

/// A decoded longitude is above -180 degrees and at most 180 degrees,
/// whatever the reports hold, as long as the longitude fractions are 17-bit
/// numbers.
pub proof fn law_longitude_in_range(
    even_lat: int,
    even_lon: int,
    odd_lat: int,
    odd_lon: int,
    even_newer: bool,
)
    requires
        0 <= even_lon < 131072,
        0 <= odd_lon < 131072,
    ensures
        global_position_spec(even_lat, even_lon, odd_lat, odd_lon, even_newer) matches Some(
            (lat, lon),
        ) ==> lon.den > 0 && lon.above(-180) && lon.at_most(180),
{
    let rlat_even = even_latitude(even_lat, odd_lat);
    let rlat_odd = odd_latitude(even_lat, odd_lat);
    let lat = if even_newer {
        rlat_even
    } else {
        rlat_odd
    };
    law_zone_count_range(lat);
    let zones = longitude_zones(lat, !even_newer);
    let m = longitude_index(even_lon, odd_lon, zone_count(lat));
    lemma_mod_bound(m, zones);
}

/// Before it is taken as southern, a decoded latitude is the angle of a
/// latitude zone: this is it, for the report that gives the latitude.
pub open spec fn latitude_zone_angle(even_lat: int, odd_lat: int, even_newer: bool) -> Ratio {
    if even_newer {
        zone_angle(60, latitude_index(even_lat, odd_lat), even_lat)
    } else {
        zone_angle(59, latitude_index(even_lat, odd_lat), odd_lat)
    }
}

/// A decoded latitude is at least -90 degrees and below 270 degrees, as long
/// as the latitude fractions are 17-bit numbers. It is at most 90 degrees
/// exactly when the zone angle it comes from is at most 90 degrees or at
/// least 270 degrees; a pair of fractions whose zone angle lies between the
/// two decodes to a value that is no latitude.
pub proof fn law_latitude_in_range(
    even_lat: int,
    even_lon: int,
    odd_lat: int,
    odd_lon: int,
    even_newer: bool,
)
    requires
        0 <= even_lat < 131072,
        0 <= odd_lat < 131072,
    ensures
        global_position_spec(even_lat, even_lon, odd_lat, odd_lon, even_newer) matches Some(
            (lat, lon),
        ) ==> {
            let angle = latitude_zone_angle(even_lat, odd_lat, even_newer);
            &&& lat.den > 0
            &&& lat.at_least(-90)
            &&& lat.below(270)
            &&& lat.at_most(90) <==> (angle.at_most(90) || angle.at_least(270))
        },
{
    let j = latitude_index(even_lat, odd_lat);
    lemma_mod_bound(j, 60);
    lemma_mod_bound(j, 59);
}

/// The 17-bit fraction that a report with `zones` zones to the full turn
/// holds for `angle`: how far the angle lies into its zone, in 131072ths of
/// the zone, rounded to the nearest, halves upwards.
pub open spec fn zone_fraction(angle: Ratio, zones: int) -> int {
    ((2 * 131072 * ((angle.num * zones) % (360 * angle.den)) + 360 * angle.den) / (720
        * angle.den)) % 131072
}

proof fn lemma_zone_fraction(zones: int, turns: int, frac: int)
    requires
        zones >= 1,
        0 <= frac < 131072,
    ensures
        zone_fraction(
            Ratio { num: 360 * (turns * 131072 + frac), den: zones * 131072 },
            zones,
        ) == frac,
{
    let scale = 131072int;
    let n = turns * scale + frac;
    let step = 360 * zones;
    let full = step * scale;
    let angle = Ratio { num: 360 * n, den: zones * scale };
    assert(step * n == turns * full + step * frac && 0 <= step * frac < full)
        by (nonlinear_arith)
        requires
            n == turns * scale + frac,
            full == step * scale,
            step >= 360,
            0 <= frac < scale,
    ;
    lemma_fundamental_div_mod_converse(step * n, full, turns, step * frac);
    assert(angle.num * zones == step * n) by (nonlinear_arith)
        requires
            angle.num == 360 * n,
            step == 360 * zones,
    ;
    assert(360 * angle.den == full) by (nonlinear_arith)
        requires
            angle.den == zones * scale,
            full == 360 * zones * scale,
    ;
    let rest = (angle.num * zones) % (360 * angle.den);
    assert(rest == step * frac);
    let top = 2 * scale * rest + 360 * angle.den;
    assert(top == frac * (2 * full) + full) by (nonlinear_arith)
        requires
            top == 2 * scale * rest + full,
            rest == step * frac,
            full == step * scale,
    ;
    assert(720 * angle.den == 2 * full);
    assert(0 < full) by (nonlinear_arith)
        requires
            full == 360 * zones * scale,
            zones >= 1,
            scale == 131072,
    ;
    lemma_fundamental_div_mod_converse(top, 2 * full, frac, full);
    vstd::arithmetic::div_mod::lemma_small_mod(frac as nat, 131072);
}

/// A decoded position encodes back to the report that it was taken from: the
/// latitude lies at the latitude fraction of the newer report in its zone,
/// and the longitude at its longitude fraction.
pub proof fn law_position_encodes_back(
    even_lat: int,
    even_lon: int,
    odd_lat: int,
    odd_lon: int,
    even_newer: bool,
)
    requires
        0 <= even_lat < 131072,
        0 <= even_lon < 131072,
        0 <= odd_lat < 131072,
        0 <= odd_lon < 131072,
    ensures
        global_position_spec(even_lat, even_lon, odd_lat, odd_lon, even_newer) matches Some(
            (lat, lon),
        ) ==> if even_newer {
            &&& zone_fraction(lat, 60) == even_lat
            &&& zone_fraction(lon, longitude_zones(lat, false)) == even_lon
        } else {
            &&& zone_fraction(lat, 59) == odd_lat
            &&& zone_fraction(lon, longitude_zones(lat, true)) == odd_lon
        },
{
    let j = latitude_index(even_lat, odd_lat);
    if global_position_spec(even_lat, even_lon, odd_lat, odd_lon, even_newer) is Some {
        let (zones, frac) = if even_newer {
            (60int, even_lat)
        } else {
            (59int, odd_lat)
        };
        let raw = if even_newer {
            even_lon
        } else {
            odd_lon
        };
        let angle = zone_angle(zones, j, frac);
        let lat = southern(angle);
        lemma_zone_fraction(zones, j % zones, frac);
        lemma_zone_fraction(zones, j % zones - zones, frac);
        law_zone_count_range(lat);
        let ni = longitude_zones(lat, !even_newer);
        let m = longitude_index(even_lon, odd_lon, zone_count(lat));
        let lon = zone_angle(ni, m, raw);
        lemma_zone_fraction(ni, m % ni, raw);
        lemma_zone_fraction(ni, m % ni - ni, raw);
        assert(360 * ((m % ni - ni) * 131072 + raw) == lon.num - 360 * lon.den)
            by (nonlinear_arith)
            requires
                lon.num == 360 * ((m % ni) * 131072 + raw),
                lon.den == ni * 131072,
        ;
    }
}

} // verus!

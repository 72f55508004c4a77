use stribog::aircraft::{Aircraft, Icao};
use stribog::angle::Degrees;
use stribog::cpr::{cpr_dlon, cpr_mod, cpr_n, cpr_nl, decode_cpr, global_position};

fn degrees(angle: Degrees) -> f64 {
    angle.num as f64 / angle.den as f64
}

fn same_fraction(angle: Degrees, num: i128, den: i128) -> bool {
    angle.den > 0 && angle.num as i128 * den == num * angle.den as i128
}

#[test]
fn test_cpr_nl() {
    assert_eq!(cpr_nl(Degrees { num: 5, den: 1 }), 59);
    assert_eq!(cpr_nl(Degrees { num: 50, den: 1 }), 38);
    assert_eq!(cpr_nl(Degrees { num: 866, den: 10 }), 2);
    assert_eq!(cpr_nl(Degrees { num: 88, den: 1 }), 1);
}

#[test]
fn zone_count_at_the_boundaries() {
    assert_eq!(cpr_nl(Degrees { num: 0, den: 1 }), 59);
    assert_eq!(cpr_nl(Degrees { num: 87, den: 1 }), 2);
    assert_eq!(cpr_nl(Degrees { num: 87001, den: 1000 }), 1);
    assert_eq!(cpr_nl(Degrees { num: 90, den: 1 }), 1);
    assert_eq!(cpr_nl(Degrees { num: -87, den: 1 }), 2);
    assert_eq!(cpr_nl(Degrees { num: -87001, den: 1000 }), 1);
}

#[test]
fn zone_count_changes_at_each_transition_latitude() {
    assert_eq!(cpr_nl(Degrees { num: 1047047130, den: 100_000_000 }), 59);
    assert_eq!(cpr_nl(Degrees { num: 1047047131, den: 100_000_000 }), 58);
    assert_eq!(cpr_nl(Degrees { num: 8653536998, den: 100_000_000 }), 3);
    assert_eq!(cpr_nl(Degrees { num: 8653536999, den: 100_000_000 }), 2);
    assert_eq!(cpr_nl(Degrees { num: 8700000001, den: 100_000_000 }), 1);
}

#[test]
fn zone_count_is_mirrored_and_repeats_every_half_turn() {
    for tenth in 0..900i64 {
        let north = cpr_nl(Degrees { num: tenth, den: 10 });
        assert!((1..=59).contains(&north));
        assert_eq!(cpr_nl(Degrees { num: -tenth, den: 10 }), north);
        assert_eq!(cpr_nl(Degrees { num: 1800 - tenth, den: 10 }), north);
        assert_eq!(cpr_nl(Degrees { num: 1800 + tenth, den: 10 }), north);
    }
}

#[test]
fn zone_count_does_not_depend_on_how_the_fraction_is_written() {
    assert_eq!(cpr_nl(Degrees { num: 100, den: 2 }), 38);
    assert_eq!(cpr_nl(Degrees { num: 50 * 7_864_320, den: 7_864_320 }), 38);
    assert_eq!(cpr_nl(Degrees { num: i64::MAX, den: i64::MAX }), 59);
    assert_eq!(cpr_nl(Degrees { num: i64::MIN, den: 1 }), cpr_nl(Degrees { num: 8, den: 1 }));
}

#[test]
fn cpr_mod_is_never_negative() {
    assert_eq!(cpr_mod(7, 60), 7);
    assert_eq!(cpr_mod(-1, 60), 59);
    assert_eq!(cpr_mod(-60, 60), 0);
    assert_eq!(cpr_mod(-61, 59), 57);
    assert_eq!(cpr_mod(i32::MIN, 59), 4);
    assert_eq!(cpr_mod(i32::MAX, 1), 0);
}

#[test]
fn longitude_zones_never_fall_below_one() {
    let mid = Degrees { num: 50, den: 1 };
    assert_eq!(cpr_n(mid, false), 38);
    assert_eq!(cpr_n(mid, true), 37);
    let pole = Degrees { num: 89, den: 1 };
    assert_eq!(cpr_n(pole, false), 1);
    assert_eq!(cpr_n(pole, true), 1);
}

#[test]
fn zone_width_is_a_full_turn_over_the_zones() {
    let width = cpr_dlon(Degrees { num: 50, den: 1 }, true);
    assert_eq!((width.num, width.den), (360, 37));
    let width = cpr_dlon(Degrees { num: 0, den: 1 }, false);
    assert_eq!((width.num, width.den), (360, 59));
}

#[test]
fn cpr_pair_decode_with_the_even_report_newer() {
    let (lat, lon) = global_position(93000, 51372, 74158, 50194, true).unwrap();
    assert!(same_fraction(lat, 428091, 8192));
    assert!(same_fraction(lon, 64215, 16384));
    assert!((degrees(lat) - 52.2572).abs() < 0.001);
    assert!((degrees(lon) - 3.9192).abs() < 0.001);
}

#[test]
fn cpr_pair_decode_with_the_odd_report_newer() {
    let (lat, lon) = global_position(93000, 51372, 74158, 50194, false).unwrap();
    assert!(same_fraction(lat, 25261515, 483328));
    assert!(same_fraction(lon, 225873, 57344));
    assert!((degrees(lat) - 52.26578).abs() < 0.00001);
    assert!((degrees(lon) - 3.93891).abs() < 0.00001);
}

#[test]
fn cpr_pair_is_rejected_across_a_zone_boundary() {
    assert!(global_position(64988, 5, 72465, 7, true).is_none());
    assert!(global_position(64988, 5, 72465, 7, false).is_none());
    assert!(global_position(13668, 5, 42039, 7, true).is_none());
    assert!(global_position(31837, 5, 4949, 7, false).is_none());
}

#[test]
fn decoded_longitude_is_west_of_the_date_line_and_not_beyond() {
    let (_, lon) = global_position(1, 131071, 1, 1, true).unwrap();
    assert!(same_fraction(lon, -45, 966656));
    let (_, lon) = global_position(1, 1, 1, 131071, false).unwrap();
    assert!(same_fraction(lon, -45, 950272));
    let mut seed: u32 = 12345;
    let mut next = || {
        seed = seed.wrapping_mul(1664525).wrapping_add(1013904223);
        (seed >> 8) % 131072
    };
    for _ in 0..20000 {
        let (a, b, c, d) = (next(), next(), next(), next());
        for even_newer in [false, true] {
            if let Some((lat, lon)) = global_position(a, b, c, d, even_newer) {
                assert!(lon.den > 0 && lat.den > 0);
                assert!(lon.num > -180 * lon.den && lon.num <= 180 * lon.den);
                assert!(lat.num >= -90 * lat.den && lat.num < 270 * lat.den);
            }
        }
    }
}

#[test]
fn latitude_fractions_of_no_real_pair_decode_beyond_the_pole() {
    let (lat, _) = global_position(131071, 1000, 65536, 1000, false).unwrap();
    assert!(same_fraction(lat, 180, 1));
    let (lat, _) = global_position(131071, 1000, 65536, 1000, true).unwrap();
    assert!(same_fraction(lat, 11796477, 65536));
}

#[test]
fn decode_cpr_takes_the_newer_report_and_the_odd_one_on_a_tie() {
    let mut a = Aircraft::new(Icao::new(0x40621D), 0);
    a.even_cprlat = 93000;
    a.even_cprlon = 51372;
    a.odd_cprlat = 74158;
    a.odd_cprlon = 50194;
    a.even_cprtime = 2000;
    a.odd_cprtime = 1000;
    let (lat, lon) = decode_cpr(&a).unwrap();
    assert!(same_fraction(lat, 428091, 8192));
    assert!(same_fraction(lon, 64215, 16384));
    a.odd_cprtime = 3000;
    let (lat, lon) = decode_cpr(&a).unwrap();
    assert!(same_fraction(lat, 25261515, 483328));
    assert!(same_fraction(lon, 225873, 57344));
    a.odd_cprtime = 2000;
    let (lat, _) = decode_cpr(&a).unwrap();
    assert!(same_fraction(lat, 25261515, 483328));
}

fn zone_fraction(angle: Degrees, zones: i128) -> i128 {
    let (num, den) = (angle.num as i128, angle.den as i128);
    let rest = (num * zones).rem_euclid(360 * den);
    ((2 * 131072 * rest + 360 * den).div_euclid(720 * den)).rem_euclid(131072)
}

#[test]
fn decoded_position_encodes_back_to_the_newer_report() {
    let (lat, lon) = global_position(93000, 51372, 74158, 50194, true).unwrap();
    assert_eq!(zone_fraction(lat, 60), 93000);
    assert_eq!(zone_fraction(lon, cpr_n(lat, false) as i128), 51372);
    let (lat, lon) = global_position(93000, 51372, 74158, 50194, false).unwrap();
    assert_eq!(zone_fraction(lat, 59), 74158);
    assert_eq!(zone_fraction(lon, cpr_n(lat, true) as i128), 50194);
    let mut seed: u32 = 99;
    let mut next = || {
        seed = seed.wrapping_mul(1664525).wrapping_add(1013904223);
        (seed >> 8) % 131072
    };
    let mut decoded = 0;
    for _ in 0..5000 {
        let (a, b, c, d) = (next(), next(), next(), next());
        if let Some((lat, lon)) = global_position(a, b, c, d, true) {
            assert_eq!(zone_fraction(lat, 60), a as i128);
            assert_eq!(zone_fraction(lon, cpr_n(lat, false) as i128), b as i128);
            decoded += 1;
        }
        if let Some((lat, lon)) = global_position(a, b, c, d, false) {
            assert_eq!(zone_fraction(lat, 59), c as i128);
            assert_eq!(zone_fraction(lon, cpr_n(lat, true) as i128), d as i128);
        }
    }
    assert!(decoded > 1000);
}

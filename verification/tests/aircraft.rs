use stribog::aircraft::{
    Aircraft, Altitude, Icao, LATEST_POINT_RADIUS, PAIRING_WINDOW_MS, POINT_RADIUS,
};
use stribog::angle::Degrees;

fn same_fraction(angle: Degrees, num: i128, den: i128) -> bool {
    angle.den > 0 && angle.num as i128 * den == num * angle.den as i128
}

fn with_pair(even_time: u64, odd_time: u64) -> Aircraft {
    let mut a = Aircraft::new(Icao::new(0x40621D), 0);
    a.even_cprlat = 93000;
    a.even_cprlon = 51372;
    a.even_cprtime = even_time;
    a.odd_cprlat = 74158;
    a.odd_cprlon = 50194;
    a.odd_cprtime = odd_time;
    a
}

#[test]
fn icao_keeps_its_number() {
    assert_eq!(Icao::new(0).get(), 0);
    assert_eq!(Icao::new(0x4840D6).get(), 0x4840D6);
    assert_eq!(Icao::new(0xFF_FFFF).get(), 0xFF_FFFF);
    assert_eq!(Icao::new(7), Icao::new(7));
    assert_ne!(Icao::new(7), Icao::new(8));
}

#[test]
fn icao_reads_as_six_upper_case_hex_digits() {
    assert_eq!(Icao::new(0x4840D6).to_hex(), "4840D6");
    assert_eq!(Icao::new(0).to_hex(), "000000");
    assert_eq!(Icao::new(0xABCDEF).to_hex(), "ABCDEF");
    assert_eq!(Icao::new(0x00009A).to_hex(), "00009A");
    assert_eq!(Icao::new(0xFF_FFFF).to_hex(), "FFFFFF");
}

#[test]
fn altitude_in_feet() {
    assert_eq!(Altitude::Feet(9000).to_feet(), Altitude::Feet(9000));
    assert_eq!(Altitude::Meters(0).to_feet(), Altitude::Feet(0));
    assert_eq!(Altitude::Meters(1).to_feet(), Altitude::Feet(3));
    assert_eq!(Altitude::Meters(1000).to_feet(), Altitude::Feet(3280));
    assert_eq!(Altitude::Meters(100_000).to_feet(), Altitude::Feet(328_084));
    assert_eq!(Altitude::Meters(u32::MAX).to_feet(), Altitude::Feet(u32::MAX));
}

#[test]
fn altitude_in_metres() {
    assert_eq!(Altitude::Meters(1200).to_meters(), Altitude::Meters(1200));
    assert_eq!(Altitude::Feet(0).to_meters(), Altitude::Meters(0));
    assert_eq!(Altitude::Feet(3).to_meters(), Altitude::Meters(0));
    assert_eq!(Altitude::Feet(9000).to_meters(), Altitude::Meters(2743));
    assert_eq!(Altitude::Feet(328_084).to_meters(), Altitude::Meters(100_000));
    assert_eq!(Altitude::Feet(u32::MAX).to_meters(), Altitude::Meters(1_309_105_989));
}

#[test]
fn new_record_holds_the_address_and_nothing_else() {
    let a = Aircraft::new(Icao::new(0x4840D6), 77);
    assert_eq!(a.icao, Icao::new(0x4840D6));
    assert!(a.callsign.is_none());
    assert_eq!((a.even_cprlat, a.even_cprlon, a.even_cprtime), (0, 0, 77));
    assert_eq!((a.odd_cprlat, a.odd_cprlon, a.odd_cprtime), (0, 0, 77));
    assert!(a.altitude.is_none());
    assert!(a.position.is_none());
    assert!(a.latlong().is_none());
    assert_eq!(a.last_pos_update, 77);
    assert!(a.position_interpolated.is_none());
    assert!(a.path.is_empty());
    assert!(a.velocity_kts.is_none());
}

#[test]
fn update_latlong_decodes_a_fresh_pair() {
    let mut a = with_pair(2000, 1000);
    a.update_latlong(2500);
    let (lat, lon) = a.latlong().unwrap();
    assert!(same_fraction(lat, 428091, 8192));
    assert!(same_fraction(lon, 64215, 16384));
    assert_eq!(a.path.len(), 1);
    assert!(same_fraction(a.path[0].0, 428091, 8192));
    let (ilat, ilon) = a.position_interpolated.unwrap();
    assert_eq!((ilat.num, ilat.den, ilon.num, ilon.den), (lat.num, lat.den, lon.num, lon.den));
    assert_eq!(a.last_pos_update, 2500);
}

#[test]
fn update_latlong_accepts_ten_seconds_and_no_more() {
    let mut a = with_pair(PAIRING_WINDOW_MS, 0);
    a.update_latlong(1);
    assert!(a.latlong().is_some());
    let mut a = with_pair(0, PAIRING_WINDOW_MS);
    a.update_latlong(1);
    assert!(a.latlong().is_some());
    let mut a = with_pair(PAIRING_WINDOW_MS + 1, 0);
    a.update_latlong(1);
    assert!(a.latlong().is_none());
    assert!(a.path.is_empty());
    assert_eq!(a.last_pos_update, 0);
    let mut a = with_pair(5, PAIRING_WINDOW_MS + 6);
    a.update_latlong(1);
    assert!(a.latlong().is_none());
    let mut a = with_pair(0, u64::MAX);
    a.update_latlong(1);
    assert!(a.latlong().is_none());
}

#[test]
fn update_latlong_waits_for_all_four_fractions() {
    for missing in 0..4 {
        let mut a = with_pair(2000, 1000);
        match missing {
            0 => a.even_cprlat = 0,
            1 => a.even_cprlon = 0,
            2 => a.odd_cprlat = 0,
            _ => a.odd_cprlon = 0,
        }
        a.update_latlong(3000);
        assert!(a.latlong().is_none());
        assert!(a.path.is_empty());
    }
    let mut a = Aircraft::new(Icao::new(1), 0);
    a.update_latlong(1);
    assert!(a.latlong().is_none());
}

#[test]
fn update_latlong_keeps_the_position_when_the_zones_disagree() {
    let mut a = with_pair(2000, 1000);
    a.update_latlong(2500);
    let before = a.latlong().unwrap();
    a.even_cprlat = 64988;
    a.odd_cprlat = 72465;
    a.update_latlong(2600);
    let after = a.latlong().unwrap();
    assert_eq!((after.0.num, after.0.den), (before.0.num, before.0.den));
    assert_eq!(a.path.len(), 1);
    assert_eq!(a.last_pos_update, 2500);
}

#[test]
fn path_grows_at_its_end_only() {
    let mut a = with_pair(2000, 1000);
    a.update_latlong(2500);
    a.store_report(true, 74158, 50194, Altitude::Feet(100), 3000);
    a.store_report(false, 93000, 51372, Altitude::Feet(200), 4000);
    assert_eq!(a.path.len(), 3);
    assert!(same_fraction(a.path[0].0, 428091, 8192));
    assert!(same_fraction(a.path[1].0, 25261515, 483328));
    assert!(same_fraction(a.path[2].0, 428091, 8192));
    assert_eq!(a.last_pos_update, 4000);
    assert_eq!(a.altitude, Some(Altitude::Feet(200)));
}

#[test]
fn store_report_fills_the_place_of_its_kind() {
    let mut a = Aircraft::new(Icao::new(0x40621D), 10);
    a.store_report(false, 93000, 51372, Altitude::Feet(38000), 1000);
    assert_eq!((a.even_cprlat, a.even_cprlon, a.even_cprtime), (93000, 51372, 1000));
    assert_eq!((a.odd_cprlat, a.odd_cprlon, a.odd_cprtime), (0, 0, 10));
    assert_eq!(a.altitude, Some(Altitude::Feet(38000)));
    assert!(a.latlong().is_none());
    a.store_report(true, 74158, 50194, Altitude::Meters(11000), 2000);
    assert_eq!((a.odd_cprlat, a.odd_cprlon, a.odd_cprtime), (74158, 50194, 2000));
    assert_eq!((a.even_cprlat, a.even_cprlon, a.even_cprtime), (93000, 51372, 1000));
    assert_eq!(a.altitude, Some(Altitude::Meters(11000)));
    let (lat, _) = a.latlong().unwrap();
    assert!(same_fraction(lat, 25261515, 483328));
    assert_eq!(a.last_pos_update, 2000);
}

#[test]
fn set_callsign_changes_the_callsign_only() {
    let mut a = with_pair(2000, 1000);
    a.set_callsign(String::from("KLM1023"));
    assert_eq!(a.callsign.as_deref(), Some("KLM1023"));
    assert_eq!(a.even_cprlat, 93000);
    assert!(a.path.is_empty());
    a.set_callsign(String::from("BAW12"));
    assert_eq!(a.callsign.as_deref(), Some("BAW12"));
}

#[test]
fn track_update_of_a_new_record() {
    let a = Aircraft::new(Icao::new(0x00BEEF), 0);
    let update = a.track_update();
    assert_eq!(update.entity_path, "world/plane/00BEEF");
    assert!(update.points.is_empty());
    assert!(update.radii.is_empty());
    assert_eq!(update.callsign, "pending");
    assert!(update.velocity_kts.is_none());
    assert!(update.latlong.is_none());
}

#[test]
fn track_update_ends_with_the_interpolated_position() {
    let mut a = with_pair(2000, 1000);
    a.update_latlong(2500);
    a.store_report(true, 74158, 50194, Altitude::Feet(100), 3000);
    a.set_callsign(String::from("KLM1023"));
    a.velocity_kts = Some((-120, 340));
    let update = a.track_update();
    assert_eq!(update.entity_path, "world/plane/40621D");
    assert_eq!(update.points.len(), 3);
    assert_eq!(update.radii, [POINT_RADIUS, POINT_RADIUS, LATEST_POINT_RADIUS]);
    assert_eq!(update.radii, [5, 5, 10]);
    assert!(same_fraction(update.points[0].0, 428091, 8192));
    assert!(same_fraction(update.points[1].0, 25261515, 483328));
    assert!(same_fraction(update.points[2].0, 25261515, 483328));
    assert_eq!(update.callsign, "KLM1023");
    assert_eq!(update.velocity_kts, Some((-120, 340)));
    assert!(same_fraction(update.latlong.unwrap().1, 225873, 57344));
}

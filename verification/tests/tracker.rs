use stribog::adsb::Message;
use stribog::aircraft::{Altitude, Icao};
use stribog::angle::Degrees;
use stribog::tracker::{route, Registry, Route};

const IDENT: [u8; 14] =
    [0x8D, 0x48, 0x40, 0xD6, 0x20, 0x2C, 0xC3, 0x71, 0xC3, 0x2C, 0xE0, 0x57, 0x60, 0x98];
const EVEN: [u8; 14] =
    [0x8D, 0x40, 0x62, 0x1D, 0x58, 0xC3, 0x82, 0xD6, 0x90, 0xC8, 0xAC, 0x28, 0x63, 0xA7];
const ODD: [u8; 14] =
    [0x8D, 0x40, 0x62, 0x1D, 0x58, 0xC3, 0x86, 0x43, 0x5C, 0xC4, 0x12, 0x69, 0x2A, 0xD6];
const ALL_CALL: [u8; 14] =
    [0x5D, 0x48, 0x40, 0xD6, 0xF8, 0x74, 0x0F, 0x00, 0x00, 0x00, 0x00, 0x00, 0x00, 0x00];

fn same_fraction(angle: Degrees, num: i128, den: i128) -> bool {
    angle.den > 0 && angle.num as i128 * den == num * angle.den as i128
}

fn with_format(frame: &[u8; 14], format: u8) -> [u8; 14] {
    let mut out = *frame;
    out[0] = format << 3 | out[0] & 7;
    out
}

#[test]
fn route_reads_the_address_of_an_all_call_reply() {
    match route(&ALL_CALL) {
        Route::AllCall { icao } => assert_eq!(icao, Icao::new(0x4840D6)),
        other => panic!("{:?}", other),
    }
}

#[test]
fn route_reads_the_payload_of_an_extended_squitter() {
    match route(&IDENT) {
        Route::ExtendedSquitter { icao, message: Message::Identification { callsign, .. } } => {
            assert_eq!(icao.get(), 0x4840D6);
            assert_eq!(callsign, "KLM1023");
        }
        other => panic!("{:?}", other),
    }
    match route(&with_format(&EVEN, 18)) {
        Route::ExtendedSquitter {
            icao,
            message: Message::AirbornePosition { latitude, longitude, odd, .. },
        } => {
            assert_eq!(icao.get(), 0x40621D);
            assert_eq!((latitude, longitude, odd), (93000, 51372, false));
        }
        other => panic!("{:?}", other),
    }
}

#[test]
fn route_leaves_every_other_format_unread() {
    for format in 0..32u8 {
        let routed = route(&with_format(&IDENT, format));
        match format {
            11 => assert!(matches!(routed, Route::AllCall { .. })),
            17 | 18 => assert!(matches!(routed, Route::ExtendedSquitter { .. })),
            _ => match routed {
                Route::Unhandled { downlink_format } => assert_eq!(downlink_format, format),
                other => panic!("{:?}", other),
            },
        }
    }
}

#[test]
fn registry_starts_empty() {
    let registry = Registry::new();
    assert_eq!(registry.len(), 0);
    assert!(registry.get(Icao::new(0x4840D6)).is_none());
}

#[test]
fn unhandled_formats_leave_the_registry_alone() {
    let mut registry = Registry::new();
    for format in [0u8, 4, 5, 16, 19, 20, 21, 24, 31] {
        assert!(registry.ingest(&with_format(&IDENT, format), 5).is_none());
    }
    assert_eq!(registry.len(), 0);
}

#[test]
fn all_call_reply_makes_the_record_once() {
    let mut registry = Registry::new();
    let report = registry.ingest(&ALL_CALL, 100).unwrap();
    assert_eq!(report.icao, Icao::new(0x4840D6));
    assert!(report.created);
    assert!(report.message.is_none());
    assert!(report.log_line.is_none());
    assert!(report.publish);
    assert_eq!(registry.len(), 1);
    let record = registry.get(Icao::new(0x4840D6)).unwrap();
    assert_eq!(record.icao, Icao::new(0x4840D6));
    assert_eq!(record.even_cprtime, 100);
    assert!(record.callsign.is_none());

    let report = registry.ingest(&ALL_CALL, 200).unwrap();
    assert!(!report.created);
    assert!(!report.publish);
    assert_eq!(registry.len(), 1);
    assert_eq!(registry.get(Icao::new(0x4840D6)).unwrap().even_cprtime, 100);
}

#[test]
fn identification_sets_the_callsign_and_logs_it() {
    let mut registry = Registry::new();
    let report = registry.ingest(&IDENT, 100).unwrap();
    assert!(report.created);
    assert!(report.publish);
    assert_eq!(report.log_line.as_deref(), Some("Craft 4840D6 updated callsign to KLM1023"));
    assert!(matches!(report.message, Some(Message::Identification { .. })));
    let record = registry.get(Icao::new(0x4840D6)).unwrap();
    assert_eq!(record.callsign.as_deref(), Some("KLM1023"));
    assert!(record.latlong().is_none());

    let report = registry.ingest(&IDENT, 300).unwrap();
    assert!(!report.created);
    assert!(report.publish);
    assert_eq!(registry.len(), 1);
}

#[test]
fn a_pair_of_positions_gives_the_position() {
    let mut registry = Registry::new();
    let report = registry.ingest(&ODD, 1000).unwrap();
    assert!(report.created && report.publish && report.log_line.is_none());
    assert!(registry.get(Icao::new(0x40621D)).unwrap().latlong().is_none());

    registry.ingest(&EVEN, 2000).unwrap();
    let record = registry.get(Icao::new(0x40621D)).unwrap();
    let (lat, lon) = record.latlong().unwrap();
    assert!(same_fraction(lat, 428091, 8192));
    assert!(same_fraction(lon, 64215, 16384));
    assert_eq!(record.path.len(), 1);
    assert_eq!(record.last_pos_update, 2000);
    assert_eq!(record.altitude, Some(Altitude::Feet(104000)));

    registry.ingest(&ODD, 2500).unwrap();
    let record = registry.get(Icao::new(0x40621D)).unwrap();
    let (lat, _) = record.latlong().unwrap();
    assert!(same_fraction(lat, 25261515, 483328));
    assert_eq!(record.path.len(), 2);
    assert!(same_fraction(record.path[0].0, 428091, 8192));
    assert!(same_fraction(record.path[1].0, 25261515, 483328));
}

#[test]
fn a_stale_pair_gives_no_position() {
    let mut registry = Registry::new();
    registry.ingest(&ODD, 1000).unwrap();
    registry.ingest(&EVEN, 11_001).unwrap();
    assert!(registry.get(Icao::new(0x40621D)).unwrap().latlong().is_none());
    registry.ingest(&ODD, 21_001).unwrap();
    let record = registry.get(Icao::new(0x40621D)).unwrap();
    assert!(record.latlong().is_some());
    assert_eq!(record.path.len(), 1);
}

#[test]
fn each_aircraft_has_its_own_record() {
    let mut registry = Registry::new();
    registry.ingest(&IDENT, 1).unwrap();
    registry.ingest(&EVEN, 2).unwrap();
    registry.ingest(&ODD, 3).unwrap();
    assert_eq!(registry.len(), 2);
    let klm = registry.get(Icao::new(0x4840D6)).unwrap();
    assert_eq!(klm.callsign.as_deref(), Some("KLM1023"));
    assert!(klm.latlong().is_none());
    assert_eq!(klm.even_cprlat, 0);
    let other = registry.get(Icao::new(0x40621D)).unwrap();
    assert!(other.callsign.is_none());
    assert!(other.latlong().is_some());
}

#[test]
fn payloads_that_are_not_read_write_nothing() {
    let mut velocity = EVEN;
    velocity[4] = 19 << 3;
    let mut registry = Registry::new();
    let report = registry.ingest(&velocity, 9).unwrap();
    assert!(report.created && report.publish);
    assert!(matches!(report.message, Some(Message::Velocity)));
    let report = registry.ingest(&velocity, 10).unwrap();
    assert!(!report.created && !report.publish);
    let mut status = EVEN;
    status[4] = 28 << 3;
    let report = registry.ingest(&status, 11).unwrap();
    assert!(!report.publish);
    assert!(matches!(report.message, Some(Message::Other { type_code: 28 })));
    let record = registry.get(Icao::new(0x40621D)).unwrap();
    assert_eq!(record.even_cprlat, 0);
    assert!(record.velocity_kts.is_none());
    assert!(record.altitude.is_none());
}

#[test]
fn format_and_address_are_the_leading_bit_fields() {
    for frame in [IDENT, EVEN, ODD, ALL_CALL] {
        let mut reader = stribog::bitreader::BitReader::new(&frame);
        let format = reader.read_bits(5);
        reader.read_bits(3);
        let address = reader.read_bits(24);
        match route(&frame) {
            Route::AllCall { icao } => assert_eq!((format, icao.get()), (11, address)),
            Route::ExtendedSquitter { icao, .. } => assert_eq!((format, icao.get()), (17, address)),
            other => panic!("{:?}", other),
        }
    }
}

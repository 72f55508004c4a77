//! What is known of one aircraft: identity, the latest even and odd position
//! reports, the position decoded from them, and the path flown so far.

use crate::angle::{Degrees, Ratio};
use crate::cpr::{decode_cpr, global_position_spec};
use vstd::prelude::*;
use vstd::string::StringExecFns;

verus! {

/// The longest time, in milliseconds, that may lie between an even and an odd
/// report that are decoded together.
pub const PAIRING_WINDOW_MS: u64 = 10_000;

/// Taken on trust, not proved here: `String::push` of the standard library
/// appends `c` to the string, so that the characters after the call are those
/// before it, followed by `c`.
pub assume_specification[ String::push ](s: &mut String, c: char)
    ensures
        final(s)@ == old(s)@.push(c),
;

/// The 24-bit address of an aircraft.
#[derive(Clone, Copy, Debug, Hash, PartialEq, Eq, Structural)]
pub struct Icao(u32);

/// The upper-case hexadecimal digit of `n`, for `n` below 16.
pub open spec fn hex_digit(n: int) -> char {
    if n < 10 {
        (48 + n) as char
    } else {
        (55 + n) as char
    }
}

/// The six hexadecimal digits of a 24-bit `value`, the most significant
/// first.
pub open spec fn hex6(value: int) -> Seq<char> {
    seq![
        hex_digit(value / 0x10_0000 % 16),
        hex_digit(value / 0x1_0000 % 16),
        hex_digit(value / 0x1000 % 16),
        hex_digit(value / 0x100 % 16),
        hex_digit(value / 0x10 % 16),
        hex_digit(value % 16),
    ]
}

fn hex_char(n: u32) -> (c: char)
    requires
        n < 16,
    ensures
        c == hex_digit(n as int),
{
    match n {
        0 => '0',
        1 => '1',
        2 => '2',
        3 => '3',
        4 => '4',
        5 => '5',
        6 => '6',
        7 => '7',
        8 => '8',
        9 => '9',
        10 => 'A',
        11 => 'B',
        12 => 'C',
        13 => 'D',
        14 => 'E',
        _ => 'F',
    }
}

fn push_hex6(s: &mut String, value: u32)
    requires
        value <= 0xFF_FFFF,
    ensures
        final(s)@ == old(s)@ + hex6(value as int),
{
    s.push(hex_char(value / 0x10_0000 % 16));
    s.push(hex_char(value / 0x1_0000 % 16));
    s.push(hex_char(value / 0x1000 % 16));
    s.push(hex_char(value / 0x100 % 16));
    s.push(hex_char(value / 0x10 % 16));
    s.push(hex_char(value % 16));
    assert(s@ =~= old(s)@ + hex6(value as int));
}

impl Icao {
    /// The address as a number, below `2^24`.
    pub closed spec fn value(&self) -> int {
        self.0 as int
    }

    /// Every address is a 24-bit number.
    #[verifier::type_invariant]
    pub closed spec fn in_range(&self) -> bool {
        self.0 <= 0xFF_FFFF
    }

    /// The address `value`, which must be a 24-bit number.
    pub fn new(value: u32) -> (icao: Self)
        requires
            value <= 0xFF_FFFF,
        ensures
            icao.value() == value,
    {
        Icao(value)
    }

    /// The address as a number.
    pub fn get(&self) -> (value: u32)
        ensures
            value == self.value(),
            value <= 0xFF_FFFF,
    {
        proof {
            use_type_invariant(self);
        }
        self.0
    }

    /// The address as six upper-case hexadecimal digits.
    pub fn to_hex(&self) -> (text: String)
        ensures
            text@ == hex6(self.value()),
    {
        proof {
            use_type_invariant(self);
        }
        let mut text = String::new();
        push_hex6(&mut text, self.0);
        text
    }
}

/// An address is its number: two addresses with the same number are equal.
pub proof fn lemma_address_by_value(a: Icao, b: Icao)
    requires
        a.value() == b.value(),
    ensures
        a == b,
{
}

/// An altitude in the unit in which it was received: barometric altitudes
/// come in feet, GNSS heights in metres.
#[derive(Clone, Copy, Debug, PartialEq, Eq, Structural)]
pub enum Altitude {
    Feet(u32),
    Meters(u32),
}

/// `meters` in feet, at 3.28084 feet to the metre, rounded down.
pub open spec fn meters_to_feet(meters: int) -> int {
    meters * 328084 / 100000
}

/// `feet` in metres, at 3.28084 feet to the metre, rounded down.
pub open spec fn feet_to_meters(feet: int) -> int {
    feet * 100000 / 328084
}

impl Altitude {
    /// The altitude in feet. What does not fit is the largest value that does.
    pub fn to_feet(self) -> (feet: Self)
        ensures
            match self {
                Altitude::Feet(f) => feet == Altitude::Feet(f),
                Altitude::Meters(m) => feet == Altitude::Feet(
                    if meters_to_feet(m as int) > u32::MAX {
                        u32::MAX
                    } else {
                        meters_to_feet(m as int) as u32
                    },
                ),
            },
    {
        match self {
            Altitude::Feet(feet) => Altitude::Feet(feet),
            Altitude::Meters(meters) => {
                let feet: u64 = meters as u64 * 328084 / 100000;
                if feet > u32::MAX as u64 {
                    Altitude::Feet(u32::MAX)
                } else {
                    Altitude::Feet(feet as u32)
                }
            },
        }
    }

    /// The altitude in metres.
    pub fn to_meters(self) -> (meters: Self)
        ensures
            match self {
                Altitude::Feet(f) => meters == Altitude::Meters(feet_to_meters(f as int) as u32),
                Altitude::Meters(m) => meters == Altitude::Meters(m),
            },
            self matches Altitude::Feet(f) ==> feet_to_meters(f as int) <= f,
    {
        match self {
            Altitude::Feet(feet) => Altitude::Meters((feet as u64 * 100000 / 328084) as u32),
            Altitude::Meters(meters) => Altitude::Meters(meters),
        }
    }
}

/// A position: latitude, then longitude.
pub type LatLon = (Degrees, Degrees);

/// A position as contracts speak of it.
pub open spec fn latlon_view(p: LatLon) -> (Ratio, Ratio) {
    (p.0@, p.1@)
}

/// The radius, in points of the display, of a point of a track.
pub const POINT_RADIUS: u32 = 5;

/// The radius of the latest point of a track.
pub const LATEST_POINT_RADIUS: u32 = 10;

/// The path under which the track of the aircraft with this address is
/// published.
pub open spec fn entity_path_of(address: int) -> Seq<char> {
    "world/plane/"@ + hex6(address)
}

/// What is published of an aircraft: where, the points of its track with
/// their radii, and what is known of it besides.
#[derive(Clone, Debug)]
pub struct TrackUpdate {
    pub entity_path: String,
    pub points: Vec<LatLon>,
    pub radii: Vec<u32>,
    pub callsign: String,
    pub velocity_kts: Option<(i32, i32)>,
    pub latlong: Option<LatLon>,
}

/// The record of one aircraft. Times are in milliseconds on a clock that the
/// caller keeps; a report value of zero means that none has been received.
#[derive(Clone, Debug)]
pub struct Aircraft {
    pub icao: Icao,
    pub callsign: Option<String>,
    pub even_cprlat: u32,
    pub even_cprlon: u32,
    pub even_cprtime: u64,
    pub odd_cprlat: u32,
    pub odd_cprlon: u32,
    pub odd_cprtime: u64,
    pub altitude: Option<Altitude>,
    pub position: Option<LatLon>,
    pub last_pos_update: u64,
    pub position_interpolated: Option<LatLon>,
    pub path: Vec<LatLon>,
    pub velocity_kts: Option<(i32, i32)>,
}

impl Aircraft {
    /// The even and the odd report are both there and were received at most
    /// ten seconds apart.
    pub open spec fn has_fresh_pair(&self) -> bool {
        &&& self.even_cprtime - self.odd_cprtime <= PAIRING_WINDOW_MS
        &&& self.odd_cprtime - self.even_cprtime <= PAIRING_WINDOW_MS
        &&& self.even_cprlat != 0
        &&& self.even_cprlon != 0
        &&& self.odd_cprlat != 0
        &&& self.odd_cprlon != 0
    }

    /// The position that the two reports of the record decode to, if they
    /// decode to one.
    pub open spec fn decoded(&self) -> Option<(Ratio, Ratio)> {
        global_position_spec(
            self.even_cprlat as int,
            self.even_cprlon as int,
            self.odd_cprlat as int,
            self.odd_cprlon as int,
            self.even_cprtime > self.odd_cprtime,
        )
    }

    /// The record holds the address `icao`, the time `now` and nothing else.
    pub open spec fn is_new(&self, icao: Icao, now: u64) -> bool {
        &&& self.icao == icao
        &&& self.callsign is None
        &&& self.even_cprlat == 0 && self.even_cprlon == 0 && self.even_cprtime == now
        &&& self.odd_cprlat == 0 && self.odd_cprlon == 0 && self.odd_cprtime == now
        &&& self.altitude is None
        &&& self.position is None
        &&& self.last_pos_update == now
        &&& self.position_interpolated is None
        &&& self.path@.len() == 0
        &&& self.velocity_kts is None
    }

    /// `after` is `before` once its two reports have been decoded at time
    /// `now`: where they make a fresh pair and decode to a position, that
    /// position is the position and the interpolated position of `after` and
    /// the new last point of its path, and `now` the time of its last update;
    /// otherwise `after` is `before`. Nothing else differs.
    pub open spec fn relocated(before: Aircraft, now: u64, after: Aircraft) -> bool {
        if before.has_fresh_pair() && before.decoded() is Some {
            &&& after.position matches Some(p)
            &&& p.0.wf() && p.1.wf()
            &&& Some(latlon_view(p)) == before.decoded()
            &&& after.position_interpolated == after.position
            &&& after.path@ == before.path@.push(p)
            &&& after.last_pos_update == now
            &&& before == (Aircraft {
                position: before.position,
                position_interpolated: before.position_interpolated,
                path: before.path,
                last_pos_update: before.last_pos_update,
                ..after
            })
        } else {
            after == before
        }
    }

    /// The record with a new report in its even or its odd place, received at
    /// time `now`, and with the altitude that came with the report.
    pub open spec fn with_report(
        self,
        odd: bool,
        latitude: u32,
        longitude: u32,
        altitude: Altitude,
        now: u64,
    ) -> Aircraft {
        let altitude = Some(altitude);
        if odd {
            Aircraft {
                odd_cprlat: latitude,
                odd_cprlon: longitude,
                odd_cprtime: now,
                altitude,
                ..self
            }
        } else {
            Aircraft {
                even_cprlat: latitude,
                even_cprlon: longitude,
                even_cprtime: now,
                altitude,
                ..self
            }
        }
    }

    /// A record of which only the address is known, made at time `now`.
    pub fn new(icao: Icao, now: u64) -> (a: Self)
        ensures
            a.is_new(icao, now),
    {
        Aircraft {
            icao,
            callsign: None,
            even_cprlat: 0,
            even_cprlon: 0,
            even_cprtime: now,
            odd_cprlat: 0,
            odd_cprlon: 0,
            odd_cprtime: now,
            altitude: None,
            position: None,
            last_pos_update: now,
            position_interpolated: None,
            path: Vec::new(),
            velocity_kts: None,
        }
    }

    /// The last decoded position, if there is one.
    pub fn latlong(&self) -> (p: Option<LatLon>)
        ensures
            p == self.position,
    {
        self.position
    }

    /// Decodes the two reports of the record, at time `now`, if they make a
    /// fresh pair. Where they decode to a position, it becomes the position
    /// and the interpolated position of the record and the last point of its
    /// path; otherwise the record stays as it is. The path only ever grows at
    /// its end: what was in it stays, in its place.
    pub fn update_latlong(&mut self, now: u64)
        ensures
            Self::relocated(*old(self), now, *final(self)),
            final(self).path@.len() >= old(self).path@.len(),
            final(self).path@.subrange(0, old(self).path@.len() as int) == old(self).path@,
    {
        let delta: u64 = if self.even_cprtime > self.odd_cprtime {
            self.even_cprtime - self.odd_cprtime
        } else {
            self.odd_cprtime - self.even_cprtime
        };
        if delta > PAIRING_WINDOW_MS {
            return ;
        }
        if self.even_cprlat == 0 || self.even_cprlon == 0 || self.odd_cprlat == 0
            || self.odd_cprlon == 0 {
            return ;
        }
        if let Some(latlon) = decode_cpr(self) {
            self.position = Some(latlon);
            self.position_interpolated = Some(latlon);
            self.path.push(latlon);
            self.last_pos_update = now;
        }
    }

    /// Sets the callsign.
    pub fn set_callsign(&mut self, callsign: String)
        ensures
            *final(self) == (Aircraft { callsign: Some(callsign), ..*old(self) }),
    {
        self.callsign = Some(callsign);
    }

    /// Stores a report in the even or the odd place of the record, with the
    /// time `now`, keeps the altitude that came with it, and decodes the pair
    /// that the record then holds.
    pub fn store_report(
        &mut self,
        odd: bool,
        latitude: u32,
        longitude: u32,
        altitude: Altitude,
        now: u64,
    )
        ensures
            Self::relocated(
                old(self).with_report(odd, latitude, longitude, altitude, now),
                now,
                *final(self),
            ),
            final(self).path@.len() >= old(self).path@.len(),
            final(self).path@.subrange(0, old(self).path@.len() as int) == old(self).path@,
    {
        if odd {
            self.odd_cprlat = latitude;
            self.odd_cprlon = longitude;
            self.odd_cprtime = now;
        } else {
            self.even_cprlat = latitude;
            self.even_cprlon = longitude;
            self.even_cprtime = now;
        }
        self.altitude = Some(altitude);
        self.update_latlong(now);
    }

    /// The points of the track: the path, then the interpolated position,
    /// if there is one.
    pub open spec fn track_points(&self) -> Seq<LatLon> {
        match self.position_interpolated {
            Some(p) => self.path@.push(p),
            None => self.path@,
        }
    }

    /// What is to be published of the record. The interpolated position comes
    /// after the path and has the larger radius; a callsign that is not known
    /// yet reads `pending`.
    pub fn track_update(&self) -> (update: TrackUpdate)
        ensures
            update.entity_path@ == entity_path_of(self.icao.value()),
            update.points@ == self.track_points(),
            update.radii@.len() == update.points@.len(),
            forall|i: int|
                0 <= i < update.radii@.len() ==> #[trigger] update.radii@[i] == if i
                    == self.path@.len() {
                    LATEST_POINT_RADIUS
                } else {
                    POINT_RADIUS
                },
            update.callsign@ == match self.callsign {
                Some(callsign) => callsign@,
                None => "pending"@,
            },
            update.velocity_kts == self.velocity_kts,
            update.latlong == self.position,
    {
        let mut entity_path = String::from_str("world/plane/");
        let hex = self.icao.to_hex();
        entity_path.append(hex.as_str());
        let mut points: Vec<LatLon> = Vec::new();
        let mut radii: Vec<u32> = Vec::new();
        let mut i: usize = 0;
        while i < self.path.len()
            invariant
                i <= self.path.len(),
                points@ == self.path@.subrange(0, i as int),
                radii@.len() == i,
                forall|t: int| 0 <= t < i ==> radii@[t] == POINT_RADIUS,
            decreases self.path.len() - i,
        {
            points.push(self.path[i]);
            radii.push(POINT_RADIUS);
            assert(points@ =~= self.path@.subrange(0, i + 1));
            i += 1;
        }
        assert(points@ =~= self.path@);
        if let Some(p) = self.position_interpolated {
            points.push(p);
            radii.push(LATEST_POINT_RADIUS);
        }
        let callsign = match &self.callsign {
            Some(callsign) => callsign.clone(),
            None => String::from_str("pending"),
        };
        TrackUpdate {
            entity_path,
            points,
            radii,
            callsign,
            velocity_kts: self.velocity_kts,
            latlong: self.position,
        }
    }
}

} // verus!

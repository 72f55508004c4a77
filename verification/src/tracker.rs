//! The registry of aircraft and what each accepted frame does to it.

use crate::adsb::{message_of, parse_me, Message};
use crate::aircraft::{hex6, lemma_address_by_value, Aircraft, Icao};
use crate::bitreader::{bits_value, law_bits_value_of_byte, law_bits_value_split};
use std::collections::HashMap;
use vstd::prelude::*;
use vstd::string::StringExecFns;

verus! {

broadcast use vstd::std_specs::hash::group_hash_axioms;

/// The downlink format of a frame: the upper five bits of its first byte.
pub open spec fn downlink_format(frame: Seq<u8>) -> u8 {
    frame[0] >> 3
}

/// The address in the second, third and fourth byte of a frame, the most
/// significant byte first.
pub open spec fn frame_address(frame: Seq<u8>) -> int {
    frame[1] * 0x1_0000 + frame[2] * 0x100 + frame[3]
}

/// The payload of a long frame: its bytes 4 to 10.
pub open spec fn frame_payload(frame: Seq<u8>) -> Seq<u8> {
    frame.subrange(4, 11)
}

/// The formats whose frames name the aircraft that sent them: the all-call
/// reply and the two extended squitters.
pub open spec fn names_aircraft(format: u8) -> bool {
    format == 11 || format == 17 || format == 18
}

proof fn lemma_top_five_bits(byte: u8)
    by (bit_vector)
    ensures
        byte >> 3 == 16 * ((byte >> 7u8) & 1) + 8 * ((byte >> 6u8) & 1) + 4 * ((byte >> 5u8) & 1)
            + 2 * ((byte >> 4u8) & 1) + ((byte >> 3u8) & 1),
        (byte >> 7u8) & 1 <= 1,
        (byte >> 6u8) & 1 <= 1,
        (byte >> 5u8) & 1 <= 1,
        (byte >> 4u8) & 1 <= 1,
        (byte >> 3u8) & 1 <= 1,
{
}

/// The downlink format is the number in the first five bits of a frame, and
/// the address the number in its bits 8 to 31.
pub proof fn law_header_fields(frame: Seq<u8>)
    requires
        frame.len() >= 4,
    ensures
        downlink_format(frame) == bits_value(frame, 0, 5),
        frame_address(frame) == bits_value(frame, 8, 24),
{
    assert(downlink_format(frame) == bits_value(frame, 0, 5)) by {
        reveal_with_fuel(bits_value, 6);
        lemma_top_five_bits(frame[0]);
    }
    vstd::arithmetic::power2::lemma2_to64();
    law_bits_value_split(frame, 8, 8, 16);
    law_bits_value_split(frame, 16, 8, 8);
    law_bits_value_of_byte(frame, 1);
    law_bits_value_of_byte(frame, 2);
    law_bits_value_of_byte(frame, 3);
}

/// Where a frame goes, by its downlink format.
#[derive(Clone, Debug)]
pub enum Route {
    /// Every format but 11, 17 and 18: nothing of the frame is read.
    Unhandled { downlink_format: u8 },
    /// Format 11, the all-call reply: the address and no more.
    AllCall { icao: Icao },
    /// Formats 17 and 18, the extended squitters: the address and what the
    /// payload says.
    ExtendedSquitter { icao: Icao, message: Message },
}

/// `route` is where the frame goes, with all that is read of it.
pub open spec fn route_of(frame: Seq<u8>, route: Route) -> bool {
    let format = downlink_format(frame);
    match route {
        Route::Unhandled { downlink_format } => downlink_format == format && !names_aircraft(
            format,
        ),
        Route::AllCall { icao } => format == 11 && icao.value() == frame_address(frame),
        Route::ExtendedSquitter { icao, message } => {
            &&& format == 17 || format == 18
            &&& icao.value() == frame_address(frame)
            &&& message_of(frame_payload(frame), message)
        },
    }
}

/// Reads the downlink format of a frame and, for the formats that are
/// tracked, the address and the payload. The frame has the fourteen bytes
/// that the slicer hands out, also where it is a short one.
pub fn route(frame: &[u8]) -> (route: Route)
    requires
        frame@.len() == 14,
    ensures
        route_of(frame@, route),
{
    let format: u8 = frame[0] >> 3;
    if format != 11 && format != 17 && format != 18 {
        return Route::Unhandled { downlink_format: format };
    }
    let address: u32 = frame[1] as u32 * 0x1_0000 + frame[2] as u32 * 0x100 + frame[3] as u32;
    let icao = Icao::new(address);
    if format == 11 {
        return Route::AllCall { icao };
    }
    let me = vstd::slice::slice_subrange(frame, 4, 11);
    Route::ExtendedSquitter { icao, message: parse_me(me) }
}

/// The line that reports a new callsign.
pub open spec fn callsign_line(address: int, callsign: Seq<char>) -> Seq<char> {
    "Craft "@ + hex6(address) + " updated callsign to "@ + callsign
}

fn write_callsign_line(icao: Icao, callsign: &String) -> (line: String)
    ensures
        line@ == callsign_line(icao.value(), callsign@),
{
    let mut line = String::from_str("Craft ");
    let hex = icao.to_hex();
    line.append(hex.as_str());
    line.append(" updated callsign to ");
    line.append(callsign.as_str());
    line
}

/// What a frame did to the registry.
#[derive(Clone, Debug)]
pub struct Report {
    /// The aircraft that the frame names.
    pub icao: Icao,
    /// The frame is the first of this aircraft: its record was made for it.
    pub created: bool,
    /// What the payload says, for an extended squitter.
    pub message: Option<Message>,
    /// The line to log, where the frame set the callsign.
    pub log_line: Option<String>,
    /// The record is new or was written to, and is to be published.
    pub publish: bool,
}

/// `after` is the record `before` once `message` has been taken in at time
/// `now`: an identification sets the callsign, an airborne position stores
/// its report and altitude and decodes the pair, anything else leaves the
/// record as it is.
pub open spec fn applied(before: Aircraft, message: Option<Message>, now: u64, after: Aircraft) -> bool {
    match message {
        Some(Message::Identification { callsign, .. }) => after == (Aircraft {
            callsign: Some(callsign),
            ..before
        }),
        Some(Message::AirbornePosition { altitude, odd, latitude, longitude, .. }) => {
            Aircraft::relocated(
                before.with_report(odd, latitude, longitude, altitude, now),
                now,
                after,
            )
        },
        _ => after == before,
    }
}

/// `after` is a record made at time `now` for `icao`, once `message` has been
/// taken in.
pub open spec fn applied_to_new(icao: Icao, message: Option<Message>, now: u64, after: Aircraft) -> bool {
    exists|fresh: Aircraft| #[trigger] fresh.is_new(icao, now) && applied(fresh, message, now, after)
}

/// The message writes to the record.
pub open spec fn writes_record(message: Option<Message>) -> bool {
    message matches Some(m) && (m is Identification || m is AirbornePosition)
}

/// The aircraft that have been heard, each under its address. A record is
/// made with the first frame that names its aircraft, and none is ever taken
/// out. A registry that starts empty and is written to by `ingest` alone
/// keeps every record under the address that the record holds.
pub struct Registry {
    aircraft: HashMap<u32, Aircraft>,
}

impl View for Registry {
    type V = Map<u32, Aircraft>;

    closed spec fn view(&self) -> Map<u32, Aircraft> {
        self.aircraft@
    }
}

impl Registry {
    /// Every record is kept under its own address.
    pub open spec fn wf(&self) -> bool {
        forall|k: u32| self@.contains_key(k) ==> (#[trigger] self@[k]).icao.value() == k
    }

    /// A registry without aircraft.
    pub fn new() -> (registry: Self)
        ensures
            registry.wf(),
            registry@ == Map::<u32, Aircraft>::empty(),
    {
        Registry { aircraft: HashMap::new() }
    }

    /// The number of aircraft.
    pub fn len(&self) -> (n: usize)
        ensures
            n == self@.len(),
    {
        self.aircraft.len()
    }

    /// The record of the aircraft `icao`, if it has been heard.
    pub fn get(&self, icao: Icao) -> (record: Option<&Aircraft>)
        ensures
            match record {
                Some(a) => self@.contains_key(icao.value() as u32) && *a == self@[icao.value() as u32]
                    && (self.wf() ==> a.icao == icao),
                None => !self@.contains_key(icao.value() as u32),
            },
    {
        let key = icao.get();
        let found = self.aircraft.get(&key);
        proof {
            if let Some(a) = found {
                if self.wf() {
                    lemma_address_by_value(a.icao, icao);
                }
            }
        }
        found
    }

    /// Takes in an accepted frame at time `now`. A frame of a format that
    /// names no aircraft leaves the registry as it is. Any other makes the
    /// record of its aircraft, if there is none yet, and lets the payload of an
    /// extended squitter write to it; no other record changes. No record is
    /// ever taken out, and no path loses or moves a point.
    pub fn ingest(&mut self, frame: &[u8], now: u64) -> (report: Option<Report>)
        requires
            frame@.len() == 14,
        ensures
            old(self).wf() ==> final(self).wf(),
            forall|k: u32| #[trigger]
                old(self)@.contains_key(k) ==> final(self)@.contains_key(k) && old(self)@[k].path@
                    .is_prefix_of(final(self)@[k].path@),
            match report {
                None => !names_aircraft(downlink_format(frame@)) && final(self)@ == old(self)@,
                Some(r) => {
                    let key = frame_address(frame@) as u32;
                    &&& names_aircraft(downlink_format(frame@))
                    &&& r.icao.value() == frame_address(frame@)
                    &&& final(self)@.contains_key(key)
                    &&& final(self)@ == old(self)@.insert(key, final(self)@[key])
                    &&& r.created == !old(self)@.contains_key(key)
                    &&& match r.message {
                        Some(m) => downlink_format(frame@) != 11 && message_of(
                            frame_payload(frame@),
                            m,
                        ),
                        None => downlink_format(frame@) == 11,
                    }
                    &&& if r.created {
                        applied_to_new(r.icao, r.message, now, final(self)@[key])
                    } else {
                        applied(old(self)@[key], r.message, now, final(self)@[key])
                    }
                    &&& match r.log_line {
                        Some(line) => r.message matches Some(Message::Identification { callsign, .. })
                            && line@ == callsign_line(frame_address(frame@), callsign@),
                        None => !(r.message matches Some(m) && m is Identification),
                    }
                    &&& r.publish == (r.created || writes_record(r.message))
                },
            },
    {
        let (icao, message) = match route(frame) {
            Route::Unhandled { .. } => {
                return None;
            },
            Route::AllCall { icao } => (icao, None),
            Route::ExtendedSquitter { icao, message } => (icao, Some(message)),
        };
        let key = icao.get();
        let (mut craft, created) = match self.aircraft.remove(&key) {
            Some(craft) => (craft, false),
            None => (Aircraft::new(icao, now), true),
        };
        let ghost before = craft;
        proof {
            if old(self).wf() {
                lemma_address_by_value(craft.icao, icao);
            }
        }
        let mut log_line: Option<String> = None;
        let mut written = false;
        match &message {
            Some(Message::Identification { callsign, .. }) => {
                log_line = Some(write_callsign_line(icao, callsign));
                craft.set_callsign(callsign.clone());
                written = true;
            },
            Some(Message::AirbornePosition { altitude, odd, latitude, longitude, .. }) => {
                craft.store_report(*odd, *latitude, *longitude, *altitude, now);
                written = true;
            },
            _ => {},
        }
        assert(applied(before, message, now, craft));
        self.aircraft.insert(key, craft);
        assert(self.aircraft@ =~= old(self).aircraft@.insert(key, craft));
        Some(Report { icao, created, message, log_line, publish: created || written })
    }
}

/// A frame never takes a point out of a path or moves one: what the path of
/// a record held before the frame, it holds after it, in the same places, and
/// a new point comes after them. So the points of a path stand in the order
/// in which their frames were accepted.
pub proof fn law_path_only_grows(
    before: Aircraft,
    message: Option<Message>,
    now: u64,
    after: Aircraft,
)
    requires
        applied(before, message, now, after),
    ensures
        before.path@.is_prefix_of(after.path@),
        after.path@.len() <= before.path@.len() + 1,
        after.path@.len() == before.path@.len() + 1 ==> after.position == Some(
            after.path@.last(),
        ) && after.last_pos_update == now,
{
}

} // verus!

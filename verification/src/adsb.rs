//! The payload of an extended squitter: identification and airborne position.

use crate::aircraft::Altitude;
use crate::bitreader::{bits_value, BitReader};
use vstd::arithmetic::power2::lemma2_to64;
use vstd::prelude::*;
use vstd::string::StrSliceExecFns;

verus! {

/// The 64 characters of the callsign alphabet, by their 6-bit code. `#`
/// stands for a code without a character.
pub const AIS_CHARSET: &'static str =
    "#ABCDEFGHIJKLMNOPQRSTUVWXYZ##### ###############0123456789######";

/// The character of the 6-bit code `code`.
pub open spec fn ais_char(code: int) -> char {
    AIS_CHARSET@[code]
}

fn lookup_ais(code: u32) -> (c: char)
    requires
        code < 64,
    ensures
        c == ais_char(code as int),
{
    proof {
        reveal_strlit("#ABCDEFGHIJKLMNOPQRSTUVWXYZ##### ###############0123456789######");
    }
    AIS_CHARSET.get_char(code as usize)
}

/// The binary number of the Gray code `gray`, as far as its `n + 1` leading
/// shifts go: `gray` combined by exclusive or with itself shifted right by 1,
/// by 2, and so on up to `n`.
pub open spec fn gray_prefix(gray: u32, n: u32) -> u32
    decreases n,
{
    if n == 0 {
        gray
    } else {
        gray_prefix(gray, (n - 1) as u32) ^ (gray >> n)
    }
}

/// The binary number of the Gray code `gray`: each bit is the exclusive or of
/// the Gray bits from the top down to it.
pub open spec fn from_gray(gray: u32) -> u32 {
    gray_prefix(gray, 31)
}

/// The Gray code of the binary number `binary`.
pub open spec fn to_gray(binary: u32) -> u32 {
    binary ^ (binary >> 1)
}

/// Convert a Gray code to binary.
pub fn gray_to_binary(gray: u32) -> (binary: u32)
    ensures
        binary == from_gray(gray),
{
    let mut binary: u32 = gray;
    let mut n: u32 = 0;
    while n < 31
        invariant
            n <= 31,
            binary == gray_prefix(gray, n),
        decreases 31 - n,
    {
        n += 1;
        binary ^= gray >> n;
    }
    binary
}

/// Convert a binary number to its Gray code.
pub fn binary_to_gray(binary: u32) -> (gray: u32)
    ensures
        gray == to_gray(binary),
{
    binary ^ (binary >> 1)
}

/// Decoding a Gray code and encoding the result gives the code back, and the
/// other way round, for every 32-bit number.
pub proof fn law_gray_round_trip(x: u32)
    by (bit_vector)
    ensures
        to_gray(from_gray(x)) == x,
        from_gray(to_gray(x)) == x,
{
}

proof fn lemma_altitude_bounds(code: u32)
    by (bit_vector)
    requires
        code < 4096,
    ensures
        (((code >> 5) << 4) | (code & 0xF)) < 2048,
        from_gray(((code >> 5) << 4) | (code & 0xF)) < 2048,
        code & 0x100 != 0 ==> (((code >> 5) << 4) | (code & 0xF)) >= 128,
{
}

/// The 11-bit number left of a 12-bit altitude code when bit 4 is taken out:
/// the seven bits above it, then the four below it.
pub open spec fn altitude_field(code: u32) -> u32 {
    ((code >> 5) << 4) | (code & 0xF)
}

/// The barometric altitude of a 12-bit altitude code, in feet. With the `Q`
/// bit, bit 8, set, the field counts steps of 25 feet from 1000 feet below
/// zero; the set bit keeps the field at 128 or more, so the altitude is
/// never below zero. Without it the field is a Gray code that counts steps of
/// 100 feet.
pub open spec fn barometric_altitude(code: u32) -> Altitude {
    let field = altitude_field(code);
    if code & 0x100 != 0 {
        Altitude::Feet((field * 25 - 1000) as u32)
    } else {
        Altitude::Feet((from_gray(field) * 100) as u32)
    }
}

/// The altitude of a 12-bit altitude code: barometric, in feet, or else a
/// direct count of metres.
pub open spec fn altitude_of(barometric: bool, code: u32) -> Altitude {
    if barometric {
        barometric_altitude(code)
    } else {
        Altitude::Meters(code)
    }
}

/// The altitude that the 12-bit code of an airborne position stands for.
pub fn decode_altitude(barometric: bool, code: u32) -> (altitude: Altitude)
    requires
        code < 4096,
    ensures
        altitude == altitude_of(barometric, code),
{
    if !barometric {
        return Altitude::Meters(code);
    }
    proof {
        lemma_altitude_bounds(code);
    }
    let q = (code & 0x100) != 0;
    let alt_low = code & 0xF;
    let alt_high = code >> 5;
    let alt_fixed = (alt_high << 4) | alt_low;
    if q {
        Altitude::Feet(alt_fixed * 25 - 1000)
    } else {
        Altitude::Feet(gray_to_binary(alt_fixed) * 100)
    }
}

/// The eight characters of a callsign whose first 6-bit code starts at bit
/// `start` of `data`.
pub open spec fn callsign_chars(data: Seq<u8>, start: int) -> Seq<char> {
    Seq::new(8, |i: int| ais_char(bits_value(data, start + 6 * i, 6)))
}

/// A character that fills the end of a callsign: `#` or a space.
pub open spec fn is_padding(c: char) -> bool {
    c == '#' || c == ' '
}

/// The length of `s` without the padding at its end.
pub open spec fn trimmed_len(s: Seq<char>) -> int
    decreases s.len(),
{
    if s.len() == 0 {
        0
    } else if is_padding(s.last()) {
        trimmed_len(s.drop_last())
    } else {
        s.len() as int
    }
}

/// `s` without the padding at its end.
pub open spec fn trim_padding(s: Seq<char>) -> Seq<char> {
    s.subrange(0, trimmed_len(s))
}

proof fn lemma_trimmed_len_prefix(s: Seq<char>, n: int)
    requires
        0 <= n <= s.len(),
        forall|i: int| n <= i < s.len() ==> is_padding(s[i]),
        n > 0 ==> !is_padding(s[n - 1]),
    ensures
        trimmed_len(s) == n,
    decreases s.len(),
{
    if n < s.len() {
        let shorter = s.drop_last();
        lemma_trimmed_len_prefix(shorter, n);
    }
}

/// Reads the eight characters of a callsign and leaves out the padding at
/// their end.
pub fn read_callsign(reader: &mut BitReader) -> (callsign: String)
    requires
        old(reader).position() + 48 <= 8 * old(reader).bytes().len(),
    ensures
        callsign@ == trim_padding(callsign_chars(old(reader).bytes(), old(reader).position())),
        final(reader).bytes() == old(reader).bytes(),
        final(reader).position() == old(reader).position() + 48,
{
    let ghost all = callsign_chars(old(reader).bytes(), old(reader).position());
    let mut chars: Vec<char> = Vec::with_capacity(8);
    let mut i: usize = 0;
    while i < 8
        invariant
            i <= 8,
            reader.bytes() == old(reader).bytes(),
            reader.position() == old(reader).position() + 6 * i,
            old(reader).position() + 48 <= 8 * old(reader).bytes().len(),
            chars@.len() == i,
            all == callsign_chars(old(reader).bytes(), old(reader).position()),
            forall|t: int| 0 <= t < i ==> chars@[t] == all[t],
        decreases 8 - i,
    {
        let code = reader.read_bits(6);
        proof {
            lemma2_to64();
        }
        chars.push(lookup_ais(code));
        i += 1;
    }
    assert(chars@ =~= all);
    let mut end: usize = 8;
    while end > 0 && (chars[end - 1] == '#' || chars[end - 1] == ' ')
        invariant
            end <= 8,
            chars@ == all,
            all.len() == 8,
            forall|t: int| end <= t < 8 ==> is_padding(all[t]),
        decreases end,
    {
        end -= 1;
    }
    proof {
        lemma_trimmed_len_prefix(all, end as int);
    }
    let mut callsign = String::new();
    let mut k: usize = 0;
    while k < end
        invariant
            k <= end <= 8,
            chars@ == all,
            all.len() == 8,
            callsign@ == all.subrange(0, k as int),
        decreases end - k,
    {
        callsign.push(chars[k]);
        assert(callsign@ =~= all.subrange(0, k + 1));
        k += 1;
    }
    callsign
}

/// What the payload of an extended squitter says.
#[derive(Clone, Debug)]
pub enum Message {
    /// Type codes 1 to 4: the category of the aircraft and its callsign.
    Identification { category: u8, callsign: String },
    /// Type codes 9 to 18, with a barometric altitude, and 20 to 22, with a
    /// GNSS height: one half of a position, even or odd.
    AirbornePosition {
        surveillance_status: u8,
        single_antenna: bool,
        altitude: Altitude,
        time: bool,
        odd: bool,
        latitude: u32,
        longitude: u32,
    },
    /// Type code 19: a velocity, which is not decoded.
    Velocity,
    /// Every other type code.
    Other { type_code: u8 },
}

/// The type code of a payload: its first five bits.
pub open spec fn type_code(me: Seq<u8>) -> int {
    bits_value(me, 0, 5)
}

/// `message` is what the payload `me` says, field by field.
pub open spec fn message_of(me: Seq<u8>, message: Message) -> bool {
    let tc = type_code(me);
    match message {
        Message::Identification { category, callsign } => {
            &&& 1 <= tc <= 4
            &&& category == bits_value(me, 5, 3)
            &&& callsign@ == trim_padding(callsign_chars(me, 8))
        },
        Message::AirbornePosition {
            surveillance_status,
            single_antenna,
            altitude,
            time,
            odd,
            latitude,
            longitude,
        } => {
            &&& 9 <= tc <= 18 || 20 <= tc <= 22
            &&& surveillance_status == bits_value(me, 5, 2)
            &&& single_antenna == (bits_value(me, 7, 1) == 1)
            &&& altitude == altitude_of(tc <= 18, bits_value(me, 8, 12) as u32)
            &&& time == (bits_value(me, 20, 1) == 1)
            &&& odd == (bits_value(me, 21, 1) == 1)
            &&& latitude == bits_value(me, 22, 17)
            &&& longitude == bits_value(me, 39, 17)
        },
        Message::Velocity => tc == 19,
        Message::Other { type_code } => {
            &&& type_code == tc
            &&& !(1 <= tc <= 4) && !(9 <= tc <= 22)
        },
    }
}

/// Reads the seven bytes of a payload.
pub fn parse_me(me: &[u8]) -> (message: Message)
    requires
        me@.len() == 7,
    ensures
        message_of(me@, message),
        message matches Message::AirbornePosition { latitude, longitude, .. } ==> latitude
            < 131072 && longitude < 131072,
{
    proof {
        lemma2_to64();
    }
    let mut msg = BitReader::new(me);
    let message_type = msg.read_bits(5);
    if 1 <= message_type && message_type <= 4 {
        let category = msg.read_bits(3);
        let callsign = read_callsign(&mut msg);
        Message::Identification { category: category as u8, callsign }
    } else if (9 <= message_type && message_type <= 18) || (20 <= message_type && message_type
        <= 22) {
        let surveillance_status = msg.read_bits(2);
        let single_antenna = msg.read_bits(1) == 1;
        let encoded_altitude = msg.read_bits(12);
        let time = msg.read_bits(1) == 1;
        let odd = msg.read_bits(1) == 1;
        let latitude = msg.read_bits(17);
        let longitude = msg.read_bits(17);
        Message::AirbornePosition {
            surveillance_status: surveillance_status as u8,
            single_antenna,
            altitude: decode_altitude(message_type <= 18, encoded_altitude),
            time,
            odd,
            latitude,
            longitude,
        }
    } else if message_type == 19 {
        Message::Velocity
    } else {
        Message::Other { type_code: message_type as u8 }
    }
}

} // verus!

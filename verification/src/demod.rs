//! From I/Q bytes to frames: the sample envelope, the preamble pattern and
//! the slicing of pulse pairs into bytes.
//!
//! The envelope is kept as the power of each sample, the sum of the squares of
//! its two centred components. The magnitude is the square root of the power
//! over 127, which grows with the power, so that every comparison of two
//! magnitudes is decided by the two powers, exactly.

use crate::bitreader::bit_at;
use vstd::prelude::*;

verus! {

/// Samples from the start of a preamble to the end of a long frame.
pub const WINDOW_SAMPLES: usize = 240;

/// Samples of the preamble.
pub const PREAMBLE_SAMPLES: usize = 16;

/// Bytes of a sliced frame: 224 samples, two to a bit.
pub const FRAME_BYTES: usize = 14;

/// The power of one sample, from its unsigned components centred at 127.
pub open spec fn sample_power(i: u8, q: u8) -> int {
    (i - 127) * (i - 127) + (q - 127) * (q - 127)
}

/// The power of one sample.
pub fn iq_power(i: u8, q: u8) -> (power: u32)
    ensures
        power == sample_power(i, q),
        power <= 32768,
{
    let di: i32 = i as i32 - 127;
    let dq: i32 = q as i32 - 127;
    assert(-127 <= di <= 128 && -127 <= dq <= 128);
    assert(0 <= di * di <= 16384 && 0 <= dq * dq <= 16384) by (nonlinear_arith)
        requires
            -127 <= di <= 128 && -127 <= dq <= 128,
    ;
    (di * di + dq * dq) as u32
}

/// The envelope of a buffer of interleaved I and Q bytes: the power of each
/// pair, in order. A last byte without a partner is left out.
pub fn envelope(iq: &[u8]) -> (powers: Vec<u32>)
    ensures
        powers@.len() == iq@.len() / 2,
        forall|k: int|
            0 <= k < powers@.len() ==> #[trigger] powers@[k] == sample_power(
                iq@[2 * k],
                iq@[2 * k + 1],
            ),
{
    let n: usize = iq.len() / 2;
    let mut powers: Vec<u32> = Vec::with_capacity(n);
    let mut k: usize = 0;
    while k < n
        invariant
            k <= n,
            n == iq.len() / 2,
            powers@.len() == k,
            forall|t: int|
                0 <= t < k ==> #[trigger] powers@[t] == sample_power(iq@[2 * t], iq@[2 * t + 1]),
        decreases n - k,
    {
        powers.push(iq_power(iq[2 * k], iq[2 * k + 1]));
        k += 1;
    }
    powers
}

/// The pulse pattern of a preamble, on the first ten of its sixteen samples:
/// only comparisons between samples, no threshold.
pub open spec fn preamble_pattern(m: Seq<u32>) -> bool {
    &&& m[0] > m[1]
    &&& m[1] < m[2]
    &&& m[2] > m[3]
    &&& m[3] < m[0]
    &&& m[4] < m[0]
    &&& m[5] < m[0]
    &&& m[6] < m[0]
    &&& m[7] > m[8]
    &&& m[8] < m[9]
    &&& m[9] > m[6]
}

/// Whether `m` starts with a preamble. Fewer than sixteen samples never do.
pub fn check_preamble(m: &[u32]) -> (found: bool)
    ensures
        found == (m@.len() >= 16 && preamble_pattern(m@)),
{
    if m.len() < 16 {
        return false;
    }
    m[0] > m[1] && m[1] < m[2] && m[2] > m[3] && m[3] < m[0] && m[4] < m[0] && m[5] < m[0] && m[6]
        < m[0] && m[7] > m[8] && m[8] < m[9] && m[9] > m[6]
}

/// The bit that the pulse pair `i` of `m` encodes: one when the first sample
/// of the pair is above the second.
pub open spec fn pulse_bit(m: Seq<u32>, i: int) -> int {
    if m[2 * i] > m[2 * i + 1] {
        1
    } else {
        0
    }
}

/// Byte `k` of the sliced samples `m`: eight pulse pairs, the first of them
/// the most significant bit.
pub open spec fn pulse_byte(m: Seq<u32>, k: int) -> int {
    128 * pulse_bit(m, 8 * k) + 64 * pulse_bit(m, 8 * k + 1) + 32 * pulse_bit(m, 8 * k + 2) + 16
        * pulse_bit(m, 8 * k + 3) + 8 * pulse_bit(m, 8 * k + 4) + 4 * pulse_bit(m, 8 * k + 5) + 2
        * pulse_bit(m, 8 * k + 6) + pulse_bit(m, 8 * k + 7)
}

fn slice_bit(m: &[u32], i: usize) -> (bit: u8)
    requires
        2 * i + 1 < m.len(),
    ensures
        bit == pulse_bit(m@, i as int),
{
    if m[2 * i] > m[2 * i + 1] {
        1
    } else {
        0
    }
}

/// Slices samples into bytes: each pair of samples is one bit, each eight
/// pairs one byte. Samples that do not fill a byte are left out.
pub fn pulses_to_bytes(magnitudes: &[u32]) -> (bytes: Vec<u8>)
    ensures
        bytes@.len() == magnitudes@.len() / 16,
        forall|k: int| 0 <= k < bytes@.len() ==> #[trigger] bytes@[k] == pulse_byte(magnitudes@, k),
{
    let n: usize = magnitudes.len() / 16;
    let mut bytes: Vec<u8> = Vec::with_capacity(n);
    let mut k: usize = 0;
    while k < n
        invariant
            k <= n,
            n == magnitudes.len() / 16,
            bytes@.len() == k,
            forall|t: int| 0 <= t < k ==> #[trigger] bytes@[t] == pulse_byte(magnitudes@, t),
        decreases n - k,
    {
        let b: usize = 8 * k;
        let byte: u8 = 128 * slice_bit(magnitudes, b) + 64 * slice_bit(magnitudes, b + 1) + 32
            * slice_bit(magnitudes, b + 2) + 16 * slice_bit(magnitudes, b + 3) + 8 * slice_bit(
            magnitudes,
            b + 4,
        ) + 4 * slice_bit(magnitudes, b + 5) + 2 * slice_bit(magnitudes, b + 6) + slice_bit(
            magnitudes,
            b + 7,
        );
        bytes.push(byte);
        k += 1;
    }
    bytes
}

proof fn lemma_packed_bits(
    b0: u8,
    b1: u8,
    b2: u8,
    b3: u8,
    b4: u8,
    b5: u8,
    b6: u8,
    b7: u8,
    byte: u8,
)
    by (bit_vector)
    requires
        b0 <= 1 && b1 <= 1 && b2 <= 1 && b3 <= 1 && b4 <= 1 && b5 <= 1 && b6 <= 1 && b7 <= 1,
        byte == 128 * b0 + 64 * b1 + 32 * b2 + 16 * b3 + 8 * b4 + 4 * b5 + 2 * b6 + b7,
    ensures
        (byte >> 7u8) & 1 == b0,
        (byte >> 6u8) & 1 == b1,
        (byte >> 5u8) & 1 == b2,
        (byte >> 4u8) & 1 == b3,
        (byte >> 3u8) & 1 == b4,
        (byte >> 2u8) & 1 == b5,
        (byte >> 1u8) & 1 == b6,
        (byte >> 0u8) & 1 == b7,
{
}

/// The bits of sliced bytes are the pulse pairs in their order: bit `j` of
/// the bytes, counted from the most significant bit of the first, is set
/// exactly when the first sample of pair `j` is above the second.
pub proof fn law_sliced_bits(m: Seq<u32>, bytes: Seq<u8>, j: int)
    requires
        bytes.len() == m.len() / 16,
        forall|k: int| 0 <= k < bytes.len() ==> #[trigger] bytes[k] == pulse_byte(m, k),
        0 <= j < 8 * bytes.len(),
    ensures
        bit_at(bytes, j) == (m[2 * j] > m[2 * j + 1]),
{
    let k = j / 8;
    assert(bytes[k] == pulse_byte(m, k));
    lemma_packed_bits(
        pulse_bit(m, 8 * k) as u8,
        pulse_bit(m, 8 * k + 1) as u8,
        pulse_bit(m, 8 * k + 2) as u8,
        pulse_bit(m, 8 * k + 3) as u8,
        pulse_bit(m, 8 * k + 4) as u8,
        pulse_bit(m, 8 * k + 5) as u8,
        pulse_bit(m, 8 * k + 6) as u8,
        pulse_bit(m, 8 * k + 7) as u8,
        bytes[k],
    );
}

/// A frame is detected at sample `start` of `s` when a whole window lies
/// there and starts with the preamble pattern.
pub open spec fn detected_at(s: Seq<u32>, start: int) -> bool {
    &&& 0 <= start
    &&& start + WINDOW_SAMPLES <= s.len()
    &&& preamble_pattern(s.subrange(start, start + PREAMBLE_SAMPLES))
}

/// The fourteen bytes sliced from the samples that follow the preamble at
/// `start`.
pub open spec fn frame_at(s: Seq<u32>, start: int) -> Seq<u8> {
    Seq::new(
        FRAME_BYTES as nat,
        |k: int| pulse_byte(s.subrange(start + PREAMBLE_SAMPLES, start + WINDOW_SAMPLES), k) as u8,
    )
}

/// The frame of the window at `start`, where one is detected there.
pub fn slice_window(samples: &[u32], start: usize) -> (frame: Option<Vec<u8>>)
    ensures
        frame is Some <==> detected_at(samples@, start as int),
        frame matches Some(bytes) ==> bytes@ == frame_at(samples@, start as int),
{
    if samples.len() < WINDOW_SAMPLES || start > samples.len() - WINDOW_SAMPLES {
        return None;
    }
    let preamble = vstd::slice::slice_subrange(samples, start, start + PREAMBLE_SAMPLES);
    if !check_preamble(preamble) {
        return None;
    }
    let pulses = vstd::slice::slice_subrange(
        samples,
        start + PREAMBLE_SAMPLES,
        start + WINDOW_SAMPLES,
    );
    let bytes = pulses_to_bytes(pulses);
    assert(bytes@ =~= frame_at(samples@, start as int));
    Some(bytes)
}

/// The starts of all windows of `samples` at which a frame is detected, in
/// ascending order. The scan moves on by one sample whatever it finds, so
/// detections may overlap.
pub fn scan(samples: &[u32]) -> (starts: Vec<usize>)
    ensures
        forall|t: int| 0 <= t < starts@.len() ==> detected_at(samples@, #[trigger] starts@[t] as int),
        forall|t: int, u: int| 0 <= t < u < starts@.len() ==> starts@[t] < starts@[u],
        forall|i: int| detected_at(samples@, i) ==> starts@.contains(i as usize),
{
    let mut starts: Vec<usize> = Vec::new();
    if samples.len() < WINDOW_SAMPLES {
        return starts;
    }
    let last: usize = samples.len() - WINDOW_SAMPLES;
    let mut i: usize = 0;
    while i <= last
        invariant
            i <= last + 1,
            last + WINDOW_SAMPLES == samples.len(),
            forall|t: int|
                0 <= t < starts@.len() ==> detected_at(samples@, #[trigger] starts@[t] as int)
                    && starts@[t] < i,
            forall|t: int, u: int| 0 <= t < u < starts@.len() ==> starts@[t] < starts@[u],
            forall|j: int| 0 <= j < i && detected_at(samples@, j) ==> starts@.contains(j as usize),
        decreases last + 1 - i,
    {
        let preamble = vstd::slice::slice_subrange(samples, i, i + PREAMBLE_SAMPLES);
        if check_preamble(preamble) {
            let ghost before = starts@;
            starts.push(i);
            assert(starts@[before.len() as int] == i);
            assert forall|j: int| 0 <= j < i + 1 && detected_at(samples@, j) implies starts@.contains(
                j as usize,
            ) by {
                if j < i {
                    let t = choose|t: int| 0 <= t < before.len() && before[t] == j as usize;
                    assert(starts@[t] == j as usize);
                }
            }
        }
        i += 1;
    }
    starts
}

/// Detection goes with the samples: with `lead` put in front of `s`, a frame
/// is detected at `lead.len() + i` exactly when one is detected at `i` of `s`
/// alone, and the bytes sliced there are the same.
pub proof fn law_detection_shifts(lead: Seq<u32>, s: Seq<u32>, i: int)
    requires
        0 <= i,
    ensures
        detected_at(lead + s, lead.len() + i) == detected_at(s, i),
        detected_at(s, i) ==> frame_at(lead + s, lead.len() + i) == frame_at(s, i),
{
    let k = lead.len() as int;
    if i + WINDOW_SAMPLES <= s.len() {
        assert((lead + s).subrange(k + i, k + i + PREAMBLE_SAMPLES) =~= s.subrange(
            i,
            i + PREAMBLE_SAMPLES,
        ));
        assert((lead + s).subrange(k + i + PREAMBLE_SAMPLES, k + i + WINDOW_SAMPLES) =~= s.subrange(
            i + PREAMBLE_SAMPLES,
            i + WINDOW_SAMPLES,
        ));
    }
}

} // verus!

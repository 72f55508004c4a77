//! From the envelope to accepted frames: detection, slicing and the parity
//! stage, window by window.

use crate::demod::{detected_at, frame_at, slice_window, WINDOW_SAMPLES};
use crate::parity::{parity_holds, repair_frame, repair_outcome, Repair};
use vstd::prelude::*;

verus! {

/// The length in bits of a frame that starts with the byte `first`: its
/// downlink format, the upper five bits, is at most 11 for a short frame.
pub open spec fn bits_of(first: u8) -> int {
    if first >> 3 <= 11 {
        56
    } else {
        112
    }
}

/// A frame that the parity stage accepted.
#[derive(Clone, Debug)]
pub struct Received {
    /// The sample at which its preamble starts.
    pub start: usize,
    /// Its fourteen bytes, after repair. A short frame ends with the seventh.
    pub frame: Vec<u8>,
    /// Its length in bits, 56 or 112, by the downlink format it was received
    /// with.
    pub bits: usize,
    /// What the parity stage did to accept it.
    pub repair: Repair,
}

/// `r` is the frame accepted at sample `start` of `samples`: a frame is
/// detected there, and what was sliced was acceptable or was repaired.
pub open spec fn accepted_at(samples: Seq<u32>, start: int, double_bit: bool, r: Received) -> bool {
    let raw = frame_at(samples, start);
    &&& detected_at(samples, start)
    &&& r.start == start
    &&& r.bits == bits_of(raw[0])
    &&& r.frame@.len() == 14
    &&& !(r.repair is Failed)
    &&& repair_outcome(raw, r.bits as int, double_bit, r.repair, r.frame@)
}

/// Nothing is accepted at sample `start` of `samples`: no frame is detected
/// there, or what was sliced is beyond repair.
pub open spec fn rejected_at(samples: Seq<u32>, start: int, double_bit: bool) -> bool {
    let raw = frame_at(samples, start);
    detected_at(samples, start) ==> repair_outcome(
        raw,
        bits_of(raw[0]),
        double_bit,
        Repair::Failed,
        raw,
    )
}

/// Receives the frame at sample `start`, if one is detected there and
/// passes the parity stage, repairs of two bits being tried only where
/// `double_bit` is set. An accepted frame carries the parity of its own
/// checksum.
pub fn receive(samples: &[u32], start: usize, double_bit: bool) -> (received: Option<Received>)
    ensures
        match received {
            Some(r) => accepted_at(samples@, start as int, double_bit, r) && parity_holds(
                r.frame@,
                r.bits as int,
            ),
            None => rejected_at(samples@, start as int, double_bit),
        },
{
    let mut frame = match slice_window(samples, start) {
        Some(frame) => frame,
        None => {
            return None;
        },
    };
    let downlink_format: u8 = frame[0] >> 3;
    let bits: usize = if downlink_format <= 11 {
        56
    } else {
        112
    };
    let repair = repair_frame(&mut frame, bits, double_bit);
    match repair {
        Repair::Failed => None,
        _ => Some(Received { start, frame, bits, repair }),
    }
}

/// Receives every frame of a block of samples, in the order of their
/// preambles. Windows may overlap: the scan moves on by one sample whatever
/// it finds, and what the parity stage does not accept is dropped.
pub fn receive_all(samples: &[u32], double_bit: bool) -> (frames: Vec<Received>)
    ensures
        forall|t: int|
            0 <= t < frames@.len() ==> accepted_at(
                samples@,
                (#[trigger] frames@[t]).start as int,
                double_bit,
                frames@[t],
            ) && parity_holds(frames@[t].frame@, frames@[t].bits as int),
        forall|t: int, u: int|
            0 <= t < u < frames@.len() ==> frames@[t].start < frames@[u].start,
        forall|i: int|
            0 <= i && !rejected_at(samples@, i, double_bit) ==> exists|t: int|
                0 <= t < frames@.len() && (#[trigger] frames@[t]).start == i,
{
    let mut frames: Vec<Received> = Vec::new();
    if samples.len() < WINDOW_SAMPLES {
        return frames;
    }
    let last: usize = samples.len() - WINDOW_SAMPLES;
    let mut i: usize = 0;
    while i <= last
        invariant
            i <= last + 1,
            last + WINDOW_SAMPLES == samples.len(),
            forall|t: int|
                0 <= t < frames@.len() ==> accepted_at(
                    samples@,
                    (#[trigger] frames@[t]).start as int,
                    double_bit,
                    frames@[t],
                ) && parity_holds(frames@[t].frame@, frames@[t].bits as int) && frames@[t].start
                    < i,
            forall|t: int, u: int|
                0 <= t < u < frames@.len() ==> frames@[t].start < frames@[u].start,
            forall|j: int|
                0 <= j < i && !rejected_at(samples@, j, double_bit) ==> exists|t: int|
                    0 <= t < frames@.len() && (#[trigger] frames@[t]).start == j,
        decreases last + 1 - i,
    {
        if let Some(r) = receive(samples, i, double_bit) {
            let ghost before = frames@;
            frames.push(r);
            assert(frames@[before.len() as int] == r);
            assert forall|j: int| 0 <= j < i + 1 && !rejected_at(samples@, j, double_bit) implies exists|
                t: int,
            |
                0 <= t < frames@.len() && (#[trigger] frames@[t]).start == j by {
                if j < i {
                    let t = choose|t: int| 0 <= t < before.len() && (#[trigger] before[t]).start == j;
                    assert(frames@[t] == before[t]);
                }
            }
        }
        i += 1;
    }
    frames
}

} // verus!

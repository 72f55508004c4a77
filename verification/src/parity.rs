//! The 24-bit parity of Mode S frames: checking it, and repairing one or two
//! flipped bits with it.

use crate::bitreader::bit_at;
use crate::syndrome::{
    bit_syndrome,
    lemma_four_syndromes,
    lemma_syndromes_distinct,
    lemma_three_syndromes,
    lookup_row,
    parity_row,
};
use vstd::prelude::*;

verus! {

/// The table offset of a frame of `bits` bits: a short frame uses the last 56
/// rows.
pub open spec fn row_offset(bits: int) -> int {
    if bits == 112 {
        0
    } else {
        56
    }
}

/// The checksum of the first `n` bits of `data`: the rows of the set bits,
/// combined by exclusive or.
pub open spec fn checksum_upto(data: Seq<u8>, offset: int, n: int) -> u32
    decreases n,
{
    if n <= 0 {
        0
    } else {
        if bit_at(data, n - 1) {
            checksum_upto(data, offset, n - 1) ^ parity_row((n - 1 + offset) as u32)
        } else {
            checksum_upto(data, offset, n - 1)
        }
    }
}

/// The Mode S checksum of a frame of `bits` bits.
pub open spec fn checksum(data: Seq<u8>, bits: int) -> u32 {
    checksum_upto(data, row_offset(bits), bits)
}

/// The parity that a frame of `bits` bits carries in its last three bytes,
/// most significant byte first.
pub open spec fn transmitted_parity(data: Seq<u8>, bits: int) -> u32 {
    ((data[bits / 8 - 3] as u32) << 16) | ((data[bits / 8 - 2] as u32) << 8) | (data[bits / 8
        - 1] as u32)
}

/// A frame is accepted when its checksum is the parity it carries.
pub open spec fn parity_holds(data: Seq<u8>, bits: int) -> bool {
    checksum(data, bits) == transmitted_parity(data, bits)
}

/// `data` with bit `j` inverted.
pub open spec fn flip_bit(data: Seq<u8>, j: int) -> Seq<u8> {
    data.update(j / 8, data[j / 8] ^ (1u8 << ((7 - j % 8) as u8)))
}

/// Whether bit `j` of `data` is set, counting from the most significant bit
/// of the first byte.
pub fn test_bit(data: &[u8], j: usize) -> (set: bool)
    requires
        j < 8 * data@.len(),
    ensures
        set == bit_at(data@, j as int),
{
    let shift: u8 = (7 - j % 8) as u8;
    (data[j / 8] >> shift) & 1 == 1
}

/// The Mode S checksum of the first `bits` bits of `data`.
pub fn mode_s_checksum(data: &[u8], bits: usize) -> (crc: u32)
    requires
        bits == 56 || bits == 112,
        bits <= 8 * data@.len(),
    ensures
        crc == checksum(data@, bits as int),
{
    let mut crc: u32 = 0;
    let offset: usize = if bits == 112 { 0 } else { 112 - 56 };
    let mut j: usize = 0;
    while j < bits
        invariant
            j <= bits,
            bits == 56 || bits == 112,
            bits <= 8 * data@.len(),
            offset == row_offset(bits as int),
            crc == checksum_upto(data@, offset as int, j as int),
        decreases bits - j,
    {
        if test_bit(data, j) {
            crc ^= lookup_row(j + offset);
        }
        j += 1;
    }
    crc
}

/// The parity that the frame carries in its last three bytes.
pub fn frame_parity(data: &[u8], bits: usize) -> (parity: u32)
    requires
        bits == 56 || bits == 112,
        bits <= 8 * data@.len(),
    ensures
        parity == transmitted_parity(data@, bits as int),
{
    let end: usize = bits / 8;
    ((data[end - 3] as u32) << 16) | ((data[end - 2] as u32) << 8) | (data[end - 1] as u32)
}

/// Whether the checksum of the frame is the parity it carries.
pub fn check_parity(data: &[u8], bits: usize) -> (ok: bool)
    requires
        bits == 56 || bits == 112,
        bits <= 8 * data@.len(),
    ensures
        ok == parity_holds(data@, bits as int),
{
    mode_s_checksum(data, bits) == frame_parity(data, bits)
}

/// The difference between the checksum of a frame and the parity it carries:
/// zero exactly when the frame is accepted.
pub open spec fn syndrome(data: Seq<u8>, bits: int) -> u32 {
    checksum(data, bits) ^ transmitted_parity(data, bits)
}

proof fn lemma_xor_algebra(a: u32, r: u32, t: u32)
    by (bit_vector)
    ensures
        (a ^ r) ^ t == (a ^ t) ^ r,
        (a ^ r) ^ r == a,
        a ^ 0 == a,
        a ^ r == r ^ a,
        a ^ (r ^ t) == (a ^ r) ^ t,
        a == r <==> a ^ r == 0,
{
}

proof fn lemma_byte_flip(b: u8, i: u8, k: u8)
    by (bit_vector)
    requires
        i < 8,
        k < 8,
    ensures
        (((b ^ (1u8 << (7 - i) as u8)) >> (7 - k) as u8) & 1 == 1) == (((b >> (7 - k) as u8) & 1
            == 1) != (i == k)),
        (b ^ (1u8 << (7 - i) as u8)) ^ (1u8 << (7 - i) as u8) == b,
{
}

proof fn lemma_parity_field_flip(b0: u8, b1: u8, b2: u8, k: u8)
    by (bit_vector)
    requires
        k < 8,
    ensures
        (((b0 ^ (1u8 << (7 - k) as u8)) as u32) << 16) | ((b1 as u32) << 8) | (b2 as u32) == (((
        b0 as u32) << 16) | ((b1 as u32) << 8) | (b2 as u32)) ^ (1u32 << (23 - k) as u32),
        ((b0 as u32) << 16) | (((b1 ^ (1u8 << (7 - k) as u8)) as u32) << 8) | (b2 as u32) == (((
        b0 as u32) << 16) | ((b1 as u32) << 8) | (b2 as u32)) ^ (1u32 << (15 - k) as u32),
        ((b0 as u32) << 16) | ((b1 as u32) << 8) | ((b2 ^ (1u8 << (7 - k) as u8)) as u32) == (((
        b0 as u32) << 16) | ((b1 as u32) << 8) | (b2 as u32)) ^ (1u32 << (7 - k) as u32),
{
}

/// Inverting bit `j` inverts that bit and leaves every other bit as it was.
pub proof fn lemma_flip_bit_at(data: Seq<u8>, j: int, k: int)
    requires
        0 <= j < 8 * data.len(),
        0 <= k < 8 * data.len(),
    ensures
        flip_bit(data, j).len() == data.len(),
        bit_at(flip_bit(data, j), k) == (bit_at(data, k) != (j == k)),
{
    if j / 8 == k / 8 {
        lemma_byte_flip(data[j / 8], (j % 8) as u8, (k % 8) as u8);
    }
}

/// Inverting a bit twice gives the frame back.
pub proof fn lemma_flip_twice(data: Seq<u8>, j: int)
    requires
        0 <= j < 8 * data.len(),
    ensures
        flip_bit(flip_bit(data, j), j) == data,
{
    lemma_byte_flip(data[j / 8], (j % 8) as u8, 0);
    assert(flip_bit(flip_bit(data, j), j) =~= data);
}

/// Inverting two bits gives the same frame in either order.
pub proof fn lemma_flip_commutes(data: Seq<u8>, a: int, b: int)
    requires
        0 <= a < 8 * data.len(),
        0 <= b < 8 * data.len(),
    ensures
        flip_bit(flip_bit(data, a), b) == flip_bit(flip_bit(data, b), a),
{
    if a / 8 == b / 8 {
        lemma_xor_bytes_commute(
            data[a / 8],
            1u8 << ((7 - a % 8) as u8),
            1u8 << ((7 - b % 8) as u8),
        );
    }
    assert(flip_bit(flip_bit(data, a), b) =~= flip_bit(flip_bit(data, b), a));
}

proof fn lemma_xor_bytes_commute(b: u8, m: u8, n: u8)
    by (bit_vector)
    ensures
        (b ^ m) ^ n == (b ^ n) ^ m,
{
}

proof fn lemma_checksum_flip(data: Seq<u8>, offset: int, n: int, j: int)
    requires
        0 <= j < 8 * data.len(),
        0 <= n <= 8 * data.len(),
    ensures
        checksum_upto(flip_bit(data, j), offset, n) == if j < n {
            checksum_upto(data, offset, n) ^ parity_row((j + offset) as u32)
        } else {
            checksum_upto(data, offset, n)
        },
    decreases n,
{
    if n > 0 {
        lemma_checksum_flip(data, offset, n - 1, j);
        lemma_flip_bit_at(data, j, n - 1);
        let before = checksum_upto(data, offset, n - 1);
        let here = parity_row((n - 1 + offset) as u32);
        let moved = parity_row((j + offset) as u32);
        lemma_xor_algebra(before, moved, here);
        lemma_xor_algebra(before, here, here);
    }
}

proof fn lemma_parity_flip(data: Seq<u8>, bits: int, j: int)
    requires
        bits == 56 || bits == 112,
        bits <= 8 * data.len(),
        0 <= j < bits,
    ensures
        transmitted_parity(flip_bit(data, j), bits) == if j >= bits - 24 {
            transmitted_parity(data, bits) ^ (1u32 << ((bits - 1 - j) as u32))
        } else {
            transmitted_parity(data, bits)
        },
{
    let end = bits / 8;
    if j >= bits - 24 {
        lemma_parity_field_flip(data[end - 3], data[end - 2], data[end - 1], (j % 8) as u8);
    }
}

/// Inverting bit `j` of a frame changes its syndrome by the syndrome of that
/// bit, whatever the frame holds.
pub proof fn lemma_flip_syndrome(data: Seq<u8>, bits: int, j: int)
    requires
        bits == 56 || bits == 112,
        bits <= 8 * data.len(),
        0 <= j < bits,
    ensures
        syndrome(flip_bit(data, j), bits) == syndrome(data, bits) ^ bit_syndrome(
            (j + row_offset(bits)) as u32,
        ),
{
    let crc = checksum(data, bits);
    let par = transmitted_parity(data, bits);
    lemma_checksum_flip(data, row_offset(bits), bits, j);
    lemma_parity_flip(data, bits, j);
    let row = parity_row((j + row_offset(bits)) as u32);
    if j >= bits - 24 {
        let one = 1u32 << ((bits - 1 - j) as u32);
        assert(row == 0);
        lemma_xor_algebra(crc, 0, 0);
        lemma_xor_algebra(crc, par, one);
    } else {
        lemma_xor_algebra(crc, row, par);
    }
}

proof fn lemma_xor_of_four(sa: u32, sb: u32, sc: u32, si: u32)
    by (bit_vector)
    ensures
        si == sa ==> ((sa ^ sb) ^ sc) ^ si == sb ^ sc,
        si == sb ==> ((sa ^ sb) ^ sc) ^ si == sa ^ sc,
        si == sc ==> ((sa ^ sb) ^ sc) ^ si == sa ^ sb,
        (((sa ^ sb) ^ sc) ^ si == 0) == (sa ^ sb ^ sc == si),
        ((sa ^ sb) ^ sc == 0) == (sa ^ sb == sc),
        (sa ^ sb == 0) == (sa == sb),
        (0 ^ sa) == sa,
{
}

/// An accepted frame in which one bit is then inverted is no longer
/// accepted, and the one inversion that makes it acceptable again is that of
/// the same bit: the repair of a single bit finds that bit and gives the
/// frame back.
pub proof fn law_one_flip_is_recovered(frame: Seq<u8>, bits: int, j: int)
    requires
        bits == 56 || bits == 112,
        bits <= 8 * frame.len(),
        parity_holds(frame, bits),
        0 <= j < bits,
    ensures
        !parity_holds(flip_bit(frame, j), bits),
        single_fix_at(flip_bit(frame, j), bits, j, frame),
        forall|i: int|
            0 <= i < bits && i != j ==> !parity_holds(
                #[trigger] flip_bit(flip_bit(frame, j), i),
                bits,
            ),
{
    let off = row_offset(bits);
    let damaged = flip_bit(frame, j);
    let sj = bit_syndrome((j + off) as u32);
    lemma_flip_syndrome(frame, bits, j);
    lemma_flip_twice(frame, j);
    lemma_xor_algebra(checksum(frame, bits), transmitted_parity(frame, bits), 0);
    lemma_xor_algebra(sj, 0, 0);
    lemma_syndromes_distinct((j + off) as u32, if j + off == 0 { 1u32 } else { 0u32 });
    lemma_xor_algebra(checksum(damaged, bits), transmitted_parity(damaged, bits), 0);
    assert forall|i: int| 0 <= i < bits && i != j implies !parity_holds(
        #[trigger] flip_bit(damaged, i),
        bits,
    ) by {
        let si = bit_syndrome((i + off) as u32);
        lemma_flip_syndrome(damaged, bits, i);
        lemma_syndromes_distinct((j + off) as u32, (i + off) as u32);
        lemma_xor_algebra(sj, si, 0);
        let repaired = flip_bit(damaged, i);
        lemma_xor_algebra(checksum(repaired, bits), transmitted_parity(repaired, bits), 0);
    }
}

/// An accepted frame in which two bits are then inverted is no longer
/// accepted, and no inversion of a single bit makes it acceptable: the repair
/// of a single bit declines it.
pub proof fn law_two_flips_are_declined(frame: Seq<u8>, bits: int, a: int, b: int)
    requires
        bits == 56 || bits == 112,
        bits <= 8 * frame.len(),
        parity_holds(frame, bits),
        0 <= a < bits,
        0 <= b < bits,
        a != b,
    ensures
        !parity_holds(flip_two(frame, a, b), bits),
        no_single_fix(flip_two(frame, a, b), bits),
    decreases (if a > b { 1int } else { 0int }),
{
    if a > b {
        lemma_flip_commutes(frame, a, b);
        law_two_flips_are_declined(frame, bits, b, a);
    } else {
        let off = row_offset(bits);
        let once = flip_bit(frame, a);
        let twice = flip_bit(once, b);
        let sa = bit_syndrome((a + off) as u32);
        let sb = bit_syndrome((b + off) as u32);
        lemma_flip_syndrome(frame, bits, a);
        lemma_flip_syndrome(once, bits, b);
        lemma_xor_algebra(checksum(frame, bits), transmitted_parity(frame, bits), 0);
        lemma_xor_algebra(sa, 0, 0);
        lemma_syndromes_distinct((a + off) as u32, (b + off) as u32);
        lemma_xor_algebra(sa, sb, 0);
        lemma_xor_algebra(checksum(twice, bits), transmitted_parity(twice, bits), 0);
        assert forall|i: int| 0 <= i < bits implies !parity_holds(
            #[trigger] flip_bit(twice, i),
            bits,
        ) by {
            let si = bit_syndrome((i + off) as u32);
            lemma_flip_syndrome(twice, bits, i);
            lemma_three_syndromes((a + off) as u32, (b + off) as u32, (i + off) as u32);
            lemma_xor_algebra(sa ^ sb, si, 0);
            let thrice = flip_bit(twice, i);
            lemma_xor_algebra(checksum(thrice, bits), transmitted_parity(thrice, bits), 0);
        }
    }
}

/// An accepted frame in which three bits are then inverted is no longer
/// accepted, and no inversion of a single bit makes it acceptable: the repair
/// of a single bit declines it. With five inverted bits this no longer holds
/// of every frame.
pub proof fn law_three_flips_are_declined(frame: Seq<u8>, bits: int, a: int, b: int, c: int)
    requires
        bits == 56 || bits == 112,
        bits <= 8 * frame.len(),
        parity_holds(frame, bits),
        0 <= a < b,
        b < c < bits,
    ensures
        !parity_holds(flip_bit(flip_two(frame, a, b), c), bits),
        no_single_fix(flip_bit(flip_two(frame, a, b), c), bits),
{
    let off = row_offset(bits);
    let once = flip_bit(frame, a);
    let twice = flip_bit(once, b);
    let thrice = flip_bit(twice, c);
    let sa = bit_syndrome((a + off) as u32);
    let sb = bit_syndrome((b + off) as u32);
    let sc = bit_syndrome((c + off) as u32);
    lemma_flip_syndrome(frame, bits, a);
    lemma_flip_syndrome(once, bits, b);
    lemma_flip_syndrome(twice, bits, c);
    lemma_xor_algebra(checksum(frame, bits), transmitted_parity(frame, bits), 0);
    lemma_xor_of_four(sa, sb, sc, 0);
    lemma_three_syndromes((a + off) as u32, (b + off) as u32, (c + off) as u32);
    lemma_xor_algebra(checksum(thrice, bits), transmitted_parity(thrice, bits), 0);
    assert forall|i: int| 0 <= i < bits implies !parity_holds(
        #[trigger] flip_bit(thrice, i),
        bits,
    ) by {
        let si = bit_syndrome((i + off) as u32);
        lemma_flip_syndrome(thrice, bits, i);
        lemma_xor_of_four(sa, sb, sc, si);
        lemma_xor_of_four(sb, sc, 0, 0);
        lemma_xor_of_four(sa, sc, 0, 0);
        lemma_syndromes_distinct((a + off) as u32, (b + off) as u32);
        lemma_syndromes_distinct((a + off) as u32, (c + off) as u32);
        lemma_syndromes_distinct((b + off) as u32, (c + off) as u32);
        if i != a && i != b && i != c {
            lemma_four_syndromes(
                (a + off) as u32,
                (b + off) as u32,
                (c + off) as u32,
                (i + off) as u32,
            );
        }
        let again = flip_bit(thrice, i);
        lemma_xor_algebra(checksum(again, bits), transmitted_parity(again, bits), 0);
    }
}

/// `data` with the bits `j` and `i` inverted.
pub open spec fn flip_two(data: Seq<u8>, j: int, i: int) -> Seq<u8> {
    flip_bit(flip_bit(data, j), i)
}

/// No inversion of a single bit makes the frame acceptable.
pub open spec fn no_single_fix(data: Seq<u8>, bits: int) -> bool {
    forall|i: int| 0 <= i < bits ==> !parity_holds(#[trigger] flip_bit(data, i), bits)
}

/// `fixed` is `data` with bit `j` inverted, it is acceptable, and no earlier
/// bit would have done.
pub open spec fn single_fix_at(data: Seq<u8>, bits: int, j: int, fixed: Seq<u8>) -> bool {
    &&& 0 <= j < bits
    &&& fixed == flip_bit(data, j)
    &&& parity_holds(fixed, bits)
    &&& forall|i: int| 0 <= i < j ==> !parity_holds(#[trigger] flip_bit(data, i), bits)
}

/// The pair `(a, b)` is tried before the pair `(j, i)`.
pub open spec fn tried_before(a: int, b: int, j: int, i: int) -> bool {
    a < j || (a == j && b < i)
}

/// No inversion of two bits makes the frame acceptable.
pub open spec fn no_double_fix(data: Seq<u8>, bits: int) -> bool {
    forall|a: int, b: int|
        0 <= a < b < bits ==> !parity_holds(#[trigger] flip_two(data, a, b), bits)
}

/// `fixed` is `data` with the bits `j` and `i` inverted, it is acceptable, and
/// no pair tried before `(j, i)` would have done.
pub open spec fn double_fix_at(data: Seq<u8>, bits: int, j: int, i: int, fixed: Seq<u8>) -> bool {
    &&& 0 <= j < i < bits
    &&& fixed == flip_two(data, j, i)
    &&& parity_holds(fixed, bits)
    &&& forall|a: int, b: int|
        0 <= a < b < bits && tried_before(a, b, j, i) ==> !parity_holds(
            #[trigger] flip_two(data, a, b),
            bits,
        )
}

/// `fixed` is `data` with bit `j` and some later bit inverted, it is
/// acceptable, and no pair tried before that one would have done.
pub open spec fn double_fix_from(data: Seq<u8>, bits: int, j: int, fixed: Seq<u8>) -> bool {
    exists|i: int| #[trigger] double_fix_at(data, bits, j, i, fixed)
}

fn invert_bit(data: &mut Vec<u8>, j: usize)
    requires
        j < 8 * old(data)@.len(),
    ensures
        final(data)@ == flip_bit(old(data)@, j as int),
{
    let shift: u8 = (7 - j % 8) as u8;
    let byte = data[j / 8];
    data[j / 8] = byte ^ (1u8 << shift);
}

/// Looks for the first bit whose inversion makes the frame acceptable, and
/// inverts it. Returns its position, or `None` with the frame as it was.
pub fn fix_single_bit_error(data: &mut Vec<u8>, bits: usize) -> (fixed: Option<usize>)
    requires
        old(data)@.len() == 14,
        bits == 56 || bits == 112,
    ensures
        match fixed {
            Some(j) => single_fix_at(old(data)@, bits as int, j as int, final(data)@),
            None => final(data)@ == old(data)@ && no_single_fix(old(data)@, bits as int),
        },
{
    let mut j: usize = 0;
    while j < bits
        invariant
            j <= bits,
            bits == 56 || bits == 112,
            data@ == old(data)@,
            data@.len() == 14,
            forall|i: int| 0 <= i < j ==> !parity_holds(#[trigger] flip_bit(data@, i), bits as int),
        decreases bits - j,
    {
        invert_bit(data, j);
        if check_parity(data.as_slice(), bits) {
            return Some(j);
        }
        invert_bit(data, j);
        proof {
            lemma_flip_twice(old(data)@, j as int);
        }
        j += 1;
    }
    None
}

/// Looks for the first pair of bits whose inversion makes the frame
/// acceptable, trying each first bit with every later second bit in turn, and
/// inverts the pair. Returns the position of the first bit of the pair, or
/// `None` with the frame as it was.
pub fn fix_double_bit_error(data: &mut Vec<u8>, bits: usize) -> (fixed: Option<usize>)
    requires
        old(data)@.len() == 14,
        bits == 56 || bits == 112,
    ensures
        match fixed {
            Some(j) => double_fix_from(old(data)@, bits as int, j as int, final(data)@),
            None => final(data)@ == old(data)@ && no_double_fix(old(data)@, bits as int),
        },
{
    match fix_bit_pair(data, bits) {
        Some((j, i)) => Some(j),
        None => None,
    }
}

/// Looks for the first pair of bits whose inversion makes the frame
/// acceptable, as `fix_double_bit_error` does, and returns the positions of
/// both bits.
pub fn fix_bit_pair(data: &mut Vec<u8>, bits: usize) -> (fixed: Option<(usize, usize)>)
    requires
        old(data)@.len() == 14,
        bits == 56 || bits == 112,
    ensures
        match fixed {
            Some((j, i)) => double_fix_at(old(data)@, bits as int, j as int, i as int, final(data)@),
            None => final(data)@ == old(data)@ && no_double_fix(old(data)@, bits as int),
        },
{
    let mut j: usize = 0;
    while j < bits
        invariant
            j <= bits,
            bits == 56 || bits == 112,
            data@ == old(data)@,
            data@.len() == 14,
            forall|a: int, b: int|
                0 <= a < b < bits && a < j ==> !parity_holds(
                    #[trigger] flip_two(data@, a, b),
                    bits as int,
                ),
        decreases bits - j,
    {
        invert_bit(data, j);
        let mut i: usize = j + 1;
        while i < bits
            invariant
                j < i <= bits,
                bits == 56 || bits == 112,
                data@ == flip_bit(old(data)@, j as int),
                data@.len() == 14,
                forall|a: int, b: int|
                    0 <= a < b < bits && tried_before(a, b, j as int, i as int) ==> !parity_holds(
                        #[trigger] flip_two(old(data)@, a, b),
                        bits as int,
                    ),
            decreases bits - i,
        {
            invert_bit(data, i);
            if check_parity(data.as_slice(), bits) {
                return Some((j, i));
            }
            invert_bit(data, i);
            proof {
                lemma_flip_twice(flip_bit(old(data)@, j as int), i as int);
            }
            i += 1;
        }
        invert_bit(data, j);
        proof {
            lemma_flip_twice(old(data)@, j as int);
        }
        j += 1;
    }
    None
}

/// What the parity stage did with a frame.
#[derive(Clone, Copy, Debug, PartialEq, Eq)]
pub enum Repair {
    /// The frame was acceptable as received.
    Intact,
    /// One bit was inverted, at this position.
    OneBit(usize),
    /// Two bits were inverted, at these positions, the lower one first.
    TwoBits(usize, usize),
    /// The frame is not acceptable and was left as received.
    Failed,
}

/// `outcome` and `repaired` are what the parity stage makes of the frame
/// `received`: the frame as it is where it is acceptable; else the first
/// repair of one bit; else, where `double_bit` allows it, the first repair of
/// two bits; else the frame as it is, reported as failed.
pub open spec fn repair_outcome(
    received: Seq<u8>,
    bits: int,
    double_bit: bool,
    outcome: Repair,
    repaired: Seq<u8>,
) -> bool {
    match outcome {
        Repair::Intact => parity_holds(received, bits) && repaired == received,
        Repair::OneBit(j) => {
            &&& !parity_holds(received, bits)
            &&& single_fix_at(received, bits, j as int, repaired)
        },
        Repair::TwoBits(j, i) => {
            &&& double_bit
            &&& !parity_holds(received, bits)
            &&& no_single_fix(received, bits)
            &&& double_fix_at(received, bits, j as int, i as int, repaired)
        },
        Repair::Failed => {
            &&& repaired == received
            &&& !parity_holds(received, bits)
            &&& no_single_fix(received, bits)
            &&& double_bit ==> no_double_fix(received, bits)
        },
    }
}

/// The parity stage leaves no choice: a frame has one outcome, and one frame
/// comes out of it.
pub proof fn law_repair_is_determined(
    received: Seq<u8>,
    bits: int,
    double_bit: bool,
    first: Repair,
    first_frame: Seq<u8>,
    second: Repair,
    second_frame: Seq<u8>,
)
    requires
        repair_outcome(received, bits, double_bit, first, first_frame),
        repair_outcome(received, bits, double_bit, second, second_frame),
    ensures
        first == second,
        first_frame == second_frame,
{
    match (first, second) {
        (Repair::OneBit(j), Repair::OneBit(k)) => {
            assert(parity_holds(flip_bit(received, j as int), bits));
            assert(parity_holds(flip_bit(received, k as int), bits));
        },
        (Repair::OneBit(j), _) => {
            assert(parity_holds(flip_bit(received, j as int), bits));
        },
        (_, Repair::OneBit(k)) => {
            assert(parity_holds(flip_bit(received, k as int), bits));
        },
        (Repair::TwoBits(j, i), Repair::TwoBits(k, l)) => {
            assert(parity_holds(flip_two(received, j as int, i as int), bits));
            assert(parity_holds(flip_two(received, k as int, l as int), bits));
        },
        (Repair::TwoBits(j, i), Repair::Failed) => {
            assert(parity_holds(flip_two(received, j as int, i as int), bits));
        },
        (Repair::Failed, Repair::TwoBits(k, l)) => {
            assert(parity_holds(flip_two(received, k as int, l as int), bits));
        },
        _ => {},
    }
}

/// The parity stage: accepts the frame as received, or after the repair of one
/// bit, or, where `double_bit` allows it, of two bits; otherwise leaves it as
/// received and reports the failure. Whatever is not reported as failed
/// carries the parity of its own checksum.
pub fn repair_frame(data: &mut Vec<u8>, bits: usize, double_bit: bool) -> (outcome: Repair)
    requires
        old(data)@.len() == 14,
        bits == 56 || bits == 112,
    ensures
        final(data)@.len() == 14,
        !(outcome is Failed) ==> parity_holds(final(data)@, bits as int),
        repair_outcome(old(data)@, bits as int, double_bit, outcome, final(data)@),
{
    if check_parity(data.as_slice(), bits) {
        return Repair::Intact;
    }
    if let Some(j) = fix_single_bit_error(data, bits) {
        return Repair::OneBit(j);
    }
    if double_bit {
        if let Some((j, i)) = fix_bit_pair(data, bits) {
            return Repair::TwoBits(j, i);
        }
    }
    Repair::Failed
}

} // verus!

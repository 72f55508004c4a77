//! A cursor that reads bits, most significant first, from a run of bytes.

use vstd::arithmetic::power2::{lemma2_to64, lemma_pow2_strictly_increases, lemma_pow2_unfold, pow2};
use vstd::prelude::*;

verus! {

/// Bit `j` of `data`, counting from the most significant bit of the first
/// byte.
pub open spec fn bit_at(data: Seq<u8>, j: int) -> bool {
    (data[j / 8] >> ((7 - j % 8) as u8)) & 1 == 1
}

/// The number whose binary digits are the `count` bits of `data` that start
/// at bit `start`, the first of them the most significant.
pub open spec fn bits_value(data: Seq<u8>, start: int, count: int) -> int
    decreases count,
{
    if count <= 0 {
        0
    } else {
        2 * bits_value(data, start, count - 1) + if bit_at(data, start + count - 1) {
            1int
        } else {
            0int
        }
    }
}

/// Reading `a` bits and then `b` more gives the two halves of what reading
/// `a + b` bits at once gives: the first number, moved up by `b` binary
/// places, plus the second.
pub proof fn law_bits_value_split(data: Seq<u8>, start: int, a: int, b: int)
    requires
        0 <= a,
        0 <= b,
    ensures
        bits_value(data, start, a + b) == bits_value(data, start, a) * pow2(b as nat) + bits_value(
            data,
            start + a,
            b,
        ),
    decreases b,
{
    if b == 0 {
        lemma2_to64();
    } else {
        law_bits_value_split(data, start, a, b - 1);
        lemma_pow2_unfold(b as nat);
        let high = bits_value(data, start, a);
        let half = pow2((b - 1) as nat) as int;
        assert(2 * (high * half) == high * (2 * half)) by (nonlinear_arith);
    }
}

proof fn lemma_byte_from_bits(byte: u8)
    by (bit_vector)
    ensures
        byte == 128 * ((byte >> 7u8) & 1) + 64 * ((byte >> 6u8) & 1) + 32 * ((byte >> 5u8) & 1)
            + 16 * ((byte >> 4u8) & 1) + 8 * ((byte >> 3u8) & 1) + 4 * ((byte >> 2u8) & 1) + 2 * ((
        byte >> 1u8) & 1) + ((byte >> 0u8) & 1),
        (byte >> 7u8) & 1 <= 1,
        (byte >> 6u8) & 1 <= 1,
        (byte >> 5u8) & 1 <= 1,
        (byte >> 4u8) & 1 <= 1,
        (byte >> 3u8) & 1 <= 1,
        (byte >> 2u8) & 1 <= 1,
        (byte >> 1u8) & 1 <= 1,
        (byte >> 0u8) & 1 <= 1,
{
}

/// The eight bits of a byte, read as one number, are the byte.
pub proof fn law_bits_value_of_byte(data: Seq<u8>, k: int)
    requires
        0 <= k < data.len(),
    ensures
        bits_value(data, 8 * k, 8) == data[k],
{
    reveal_with_fuel(bits_value, 9);
    lemma_byte_from_bits(data[k]);
}

/// MSB-first bit reader.
pub struct BitReader<'a> {
    data: &'a [u8],
    byte_index: usize,
    bit_offset: u8,
}

impl<'a> BitReader<'a> {
    #[verifier::type_invariant]
    spec fn within_data(&self) -> bool {
        &&& self.bit_offset < 8
        &&& self.byte_index <= self.data@.len()
        &&& self.byte_index == self.data@.len() ==> self.bit_offset == 0
    }

    /// The bytes that are read.
    pub closed spec fn bytes(&self) -> Seq<u8> {
        self.data@
    }

    /// The index of the next bit to be read.
    pub closed spec fn position(&self) -> int {
        8 * self.byte_index + self.bit_offset
    }

    /// A reader at the first bit of `data`.
    pub fn new(data: &'a [u8]) -> (r: Self)
        ensures
            r.bytes() == data@,
            r.position() == 0,
    {
        BitReader { data, byte_index: 0, bit_offset: 0 }
    }

    /// The bytes that are read, whatever the position.
    pub fn data(&self) -> (d: &[u8])
        ensures
            d@ == self.bytes(),
    {
        self.data
    }

    /// Reads one bit and moves past it.
    pub fn read_bit(&mut self) -> (bit: bool)
        requires
            old(self).position() < 8 * old(self).bytes().len(),
        ensures
            bit == bit_at(old(self).bytes(), old(self).position()),
            final(self).bytes() == old(self).bytes(),
            final(self).position() == old(self).position() + 1,
    {
        proof {
            use_type_invariant(&*self);
        }
        let byte = self.data[self.byte_index];
        let bit = (byte >> (7 - self.bit_offset)) & 1;
        if self.bit_offset == 7 {
            self.bit_offset = 0;
            self.byte_index += 1;
        } else {
            self.bit_offset += 1;
        }
        bit == 1
    }

    /// Reads `count` bits as one number, the first bit read being the most
    /// significant, and moves past them.
    pub fn read_bits(&mut self, count: usize) -> (value: u32)
        requires
            count <= 32,
            old(self).position() + count <= 8 * old(self).bytes().len(),
        ensures
            value == bits_value(old(self).bytes(), old(self).position(), count as int),
            value < pow2(count as nat),
            final(self).bytes() == old(self).bytes(),
            final(self).position() == old(self).position() + count,
    {
        let mut result: u64 = 0;
        let mut i: usize = 0;
        proof {
            lemma2_to64();
        }
        while i < count
            invariant
                i <= count <= 32,
                self.bytes() == old(self).bytes(),
                self.position() == old(self).position() + i,
                old(self).position() + count <= 8 * old(self).bytes().len(),
                result == bits_value(old(self).bytes(), old(self).position(), i as int),
                result < pow2(i as nat),
            decreases count - i,
        {
            proof {
                lemma_pow2_unfold((i + 1) as nat);
                lemma_pow2_strictly_increases(i as nat, 33);
                lemma2_to64();
            }
            let bit = self.read_bit();
            result = 2 * result + if bit { 1 } else { 0 };
            i += 1;
        }
        proof {
            if count < 32 {
                lemma_pow2_strictly_increases(count as nat, 32);
            }
            lemma2_to64();
        }
        result as u32
    }
}

/// The number whose binary digits are the first `n` of `bits`, the first of
/// them the least significant.
pub open spec fn bits_to_u32_upto(bits: Seq<bool>, n: int) -> u32
    decreases n,
{
    if n <= 0 {
        0
    } else if bits[n - 1] {
        bits_to_u32_upto(bits, n - 1) | (1u32 << ((n - 1) as u32))
    } else {
        bits_to_u32_upto(bits, n - 1)
    }
}

/// Packs up to 32 bits into a number, the first bit being the least
/// significant.
pub fn bits_to_u32(bits: &[bool]) -> (value: u32)
    requires
        bits@.len() <= 32,
    ensures
        value == bits_to_u32_upto(bits@, bits@.len() as int),
{
    let mut value: u32 = 0;
    let mut i: usize = 0;
    while i < bits.len()
        invariant
            i <= bits.len() <= 32,
            value == bits_to_u32_upto(bits@, i as int),
        decreases bits.len() - i,
    {
        if bits[i] {
            value |= 1u32 << (i as u32);
        }
        i += 1;
    }
    value
}

} // verus!

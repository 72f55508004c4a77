//! The parity code itself: the table of its rows, and what makes it able to
//! tell one, two and three inverted bits from none.

use vstd::prelude::*;

verus! {

/// Row `j` of the parity table: what bit `j` of a long frame adds to the
/// checksum. The rows of the 24 parity bits themselves are zero.
pub open spec fn parity_row(j: u32) -> u32 {
    if j == 0 {
        0x3935ea
    } else if j == 1 {
        0x1c9af5
    } else if j == 2 {
        0xf1b77e
    } else if j == 3 {
        0x78dbbf
    } else if j == 4 {
        0xc397db
    } else if j == 5 {
        0x9e31e9
    } else if j == 6 {
        0xb0e2f0
    } else if j == 7 {
        0x587178
    } else if j == 8 {
        0x2c38bc
    } else if j == 9 {
        0x161c5e
    } else if j == 10 {
        0x0b0e2f
    } else if j == 11 {
        0xfa7d13
    } else if j == 12 {
        0x82c48d
    } else if j == 13 {
        0xbe9842
    } else if j == 14 {
        0x5f4c21
    } else if j == 15 {
        0xd05c14
    } else if j == 16 {
        0x682e0a
    } else if j == 17 {
        0x341705
    } else if j == 18 {
        0xe5f186
    } else if j == 19 {
        0x72f8c3
    } else if j == 20 {
        0xc68665
    } else if j == 21 {
        0x9cb936
    } else if j == 22 {
        0x4e5c9b
    } else if j == 23 {
        0xd8d449
    } else if j == 24 {
        0x939020
    } else if j == 25 {
        0x49c810
    } else if j == 26 {
        0x24e408
    } else if j == 27 {
        0x127204
    } else if j == 28 {
        0x093902
    } else if j == 29 {
        0x049c81
    } else if j == 30 {
        0xfdb444
    } else if j == 31 {
        0x7eda22
    } else if j == 32 {
        0x3f6d11
    } else if j == 33 {
        0xe04c8c
    } else if j == 34 {
        0x702646
    } else if j == 35 {
        0x381323
    } else if j == 36 {
        0xe3f395
    } else if j == 37 {
        0x8e03ce
    } else if j == 38 {
        0x4701e7
    } else if j == 39 {
        0xdc7af7
    } else if j == 40 {
        0x91c77f
    } else if j == 41 {
        0xb719bb
    } else if j == 42 {
        0xa476d9
    } else if j == 43 {
        0xadc168
    } else if j == 44 {
        0x56e0b4
    } else if j == 45 {
        0x2b705a
    } else if j == 46 {
        0x15b82d
    } else if j == 47 {
        0xf52612
    } else if j == 48 {
        0x7a9309
    } else if j == 49 {
        0xc2b380
    } else if j == 50 {
        0x6159c0
    } else if j == 51 {
        0x30ace0
    } else if j == 52 {
        0x185670
    } else if j == 53 {
        0x0c2b38
    } else if j == 54 {
        0x06159c
    } else if j == 55 {
        0x030ace
    } else if j == 56 {
        0x018567
    } else if j == 57 {
        0xff38b7
    } else if j == 58 {
        0x80665f
    } else if j == 59 {
        0xbfc92b
    } else if j == 60 {
        0xa01e91
    } else if j == 61 {
        0xaff54c
    } else if j == 62 {
        0x57faa6
    } else if j == 63 {
        0x2bfd53
    } else if j == 64 {
        0xea04ad
    } else if j == 65 {
        0x8af852
    } else if j == 66 {
        0x457c29
    } else if j == 67 {
        0xdd4410
    } else if j == 68 {
        0x6ea208
    } else if j == 69 {
        0x375104
    } else if j == 70 {
        0x1ba882
    } else if j == 71 {
        0x0dd441
    } else if j == 72 {
        0xf91024
    } else if j == 73 {
        0x7c8812
    } else if j == 74 {
        0x3e4409
    } else if j == 75 {
        0xe0d800
    } else if j == 76 {
        0x706c00
    } else if j == 77 {
        0x383600
    } else if j == 78 {
        0x1c1b00
    } else if j == 79 {
        0x0e0d80
    } else if j == 80 {
        0x0706c0
    } else if j == 81 {
        0x038360
    } else if j == 82 {
        0x01c1b0
    } else if j == 83 {
        0x00e0d8
    } else if j == 84 {
        0x00706c
    } else if j == 85 {
        0x003836
    } else if j == 86 {
        0x001c1b
    } else if j == 87 {
        0xfff409
    } else {
        0
    }
}

/// Row `j` of the parity table, looked up.
pub fn lookup_row(j: usize) -> (row: u32)
    requires
        j < 112,
    ensures
        row == parity_row(j as u32),
{
    match j {
        0 => 0x3935ea,
        1 => 0x1c9af5,
        2 => 0xf1b77e,
        3 => 0x78dbbf,
        4 => 0xc397db,
        5 => 0x9e31e9,
        6 => 0xb0e2f0,
        7 => 0x587178,
        8 => 0x2c38bc,
        9 => 0x161c5e,
        10 => 0x0b0e2f,
        11 => 0xfa7d13,
        12 => 0x82c48d,
        13 => 0xbe9842,
        14 => 0x5f4c21,
        15 => 0xd05c14,
        16 => 0x682e0a,
        17 => 0x341705,
        18 => 0xe5f186,
        19 => 0x72f8c3,
        20 => 0xc68665,
        21 => 0x9cb936,
        22 => 0x4e5c9b,
        23 => 0xd8d449,
        24 => 0x939020,
        25 => 0x49c810,
        26 => 0x24e408,
        27 => 0x127204,
        28 => 0x093902,
        29 => 0x049c81,
        30 => 0xfdb444,
        31 => 0x7eda22,
        32 => 0x3f6d11,
        33 => 0xe04c8c,
        34 => 0x702646,
        35 => 0x381323,
        36 => 0xe3f395,
        37 => 0x8e03ce,
        38 => 0x4701e7,
        39 => 0xdc7af7,
        40 => 0x91c77f,
        41 => 0xb719bb,
        42 => 0xa476d9,
        43 => 0xadc168,
        44 => 0x56e0b4,
        45 => 0x2b705a,
        46 => 0x15b82d,
        47 => 0xf52612,
        48 => 0x7a9309,
        49 => 0xc2b380,
        50 => 0x6159c0,
        51 => 0x30ace0,
        52 => 0x185670,
        53 => 0x0c2b38,
        54 => 0x06159c,
        55 => 0x030ace,
        56 => 0x018567,
        57 => 0xff38b7,
        58 => 0x80665f,
        59 => 0xbfc92b,
        60 => 0xa01e91,
        61 => 0xaff54c,
        62 => 0x57faa6,
        63 => 0x2bfd53,
        64 => 0xea04ad,
        65 => 0x8af852,
        66 => 0x457c29,
        67 => 0xdd4410,
        68 => 0x6ea208,
        69 => 0x375104,
        70 => 0x1ba882,
        71 => 0x0dd441,
        72 => 0xf91024,
        73 => 0x7c8812,
        74 => 0x3e4409,
        75 => 0xe0d800,
        76 => 0x706c00,
        77 => 0x383600,
        78 => 0x1c1b00,
        79 => 0x0e0d80,
        80 => 0x0706c0,
        81 => 0x038360,
        82 => 0x01c1b0,
        83 => 0x00e0d8,
        84 => 0x00706c,
        85 => 0x003836,
        86 => 0x001c1b,
        87 => 0xfff409,
        _ => 0,
    }
}

/// What a flip of bit `j` of a long frame does to the difference between the
/// checksum and the transmitted parity.
pub open spec fn bit_syndrome(j: u32) -> u32 {
    if j < 88 {
        parity_row(j)
    } else {
        1u32 << ((111 - j) as u32)
    }
}

/// The syndromes of two bits differ, and none is zero: one inverted bit is
/// noticed, and the syndrome says which bit it is.
pub proof fn lemma_syndromes_distinct(a: u32, b: u32)
    by (bit_vector)
    requires
        a < 112,
        b < 112,
        a != b,
    ensures
        bit_syndrome(a) != bit_syndrome(b),
        bit_syndrome(a) != 0,
{
}

/// The syndromes of two bits never add up to that of a third.
#[verifier::rlimit(100)]
pub proof fn lemma_three_syndromes(a: u32, b: u32, c: u32)
    by (bit_vector)
    requires
        a < b,
        b < 112,
        c < 112,
    ensures
        bit_syndrome(a) ^ bit_syndrome(b) != bit_syndrome(c),
{
}

/// The syndromes of three bits never add up to that of a fourth.
#[verifier::rlimit(100)]
pub proof fn lemma_four_syndromes(a: u32, b: u32, c: u32, d: u32)
    by (bit_vector)
    requires
        a < b,
        b < c,
        c < 112,
        d < 112,
    ensures
        bit_syndrome(a) ^ bit_syndrome(b) ^ bit_syndrome(c) != bit_syndrome(d),
{
}

} // verus!

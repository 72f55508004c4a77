use stribog::bitreader::{bits_to_u32, BitReader};

#[test]
fn read_bit_goes_from_the_top_of_each_byte() {
    let bytes = [0b1010_0000u8, 0b0000_0001];
    let mut r = BitReader::new(&bytes);
    let mut bits = Vec::new();
    for _ in 0..16 {
        bits.push(r.read_bit());
    }
    let expected = [
        true, false, true, false, false, false, false, false, false, false, false, false, false,
        false, false, true,
    ];
    assert_eq!(bits, expected);
}

#[test]
fn read_bits_packs_most_significant_first() {
    let bytes = [0x58u8, 0xC3, 0x82, 0xD6, 0x90, 0xC8, 0xAC];
    let mut r = BitReader::new(&bytes);
    assert_eq!(r.read_bits(5), 11);
    assert_eq!(r.read_bits(2), 0);
    assert!(!r.read_bit());
    assert_eq!(r.read_bits(12), 0xC38);
    assert_eq!(r.read_bits(1), 0);
    assert!(!r.read_bit());
    assert_eq!(r.read_bits(17), 93000);
    assert_eq!(r.read_bits(17), 51372);
}

#[test]
fn read_bits_of_no_bits_is_zero_and_of_all_bits_is_the_word() {
    let bytes = [0xDEu8, 0xAD, 0xBE, 0xEF, 0x01];
    let mut r = BitReader::new(&bytes);
    assert_eq!(r.read_bits(0), 0);
    assert_eq!(r.read_bits(32), 0xDEADBEEF);
    assert_eq!(r.read_bits(8), 1);
}

#[test]
fn read_bits_crosses_byte_borders() {
    let bytes = [0x0Fu8, 0xF0];
    let mut r = BitReader::new(&bytes);
    assert_eq!(r.read_bits(4), 0);
    assert_eq!(r.read_bits(8), 0xFF);
    assert_eq!(r.read_bits(4), 0);
}

#[test]
fn data_is_what_the_reader_was_made_with() {
    let bytes = [1u8, 2, 3];
    let mut r = BitReader::new(&bytes);
    assert_eq!(r.data(), &[1u8, 2, 3]);
    r.read_bits(9);
    assert_eq!(r.data(), &[1u8, 2, 3]);
}

#[test]
fn bits_to_u32_packs_least_significant_first() {
    assert_eq!(bits_to_u32(&[]), 0);
    assert_eq!(bits_to_u32(&[true]), 1);
    assert_eq!(bits_to_u32(&[false, true]), 2);
    assert_eq!(bits_to_u32(&[true, false, true, true]), 13);
    assert_eq!(bits_to_u32(&[true; 32]), u32::MAX);
    let mut top = [false; 32];
    top[31] = true;
    assert_eq!(bits_to_u32(&top), 0x8000_0000);
}

#[test]
fn reading_in_two_steps_gives_the_halves_of_one_read() {
    let bytes = [0xA5u8, 0x3C, 0x7E, 0x81, 0xFF];
    for start in 0..8usize {
        for a in 0..=16usize {
            for b in 0..=16usize {
                let mut whole = BitReader::new(&bytes);
                whole.read_bits(start);
                let all = whole.read_bits(a + b) as u64;
                let mut parts = BitReader::new(&bytes);
                parts.read_bits(start);
                let high = parts.read_bits(a) as u64;
                let low = parts.read_bits(b) as u64;
                assert_eq!(all, (high << b) + low);
            }
        }
    }
}

#[test]
fn eight_bits_at_a_byte_border_are_the_byte() {
    let bytes = [0x00u8, 0xFF, 0x5A, 0x01, 0x80];
    let mut r = BitReader::new(&bytes);
    for byte in bytes {
        assert_eq!(r.read_bits(8), byte as u32);
    }
}

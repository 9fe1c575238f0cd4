use chip8::chip8::Chip8;
use chip8::constants::PROGRAM_START_ADDRESS;
use chip8::utils::get_bits_of_byte;
use std::collections::HashMap;

#[test]
fn test_chip8_test_chip8_constructor() {
    let c8 = Chip8::blank();
    assert_eq!(c8.pc() as usize, PROGRAM_START_ADDRESS)
}

#[test]
fn test_get_bits_of_byte() {
    let mut test_cases: HashMap<u8, Vec<u8>> = HashMap::new();
    test_cases.insert(0xFF, vec![1, 1, 1, 1, 1, 1, 1, 1]);
    test_cases.insert(0x9F, vec![1, 0, 0, 1, 1, 1, 1, 1]);
    test_cases.insert(0xFA, vec![1, 1, 1, 1, 1, 0, 1, 0]);

    for (input, expected) in &test_cases {
        let actual = get_bits_of_byte(*input);

        for i in 0..8 {
            assert_eq!(actual[i], expected[i]);
        }
    }
}

#[test]
fn bits_of_every_byte_rebuild_the_byte() {
    for byte in 0..=255u8 {
        let bits = get_bits_of_byte(byte);
        let mut value: u32 = 0;
        for i in 0..8 {
            assert!(bits[i] == 0 || bits[i] == 1);
            value = value * 2 + bits[i] as u32;
        }
        assert_eq!(value, byte as u32);
    }
}

#[test]
fn bits_of_zero_and_of_one_bit() {
    assert_eq!(get_bits_of_byte(0x00), [0, 0, 0, 0, 0, 0, 0, 0]);
    assert_eq!(get_bits_of_byte(0x80), [1, 0, 0, 0, 0, 0, 0, 0]);
    assert_eq!(get_bits_of_byte(0x01), [0, 0, 0, 0, 0, 0, 0, 1]);
}

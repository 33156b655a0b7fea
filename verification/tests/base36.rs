use panel_firmware::base36::{encode, INPUT_LENGTH, OUTPUT_MAX_LENGTH};

fn in_alphabet(token: &str) -> bool {
    !token.is_empty()
        && token
            .chars()
            .all(|c| c.is_ascii_digit() || c.is_ascii_lowercase())
}

fn value_of(token: &str) -> u64 {
    token.chars().fold(0u64, |value, c| {
        let digit = if c.is_ascii_digit() {
            c as u64 - '0' as u64
        } else {
            c as u64 - 'a' as u64 + 10
        };
        value * 36 + digit
    })
}

#[test]
fn encode_one_is_the_digit_one() {
    assert_eq!(encode([0, 0, 0, 0, 0, 1]), "1");
}

#[test]
fn encode_zero_is_a_single_zero() {
    let token = encode([0; 6]);
    assert_eq!(token, "0");
    assert!(!token.is_empty());
}

#[test]
fn encode_all_ones_is_the_largest_token() {
    let token = encode([0xff; 6]);
    assert_eq!(token, "2rrvthnxtr");
    assert!(token.len() <= 10);
    assert_eq!(value_of(&token), (1u64 << 48) - 1);
}

#[test]
fn encode_last_single_digit_and_first_two_digits() {
    assert_eq!(encode([0, 0, 0, 0, 0, 9]), "9");
    assert_eq!(encode([0, 0, 0, 0, 0, 10]), "a");
    assert_eq!(encode([0, 0, 0, 0, 0, 35]), "z");
    assert_eq!(encode([0, 0, 0, 0, 0, 36]), "10");
}

#[test]
fn encode_reads_the_bytes_most_significant_first() {
    assert_eq!(encode([0, 0, 0, 0, 1, 0]), "74");
    assert_eq!(encode([1, 0, 0, 0, 0, 0]), "e13wu1og");
    assert_eq!(encode([0xde, 0xad, 0xbe, 0xef, 0x00, 0x01]), "2escxsyewx");
    assert_eq!(encode([0x24, 0x0a, 0xc4, 0x12, 0x34, 0x56]), "e1p5jo7rq");
}

#[test]
fn encode_twice_gives_the_same_token() {
    let address = [0x24, 0x0a, 0xc4, 0x12, 0x34, 0x56];
    assert_eq!(encode(address), encode(address));
    assert_eq!(encode([0; 6]), encode([0; 6]));
}

#[test]
fn encode_stays_in_the_alphabet_and_in_length() {
    let mut address = [0u8; INPUT_LENGTH];
    for step in 0..600u32 {
        for (i, byte) in address.iter_mut().enumerate() {
            *byte = (step.wrapping_mul(2654435761).rotate_left(5 * i as u32) >> 8) as u8;
        }
        let token = encode(address);
        assert!(in_alphabet(&token), "{token}");
        assert!(token.len() <= OUTPUT_MAX_LENGTH);
        assert!(token.len() == 1 || !token.starts_with('0'));
    }
}

#[test]
fn encode_can_be_read_back() {
    for address in [
        [0u8, 0, 0, 0, 0, 0],
        [0, 0, 0, 0, 0, 1],
        [0, 0, 0, 1, 2, 3],
        [0x24, 0x0a, 0xc4, 0x12, 0x34, 0x56],
        [0xff; 6],
    ] {
        let mut number = 0u64;
        for byte in address {
            number = number * 256 + byte as u64;
        }
        assert_eq!(value_of(&encode(address)), number);
    }
}

#[test]
fn encode_tells_addresses_apart() {
    assert_ne!(encode([0, 0, 0, 0, 0, 1]), encode([0, 0, 0, 0, 1, 0]));
    assert_ne!(encode([0, 0, 0, 0, 0, 36]), encode([0, 0, 0, 0, 0, 1]));
}

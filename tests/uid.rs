use yabridgectl::uid::{decode_hex_uid, encode_hex_uid, rewrite_uid_byte_order, UidError};

// Bytes 0-3 reversed, bytes 4-7 swapped in pairs (44 55 66 77 becomes 55 44 77 66), bytes
// 8-15 unchanged.
#[test]
fn rewrite_of_literal_uid() {
    let uid = decode_hex_uid("0011223344556677FF00112233445566").unwrap();
    let rewritten = rewrite_uid_byte_order(&uid);
    assert_eq!(encode_hex_uid(&rewritten), "3322110055447766FF00112233445566");
}

#[test]
fn rewrite_twice_gives_back_the_uid() {
    let samples: [[u8; 16]; 3] = [
        [0; 16],
        [0, 1, 2, 3, 4, 5, 6, 7, 8, 9, 10, 11, 12, 13, 14, 15],
        [255, 128, 7, 19, 200, 1, 99, 42, 3, 3, 3, 3, 250, 251, 252, 253],
    ];
    for b in samples.iter() {
        let once = rewrite_uid_byte_order(b);
        assert_eq!(&rewrite_uid_byte_order(&once), b);
    }
}

#[test]
fn rewrite_moves_only_the_first_eight_bytes() {
    let b: [u8; 16] = [0, 1, 2, 3, 4, 5, 6, 7, 8, 9, 10, 11, 12, 13, 14, 15];
    assert_eq!(
        rewrite_uid_byte_order(&b),
        [3, 2, 1, 0, 5, 4, 7, 6, 8, 9, 10, 11, 12, 13, 14, 15]
    );
}

#[test]
fn decode_accepts_lower_case() {
    let uid = decode_hex_uid("abcdef0123456789ABCDEF0123456789").unwrap();
    assert_eq!(uid[0], 0xab);
    assert_eq!(uid[1], 0xcd);
    assert_eq!(uid[8], 0xab);
    assert_eq!(encode_hex_uid(&uid), "ABCDEF0123456789ABCDEF0123456789");
}

#[test]
fn decode_rejects_wrong_length() {
    assert_eq!(decode_hex_uid("0011"), Err(UidError::WrongLength));
    assert_eq!(decode_hex_uid(""), Err(UidError::WrongLength));
    assert_eq!(
        decode_hex_uid("0011223344556677FF0011223344556677"),
        Err(UidError::WrongLength)
    );
}

#[test]
fn decode_rejects_non_hex_digits() {
    assert_eq!(
        decode_hex_uid("0011223344556677FF0011223344556G"),
        Err(UidError::InvalidDigit)
    );
    assert_eq!(
        decode_hex_uid("+011223344556677FF00112233445566"),
        Err(UidError::InvalidDigit)
    );
}

#[test]
fn encode_writes_two_upper_case_digits_per_byte() {
    let mut b = [0u8; 16];
    b[0] = 0x0f;
    b[15] = 0xa0;
    assert_eq!(encode_hex_uid(&b), "0F0000000000000000000000000000A0");
}

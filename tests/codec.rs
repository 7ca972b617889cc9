use meowstore::username::{be_u128, ParseError, Username};

#[test]
fn parse_and_render_name() {
    let n = Username::from_str("griffpatch").unwrap();
    assert_eq!(n.to_string(), "griffpatch");
}

#[test]
fn round_trip_through_packed_form() {
    for s in ["a", "-", "_", "Z9", "griffpatch", "abcdefghijklmnopqrst", "-_-_09AZaz", "zzzzzzzzzzzzzzzzzzzz"] {
        let n = Username::from_str(s).unwrap();
        let packed = n.encode();
        let back = Username::decode(&packed);
        assert_eq!(back.to_string(), s);
        assert_eq!(back, n);
    }
}

#[test]
fn empty_name_is_rejected() {
    assert_eq!(Username::from_str(""), Err(ParseError::Empty));
}

#[test]
fn packed_layout_of_four_symbols() {
    // codes: '0' -> 1, '1' -> 2, '2' -> 3, '3' -> 4
    let n = Username::from_str("0123").unwrap();
    let b = n.encode();
    assert_eq!(b[15], 4);
    assert_eq!(b[14], 1 | ((2 & 3) << 6));
    assert_eq!(b[13], (2 >> 2) | ((3 & 15) << 4));
    assert_eq!(b[12], (3 >> 4) | (4 << 2));
    assert!(b[..12].iter().all(|&x| x == 0));
}

#[test]
fn too_long_name_is_rejected() {
    assert_eq!(Username::from_str("abcdefghijklmnopqrstu"), Err(ParseError::TooLong));
    assert_eq!(Username::from_str("abcdefghijklmnopqrst").map(|n| n.to_string()), Ok("abcdefghijklmnopqrst".to_string()));
}

#[test]
fn invalid_symbol_is_rejected() {
    assert_eq!(Username::from_str("grif patch"), Err(ParseError::InvalidSymbol));
    assert_eq!(Username::from_str("a.b"), Err(ParseError::InvalidSymbol));
    assert_eq!(Username::from_str("é"), Err(ParseError::InvalidSymbol));
    assert_eq!(Username::from_str("ééééééééééééééééééééé"), Err(ParseError::TooLong));
}

// Only single-symbol names are compared: the first symbol is the least
// significant digit of the packed form, so longer names do not sort this way.
#[test]
fn single_symbol_keys_follow_alphabet_order() {
    let a = Username::from_str("A").unwrap().key();
    let us = Username::from_str("_").unwrap().key();
    let lo = Username::from_str("a").unwrap().key();
    let dash = Username::from_str("-").unwrap().key();
    assert!(dash < a && a < us && us < lo);
}

#[test]
fn key_is_big_endian_packed_value() {
    let n = Username::from_str("b").unwrap();
    let b = n.encode();
    assert_eq!(n.key(), u128::from_be_bytes(b));
    assert_eq!(be_u128(&b), u128::from_be_bytes(b));
}

#[test]
fn packed_payload_is_base64_digits_first_symbol_lowest() {
    // codes: 'b' -> 39, 'A' -> 11, '0' -> 1
    let b = Username::from_str("bA0").unwrap().encode();
    let mut payload = [0u8; 16];
    payload[1..16].copy_from_slice(&b[0..15]);
    assert_eq!(u128::from_be_bytes(payload), 39 + 11 * 64 + 1 * 64 * 64);
    assert_eq!(b[15], 3);
}

#[test]
fn from_raw_builds_name() {
    let mut content = [0u8; 20];
    content[0] = 0;
    content[1] = 63;
    content[2] = 37;
    let n = Username::from_raw(3, content);
    assert_eq!(n.to_string(), "-z_");
}

use txdecode::{hex_decode, hex_encode, hex_string, Amount};

#[test]
fn one_coin_renders_as_one_point_zero() {
    let amount = Amount::from_sat(100_000_000);
    assert_eq!(amount.display_value(), "1.0");
}

#[test]
fn zero_renders_as_zero_point_zero() {
    let amount = Amount::from_sat(0);
    assert_eq!(amount.display_value(), "0.0");
}

#[test]
fn fractional_amounts_render_exactly() {
    assert_eq!(Amount::from_sat(150_000_000).display_value(), "1.5");
    assert_eq!(Amount::from_sat(123).display_value(), "0.00000123");
    assert_eq!(Amount::from_sat(100_000_001).display_value(), "1.00000001");
    assert_eq!(Amount::from_sat(u64::MAX).display_value(), "184467440737.09551615");
}

#[test]
fn hex_encoding_is_lowercase_two_digits_per_byte() {
    let bytes = vec![0xde_u8, 0xad, 0x00, 0x0f];
    assert_eq!(hex_string(&bytes), "dead000f");
    assert_eq!(hex_encode(&bytes), b"dead000f".to_vec());
    assert_eq!(hex_string(&vec![]), "");
}

#[test]
fn hex_decode_round_trips_with_encode() {
    let bytes = vec![0x01_u8, 0xff, 0x80, 0x7f];
    let text = hex_encode(&bytes);
    assert_eq!(hex_decode(&text).unwrap(), bytes);
    // Uppercase digits denote the same bytes.
    assert_eq!(hex_decode(&b"DEAD000F".to_vec()).unwrap(), vec![0xde, 0xad, 0x00, 0x0f]);
}

use txdecode::cursor::Cursor;
use txdecode::error::TxError;
use txdecode::{
    decode_transaction, decode_transaction_hex, hex_decode, read_compact_size, read_txid, read_u32,
};

#[test]
fn test_read_compact_size() {
    let bytes = vec![1_u8];
    let mut c = Cursor::new(&bytes);
    let count = read_compact_size(&mut c).unwrap();
    assert_eq!(count, 1_u64);

    let bytes = vec![253_u8, 0, 1];
    let mut c = Cursor::new(&bytes);
    let count = read_compact_size(&mut c).unwrap();
    assert_eq!(count, 256_u64);

    let bytes = vec![254_u8, 0, 0, 0, 1];
    let mut c = Cursor::new(&bytes);
    let count = read_compact_size(&mut c).unwrap();
    assert_eq!(count, 256_u64.pow(3));

    let bytes = vec![255_u8, 0, 0, 0, 0, 0, 0, 0, 1];
    let mut c = Cursor::new(&bytes);
    let count = read_compact_size(&mut c).unwrap();
    assert_eq!(count, 256_u64.pow(7));

    let big_tx = "01000000fd204e";
    let bytes = hex_decode(&big_tx.as_bytes().to_vec()).unwrap();
    let mut c = Cursor::new(&bytes);
    let version = read_u32(&mut c).unwrap();
    let count = read_compact_size(&mut c).unwrap();
    assert_eq!(version, 1);
    assert_eq!(count, 20000);
}

#[test]
fn compact_size_single_bytes_decode_to_themselves() {
    for v in [0_u8, 1, 100, 252] {
        let bytes = vec![v];
        let mut c = Cursor::new(&bytes);
        assert_eq!(read_compact_size(&mut c).unwrap(), v as u64);
    }
}

#[test]
fn compact_size_non_canonical_two_byte_form_accepted() {
    // 10 fits in a single byte, yet the 253-tagged form is accepted.
    let bytes = vec![253_u8, 10, 0];
    let mut c = Cursor::new(&bytes);
    assert_eq!(read_compact_size(&mut c).unwrap(), 10_u64);
}

#[test]
fn compact_size_wide_forms_are_little_endian() {
    let bytes = vec![254_u8, 0x78, 0x56, 0x34, 0x12];
    let mut c = Cursor::new(&bytes);
    assert_eq!(read_compact_size(&mut c).unwrap(), 0x12345678_u64);

    let bytes = vec![255_u8, 0xef, 0xcd, 0xab, 0x89, 0x67, 0x45, 0x23, 0x01];
    let mut c = Cursor::new(&bytes);
    assert_eq!(read_compact_size(&mut c).unwrap(), 0x0123456789abcdef_u64);
}

#[test]
fn truncated_reads_fail_with_insufficient_data() {
    // A compact-size tag selecting a payload the buffer cannot satisfy.
    let bytes = vec![253_u8, 1];
    let mut c = Cursor::new(&bytes);
    assert_eq!(read_compact_size(&mut c), Err(TxError::InsufficientData));

    let bytes = vec![255_u8, 1, 2, 3];
    let mut c = Cursor::new(&bytes);
    assert_eq!(read_compact_size(&mut c), Err(TxError::InsufficientData));

    // A fixed-width integer cut short.
    let bytes = vec![1_u8, 2, 3];
    let mut c = Cursor::new(&bytes);
    assert_eq!(read_u32(&mut c), Err(TxError::InsufficientData));

    // An identifier cut short.
    let bytes = vec![0_u8; 31];
    let mut c = Cursor::new(&bytes);
    assert!(matches!(read_txid(&mut c), Err(TxError::InsufficientData)));

    // An empty buffer.
    let bytes: Vec<u8> = vec![];
    assert_eq!(decode_transaction(&bytes), Err(TxError::InsufficientData));
}

const GENESIS_TX_HEX: &str = "01000000010000000000000000000000000000000000000000000000000000000000000000ffffffff4d04ffff001d0104455468652054696d65732030332f4a616e2f32303039204368616e63656c6c6f72206f6e206272696e6b206f66207365636f6e64206261696c6f757420666f722062616e6b73ffffffff0100f2052a01000000434104678afdb0fe5548271967f1a67130b7105cd6a828e03909a67962e0ea1f61deb649f6bc3f4cef38c4f35504e51ec112de5c384df7ba0b8d578a4c702b6bf11d5fac00000000";

#[test]
fn every_truncation_of_a_whole_transaction_fails_cleanly() {
    let bytes = hex_decode(&GENESIS_TX_HEX.as_bytes().to_vec()).unwrap();
    for n in 0..bytes.len() {
        let cut = bytes[..n].to_vec();
        assert_eq!(decode_transaction(&cut), Err(TxError::InsufficientData));
    }
}

#[test]
fn known_transaction_round_trip() {
    let tx = decode_transaction_hex(&GENESIS_TX_HEX.as_bytes().to_vec()).unwrap();
    assert_eq!(tx.version, 1);
    assert_eq!(tx.inputs.len(), 1);
    assert_eq!(tx.outputs.len(), 1);
    assert_eq!(tx.lock_time, 0);

    let input = &tx.inputs[0];
    assert_eq!(
        input.txid.to_hex(),
        "0000000000000000000000000000000000000000000000000000000000000000"
    );
    assert_eq!(input.output_index, 0xFFFFFFFF);
    assert_eq!(input.sequence, 0xFFFFFFFF);

    let output = &tx.outputs[0];
    assert_eq!(output.amount.to_sat(), 50_0000_0000);
    assert_eq!(output.amount.display_value(), "50.0");
    assert!(output.script_pubkey.ends_with("ac"));

    // The canonical identifier: double SHA-256 of the raw bytes, shown in
    // reversed byte order.
    assert_eq!(
        tx.transaction_id.to_hex(),
        "4a5e1e4baab89f3a32518a88c31bc87f618f76673e2cc77ab2127b7afdeda33b"
    );
}

#[test]
fn decoding_twice_yields_equal_transactions() {
    let bytes = hex_decode(&GENESIS_TX_HEX.as_bytes().to_vec()).unwrap();
    let first = decode_transaction(&bytes).unwrap();
    let second = decode_transaction(&bytes).unwrap();
    assert_eq!(first, second);
    assert_eq!(first.transaction_id, second.transaction_id);
    // The buffer itself is untouched.
    assert_eq!(bytes, hex_decode(&GENESIS_TX_HEX.as_bytes().to_vec()).unwrap());
}

#[test]
fn malformed_hex_is_rejected() {
    // Odd length.
    let text = b"010".to_vec();
    assert_eq!(decode_transaction_hex(&text), Err(TxError::MalformedInput));
    // A byte that is no hexadecimal digit.
    let text = b"0g".to_vec();
    assert_eq!(decode_transaction_hex(&text), Err(TxError::MalformedInput));
    assert_eq!(hex_decode(&b"zz".to_vec()), Err(TxError::MalformedInput));
}

#[test]
fn uppercase_hex_is_accepted() {
    let lower = decode_transaction_hex(&GENESIS_TX_HEX.as_bytes().to_vec()).unwrap();
    let upper = decode_transaction_hex(&GENESIS_TX_HEX.to_uppercase().into_bytes()).unwrap();
    assert_eq!(lower, upper);
}

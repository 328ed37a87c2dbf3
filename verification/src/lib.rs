//! A verified decoder for the raw wire format of serialized transactions.
//!
//! The library turns a byte buffer (or its hexadecimal text form) into a
//! structured transaction and computes the transaction's canonical
//! identifier as a double SHA-256 digest over the raw bytes, displayed in
//! reversed byte order.

pub mod amount;
pub mod compact;
pub mod cursor;
pub mod error;
pub mod fields;
pub mod hashing;
pub mod hexcodec;
pub mod transaction;

pub use amount::Amount;
pub use compact::read_compact_size;
pub use cursor::Cursor;
pub use error::TxError;
pub use fields::{read_amount, read_script, read_txid, read_u32, Txid};
pub use hashing::hash_raw_transaction;
pub use hexcodec::{hex_decode, hex_encode, hex_string};
pub use transaction::{decode_transaction, decode_transaction_hex, Input, Output, Transaction};

use crate::fields::{reverse_bytes, Txid};
use vstd::prelude::*;

verus! {

/// The SHA-256 digest of a byte sequence. The digest is a pure function of
/// the input bytes; nothing more is assumed of its value.
pub uninterp spec fn sha256_of(s: Seq<u8>) -> Seq<u8>;

/// Relies on `sha2::Sha256` (through `digest::Digest::digest`): the digest
/// depends on the input bytes alone and is exactly 32 bytes long.
#[verifier::external_body]
fn sha256(bytes: &Vec<u8>) -> (r: Vec<u8>)
    ensures
        r@ == sha256_of(bytes@),
        r@.len() == 32,
{
    let digest = <sha2::Sha256 as sha2::Digest>::digest(bytes.as_slice());
    digest.to_vec()
}

/// The canonical identifier of the raw byte sequence `s`: the double SHA-256
/// digest of `s`, in reversed (display) byte order.
pub open spec fn spec_txid_of(s: Seq<u8>) -> Seq<u8> {
    sha256_of(sha256_of(s)).reverse()
}

/// Computes the transaction identifier: SHA-256 applied twice over the entire
/// raw serialized byte sequence exactly as given, never over a
/// re-serialization of the structured form, with the digest held in reversed
/// (display) byte order.
pub fn hash_raw_transaction(raw: &Vec<u8>) -> (t: Txid)
    ensures
        t@ == spec_txid_of(raw@),
        t.wf(),
{
    let first = sha256(raw);
    let second = sha256(&first);
    let rev = reverse_bytes(&second);
    Txid::from_bytes(rev)
}

} // verus!

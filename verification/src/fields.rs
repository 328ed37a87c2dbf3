use crate::amount::Amount;
use crate::compact::{le32_at, le64_at, read_compact_size, spec_read_compact_size};
use crate::cursor::Cursor;
use crate::error::TxError;
use crate::hexcodec::{hex_str_of, hex_string};
use vstd::prelude::*;

verus! {

/// A transaction identifier: a fixed 32-byte value, held in the reversed
/// (display) byte order that identifiers are conventionally shown in.
#[derive(Clone, Debug, PartialEq, Eq)]
pub struct Txid {
    pub bytes: Vec<u8>,
}

impl View for Txid {
    type V = Seq<u8>;

    open spec fn view(&self) -> Seq<u8> {
        self.bytes@
    }
}

impl Txid {
    /// An identifier is exactly 32 bytes.
    pub open spec fn wf(self) -> bool {
        self.bytes@.len() == 32
    }

    /// An identifier over the given display-order bytes.
    pub fn from_bytes(bytes: Vec<u8>) -> (r: Txid)
        requires
            bytes@.len() == 32,
        ensures
            r@ == bytes@,
            r.wf(),
    {
        Txid { bytes }
    }

    /// The identifier as lowercase hexadecimal text.
    pub fn to_hex(&self) -> (r: String)
        ensures
            r@ == hex_str_of(self@),
    {
        hex_string(&self.bytes)
    }
}

/// What reading a little-endian unsigned 32-bit integer at `pos` yields.
pub open spec fn spec_read_u32(s: Seq<u8>, pos: int) -> Option<(u32, int)> {
    if 0 <= pos && pos + 4 <= s.len() {
        Some((le32_at(s, pos) as u32, pos + 4))
    } else {
        None
    }
}

/// What reading a little-endian unsigned 64-bit integer at `pos` yields.
pub open spec fn spec_read_u64(s: Seq<u8>, pos: int) -> Option<(u64, int)> {
    if 0 <= pos && pos + 8 <= s.len() {
        Some((le64_at(s, pos), pos + 8))
    } else {
        None
    }
}

/// What reading a transaction identifier at `pos` yields: the next 32 bytes
/// in reversed (display) byte order.
pub open spec fn spec_read_txid(s: Seq<u8>, pos: int) -> Option<(Seq<u8>, int)> {
    if 0 <= pos && pos + 32 <= s.len() {
        Some((s.subrange(pos, pos + 32).reverse(), pos + 32))
    } else {
        None
    }
}

/// What reading a length-prefixed script at `pos` yields: a compact-size
/// length, then that many bytes, rendered as lowercase hexadecimal text.
pub open spec fn spec_read_script(s: Seq<u8>, pos: int) -> Option<(Seq<char>, int)> {
    match spec_read_compact_size(s, pos) {
        Some((n, p)) => if p + n <= s.len() {
            Some((hex_str_of(s.subrange(p, p + n)), p + n))
        } else {
            None
        },
        None => None,
    }
}

/// Cutting a buffer to its first `m` bytes never changes what a fixed 32-bit
/// read within the cut yields; a read that needed bytes at or past the cut
/// fails on the cut buffer.
pub proof fn lemma_u32_prefix(s: Seq<u8>, m: int, pos: int)
    requires
        0 <= pos,
        0 <= m <= s.len(),
    ensures
        match spec_read_u32(s, pos) {
            Some((v, p)) => if p <= m {
                spec_read_u32(s.take(m), pos) == Some((v, p))
            } else {
                spec_read_u32(s.take(m), pos) is None
            },
            None => spec_read_u32(s.take(m), pos) is None,
        },
{
    let t = s.take(m);
    assert(forall|i: int| 0 <= i < m ==> t[i] == s[i]);
}

/// The same cut stability for a fixed 64-bit read.
pub proof fn lemma_u64_prefix(s: Seq<u8>, m: int, pos: int)
    requires
        0 <= pos,
        0 <= m <= s.len(),
    ensures
        match spec_read_u64(s, pos) {
            Some((v, p)) => if p <= m {
                spec_read_u64(s.take(m), pos) == Some((v, p))
            } else {
                spec_read_u64(s.take(m), pos) is None
            },
            None => spec_read_u64(s.take(m), pos) is None,
        },
{
    let t = s.take(m);
    assert(forall|i: int| 0 <= i < m ==> t[i] == s[i]);
}

/// The same cut stability for an identifier read.
pub proof fn lemma_txid_prefix(s: Seq<u8>, m: int, pos: int)
    requires
        0 <= pos,
        0 <= m <= s.len(),
    ensures
        match spec_read_txid(s, pos) {
            Some((v, p)) => if p <= m {
                spec_read_txid(s.take(m), pos) == Some((v, p))
            } else {
                spec_read_txid(s.take(m), pos) is None
            },
            None => spec_read_txid(s.take(m), pos) is None,
        },
{
    let t = s.take(m);
    if pos + 32 <= m {
        assert(t.subrange(pos, pos + 32) =~= s.subrange(pos, pos + 32));
    }
}

/// The same cut stability for a length-prefixed script read.
pub proof fn lemma_script_prefix(s: Seq<u8>, m: int, pos: int)
    requires
        0 <= pos,
        0 <= m <= s.len(),
    ensures
        match spec_read_script(s, pos) {
            Some((v, p)) => if p <= m {
                spec_read_script(s.take(m), pos) == Some((v, p))
            } else {
                spec_read_script(s.take(m), pos) is None
            },
            None => spec_read_script(s.take(m), pos) is None,
        },
{
    let t = s.take(m);
    crate::compact::lemma_compact_size_prefix(s, m, pos);
    match spec_read_compact_size(s, pos) {
        Some((n, p)) => {
            if p <= m && p + n <= m {
                assert(t.subrange(p, p + n) =~= s.subrange(p, p + n));
            }
        },
        None => {},
    }
}

/// A successful script read ends past where it began.
pub proof fn lemma_script_advances(s: Seq<u8>, pos: int)
    ensures
        spec_read_script(s, pos) matches Some((v, p)) ==> p > pos,
{
    match spec_read_compact_size(s, pos) {
        Some((n, p)) => {
            assert(p > pos);
        },
        None => {},
    }
}

/// Reads four bytes and interprets them as a little-endian unsigned 32-bit
/// integer. Fails with `InsufficientData` exactly when fewer than four bytes
/// remain.
pub fn read_u32(c: &mut Cursor) -> (r: Result<u32, TxError>)
    requires
        old(c).wf(),
    ensures
        final(c).wf(),
        final(c).data() == old(c).data(),
        match spec_read_u32(old(c).data(), old(c).pos as int) {
            Some((v, p)) => r matches Ok(rv) && rv == v && final(c).pos == p,
            None => {
                &&& r matches Err(e) && e == TxError::InsufficientData
                &&& final(c).pos == old(c).pos
            },
        },
{
    let b = match c.read_exact(4) {
        Ok(v) => v,
        Err(e) => {
            return Err(e);
        },
    };
    Ok(
        (b[0] as u32) + 0x100 * (b[1] as u32) + 0x1_0000 * (b[2] as u32) + 0x100_0000 * (
        b[3] as u32),
    )
}

/// Reads eight bytes and interprets them as a little-endian unsigned 64-bit
/// count of smallest currency units. Fails with `InsufficientData` exactly
/// when fewer than eight bytes remain.
pub fn read_amount(c: &mut Cursor) -> (r: Result<Amount, TxError>)
    requires
        old(c).wf(),
    ensures
        final(c).wf(),
        final(c).data() == old(c).data(),
        match spec_read_u64(old(c).data(), old(c).pos as int) {
            Some((v, p)) => r matches Ok(a) && a.sats == v && final(c).pos == p,
            None => {
                &&& r matches Err(e) && e == TxError::InsufficientData
                &&& final(c).pos == old(c).pos
            },
        },
{
    let b = match c.read_exact(8) {
        Ok(v) => v,
        Err(e) => {
            return Err(e);
        },
    };
    Ok(
        Amount::from_sat(
            (b[0] as u64) + 0x100 * (b[1] as u64) + 0x1_0000 * (b[2] as u64) + 0x100_0000 * (
            b[3] as u64) + 0x1_0000_0000 * (b[4] as u64) + 0x100_0000_0000 * (b[5] as u64)
                + 0x1_0000_0000_0000 * (b[6] as u64) + 0x100_0000_0000_0000 * (b[7] as u64),
        ),
    )
}

/// Reverses a byte buffer into a fresh one.
pub(crate) fn reverse_bytes(v: &Vec<u8>) -> (r: Vec<u8>)
    ensures
        r@ == v@.reverse(),
{
    let mut out: Vec<u8> = Vec::new();
    let mut i: usize = v.len();
    while i > 0
        invariant
            i <= v@.len(),
            out@.len() == v@.len() - i,
            forall|j: int| 0 <= j < out@.len() ==> out@[j] == v@[v@.len() - 1 - j],
        decreases i,
    {
        i = i - 1;
        out.push(v[i]);
    }
    proof {
        assert(out@ =~= v@.reverse());
    }
    out
}

/// Reads a transaction identifier: 32 bytes, returned in reversed (display)
/// byte order. Fails with `InsufficientData` exactly when fewer than 32 bytes
/// remain.
pub fn read_txid(c: &mut Cursor) -> (r: Result<Txid, TxError>)
    requires
        old(c).wf(),
    ensures
        final(c).wf(),
        final(c).data() == old(c).data(),
        match spec_read_txid(old(c).data(), old(c).pos as int) {
            Some((v, p)) => r matches Ok(t) && t@ == v && t.wf() && final(c).pos == p,
            None => {
                &&& r matches Err(e) && e == TxError::InsufficientData
                &&& final(c).pos == old(c).pos
            },
        },
{
    let b = match c.read_exact(32) {
        Ok(v) => v,
        Err(e) => {
            return Err(e);
        },
    };
    let rev = reverse_bytes(&b);
    Ok(Txid::from_bytes(rev))
}

/// Reads a length-prefixed opaque byte string: a compact-size length, then
/// exactly that many bytes, returned as lowercase hexadecimal text with no
/// prefix and no interpretation of the contents. Fails with
/// `InsufficientData` exactly when the length or the payload cannot be read
/// in full.
pub fn read_script(c: &mut Cursor) -> (r: Result<String, TxError>)
    requires
        old(c).wf(),
    ensures
        final(c).wf(),
        final(c).data() == old(c).data(),
        match spec_read_script(old(c).data(), old(c).pos as int) {
            Some((v, p)) => r matches Ok(s) && s@ == v && final(c).pos == p,
            None => {
                &&& r matches Err(e) && e == TxError::InsufficientData
                &&& old(c).pos <= final(c).pos
            },
        },
{
    let n = match read_compact_size(c) {
        Ok(v) => v,
        Err(e) => {
            return Err(e);
        },
    };
    let rem = c.remaining();
    if n > rem as u64 {
        return Err(TxError::InsufficientData);
    }
    let payload = match c.read_exact(n as usize) {
        Ok(v) => v,
        Err(e) => {
            return Err(e);
        },
    };
    Ok(hex_string(&payload))
}

} // verus!

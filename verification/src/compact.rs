use crate::cursor::Cursor;
use crate::error::TxError;
use vstd::prelude::*;

verus! {

/// Little-endian value of the two bytes at `i` and `i + 1`.
pub open spec fn le16_at(s: Seq<u8>, i: int) -> u64 {
    (s[i] + 0x100 * s[i + 1]) as u64
}

/// Little-endian value of the four bytes starting at `i`.
pub open spec fn le32_at(s: Seq<u8>, i: int) -> u64 {
    (s[i] + 0x100 * s[i + 1] + 0x1_0000 * s[i + 2] + 0x100_0000 * s[i + 3]) as u64
}

/// Little-endian value of the eight bytes starting at `i`.
pub open spec fn le64_at(s: Seq<u8>, i: int) -> u64 {
    (s[i] + 0x100 * s[i + 1] + 0x1_0000 * s[i + 2] + 0x100_0000 * s[i + 3] + 0x1_0000_0000 * s[i
        + 4] + 0x100_0000_0000 * s[i + 5] + 0x1_0000_0000_0000 * s[i + 6] + 0x100_0000_0000_0000
        * s[i + 7]) as u64
}

/// What decoding a compact-size integer at offset `pos` of `s` yields: the
/// decoded value and the offset just past it, or `None` if fewer bytes remain
/// than the tag byte selects.
///
/// A tag of 0..=252 is the value itself; tags 253, 254 and 255 select a
/// little-endian 16-, 32- or 64-bit payload. Non-minimal encodings are
/// accepted: the value is never checked against the width used.
pub open spec fn spec_read_compact_size(s: Seq<u8>, pos: int) -> Option<(u64, int)> {
    if 0 <= pos && pos < s.len() {
        let tag = s[pos];
        if tag <= 252 {
            Some((tag as u64, pos + 1))
        } else if tag == 253 {
            if pos + 3 <= s.len() {
                Some((le16_at(s, pos + 1), pos + 3))
            } else {
                None
            }
        } else if tag == 254 {
            if pos + 5 <= s.len() {
                Some((le32_at(s, pos + 1), pos + 5))
            } else {
                None
            }
        } else {
            if pos + 9 <= s.len() {
                Some((le64_at(s, pos + 1), pos + 9))
            } else {
                None
            }
        }
    } else {
        None
    }
}

/// Decodes the prefix-tagged variable-length unsigned integer at the cursor,
/// normalized to a 64-bit value whatever encoding width was used. Fails with
/// `InsufficientData` exactly when the buffer cannot satisfy the width the
/// tag byte selects.
pub fn read_compact_size(c: &mut Cursor) -> (r: Result<u64, TxError>)
    requires
        old(c).wf(),
    ensures
        final(c).wf(),
        final(c).data() == old(c).data(),
        match spec_read_compact_size(old(c).data(), old(c).pos as int) {
            Some((v, p)) => r matches Ok(rv) && rv == v && final(c).pos == p,
            None => {
                &&& r matches Err(e) && e == TxError::InsufficientData
                &&& old(c).pos <= final(c).pos
            },
        },
{
    let tag_buf = match c.read_exact(1) {
        Ok(v) => v,
        Err(e) => {
            return Err(e);
        },
    };
    let tag = tag_buf[0];
    if tag <= 252 {
        Ok(tag as u64)
    } else if tag == 253 {
        let b = match c.read_exact(2) {
            Ok(v) => v,
            Err(e) => {
                return Err(e);
            },
        };
        Ok((b[0] as u64) + 0x100 * (b[1] as u64))
    } else if tag == 254 {
        let b = match c.read_exact(4) {
            Ok(v) => v,
            Err(e) => {
                return Err(e);
            },
        };
        Ok(
            (b[0] as u64) + 0x100 * (b[1] as u64) + 0x1_0000 * (b[2] as u64) + 0x100_0000 * (
            b[3] as u64),
        )
    } else {
        let b = match c.read_exact(8) {
            Ok(v) => v,
            Err(e) => {
                return Err(e);
            },
        };
        Ok(
            (b[0] as u64) + 0x100 * (b[1] as u64) + 0x1_0000 * (b[2] as u64) + 0x100_0000 * (
            b[3] as u64) + 0x1_0000_0000 * (b[4] as u64) + 0x100_0000_0000 * (b[5] as u64)
                + 0x1_0000_0000_0000 * (b[6] as u64) + 0x100_0000_0000_0000 * (b[7] as u64),
        )
    }
}

/// Law: a single byte 0..=252 decodes to the byte's own value, consuming one
/// byte, wherever it stands in a buffer.
pub proof fn lemma_compact_size_single_byte(s: Seq<u8>, pos: int)
    requires
        0 <= pos < s.len(),
        s[pos] <= 252,
    ensures
        spec_read_compact_size(s, pos) == Some((s[pos] as u64, pos + 1)),
{
}

/// Law: the three bytes `{253, lo, hi}` decode to the little-endian 16-bit
/// value of `(lo, hi)`, even when that value is at most 252 (non-canonical
/// encodings are accepted).
pub proof fn lemma_compact_size_two_byte(s: Seq<u8>, pos: int)
    requires
        0 <= pos,
        pos + 3 <= s.len(),
        s[pos] == 253,
    ensures
        spec_read_compact_size(s, pos) == Some(
            ((s[pos + 1] + 0x100 * s[pos + 2]) as u64, pos + 3),
        ),
{
}

/// Law: the 254-tagged form decodes to the little-endian interpretation of
/// the following four bytes.
pub proof fn lemma_compact_size_four_byte(s: Seq<u8>, pos: int)
    requires
        0 <= pos,
        pos + 5 <= s.len(),
        s[pos] == 254,
    ensures
        spec_read_compact_size(s, pos) == Some((le32_at(s, pos + 1), pos + 5)),
        le32_at(s, pos + 1) == s[pos + 1] + 0x100 * s[pos + 2] + 0x1_0000 * s[pos + 3]
            + 0x100_0000 * s[pos + 4],
{
}

/// Cutting a buffer to its first `m` bytes never changes what a compact-size
/// read within the cut yields; a read that needed bytes at or past the cut
/// fails on the cut buffer.
pub proof fn lemma_compact_size_prefix(s: Seq<u8>, m: int, pos: int)
    requires
        0 <= pos,
        0 <= m <= s.len(),
    ensures
        match spec_read_compact_size(s, pos) {
            Some((v, p)) => if p <= m {
                spec_read_compact_size(s.take(m), pos) == Some((v, p))
            } else {
                spec_read_compact_size(s.take(m), pos) is None
            },
            None => spec_read_compact_size(s.take(m), pos) is None,
        },
{
    let t = s.take(m);
    assert(t.len() == m);
    assert(forall|i: int| 0 <= i < m ==> t[i] == s[i]);
}

/// Law: the 255-tagged form decodes to the little-endian interpretation of
/// the following eight bytes.
pub proof fn lemma_compact_size_eight_byte(s: Seq<u8>, pos: int)
    requires
        0 <= pos,
        pos + 9 <= s.len(),
        s[pos] == 255,
    ensures
        spec_read_compact_size(s, pos) == Some((le64_at(s, pos + 1), pos + 9)),
        le64_at(s, pos + 1) == s[pos + 1] + 0x100 * s[pos + 2] + 0x1_0000 * s[pos + 3]
            + 0x100_0000 * s[pos + 4] + 0x1_0000_0000 * s[pos + 5] + 0x100_0000_0000 * s[pos + 6]
            + 0x1_0000_0000_0000 * s[pos + 7] + 0x100_0000_0000_0000 * s[pos + 8],
{
}

} // verus!

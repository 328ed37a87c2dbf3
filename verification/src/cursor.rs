use crate::error::TxError;
use vstd::prelude::*;

verus! {

/// A forward-only reading view over an immutable byte buffer.
///
/// The cursor borrows the buffer for the duration of decoding and tracks the
/// current read offset; it never reads past the buffer end. An unsatisfiable
/// read is a decode failure ([`TxError::InsufficientData`]), never a panic.
pub struct Cursor<'a> {
    pub bytes: &'a Vec<u8>,
    pub pos: usize,
}

impl<'a> Cursor<'a> {
    /// The underlying byte sequence being read.
    pub open spec fn data(self) -> Seq<u8> {
        self.bytes@
    }

    /// The read offset never exceeds the buffer length.
    pub open spec fn wf(self) -> bool {
        self.pos <= self.bytes@.len()
    }

    /// A fresh cursor positioned at the start of `bytes`.
    pub fn new(bytes: &'a Vec<u8>) -> (c: Cursor<'a>)
        ensures
            c.data() == bytes@,
            c.pos == 0,
            c.wf(),
    {
        Cursor { bytes, pos: 0 }
    }

    /// How many bytes remain unread.
    pub fn remaining(&self) -> (n: usize)
        requires
            self.wf(),
        ensures
            n == self.data().len() - self.pos,
    {
        self.bytes.len() - self.pos
    }

    /// Returns the next `n` bytes as an owned buffer and advances the offset
    /// by `n`, or fails with `InsufficientData` if fewer than `n` bytes
    /// remain. On failure the cursor is unchanged. No zero-fill, no silent
    /// truncation.
    pub fn read_exact(&mut self, n: usize) -> (r: Result<Vec<u8>, TxError>)
        requires
            old(self).wf(),
        ensures
            final(self).wf(),
            final(self).data() == old(self).data(),
            if old(self).pos + n <= old(self).data().len() {
                &&& r matches Ok(v) && v@ == old(self).data().subrange(
                    old(self).pos as int,
                    old(self).pos + n,
                )
                &&& final(self).pos == old(self).pos + n
            } else {
                &&& r matches Err(e) && e == TxError::InsufficientData
                &&& final(self).pos == old(self).pos
            },
    {
        if n > self.bytes.len() - self.pos {
            return Err(TxError::InsufficientData);
        }
        let end: usize = self.pos + n;
        let mut out: Vec<u8> = Vec::new();
        let mut i: usize = 0;
        while i < n
            invariant
                self.wf(),
                self == old(self),
                i <= n,
                end == self.pos + n,
                self.pos + n <= self.bytes@.len(),
                out@ == self.bytes@.subrange(self.pos as int, self.pos + i),
            decreases n - i,
        {
            out.push(self.bytes[self.pos + i]);
            i = i + 1;
            proof {
                assert(out@ =~= self.bytes@.subrange(self.pos as int, self.pos + i));
            }
        }
        self.pos = self.pos + n;
        Ok(out)
    }
}

} // verus!

//! Forward-only reader and append-only writer over bytes, with native-endian
//! integer accessors and four-byte alignment measured from the buffer origin.

use vstd::prelude::*;
use crate::bytes::{
    pad_len, zeros, u16_value, u16_wire, u32_value, u32_wire, u16_from_ne, u16_to_ne,
    u32_from_ne, u32_to_ne,
};
use crate::error::{ReadError, Fault, settles};

verus! {

/// Number of zero bytes that bring a length of `len` to a multiple of four.
pub fn pad4(len: usize) -> (r: usize)
    ensures
        r == pad_len(len as nat),
{
    (4 - (len % 4)) % 4
}

/// The `n` bytes at `pos`, and the position after them.
pub open spec fn take_bytes(b: Seq<u8>, pos: nat, n: nat) -> Result<(Seq<u8>, nat), Fault> {
    if pos + n <= b.len() {
        Ok((b.subrange(pos as int, (pos + n) as int), pos + n))
    } else {
        Err(Fault::EndOfStream)
    }
}

/// The padding after `pos` that reaches the next multiple of four.
pub open spec fn take_pad(b: Seq<u8>, pos: nat) -> Result<((), nat), Fault> {
    if pos + pad_len(pos) <= b.len() {
        Ok(((), pos + pad_len(pos)))
    } else {
        Err(Fault::EndOfStream)
    }
}

/// The byte at `pos`.
pub open spec fn take_u8(b: Seq<u8>, pos: nat) -> Result<(u8, nat), Fault> {
    if pos < b.len() {
        Ok((b[pos as int], pos + 1))
    } else {
        Err(Fault::EndOfStream)
    }
}

/// The host-order `u16` at `pos`.
pub open spec fn take_u16(b: Seq<u8>, pos: nat) -> Result<(u16, nat), Fault> {
    if pos + 2 <= b.len() {
        Ok((u16_value(b[pos as int], b[pos + 1int]), pos + 2))
    } else {
        Err(Fault::EndOfStream)
    }
}

/// The host-order `u32` at `pos`.
pub open spec fn take_u32(b: Seq<u8>, pos: nat) -> Result<(u32, nat), Fault> {
    if pos + 4 <= b.len() {
        Ok((u32_value(b[pos as int], b[pos + 1int], b[pos + 2int], b[pos + 3int]), pos + 4))
    } else {
        Err(Fault::EndOfStream)
    }
}

/// The host-order `i32` at `pos`.
pub open spec fn take_i32(b: Seq<u8>, pos: nat) -> Result<(i32, nat), Fault> {
    match take_u32(b, pos) {
        Ok((v, p)) => Ok((v as i32, p)),
        Err(f) => Err(f),
    }
}

/// A position in a borrowed byte buffer; alignment counts from the buffer's first byte.
pub struct Reader<'b> {
    bytes: &'b [u8],
    pos: usize,
}

impl<'b> Reader<'b> {
    /// All bytes of the buffer, those already read included.
    pub closed spec fn data(&self) -> Seq<u8> {
        self.bytes@
    }

    /// How many bytes have been read.
    pub closed spec fn pos(&self) -> nat {
        self.pos as nat
    }

    pub open spec fn wf(&self) -> bool {
        self.pos() <= self.data().len() <= usize::MAX
    }

    pub fn new(bytes: &'b [u8]) -> (r: Self)
        ensures
            r.wf(),
            r.data() == bytes@,
            r.pos() == 0,
    {
        assert(bytes.len() == bytes@.len());
        Reader { bytes, pos: 0 }
    }

    /// A reader over the first `end` bytes of this one's buffer, at the same position.
    pub(crate) fn limited(&self, end: usize) -> (r: Reader<'b>)
        requires
            self.wf(),
            self.pos() <= end <= self.data().len(),
    ensures
            r.wf(),
            r.data() == self.data().take(end as int),
            r.pos() == self.pos(),
    {
        Reader { bytes: vstd::slice::slice_subrange(self.bytes, 0, end), pos: self.pos }
    }

    /// Moves to `pos`, which lies between here and the end of the buffer.
    pub(crate) fn seek(&mut self, pos: usize)
        requires
            old(self).wf(),
            old(self).pos() <= pos <= old(self).data().len(),
        ensures
            final(self).wf(),
            final(self).data() == old(self).data(),
            final(self).pos() == pos,
    {
        self.pos = pos;
    }

    /// How many bytes have been read.
    pub(crate) fn offset(&self) -> (r: usize)
        ensures
            r == self.pos(),
    {
        self.pos
    }

    /// How many bytes remain.
    pub fn cursor(&self) -> (r: usize)
        requires
            self.wf(),
        ensures
            r == self.data().len() - self.pos(),
    {
        self.bytes.len() - self.pos
    }

    /// Skips the bytes up to the next multiple of four from the buffer origin.
    pub fn pad4(&mut self) -> (r: Result<(), ReadError>)
        requires
            old(self).wf(),
        ensures
            final(self).wf(),
            final(self).data() == old(self).data(),
            settles(r, final(self).pos(), take_pad(old(self).data(), old(self).pos())),
            r is Err ==> final(self).pos() == old(self).pos(),
    {
        let n = pad4(self.pos);
        match self.consume(n) {
            Ok(_) => Ok(()),
            Err(e) => Err(e),
        }
    }

    pub fn eos(&self) -> (r: ReadError)
        ensures
            r is EndOfStream,
    {
        ReadError::EndOfStream
    }

    pub fn invalid_data(&self, ty: &'static str, item: String) -> (r: ReadError)
        ensures
            r == ReadError::InvalidData(ty, item),
    {
        ReadError::InvalidData(ty, item)
    }

    pub fn u8(&mut self) -> (r: Result<u8, ReadError>)
        requires
            old(self).wf(),
        ensures
            final(self).wf(),
            final(self).data() == old(self).data(),
            settles(r, final(self).pos(), take_u8(old(self).data(), old(self).pos())),
            r is Err ==> final(self).pos() == old(self).pos(),
    {
        if self.pos < self.bytes.len() {
            let b = self.bytes[self.pos];
            self.pos = self.pos + 1;
            Ok(b)
        } else {
            Err(self.eos())
        }
    }

    pub fn u16(&mut self) -> (r: Result<u16, ReadError>)
        requires
            old(self).wf(),
        ensures
            final(self).wf(),
            final(self).data() == old(self).data(),
            settles(r, final(self).pos(), take_u16(old(self).data(), old(self).pos())),
            r is Err ==> final(self).pos() == old(self).pos(),
    {
        let b = self.consume(2)?;
        Ok(u16_from_ne(b[0], b[1]))
    }

    pub fn u32(&mut self) -> (r: Result<u32, ReadError>)
        requires
            old(self).wf(),
        ensures
            final(self).wf(),
            final(self).data() == old(self).data(),
            settles(r, final(self).pos(), take_u32(old(self).data(), old(self).pos())),
            r is Err ==> final(self).pos() == old(self).pos(),
    {
        let b = self.consume(4)?;
        Ok(u32_from_ne(b[0], b[1], b[2], b[3]))
    }

    pub fn i32(&mut self) -> (r: Result<i32, ReadError>)
        requires
            old(self).wf(),
        ensures
            final(self).wf(),
            final(self).data() == old(self).data(),
            settles(r, final(self).pos(), take_i32(old(self).data(), old(self).pos())),
            r is Err ==> final(self).pos() == old(self).pos(),
    {
        let v = self.u32()?;
        Ok(v as i32)
    }

    /// The next `len` bytes.
    pub fn consume(&mut self, len: usize) -> (r: Result<&'b [u8], ReadError>)
        requires
            old(self).wf(),
        ensures
            final(self).wf(),
            final(self).data() == old(self).data(),
            settles(r, final(self).pos(), take_bytes(old(self).data(), old(self).pos(), len as nat)),
            r is Err ==> final(self).pos() == old(self).pos(),
    {
        if self.bytes.len() - self.pos >= len {
            let out = vstd::slice::slice_subrange(self.bytes, self.pos, self.pos + len);
            self.pos = self.pos + len;
            Ok(out)
        } else {
            Err(self.eos())
        }
    }
}

/// An append-only byte buffer; alignment counts from its first byte.
pub struct Writer {
    out: Vec<u8>,
}

impl Writer {
    /// Everything written so far, the initial contents included.
    pub closed spec fn bytes(&self) -> Seq<u8> {
        self.out@
    }

    /// A writer that appends to `out`.
    pub fn new(out: Vec<u8>) -> (r: Self)
        ensures
            r.bytes() == out@,
    {
        Writer { out }
    }

    /// The buffer, with everything written.
    pub fn into_bytes(self) -> (r: Vec<u8>)
        ensures
            r@ == self.bytes(),
    {
        self.out
    }

    pub fn len(&self) -> (r: usize)
        ensures
            r == self.bytes().len(),
    {
        self.out.len()
    }

    pub fn write_u8(&mut self, b: u8)
        ensures
            final(self).bytes() == old(self).bytes().push(b),
    {
        self.out.push(b);
    }

    pub fn write(&mut self, bytes: &[u8])
        ensures
            final(self).bytes() == old(self).bytes() + bytes@,
    {
        let ghost start = self.out@;
        let mut i: usize = 0;
        while i < bytes.len()
            invariant
                i <= bytes@.len(),
                self.out@ == start + bytes@.take(i as int),
            decreases bytes@.len() - i,
        {
            self.out.push(bytes[i]);
            i = i + 1;
            assert(bytes@.take(i as int) == bytes@.take(i - 1).push(bytes@[i - 1]));
        }
        assert(bytes@.take(i as int) == bytes@);
    }

    pub fn write_pad4(&mut self)
        ensures
            final(self).bytes() == old(self).bytes() + zeros(pad_len(old(self).bytes().len())),
    {
        let ghost start = self.out@;
        let pad = pad4(self.out.len());
        let mut i: usize = 0;
        while i < pad
            invariant
                i <= pad,
                pad == pad_len(start.len()),
                self.out@ == start + zeros(i as nat),
            decreases pad - i,
        {
            self.out.push(0);
            i = i + 1;
            assert(zeros(i as nat) == zeros((i - 1) as nat).push(0u8));
        }
    }

    /// Appends the two bytes of `v` in host order.
    pub fn write_u16(&mut self, v: u16)
        ensures
            final(self).bytes() == old(self).bytes() + u16_wire(v),
    {
        let (b0, b1) = u16_to_ne(v);
        self.out.push(b0);
        self.out.push(b1);
        assert(old(self).bytes() + u16_wire(v) == old(self).bytes().push(b0).push(b1));
    }

    /// Appends the four bytes of `v` in host order.
    pub fn write_u32(&mut self, v: u32)
        ensures
            final(self).bytes() == old(self).bytes() + u32_wire(v),
    {
        let (b0, b1, b2, b3) = u32_to_ne(v);
        self.out.push(b0);
        self.out.push(b1);
        self.out.push(b2);
        self.out.push(b3);
        assert(old(self).bytes() + u32_wire(v) == old(self).bytes().push(b0).push(b1).push(b2).push(b3));
    }
}

} // verus!

//! The format contract shared by every wire type, and its primitive and enumerated instances.

use vstd::prelude::*;
use crate::bytes::{u16_wire, u32_wire, u16_to_ne};
use crate::cursor::{Reader, Writer, take_u8, take_u16, take_u32, take_i32};
use crate::error::{ReadError, Fault, settles, yields};

verus! {

/// A type with a wire form: how its values are written, read back, and measured.
pub trait XimFormat: Sized + View {
    /// The bytes that `write` appends for value `v` when the buffer holds `off` bytes.
    spec fn wire(v: Self::V, off: nat) -> Seq<u8>;

    /// What `read` yields on buffer `b` from position `pos`: a value and the position after it.
    spec fn parse(b: Seq<u8>, pos: nat) -> Result<(Self::V, nat), Fault>;

    /// Whether every length of `v` fits the width of its wire prefix.
    spec fn fits(v: Self::V) -> bool;

    fn read(reader: &mut Reader) -> (r: Result<Self, ReadError>)
        requires
            old(reader).wf(),
        ensures
            final(reader).wf(),
            final(reader).data() == old(reader).data(),
            settles(r, final(reader).pos(), Self::parse(old(reader).data(), old(reader).pos())),
    ;

    fn write(&self, writer: &mut Writer)
        requires
            Self::fits(self@),
        ensures
            final(writer).bytes() == old(writer).bytes() + Self::wire(self@, old(writer).bytes().len()),
    ;

    /// The number of bytes that `write` appends at a four-aligned position.
    fn size(&self) -> (r: usize)
        requires
            Self::fits(self@),
        ensures
            r == Self::wire(self@, 0).len(),
    ;
}

/// Decodes a value from the start of `b`.
pub fn read<T: XimFormat>(b: &[u8]) -> (r: Result<T, ReadError>)
    ensures
        yields(r, T::parse(b@, 0)),
{
    let mut reader = Reader::new(b);
    T::read(&mut reader)
}

/// Appends the encoding of `data` to `out`; alignment counts from the start of `out`.
pub fn write<T: XimFormat>(data: &T, out: &mut Vec<u8>)
    requires
        T::fits(data@),
    ensures
        final(out)@ == old(out)@ + T::wire(data@, old(out)@.len()),
{
    let mut taken: Vec<u8> = Vec::new();
    std::mem::swap(out, &mut taken);
    let mut writer = Writer::new(taken);
    data.write(&mut writer);
    let mut done = writer.into_bytes();
    std::mem::swap(out, &mut done);
}

/// The byte order tag of the connection handshake.
#[derive(Clone, Copy, Debug, PartialEq, Eq, Structural)]
pub enum Endian {
    Big,
    Little,
}

impl View for Endian {
    type V = Endian;

    open spec fn view(&self) -> Endian {
        *self
    }
}

impl Endian {
    /// The tag byte: `'B'` for big endian, `'l'` for little endian.
    pub open spec fn tag(self) -> u8 {
        match self {
            Endian::Big => 0x42u8,
            Endian::Little => 0x6cu8,
        }
    }

    /// The byte order of the machine running this code.
    pub open spec fn host() -> Endian {
        if crate::bytes::host_little() {
            Endian::Little
        } else {
            Endian::Big
        }
    }

    /// The byte order of the machine running this code.
    pub fn native() -> (r: Endian)
        ensures
            r == Endian::host(),
    {
        let (first, _) = u16_to_ne(1);
        if first == 1 {
            Endian::Little
        } else {
            Endian::Big
        }
    }

    pub fn tag_byte(&self) -> (r: u8)
        ensures
            r == self.tag(),
    {
        match self {
            Endian::Big => 0x42,
            Endian::Little => 0x6c,
        }
    }
}

impl XimFormat for Endian {
    open spec fn wire(v: Endian, off: nat) -> Seq<u8> {
        seq![v.tag()]
    }

    /// Only the host's own tag is accepted.
    open spec fn parse(b: Seq<u8>, pos: nat) -> Result<(Endian, nat), Fault> {
        match take_u8(b, pos) {
            Ok((n, p)) => if n == Endian::host().tag() {
                Ok((Endian::host(), p))
            } else {
                Err(Fault::NotNativeEndian)
            },
            Err(f) => Err(f),
        }
    }

    open spec fn fits(v: Endian) -> bool {
        true
    }

    fn read(reader: &mut Reader) -> (r: Result<Self, ReadError>) {
        let n = reader.u8()?;
        let host = Endian::native();
        if n == host.tag_byte() {
            Ok(host)
        } else {
            Err(ReadError::NotNativeEndian)
        }
    }

    fn write(&self, writer: &mut Writer) {
        writer.write_u8(self.tag_byte());
    }

    fn size(&self) -> (r: usize) {
        1
    }
}

impl XimFormat for u8 {
    open spec fn wire(v: u8, off: nat) -> Seq<u8> {
        seq![v]
    }

    open spec fn parse(b: Seq<u8>, pos: nat) -> Result<(u8, nat), Fault> {
        take_u8(b, pos)
    }

    open spec fn fits(v: u8) -> bool {
        true
    }

    fn read(reader: &mut Reader) -> (r: Result<Self, ReadError>) {
        reader.u8()
    }

    fn write(&self, writer: &mut Writer) {
        writer.write_u8(*self);
    }

    fn size(&self) -> (r: usize) {
        1
    }
}

impl XimFormat for u16 {
    open spec fn wire(v: u16, off: nat) -> Seq<u8> {
        u16_wire(v)
    }

    open spec fn parse(b: Seq<u8>, pos: nat) -> Result<(u16, nat), Fault> {
        take_u16(b, pos)
    }

    open spec fn fits(v: u16) -> bool {
        true
    }

    fn read(reader: &mut Reader) -> (r: Result<Self, ReadError>) {
        reader.u16()
    }

    fn write(&self, writer: &mut Writer) {
        writer.write_u16(*self);
    }

    fn size(&self) -> (r: usize) {
        2
    }
}

impl XimFormat for u32 {
    open spec fn wire(v: u32, off: nat) -> Seq<u8> {
        u32_wire(v)
    }

    open spec fn parse(b: Seq<u8>, pos: nat) -> Result<(u32, nat), Fault> {
        take_u32(b, pos)
    }

    open spec fn fits(v: u32) -> bool {
        true
    }

    fn read(reader: &mut Reader) -> (r: Result<Self, ReadError>) {
        reader.u32()
    }

    fn write(&self, writer: &mut Writer) {
        writer.write_u32(*self);
    }

    fn size(&self) -> (r: usize) {
        4
    }
}

impl XimFormat for i32 {
    open spec fn wire(v: i32, off: nat) -> Seq<u8> {
        u32_wire(v as u32)
    }

    open spec fn parse(b: Seq<u8>, pos: nat) -> Result<(i32, nat), Fault> {
        take_i32(b, pos)
    }

    open spec fn fits(v: i32) -> bool {
        true
    }

    fn read(reader: &mut Reader) -> (r: Result<Self, ReadError>) {
        reader.i32()
    }

    fn write(&self, writer: &mut Writer) {
        writer.write_u32(*self as u32);
    }

    fn size(&self) -> (r: usize) {
        4
    }
}

} // verus!

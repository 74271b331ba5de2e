//! Attribute descriptions: their wire types, caret styles, and the byte strings that name them.

use vstd::prelude::*;
use crate::bytes::{pad_len, zeros, u16_wire, u32_wire};
use crate::cursor::{Reader, Writer, pad4, take_u16, take_u32, take_bytes, take_pad};
use crate::error::{ReadError, Fault, settles, decimal_text};
use crate::format::XimFormat;

verus! {

/// An opaque byte string; whether it is UTF-8 is the caller's concern.
#[derive(Clone, Debug, PartialEq, Eq)]
pub struct XimString(pub Vec<u8>);

impl View for XimString {
    type V = Seq<u8>;

    open spec fn view(&self) -> Seq<u8> {
        self.0@
    }
}

impl XimString {
    /// A copy of this string.
    pub fn clone_bytes(&self) -> (r: XimString)
        ensures
            r@ == self@,
    {
        let mut out: Vec<u8> = Vec::new();
        let mut i: usize = 0;
        while i < self.0.len()
            invariant
                i <= self@.len(),
                out@ == self@.take(i as int),
            decreases self@.len() - i,
        {
            out.push(self.0[i]);
            i = i + 1;
            assert(self@.take(i as int) == self@.take(i - 1).push(self@[i - 1]));
        }
        assert(self@.take(i as int) == self@);
        XimString(out)
    }
}

/// The wire types that an attribute may have.
#[derive(Clone, Copy, Debug, PartialEq, Eq, Structural)]
pub enum AttrType {
    Separator,
    Byte,
    Word,
    Long,
    Char,
    Window,
    Style,
    XRectangle,
    XPoint,
    XFontSet,
    HotkeyTriggers,
    StringConversion,
    PreeditState,
    ResetState,
    NestedList,
}

impl View for AttrType {
    type V = AttrType;

    open spec fn view(&self) -> AttrType {
        *self
    }
}

/// The attribute type with wire code `n`, if there is one.
pub open spec fn attr_type_of(n: u16) -> Option<AttrType> {
    if n == 0 {
        Some(AttrType::Separator)
    } else if n == 1 {
        Some(AttrType::Byte)
    } else if n == 2 {
        Some(AttrType::Word)
    } else if n == 3 {
        Some(AttrType::Long)
    } else if n == 4 {
        Some(AttrType::Char)
    } else if n == 5 {
        Some(AttrType::Window)
    } else if n == 10 {
        Some(AttrType::Style)
    } else if n == 11 {
        Some(AttrType::XRectangle)
    } else if n == 12 {
        Some(AttrType::XPoint)
    } else if n == 13 {
        Some(AttrType::XFontSet)
    } else if n == 15 {
        Some(AttrType::HotkeyTriggers)
    } else if n == 17 {
        Some(AttrType::StringConversion)
    } else if n == 18 {
        Some(AttrType::PreeditState)
    } else if n == 19 {
        Some(AttrType::ResetState)
    } else if n == 32767 {
        Some(AttrType::NestedList)
    } else {
        None
    }
}

impl AttrType {
    /// The wire code of this type.
    pub open spec fn code(self) -> u16 {
        match self {
            AttrType::Separator => 0,
            AttrType::Byte => 1,
            AttrType::Word => 2,
            AttrType::Long => 3,
            AttrType::Char => 4,
            AttrType::Window => 5,
            AttrType::Style => 10,
            AttrType::XRectangle => 11,
            AttrType::XPoint => 12,
            AttrType::XFontSet => 13,
            AttrType::HotkeyTriggers => 15,
            AttrType::StringConversion => 17,
            AttrType::PreeditState => 18,
            AttrType::ResetState => 19,
            AttrType::NestedList => 32767,
        }
    }

    pub fn to_code(&self) -> (r: u16)
        ensures
            r == self.code(),
    {
        match self {
            AttrType::Separator => 0,
            AttrType::Byte => 1,
            AttrType::Word => 2,
            AttrType::Long => 3,
            AttrType::Char => 4,
            AttrType::Window => 5,
            AttrType::Style => 10,
            AttrType::XRectangle => 11,
            AttrType::XPoint => 12,
            AttrType::XFontSet => 13,
            AttrType::HotkeyTriggers => 15,
            AttrType::StringConversion => 17,
            AttrType::PreeditState => 18,
            AttrType::ResetState => 19,
            AttrType::NestedList => 32767,
        }
    }
}

impl XimFormat for AttrType {
    open spec fn wire(v: AttrType, off: nat) -> Seq<u8> {
        u16_wire(v.code())
    }

    open spec fn parse(b: Seq<u8>, pos: nat) -> Result<(AttrType, nat), Fault> {
        match take_u16(b, pos) {
            Ok((n, p)) => match attr_type_of(n) {
                Some(t) => Ok((t, p)),
                None => Err(Fault::BadAttrType(n)),
            },
            Err(f) => Err(f),
        }
    }

    open spec fn fits(v: AttrType) -> bool {
        true
    }

    fn read(reader: &mut Reader) -> (r: Result<Self, ReadError>) {
        let repr = reader.u16()?;
        match repr {
            0 => Ok(AttrType::Separator),
            1 => Ok(AttrType::Byte),
            2 => Ok(AttrType::Word),
            3 => Ok(AttrType::Long),
            4 => Ok(AttrType::Char),
            5 => Ok(AttrType::Window),
            10 => Ok(AttrType::Style),
            11 => Ok(AttrType::XRectangle),
            12 => Ok(AttrType::XPoint),
            13 => Ok(AttrType::XFontSet),
            15 => Ok(AttrType::HotkeyTriggers),
            17 => Ok(AttrType::StringConversion),
            18 => Ok(AttrType::PreeditState),
            19 => Ok(AttrType::ResetState),
            32767 => Ok(AttrType::NestedList),
            _ => {
                proof {
                    reveal_strlit("AttrType");
                }
                Err(reader.invalid_data("AttrType", decimal_text(repr as u32)))
            },
        }
    }

    fn write(&self, writer: &mut Writer) {
        writer.write_u16(self.to_code());
    }

    fn size(&self) -> (r: usize) {
        2
    }
}

/// How the caret is drawn.
#[derive(Clone, Copy, Debug, PartialEq, Eq, Structural)]
pub enum CaretStyle {
    Invisible,
    Primary,
    Secondary,
}

impl View for CaretStyle {
    type V = CaretStyle;

    open spec fn view(&self) -> CaretStyle {
        *self
    }
}

impl CaretStyle {
    /// The wire code of this style.
    pub open spec fn code(self) -> u32 {
        match self {
            CaretStyle::Invisible => 0,
            CaretStyle::Primary => 1,
            CaretStyle::Secondary => 2,
        }
    }
}

impl XimFormat for CaretStyle {
    open spec fn wire(v: CaretStyle, off: nat) -> Seq<u8> {
        u32_wire(v.code())
    }

    open spec fn parse(b: Seq<u8>, pos: nat) -> Result<(CaretStyle, nat), Fault> {
        match take_u32(b, pos) {
            Ok((n, p)) => if n == 0 {
                Ok((CaretStyle::Invisible, p))
            } else if n == 1 {
                Ok((CaretStyle::Primary, p))
            } else if n == 2 {
                Ok((CaretStyle::Secondary, p))
            } else {
                Err(Fault::BadCaretStyle(n))
            },
            Err(f) => Err(f),
        }
    }

    open spec fn fits(v: CaretStyle) -> bool {
        true
    }

    fn read(reader: &mut Reader) -> (r: Result<Self, ReadError>) {
        let repr = reader.u32()?;
        match repr {
            0 => Ok(CaretStyle::Invisible),
            1 => Ok(CaretStyle::Primary),
            2 => Ok(CaretStyle::Secondary),
            _ => {
                proof {
                    reveal_strlit("CaretStyle");
                }
                Err(reader.invalid_data("CaretStyle", decimal_text(repr)))
            },
        }
    }

    fn write(&self, writer: &mut Writer) {
        let code: u32 = match self {
            CaretStyle::Invisible => 0,
            CaretStyle::Primary => 1,
            CaretStyle::Secondary => 2,
        };
        writer.write_u32(code);
    }

    fn size(&self) -> (r: usize) {
        4
    }
}

/// An attribute that a peer offers: its id, its wire type and its name.
#[derive(Clone, Debug, PartialEq, Eq)]
pub struct Attr {
    pub id: u16,
    pub ty: AttrType,
    pub name: XimString,
}

/// An attribute as plain values.
pub struct AttrView {
    pub id: u16,
    pub ty: AttrType,
    pub name: Seq<u8>,
}

impl View for Attr {
    type V = AttrView;

    open spec fn view(&self) -> AttrView {
        AttrView { id: self.id, ty: self.ty, name: self.name@ }
    }
}

/// The bytes of a name with a `u16` length prefix, padded so that the buffer,
/// holding `off` bytes before it, ends on a multiple of four.
pub open spec fn string16_wire(s: Seq<u8>, off: nat) -> Seq<u8> {
    u16_wire(s.len() as u16) + s + zeros(pad_len(off + 2 + s.len()))
}

/// A byte string with a `u16` length prefix, then the padding to a multiple of four.
pub open spec fn parse_string16(b: Seq<u8>, pos: nat) -> Result<(Seq<u8>, nat), Fault> {
    match take_u16(b, pos) {
        Ok((n, p1)) => match take_bytes(b, p1, n as nat) {
            Ok((s, p2)) => match take_pad(b, p2) {
                Ok((_, p3)) => Ok((s, p3)),
                Err(f) => Err(f),
            },
            Err(f) => Err(f),
        },
        Err(f) => Err(f),
    }
}

/// Reads a byte string with a `u16` length prefix, then the padding to a multiple of four.
pub(crate) fn read_string16(reader: &mut Reader) -> (r: Result<XimString, ReadError>)
    requires
        old(reader).wf(),
    ensures
        final(reader).wf(),
        final(reader).data() == old(reader).data(),
        settles(r, final(reader).pos(), parse_string16(old(reader).data(), old(reader).pos())),
{
    let len = reader.u16()?;
    let bytes = reader.consume(len as usize)?;
    reader.pad4()?;
    Ok(XimString(vstd::slice::slice_to_vec(bytes)))
}

/// Writes a byte string with a `u16` length prefix, then the padding to a multiple of four.
pub(crate) fn write_string16(s: &XimString, writer: &mut Writer)
    requires
        s@.len() <= 0xffff,
    ensures
        final(writer).bytes() == old(writer).bytes() + string16_wire(s@, old(writer).bytes().len()),
{
    let ghost start = writer.bytes();
    writer.write_u16(s.0.len() as u16);
    writer.write(s.0.as_slice());
    writer.write_pad4();
    assert(writer.bytes() == start + string16_wire(s@, start.len()));
}

/// The number of bytes of a `u16`-prefixed string at a four-aligned position.
pub(crate) fn string16_size(s: &XimString) -> (r: usize)
    requires
        s@.len() <= 0xffff,
    ensures
        r == string16_wire(s@, 0).len(),
{
    let n = s.0.len() + 2;
    n + pad4(n)
}

impl XimFormat for Attr {
    open spec fn wire(v: AttrView, off: nat) -> Seq<u8> {
        u16_wire(v.id) + u16_wire(v.ty.code()) + string16_wire(v.name, off + 4)
    }

    open spec fn parse(b: Seq<u8>, pos: nat) -> Result<(AttrView, nat), Fault> {
        match take_u16(b, pos) {
            Ok((id, p1)) => match AttrType::parse(b, p1) {
                Ok((ty, p2)) => match parse_string16(b, p2) {
                    Ok((name, p3)) => Ok((AttrView { id, ty, name }, p3)),
                    Err(f) => Err(f),
                },
                Err(f) => Err(f),
            },
            Err(f) => Err(f),
        }
    }

    open spec fn fits(v: AttrView) -> bool {
        v.name.len() <= 0xffff
    }

    fn read(reader: &mut Reader) -> (r: Result<Self, ReadError>) {
        let id = reader.u16()?;
        let ty = AttrType::read(reader)?;
        let name = read_string16(reader)?;
        Ok(Attr { id, ty, name })
    }

    fn write(&self, writer: &mut Writer) {
        let ghost start = writer.bytes();
        writer.write_u16(self.id);
        writer.write_u16(self.ty.to_code());
        write_string16(&self.name, writer);
        assert(writer.bytes() == start + Self::wire(self@, start.len()));
    }

    fn size(&self) -> (r: usize) {
        4 + string16_size(&self.name)
    }
}

/// An extension that a server supports: its opcodes and its name.
#[derive(Clone, Debug, PartialEq, Eq)]
pub struct Extension {
    pub major_opcode: u8,
    pub minor_opcode: u8,
    pub name: XimString,
}

/// An extension as plain values.
pub struct ExtView {
    pub major: u8,
    pub minor: u8,
    pub name: Seq<u8>,
}

impl View for Extension {
    type V = ExtView;

    open spec fn view(&self) -> ExtView {
        ExtView { major: self.major_opcode, minor: self.minor_opcode, name: self.name@ }
    }
}

impl XimFormat for Extension {
    open spec fn wire(v: ExtView, off: nat) -> Seq<u8> {
        seq![v.major, v.minor] + string16_wire(v.name, off + 2)
    }

    open spec fn parse(b: Seq<u8>, pos: nat) -> Result<(ExtView, nat), Fault> {
        match crate::cursor::take_u8(b, pos) {
            Ok((major, p1)) => match crate::cursor::take_u8(b, p1) {
                Ok((minor, p2)) => match parse_string16(b, p2) {
                    Ok((name, p3)) => Ok((ExtView { major, minor, name }, p3)),
                    Err(f) => Err(f),
                },
                Err(f) => Err(f),
            },
            Err(f) => Err(f),
        }
    }

    open spec fn fits(v: ExtView) -> bool {
        v.name.len() <= 0xffff
    }

    fn read(reader: &mut Reader) -> (r: Result<Self, ReadError>) {
        let major_opcode = reader.u8()?;
        let minor_opcode = reader.u8()?;
        let name = read_string16(reader)?;
        Ok(Extension { major_opcode, minor_opcode, name })
    }

    fn write(&self, writer: &mut Writer) {
        let ghost start = writer.bytes();
        writer.write_u8(self.major_opcode);
        writer.write_u8(self.minor_opcode);
        write_string16(&self.name, writer);
        assert(writer.bytes() =~= start + Self::wire(self@, start.len()));
    }

    fn size(&self) -> (r: usize) {
        let n = 4 + self.name.0.len();
        n + pad4(n)
    }
}

/// The value of one attribute: its id and its bytes, read by the attribute's type.
#[derive(Clone, Debug, PartialEq, Eq)]
pub struct AttrValue {
    pub id: u16,
    pub value: XimString,
}

/// An attribute value as plain values.
pub struct AttrValueView {
    pub id: u16,
    pub value: Seq<u8>,
}

impl View for AttrValue {
    type V = AttrValueView;

    open spec fn view(&self) -> AttrValueView {
        AttrValueView { id: self.id, value: self.value@ }
    }
}

impl XimFormat for AttrValue {
    open spec fn wire(v: AttrValueView, off: nat) -> Seq<u8> {
        u16_wire(v.id) + string16_wire(v.value, off + 2)
    }

    open spec fn parse(b: Seq<u8>, pos: nat) -> Result<(AttrValueView, nat), Fault> {
        match take_u16(b, pos) {
            Ok((id, p1)) => match parse_string16(b, p1) {
                Ok((value, p2)) => Ok((AttrValueView { id, value }, p2)),
                Err(f) => Err(f),
            },
            Err(f) => Err(f),
        }
    }

    open spec fn fits(v: AttrValueView) -> bool {
        v.value.len() <= 0xffff
    }

    fn read(reader: &mut Reader) -> (r: Result<Self, ReadError>) {
        let id = reader.u16()?;
        let value = read_string16(reader)?;
        Ok(AttrValue { id, value })
    }

    fn write(&self, writer: &mut Writer) {
        let ghost start = writer.bytes();
        writer.write_u16(self.id);
        write_string16(&self.value, writer);
        assert(writer.bytes() =~= start + Self::wire(self@, start.len()));
    }

    fn size(&self) -> (r: usize) {
        let n = 4 + self.value.0.len();
        n + pad4(n)
    }
}

} // verus!

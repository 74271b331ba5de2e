//! Decode errors, and the spec-level account of which error a decoder owes.

use vstd::prelude::*;

verus! {

/// Why a byte sequence could not be decoded.
#[derive(Debug)]
pub enum ReadError {
    /// Fewer bytes remained than the next field needs.
    EndOfStream,
    /// A value outside those the named wire type allows, with its text.
    InvalidData(&'static str, String),
    /// A handshake tag that names the other byte order.
    NotNativeEndian,
}

/// The decode failures, as plain values: what a parser owes on given bytes.
#[derive(Clone, Copy, Debug, PartialEq, Eq)]
pub enum Fault {
    EndOfStream,
    BadAttrType(u16),
    BadCaretStyle(u32),
    BadOpcode(u8, u8),
    NotNativeEndian,
}

/// The character of decimal digit `d`.
pub open spec fn digit_char(d: nat) -> char {
    (d + 48) as char
}

/// The decimal digits of `n`, most significant first, with no leading zero.
pub open spec fn decimal(n: nat) -> Seq<char>
    decreases n,
{
    if n < 10 {
        seq![digit_char(n)]
    } else {
        decimal(n / 10).push(digit_char(n % 10))
    }
}

/// The text of an opcode pair as it appears in an error: `(major, minor)`.
pub open spec fn opcode_pair_text(major: u8, minor: u8) -> Seq<char> {
    seq!['('] + decimal(major as nat) + seq![',', ' '] + decimal(minor as nat) + seq![')']
}

/// `e` is the error that reports `f`.
pub open spec fn reports(e: ReadError, f: Fault) -> bool {
    match f {
        Fault::EndOfStream => e is EndOfStream,
        Fault::NotNativeEndian => e is NotNativeEndian,
        Fault::BadAttrType(v) => match e {
            ReadError::InvalidData(ty, text) => ty@ == "AttrType"@ && text@ == decimal(v as nat),
            _ => false,
        },
        Fault::BadCaretStyle(v) => match e {
            ReadError::InvalidData(ty, text) => ty@ == "CaretStyle"@ && text@ == decimal(v as nat),
            _ => false,
        },
        Fault::BadOpcode(major, minor) => match e {
            ReadError::InvalidData(ty, text) => ty@ == "Opcode"@ && text@ == opcode_pair_text(
                major,
                minor,
            ),
            _ => false,
        },
    }
}

/// `r` is what a decoder owes when the spec-level parse gives `want`:
/// the value (by its view) and the position after it, or the error that reports the fault.
pub open spec fn settles<T: View>(
    r: Result<T, ReadError>,
    pos: nat,
    want: Result<(T::V, nat), Fault>,
) -> bool {
    match want {
        Ok((v, p)) => r is Ok && r->Ok_0@ == v && pos == p,
        Err(f) => r is Err && reports(r->Err_0, f),
    }
}

/// Relies on u32's `ToString` (its `Display`): the decimal digits of the value.
#[verifier::external_body]
pub(crate) fn decimal_text(n: u32) -> (r: String)
    ensures
        r@ == decimal(n as nat),
{
    n.to_string()
}

/// Relies on `format!`: the two opcodes in decimal, as `(major, minor)`.
#[verifier::external_body]
pub(crate) fn opcode_text(major: u8, minor: u8) -> (r: String)
    ensures
        r@ == opcode_pair_text(major, minor),
{
    format!("({}, {})", major, minor)
}

} // verus!

verus! {

/// `r` is what a whole-buffer decoder owes when the spec-level parse gives `want`.
pub open spec fn yields<T: View>(r: Result<T, ReadError>, want: Result<(T::V, nat), Fault>) -> bool {
    match want {
        Ok((v, _)) => r is Ok && r->Ok_0@ == v,
        Err(f) => r is Err && reports(r->Err_0, f),
    }
}

} // verus!

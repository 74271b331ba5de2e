//! Host byte order and padding arithmetic, stated as spec functions.

use vstd::prelude::*;

verus! {

/// Whether the machine running this code stores integers least significant byte first.
pub open spec fn host_little() -> bool {
    vstd::endian::endianness() == vstd::endian::Endian::Little
}

/// Number of zero bytes that bring a length of `n` to a multiple of four.
pub open spec fn pad_len(n: nat) -> nat {
    ((4 - n % 4) % 4) as nat
}

/// `n` bytes of value zero.
pub open spec fn zeros(n: nat) -> Seq<u8> {
    Seq::new(n, |i: int| 0u8)
}

/// The two bytes of `v` in host order.
pub open spec fn u16_wire(v: u16) -> Seq<u8> {
    let lo = (v % 256) as u8;
    let hi = (v / 256) as u8;
    if host_little() {
        seq![lo, hi]
    } else {
        seq![hi, lo]
    }
}

/// The value of two bytes read in host order.
pub open spec fn u16_value(b0: u8, b1: u8) -> u16 {
    if host_little() {
        (b0 + 256 * b1) as u16
    } else {
        (b1 + 256 * b0) as u16
    }
}

/// The four bytes of `v` in host order.
pub open spec fn u32_wire(v: u32) -> Seq<u8> {
    let b0 = (v % 256) as u8;
    let b1 = ((v / 256) % 256) as u8;
    let b2 = ((v / 65536) % 256) as u8;
    let b3 = (v / 16777216) as u8;
    if host_little() {
        seq![b0, b1, b2, b3]
    } else {
        seq![b3, b2, b1, b0]
    }
}

/// The value of four bytes read in host order.
pub open spec fn u32_value(b0: u8, b1: u8, b2: u8, b3: u8) -> u32 {
    if host_little() {
        (b0 + 256 * b1 + 65536 * b2 + 16777216 * b3) as u32
    } else {
        (b3 + 256 * b2 + 65536 * b1 + 16777216 * b0) as u32
    }
}

/// Relies on u16::from_ne_bytes: the two bytes taken in the host's byte order.
#[verifier::external_body]
pub(crate) fn u16_from_ne(b0: u8, b1: u8) -> (r: u16)
    ensures
        r == u16_value(b0, b1),
{
    u16::from_ne_bytes([b0, b1])
}

/// Relies on u16::to_ne_bytes: the value's two bytes in the host's byte order.
#[verifier::external_body]
pub(crate) fn u16_to_ne(v: u16) -> (r: (u8, u8))
    ensures
        seq![r.0, r.1] == u16_wire(v),
{
    let b = v.to_ne_bytes();
    (b[0], b[1])
}

/// Relies on u32::from_ne_bytes: the four bytes taken in the host's byte order.
#[verifier::external_body]
pub(crate) fn u32_from_ne(b0: u8, b1: u8, b2: u8, b3: u8) -> (r: u32)
    ensures
        r == u32_value(b0, b1, b2, b3),
{
    u32::from_ne_bytes([b0, b1, b2, b3])
}

/// Relies on u32::to_ne_bytes: the value's four bytes in the host's byte order.
#[verifier::external_body]
pub(crate) fn u32_to_ne(v: u32) -> (r: (u8, u8, u8, u8))
    ensures
        seq![r.0, r.1, r.2, r.3] == u32_wire(v),
{
    let b = v.to_ne_bytes();
    (b[0], b[1], b[2], b[3])
}

/// Reading back the two bytes of a value gives the value.
pub proof fn lemma_u16_round_trip(v: u16)
    ensures
        u16_wire(v).len() == 2,
        u16_value(u16_wire(v)[0], u16_wire(v)[1]) == v,
{
}

/// Reading back the four bytes of a value gives the value.
pub proof fn lemma_u32_round_trip(v: u32)
    ensures
        u32_wire(v).len() == 4,
        u32_value(u32_wire(v)[0], u32_wire(v)[1], u32_wire(v)[2], u32_wire(v)[3]) == v,
{
}

/// Padding never exceeds three bytes, and padding a padded length adds nothing.
pub proof fn lemma_pad_len(n: nat)
    ensures
        pad_len(n) < 4,
        (n + pad_len(n)) % 4 == 0,
        n % 4 == 0 ==> pad_len(n) == 0,
{
}

} // verus!

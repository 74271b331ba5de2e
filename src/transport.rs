//! How an encoded message travels in X11 client messages: inline when it fits the
//! twenty data bytes of one message, else through a window property.

use vstd::prelude::*;
use crate::bytes::zeros;

verus! {

/// The data bytes of a format-8 client message.
pub const INLINE_LIMIT: usize = 20;

/// How one encoded message is handed to the peer.
#[derive(Debug, PartialEq, Eq)]
pub enum Delivery {
    /// The data of one format-8 client message: the message, then zero bytes.
    Inline(Vec<u8>),
    /// The message is written to a property; a format-32 client message then carries
    /// its length and the property's atom.
    Property { length: u32 },
}

/// Chooses how to deliver `bytes`.
pub fn plan_delivery(bytes: &[u8]) -> (r: Delivery)
    requires
        bytes@.len() <= u32::MAX,
    ensures
        bytes@.len() <= INLINE_LIMIT ==> r is Inline && r->Inline_0@ == bytes@ + zeros(
            (INLINE_LIMIT - bytes@.len()) as nat,
        ),
        bytes@.len() > INLINE_LIMIT ==> r == (Delivery::Property { length: bytes@.len() as u32 }),
{
    if bytes.len() <= INLINE_LIMIT {
        let mut data: Vec<u8> = Vec::new();
        let mut i: usize = 0;
        while i < bytes.len()
            invariant
                i <= bytes@.len(),
                data@ == bytes@.take(i as int),
            decreases bytes@.len() - i,
        {
            data.push(bytes[i]);
            i = i + 1;
            assert(bytes@.take(i as int) == bytes@.take(i - 1).push(bytes@[i - 1]));
        }
        assert(bytes@.take(i as int) == bytes@);
        let mut k: usize = 0;
        while data.len() < INLINE_LIMIT
            invariant
                bytes@.len() <= INLINE_LIMIT,
                data@.len() <= INLINE_LIMIT,
                data@.len() == bytes@.len() + k,
                data@ == bytes@ + zeros(k as nat),
            decreases INLINE_LIMIT - data@.len(),
        {
            data.push(0);
            k = k + 1;
            assert(zeros(k as nat) == zeros((k - 1) as nat).push(0u8));
        }
        Delivery::Inline(data)
    } else {
        Delivery::Property { length: bytes.len() as u32 }
    }
}

} // verus!

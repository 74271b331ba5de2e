//! The X Input Method protocol: its wire codec, the transport choice between inline
//! client messages and property spillover, and the client's handshake.
//!
//! - `bytes`: host byte order and padding arithmetic.
//! - `cursor`: a forward-only reader and an append-only writer over bytes.
//! - `error`: decode errors, and which one a decoder owes on given bytes.
//! - `format`: the contract of every wire type, with its primitive instances.
//! - `attr`: attribute descriptions, caret styles, extensions, byte strings.
//! - `list`: lists of items with a byte-length prefix.
//! - `request`: the protocol messages, their encoding and decoding.
//! - `laws`: what holds of the codec as a whole, proved.
//! - `transport`: how an encoded message travels.
//! - `client`: the client's handshake, one message at a time.
//! - `server`: the server's replies, one message at a time.

pub mod bytes;
pub mod cursor;
pub mod error;
pub mod format;
pub mod attr;
pub mod list;
pub mod request;
pub mod laws;
pub mod transport;
pub mod client;
pub mod server;

pub use cursor::{Reader, Writer};
pub use format::{XimFormat, Endian};
pub use error::ReadError;
pub use attr::{XimString, AttrType, CaretStyle, Attr};
pub use request::Request;

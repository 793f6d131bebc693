//! Encoding and decoding of the Thrift binary and compact protocols.
//!
//! Values are plain trees ([`data::Data`]); a [`message::Message`] is the RPC
//! envelope around a struct. Encoders append to a byte vector, decoders read
//! from the front of a byte slice and leave the slice at the first unread byte.
//! Every codec function is specified against a mathematical description of the
//! wire format, and decoding is proved to invert encoding.
pub mod binary;
pub mod compact;
pub mod convert;
pub mod data;
pub mod decode;
pub mod encode;
pub mod endian;
pub mod error;
pub mod laws;
pub mod message;
pub mod text;
pub mod varint;
pub mod wire;
pub mod zigzag;

pub use decode::{BinaryDecode, CompactDecode};
pub use encode::{BinaryEncode, CompactEncode};
pub use error::{Error, ErrorKind};

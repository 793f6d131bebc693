//! The Thrift binary protocol: fixed-width integers, most significant byte
//! first, and every field and container preceded by the kinds it holds.
pub mod decode;
pub mod encode;
pub mod format;
pub mod laws;

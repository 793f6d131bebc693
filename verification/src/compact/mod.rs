//! The Thrift compact protocol: varints, ZigZag integers, field identifiers
//! written as differences, and kinds packed with sizes into single bytes.
pub mod decode;
pub mod encode;
pub mod format;
pub mod laws;

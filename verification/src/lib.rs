//! Variable-length, base-128 encoding of unsigned 32-bit integers.
//!
//! Every encoded byte carries seven payload bits in its low bits and a
//! continuation flag in its high bit. The crate offers the wrapper type
//! [`u7`], which behaves like a `u32` under arithmetic and bitwise operators,
//! and the codec that turns such a value into its shortest byte sequence and
//! back.
//!
//! - [`value`]: the wrapper type, its conversions and operators.
//! - [`wire`]: the format itself, as functions on byte sequences, and what
//!   holds of it.
//! - [`codec`]: encoding into a buffer and decoding from one.
//! - [`stream`]: decoding byte by byte, for callers that fetch the bytes
//!   themselves.

pub mod codec;
pub mod stream;
pub mod value;
pub mod wire;

pub use stream::{Decoder, Step};
pub use value::u7;

//! Primitive binary decoding for tag-based metadata containers.
//!
//! Byte buffers are turned into numeric scalars and ordered arrays under a
//! caller-supplied endianness flag. Rational values are kept as exact
//! numerator/denominator pairs.

pub mod lowlevel;
pub mod rational;

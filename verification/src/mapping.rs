//! Encoders that turn a position into the planes and scalars a network reads.

pub mod trictrac;

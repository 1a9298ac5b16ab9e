//! Control logic for one brushed DC motor behind an H-bridge, and for the
//! two-channel quadrature encoder that measures its rotation.
//!
//! The types here hold plain values: the levels and duty that the bridge is
//! given, the count of the encoder, and what the encoder's two lines show.
//! Whoever owns the pins copies those values to and from the hardware.

pub mod speed;
pub mod motor;

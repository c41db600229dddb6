//! A software position counter for quadrature encoders.
//!
//! A timer in quadrature-decode mode exposes a free-running 16-bit counter
//! that wraps modulo 65536. [`encoder::Encoder`] extends it into a wide,
//! direction-aware position by accumulating the signed step between two
//! successive samples, and [`report::ChangeFilter`] suppresses repeated
//! reports of an unchanged position.

pub mod delta;
pub mod encoder;
pub mod report;

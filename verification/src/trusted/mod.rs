//! The trusted boundary: what this library believes of the crates it calls,
//! without proof. Each item names the function it stands for and says what
//! is claimed of it.

pub mod canvas;
pub mod encoder;
pub mod rng;

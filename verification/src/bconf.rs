//! The configuration surface and the catalogue of paths.

pub mod defaults;
pub mod mcfg;
pub mod scfg;

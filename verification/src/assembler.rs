//! The x86-64 instruction encoder and its addressing-mode model.

pub mod addressing_mode;
pub mod x86_64;

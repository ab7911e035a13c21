//! An ahead-of-time compiler and runtime core for the eight-token tape
//! language: parser, intermediate representation, peephole and loop-pattern
//! optimizers, a flat virtual-machine backend with a pure interpreter, and an
//! x86-64 native backend built on a hand-rolled instruction encoder.

pub mod assembler;
pub mod compiler;
pub mod instruction;
pub mod optimizer;
pub mod parser;
pub mod runtime;
pub mod semantics;

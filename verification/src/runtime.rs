//! Runtimes for compiled programs. The virtual machine lives here and is
//! verified; executing native code is host work and stays outside the
//! library.

pub mod vm;

//! Boot layout for a microkernel and its rootserver on an embedded board.
//!
//! The build-time half derives the memory layout from two artifacts, the
//! microkernel's ELF image and the board's device-tree blob, and renders it as
//! linker input and compile-time constants. The run-time half describes the
//! memory that must be mapped before the microkernel is entered and fixes the
//! arguments of the call that enters it.

pub mod boot;
pub mod emit;
pub mod error;
pub mod extract;
pub mod region;
pub mod text;

pub use boot::{Rootserver, System};

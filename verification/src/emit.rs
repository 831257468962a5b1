//! The layout emitter: the memory-bank declarations, the kernel constants and
//! the linker overlay, each as text.

pub mod constants;
pub mod memory_map;
pub mod overlay;

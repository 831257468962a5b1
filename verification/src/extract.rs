//! The layout extractor: what the microkernel image and the device-tree blob
//! say about where things are placed.

pub mod device_tree;
pub mod kernel_image;

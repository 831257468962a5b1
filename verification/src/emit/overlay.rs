//! The linker overlay: space reserved for the microkernel image and the
//! device-tree blob ahead of the rootserver's own image.

use crate::region::MemoryRegion;
use crate::text::{append_hex_literal, hex_literal};
use vstd::prelude::*;
use vstd::string::*;

verus! {

/// Up to the microkernel's physical address.
pub const OVERLAY_KERNEL_START: &'static str =
    "SECTIONS {\n    .kernel : {\n        __kernel_start = ";

/// From there up to the microkernel's length.
pub const OVERLAY_KERNEL_LENGTH: &'static str =
    ";\n        . = __kernel_start;\n        FILL(0);\n        __kernel_end = __kernel_start + ";

/// From there up to the blob's physical address.
pub const OVERLAY_DEVICETREE_START: &'static str =
    ";\n        . = __kernel_end;\n    } > RAM\n\n    .devicetree : {\n        __devicetree_start = ";

/// From there up to the blob's length.
pub const OVERLAY_DEVICETREE_LENGTH: &'static str =
    ";\n        . = __devicetree_start;\n        FILL(0);\n        __devicetree_end = __devicetree_start + ";

/// The rest: the rootserver's start, aligned, and its end behind the stack.
pub const OVERLAY_ROOTSERVER: &'static str =
    ";\n        . = __devicetree_end;\n    } > RAM\n\n    .fill : {\n        . = ALIGN(1M);\n        __rootserver_start = .;\n    }\n}\nINSERT BEFORE .text;\n\nSECTIONS {\n    . = ALIGN(0x1000);\n    __rootserver_end = .;\n}\nINSERT AFTER .stack;\n";

/// The boundary that the rootserver's image starts on: 1 MiB.
pub const ROOTSERVER_ALIGNMENT: u64 = 0x10_0000;

/// The overlay for a microkernel at `kernel` and a device-tree blob at
/// `devicetree`. Two zero-filled sections, `.kernel` and `.devicetree`, stand
/// before the program's code; each starts at its region's physical address and
/// ends its region's length later, both written as literals. Behind them the
/// rootserver's image starts on the next 1 MiB boundary, and it ends, on a page
/// boundary, behind the stack.
pub open spec fn linker_overlay_text(kernel: MemoryRegion, devicetree: MemoryRegion) -> Seq<char> {
    OVERLAY_KERNEL_START@ + hex_literal(kernel.phys_addr as nat) + OVERLAY_KERNEL_LENGTH@
        + hex_literal(kernel.len as nat) + OVERLAY_DEVICETREE_START@ + hex_literal(
        devicetree.phys_addr as nat,
    ) + OVERLAY_DEVICETREE_LENGTH@ + hex_literal(devicetree.len as nat) + OVERLAY_ROOTSERVER@
}

/// Writes the linker overlay for the two regions.
pub fn generate_linker_overlay(kernel_region: &MemoryRegion, devicetree_region: &MemoryRegion) -> (text:
    String)
    ensures
        text@ == linker_overlay_text(*kernel_region, *devicetree_region),
{
    let mut out = String::from_str(OVERLAY_KERNEL_START);
    append_hex_literal(&mut out, kernel_region.phys_addr);
    out.append(OVERLAY_KERNEL_LENGTH);
    append_hex_literal(&mut out, kernel_region.len);
    out.append(OVERLAY_DEVICETREE_START);
    append_hex_literal(&mut out, devicetree_region.phys_addr);
    out.append(OVERLAY_DEVICETREE_LENGTH);
    append_hex_literal(&mut out, devicetree_region.len);
    out.append(OVERLAY_ROOTSERVER);
    out
}

/// The addresses that the overlay's symbols stand for once it is linked.
#[derive(Clone, Copy, Debug, PartialEq, Eq, Structural)]
pub struct OverlaySymbols {
    pub kernel_start: u64,
    pub kernel_end: u64,
    pub devicetree_start: u64,
    pub devicetree_end: u64,
    pub rootserver_start: u64,
}

/// `addr` rounded up to a multiple of `alignment`.
pub open spec fn align_up(addr: int, alignment: int) -> int {
    ((addr + alignment - 1) / alignment) * alignment
}

/// Rounding up to the rootserver's alignment yields the least boundary that is
/// not below the address.
pub proof fn lemma_align_up_is_next_boundary(addr: int, boundary: int)
    requires
        0 <= addr,
        boundary % (ROOTSERVER_ALIGNMENT as int) == 0,
        addr <= boundary,
    ensures
        align_up(addr, ROOTSERVER_ALIGNMENT as int) % (ROOTSERVER_ALIGNMENT as int) == 0,
        addr <= align_up(addr, ROOTSERVER_ALIGNMENT as int) <= boundary,
        align_up(addr, ROOTSERVER_ALIGNMENT as int) - addr < ROOTSERVER_ALIGNMENT,
{
}

/// What the overlay's symbols resolve to, where each of them is an address.
pub open spec fn resolved_symbols(kernel: MemoryRegion, devicetree: MemoryRegion) -> Option<
    OverlaySymbols,
> {
    let rootserver_start = align_up(devicetree.phys_end(), ROOTSERVER_ALIGNMENT as int);
    if kernel.phys_end() <= u64::MAX && rootserver_start <= u64::MAX {
        Some(
            OverlaySymbols {
                kernel_start: kernel.phys_addr,
                kernel_end: kernel.phys_end() as u64,
                devicetree_start: devicetree.phys_addr,
                devicetree_end: devicetree.phys_end() as u64,
                rootserver_start: rootserver_start as u64,
            },
        )
    } else {
        None
    }
}

/// Resolves the overlay's symbols as the link will: each section ends its
/// length behind its start, and the rootserver starts on the first 1 MiB
/// boundary at or behind the end of the device tree. `None` where one of these
/// lies beyond the last address.
pub fn overlay_symbols(kernel_region: &MemoryRegion, devicetree_region: &MemoryRegion) -> (symbols:
    Option<OverlaySymbols>)
    ensures
        symbols == resolved_symbols(*kernel_region, *devicetree_region),
{
    let kernel_end = match kernel_region.phys_addr.checked_add(kernel_region.len) {
        Some(end) => end,
        None => { return None; },
    };
    let devicetree_end = match devicetree_region.phys_addr.checked_add(devicetree_region.len) {
        Some(end) => end,
        None => { return None; },
    };
    let padded = match devicetree_end.checked_add(ROOTSERVER_ALIGNMENT - 1) {
        Some(padded) => padded,
        None => { return None; },
    };
    let rootserver_start = padded / ROOTSERVER_ALIGNMENT * ROOTSERVER_ALIGNMENT;
    Some(
        OverlaySymbols {
            kernel_start: kernel_region.phys_addr,
            kernel_end,
            devicetree_start: devicetree_region.phys_addr,
            devicetree_end,
            rootserver_start,
        },
    )
}

} // verus!

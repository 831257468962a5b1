//! The device-tree blob: whether it is one, the banks of RAM that it lists, and
//! where it is placed in memory.

use crate::error::LayoutError;
use crate::region::MemoryRegion;
use vstd::prelude::*;

verus! {

/// The error of the `fdt` crate's constructor. Nothing is read from it: any
/// such error means that the blob is no device tree.
#[verifier::external_type_specification]
#[verifier::external_body]
pub struct ExFdtError(fdt::FdtError);

/// What a flattened device tree begins with.
pub const FDT_MAGIC: u32 = 0xd00d_feed;

/// The length of a flattened device tree's header, in bytes.
pub const FDT_HEADER_LEN: usize = 40;

/// The 32-bit number that stands in `bytes` at `at`, most significant byte
/// first.
pub open spec fn be_u32(bytes: Seq<u8>, at: int) -> int {
    bytes[at] * 0x100_0000 + bytes[at + 1] * 0x1_0000 + bytes[at + 2] * 0x100 + bytes[at + 3]
}

/// Whether `blob` passes structural validation: it holds a whole header, the
/// header begins with the magic number, and the total size that the header
/// gives, its second field, is not more than the blob holds.
pub open spec fn device_tree_header_ok(blob: Seq<u8>) -> bool {
    &&& blob.len() >= FDT_HEADER_LEN
    &&& be_u32(blob, 0) == FDT_MAGIC
    &&& be_u32(blob, 4) <= blob.len()
}

/// Calls `fdt::Fdt::new` on `blob` and drops the tree. That function reads the
/// ten big-endian words of the header, and accepts the blob exactly when all
/// ten are there, the first is the magic number and the second, the total
/// size, does not exceed the blob's length.
#[verifier::external_body]
fn validate_fdt(blob: &[u8]) -> (outcome: Result<(), fdt::FdtError>)
    ensures
        outcome is Ok <==> device_tree_header_ok(blob@),
{
    match fdt::Fdt::new(blob) {
        Ok(_) => Ok(()),
        Err(error) => Err(error),
    }
}

/// Checks that `blob` is a device tree, as far as its header tells.
pub fn check_device_tree(blob: &[u8]) -> (outcome: Result<(), LayoutError>)
    ensures
        outcome == if device_tree_header_ok(blob@) {
            Ok::<(), LayoutError>(())
        } else {
            Err::<(), LayoutError>(LayoutError::DeviceTreeParseError)
        },
{
    match validate_fdt(blob) {
        Ok(()) => Ok(()),
        Err(_) => Err(LayoutError::DeviceTreeParseError),
    }
}

/// One entry of the `reg` property of a memory node of the device tree: where
/// a bank of RAM starts and, where the tree gives sizes, how large it is.
#[derive(Clone, Copy, Debug, PartialEq, Eq, Structural)]
pub struct RegEntry {
    pub starting_address: u64,
    pub size: Option<u64>,
}

/// The region of RAM that an entry with a size describes. RAM is described
/// physically only.
pub open spec fn entry_region(entry: RegEntry) -> MemoryRegion
    recommends
        entry.size is Some,
{
    MemoryRegion { virt_addr: None, phys_addr: entry.starting_address, len: entry.size->0 }
}

/// The regions of RAM that `entries` describe: one for each entry that bears a
/// size, in the order of the entries.
pub open spec fn memory_regions(entries: Seq<RegEntry>) -> Seq<MemoryRegion>
    decreases entries.len(),
{
    if entries.len() == 0 {
        Seq::empty()
    } else if entries.last().size is Some {
        memory_regions(entries.drop_last()).push(entry_region(entries.last()))
    } else {
        memory_regions(entries.drop_last())
    }
}

/// Where every entry bears a size, there is one region for each entry, at the
/// entry's place, with the entry's address and size and no virtual address.
pub proof fn lemma_one_region_per_sized_entry(entries: Seq<RegEntry>)
    requires
        forall|i: int| 0 <= i < entries.len() ==> (#[trigger] entries[i]).size is Some,
    ensures
        memory_regions(entries).len() == entries.len(),
        forall|i: int|
            0 <= i < entries.len() ==> #[trigger] memory_regions(entries)[i] == (MemoryRegion {
                virt_addr: None,
                phys_addr: entries[i].starting_address,
                len: entries[i].size->0,
            }),
    decreases entries.len(),
{
    if entries.len() > 0 {
        let init = entries.drop_last();
        assert forall|i: int| 0 <= i < init.len() implies (#[trigger] init[i]).size is Some by {
            assert(init[i] == entries[i]);
        }
        lemma_one_region_per_sized_entry(init);
        assert forall|i: int| 0 <= i < entries.len() implies #[trigger] memory_regions(entries)[i]
            == (MemoryRegion {
            virt_addr: None,
            phys_addr: entries[i].starting_address,
            len: entries[i].size->0,
        }) by {
            if i < init.len() {
                assert(memory_regions(entries)[i] == memory_regions(init)[i]);
                assert(init[i] == entries[i]);
            }
        }
    }
}

/// Entries without a size add nothing: there are never more regions than
/// entries, and none of them has a virtual address.
pub proof fn lemma_regions_are_physical(entries: Seq<RegEntry>)
    ensures
        memory_regions(entries).len() <= entries.len(),
        forall|i: int|
            0 <= i < memory_regions(entries).len() ==> (#[trigger] memory_regions(
                entries,
            )[i]).virt_addr is None,
    decreases entries.len(),
{
    if entries.len() > 0 {
        lemma_regions_are_physical(entries.drop_last());
    }
}

/// Lists the board's banks of RAM. `blob` is the device tree, `entries` what
/// its memory nodes hold, as the caller's reader of the tree found it. A blob
/// that fails structural validation is refused; of any other, every entry with
/// a size gives one region.
pub fn read_memory_regions(blob: &[u8], entries: &[RegEntry]) -> (regions: Result<
    Vec<MemoryRegion>,
    LayoutError,
>)
    ensures
        match regions {
            Ok(regions) => device_tree_header_ok(blob@) && regions@ == memory_regions(entries@),
            Err(error) => !device_tree_header_ok(blob@) && error
                == LayoutError::DeviceTreeParseError,
        },
{
    match check_device_tree(blob) {
        Ok(()) => {},
        Err(error) => { return Err(error); },
    }
    let mut regions: Vec<MemoryRegion> = Vec::new();
    let mut index: usize = 0;
    while index < entries.len()
        invariant
            index <= entries.len(),
            regions@ == memory_regions(entries@.take(index as int)),
        decreases entries.len() - index,
    {
        let entry = entries[index];
        assert(entries@.take(index + 1).drop_last() =~= entries@.take(index as int));
        assert(entries@.take(index + 1).last() == entry);
        match entry.size {
            Some(size) => {
                regions.push(
                    MemoryRegion { virt_addr: None, phys_addr: entry.starting_address, len: size },
                );
            },
            None => {},
        }
        index += 1;
    }
    assert(entries@.take(index as int) =~= entries@);
    Ok(regions)
}

/// Places the device-tree blob directly behind the microkernel: it starts
/// where the microkernel's physical region ends, with no gap and no padding,
/// at the same virtual as physical address, and is as long as the blob.
pub fn read_device_tree_range(kernel_region: &MemoryRegion, blob: &[u8]) -> (region: MemoryRegion)
    requires
        kernel_region.phys_end() <= u64::MAX,
    ensures
        region.phys_addr == kernel_region.phys_end(),
        region.virt_addr == Some(region.phys_addr),
        region.len == blob@.len(),
{
    let start = kernel_region.phys_addr + kernel_region.len;
    MemoryRegion { virt_addr: Some(start), phys_addr: start, len: blob.len() as u64 }
}

} // verus!

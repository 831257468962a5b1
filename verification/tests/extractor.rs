use sel4_rs::error::LayoutError;
use sel4_rs::extract::device_tree::{
    check_device_tree, read_device_tree_range, read_memory_regions, RegEntry,
};
use sel4_rs::extract::kernel_image::{read_kernel_region, select_kernel_segment, SegmentHeader};
use sel4_rs::region::{KernelEntry, MemoryRegion};

const PT_NULL: u32 = 0;
const PT_LOAD: u32 = 1;
const PT_NOTE: u32 = 4;

struct Segment {
    p_type: u32,
    p_vaddr: u64,
    p_paddr: u64,
    p_memsz: u64,
}

fn put(image: &mut Vec<u8>, value: u64, width: usize, little: bool) {
    let bytes = value.to_le_bytes();
    if little {
        image.extend_from_slice(&bytes[..width]);
    } else {
        let mut big: Vec<u8> = bytes[..width].to_vec();
        big.reverse();
        image.extend_from_slice(&big);
    }
}

fn elf_image(wide: bool, little: bool, entry: u64, segments: Option<&[Segment]>) -> Vec<u8> {
    let word = if wide { 8 } else { 4 };
    let header_len: u64 = if wide { 64 } else { 52 };
    let entry_len: u64 = if wide { 56 } else { 32 };
    let mut image = vec![0x7f, b'E', b'L', b'F'];
    image.push(if wide { 2 } else { 1 });
    image.push(if little { 1 } else { 2 });
    image.push(1);
    image.extend_from_slice(&[0; 9]);
    put(&mut image, 2, 2, little);
    put(&mut image, 40, 2, little);
    put(&mut image, 1, 4, little);
    put(&mut image, entry, word, little);
    put(&mut image, if segments.is_some() { header_len } else { 0 }, word, little);
    put(&mut image, 0, word, little);
    put(&mut image, 0, 4, little);
    put(&mut image, header_len, 2, little);
    put(&mut image, entry_len, 2, little);
    put(&mut image, segments.map_or(0, |segments| segments.len() as u64), 2, little);
    put(&mut image, 0, 2, little);
    put(&mut image, 0, 2, little);
    put(&mut image, 0, 2, little);
    assert_eq!(image.len() as u64, header_len);
    for segment in segments.unwrap_or(&[]) {
        put(&mut image, segment.p_type as u64, 4, little);
        if wide {
            put(&mut image, 5, 4, little);
            put(&mut image, 0x1000, 8, little);
            put(&mut image, segment.p_vaddr, 8, little);
            put(&mut image, segment.p_paddr, 8, little);
            put(&mut image, 0x10, 8, little);
            put(&mut image, segment.p_memsz, 8, little);
            put(&mut image, 0x1000, 8, little);
        } else {
            put(&mut image, 0x1000, 4, little);
            put(&mut image, segment.p_vaddr, 4, little);
            put(&mut image, segment.p_paddr, 4, little);
            put(&mut image, 0x10, 4, little);
            put(&mut image, segment.p_memsz, 4, little);
            put(&mut image, 5, 4, little);
            put(&mut image, 0x1000, 4, little);
        }
    }
    image
}

fn kernel_segment() -> Segment {
    Segment { p_type: PT_LOAD, p_vaddr: 0xE000_0000, p_paddr: 0x1000_0000, p_memsz: 0x20_0000 }
}

fn kernel_layout() -> (MemoryRegion, KernelEntry) {
    (
        MemoryRegion { virt_addr: Some(0xE000_0000), phys_addr: 0x1000_0000, len: 0x20_0000 },
        KernelEntry { virt_entry: 0xE001_0000 },
    )
}

#[test]
fn kernel_region_of_an_image_with_one_segment() {
    let image = elf_image(false, true, 0xE001_0000, Some(&[kernel_segment()]));
    assert_eq!(read_kernel_region(&image), Ok(kernel_layout()));
}

#[test]
fn kernel_region_in_either_byte_order_and_width() {
    for (wide, little) in [(false, false), (true, true), (true, false)] {
        let image = elf_image(wide, little, 0xE001_0000, Some(&[kernel_segment()]));
        assert_eq!(read_kernel_region(&image), Ok(kernel_layout()));
    }
}

#[test]
fn kernel_region_of_a_wide_image_keeps_all_64_bits() {
    let segment = Segment {
        p_type: PT_LOAD,
        p_vaddr: 0xFFFF_FF80_0000_0000,
        p_paddr: 0x0000_0001_8000_0000,
        p_memsz: 0x1_0000_0001,
    };
    let image = elf_image(true, true, 0xFFFF_FF80_0000_1234, Some(&[segment]));
    assert_eq!(
        read_kernel_region(&image),
        Ok((
            MemoryRegion {
                virt_addr: Some(0xFFFF_FF80_0000_0000),
                phys_addr: 0x0000_0001_8000_0000,
                len: 0x1_0000_0001,
            },
            KernelEntry { virt_entry: 0xFFFF_FF80_0000_1234 },
        ))
    );
}

#[test]
fn kernel_region_passes_over_what_is_not_loaded() {
    let segments = [
        Segment { p_type: PT_NOTE, p_vaddr: 0x100, p_paddr: 0x100, p_memsz: 0x20 },
        Segment { p_type: PT_LOAD, p_vaddr: 0x2000, p_paddr: 0x2000, p_memsz: 0 },
        kernel_segment(),
        Segment { p_type: PT_NULL, p_vaddr: 0, p_paddr: 0, p_memsz: 0x40 },
    ];
    let image = elf_image(false, true, 0xE001_0000, Some(&segments));
    assert_eq!(read_kernel_region(&image), Ok(kernel_layout()));
}

#[test]
fn image_without_a_loadable_segment() {
    let segments = [
        Segment { p_type: PT_NOTE, p_vaddr: 0x100, p_paddr: 0x100, p_memsz: 0x20 },
        Segment { p_type: PT_LOAD, p_vaddr: 0x2000, p_paddr: 0x2000, p_memsz: 0 },
    ];
    let image = elf_image(false, true, 0x1000, Some(&segments));
    assert_eq!(read_kernel_region(&image), Err(LayoutError::NoLoadSegment));
}

#[test]
fn image_without_a_segment_table() {
    let image = elf_image(false, true, 0x1000, None);
    assert_eq!(read_kernel_region(&image), Err(LayoutError::NoLoadSegment));
    let image = elf_image(true, false, 0x1000, Some(&[]));
    assert_eq!(read_kernel_region(&image), Err(LayoutError::NoLoadSegment));
}

#[test]
fn image_with_several_loadable_segments() {
    let segments = [
        kernel_segment(),
        Segment { p_type: PT_LOAD, p_vaddr: 0xE100_0000, p_paddr: 0x1100_0000, p_memsz: 0x1000 },
    ];
    let image = elf_image(false, true, 0xE001_0000, Some(&segments));
    assert_eq!(read_kernel_region(&image), Err(LayoutError::AmbiguousLoadSegment { found: 2 }));
    let segments = [kernel_segment(), kernel_segment(), kernel_segment()];
    let image = elf_image(true, true, 0xE001_0000, Some(&segments));
    assert_eq!(read_kernel_region(&image), Err(LayoutError::AmbiguousLoadSegment { found: 3 }));
}

#[test]
fn malformed_image() {
    assert_eq!(read_kernel_region(&[]), Err(LayoutError::ArtifactReadError));
    assert_eq!(read_kernel_region(b"not an executable image"), Err(LayoutError::ArtifactReadError));
    let image = elf_image(false, true, 0xE001_0000, Some(&[kernel_segment()]));
    assert_eq!(read_kernel_region(&image[..40]), Err(LayoutError::ArtifactReadError));
    assert_eq!(read_kernel_region(&image[..60]), Err(LayoutError::ArtifactReadError));
    let mut bad_magic = image.clone();
    bad_magic[0] = 0x7e;
    assert_eq!(read_kernel_region(&bad_magic), Err(LayoutError::ArtifactReadError));
    let mut bad_class = image.clone();
    bad_class[4] = 3;
    assert_eq!(read_kernel_region(&bad_class), Err(LayoutError::ArtifactReadError));
}

#[test]
fn segments_are_selected_by_type_and_size() {
    let load = SegmentHeader { p_type: 1, p_vaddr: 0x4000, p_paddr: 0x8000, p_memsz: 0x100 };
    let empty = SegmentHeader { p_type: 1, p_vaddr: 0x5000, p_paddr: 0x9000, p_memsz: 0 };
    let note = SegmentHeader { p_type: 4, p_vaddr: 0x6000, p_paddr: 0xA000, p_memsz: 0x100 };
    let region = MemoryRegion { virt_addr: Some(0x4000), phys_addr: 0x8000, len: 0x100 };
    let entry = KernelEntry { virt_entry: 0x4010 };
    assert_eq!(select_kernel_segment(0x4010, &[load]), Ok((region, entry)));
    assert_eq!(select_kernel_segment(0x4010, &[note, empty, load]), Ok((region, entry)));
    assert_eq!(select_kernel_segment(0x4010, &[load, note, empty]), Ok((region, entry)));
    assert_eq!(select_kernel_segment(0x4010, &[]), Err(LayoutError::NoLoadSegment));
    assert_eq!(select_kernel_segment(0x4010, &[note, empty]), Err(LayoutError::NoLoadSegment));
    assert_eq!(
        select_kernel_segment(0x4010, &[load, note, load]),
        Err(LayoutError::AmbiguousLoadSegment { found: 2 })
    );
}

#[test]
fn segment_that_wraps_is_still_transcribed() {
    let load = SegmentHeader { p_type: 1, p_vaddr: u64::MAX, p_paddr: u64::MAX, p_memsz: 2 };
    let (region, _) = select_kernel_segment(0, &[load]).unwrap();
    assert_eq!(region, MemoryRegion { virt_addr: Some(u64::MAX), phys_addr: u64::MAX, len: 2 });
    assert!(!region.is_well_formed());
}

fn device_tree_header(magic: u32, total_size: u32, len: usize) -> Vec<u8> {
    let mut blob = Vec::new();
    blob.extend_from_slice(&magic.to_be_bytes());
    blob.extend_from_slice(&total_size.to_be_bytes());
    for word in [0x38u32, 0x48, 0x28, 17, 16, 0, 0, 0x10] {
        blob.extend_from_slice(&word.to_be_bytes());
    }
    blob.resize(len, 0);
    blob
}

#[test]
fn device_tree_with_a_sound_header() {
    assert_eq!(check_device_tree(&device_tree_header(0xd00dfeed, 40, 40)), Ok(()));
    assert_eq!(check_device_tree(&device_tree_header(0xd00dfeed, 0x48, 0x48)), Ok(()));
    assert_eq!(check_device_tree(&device_tree_header(0xd00dfeed, 0x48, 0x100)), Ok(()));
    assert_eq!(check_device_tree(&device_tree_header(0xd00dfeed, 0, 40)), Ok(()));
}

#[test]
fn device_tree_with_a_bad_header() {
    let refused = Err(LayoutError::DeviceTreeParseError);
    assert_eq!(check_device_tree(&[]), refused);
    assert_eq!(check_device_tree(&device_tree_header(0xd00dfeed, 39, 39)), refused);
    assert_eq!(check_device_tree(&device_tree_header(0xd00dfeee, 40, 40)), refused);
    assert_eq!(check_device_tree(&device_tree_header(0xedfe0dd0, 40, 40)), refused);
    assert_eq!(check_device_tree(&device_tree_header(0xd00dfeed, 41, 40)), refused);
    assert_eq!(check_device_tree(&device_tree_header(0xd00dfeed, 0x0100_0000, 0x100)), refused);
    assert_eq!(check_device_tree(b"not a device tree, though forty bytes long"), refused);
}

#[test]
fn memory_regions_of_sized_entries() {
    let blob = device_tree_header(0xd00dfeed, 40, 40);
    let entries = [
        RegEntry { starting_address: 0x1000_0000, size: Some(0x1000_0000) },
        RegEntry { starting_address: 0x8000_0000, size: Some(0x4000_0000) },
        RegEntry { starting_address: 0x0, size: Some(0x10_0000) },
    ];
    assert_eq!(
        read_memory_regions(&blob, &entries),
        Ok(vec![
            MemoryRegion { virt_addr: None, phys_addr: 0x1000_0000, len: 0x1000_0000 },
            MemoryRegion { virt_addr: None, phys_addr: 0x8000_0000, len: 0x4000_0000 },
            MemoryRegion { virt_addr: None, phys_addr: 0x0, len: 0x10_0000 },
        ])
    );
}

#[test]
fn memory_regions_leave_out_entries_without_a_size() {
    let blob = device_tree_header(0xd00dfeed, 40, 40);
    let entries = [
        RegEntry { starting_address: 0x1000, size: None },
        RegEntry { starting_address: 0x2000, size: Some(0x800) },
        RegEntry { starting_address: 0x3000, size: None },
        RegEntry { starting_address: 0x4000, size: Some(0) },
    ];
    assert_eq!(
        read_memory_regions(&blob, &entries),
        Ok(vec![
            MemoryRegion { virt_addr: None, phys_addr: 0x2000, len: 0x800 },
            MemoryRegion { virt_addr: None, phys_addr: 0x4000, len: 0 },
        ])
    );
    assert_eq!(read_memory_regions(&blob, &[]), Ok(vec![]));
}

#[test]
fn memory_regions_of_a_blob_that_is_no_device_tree() {
    let entries = [RegEntry { starting_address: 0x2000, size: Some(0x800) }];
    assert_eq!(
        read_memory_regions(b"junk", &entries),
        Err(LayoutError::DeviceTreeParseError)
    );
    assert_eq!(
        read_memory_regions(&device_tree_header(0xd00dfeed, 64, 40), &entries),
        Err(LayoutError::DeviceTreeParseError)
    );
}

#[test]
fn device_tree_follows_the_kernel() {
    let kernel = MemoryRegion { virt_addr: Some(0xE000_0000), phys_addr: 0x1000_0000, len: 0x20_0000 };
    let blob = vec![0u8; 0x1000];
    assert_eq!(
        read_device_tree_range(&kernel, &blob),
        MemoryRegion { virt_addr: Some(0x1020_0000), phys_addr: 0x1020_0000, len: 0x1000 }
    );
}

#[test]
fn device_tree_is_as_long_as_the_blob() {
    let kernel = MemoryRegion { virt_addr: None, phys_addr: 0x7FFF, len: 1 };
    for len in [0usize, 1, 39, 40, 4097] {
        let region = read_device_tree_range(&kernel, &vec![0xAB; len]);
        assert_eq!(region.phys_addr, 0x8000);
        assert_eq!(region.virt_addr, Some(0x8000));
        assert_eq!(region.len, len as u64);
    }
}

#[test]
fn device_tree_behind_a_kernel_at_the_top() {
    let kernel = MemoryRegion { virt_addr: None, phys_addr: u64::MAX - 0x1000, len: 0x1000 };
    let region = read_device_tree_range(&kernel, &[1, 2, 3]);
    assert_eq!(region, MemoryRegion { virt_addr: Some(u64::MAX), phys_addr: u64::MAX, len: 3 });
}

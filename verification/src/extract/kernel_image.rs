//! The microkernel image: where its one loadable segment is placed, and where
//! it is entered.

use crate::error::LayoutError;
use crate::region::{KernelEntry, MemoryRegion};
use vstd::prelude::*;

verus! {

/// The error of the `elf` crate's parser. Nothing is read from it: any such
/// error means that the image is malformed.
#[verifier::external_type_specification]
#[verifier::external_body]
pub struct ExParseError(elf::ParseError);

/// The type of a segment that is loaded into memory.
pub const PT_LOAD: u32 = 1;

/// Of one entry of an image's program-header table, what decides whether the
/// segment is loaded, and where.
#[derive(Clone, Copy, Debug, PartialEq, Eq, Structural)]
pub struct SegmentHeader {
    pub p_type: u32,
    pub p_vaddr: u64,
    pub p_paddr: u64,
    pub p_memsz: u64,
}

/// Of an image's headers, what the layout is read from: the entry address,
/// and the program-header table where the image has one.
#[derive(Debug)]
pub struct ImageHeaders {
    pub entry: u64,
    pub segments: Option<Vec<SegmentHeader>>,
}

/// `ImageHeaders` as a mathematical value.
pub struct ImageHeadersView {
    pub entry: u64,
    pub segments: Option<Seq<SegmentHeader>>,
}

impl View for ImageHeaders {
    type V = ImageHeadersView;

    open spec fn view(&self) -> ImageHeadersView {
        ImageHeadersView {
            entry: self.entry,
            segments: match self.segments {
                Some(segments) => Some(segments@),
                None => None,
            },
        }
    }
}

/// What the `elf` crate reads from `image`: the headers, or `None` where it
/// rejects the image.
pub uninterp spec fn elf_headers(image: Seq<u8>) -> Option<ImageHeadersView>;

/// Parses `image` with `elf::ElfBytes::<AnyEndian>::minimal_parse`, then takes
/// `ehdr.e_entry` and, where `segments()` gives a table, the type, addresses
/// and memory size of each entry that its iterator yields, in table order.
/// The contract says only that the result is what that crate reads from these
/// bytes, and that an error comes exactly where it rejects them.
#[verifier::external_body]
fn parse_image_headers(image: &[u8]) -> (headers: Result<ImageHeaders, elf::ParseError>)
    ensures
        match headers {
            Ok(headers) => elf_headers(image@) == Some(headers@),
            Err(_) => elf_headers(image@) is None,
        },
{
    let parsed = elf::ElfBytes::<elf::endian::AnyEndian>::minimal_parse(image)?;
    let pick = |header: elf::segment::ProgramHeader| SegmentHeader {
        p_type: header.p_type,
        p_vaddr: header.p_vaddr,
        p_paddr: header.p_paddr,
        p_memsz: header.p_memsz,
    };
    let segments = parsed.segments().map(|table| table.iter().map(pick).collect());
    Ok(ImageHeaders { entry: parsed.ehdr.e_entry, segments })
}

/// Whether a segment takes part in the layout: it is loaded, and it occupies
/// memory.
pub open spec fn is_loadable(segment: SegmentHeader) -> bool {
    segment.p_memsz != 0 && segment.p_type == PT_LOAD
}

/// The loadable segments among `segments`, in table order.
pub open spec fn loadable_segments(segments: Seq<SegmentHeader>) -> Seq<SegmentHeader>
    decreases segments.len(),
{
    if segments.len() == 0 {
        Seq::empty()
    } else if is_loadable(segments.last()) {
        loadable_segments(segments.drop_last()).push(segments.last())
    } else {
        loadable_segments(segments.drop_last())
    }
}

/// The region that a segment occupies.
pub open spec fn segment_region(segment: SegmentHeader) -> MemoryRegion {
    MemoryRegion {
        virt_addr: Some(segment.p_vaddr),
        phys_addr: segment.p_paddr,
        len: segment.p_memsz,
    }
}

/// The layout of a microkernel entered at `entry` whose program-header table
/// is `segments`: the region of its loadable segment, where it has exactly
/// one.
pub open spec fn kernel_layout(entry: u64, segments: Seq<SegmentHeader>) -> Result<
    (MemoryRegion, KernelEntry),
    LayoutError,
> {
    let loadable = loadable_segments(segments);
    if loadable.len() == 0 {
        Err(LayoutError::NoLoadSegment)
    } else if loadable.len() > 1 {
        Err(LayoutError::AmbiguousLoadSegment { found: loadable.len() as usize })
    } else {
        Ok((segment_region(loadable[0]), KernelEntry { virt_entry: entry }))
    }
}

/// The layout that an image's headers give. An image that was rejected is a
/// malformed artifact; one without a program-header table has no loadable
/// segment.
pub open spec fn image_layout(headers: Option<ImageHeadersView>) -> Result<
    (MemoryRegion, KernelEntry),
    LayoutError,
> {
    match headers {
        None => Err(LayoutError::ArtifactReadError),
        Some(headers) => match headers.segments {
            None => Err(LayoutError::NoLoadSegment),
            Some(segments) => kernel_layout(headers.entry, segments),
        },
    }
}

/// A table in which no segment is loadable gives no layout.
pub proof fn lemma_no_loadable_segment(entry: u64, segments: Seq<SegmentHeader>)
    requires
        forall|i: int| 0 <= i < segments.len() ==> !is_loadable(#[trigger] segments[i]),
    ensures
        loadable_segments(segments).len() == 0,
        kernel_layout(entry, segments) == Err::<(MemoryRegion, KernelEntry), LayoutError>(
            LayoutError::NoLoadSegment,
        ),
    decreases segments.len(),
{
    if segments.len() > 0 {
        let init = segments.drop_last();
        assert forall|i: int| 0 <= i < init.len() implies !is_loadable(#[trigger] init[i]) by {
            assert(init[i] == segments[i]);
        }
        lemma_no_loadable_segment(entry, init);
    }
}

/// A table with exactly one loadable segment gives that segment's addresses
/// and memory size as the region, and the image's entry address as the entry.
pub proof fn lemma_single_loadable_segment(entry: u64, segments: Seq<SegmentHeader>, index: int)
    requires
        0 <= index < segments.len(),
        is_loadable(segments[index]),
        forall|i: int|
            0 <= i < segments.len() && i != index ==> !is_loadable(#[trigger] segments[i]),
    ensures
        loadable_segments(segments) == seq![segments[index]],
        kernel_layout(entry, segments) == Ok::<(MemoryRegion, KernelEntry), LayoutError>(
            (
                MemoryRegion {
                    virt_addr: Some(segments[index].p_vaddr),
                    phys_addr: segments[index].p_paddr,
                    len: segments[index].p_memsz,
                },
                KernelEntry { virt_entry: entry },
            ),
        ),
    decreases segments.len(),
{
    let init = segments.drop_last();
    assert forall|i: int| 0 <= i < init.len() && i != index implies !is_loadable(
        #[trigger] init[i],
    ) by {
        assert(init[i] == segments[i]);
    }
    if index == segments.len() - 1 {
        lemma_no_loadable_segment(entry, init);
        assert(loadable_segments(segments) =~= seq![segments[index]]);
    } else {
        assert(init[index] == segments[index]);
        lemma_single_loadable_segment(entry, init, index);
    }
}

proof fn lemma_loadable_counted(segments: Seq<SegmentHeader>, index: int)
    requires
        0 <= index < segments.len(),
        is_loadable(segments[index]),
    ensures
        loadable_segments(segments).len() >= 1,
    decreases segments.len(),
{
    let init = segments.drop_last();
    if index < segments.len() - 1 {
        assert(init[index] == segments[index]);
        lemma_loadable_counted(init, index);
    }
}

proof fn lemma_loadable_bounded(segments: Seq<SegmentHeader>)
    ensures
        loadable_segments(segments).len() <= segments.len(),
    decreases segments.len(),
{
    if segments.len() > 0 {
        lemma_loadable_bounded(segments.drop_last());
    }
}

/// A table with two or more loadable segments gives no layout: the image is
/// refused as ambiguous, with the number of such segments.
pub proof fn lemma_several_loadable_segments(
    entry: u64,
    segments: Seq<SegmentHeader>,
    one: int,
    other: int,
)
    requires
        0 <= one < other < segments.len(),
        is_loadable(segments[one]),
        is_loadable(segments[other]),
    ensures
        2 <= loadable_segments(segments).len() <= segments.len(),
        kernel_layout(entry, segments) == Err::<(MemoryRegion, KernelEntry), LayoutError>(
            LayoutError::AmbiguousLoadSegment {
                found: loadable_segments(segments).len() as usize,
            },
        ),
    decreases segments.len(),
{
    let init = segments.drop_last();
    lemma_loadable_bounded(segments);
    assert(init[one] == segments[one]);
    if other == segments.len() - 1 {
        lemma_loadable_counted(init, one);
    } else {
        assert(init[other] == segments[other]);
        lemma_several_loadable_segments(entry, init, one, other);
    }
}

/// Finds the one loadable segment of non-zero size in `segments` and gives its
/// region, with both addresses, and the entry address. An image with several
/// such segments is refused, not merged.
pub fn select_kernel_segment(entry: u64, segments: &[SegmentHeader]) -> (layout: Result<
    (MemoryRegion, KernelEntry),
    LayoutError,
>)
    ensures
        layout == kernel_layout(entry, segments@),
        layout matches Ok((region, _)) ==> region.len > 0,
{
    let mut found: usize = 0;
    let mut first = SegmentHeader { p_type: 0, p_vaddr: 0, p_paddr: 0, p_memsz: 0 };
    let mut index: usize = 0;
    while index < segments.len()
        invariant
            index <= segments.len(),
            found == loadable_segments(segments@.take(index as int)).len(),
            found <= index,
            found > 0 ==> first == loadable_segments(segments@.take(index as int))[0],
            found > 0 ==> is_loadable(first),
        decreases segments.len() - index,
    {
        let segment = segments[index];
        assert(segments@.take(index + 1).drop_last() =~= segments@.take(index as int));
        assert(segments@.take(index + 1).last() == segment);
        if segment.p_memsz != 0 && segment.p_type == PT_LOAD {
            if found == 0 {
                first = segment;
            }
            found += 1;
        }
        index += 1;
    }
    assert(segments@.take(index as int) =~= segments@);
    if found == 0 {
        Err(LayoutError::NoLoadSegment)
    } else if found > 1 {
        Err(LayoutError::AmbiguousLoadSegment { found })
    } else {
        Ok(
            (
                MemoryRegion {
                    virt_addr: Some(first.p_vaddr),
                    phys_addr: first.p_paddr,
                    len: first.p_memsz,
                },
                KernelEntry { virt_entry: entry },
            ),
        )
    }
}

/// Reads the microkernel's region and entry address from its executable
/// image.
pub fn read_kernel_region(image: &[u8]) -> (layout: Result<(MemoryRegion, KernelEntry), LayoutError>)
    ensures
        layout == image_layout(elf_headers(image@)),
        layout matches Ok((region, _)) ==> region.len > 0,
{
    match parse_image_headers(image) {
        Err(_) => Err(LayoutError::ArtifactReadError),
        Ok(headers) => match headers.segments {
            None => Err(LayoutError::NoLoadSegment),
            Some(segments) => select_kernel_segment(headers.entry, segments.as_slice()),
        },
    }
}

} // verus!

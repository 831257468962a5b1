//! The kernel constants: the three facts that the run-time stage is compiled
//! with, written as Rust source and read back.

use crate::error::LayoutError;
use crate::region::{InclusiveRange, KernelEntry, MemoryRegion};
use crate::text::{
    append_decimal, decimal_digits, is_decimal_digit, lemma_number_at_written, literal_at,
    number_at, parse_decimal_at, stands_at,
};
use vstd::prelude::*;
use vstd::string::*;

verus! {

/// Up to the entry address.
pub const CONSTANTS_ENTRY: &'static str =
    "use core :: ops :: RangeInclusive ; pub (crate) const KERNEL_VIRT_ENTRY : usize = ";

/// From there up to the first virtual address.
pub const CONSTANTS_RANGE_FIRST: &'static str =
    "u64 as usize ; pub (crate) const KERNEL_VIRT_RANGE : RangeInclusive < usize > = (";

/// From there up to the last virtual address.
pub const CONSTANTS_RANGE_LAST: &'static str = "u64 as usize) ..= (";

/// From there up to the physical base address.
pub const CONSTANTS_PHYS: &'static str =
    "u64 as usize) ; pub (crate) const KERNEL_PHYS_ADDR : usize = ";

/// The end.
pub const CONSTANTS_END: &'static str = "u64 as usize ;";

/// What the run-time stage knows of the microkernel: where it is entered, the
/// virtual addresses it occupies, and the physical address it is loaded at.
#[derive(Clone, Copy, Debug, PartialEq, Eq, Structural)]
pub struct KernelConstants {
    pub virt_entry: u64,
    pub virt_range: InclusiveRange,
    pub phys_addr: u64,
}

/// The constants for a microkernel entered at `entry` and placed at `region`,
/// whose virtual address is known.
pub open spec fn kernel_constants(entry: KernelEntry, region: MemoryRegion) -> KernelConstants
    recommends
        region.wf(),
        region.virt_addr is Some,
{
    KernelConstants {
        virt_entry: entry.virt_entry,
        virt_range: InclusiveRange {
            first: region.virt_addr->0,
            last: (region.virt_addr->0 + region.len - 1) as u64,
        },
        phys_addr: region.phys_addr,
    }
}

/// The source text that declares `constants`: the entry address, the closed
/// range of virtual addresses and the physical base address, each number in
/// decimal with its type.
pub open spec fn constants_text(constants: KernelConstants) -> Seq<char> {
    CONSTANTS_ENTRY@ + decimal_digits(constants.virt_entry as nat) + CONSTANTS_RANGE_FIRST@
        + decimal_digits(constants.virt_range.first as nat) + CONSTANTS_RANGE_LAST@
        + decimal_digits(constants.virt_range.last as nat) + CONSTANTS_PHYS@ + decimal_digits(
        constants.phys_addr as nat,
    ) + CONSTANTS_END@
}

/// The constants that `text` declares, where it is a constants text: the fixed
/// parts in their places, a decimal number that fits 64 bits between each two,
/// and nothing behind the last.
pub open spec fn parsed_constants(text: Seq<char>) -> Option<KernelConstants> {
    if !stands_at(text, 0, CONSTANTS_ENTRY@) {
        None
    } else if let Some((virt_entry, entry_end)) = number_at(text, CONSTANTS_ENTRY@.len() as int) {
        if !stands_at(text, entry_end, CONSTANTS_RANGE_FIRST@) {
            None
        } else if let Some((first, first_end)) = number_at(
            text,
            entry_end + CONSTANTS_RANGE_FIRST@.len(),
        ) {
            if !stands_at(text, first_end, CONSTANTS_RANGE_LAST@) {
                None
            } else if let Some((last, last_end)) = number_at(
                text,
                first_end + CONSTANTS_RANGE_LAST@.len(),
            ) {
                if !stands_at(text, last_end, CONSTANTS_PHYS@) {
                    None
                } else if let Some((phys_addr, phys_end)) = number_at(
                    text,
                    last_end + CONSTANTS_PHYS@.len(),
                ) {
                    if stands_at(text, phys_end, CONSTANTS_END@) && phys_end
                        + CONSTANTS_END@.len() == text.len() {
                        Some(
                            KernelConstants {
                                virt_entry,
                                virt_range: InclusiveRange { first, last },
                                phys_addr,
                            },
                        )
                    } else {
                        None
                    }
                } else {
                    None
                }
            } else {
                None
            }
        } else {
            None
        }
    } else {
        None
    }
}

/// Writes the constants for the microkernel. Its region must carry a virtual
/// address: without one there is nothing to emit, and the build stops.
pub fn generate_kernel_constants(entry: &KernelEntry, kernel_region: &MemoryRegion) -> (text:
    Result<String, LayoutError>)
    requires
        kernel_region.wf(),
    ensures
        kernel_region.virt_addr is None ==> text == Err::<String, LayoutError>(
            LayoutError::MissingVirtualAddress,
        ),
        kernel_region.virt_addr is Some ==> text is Ok && text->Ok_0@ == constants_text(
            kernel_constants(*entry, *kernel_region),
        ),
{
    let range = match kernel_region.virt_range_inclusive() {
        Some(range) => range,
        None => { return Err(LayoutError::MissingVirtualAddress); },
    };
    let mut out = String::from_str(CONSTANTS_ENTRY);
    append_decimal(&mut out, entry.virt_entry);
    out.append(CONSTANTS_RANGE_FIRST);
    append_decimal(&mut out, range.first);
    out.append(CONSTANTS_RANGE_LAST);
    append_decimal(&mut out, range.last);
    out.append(CONSTANTS_PHYS);
    append_decimal(&mut out, kernel_region.phys_addr);
    out.append(CONSTANTS_END);
    Ok(out)
}

/// Reads a constants text back.
pub fn parse_kernel_constants(text: &str) -> (constants: Option<KernelConstants>)
    ensures
        constants == parsed_constants(text@),
{
    let len = text.unicode_len();
    if !literal_at(text, 0, CONSTANTS_ENTRY) {
        return None;
    }
    let (virt_entry, entry_end) = match parse_decimal_at(text, CONSTANTS_ENTRY.unicode_len()) {
        Some(number) => number,
        None => { return None; },
    };
    if !literal_at(text, entry_end, CONSTANTS_RANGE_FIRST) {
        return None;
    }
    let (first, first_end) = match parse_decimal_at(
        text,
        entry_end + CONSTANTS_RANGE_FIRST.unicode_len(),
    ) {
        Some(number) => number,
        None => { return None; },
    };
    if !literal_at(text, first_end, CONSTANTS_RANGE_LAST) {
        return None;
    }
    let (last, last_end) = match parse_decimal_at(
        text,
        first_end + CONSTANTS_RANGE_LAST.unicode_len(),
    ) {
        Some(number) => number,
        None => { return None; },
    };
    if !literal_at(text, last_end, CONSTANTS_PHYS) {
        return None;
    }
    let (phys_addr, phys_end) = match parse_decimal_at(text, last_end + CONSTANTS_PHYS.unicode_len()) {
        Some(number) => number,
        None => { return None; },
    };
    if !literal_at(text, phys_end, CONSTANTS_END) {
        return None;
    }
    if phys_end + CONSTANTS_END.unicode_len() != len {
        return None;
    }
    Some(KernelConstants { virt_entry, virt_range: InclusiveRange { first, last }, phys_addr })
}

/// No fixed part that follows a number begins with a digit.
proof fn lemma_fixed_parts()
    ensures
        CONSTANTS_RANGE_FIRST@.len() > 0 && !is_decimal_digit(CONSTANTS_RANGE_FIRST@[0]),
        CONSTANTS_RANGE_LAST@.len() > 0 && !is_decimal_digit(CONSTANTS_RANGE_LAST@[0]),
        CONSTANTS_PHYS@.len() > 0 && !is_decimal_digit(CONSTANTS_PHYS@[0]),
        CONSTANTS_END@.len() > 0 && !is_decimal_digit(CONSTANTS_END@[0]),
{
    reveal_strlit(
        "u64 as usize ; pub (crate) const KERNEL_VIRT_RANGE : RangeInclusive < usize > = (",
    );
    reveal_strlit("u64 as usize) ..= (");
    reveal_strlit("u64 as usize) ; pub (crate) const KERNEL_PHYS_ADDR : usize = ");
    reveal_strlit("u64 as usize ;");
}

/// Reading back the text written for any constants gives those constants.
pub proof fn lemma_constants_read_back(constants: KernelConstants)
    ensures
        parsed_constants(constants_text(constants)) == Some(constants),
{
    let text = constants_text(constants);
    let entry = decimal_digits(constants.virt_entry as nat);
    let first = decimal_digits(constants.virt_range.first as nat);
    let last = decimal_digits(constants.virt_range.last as nat);
    let phys = decimal_digits(constants.phys_addr as nat);
    let entry_at = CONSTANTS_ENTRY@.len() as int;
    let entry_end = entry_at + entry.len();
    let first_at = entry_end + CONSTANTS_RANGE_FIRST@.len();
    let first_end = first_at + first.len();
    let last_at = first_end + CONSTANTS_RANGE_LAST@.len();
    let last_end = last_at + last.len();
    let phys_at = last_end + CONSTANTS_PHYS@.len();
    let phys_end = phys_at + phys.len();
    lemma_fixed_parts();
    assert(text.len() == phys_end + CONSTANTS_END@.len());
    assert(text.subrange(0, entry_at) =~= CONSTANTS_ENTRY@);
    assert(text.subrange(entry_at, entry_end) =~= entry);
    assert(text.subrange(entry_end, first_at) =~= CONSTANTS_RANGE_FIRST@);
    assert(text.subrange(first_at, first_end) =~= first);
    assert(text.subrange(first_end, last_at) =~= CONSTANTS_RANGE_LAST@);
    assert(text.subrange(last_at, last_end) =~= last);
    assert(text.subrange(last_end, phys_at) =~= CONSTANTS_PHYS@);
    assert(text.subrange(phys_at, phys_end) =~= phys);
    assert(text.subrange(phys_end, text.len() as int) =~= CONSTANTS_END@);
    assert(text[entry_end] == CONSTANTS_RANGE_FIRST@[0]);
    assert(text[first_end] == CONSTANTS_RANGE_LAST@[0]);
    assert(text[last_end] == CONSTANTS_PHYS@[0]);
    assert(text[phys_end] == CONSTANTS_END@[0]);
    lemma_number_at_written(text, entry_at, constants.virt_entry);
    lemma_number_at_written(text, first_at, constants.virt_range.first);
    lemma_number_at_written(text, last_at, constants.virt_range.last);
    lemma_number_at_written(text, phys_at, constants.phys_addr);
}

/// The constants written for a microkernel, read back, give its entry address,
/// the closed range of its virtual addresses and its physical base address.
pub proof fn lemma_kernel_constants_round_trip(entry: KernelEntry, region: MemoryRegion)
    requires
        region.wf(),
        region.virt_addr is Some,
    ensures
        parsed_constants(constants_text(kernel_constants(entry, region))) == Some(
            kernel_constants(entry, region),
        ),
        kernel_constants(entry, region).virt_entry == entry.virt_entry,
        kernel_constants(entry, region).virt_range.first == region.virt_addr->0,
        kernel_constants(entry, region).virt_range.last == region.virt_addr->0 + region.len - 1,
        kernel_constants(entry, region).phys_addr == region.phys_addr,
{
    lemma_constants_read_back(kernel_constants(entry, region));
}

} // verus!

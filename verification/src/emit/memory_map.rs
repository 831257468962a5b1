//! The memory-bank declarations: one named bank for each region of RAM.

use crate::region::MemoryRegion;
use crate::text::{append_decimal, append_hex_literal, decimal_digits, hex_literal};
use vstd::prelude::*;
use vstd::string::*;

verus! {

/// What opens the declarations.
pub const MEMORY_OPEN: &'static str = "MEMORY {\n    ";

/// What closes them.
pub const MEMORY_CLOSE: &'static str = "\n}";

/// The first part of every bank's name.
pub const BANK_STEM: &'static str = "RAM";

/// What stands between a bank's name and its origin.
pub const BANK_ORIGIN: &'static str = " (rwx) : ORIGIN = ";

/// What stands between a bank's origin and its length.
pub const BANK_LENGTH: &'static str = ", LENGTH = ";

/// The name of the bank at `index`: the first is `RAM`, those after it carry
/// their index.
pub open spec fn bank_name(index: nat) -> Seq<char> {
    if index == 0 {
        BANK_STEM@
    } else {
        BANK_STEM@ + decimal_digits(index)
    }
}

/// The declaration of the bank at `index`: readable, writable and executable,
/// from the region's physical address, over its length.
pub open spec fn bank_declaration(index: nat, region: MemoryRegion) -> Seq<char> {
    bank_name(index) + BANK_ORIGIN@ + hex_literal(region.phys_addr as nat) + BANK_LENGTH@
        + hex_literal(region.len as nat)
}

/// The declarations of all banks, in the order of `regions`, one per line.
pub open spec fn bank_declarations(regions: Seq<MemoryRegion>) -> Seq<char>
    decreases regions.len(),
{
    if regions.len() == 0 {
        Seq::empty()
    } else if regions.len() == 1 {
        bank_declaration(0, regions[0])
    } else {
        bank_declarations(regions.drop_last()) + seq!['\n'] + bank_declaration(
            (regions.len() - 1) as nat,
            regions.last(),
        )
    }
}

/// The whole memory-bank text for `regions`.
pub open spec fn memory_map_text(regions: Seq<MemoryRegion>) -> Seq<char> {
    MEMORY_OPEN@ + bank_declarations(regions) + MEMORY_CLOSE@
}

/// Where the declaration of bank `index` begins among the declarations.
pub open spec fn declaration_offset(regions: Seq<MemoryRegion>, index: nat) -> int
    decreases index,
{
    if index == 0 {
        0
    } else {
        let before = (index - 1) as nat;
        declaration_offset(regions, before) + bank_declaration(before, regions[before as int]).len()
            + 1
    }
}

proof fn lemma_declaration_offset_prefix(regions: Seq<MemoryRegion>, count: nat, index: nat)
    requires
        index < count <= regions.len(),
    ensures
        declaration_offset(regions.take(count as int), index) == declaration_offset(regions, index),
    decreases index,
{
    if index > 0 {
        lemma_declaration_offset_prefix(regions, count, (index - 1) as nat);
    }
}

proof fn lemma_declarations_len(regions: Seq<MemoryRegion>)
    requires
        regions.len() > 0,
    ensures
        bank_declarations(regions).len() == declaration_offset(
            regions,
            (regions.len() - 1) as nat,
        ) + bank_declaration((regions.len() - 1) as nat, regions.last()).len(),
        declaration_offset(regions, (regions.len() - 1) as nat) >= 0,
    decreases regions.len(),
{
    if regions.len() > 1 {
        let init = regions.drop_last();
        let last = (regions.len() - 1) as nat;
        lemma_declarations_len(init);
        assert(init =~= regions.take(last as int));
        lemma_declaration_offset_prefix(regions, last, (last - 1) as nat);
    }
}

proof fn lemma_declaration_found(regions: Seq<MemoryRegion>, index: nat)
    requires
        index < regions.len(),
    ensures
        ({
            let all = bank_declarations(regions);
            let one = bank_declaration(index, regions[index as int]);
            let at = declaration_offset(regions, index);
            let end = at + one.len();
            &&& 0 <= at
            &&& end <= all.len()
            &&& all.subrange(at, end) == one
            &&& index + 1 < regions.len() ==> end < all.len() && all[end] == '\n'
            &&& index + 1 == regions.len() ==> end == all.len()
        }),
    decreases regions.len(),
{
    let all = bank_declarations(regions);
    let one = bank_declaration(index, regions[index as int]);
    let at = declaration_offset(regions, index);
    let end = at + one.len();
    lemma_declarations_len(regions);
    if regions.len() == 1 {
        assert(all.subrange(0, one.len() as int) =~= one);
    } else {
        let init = regions.drop_last();
        let last = (regions.len() - 1) as nat;
        let head = bank_declarations(init);
        assert(init =~= regions.take(last as int));
        lemma_declarations_len(init);
        lemma_declaration_offset_prefix(regions, last, (last - 1) as nat);
        if index == last {
            assert(all.subrange(at, end) =~= one);
        } else {
            lemma_declaration_found(init, index);
            lemma_declaration_offset_prefix(regions, last, index);
            assert(head.subrange(at, end) =~= all.subrange(at, end));
            if index + 1 < last {
                assert(all[end] == head[end]);
            }
        }
    }
}

/// The text holds one declaration for each region, in the order of the
/// regions: that of bank `index` stands in full at its offset behind the
/// opening, named `RAM` for the first bank and `RAM` with its index for every
/// other; one line break parts it from the next declaration, and behind the
/// last declaration the text closes.
pub proof fn lemma_memory_map_lists_regions_in_order(regions: Seq<MemoryRegion>, index: nat)
    requires
        index < regions.len(),
    ensures
        ({
            let text = memory_map_text(regions);
            let one = bank_declaration(index, regions[index as int]);
            let at = MEMORY_OPEN@.len() + declaration_offset(regions, index);
            let end = at + one.len();
            &&& text.subrange(0, MEMORY_OPEN@.len() as int) == MEMORY_OPEN@
            &&& MEMORY_OPEN@.len() <= at
            &&& end + MEMORY_CLOSE@.len() <= text.len()
            &&& text.subrange(at, end) == one
            &&& one.subrange(0, bank_name(index).len() as int) == bank_name(index)
            &&& index + 1 < regions.len() ==> text[end] == '\n' && MEMORY_OPEN@.len()
                + declaration_offset(regions, index + 1) == end + 1
            &&& index + 1 == regions.len() ==> text.subrange(end, text.len() as int)
                == MEMORY_CLOSE@
        }),
{
    let text = memory_map_text(regions);
    let all = bank_declarations(regions);
    let one = bank_declaration(index, regions[index as int]);
    let inner = declaration_offset(regions, index);
    let at = MEMORY_OPEN@.len() + inner;
    let end = at + one.len();
    lemma_declaration_found(regions, index);
    assert(text.subrange(0, MEMORY_OPEN@.len() as int) =~= MEMORY_OPEN@);
    assert(text.subrange(at, end) =~= all.subrange(inner, inner + one.len()));
    assert(one.subrange(0, bank_name(index).len() as int) =~= bank_name(index));
    if index + 1 < regions.len() {
        assert(text[end] == all[inner + one.len()]);
    } else {
        assert(text.subrange(end, text.len() as int) =~= MEMORY_CLOSE@);
    }
}

fn append_bank_declaration(out: &mut String, index: usize, region: &MemoryRegion)
    ensures
        final(out)@ == old(out)@ + bank_declaration(index as nat, *region),
{
    out.append(BANK_STEM);
    if index != 0 {
        append_decimal(out, index as u64);
    }
    out.append(BANK_ORIGIN);
    append_hex_literal(out, region.phys_addr);
    out.append(BANK_LENGTH);
    append_hex_literal(out, region.len);
    assert(out@ =~= old(out)@ + bank_declaration(index as nat, *region));
}

/// Writes the memory-bank declarations for `regions`: one bank per region, in
/// the order given. Nothing is merged, sorted or checked for overlap.
pub fn generate_memory_map(regions: &[MemoryRegion]) -> (text: String)
    ensures
        text@ == memory_map_text(regions@),
{
    let mut out = String::from_str(MEMORY_OPEN);
    let mut index: usize = 0;
    while index < regions.len()
        invariant
            index <= regions.len(),
            out@ == MEMORY_OPEN@ + bank_declarations(regions@.take(index as int)),
        decreases regions.len() - index,
    {
        if index != 0 {
            proof {
                reveal_strlit("\n");
            }
            out.append("\n");
        }
        append_bank_declaration(&mut out, index, &regions[index]);
        proof {
            let done = regions@.take(index + 1);
            assert(done.drop_last() =~= regions@.take(index as int));
            assert(done.last() == regions@[index as int]);
            assert(out@ =~= MEMORY_OPEN@ + bank_declarations(done));
        }
        index += 1;
    }
    assert(regions@.take(index as int) =~= regions@);
    out.append(MEMORY_CLOSE);
    out
}

/// Whether the banks lie side by side: each is well formed, and each ends
/// before the next one starts, or where it does.
pub open spec fn banks_in_order(regions: Seq<MemoryRegion>) -> bool {
    &&& forall|i: int| 0 <= i < regions.len() ==> (#[trigger] regions[i]).wf()
    &&& forall|i: int, j: int|
        0 <= i < j < regions.len() ==> (#[trigger] regions[i]).phys_end()
            <= (#[trigger] regions[j]).phys_addr
}

/// Checks what the declarations take on trust: that the banks are well formed,
/// sorted by address and free of overlap.
pub fn validate_banks(regions: &[MemoryRegion]) -> (ok: bool)
    ensures
        ok == banks_in_order(regions@),
{
    let mut index: usize = 0;
    while index < regions.len()
        invariant
            index <= regions.len(),
            banks_in_order(regions@.take(index as int)),
        decreases regions.len() - index,
    {
        let region = &regions[index];
        if !region.is_well_formed() {
            return false;
        }
        if index > 0 {
            let before = &regions[index - 1];
            assert(regions@.take(index as int)[index - 1].wf());
            if before.phys_addr + before.len > region.phys_addr {
                return false;
            }
        }
        proof {
            let seen = regions@.take(index as int);
            let next = regions@.take(index + 1);
            assert forall|i: int, j: int| 0 <= i < j < next.len() implies (#[trigger] next[i]).phys_end()
                <= (#[trigger] next[j]).phys_addr by {
                if j < index {
                    assert(seen[i].phys_end() <= seen[j].phys_addr);
                } else if i < index - 1 {
                    assert(seen[i].phys_end() <= seen[index - 1].phys_addr);
                    assert(seen[index - 1].wf());
                }
            }
            assert forall|i: int| 0 <= i < next.len() implies (#[trigger] next[i]).wf() by {
                if i < index {
                    assert(seen[i].wf());
                }
            }
        }
        index += 1;
    }
    assert(regions@.take(index as int) =~= regions@);
    true
}

} // verus!

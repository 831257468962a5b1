//! The boot adapter: what must be mapped before control leaves this stage, and
//! how the microkernel is entered.
//!
//! Nothing here touches the hardware. The adapter describes the mappings and
//! fixes the arguments of the call; programming the page tables and making the
//! jump belong to the platform's startup code.

use core::marker::PhantomData;
use vstd::prelude::*;

verus! {

/// The last address of the address space.
pub const ADDRESS_SPACE_TOP: usize = 0xFFFF_FFFF;

/// The first program that the microkernel starts.
pub trait Rootserver {
    /// The rootserver's entry function. It is entered once, on a fresh stack,
    /// and must never return.
    fn rootserver();
}

/// Binds one rootserver to what the platform's startup sequence asks for: a
/// memory map and an entry point. It holds no state.
pub struct System<R: Rootserver>(PhantomData<R>);

/// Which of the two startup sequences is built.
#[derive(Clone, Copy, Debug, PartialEq, Eq, Structural)]
pub enum BootVariant {
    /// A bootloader has started the microkernel, which starts the rootserver.
    KernelRunning,
    /// This stage starts the microkernel itself.
    KernelHandoff,
}

/// How a range of memory is mapped.
#[derive(Clone, Copy, Debug, PartialEq, Eq, Structural)]
pub struct MemoryAttributes {
    pub normal: bool,
    pub read_write: bool,
    pub execute: bool,
}

impl MemoryAttributes {
    /// Normal memory, read-only and not executable.
    pub fn normal() -> (attributes: MemoryAttributes)
        ensures
            attributes == (MemoryAttributes { normal: true, read_write: false, execute: false }),
    {
        MemoryAttributes { normal: true, read_write: false, execute: false }
    }

    /// The same, and writable.
    pub fn read_writeable(self) -> (attributes: MemoryAttributes)
        ensures
            attributes == (MemoryAttributes { read_write: true, ..self }),
    {
        MemoryAttributes { normal: self.normal, read_write: true, execute: self.execute }
    }

    /// The same, and executable.
    pub fn executable(self) -> (attributes: MemoryAttributes)
        ensures
            attributes == (MemoryAttributes { execute: true, ..self }),
    {
        MemoryAttributes { normal: self.normal, read_write: self.read_write, execute: true }
    }
}

/// One entry of a memory map: the closed range of virtual addresses from
/// `virt_first` to `virt_last`, mapped from `phys_addr` on, with `attributes`.
#[derive(Clone, Copy, Debug, PartialEq, Eq, Structural)]
pub struct Mapping {
    pub virt_first: usize,
    pub virt_last: usize,
    pub phys_addr: usize,
    pub attributes: MemoryAttributes,
}

/// The addresses that the link gives to the overlay's symbols.
#[derive(Clone, Copy, Debug, PartialEq, Eq, Structural)]
pub struct LinkSymbols {
    pub rootserver_start: usize,
    pub rootserver_end: usize,
    pub devicetree_start: usize,
    pub devicetree_end: usize,
}

/// The six words that the microkernel is entered with.
#[derive(Clone, Copy, Debug, PartialEq, Eq, Structural)]
pub struct HandoffArguments {
    pub rootserver_start: usize,
    pub rootserver_end: usize,
    pub reserved: usize,
    pub trampoline: usize,
    pub devicetree_start: usize,
    pub devicetree_len: usize,
}

/// What the entry point does.
#[derive(Clone, Copy, Debug, PartialEq, Eq, Structural)]
pub enum EntryAction {
    /// Call the rootserver's entry function.
    CallRootserver,
    /// Call the microkernel at `kernel_entry` with `arguments`.
    EnterKernel { kernel_entry: usize, arguments: HandoffArguments },
}

/// Executable, writable normal memory: how every range of the boot map is
/// mapped.
pub open spec fn boot_attributes() -> MemoryAttributes {
    MemoryAttributes { normal: true, read_write: true, execute: true }
}

/// The mapping of everything below the microkernel: the range that holds the
/// rootserver's own image, mapped flat.
pub open spec fn rootserver_mapping(kernel_virt_start: usize) -> Mapping {
    Mapping {
        virt_first: 0,
        virt_last: (kernel_virt_start - 1) as usize,
        phys_addr: 0,
        attributes: boot_attributes(),
    }
}

/// The mapping of the upper address space: from the microkernel's first
/// virtual address to the top, mapped from where the microkernel is loaded.
pub open spec fn kernel_mapping(kernel_virt_start: usize, kernel_phys_addr: usize) -> Mapping {
    Mapping {
        virt_first: kernel_virt_start,
        virt_last: ADDRESS_SPACE_TOP,
        phys_addr: kernel_phys_addr,
        attributes: boot_attributes(),
    }
}

/// The memory map of a variant: the rootserver's range always, and the upper
/// address space behind it where this stage enters the microkernel.
pub open spec fn memory_map_of(
    variant: BootVariant,
    kernel_virt_start: usize,
    kernel_phys_addr: usize,
) -> Seq<Mapping> {
    match variant {
        BootVariant::KernelRunning => seq![rootserver_mapping(kernel_virt_start)],
        BootVariant::KernelHandoff => seq![
            rootserver_mapping(kernel_virt_start),
            kernel_mapping(kernel_virt_start, kernel_phys_addr),
        ],
    }
}

/// The arguments of the handoff, in the order in which the microkernel takes
/// them: the rootserver's image from start to end, a zero, the trampoline, and
/// the device-tree blob as start and length.
pub open spec fn handoff_words(
    rootserver_start: usize,
    rootserver_end: usize,
    trampoline: usize,
    devicetree_start: usize,
    devicetree_len: usize,
) -> Seq<usize> {
    seq![rootserver_start, rootserver_end, 0, trampoline, devicetree_start, devicetree_len]
}

impl HandoffArguments {
    /// The arguments as a sequence, first argument first.
    pub open spec fn view(&self) -> Seq<usize> {
        seq![
            self.rootserver_start,
            self.rootserver_end,
            self.reserved,
            self.trampoline,
            self.devicetree_start,
            self.devicetree_len,
        ]
    }

    /// The arguments in calling order.
    pub fn words(&self) -> (words: [usize; 6])
        ensures
            words@ == self@,
    {
        let words = [
            self.rootserver_start,
            self.rootserver_end,
            self.reserved,
            self.trampoline,
            self.devicetree_start,
            self.devicetree_len,
        ];
        assert(words@ =~= self@);
        words
    }
}

/// The arguments of the handoff for an image linked at `symbols`.
pub open spec fn handoff_arguments_of(symbols: LinkSymbols, trampoline: usize) -> HandoffArguments {
    HandoffArguments {
        rootserver_start: symbols.rootserver_start,
        rootserver_end: symbols.rootserver_end,
        reserved: 0,
        trampoline,
        devicetree_start: symbols.devicetree_start,
        devicetree_len: (symbols.devicetree_end - symbols.devicetree_start) as usize,
    }
}

/// What the entry point of a variant does.
pub open spec fn entry_action_of(
    variant: BootVariant,
    kernel_virt_entry: usize,
    symbols: LinkSymbols,
    trampoline: usize,
) -> EntryAction {
    match variant {
        BootVariant::KernelRunning => EntryAction::CallRootserver,
        BootVariant::KernelHandoff => EntryAction::EnterKernel {
            kernel_entry: kernel_virt_entry,
            arguments: handoff_arguments_of(symbols, trampoline),
        },
    }
}

/// For a rootserver linked from `rootserver_start` to `rootserver_end` and a
/// device-tree blob of `devicetree_len` bytes at `devicetree_start`, the
/// microkernel is entered with the rootserver's start and end, a zero, the
/// trampoline, and the blob's start and length, in this order.
pub proof fn lemma_handoff_order(
    rootserver_start: usize,
    rootserver_end: usize,
    trampoline: usize,
    devicetree_start: usize,
    devicetree_len: usize,
    kernel_virt_entry: usize,
)
    requires
        devicetree_start + devicetree_len <= usize::MAX,
    ensures
        ({
            let symbols = LinkSymbols {
                rootserver_start,
                rootserver_end,
                devicetree_start,
                devicetree_end: (devicetree_start + devicetree_len) as usize,
            };
            &&& handoff_arguments_of(symbols, trampoline)@ == seq![
                rootserver_start,
                rootserver_end,
                0,
                trampoline,
                devicetree_start,
                devicetree_len,
            ]
            &&& entry_action_of(
                BootVariant::KernelHandoff,
                kernel_virt_entry,
                symbols,
                trampoline,
            ) == (EntryAction::EnterKernel {
                kernel_entry: kernel_virt_entry,
                arguments: handoff_arguments_of(symbols, trampoline),
            })
        }),
{
    let symbols = LinkSymbols {
        rootserver_start,
        rootserver_end,
        devicetree_start,
        devicetree_end: (devicetree_start + devicetree_len) as usize,
    };
    assert(handoff_arguments_of(symbols, trampoline)@ =~= seq![
        rootserver_start,
        rootserver_end,
        0,
        trampoline,
        devicetree_start,
        devicetree_len,
    ]);
}

/// Fixes the arguments of the handoff for the linked image. Whatever the
/// variant, the order is the same.
pub fn handoff_arguments(symbols: &LinkSymbols, trampoline: usize) -> (arguments: HandoffArguments)
    requires
        symbols.devicetree_start <= symbols.devicetree_end,
    ensures
        arguments == handoff_arguments_of(*symbols, trampoline),
        arguments@ == handoff_words(
            symbols.rootserver_start,
            symbols.rootserver_end,
            trampoline,
            symbols.devicetree_start,
            (symbols.devicetree_end - symbols.devicetree_start) as usize,
        ),
{
    let arguments = HandoffArguments {
        rootserver_start: symbols.rootserver_start,
        rootserver_end: symbols.rootserver_end,
        reserved: 0,
        trampoline,
        devicetree_start: symbols.devicetree_start,
        devicetree_len: symbols.devicetree_end - symbols.devicetree_start,
    };
    assert(arguments@ =~= handoff_words(
        symbols.rootserver_start,
        symbols.rootserver_end,
        trampoline,
        symbols.devicetree_start,
        (symbols.devicetree_end - symbols.devicetree_start) as usize,
    ));
    arguments
}

impl<R: Rootserver> System<R> {
    /// The memory map that must be in place before the entry point runs.
    pub fn memory_map(variant: BootVariant, kernel_virt_start: usize, kernel_phys_addr: usize) -> (map:
        Vec<Mapping>)
        requires
            kernel_virt_start > 0,
        ensures
            map@ == memory_map_of(variant, kernel_virt_start, kernel_phys_addr),
    {
        let attributes = MemoryAttributes::normal().read_writeable().executable();
        let mut map: Vec<Mapping> = Vec::new();
        map.push(
            Mapping { virt_first: 0, virt_last: kernel_virt_start - 1, phys_addr: 0, attributes },
        );
        match variant {
            BootVariant::KernelRunning => {},
            BootVariant::KernelHandoff => {
                map.push(
                    Mapping {
                        virt_first: kernel_virt_start,
                        virt_last: ADDRESS_SPACE_TOP,
                        phys_addr: kernel_phys_addr,
                        attributes,
                    },
                );
            },
        }
        assert(map@ =~= memory_map_of(variant, kernel_virt_start, kernel_phys_addr));
        map
    }

    /// What the entry point does once the memory map is in place: where the
    /// microkernel is already running, it calls the rootserver; where it is
    /// not, it enters the microkernel, which later branches to `trampoline`.
    pub fn entry_action(
        variant: BootVariant,
        kernel_virt_entry: usize,
        symbols: &LinkSymbols,
        trampoline: usize,
    ) -> (action: EntryAction)
        requires
            variant == BootVariant::KernelHandoff ==> symbols.devicetree_start
                <= symbols.devicetree_end,
        ensures
            action == entry_action_of(variant, kernel_virt_entry, *symbols, trampoline),
    {
        match variant {
            BootVariant::KernelRunning => EntryAction::CallRootserver,
            BootVariant::KernelHandoff => EntryAction::EnterKernel {
                kernel_entry: kernel_virt_entry,
                arguments: handoff_arguments(symbols, trampoline),
            },
        }
    }
}

} // verus!

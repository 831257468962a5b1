//! The failures of layout extraction and emission.

use crate::text::{append_decimal, decimal_digits};
use vstd::prelude::*;
use vstd::string::*;

verus! {

/// Why a layout could not be extracted or emitted. Each failure aborts the
/// build step that met it; none is retried and none yields partial output.
#[derive(Clone, Copy, Debug, PartialEq, Eq, Structural)]
pub enum LayoutError {
    /// A build artifact is malformed (or, for callers that read files, absent).
    ArtifactReadError,
    /// The device-tree blob fails structural validation.
    DeviceTreeParseError,
    /// The microkernel image has no loadable segment of non-zero size.
    NoLoadSegment,
    /// The microkernel image has more than one loadable segment of non-zero
    /// size; `found` is how many.
    AmbiguousLoadSegment { found: usize },
    /// The microkernel's region has no virtual address.
    MissingVirtualAddress,
}

impl LayoutError {
    /// The failure in one line, as the build prints it.
    pub open spec fn message_text(self) -> Seq<char> {
        match self {
            LayoutError::ArtifactReadError => "Build artifact missing or malformed."@,
            LayoutError::DeviceTreeParseError => "Invalid kernel device tree"@,
            LayoutError::NoLoadSegment => "No LOAD segment found in kernel.elf."@,
            LayoutError::AmbiguousLoadSegment { found } => "Found "@ + decimal_digits(found as nat)
                + " LOAD segments in kernel.elf; expected 1 LOAD segment."@,
            LayoutError::MissingVirtualAddress => "Kernel virtual region unknown."@,
        }
    }

    /// A one-line description for build output.
    pub fn message(&self) -> (text: String)
        ensures
            text@ == self.message_text(),
    {
        match self {
            LayoutError::ArtifactReadError => String::from_str(
                "Build artifact missing or malformed.",
            ),
            LayoutError::DeviceTreeParseError => String::from_str("Invalid kernel device tree"),
            LayoutError::NoLoadSegment => String::from_str("No LOAD segment found in kernel.elf."),
            LayoutError::AmbiguousLoadSegment { found } => {
                let mut text = String::from_str("Found ");
                append_decimal(&mut text, *found as u64);
                text.append(" LOAD segments in kernel.elf; expected 1 LOAD segment.");
                text
            },
            LayoutError::MissingVirtualAddress => String::from_str("Kernel virtual region unknown."),
        }
    }
}

} // verus!

pub mod dispatch;
pub mod image;
pub mod names;
pub mod parse;
pub mod scan;
pub mod search;
pub mod textfmt;

use vstd::prelude::*;

verus! {

/// Requested architecture filter, fixed for a whole run.
#[derive(Clone, Copy, PartialEq, Eq, Structural)]
pub enum ArchFilter {
    All,
    X86,
    X64,
}

/// COFF machine tag for 32-bit x86 images.
pub const MACHINE_X86: u16 = 0x14c;

/// COFF machine tag for 64-bit x86 images.
pub const MACHINE_X64: u16 = 0x8664;

/// The display label chosen for a machine tag, or `None` when the
/// filter excludes the image.
pub open spec fn arch_label_spec(filter: ArchFilter, machine: u16) -> Option<Seq<char>> {
    match filter {
        ArchFilter::All => Some(
            if machine == MACHINE_X64 {
                "x64"@
            } else if machine == MACHINE_X86 {
                "x86"@
            } else {
                "Unknown"@
            },
        ),
        ArchFilter::X86 => if machine == MACHINE_X86 {
            Some("x86"@)
        } else {
            None
        },
        ArchFilter::X64 => if machine == MACHINE_X64 {
            Some("x64"@)
        } else {
            None
        },
    }
}

/// Decide inclusion under the architecture filter and produce the
/// display label; `None` is the skip signal, not an error.
pub fn resolve_arch(filter: ArchFilter, machine: u16) -> (r: Option<&'static str>)
    ensures
        match r {
            Some(l) => arch_label_spec(filter, machine) == Some(l@),
            None => arch_label_spec(filter, machine) is None,
        },
{
    match filter {
        ArchFilter::All => {
            if machine == MACHINE_X64 {
                Some("x64")
            } else if machine == MACHINE_X86 {
                Some("x86")
            } else {
                Some("Unknown")
            }
        },
        ArchFilter::X86 => if machine == MACHINE_X86 {
            Some("x86")
        } else {
            None
        },
        ArchFilter::X64 => if machine == MACHINE_X64 {
            Some("x64")
        } else {
            None
        },
    }
}

} // verus!

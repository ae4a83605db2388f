//! Memory sizes in binary units, convertible to a byte count.

use vstd::prelude::*;

verus! {

/// A memory size expressed in a binary unit.
#[derive(Debug, Clone, Copy)]
pub enum Size {
    KiB(usize),
    MiB(usize),
    GiB(usize),
    TiB(usize),
}

impl Size {
    /// The byte count of this size, as an unbounded integer.
    pub open spec fn spec_bytes(self) -> int {
        match self {
            Size::KiB(x) => x * 0x400,
            Size::MiB(x) => x * 0x10_0000,
            Size::GiB(x) => x * 0x4000_0000,
            Size::TiB(x) => x * 0x100_0000_0000,
        }
    }

    /// Converts this size to a byte count.
    pub fn bytes(self) -> (r: usize)
        requires
            self.spec_bytes() <= usize::MAX,
        ensures
            r == self.spec_bytes(),
    {
        match self {
            Size::KiB(x) => x * 0x400,
            Size::MiB(x) => x * 0x10_0000,
            Size::GiB(x) => x * 0x4000_0000,
            Size::TiB(x) => x * 0x4000_0000 * 0x400,
        }
    }
}

} // verus!

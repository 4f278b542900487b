//! One extent of a file, as the kernel reports it.

use vstd::prelude::*;

use crate::flags::FiemapExtentFlags;

verus! {

/// A contiguous run of a file's bytes that lies contiguously on the
/// underlying storage.
#[derive(Copy, Clone, Debug, PartialEq, Eq, Structural)]
pub struct FiemapExtent {
    /// Byte offset of the extent within the file.
    pub fe_logical: u64,
    /// Byte offset of the extent on the device; without meaning where the
    /// flags hold `FIEMAP_EXTENT_UNKNOWN`.
    pub fe_physical: u64,
    /// Length of the extent in bytes.
    pub fe_length: u64,
    /// Properties of the extent.
    pub fe_flags: FiemapExtentFlags,
}

impl FiemapExtent {
    /// The extent of no bytes at offset zero, without flags: what an unused
    /// slot of the query buffer holds.
    #[verifier::allow_in_spec]
    pub fn new() -> FiemapExtent
        returns
            (FiemapExtent {
                fe_logical: 0,
                fe_physical: 0,
                fe_length: 0,
                fe_flags: FiemapExtentFlags::empty(),
            }),
    {
        FiemapExtent {
            fe_logical: 0,
            fe_physical: 0,
            fe_length: 0,
            fe_flags: FiemapExtentFlags::empty(),
        }
    }

    /// The logical offset of the first byte behind the extent.
    pub open spec fn end(self) -> int {
        self.fe_logical + self.fe_length
    }

    /// Whether the kernel marked the extent as the last of its file.
    pub open spec fn is_last(self) -> bool {
        self.fe_flags.contains(FiemapExtentFlags::last())
    }
}

} // verus!

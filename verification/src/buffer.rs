//! The buffer that one kernel query reads its request from and writes its
//! answer to.

use vstd::prelude::*;

use crate::extent::FiemapExtent;

verus! {

/// The number of extent slots in the buffer: what one query can return.
pub const PAGESIZE: usize = 8;

/// The query buffer. The first four fields are the request, the fields
/// `fm_mapped_extents` and `fm_extents` the answer.
#[allow(non_camel_case_types)]
#[derive(Debug)]
pub struct C_fiemap {
    /// Logical offset at which the query starts.
    pub fm_start: u64,
    /// Length of the logical range that the query covers.
    pub fm_length: u64,
    /// Flags of the request.
    pub fm_flags: u32,
    /// Number of slots that the last query filled.
    pub fm_mapped_extents: u32,
    /// Number of slots that a query may fill.
    pub fm_extent_count: u32,
    /// Not used.
    pub fm_reserved: u32,
    /// The slots; those from index `fm_mapped_extents` on hold no answer.
    pub fm_extents: [FiemapExtent; PAGESIZE],
}

impl C_fiemap {
    /// The slots that the last query filled.
    pub open spec fn mapped(self) -> Seq<FiemapExtent> {
        self.fm_extents@.take(self.fm_mapped_extents as int)
    }

    /// What holds of the buffer at any time: it asks for the whole rest of
    /// the file, plainly, into all of its slots, and no more slots count as
    /// filled than there are.
    pub open spec fn wf(self) -> bool {
        &&& self.fm_length == u64::MAX
        &&& self.fm_flags == 0
        &&& self.fm_extent_count == PAGESIZE
        &&& self.fm_reserved == 0
        &&& self.fm_mapped_extents <= self.fm_extent_count
    }

    /// The buffer before the first query: it starts at offset zero, and no
    /// slot is filled.
    pub fn new() -> (buffer: C_fiemap)
        ensures
            buffer.wf(),
            buffer.fm_start == 0,
            buffer.fm_mapped_extents == 0,
            forall|i: int| 0 <= i < PAGESIZE ==> buffer.fm_extents[i] == FiemapExtent::new(),
    {
        C_fiemap {
            fm_start: 0,
            fm_length: u64::MAX,
            fm_flags: 0,
            fm_mapped_extents: 0,
            fm_extent_count: PAGESIZE as u32,
            fm_reserved: 0,
            fm_extents: [FiemapExtent::new(); PAGESIZE],
        }
    }
}

} // verus!

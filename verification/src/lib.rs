//! Reading a file's extent map through the paged kernel query, as a
//! state machine that never performs I/O itself.
//!
//! A `Fiemap` is pulled for one extent after the other. When its buffer is
//! read out, it asks its caller for a kernel query and goes on with the
//! outcome: the extents of the answer, an interruption, or a failure.

pub mod buffer;
pub mod counts;
pub mod extent;
pub mod flags;
pub mod reader;
pub mod sequence;

pub use buffer::{C_fiemap, PAGESIZE};
pub use extent::FiemapExtent;
pub use flags::FiemapExtentFlags;
pub use reader::{Fiemap, FiemapError, QueryReply, Step};

use fiemap::{C_fiemap, FiemapExtent, FiemapExtentFlags, PAGESIZE};

#[test]
fn new_extent_is_zero() {
    let extent = FiemapExtent::new();
    assert_eq!(extent.fe_logical, 0);
    assert_eq!(extent.fe_physical, 0);
    assert_eq!(extent.fe_length, 0);
    assert_eq!(extent.fe_flags, FiemapExtentFlags::empty());
    assert_eq!(extent.fe_flags.bits(), 0);
}

#[test]
fn new_buffer_asks_for_the_whole_file() {
    let buffer = C_fiemap::new();
    assert_eq!(buffer.fm_start, 0);
    assert_eq!(buffer.fm_length, u64::MAX);
    assert_eq!(buffer.fm_flags, 0);
    assert_eq!(buffer.fm_mapped_extents, 0);
    assert_eq!(buffer.fm_extent_count, 8);
    assert_eq!(buffer.fm_reserved, 0);
    assert_eq!(buffer.fm_extents.len(), PAGESIZE);
    for slot in buffer.fm_extents.iter() {
        assert_eq!(*slot, FiemapExtent::new());
    }
}

#[test]
fn a_batch_has_eight_slots() {
    assert_eq!(PAGESIZE, 8);
}

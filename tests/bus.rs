use nes_core::memory_map::{Error, Kind, MemoryMap, Segment};

fn ram_bus() -> MemoryMap {
    let mut m = MemoryMap::new();
    assert_eq!(m.add_seg(0x0000, 0x1FFF, 0x800, Kind::RAM), Ok(0));
    m
}

#[test]
fn register_disjoint_segments_succeeds() {
    let mut m = MemoryMap::new();
    assert_eq!(m.add_seg(0x0000, 0x1FFF, 0x800, Kind::RAM), Ok(0));
    assert_eq!(m.add_seg(0x2000, 0x3FFF, 8, Kind::Registers), Ok(1));
    assert_eq!(m.add_seg(0x8000, 0xBFFF, 0x4000, Kind::ROM), Ok(2));
    assert_eq!(m.add_seg(0xC000, 0xFFFF, 0x4000, Kind::ROM), Ok(3));
    assert_eq!(m.len(), 4);
}

#[test]
fn register_overlap_fails_in_either_order() {
    let mut a = MemoryMap::new();
    assert_eq!(a.add_seg(0x1000, 0x1FFF, 0x1000, Kind::RAM), Ok(0));
    assert_eq!(a.add_seg(0x1800, 0x27FF, 0x1000, Kind::RAM), Err(Error::SegmentOverlap));
    assert_eq!(a.len(), 1);

    let mut b = MemoryMap::new();
    assert_eq!(b.add_seg(0x1800, 0x27FF, 0x1000, Kind::RAM), Ok(0));
    assert_eq!(b.add_seg(0x1000, 0x1FFF, 0x1000, Kind::RAM), Err(Error::SegmentOverlap));
    assert_eq!(b.len(), 1);
}

#[test]
fn register_touching_ranges_overlap_at_shared_end() {
    let mut m = MemoryMap::new();
    assert_eq!(m.add_seg(0x0000, 0x00FF, 0x100, Kind::RAM), Ok(0));
    assert_eq!(m.add_seg(0x00FF, 0x01FF, 0x100, Kind::RAM), Err(Error::SegmentOverlap));
    assert_eq!(m.add_seg(0x0100, 0x01FF, 0x100, Kind::RAM), Ok(1));
}

#[test]
fn mirrored_addresses_resolve_to_same_offset() {
    let m = ram_bus();
    assert_eq!(m.map(0x0123), Ok((0, 0x123)));
    assert_eq!(m.map(0x0923), Ok((0, 0x123)));
    assert_eq!(m.map(0x1123), Ok((0, 0x123)));
    assert_eq!(m.map(0x1923), Ok((0, 0x123)));
    assert_eq!(m.map(0x1FFF), Ok((0, 0x7FF)));
}

#[test]
fn unmapped_address_is_reported() {
    let mut m = ram_bus();
    assert_eq!(m.map(0x2000), Err(Error::AddressNotMapped));
    assert_eq!(m.read(0x2000), Err(Error::AddressNotMapped));
    assert_eq!(m.write(0x2000, 1), Err(Error::AddressNotMapped));
    assert_eq!(m.enable_seg_rw(0x2000, vec![0; 0x800]), Err(Error::AddressNotMapped));
    assert_eq!(m.disable_seg(0x2000), Err(Error::AddressNotMapped));
}

#[test]
fn access_needs_attach_and_fails_after_detach() {
    let mut m = ram_bus();
    assert_eq!(m.read(0x0010), Err(Error::SegmentBufferNotLoaded));
    assert_eq!(m.write(0x0010, 7), Err(Error::SegmentBufferNotLoaded));

    assert_eq!(m.enable_seg_rw(0x0000, vec![0; 0x800]), Ok(()));
    assert_eq!(m.write(0x0010, 7), Ok(()));
    assert_eq!(m.read(0x0010), Ok(7));

    assert_eq!(m.disable_seg(0x0000), Ok(()));
    assert_eq!(m.read(0x0010), Err(Error::SegmentBufferNotLoaded));
    assert_eq!(m.write(0x0010, 7), Err(Error::SegmentBufferNotLoaded));
}

#[test]
fn attach_checks_length_and_double_attach() {
    let mut m = ram_bus();
    assert_eq!(m.enable_seg_rw(0x0000, vec![0; 0x7FF]), Err(Error::IncorrectBufferLength));
    assert_eq!(m.enable_seg_ro(0x0000, vec![0; 0x801]), Err(Error::IncorrectBufferLength));
    assert!(!m.segment(0).is_ready());
    assert_eq!(m.enable_seg_ro(0x0000, vec![0; 0x800]), Ok(()));
    assert!(m.segment(0).is_ready());
    assert_eq!(m.enable_seg_rw(0x0000, vec![0; 0x800]), Err(Error::BufferAlreadyLoaded));
}

#[test]
fn detach_of_unattached_segment_fails() {
    let mut m = ram_bus();
    assert_eq!(m.disable_seg(0x0000), Err(Error::SegmentNotLoaded));
}

#[test]
fn write_to_read_only_segment_is_an_error() {
    let mut m = MemoryMap::new();
    assert_eq!(m.add_seg(0x8000, 0xBFFF, 0x4000, Kind::ROM), Ok(0));
    let mut bank = vec![0u8; 0x4000];
    bank[5] = 0x99;
    assert_eq!(m.enable_seg_ro(0x8000, bank), Ok(()));
    assert_eq!(m.write(0x8005, 1), Err(Error::WriteToReadOnly));
    assert_eq!(m.read(0x8005), Ok(0x99));
}

#[test]
fn first_registered_segment_wins() {
    let mut m = MemoryMap::new();
    assert_eq!(m.add_seg(0x0000, 0x00FF, 0x100, Kind::RAM), Ok(0));
    assert_eq!(m.add_seg(0x0100, 0x01FF, 0x100, Kind::RAM), Ok(1));
    assert_eq!(m.map(0x0180), Ok((1, 0x80)));
    assert_eq!(m.map(0x0080), Ok((0, 0x80)));
}

#[test]
fn segment_offset_and_overlap() {
    let s = Segment::new(0x10, 0x1F, 8, Kind::RAM);
    assert_eq!(s.offset(0x10), Some(0));
    assert_eq!(s.offset(0x1B), Some(3));
    assert_eq!(s.offset(0x0F), None);
    assert_eq!(s.offset(0x20), None);
    assert_eq!(s.kind(), Kind::RAM);
    let t = Segment::new(0x1F, 0x2F, 0x11, Kind::ROM);
    let u = Segment::new(0x20, 0x2F, 0x10, Kind::ROM);
    assert!(s.overlaps(&t));
    assert!(t.overlaps(&s));
    assert!(!s.overlaps(&u));
    assert!(!u.overlaps(&s));
}

#[test]
fn segment_access_checks() {
    let mut s = Segment::new(0x00, 0x0F, 4, Kind::RAM);
    assert_eq!(s.can_access(0), Err(Error::SegmentBufferNotLoaded));
    assert_eq!(s.read(0), Err(Error::SegmentBufferNotLoaded));
    assert_eq!(s.enable_rw(vec![1, 2, 3, 4]), Ok(()));
    assert_eq!(s.can_access(3), Ok(()));
    assert_eq!(s.can_access(4), Err(Error::OffsetOutOfBound));
    assert_eq!(s.read(4), Err(Error::OffsetOutOfBound));
    assert_eq!(s.write(4, 9), Err(Error::OffsetOutOfBound));
    assert_eq!(s.write(2, 9), Ok(()));
    assert_eq!(s.read(2), Ok(9));
    assert_eq!(s.disable(), Ok(()));
    assert_eq!(s.disable(), Err(Error::SegmentNotLoaded));
}

#[test]
fn ram_written_at_zero_reads_back_through_mirror() {
    let mut m = MemoryMap::new();
    assert_eq!(m.add_seg(0x0000, 0x1FFF, 0x800, Kind::RAM), Ok(0));
    assert_eq!(m.enable_seg_rw(0x0000, vec![0; 0x800]), Ok(()));
    assert_eq!(m.write(0x0000, 0xAB), Ok(()));
    assert_eq!(m.read(0x0800), Ok(0xAB));
}

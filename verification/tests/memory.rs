use kernel_core::address::{PhysAddr, PhysPageNum, VirtAddr, VirtPageNum};
use kernel_core::frame_allocator::StackFrameAllocator;
use kernel_core::memory_set::{MapArea, MemorySet};
use kernel_core::page_table::{PTEFlags, PageTable, PageTableEntry};

fn fresh_space(frames: usize) -> (MemorySet, StackFrameAllocator) {
    let mut pool = StackFrameAllocator::new(PhysPageNum(0x100), PhysPageNum(0x100 + frames + 1));
    let root = pool.frame_alloc().unwrap();
    (MemorySet::new_bare(root), pool)
}

#[test]
fn address_floor_ceil_offset() {
    assert_eq!(VirtAddr(0).floor(), VirtPageNum(0));
    assert_eq!(VirtAddr(0).ceil(), VirtPageNum(0));
    assert_eq!(VirtAddr(1).ceil(), VirtPageNum(1));
    assert_eq!(VirtAddr(4095).floor(), VirtPageNum(0));
    assert_eq!(VirtAddr(4095).ceil(), VirtPageNum(1));
    assert_eq!(VirtAddr(4096).floor(), VirtPageNum(1));
    assert_eq!(VirtAddr(4096).ceil(), VirtPageNum(1));
    assert_eq!(VirtAddr(4097).ceil(), VirtPageNum(2));
    assert_eq!(VirtAddr(0x1234_5678).page_offset(), 0x678);
    assert_eq!(VirtAddr(0x1234_5678).floor(), VirtPageNum(0x12345));
    assert!(VirtAddr(0x8000).aligned());
    assert!(!VirtAddr(0x8001).aligned());
    assert_eq!(VirtAddr(usize::MAX).ceil(), VirtPageNum(usize::MAX / 4096 + 1));
}

#[test]
fn page_number_to_address() {
    assert_eq!(VirtPageNum(3).start_addr(), Some(VirtAddr(0x3000)));
    assert_eq!(VirtPageNum(usize::MAX).start_addr(), None);
    assert_eq!(PhysPageNum(2).byte_addr(5), Some(PhysAddr(0x2005)));
    assert_eq!(PhysPageNum(usize::MAX).byte_addr(5), None);
    assert_eq!(PhysAddr(0x2005).floor(), PhysPageNum(2));
    assert_eq!(PhysAddr(0x2005).page_offset(), 5);
}

#[test]
fn permission_bits_decode() {
    assert_eq!(PTEFlags::from_permission_bits(0), None);
    assert_eq!(PTEFlags::from_permission_bits(8), None);
    assert_eq!(PTEFlags::from_permission_bits(0x10), None);
    assert_eq!(
        PTEFlags::from_permission_bits(1),
        Some(PTEFlags { valid: true, readable: true, writable: false, executable: false, user: true })
    );
    assert_eq!(
        PTEFlags::from_permission_bits(2),
        Some(PTEFlags { valid: true, readable: false, writable: true, executable: false, user: true })
    );
    assert_eq!(
        PTEFlags::from_permission_bits(4),
        Some(PTEFlags { valid: true, readable: false, writable: false, executable: true, user: true })
    );
    assert_eq!(
        PTEFlags::from_permission_bits(7),
        Some(PTEFlags { valid: true, readable: true, writable: true, executable: true, user: true })
    );
}

#[test]
fn flag_bits_pack() {
    let all = PTEFlags { valid: true, readable: true, writable: true, executable: true, user: true };
    assert_eq!(all.bits(), 0x1f);
    let rw = PTEFlags::from_permission_bits(3).unwrap();
    assert_eq!(rw.bits(), 1 + 2 + 4 + 16);
    let none = PTEFlags { valid: false, readable: false, writable: false, executable: false, user: false };
    assert_eq!(none.bits(), 0);
}

#[test]
fn page_table_map_translate_unmap() {
    let mut table = PageTable::new(PhysPageNum(9));
    assert_eq!(table.token(), 9);
    assert_eq!(table.translate(VirtPageNum(5)), None);
    let flags = PTEFlags { valid: false, readable: true, writable: false, executable: false, user: true };
    table.map(VirtPageNum(5), PhysPageNum(77), flags);
    let pte: PageTableEntry = table.translate(VirtPageNum(5)).unwrap();
    assert_eq!(pte.ppn(), PhysPageNum(77));
    assert!(pte.is_valid());
    assert!(pte.readable());
    assert!(!pte.writable());
    assert!(!pte.executable());
    assert!(pte.is_user());
    assert_eq!(table.translate(VirtPageNum(4)), None);
    assert_eq!(table.translate(VirtPageNum(6)), None);
    table.unmap(VirtPageNum(5));
    assert_eq!(table.translate(VirtPageNum(5)), None);
}

#[test]
fn frame_pool_hands_out_zeroed_frames_until_empty() {
    let mut pool = StackFrameAllocator::new(PhysPageNum(10), PhysPageNum(12));
    assert!(pool.can_alloc(2));
    assert!(!pool.can_alloc(3));
    let mut a = pool.frame_alloc().unwrap();
    let b = pool.frame_alloc().unwrap();
    assert_eq!(a.ppn(), PhysPageNum(10));
    assert_eq!(b.ppn(), PhysPageNum(11));
    assert!(pool.frame_alloc().is_none());
    assert!(pool.can_alloc(0));
    assert!(!pool.can_alloc(1));
    a.write_byte(7, 0xab);
    assert_eq!(a.read_byte(7), 0xab);
    assert_eq!(a.read_byte(8), 0);
    pool.frame_dealloc(a);
    assert!(pool.can_alloc(1));
    let again = pool.frame_alloc().unwrap();
    assert_eq!(again.ppn(), PhysPageNum(10));
    assert_eq!(again.read_byte(7), 0);
}

#[test]
fn frame_pool_with_reversed_bounds_is_empty() {
    let mut pool = StackFrameAllocator::new(PhysPageNum(12), PhysPageNum(10));
    assert!(!pool.can_alloc(1));
    assert!(pool.frame_alloc().is_none());
}

#[test]
fn mmap_maps_every_page_of_the_range() {
    let (mut space, mut pool) = fresh_space(8);
    assert_eq!(space.mmap(&mut pool, 0x10000, 4097, 3), 0);
    let first = space.translate(VirtPageNum(0x10)).unwrap();
    let second = space.translate(VirtPageNum(0x11)).unwrap();
    assert_eq!(first.flags, PTEFlags::from_permission_bits(3).unwrap());
    assert_eq!(second.flags, PTEFlags::from_permission_bits(3).unwrap());
    assert_ne!(first.ppn(), second.ppn());
    assert_eq!(space.translate(VirtPageNum(0x12)), None);
    assert_eq!(space.translate(VirtPageNum(0xf)), None);
    assert!(pool.can_alloc(6));
    assert!(!pool.can_alloc(7));
    assert_eq!(space.peek(0x10000), Some(0));
    assert_eq!(space.peek(0x11fff), Some(0));
}

#[test]
fn mmap_then_munmap_round_trip() {
    let (mut space, mut pool) = fresh_space(8);
    assert_eq!(space.mmap(&mut pool, 0x3000, 4096, 1), 0);
    let kept = space.translate(VirtPageNum(3)).unwrap();
    assert_eq!(space.mmap(&mut pool, 0x10000, 3 * 4096, 3), 0);
    assert!(pool.can_alloc(4));
    assert!(!pool.can_alloc(5));
    assert_eq!(space.unmmap(&mut pool, 0x10000, 3 * 4096), 0);
    assert_eq!(space.translate(VirtPageNum(0x10)), None);
    assert_eq!(space.translate(VirtPageNum(0x11)), None);
    assert_eq!(space.translate(VirtPageNum(0x12)), None);
    assert_eq!(space.translate(VirtPageNum(3)), Some(kept));
    assert!(pool.can_alloc(7));
    assert!(!pool.can_alloc(8));
}

#[test]
fn zero_length_requests_do_nothing() {
    let (mut space, mut pool) = fresh_space(4);
    assert_eq!(space.mmap(&mut pool, 0x1001, 0, 0), 0);
    assert_eq!(space.mmap(&mut pool, 0x1000, 0, 3), 0);
    assert_eq!(space.translate(VirtPageNum(1)), None);
    assert!(pool.can_alloc(4));
    assert_eq!(space.mmap(&mut pool, 0x1000, 4096, 3), 0);
    assert_eq!(space.unmmap(&mut pool, 0x1000, 0), 0);
    assert_eq!(space.unmmap(&mut pool, 0x1001, 0), 0);
    assert!(space.translate(VirtPageNum(1)).is_some());
    assert!(pool.can_alloc(3));
    assert!(!pool.can_alloc(4));
}

#[test]
fn mmap_rejects_bad_requests() {
    let (mut space, mut pool) = fresh_space(4);
    assert_eq!(space.mmap(&mut pool, 0x1001, 4096, 3), -1);
    assert_eq!(space.mmap(&mut pool, 0x1000, 4096, 0), -1);
    assert_eq!(space.mmap(&mut pool, 0x1000, 4096, 8), -1);
    assert_eq!(space.mmap(&mut pool, 0x1000, 4096, 0xf), -1);
    assert_eq!(space.mmap(&mut pool, 0x1000, usize::MAX, 3), -1);
    assert_eq!(space.translate(VirtPageNum(1)), None);
    assert!(pool.can_alloc(4));
}

#[test]
fn mmap_over_a_mapped_page_changes_nothing() {
    let (mut space, mut pool) = fresh_space(8);
    assert_eq!(space.mmap(&mut pool, 0x2000, 4096, 1), 0);
    let before = space.translate(VirtPageNum(2)).unwrap();
    assert_eq!(space.mmap_frames_needed(0x1000, 3 * 4096, 3), 0);
    assert_eq!(space.mmap(&mut pool, 0x1000, 3 * 4096, 3), -1);
    assert_eq!(space.translate(VirtPageNum(1)), None);
    assert_eq!(space.translate(VirtPageNum(2)), Some(before));
    assert_eq!(space.translate(VirtPageNum(3)), None);
    assert!(pool.can_alloc(7));
    assert!(!pool.can_alloc(8));
    assert_eq!(space.mmap(&mut pool, 0x2000, 1, 2), -1);
    assert_eq!(space.translate(VirtPageNum(2)), Some(before));
}

#[test]
fn munmap_of_a_partly_mapped_range_unmaps_nothing() {
    let (mut space, mut pool) = fresh_space(8);
    assert_eq!(space.mmap(&mut pool, 0x1000, 2 * 4096, 3), 0);
    let one = space.translate(VirtPageNum(1)).unwrap();
    let two = space.translate(VirtPageNum(2)).unwrap();
    assert_eq!(space.unmmap(&mut pool, 0x1000, 3 * 4096), -1);
    assert_eq!(space.unmmap(&mut pool, 0x0, 2 * 4096), -1);
    assert_eq!(space.unmmap(&mut pool, 0x1001, 4096), -1);
    assert_eq!(space.unmmap(&mut pool, 0x5000, 4096), -1);
    assert_eq!(space.unmmap(&mut pool, 0x1000, usize::MAX), -1);
    assert_eq!(space.translate(VirtPageNum(1)), Some(one));
    assert_eq!(space.translate(VirtPageNum(2)), Some(two));
    assert!(pool.can_alloc(6));
    assert!(!pool.can_alloc(7));
    assert_eq!(space.unmmap(&mut pool, 0x1000, 4096 + 1), 0);
    assert_eq!(space.translate(VirtPageNum(1)), None);
    assert_eq!(space.translate(VirtPageNum(2)), None);
}

#[test]
fn mmap_frames_needed_counts_pages() {
    let (space, _pool) = fresh_space(2);
    assert_eq!(space.mmap_frames_needed(0x1000, 1, 1), 1);
    assert_eq!(space.mmap_frames_needed(0x1000, 4096, 1), 1);
    assert_eq!(space.mmap_frames_needed(0x1000, 4097, 1), 2);
    assert_eq!(space.mmap_frames_needed(0x1000, 0, 1), 0);
    assert_eq!(space.mmap_frames_needed(0x1001, 4096, 1), 0);
    assert_eq!(space.mmap_frames_needed(0x1000, 4096, 0), 0);
}

#[test]
fn peek_and_poke_respect_permissions() {
    let (mut space, mut pool) = fresh_space(8);
    assert_eq!(space.mmap(&mut pool, 0x1000, 4096, 1), 0);
    assert_eq!(space.mmap(&mut pool, 0x2000, 4096, 2), 0);
    assert_eq!(space.mmap(&mut pool, 0x3000, 4096, 3), 0);
    assert_eq!(space.mmap(&mut pool, 0x4000, 4096, 4), 0);
    assert_eq!(space.peek(0x1010), Some(0));
    assert!(!space.poke(0x1010, 9));
    assert_eq!(space.peek(0x1010), Some(0));
    assert_eq!(space.peek(0x2010), None);
    assert!(space.poke(0x2010, 9));
    assert!(space.poke(0x3abc, 0x5a));
    assert_eq!(space.peek(0x3abc), Some(0x5a));
    assert_eq!(space.peek(0x3abd), Some(0));
    assert_eq!(space.peek(0x4000), None);
    assert!(!space.poke(0x4000, 1));
    assert_eq!(space.peek(0x5000), None);
    assert!(!space.poke(0x5000, 1));
}

#[test]
fn bytes_written_across_a_page_boundary_read_back_the_same() {
    let (mut space, mut pool) = fresh_space(8);
    assert_eq!(space.mmap(&mut pool, 0x10000, 2 * 4096, 3), 0);
    let record: Vec<u8> = vec![1, 2, 3, 4, 5, 6, 7, 8, 9, 10, 11, 12, 13, 14, 15, 16];
    assert!(space.write_bytes(0x10000 + 4096 - 8, &record));
    assert!(space.write_bytes(0x10000 + 64, &record));
    let crossing = space.read_bytes(0x10000 + 4096 - 8, 16).unwrap();
    let inside = space.read_bytes(0x10000 + 64, 16).unwrap();
    assert_eq!(crossing, record);
    assert_eq!(inside, record);
    assert_eq!(space.peek(0x10000 + 4096 - 8), Some(1));
    assert_eq!(space.peek(0x10000 + 4095), Some(8));
    assert_eq!(space.peek(0x10000 + 4096), Some(9));
    assert_eq!(space.peek(0x10000 + 4096 + 7), Some(16));
    assert_eq!(space.peek(0x10000 + 4096 + 8), Some(0));
    assert_eq!(space.peek(0x10000 + 4096 - 9), Some(0));
}

#[test]
fn bytes_are_not_written_where_a_page_is_missing() {
    let (mut space, mut pool) = fresh_space(8);
    assert_eq!(space.mmap(&mut pool, 0x10000, 4096, 3), 0);
    let record: Vec<u8> = vec![0xff; 16];
    assert!(!space.write_bytes(0x10000 + 4096 - 8, &record));
    assert_eq!(space.peek(0x10000 + 4095), Some(0));
    assert_eq!(space.peek(0x10000 + 4088), Some(0));
    assert!(!space.write_bytes(0x20000, &record));
    assert!(space.read_bytes(0x10000 + 4096 - 8, 16).is_none());
    assert!(space.read_bytes(0x20000, 16).is_none());
    assert!(space.write_bytes(0x10000 + 4096 - 16, &record));
    assert_eq!(space.read_bytes(0x10000 + 4096 - 16, 16), Some(record));
}

#[test]
fn token_names_the_root_frame() {
    let (space, _pool) = fresh_space(1);
    assert_eq!(space.token(), 0x100);
}

fn area(start: usize, end: usize, bits: usize) -> MapArea {
    MapArea {
        start_vpn: VirtPageNum(start),
        end_vpn: VirtPageNum(end),
        flags: PTEFlags::from_permission_bits(bits).unwrap(),
    }
}

#[test]
fn areas_are_recorded_in_order() {
    let (mut space, mut pool) = fresh_space(16);
    assert!(space.areas().is_empty());
    assert_eq!(space.mmap(&mut pool, 0x10000, 3 * 4096, 3), 0);
    assert_eq!(space.mmap(&mut pool, 0x4000, 1, 1), 0);
    assert_eq!(space.mmap(&mut pool, 0x4000, 1, 1), -1);
    assert_eq!(space.mmap(&mut pool, 0x8000, 0, 1), 0);
    assert_eq!(space.areas(), &vec![area(0x10, 0x13, 3), area(4, 5, 1)]);
}

#[test]
fn unmapping_trims_and_splits_areas() {
    let (mut space, mut pool) = fresh_space(16);
    assert_eq!(space.mmap(&mut pool, 0x10000, 4 * 4096, 3), 0);
    assert_eq!(space.mmap(&mut pool, 0x14000, 2 * 4096, 5), 0);
    assert_eq!(space.mmap(&mut pool, 0x4000, 4096, 1), 0);
    assert_eq!(space.unmmap(&mut pool, 0x11000, 4096), 0);
    assert_eq!(
        space.areas(),
        &vec![area(0x10, 0x11, 3), area(0x12, 0x14, 3), area(0x14, 0x16, 5), area(4, 5, 1)]
    );
    assert_eq!(space.unmmap(&mut pool, 0x13000, 2 * 4096), 0);
    assert_eq!(
        space.areas(),
        &vec![area(0x10, 0x11, 3), area(0x12, 0x13, 3), area(0x15, 0x16, 5), area(4, 5, 1)]
    );
    assert_eq!(space.unmmap(&mut pool, 0x10000, 4096), 0);
    assert_eq!(space.unmmap(&mut pool, 0x4000, 4096), 0);
    assert_eq!(space.areas(), &vec![area(0x12, 0x13, 3), area(0x15, 0x16, 5)]);
    assert_eq!(space.unmmap(&mut pool, 0x12000, 4 * 4096), -1);
    assert_eq!(space.areas(), &vec![area(0x12, 0x13, 3), area(0x15, 0x16, 5)]);
    assert!(space.translate(VirtPageNum(0x12)).is_some());
    assert!(space.translate(VirtPageNum(0x13)).is_none());
    assert!(space.translate(VirtPageNum(0x15)).is_some());
}

#[test]
fn round_trip_gives_back_the_areas() {
    let (mut space, mut pool) = fresh_space(16);
    assert_eq!(space.mmap(&mut pool, 0x10000, 2 * 4096, 3), 0);
    assert_eq!(space.mmap(&mut pool, 0x20000, 5 * 4096 - 1, 7), 0);
    assert_eq!(space.areas(), &vec![area(0x10, 0x12, 3), area(0x20, 0x25, 7)]);
    assert_eq!(space.unmmap(&mut pool, 0x20000, 5 * 4096 - 1), 0);
    assert_eq!(space.areas(), &vec![area(0x10, 0x12, 3)]);
    assert!(pool.can_alloc(14));
    assert!(!pool.can_alloc(15));
}

#[test]
fn recycling_unmaps_every_area() {
    let (mut space, mut pool) = fresh_space(8);
    assert_eq!(space.mmap(&mut pool, 0x10000, 3 * 4096, 3), 0);
    assert_eq!(space.mmap(&mut pool, 0x4000, 4096, 1), 0);
    assert_eq!(space.unmmap(&mut pool, 0x11000, 4096), 0);
    assert!(space.poke(0x10000, 7));
    space.recycle_data_pages(&mut pool);
    assert!(space.areas().is_empty());
    assert_eq!(space.translate(VirtPageNum(0x10)), None);
    assert_eq!(space.translate(VirtPageNum(0x12)), None);
    assert_eq!(space.translate(VirtPageNum(4)), None);
    assert_eq!(space.peek(0x10000), None);
    assert!(pool.can_alloc(8));
    assert!(!pool.can_alloc(9));
    assert_eq!(space.token(), 0x100);
    assert_eq!(space.mmap(&mut pool, 0x10000, 4096, 3), 0);
    assert_eq!(space.peek(0x10000), Some(0));
}

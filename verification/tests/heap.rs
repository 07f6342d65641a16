use horizon::heap::{AllocationError, AllocationSizeError, Heap, HeapError};
use horizon::math::log2;

const BASE: usize = 0x1000_0000;

#[test]
fn log2_rounds_down() {
    assert_eq!(log2(0), 0);
    assert_eq!(log2(1), 0);
    assert_eq!(log2(2), 1);
    assert_eq!(log2(3), 1);
    assert_eq!(log2(4096), 12);
    assert_eq!(log2(usize::MAX), (usize::BITS - 1) as u8);
}

#[test]
fn heap_creation_errors() {
    assert_eq!(Heap::<4>::new(BASE + 1, 0x4000).err(), Some(HeapError::BadBaseAlignment));
    assert_eq!(Heap::<4>::new(BASE, 0x3000).err(), Some(HeapError::BadSizeAlignment));
    assert_eq!(Heap::<16>::new(BASE, 0x100).err(), Some(HeapError::MinBlockTooSmall));
    assert!(Heap::<4>::new(BASE, 0x4000).is_ok());
}

#[test]
fn allocations_split_blocks_in_order() {
    let mut heap = Heap::<4>::new(BASE, 0x4000).unwrap();
    assert_eq!(heap.allocate(16, 16), Ok(BASE));
    assert_eq!(heap.allocate(16, 16), Ok(BASE + 0x800));
    assert_eq!(heap.allocate(0x1000, 8), Ok(BASE + 0x1000));
    assert_eq!(heap.allocate(0x2000, 8), Ok(BASE + 0x2000));
    assert_eq!(heap.allocate(16, 16), Err(AllocationError::HeapExhausted));
}

#[test]
fn invalid_sizes_are_reported() {
    let mut heap = Heap::<4>::new(BASE, 0x4000).unwrap();
    assert_eq!(heap.allocate(16, 3), Err(AllocationError::InvalidSize(AllocationSizeError::BadAlignment)));
    assert_eq!(heap.allocate(16, 0x2000), Err(AllocationError::InvalidSize(AllocationSizeError::BadAlignment)));
    assert_eq!(heap.allocate(0x8000, 1), Err(AllocationError::InvalidSize(AllocationSizeError::TooLarge)));
}

#[test]
fn deallocation_merges_buddies_back() {
    let mut heap = Heap::<4>::new(BASE, 0x4000).unwrap();
    let a = heap.allocate(16, 16).unwrap();
    let b = heap.allocate(0x900, 16).unwrap();
    assert_eq!(b, BASE + 0x1000);
    heap.deallocate(a, 16, 16);
    heap.deallocate(b, 0x900, 16);
    assert_eq!(heap.allocate(0x4000, 1), Ok(BASE));
}

#[test]
fn alloc_then_free_restores_the_heap() {
    let mut heap = Heap::<8>::new(BASE, 0x10000).unwrap();
    let first = heap.allocate(100, 8).unwrap();
    heap.deallocate(first, 100, 8);
    assert_eq!(heap.allocate(0x10000, 8), Ok(BASE));
}

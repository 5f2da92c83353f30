use gouda::genindex::{GenIndex, GenIndexAllocator, GenIndexArray};

#[test]
fn test_allocate() {
    let mut allocator = GenIndexAllocator::new();
    let index = allocator.allocate();
    assert!(allocator.is_live(index));
}

#[test]
fn test_deallocate() {
    let mut allocator = GenIndexAllocator::new();
    let index = allocator.allocate();
    assert!(allocator.is_live(index));
    assert!(allocator.deallocate(index));
    assert!(!allocator.is_live(index));
}

#[test]
fn can_clear() {
    let mut allocator = GenIndexAllocator::new();
    let mut sut: GenIndexArray<i32> = GenIndexArray::new();
    let index = allocator.allocate();

    sut.set(index, 5);
    sut.clear(index);
    assert!(sut.get(index).is_none())
}

#[test]
fn can_get_mut() {
    let mut allocator = GenIndexAllocator::new();
    let mut sut: GenIndexArray<i32> = GenIndexArray::new();
    let index = allocator.allocate();

    sut.set(index, 5);
    let value = sut.get_mut(index);
    assert_eq!(value, Some(&mut 5));
}

#[test]
fn can_get_mut_modify() {
    let mut allocator = GenIndexAllocator::new();
    let mut sut: GenIndexArray<i32> = GenIndexArray::new();
    let index = allocator.allocate();

    sut.set(index, 5);
    if let Some(value) = sut.get_mut(index) {
        *value = 10;
    }
    assert_eq!(sut.get(index), Some(&10));
}

#[test]
fn can_set() {
    let mut allocator = GenIndexAllocator::new();
    let mut sut: GenIndexArray<i32> = GenIndexArray::new();
    let index = allocator.allocate();

    sut.set(index, 5);
    assert!(sut.get(index) == Some(&5))
}

#[test]
fn can_deallocate() {
    let mut allocator = GenIndexAllocator::new();
    let mut sut: GenIndexArray<i32> = GenIndexArray::new();
    let index = allocator.allocate();

    sut.set(index, 5);
    allocator.deallocate(index);
    assert!(sut.get(index) == Some(&5))
}

#[test]
fn allocate_hands_out_fresh_slots_then_reuses_last_freed() {
    let mut allocator = GenIndexAllocator::default();
    let a = allocator.allocate();
    let b = allocator.allocate();
    let c = allocator.allocate();
    assert_eq!(a, GenIndex { index: 0, generation: 1 });
    assert_eq!(b, GenIndex { index: 1, generation: 1 });
    assert_eq!(c, GenIndex { index: 2, generation: 1 });
    assert!(allocator.deallocate(a));
    assert!(allocator.deallocate(c));
    let d = allocator.allocate();
    assert_eq!(d, GenIndex { index: 2, generation: 2 });
    let e = allocator.allocate();
    assert_eq!(e, GenIndex { index: 0, generation: 2 });
    let f = allocator.allocate();
    assert_eq!(f, GenIndex { index: 3, generation: 1 });
}

#[test]
fn deallocate_twice_or_out_of_range_fails() {
    let mut allocator = GenIndexAllocator::new();
    let a = allocator.allocate();
    assert!(allocator.deallocate(a));
    assert!(!allocator.deallocate(a));
    assert!(!allocator.deallocate(GenIndex { index: 7, generation: 1 }));
}

#[test]
fn deallocate_ignores_generation() {
    let mut allocator = GenIndexAllocator::new();
    let a = allocator.allocate();
    allocator.deallocate(a);
    let b = allocator.allocate();
    assert_eq!(b.index, a.index);
    assert!(allocator.deallocate(a));
    assert!(!allocator.is_live(b));
}

#[test]
fn retired_index_stays_dead_after_reuse() {
    let mut allocator = GenIndexAllocator::new();
    let a = allocator.allocate();
    allocator.deallocate(a);
    let b = allocator.allocate();
    assert!(!allocator.is_live(a));
    assert!(allocator.is_live(b));
    let mut array: GenIndexArray<u8> = GenIndexArray::default();
    array.set(b, 9);
    assert_eq!(array.get(a), None);
    assert_eq!(array.get(b), Some(&9));
}

#[test]
fn set_pads_with_empty_slots_and_leaves_others() {
    let mut array: GenIndexArray<u8> = GenIndexArray::new();
    let far = GenIndex { index: 3, generation: 1 };
    let near = GenIndex { index: 0, generation: 1 };
    array.set(far, 1);
    assert_eq!(array.0.len(), 4);
    assert!(array.0[0].is_none() && array.0[1].is_none() && array.0[2].is_none());
    array.set(near, 2);
    assert_eq!(array.get(far), Some(&1));
    assert_eq!(array.get(near), Some(&2));
    array.clear(GenIndex { index: 3, generation: 5 });
    assert_eq!(array.get(far), None);
    array.clear(GenIndex { index: 10, generation: 1 });
    assert_eq!(array.0.len(), 4);
    assert!(array.get_mut(far).is_none());
}

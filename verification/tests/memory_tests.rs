use bootplat::memory::{MemoryDescriptor, MemoryError, MemoryServices, MemoryType};

#[test]
fn empty_space_maps_to_one_free_region() {
    let ms = MemoryServices::new(10);
    let map = ms.memory_map();
    assert_eq!(
        map,
        vec![MemoryDescriptor { base: 0, pages: 10, mem_type: MemoryType::Conventional }],
    );
}

#[test]
fn zero_sized_space_maps_to_nothing() {
    let ms = MemoryServices::new(0);
    assert_eq!(ms.memory_map(), vec![]);
}

#[test]
fn allocation_is_first_fit() {
    let mut ms = MemoryServices::new(10);
    assert_eq!(ms.allocate_pages(3, MemoryType::LoaderData), Ok(0));
    assert_eq!(ms.allocate_pages(2, MemoryType::LoaderCode), Ok(3));
    assert_eq!(ms.free_pages(0, 3), Ok(()));
    // the freed run at the lowest address is reused first
    assert_eq!(ms.allocate_pages(2, MemoryType::LoaderData), Ok(0));
    // a run of 4 no longer fits at 2, so it lands after the region at 3
    assert_eq!(ms.allocate_pages(4, MemoryType::LoaderData), Ok(5));
}

#[test]
fn allocation_fails_when_nothing_fits() {
    let mut ms = MemoryServices::new(4);
    assert_eq!(ms.allocate_pages(5, MemoryType::LoaderData), Err(MemoryError::OutOfResources));
    assert_eq!(ms.allocate_pages(2, MemoryType::LoaderData), Ok(0));
    assert_eq!(ms.allocate_pages(2, MemoryType::LoaderCode), Ok(2));
    assert_eq!(ms.allocate_pages(1, MemoryType::LoaderData), Err(MemoryError::OutOfResources));
}

#[test]
fn fragmented_holes_do_not_merge() {
    let mut ms = MemoryServices::new(5);
    for k in 0..5 {
        assert_eq!(ms.allocate_pages(1, MemoryType::LoaderData), Ok(k));
    }
    assert_eq!(ms.free_pages(1, 1), Ok(()));
    assert_eq!(ms.free_pages(3, 1), Ok(()));
    // two one-page holes cannot hold a two-page run
    assert_eq!(ms.allocate_pages(2, MemoryType::LoaderData), Err(MemoryError::OutOfResources));
    assert_eq!(ms.allocate_pages(1, MemoryType::LoaderCode), Ok(1));
}

#[test]
fn free_requires_an_exact_recorded_range() {
    let mut ms = MemoryServices::new(10);
    assert_eq!(ms.allocate_pages(3, MemoryType::LoaderData), Ok(0));
    assert_eq!(ms.free_pages(1, 2), Err(MemoryError::NotAllocated));
    assert_eq!(ms.free_pages(0, 2), Err(MemoryError::NotAllocated));
    assert_eq!(ms.free_pages(0, 3), Ok(()));
    assert_eq!(ms.free_pages(0, 3), Err(MemoryError::NotAllocated));
}

#[test]
fn allocate_free_round_trip_leaves_range_free() {
    let mut ms = MemoryServices::new(8);
    assert_eq!(ms.allocate_pages(2, MemoryType::LoaderData), Ok(0));
    let addr = ms.allocate_pages(3, MemoryType::LoaderCode).unwrap();
    assert_eq!(addr, 2);
    assert_eq!(ms.free_pages(addr, 3), Ok(()));
    let map = ms.memory_map();
    // no page of the freed run [2, 5) is reported as allocated
    for d in &map {
        if d.mem_type != MemoryType::Conventional {
            assert!(addr + 3 <= d.base || d.base + d.pages <= addr);
        }
    }
    assert_eq!(
        map,
        vec![
            MemoryDescriptor { base: 0, pages: 2, mem_type: MemoryType::LoaderData },
            MemoryDescriptor { base: 2, pages: 6, mem_type: MemoryType::Conventional },
        ],
    );
}

#[test]
fn memory_map_reports_gaps_and_allocations_in_order() {
    let mut ms = MemoryServices::new(10);
    assert_eq!(ms.allocate_pages(2, MemoryType::LoaderData), Ok(0));
    assert_eq!(ms.allocate_pages(3, MemoryType::LoaderCode), Ok(2));
    assert_eq!(ms.free_pages(0, 2), Ok(()));
    let map = ms.memory_map();
    assert_eq!(
        map,
        vec![
            MemoryDescriptor { base: 0, pages: 2, mem_type: MemoryType::Conventional },
            MemoryDescriptor { base: 2, pages: 3, mem_type: MemoryType::LoaderCode },
            MemoryDescriptor { base: 5, pages: 5, mem_type: MemoryType::Conventional },
        ],
    );
}

#[test]
fn whole_space_can_be_allocated() {
    let mut ms = MemoryServices::new(6);
    assert_eq!(ms.allocate_pages(6, MemoryType::LoaderData), Ok(0));
    let map = ms.memory_map();
    assert_eq!(
        map,
        vec![MemoryDescriptor { base: 0, pages: 6, mem_type: MemoryType::LoaderData }],
    );
}

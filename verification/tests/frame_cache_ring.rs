use openwa_core::frame_cache::{
    frame_cache_allocate, frame_cache_allocate_evicting, frame_cache_evict_head, CacheAlloc,
    CacheEntry, FrameCache,
};

#[test]
fn entries_are_placed_back_to_back() {
    let mut fc = FrameCache::new(100);
    assert_eq!(frame_cache_allocate(&mut fc, 20, 1, 0), CacheAlloc::Placed { payload_offset: 0x10 });
    assert_eq!(fc.write_head, 36);
    assert_eq!(frame_cache_allocate(&mut fc, 20, 2, 1), CacheAlloc::Placed { payload_offset: 52 });
    assert_eq!(fc.write_head, 72);
    assert_eq!(fc.entries.len(), 2);
    assert_eq!(fc.entries[1], CacheEntry { offset: 36, payload_size: 28, frame_idx: 1, owner: 2 });
}

#[test]
fn a_full_buffer_names_the_oldest_entry() {
    let mut fc = FrameCache::new(100);
    frame_cache_allocate(&mut fc, 20, 1, 0);
    frame_cache_allocate(&mut fc, 20, 2, 1);
    assert_eq!(
        frame_cache_allocate(&mut fc, 20, 3, 2),
        CacheAlloc::Evict { owner: 1, frame_idx: 0, payload_offset: 0x10 }
    );
    assert_eq!(fc.entries.len(), 2);
    frame_cache_evict_head(&mut fc);
    assert_eq!(fc.wrap_marker, 36);
    assert_eq!(fc.write_head, 72);
    assert_eq!(frame_cache_allocate(&mut fc, 20, 3, 2), CacheAlloc::Placed { payload_offset: 0x10 });
    assert_eq!(fc.write_head, 36);
}

#[test]
fn evicting_the_last_entry_starts_over() {
    let mut fc = FrameCache::new(100);
    frame_cache_allocate(&mut fc, 40, 1, 0);
    frame_cache_evict_head(&mut fc);
    assert!(fc.entries.is_empty());
    assert_eq!((fc.write_head, fc.wrap_marker), (0, 0));
}

#[test]
fn allocation_evicts_oldest_first_until_it_fits() {
    let mut fc = FrameCache::new(100);
    assert_eq!(frame_cache_allocate_evicting(&mut fc, 20, 1, 0), (0x10, vec![]));
    assert_eq!(frame_cache_allocate_evicting(&mut fc, 20, 2, 1), (52, vec![]));
    let (off, gone) = frame_cache_allocate_evicting(&mut fc, 20, 3, 2);
    assert_eq!(off, 0x10);
    assert_eq!(gone, vec![CacheEntry { offset: 0, payload_size: 28, frame_idx: 0, owner: 1 }]);
    let (off, gone) = frame_cache_allocate_evicting(&mut fc, 60, 4, 3);
    assert_eq!(off, 0x10);
    assert_eq!(gone.len(), 2);
    assert_eq!(fc.entries, vec![CacheEntry { offset: 0, payload_size: 68, frame_idx: 3, owner: 4 }]);
}

#[test]
fn an_exactly_full_ring_places_at_the_write_head() {
    let mut fc = FrameCache::new(100);
    frame_cache_allocate_evicting(&mut fc, 20, 1, 0);
    frame_cache_allocate_evicting(&mut fc, 20, 2, 1);
    frame_cache_allocate_evicting(&mut fc, 20, 3, 2);
    assert_eq!((fc.write_head, fc.wrap_marker), (36, 36));
    assert_eq!(frame_cache_allocate(&mut fc, 4, 4, 3), CacheAlloc::Placed { payload_offset: 52 });
}

#[test]
fn alloc_single() {
    let mut fc = FrameCache::new(0x1000);
    let (p, evicted) = frame_cache_allocate_evicting(&mut fc, 0x100, 0xABCD, 7);
    assert!(evicted.is_empty());
    // Returned payload offset is buffer + 0x10.
    assert_eq!(p, 0x10);
    // Header fields written.
    assert_eq!(fc.entries.len(), 1);
    assert_eq!(fc.entries[0].payload_size, 0x100 + 8);
    assert_eq!(fc.entries[0].frame_idx, 7);
    assert_eq!(fc.entries[0].owner, 0xABCD);
    assert_eq!(fc.entries[0].offset, 0);
    // pad = ((entry_size + 0x13) & ~3) = 0x110
    assert_eq!(fc.write_head, 0x110);
}

#[test]
fn alloc_two_chain() {
    let mut fc = FrameCache::new(0x1000);
    frame_cache_allocate_evicting(&mut fc, 0x100, 1, 1);
    frame_cache_allocate_evicting(&mut fc, 0x100, 1, 2);
    assert_eq!(fc.entries.len(), 2);
    assert_eq!(fc.entries[0].offset, 0);
    assert_eq!(fc.entries[1].offset, 0x110);
    assert_eq!(fc.write_head, 0x220);
}

#[test]
fn alloc_triggers_eviction_and_wrap() {
    let mut fc = FrameCache::new(0x300);
    frame_cache_allocate_evicting(&mut fc, 0x100, 1, 1);
    frame_cache_allocate_evicting(&mut fc, 0x100, 1, 2);
    // No eviction yet.
    assert_eq!(fc.wrap_marker, 0);
    assert_eq!(fc.write_head, 0x220);
    let (p3, evicted) = frame_cache_allocate_evicting(&mut fc, 0x100, 1, 3);
    // Eviction was reported once, for the first entry's frame index.
    assert_eq!(evicted.len(), 1);
    assert_eq!(evicted[0].frame_idx, 1);
    // The oldest live entry now starts at 0x110.
    assert_eq!(fc.wrap_marker, 0x110);
    // The third allocation wrapped to offset 0.
    assert_eq!(p3, 0x10);
    assert_eq!(fc.entries.len(), 2);
    assert_eq!(fc.entries[0].offset, 0x110);
    assert_eq!(fc.entries[1].offset, 0);
}

use hooklib::patch::Patch;
use hooklib::region::MemoryRegion;

#[test]
fn patch_writes_new_bytes() {
    let mut mem = MemoryRegion::new(100, vec![1, 2, 3, 4, 5, 6]);
    let _patch = Patch::new(&mut mem, 102, &vec![0xAA, 0xBB]);
    assert_eq!(mem.into_bytes(), vec![1, 2, 0xAA, 0xBB, 5, 6]);
}

#[test]
fn patch_revert_restores_original_bytes() {
    // install over arbitrary bytes, then revert: the region is exactly as
    // it was before the install
    let original = vec![9, 8, 7, 6, 5, 4, 3];
    let mut mem = MemoryRegion::new(0, original.clone());
    let patch = Patch::new(&mut mem, 2, &vec![0, 0, 0]);
    assert_eq!(mem.read_bytes(2, 3), vec![0, 0, 0]);
    patch.revert(&mut mem);
    assert_eq!(mem.into_bytes(), original);
}

#[test]
fn patch_at_region_edges() {
    let mut mem = MemoryRegion::new(50, vec![1, 2, 3, 4]);
    let first = Patch::new(&mut mem, 50, &vec![0xF1]);
    let last = Patch::new(&mut mem, 53, &vec![0xF4]);
    assert_eq!(mem.read_bytes(50, 4), vec![0xF1, 2, 3, 0xF4]);
    last.revert(&mut mem);
    first.revert(&mut mem);
    assert_eq!(mem.into_bytes(), vec![1, 2, 3, 4]);
}

#[test]
fn region_read_copies_bytes() {
    let mem = MemoryRegion::new(10, vec![5, 6, 7, 8]);
    assert_eq!(mem.read_bytes(11, 2), vec![6, 7]);
    assert_eq!(mem.start(), 10);
    assert_eq!(mem.len(), 4);
}

#[test]
fn region_write_splices_bytes() {
    let mut mem = MemoryRegion::new(0, vec![0; 5]);
    mem.write_bytes(1, &vec![1, 2, 3]);
    assert_eq!(mem.into_bytes(), vec![0, 1, 2, 3, 0]);
}

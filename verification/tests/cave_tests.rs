use hooklib::region::MemoryRegion;

fn region_at(start: usize, bytes: Vec<u8>) -> MemoryRegion {
    MemoryRegion::new(start, bytes)
}

#[test]
fn cave_between_non_filler_bytes_is_maximal() {
    // seven zeros fenced by non-filler bytes: exactly {start 1, length 7}
    let mem = region_at(0, vec![0x55, 0, 0, 0, 0, 0, 0, 0, 0x55]);
    let cave = mem.find_code_cave(0, 7).expect("cave");
    assert_eq!(cave.start, 1);
    assert_eq!(cave.length, 7);
}

#[test]
fn cave_run_includes_all_filler_kinds() {
    // 0x00, 0x90 and 0xCC all count as filler, so this whole region is one
    // maximal run
    let mem = region_at(0, vec![0xCC, 0, 0, 0, 0, 0, 0, 0, 0xCC]);
    let cave = mem.find_code_cave(0, 7).expect("cave");
    assert_eq!(cave.start, 0);
    assert_eq!(cave.length, 9);
}

#[test]
fn cave_mixed_filler_bytes() {
    let mem = region_at(0, vec![0x55, 0x90, 0xCC, 0x00, 0x90, 0x55, 0x00]);
    let cave = mem.find_code_cave(0, 3).expect("cave");
    assert_eq!(cave.start, 1);
    assert_eq!(cave.length, 4);
}

#[test]
fn cave_none_when_runs_too_short() {
    let mem = region_at(0, vec![0x55, 0, 0, 0x55, 0, 0, 0x55]);
    assert!(mem.find_code_cave(0, 3).is_none());
}

#[test]
fn cave_prefers_nearest_start() {
    // a short run near the probe beats a long run far from it
    let mut bytes = vec![0x11u8; 48];
    for b in bytes.iter_mut().take(10).skip(2) {
        *b = 0;
    }
    for b in bytes.iter_mut().take(40).skip(20) {
        *b = 0;
    }
    let mem = region_at(0, bytes);
    let near_right = mem.find_code_cave(15, 5).expect("cave");
    assert_eq!(near_right.start, 20);
    assert_eq!(near_right.length, 20);
    let near_left = mem.find_code_cave(5, 5).expect("cave");
    assert_eq!(near_left.start, 2);
    assert_eq!(near_left.length, 8);
}

#[test]
fn cave_tie_breaks_backward() {
    // both cave starts lie 6 bytes from the probe; the lower one wins
    let mut bytes = vec![0x11u8; 30];
    for b in bytes.iter_mut().take(9).skip(4) {
        *b = 0;
    }
    for b in bytes.iter_mut().take(21).skip(16) {
        *b = 0;
    }
    let mem = region_at(0, bytes);
    let cave = mem.find_code_cave(10, 5).expect("cave");
    assert_eq!(cave.start, 4);
    assert_eq!(cave.length, 5);
}

#[test]
fn cave_addresses_follow_region_base() {
    let mem = region_at(0x4000, vec![0x55, 0, 0, 0, 0, 0, 0, 0, 0x55]);
    let cave = mem.find_code_cave(0x4000, 7).expect("cave");
    assert_eq!(cave.start, 0x4001);
    assert_eq!(cave.length, 7);
}

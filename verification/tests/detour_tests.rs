use hooklib::detour::{Detour, Error, Trampoline};
use hooklib::region::{CodeCave, MemoryRegion};

const HOOK_BYTES: [u8; 6] = [0x40, 0x55, 0x56, 0x57, 0x41, 0x54];
const HANDLER: usize = 0x1122334455667788;

/// 64 bytes of non-filler code, the hook-site bytes at offset 10, and a
/// 30-byte run of zeros from offset 30.
fn image() -> Vec<u8> {
    let mut bytes = vec![0x11u8; 64];
    bytes[10..16].copy_from_slice(&HOOK_BYTES);
    for b in bytes.iter_mut().take(60).skip(30) {
        *b = 0;
    }
    bytes
}

#[test]
fn detour_layout_after_install() {
    let mut mem = MemoryRegion::new(0, image());
    let detour = Detour::new(&mut mem, 10, HANDLER, 6).expect("install");
    let bytes = mem.into_bytes();

    // redirect at the hook site: near jump to the cave, one NOP of padding
    assert_eq!(bytes[10..16], [0xE9, 0x0F, 0x00, 0x00, 0x00, 0x90]);

    // cave entry stub: load the handler's absolute address, jump through it
    assert_eq!(
        bytes[30..42],
        [0x48, 0xB8, 0x88, 0x77, 0x66, 0x55, 0x44, 0x33, 0x22, 0x11, 0xFF, 0xE0]
    );

    // preserved hook-site bytes, byte for byte
    assert_eq!(bytes[42..48], HOOK_BYTES);

    // return jump: from cave end (53) back to hook site + 6 = 16, i.e. -37
    assert_eq!(bytes[48..53], [0xE9, 0xDB, 0xFF, 0xFF, 0xFF]);

    // everything else untouched
    assert!(bytes[..10].iter().all(|&b| b == 0x11));
    assert!(bytes[16..30].iter().all(|&b| b == 0x11));
    assert!(bytes[53..60].iter().all(|&b| b == 0x00));
    assert!(bytes[60..].iter().all(|&b| b == 0x11));
    drop(detour);
}

#[test]
fn uninstall_restores_the_image() {
    let original = image();
    let mut mem = MemoryRegion::new(0, original.clone());
    let detour = Detour::new(&mut mem, 10, HANDLER, 6).expect("install");
    let trampoline = detour.begin_uninstall(&mut mem);
    trampoline.revert(&mut mem);
    assert_eq!(mem.into_bytes(), original);
}

#[test]
fn uninstall_reverts_redirect_strictly_before_cave() {
    // a recorder shows the forced order: the redirect falls first, the
    // grace delay sits in between, and only then do the cave bytes fall
    let mut order: Vec<&str> = Vec::new();
    let mut mem = MemoryRegion::new(0, image());
    let detour = Detour::new(&mut mem, 10, HANDLER, 6).expect("install");

    let trampoline = detour.begin_uninstall(&mut mem);
    order.push("redirect_reverted");
    // the hook site is back to its original bytes...
    assert_eq!(mem.read_bytes(10, 6), HOOK_BYTES.to_vec());
    // ...while the trampoline still stands in the cave for late threads
    assert_eq!(mem.read_bytes(42, 6), HOOK_BYTES.to_vec());
    assert_eq!(mem.read_bytes(30, 2), vec![0x48, 0xB8]);

    order.push("grace_delay");

    trampoline.revert(&mut mem);
    order.push("cave_reverted");
    assert_eq!(mem.read_bytes(30, 23), vec![0u8; 23]);

    assert_eq!(order, vec!["redirect_reverted", "grace_delay", "cave_reverted"]);
}

#[test]
fn detour_refuses_short_jmp_len() {
    let mut mem = MemoryRegion::new(0, image());
    match Detour::new(&mut mem, 10, HANDLER, 4) {
        Err(Error::JmpLenIsSmallerThanFiveBytes) => {}
        other => panic!("unexpected result: {:?}", other.map(|_| ())),
    }
    assert_eq!(mem.into_bytes(), image());
}

#[test]
fn detour_refuses_region_without_cave() {
    let mut bytes = vec![0x11u8; 64];
    bytes[10..16].copy_from_slice(&HOOK_BYTES);
    let mut mem = MemoryRegion::new(0, bytes.clone());
    match Detour::new(&mut mem, 10, HANDLER, 6) {
        Err(Error::NoCodeCave) => {}
        other => panic!("unexpected result: {:?}", other.map(|_| ())),
    }
    assert_eq!(mem.into_bytes(), bytes);
}

#[test]
fn trampoline_refuses_small_cave() {
    let mut mem = MemoryRegion::new(0, image());
    let cave = CodeCave { start: 30, length: 10 };
    match Trampoline::new(&mut mem, &cave, 10, HANDLER, 6) {
        Err(Error::CaveIsTooSmall(required, available)) => {
            assert_eq!(required, 23);
            assert_eq!(available, 10);
        }
        other => panic!("unexpected result: {:?}", other.map(|_| ())),
    }
    assert_eq!(mem.into_bytes(), image());
}

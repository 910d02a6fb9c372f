use hooklib::jump::{absolute_jump, decode_rel32, encode_rel32, near_jump};

#[test]
fn rel32_round_trip_forward() {
    let source = 0x1000usize;
    let destination = 0x2000usize;
    let rel = encode_rel32(source, destination);
    assert_eq!(rel, 0xFFB);
    assert_eq!(decode_rel32(source, rel), Some(destination));
}

#[test]
fn rel32_round_trip_backward() {
    let source = 0x2000usize;
    let destination = 0x1000usize;
    let rel = encode_rel32(source, destination);
    // -0x1005 in two's complement
    assert_eq!(rel, 0xFFFF_EFFB);
    assert_eq!(decode_rel32(source, rel), Some(destination));
}

#[test]
fn rel32_round_trip_to_self() {
    let source = 0x7000usize;
    let rel = encode_rel32(source, source);
    assert_eq!(rel, 0xFFFF_FFFB);
    assert_eq!(decode_rel32(source, rel), Some(source));
}

#[test]
fn rel32_decode_refuses_underflow() {
    // a negative displacement from a low source leaves the address space
    assert_eq!(decode_rel32(2, 0xFFFF_EFFB), None);
}

#[test]
fn near_jump_exact_bytes() {
    // jump at 10 to 30: displacement 30 - 15 = 15, padded to 6 bytes
    let bytes = near_jump(10, 30, 6);
    assert_eq!(bytes, vec![0xE9, 0x0F, 0x00, 0x00, 0x00, 0x90]);
}

#[test]
fn near_jump_negative_displacement() {
    // jump at 48 to 16: displacement 16 - 53 = -37 = 0xFFFFFFDB
    let bytes = near_jump(48, 16, 5);
    assert_eq!(bytes, vec![0xE9, 0xDB, 0xFF, 0xFF, 0xFF]);
}

#[test]
fn absolute_jump_exact_bytes() {
    let bytes = absolute_jump(0x1122334455667788);
    assert_eq!(
        bytes,
        vec![0x48, 0xB8, 0x88, 0x77, 0x66, 0x55, 0x44, 0x33, 0x22, 0x11, 0xFF, 0xE0]
    );
}

use mmo_server::wire::{get_u32, header, low_u16, push_tail, push_u32, push_u64, tail, uid_of_port};

#[test]
fn reads_little_endian_fields() {
    let msg = vec![9u8, 9, 0x78, 0x56, 0x34, 0x12, 1, 0, 0, 0];
    assert_eq!(get_u32(&msg, 2), 0x12345678);
    assert_eq!(get_u32(&msg, 6), 1);
}

#[test]
fn writes_little_endian_fields() {
    let mut out = header(1, 14);
    push_u32(&mut out, 0x0a0b0c0d);
    assert_eq!(out, vec![1, 14, 0x0d, 0x0c, 0x0b, 0x0a]);
    let mut t = Vec::new();
    push_u64(&mut t, 0x0102030405060708);
    assert_eq!(t, vec![8, 7, 6, 5, 4, 3, 2, 1]);
}

#[test]
fn write_then_read_gives_the_number_back() {
    for n in [0u32, 1, 255, 256, 65535, 0xdeadbeef, u32::MAX] {
        let mut out = Vec::new();
        push_u32(&mut out, n);
        assert_eq!(get_u32(&out, 0), n);
    }
}

#[test]
fn low_half_and_tails() {
    assert_eq!(low_u16(0x12345678), 0x5678);
    assert_eq!(low_u16(0x00010000), 0);
    assert_eq!(tail(&[1, 2, 3, 4], 1), vec![2, 3, 4]);
    assert_eq!(tail(&[1, 2], 2), Vec::<u8>::new());
    let mut out = vec![7u8];
    push_tail(&mut out, &[1, 2, 3], 1);
    assert_eq!(out, vec![7, 2, 3]);
}

#[test]
fn port_ids() {
    // 8080 = 0x1f90: bytes [0, 0, 0x1f, 0x90] read little-endian.
    assert_eq!(uid_of_port(8080), 0x901f0000);
    assert_eq!(uid_of_port(8080), 2417950720);
    assert_eq!(uid_of_port(1), 0x01000000);
    assert_eq!(uid_of_port(256), 0x00010000);
    assert_eq!(uid_of_port(0), 0);
    assert_ne!(uid_of_port(8080), uid_of_port(8081));
    assert_eq!(uid_of_port(8081) % 65536, 0);
}


use svm::Memory;

const PAGE_SIZE: usize = 4096;
const PAGE_COUNT: usize = ((1u64 << 32) / PAGE_SIZE as u64) as usize;

#[test]
fn read() {
    let mut mem = Memory::new();
    mem.write(0, &vec![0xff; 4]);

    let mut buf = vec![0; 4];

    mem.read(0, &mut buf);
    assert_eq!(buf, [0xff; 4]);
}

#[test]
fn write() {
    let mut mem = Memory::new();
    mem.write(0, &vec![0xff; 4]);

    mem.write(0, &vec![0; 4]);
    assert_eq!(mem.page(0).unwrap()[..4], [0; 4]);
}

#[test]
fn read_unmapped() {
    let mem = Memory::new();
    let mut buf = vec![0xff; 4];

    mem.read(0, &mut buf);
    assert_eq!(buf, [0; 4]);
    assert!(mem.page(0).is_none());
}

#[test]
fn write_unmapped() {
    let mut mem = Memory::new();

    mem.write(0, &vec![0xff; 4]);
    assert_eq!(mem.page(0).unwrap()[..4], [0xff; 4]);
}

#[test]
fn read_boundary() {
    let mut mem = Memory::new();
    mem.write(PAGE_SIZE as u32 - 2, &vec![0xff; 4]);

    let mut buf = vec![0; 4];

    mem.read(PAGE_SIZE as u32 - 2, &mut buf);
    assert_eq!(buf, [0xff; 4]);
}

#[test]
fn write_boundary() {
    let mut mem = Memory::new();
    mem.write(PAGE_SIZE as u32 - 2, &vec![0xff; 4]);

    mem.write(PAGE_SIZE as u32 - 2, &vec![0; 4]);
    assert_eq!(mem.page(0).unwrap()[(PAGE_SIZE - 2)..], [0; 2]);
    assert_eq!(mem.page(1).unwrap()[..2], [0; 2]);
}

#[test]
fn read_wrapping() {
    let mut mem = Memory::new();
    mem.write(u32::MAX - 1, &vec![0xff; 4]);

    let mut buf = vec![0; 4];

    mem.read(u32::MAX - 1, &mut buf);
    assert_eq!(buf, [0xff; 4]);
    assert_eq!(mem.page(0).unwrap()[..2], [0xff; 2]);
    assert_eq!(mem.page(PAGE_COUNT - 1).unwrap()[PAGE_SIZE - 2..], [0xff; 2]);
}

#[test]
fn write_wrapping() {
    let mut mem = Memory::new();
    mem.write(u32::MAX - 1, &vec![0xff; 4]);

    mem.write(u32::MAX - 1, &vec![0; 4]);
    assert_eq!(mem.page(0).unwrap()[..2], [0; 2]);
    assert_eq!(mem.page(PAGE_COUNT - 1).unwrap()[PAGE_SIZE - 2..], [0; 2]);
}

#[test]
fn u32_round_trip() {
    let mut mem = Memory::new();
    mem.write_u32(10, 0xdeadbeef);
    assert_eq!(mem.read_u32(10), 0xdeadbeef);
    // little-endian byte order
    let mut buf = vec![0; 4];
    mem.read(10, &mut buf);
    assert_eq!(buf, [0xef, 0xbe, 0xad, 0xde]);
}

#[test]
fn custom_page_size() {
    let mut mem = Memory::with_page_size(16);
    assert_eq!(mem.page_size(), 16);
    assert_eq!(mem.page_count(), (1u64 << 32) / 16);
    mem.write(15, &vec![0xaa, 0xbb]);
    let mut buf = vec![0; 2];
    mem.read(15, &mut buf);
    assert_eq!(buf, [0xaa, 0xbb]);
    assert!(mem.page(0).is_some());
    assert!(mem.page(1).is_some());
    assert!(mem.page(2).is_none());
}

#[test]
fn sparse_reads_do_not_allocate() {
    let mem = Memory::new();
    let mut buf = vec![0u8; 64];
    mem.read(0x12345678, &mut buf);
    assert_eq!(buf, vec![0u8; 64]);
    assert!(mem.page(0x12345678 / PAGE_SIZE).is_none());
}

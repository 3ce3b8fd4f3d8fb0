use vmm_core::elf::{load_elf, load_elf_image, ElfError, ElfImage, ProgramHeader, PT_LOAD};
use vmm_core::memory::{GuestMemory, MemoryError};
use vmm_core::virtio::{
    BlockRequest, DiskTransfer, VirtioBlock, VirtioError, VirtqDesc, VIRTIO_BLK_T_IN, VIRTIO_BLK_T_OUT,
};

fn memory(size: u64) -> GuestMemory {
    GuestMemory::new(0, size, vec![0u8; size as usize], 0).unwrap()
}

fn read(mem: &GuestMemory, offset: u64, len: usize) -> Vec<u8> {
    let mut buf = vec![0u8; len];
    mem.read_bytes(offset, &mut buf).unwrap();
    buf
}

fn segment(p_type: u32, p_offset: u64, p_filesz: u64, p_memsz: u64, p_paddr: u64) -> ProgramHeader {
    ProgramHeader { p_type, p_offset, p_filesz, p_memsz, p_paddr }
}

/// A minimal ELF64 executable with one loadable segment of 4 file bytes and
/// 8 memory bytes at 0x2000, entry 0x2000.
fn tiny_elf64() -> Vec<u8> {
    let mut f = vec![0u8; 124];
    f[0..4].copy_from_slice(&[0x7F, b'E', b'L', b'F']);
    f[4] = 2; // 64-bit
    f[5] = 1; // little endian
    f[6] = 1; // version
    f[16..18].copy_from_slice(&2u16.to_le_bytes()); // executable
    f[18..20].copy_from_slice(&0x3Eu16.to_le_bytes()); // x86_64
    f[20..24].copy_from_slice(&1u32.to_le_bytes());
    f[24..32].copy_from_slice(&0x2000u64.to_le_bytes()); // entry
    f[32..40].copy_from_slice(&64u64.to_le_bytes()); // phoff
    f[52..54].copy_from_slice(&64u16.to_le_bytes()); // ehsize
    f[54..56].copy_from_slice(&56u16.to_le_bytes()); // phentsize
    f[56..58].copy_from_slice(&1u16.to_le_bytes()); // phnum
    f[58..60].copy_from_slice(&64u16.to_le_bytes()); // shentsize
    let ph = 64;
    f[ph..ph + 4].copy_from_slice(&1u32.to_le_bytes()); // PT_LOAD
    f[ph + 4..ph + 8].copy_from_slice(&5u32.to_le_bytes());
    f[ph + 8..ph + 16].copy_from_slice(&120u64.to_le_bytes()); // offset
    f[ph + 16..ph + 24].copy_from_slice(&0x2000u64.to_le_bytes()); // vaddr
    f[ph + 24..ph + 32].copy_from_slice(&0x2000u64.to_le_bytes()); // paddr
    f[ph + 32..ph + 40].copy_from_slice(&4u64.to_le_bytes()); // filesz
    f[ph + 40..ph + 48].copy_from_slice(&8u64.to_le_bytes()); // memsz
    f[ph + 48..ph + 56].copy_from_slice(&0x1000u64.to_le_bytes());
    f[120..124].copy_from_slice(&[0xB0, 0x4B, 0xF4, 0x90]);
    f
}

/// A minimal ELF32 executable with no program headers.
fn tiny_elf32() -> Vec<u8> {
    let mut f = vec![0u8; 52];
    f[0..4].copy_from_slice(&[0x7F, b'E', b'L', b'F']);
    f[4] = 1; // 32-bit
    f[5] = 1;
    f[6] = 1;
    f[16..18].copy_from_slice(&2u16.to_le_bytes());
    f[18..20].copy_from_slice(&3u16.to_le_bytes());
    f[20..24].copy_from_slice(&1u32.to_le_bytes());
    f[24..28].copy_from_slice(&0x1000u32.to_le_bytes());
    f[40..42].copy_from_slice(&52u16.to_le_bytes());
    f[42..44].copy_from_slice(&32u16.to_le_bytes());
    f[46..48].copy_from_slice(&40u16.to_le_bytes());
    f
}

#[test]
fn load_elf_parses_and_loads_segment() {
    let mut mem = memory(0x4000);
    mem.write_bytes(0x2000, &[0xEE; 16]).unwrap();
    let entry = load_elf(&tiny_elf64(), &mut mem).unwrap();
    assert_eq!(entry, 0x2000);
    assert_eq!(read(&mem, 0x2000, 10), vec![0xB0, 0x4B, 0xF4, 0x90, 0, 0, 0, 0, 0xEE, 0xEE]);
}

#[test]
fn load_elf_rejects_garbage_and_32_bit() {
    let mut mem = memory(0x1000);
    assert_eq!(load_elf(&[1, 2, 3, 4], &mut mem), Err(ElfError::Parse));
    assert_eq!(load_elf(&tiny_elf32(), &mut mem), Err(ElfError::Not64Bit));
}

#[test]
fn load_elf_image_copies_and_zeroes() {
    let file: Vec<u8> = (0u8..32).collect();
    let image = ElfImage {
        is_64: true,
        entry: 0x1234,
        program_headers: vec![
            segment(PT_LOAD, 4, 4, 6, 0x10),
            segment(2, 0, 8, 8, 0x40),
            segment(PT_LOAD, 0, 2, 2, 0x20),
        ],
    };
    let mut mem = memory(0x100);
    mem.write_bytes(0, &[0xFF; 0x100]).unwrap();
    assert_eq!(load_elf_image(&image, &file, &mut mem), Ok(0x1234));
    assert_eq!(read(&mem, 0x0F, 8), vec![0xFF, 4, 5, 6, 7, 0, 0, 0xFF]);
    assert_eq!(read(&mem, 0x20, 3), vec![0, 1, 0xFF]);
    assert_eq!(read(&mem, 0x40, 1), vec![0xFF]);
}

#[test]
fn load_elf_image_errors() {
    let file = vec![7u8; 16];
    let mut mem = memory(0x40);
    let not64 = ElfImage { is_64: false, entry: 0, program_headers: vec![] };
    assert_eq!(load_elf_image(&not64, &file, &mut mem), Err(ElfError::Not64Bit));
    let beyond_file = ElfImage {
        is_64: true,
        entry: 0,
        program_headers: vec![segment(PT_LOAD, 0, 4, 4, 0), segment(PT_LOAD, 10, 7, 7, 8)],
    };
    assert_eq!(load_elf_image(&beyond_file, &file, &mut mem), Err(ElfError::SegmentOutOfFile));
    assert_eq!(read(&mem, 0, 5), vec![7, 7, 7, 7, 0]);
    let beyond_memory = ElfImage {
        is_64: true,
        entry: 0,
        program_headers: vec![segment(PT_LOAD, 0, 4, 4, 0x3E)],
    };
    assert_eq!(
        load_elf_image(&beyond_memory, &file, &mut memory(0x40)),
        Err(ElfError::Memory(MemoryError::WriteOutOfBounds))
    );
    let bss_beyond_memory = ElfImage {
        is_64: true,
        entry: 0,
        program_headers: vec![segment(PT_LOAD, 0, 4, 0x100, 0x30)],
    };
    let mut mem2 = memory(0x40);
    assert_eq!(
        load_elf_image(&bss_beyond_memory, &file, &mut mem2),
        Err(ElfError::Memory(MemoryError::WriteOutOfBounds))
    );
    assert_eq!(read(&mem2, 0x30, 5), vec![7, 7, 7, 7, 0]);
}

#[test]
fn virtio_identification_registers() {
    let dev = VirtioBlock::new();
    assert_eq!(dev.read_register(0x000), 0x74726976);
    assert_eq!(dev.read_register(0x004), 2);
    assert_eq!(dev.read_register(0x008), 2);
    assert_eq!(dev.read_register(0x00c), 0x554D4551);
    assert_eq!(dev.read_register(0x010), 0);
    assert_eq!(dev.read_register(0x034), 256);
    assert_eq!(dev.read_register(0x200), 0);
}

#[test]
fn virtio_register_writes() {
    let mut dev = VirtioBlock::new();
    dev.write_register(0x44, 1);
    dev.write_register(0x70, 0xF);
    assert_eq!(dev.read_register(0x44), 1);
    assert_eq!(dev.read_register(0x70), 0xF);
    assert!(!dev.notify_pending);
    dev.write_register(0x50, 0);
    assert!(dev.notify_pending);
}

fn put(mem: &mut GuestMemory, offset: u64, bytes: &[u8]) {
    mem.write_bytes(offset, bytes).unwrap();
}

fn put_desc(mem: &mut GuestMemory, table: u64, idx: u64, addr: u64, len: u32, flags: u16, next: u16) {
    let at = table + idx * 16;
    put(mem, at, &addr.to_le_bytes());
    put(mem, at + 8, &len.to_le_bytes());
    put(mem, at + 12, &flags.to_le_bytes());
    put(mem, at + 14, &next.to_le_bytes());
}

fn configured_device() -> VirtioBlock {
    let mut dev = VirtioBlock::new();
    dev.write_register(0x30, 0);
    dev.write_register(0x80, 0x20000);
    dev.write_register(0x84, 0);
    dev.write_register(0x90, 0x21000);
    dev.write_register(0x94, 0);
    dev.write_register(0xA0, 0x22000);
    dev.write_register(0xA4, 0);
    dev.write_register(0x44, 1);
    dev
}

#[test]
fn virtio_read_request_cycle() {
    let mut mem = memory(0x30000);
    put_desc(&mut mem, 0x20000, 0, 0x23000, 16, 1, 1);
    put_desc(&mut mem, 0x20000, 1, 0x24000, 512, 3, 2);
    put_desc(&mut mem, 0x20000, 2, 0x25000, 1, 2, 0);
    put(&mut mem, 0x21002, &1u16.to_le_bytes());
    put(&mut mem, 0x21004, &0u16.to_le_bytes());
    let mut header = [0u8; 16];
    header[8..16].copy_from_slice(&3u64.to_le_bytes());
    put(&mut mem, 0x23000, &header);
    put(&mut mem, 0x25000, &[0xFF]);

    let mut dev = configured_device();
    assert_eq!(dev.begin_process_queues(&mem), Ok(None));
    dev.write_register(0x50, 0);
    let avail = dev.begin_process_queues(&mem).unwrap().unwrap();
    assert_eq!(avail, 1);
    assert!(!dev.notify_pending);

    let req = dev.next_request(&mem, avail).unwrap().unwrap();
    assert_eq!(req.head_idx, 0);
    assert_eq!(req.request_type, VIRTIO_BLK_T_IN);
    assert_eq!(req.disk_offset, 3 * 512);
    assert_eq!(req.data.addr, 0x24000);
    assert_eq!(req.data.len, 512);
    assert_eq!(req.status.addr, 0x25000);

    dev.complete_request(&mut mem, &req, &[0xAA; 512]).unwrap();
    assert_eq!(read(&mem, 0x24000, 513), {
        let mut v = vec![0xAA; 512];
        v.push(0);
        v
    });
    assert_eq!(read(&mem, 0x25000, 1), vec![0]);
    assert_eq!(read(&mem, 0x22002, 2), 1u16.to_le_bytes().to_vec());
    assert_eq!(read(&mem, 0x22004, 4), 0u32.to_le_bytes().to_vec());
    assert_eq!(read(&mem, 0x22008, 4), 512u32.to_le_bytes().to_vec());
    assert!(dev.next_request(&mem, avail).unwrap().is_none());
}

#[test]
fn virtio_read_completion_stays_inside_data_buffer() {
    let mut mem = memory(0x30000);
    put_desc(&mut mem, 0x20000, 0, 0x23000, 16, 1, 1);
    put_desc(&mut mem, 0x20000, 1, 0x24000, 4, 3, 2);
    put_desc(&mut mem, 0x20000, 2, 0x25000, 1, 2, 0);
    put(&mut mem, 0x21002, &1u16.to_le_bytes());
    put(&mut mem, 0x21004, &0u16.to_le_bytes());
    put(&mut mem, 0x23000, &[0u8; 16]);
    put(&mut mem, 0x24004, &[0x77; 4]);

    let mut dev = configured_device();
    dev.write_register(0x50, 0);
    let avail = dev.begin_process_queues(&mem).unwrap().unwrap();
    let req = dev.next_request(&mem, avail).unwrap().unwrap();
    dev.complete_request(&mut mem, &req, &[0xAA; 8]).unwrap();
    assert_eq!(read(&mem, 0x24000, 8), vec![0xAA, 0xAA, 0xAA, 0xAA, 0x77, 0x77, 0x77, 0x77]);
    assert_eq!(read(&mem, 0x22008, 4), 4u32.to_le_bytes().to_vec());
}

#[test]
fn virtio_write_request_leaves_data_buffer() {
    let mut mem = memory(0x30000);
    put_desc(&mut mem, 0x20000, 3, 0x26000, 16, 1, 4);
    put_desc(&mut mem, 0x20000, 4, 0x24000, 512, 1, 5);
    put_desc(&mut mem, 0x20000, 5, 0x27000, 1, 2, 0);
    put(&mut mem, 0x21002, &1u16.to_le_bytes());
    put(&mut mem, 0x21004, &3u16.to_le_bytes());
    let mut header = [0u8; 16];
    header[0..4].copy_from_slice(&VIRTIO_BLK_T_OUT.to_le_bytes());
    put(&mut mem, 0x26000, &header);
    put(&mut mem, 0x24000, &[0xAB; 4]);
    put(&mut mem, 0x22002, &0xFFFFu16.to_le_bytes());

    let mut dev = configured_device();
    dev.write_register(0x50, 0);
    let avail = dev.begin_process_queues(&mem).unwrap().unwrap();
    let req = dev.next_request(&mem, avail).unwrap().unwrap();
    assert_eq!(req.head_idx, 3);
    assert_eq!(req.request_type, VIRTIO_BLK_T_OUT);
    assert_eq!(req.disk_offset, 0);
    dev.complete_request(&mut mem, &req, &[0x11; 4]).unwrap();
    assert_eq!(read(&mem, 0x24000, 4), vec![0xAB; 4]);
    assert_eq!(read(&mem, 0x27000, 1), vec![0]);
    // used index 0xFFFF wraps to 0; the entry goes to slot 0xFFFF % 256.
    assert_eq!(read(&mem, 0x22002, 2), vec![0, 0]);
    assert_eq!(read(&mem, 0x22004 + 255 * 8, 4), 3u32.to_le_bytes().to_vec());
}

#[test]
fn virtio_errors() {
    let mut mem = memory(0x1000);
    let mut dev = configured_device();
    dev.write_register(0x50, 0);
    assert_eq!(
        dev.begin_process_queues(&mem),
        Err(VirtioError::Memory(MemoryError::ReadOutOfBounds))
    );
    let mut dev2 = VirtioBlock::new();
    dev2.write_register(0x44, 1);
    put(&mut mem, 0x04, &0u16.to_le_bytes());
    put_desc(&mut mem, 0, 0, 0x100, 16, 1, 1);
    put_desc(&mut mem, 0, 1, 0x200, 16, 1, 2);
    put_desc(&mut mem, 0, 2, 0x300, 1, 2, 0);
    let mut header = [0u8; 16];
    header[8..16].copy_from_slice(&u64::MAX.to_le_bytes());
    put(&mut mem, 0x100, &header);
    assert_eq!(dev2.next_request(&mem, 1), Err(VirtioError::SectorOutOfRange));
}

#[test]
fn virtio_address_halves_compose() {
    let mut mem = memory(0x3000);
    let mut dev = VirtioBlock::new();
    // Leave junk in both halves first; the later writes must replace them.
    dev.write_register(0x80, 0xFFFF_FFFF);
    dev.write_register(0x84, 0x1234);
    dev.write_register(0x80, 0x1000);
    dev.write_register(0x84, 0);
    dev.write_register(0x94, 7);
    dev.write_register(0x90, 0x2000);
    dev.write_register(0x94, 0);
    dev.write_register(0x44, 1);
    put(&mut mem, 0x2004, &0u16.to_le_bytes());
    put_desc(&mut mem, 0x1000, 0, 0x800, 16, 1, 1);
    put_desc(&mut mem, 0x1000, 1, 0x900, 8, 1, 2);
    put_desc(&mut mem, 0x1000, 2, 0xA00, 1, 2, 0);
    let req = dev.next_request(&mem, 1).unwrap().unwrap();
    assert_eq!(req.data.addr, 0x900);
    assert_eq!(req.status.addr, 0xA00);
}

#[test]
fn virtio_disk_transfer_kinds() {
    let desc = VirtqDesc { addr: 0x4000, len: 512, flags: 0, next: 0 };
    let mut req = BlockRequest { head_idx: 0, request_type: 1, disk_offset: 0, data: desc, status: desc };
    assert_eq!(req.disk_transfer(), DiskTransfer::ToDisk { addr: 0x4000, len: 512 });
    req.request_type = 0;
    assert_eq!(req.disk_transfer(), DiskTransfer::FromDisk { len: 512 });
    req.request_type = 4;
    assert_eq!(req.disk_transfer(), DiskTransfer::Nothing);
}

use vmm_core::memory::{GuestMemory, MemoryError, PagingError};
use vmm_core::uart::{Uart, COM1_PORT};

fn memory(size: u64) -> GuestMemory {
    GuestMemory::new(0, size, vec![0u8; size as usize], 0).unwrap()
}

#[test]
fn uart_buffers_com1_bytes() {
    let mut uart = Uart::new();
    assert!(uart.write(COM1_PORT, b'O').is_none());
    assert!(uart.write(COM1_PORT, b'K').is_none());
    assert_eq!(uart.get_buffer(), b"OK");
}

#[test]
fn uart_ignores_other_ports() {
    let mut uart = Uart::default();
    assert!(uart.write(0x3F9, b'X').is_none());
    assert!(uart.write(0x2F8, b'\n').is_none());
    assert_eq!(uart.get_buffer(), b"");
}

#[test]
fn uart_newline_flushes_line() {
    let mut uart = Uart::new();
    uart.write(COM1_PORT, b'h');
    uart.write(COM1_PORT, b'i');
    let text = uart.write(COM1_PORT, b'\n');
    assert_eq!(text.as_deref(), Some("hi\n"));
    assert_eq!(uart.get_buffer(), b"");
}

#[test]
fn uart_flush_drops_invalid_utf8() {
    let mut uart = Uart::new();
    uart.write(COM1_PORT, 0xFF);
    uart.write(COM1_PORT, 0xFE);
    assert_eq!(uart.flush(), None);
    assert_eq!(uart.get_buffer(), b"");
    assert_eq!(uart.flush(), None);
}

#[test]
fn uart_flush_decodes_multibyte_text() {
    let mut uart = Uart::new();
    for b in "é".bytes() {
        uart.write(COM1_PORT, b);
    }
    assert_eq!(uart.flush().as_deref(), Some("é"));
}

#[test]
fn memory_write_then_read() {
    let mut mem = memory(4096);
    mem.write_bytes(100, &[1, 2, 3, 4]).unwrap();
    let mut buf = [0u8; 6];
    mem.read_bytes(99, &mut buf).unwrap();
    assert_eq!(buf, [0, 1, 2, 3, 4, 0]);
    assert_eq!(mem.size(), 4096);
    assert_eq!(mem.gpa(), 0);
}

#[test]
fn memory_bounds_are_checked() {
    let mut mem = memory(4096);
    assert_eq!(mem.write_bytes(4093, &[1, 2, 3, 4]), Err(MemoryError::WriteOutOfBounds));
    assert_eq!(mem.write_bytes(u64::MAX, &[1]), Err(MemoryError::WriteOutOfBounds));
    let mut buf = [7u8; 2];
    assert_eq!(mem.read_bytes(4095, &mut buf), Err(MemoryError::ReadOutOfBounds));
    assert_eq!(buf, [7, 7]);
    mem.write_bytes(4092, &[1, 2, 3, 4]).unwrap();
    mem.read_bytes(4094, &mut buf).unwrap();
    assert_eq!(buf, [3, 4]);
}

#[test]
fn memory_uses_host_offset() {
    let mut host = vec![0u8; 32];
    host[8] = 0xAB;
    let mut mem = GuestMemory::new(0x1000, 16, host, 8).unwrap();
    let mut buf = [0u8; 1];
    mem.read_bytes(0, &mut buf).unwrap();
    assert_eq!(buf, [0xAB]);
    assert_eq!(mem.gpa(), 0x1000);
    assert_eq!(mem.write_bytes(15, &[1, 2]), Err(MemoryError::WriteOutOfBounds));
    assert!(GuestMemory::new(0, 16, vec![0u8; 20], 8).is_err());
    assert!(matches!(GuestMemory::new(0, 16, vec![0u8; 24], 9), Err(MemoryError::HostBufferTooSmall)));
}

#[test]
fn memory_zero_fill() {
    let mut mem = memory(64);
    mem.write_bytes(0, &[9u8; 64]).unwrap();
    mem.zero_fill(10, 5).unwrap();
    let mut buf = [1u8; 7];
    mem.read_bytes(9, &mut buf).unwrap();
    assert_eq!(buf, [9, 0, 0, 0, 0, 0, 9]);
    assert_eq!(mem.zero_fill(60, 5), Err(MemoryError::WriteOutOfBounds));
}

fn read_u64(mem: &GuestMemory, offset: u64) -> u64 {
    let mut buf = [0u8; 8];
    mem.read_bytes(offset, &mut buf).unwrap();
    u64::from_le_bytes(buf)
}

#[test]
fn identity_paging_tables() {
    let mut mem = memory(2 * 1024 * 1024);
    assert_eq!(mem.setup_identity_paging(), Ok(0x10000));
    assert_eq!(read_u64(&mem, 0x10000), 0x11003);
    assert_eq!(read_u64(&mem, 0x11000), 0x12003);
    assert_eq!(read_u64(&mem, 0x12000), 0x13003);
    assert_eq!(read_u64(&mem, 0x13000), 0x3);
    assert_eq!(read_u64(&mem, 0x13008), 0x1003);
    assert_eq!(read_u64(&mem, 0x13000 + 511 * 8), 511 * 0x1000 + 3);
    assert_eq!(read_u64(&mem, 0x10008), 0);
}

#[test]
fn identity_paging_needs_room_for_tables() {
    let mut mem = memory(0x13FFF);
    assert_eq!(mem.setup_identity_paging(), Err(PagingError::MemoryTooSmall));
    let mut ok = memory(0x14000);
    assert_eq!(ok.setup_identity_paging(), Ok(0x10000));
    assert_eq!(read_u64(&ok, 0x13FF8), 0x1FF003);
}

#[test]
fn identity_paging_at_nonzero_base_points_at_physical_tables() {
    let base = 0x10_0000u64;
    let mut mem = GuestMemory::new(base, 0x14000, vec![0u8; 0x14000], 0).unwrap();
    assert_eq!(mem.setup_identity_paging(), Ok(base + 0x10000));
    assert_eq!(read_u64(&mem, 0x10000), base + 0x11003);
    assert_eq!(read_u64(&mem, 0x11000), base + 0x12003);
    assert_eq!(read_u64(&mem, 0x12000), base + 0x13003);
    assert_eq!(read_u64(&mem, 0x13000), 0x3);
    assert_eq!(read_u64(&mem, 0x13008), 0x1003);
}

#[test]
fn identity_paging_rejects_overflowing_table_addresses() {
    let base = u64::MAX - 0x13FFF;
    let mut mem = GuestMemory::new(base, 0x14000, vec![5u8; 0x14000], 0).unwrap();
    assert_eq!(mem.setup_identity_paging(), Err(PagingError::AddressOverflow));
    assert_eq!(read_u64(&mem, 0x10000), 0x0505_0505_0505_0505);
    let mut edge = GuestMemory::new(u64::MAX - 0x14000, 0x14000, vec![0u8; 0x14000], 0).unwrap();
    assert_eq!(edge.setup_identity_paging(), Ok(u64::MAX - 0x4000));
}

#[test]
fn uart_holds_only_the_current_line() {
    let mut uart = Uart::new();
    let writes = [(COM1_PORT, b'a'), (0x2F8, b'x'), (COM1_PORT, b'\n'), (0x3F9, b'\n'), (COM1_PORT, b'b'), (COM1_PORT, b'c')];
    let mut flushed = Vec::new();
    for (port, byte) in writes {
        if let Some(text) = uart.write(port, byte) {
            flushed.push(text);
        }
    }
    assert_eq!(uart.get_buffer(), b"bc");
    assert_eq!(flushed, vec!["a\n".to_string()]);
}

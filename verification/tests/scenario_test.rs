//! Guest scenarios replayed as the VM exits they produce, checked against
//! the decisions and device models of the library.

use vmm_core::event_loop::{decide_exit, mmio_read_rax, ExitAction, VmExit};
use vmm_core::gdb::{encode_packet, gdb_command, registers_reply, stop_reply, DecodeEvent, GdbCommand, PacketDecoder};
use vmm_core::memory::GuestMemory;
use vmm_core::uart::Uart;
use vmm_core::virtio::{DiskTransfer, VirtioBlock};

fn fail_code(action: ExitAction) -> u32 {
    match action {
        ExitAction::Fail { code } => code,
        other => panic!("expected a failure, got {:?}", other),
    }
}

#[test]
fn test_phase2_hlt_execution() {
    // The guest executes HLT: the loop ends without error.
    assert_eq!(decide_exit(VmExit::Halt, false, false, false), ExitAction::Stop);
}

#[test]
fn test_phase2_ioport_vmexit() {
    // `out dx, al` with no device attached.
    let exit = VmExit::IoPortAccess { port: 0, rax: 0, instruction_byte_count: 1 };
    assert!(
        fail_code(decide_exit(exit, false, false, false)) == 0x80004002_u32,
        "Expected I/O Port VM exit (E_NOINTERFACE)"
    );
}

#[test]
fn test_phase2_vcpu_execution() {
    // Executing unmapped memory: no device, no known instruction length.
    let exit = VmExit::MemoryAccess { gpa: 0xFFFF0, opcode: 0, modrm: 0, instruction_byte_count: 0 };
    match decide_exit(exit, false, false, false) {
        ExitAction::Mmio { device_offset: None, rip_advance: None, .. } => {}
        other => panic!("Expected memory access VM exit, got {:?}", other),
    }
    assert_eq!(vmm_core::event_loop::E_ACCESSDENIED, 0x80070005);
}

#[test]
fn test_phase4_uart_io() {
    // mov dx, 0x3f8; mov al, 'O'; out dx, al; mov al, 'K'; out dx, al; hlt
    let mut uart = Uart::new();
    let exits = [
        VmExit::IoPortAccess { port: 0x3F8, rax: 0x4F, instruction_byte_count: 1 },
        VmExit::IoPortAccess { port: 0x3F8, rax: 0x4B, instruction_byte_count: 1 },
        VmExit::Halt,
    ];
    for exit in exits {
        match decide_exit(exit, true, false, false) {
            ExitAction::SerialOut { port, byte, rip_advance } => {
                assert_eq!(rip_advance, 1);
                assert!(uart.write(port, byte).is_none());
            }
            ExitAction::Stop => break,
            other => panic!("Event loop failed: {:?}", other),
        }
    }
    assert_eq!(uart.get_buffer(), b"OK", "UART buffer did not match expected output");
}

#[test]
fn test_phase7_page_fault_interception() {
    let exit = VmExit::Exception { exception_type: 14, error_code: 0, parameter: 0x400000 };
    assert_eq!(fail_code(decide_exit(exit, false, false, false)), 0x80004005_u32);
}

#[test]
fn test_phase9_ring3_protection() {
    // hlt in ring 3 raises #GP.
    let exit = VmExit::Exception { exception_type: 13, error_code: 0, parameter: 0 };
    assert_eq!(fail_code(decide_exit(exit, false, false, false)), 0x80004005_u32, "Expected E_FAIL for #GP");
}

#[test]
fn test_phase10_cpuid_signature() {
    // mov eax, 0x40000000; cpuid
    let exit = VmExit::Cpuid { rax: 0x40000000, default_rax: 0, default_rbx: 0, default_rcx: 0, default_rdx: 0 };
    match decide_exit(exit, false, false, false) {
        ExitAction::CpuidResult { eax, ebx, ecx, edx, .. } => {
            assert_eq!(eax, 0x40000001, "EAX should contain max supported leaf");
            assert_eq!(ebx, 0x6C6F7349, "EBX should contain 'Isol'");
            assert_eq!(ecx, 0x4D566D75, "ECX should contain 'umVM'");
            assert_eq!(edx, 0x00000000, "EDX should be 0");
        }
        other => panic!("unexpected action {:?}", other),
    }
}

#[test]
fn test_phase10_virtio_mmio_magic() {
    // mov rdi, 0x10001000; mov eax, [rdi]
    let dev = VirtioBlock::new();
    let exit = VmExit::MemoryAccess { gpa: 0x10001000, opcode: 0x8B, modrm: 0x07, instruction_byte_count: 0 };
    match decide_exit(exit, false, true, false) {
        ExitAction::Mmio { device_offset: Some(offset), is_write: false, rip_advance: Some(2) } => {
            let rax = mmio_read_rax(0, dev.read_register(offset));
            assert_eq!(rax, 0x74726976, "VirtIO MMIO magic value mismatch");
        }
        other => panic!("unexpected action {:?}", other),
    }
}

fn put(mem: &mut GuestMemory, offset: u64, bytes: &[u8]) {
    mem.write_bytes(offset, bytes).unwrap();
}

/// Serves the available requests against an in-memory disk image, the way
/// the host serves them against a file.
fn process_queues(dev: &mut VirtioBlock, mem: &mut GuestMemory, disk: &mut Vec<u8>) {
    let avail = match dev.begin_process_queues(mem).unwrap() {
        Some(a) => a,
        None => return,
    };
    while let Some(req) = dev.next_request(mem, avail).unwrap() {
        let at = req.disk_offset as usize;
        let mut data_in = Vec::new();
        match req.disk_transfer() {
            DiskTransfer::ToDisk { addr, len } => {
                let mut data = vec![0u8; len as usize];
                mem.read_bytes(addr, &mut data).unwrap();
                if disk.len() < at + data.len() {
                    disk.resize(at + data.len(), 0);
                }
                disk[at..at + data.len()].copy_from_slice(&data);
            }
            DiskTransfer::FromDisk { len } => {
                let end = disk.len().min(at + len as usize);
                data_in = disk[at.min(end)..end].to_vec();
            }
            DiskTransfer::Nothing => {}
        }
        dev.complete_request(mem, &req, &data_in).unwrap();
    }
}

#[test]
fn test_phase10_virtio_block_rw() {
    let mut disk = vec![0xAAu8; 512];
    let mut mem = GuestMemory::new(0, 2 * 1024 * 1024, vec![0u8; 2 * 1024 * 1024], 0).unwrap();
    // Descriptors 0, 1, 2: read request.
    put(&mut mem, 0x20000, &0x23000u64.to_le_bytes());
    put(&mut mem, 0x20008, &16u32.to_le_bytes());
    put(&mut mem, 0x2000C, &1u16.to_le_bytes());
    put(&mut mem, 0x2000E, &1u16.to_le_bytes());
    put(&mut mem, 0x20010, &0x24000u64.to_le_bytes());
    put(&mut mem, 0x20018, &512u32.to_le_bytes());
    put(&mut mem, 0x2001C, &3u16.to_le_bytes());
    put(&mut mem, 0x2001E, &2u16.to_le_bytes());
    put(&mut mem, 0x20020, &0x25000u64.to_le_bytes());
    put(&mut mem, 0x20028, &1u32.to_le_bytes());
    put(&mut mem, 0x2002C, &2u16.to_le_bytes());
    put(&mut mem, 0x2002E, &0u16.to_le_bytes());
    // Descriptors 3, 4, 5: write request.
    put(&mut mem, 0x20030, &0x26000u64.to_le_bytes());
    put(&mut mem, 0x20038, &16u32.to_le_bytes());
    put(&mut mem, 0x2003C, &1u16.to_le_bytes());
    put(&mut mem, 0x2003E, &4u16.to_le_bytes());
    put(&mut mem, 0x20040, &0x24000u64.to_le_bytes());
    put(&mut mem, 0x20048, &512u32.to_le_bytes());
    put(&mut mem, 0x2004C, &1u16.to_le_bytes());
    put(&mut mem, 0x2004E, &5u16.to_le_bytes());
    put(&mut mem, 0x20050, &0x27000u64.to_le_bytes());
    put(&mut mem, 0x20058, &1u32.to_le_bytes());
    put(&mut mem, 0x2005C, &2u16.to_le_bytes());
    put(&mut mem, 0x2005E, &0u16.to_le_bytes());
    // Available ring holding the read request only.
    put(&mut mem, 0x21000, &0u16.to_le_bytes());
    put(&mut mem, 0x21002, &1u16.to_le_bytes());
    put(&mut mem, 0x21004, &0u16.to_le_bytes());
    // Request headers.
    put(&mut mem, 0x23000, &[0; 16]);
    let mut write_hdr = [0u8; 16];
    write_hdr[0..4].copy_from_slice(&1u32.to_le_bytes());
    put(&mut mem, 0x26000, &write_hdr);

    let mut virtio = VirtioBlock::new();
    virtio.write_register(0x30, 0);
    virtio.write_register(0x80, 0x20000);
    virtio.write_register(0x84, 0);
    virtio.write_register(0x90, 0x21000);
    virtio.write_register(0x94, 0);
    virtio.write_register(0xA0, 0x22000);
    virtio.write_register(0xA4, 0);
    virtio.write_register(0x44, 1);

    // mov rdi, 0x10001050; xor eax, eax; mov [rdi], eax  (notify: read)
    let notify = VmExit::MemoryAccess { gpa: 0x10001050, opcode: 0x89, modrm: 0x07, instruction_byte_count: 0 };
    match decide_exit(notify, false, true, false) {
        ExitAction::Mmio { device_offset: Some(offset), is_write: true, rip_advance: Some(2) } => {
            virtio.write_register(offset, 0);
            process_queues(&mut virtio, &mut mem, &mut disk);
        }
        other => panic!("unexpected action {:?}", other),
    }
    // The guest increments the first data byte and queues the write request.
    let mut byte = [0u8; 1];
    mem.read_bytes(0x24000, &mut byte).unwrap();
    put(&mut mem, 0x24000, &[byte[0] + 1]);
    put(&mut mem, 0x21006, &3u16.to_le_bytes());
    put(&mut mem, 0x21002, &2u16.to_le_bytes());
    match decide_exit(notify, false, true, false) {
        ExitAction::Mmio { device_offset: Some(offset), is_write: true, .. } => {
            virtio.write_register(offset, 0);
            process_queues(&mut virtio, &mut mem, &mut disk);
        }
        other => panic!("unexpected action {:?}", other),
    }
    assert_eq!(disk[0], 0xAB, "VirtIO Block cycle failed: File on host was not updated correctly.");
}

fn decode_one(decoder: &mut PacketDecoder, bytes: &[u8]) -> Vec<u8> {
    for &b in bytes {
        if let DecodeEvent::Packet { packet, .. } = decoder.feed(b) {
            return packet;
        }
    }
    panic!("GDB Client: Failed to read from server");
}

#[test]
fn test_phase11_gdb_stub() {
    // Server and client exchange packets; the guest has RAX = 0x1122334455667788.
    let mut client = PacketDecoder::new();
    let mut server = PacketDecoder::new();
    let regs: Vec<u64> = vec![0x1122334455667788, 0, 0, 0, 0, 0, 0, 0, 0, 0, 0, 0, 0, 0, 0, 0, 0x2000, 0x202];

    // First stop, before execution.
    assert_eq!(decode_one(&mut client, &encode_packet(&stop_reply())), b"S05".to_vec());
    let cmd = decode_one(&mut server, &encode_packet(b"c"));
    assert!(matches!(gdb_command(&cmd), GdbCommand::Resume));

    // Second stop, at the breakpoint.
    assert_eq!(decode_one(&mut client, &encode_packet(&stop_reply())), b"S05".to_vec());
    let cmd = decode_one(&mut server, &encode_packet(b"g"));
    assert!(matches!(gdb_command(&cmd), GdbCommand::ReadRegisters));
    let reply = registers_reply(Some(regs));
    let reg_data = decode_one(&mut client, &encode_packet(&reply));
    assert!(reg_data.starts_with(b"8877665544332211"), "RAX value mismatch in GDB stub");
    let cmd = decode_one(&mut server, &encode_packet(b"c"));
    assert!(matches!(gdb_command(&cmd), GdbCommand::Resume));
}

use vstd::prelude::*;
use crate::virtio::{VIRTIO_MMIO_BASE, VIRTIO_MMIO_SIZE, with_low32};

verus! {

/// HRESULT `E_NOINTERFACE`: a port I/O exit that no device handles.
pub const E_NOINTERFACE: u32 = 0x80004002;
/// HRESULT `E_ACCESSDENIED`: a memory access exit outside any device whose
/// instruction length is unknown.
pub const E_ACCESSDENIED: u32 = 0x80070005;
/// HRESULT `E_FAIL`: a page fault, double fault or general protection fault.
pub const E_FAIL: u32 = 0x80004005;
/// I/O port whose access ends execution.
pub const SHUTDOWN_PORT: u16 = 0x16;
/// First I/O port of the 16550A UART.
pub const UART_PORT_FIRST: u16 = 0x3F8;
/// Last I/O port of the 16550A UART.
pub const UART_PORT_LAST: u16 = 0x3FF;
/// Most VM exits handled before execution is declared stuck.
pub const MAX_EXITS: u32 = 10000;
/// CPUID leaf that reports the hypervisor signature.
pub const HYPERVISOR_LEAF: u32 = 0x40000000;
/// Largest hypervisor CPUID leaf reported.
pub const HYPERVISOR_MAX_LEAF: u64 = 0x40000001;
/// "Isol", the first four bytes of the hypervisor signature.
pub const SIGNATURE_EBX: u64 = 0x6C6F7349;
/// "umVM", the last four bytes of the hypervisor signature.
pub const SIGNATURE_ECX: u64 = 0x4D566D75;
/// ECX bit of CPUID leaf 1 that reports a hypervisor.
pub const HYPERVISOR_PRESENT_BIT: u64 = 0x8000_0000;
/// Length in bytes of the CPUID instruction (`0F A2`).
pub const CPUID_INSTRUCTION_LENGTH: u64 = 2;

/// Why a virtual processor stopped running, as far as the exit handling
/// reads it.
#[derive(Debug, Clone, Copy, PartialEq, Eq, Structural)]
pub enum VmExit {
    /// The guest executed HLT.
    Halt,
    /// Port I/O.
    IoPortAccess { port: u16, rax: u64, instruction_byte_count: u8 },
    /// A memory access outside mapped memory; `opcode` and `modrm` are the
    /// first two instruction bytes.
    MemoryAccess { gpa: u64, opcode: u8, modrm: u8, instruction_byte_count: u8 },
    /// A hardware exception.
    Exception { exception_type: u8, error_code: u32, parameter: u64 },
    /// CPUID, with the requested leaf in `rax` and the default results.
    Cpuid { rax: u64, default_rax: u64, default_rbx: u64, default_rcx: u64, default_rdx: u64 },
    /// Any other exit reason.
    Other { reason: i32 },
}

/// Why execution cannot go on at all.
#[derive(Debug, Clone, Copy, PartialEq, Eq, Structural)]
pub enum AbortReason {
    /// A debug or breakpoint exception with no debugger attached.
    BreakpointWithoutDebugger,
    /// An exception that is neither a debug trap nor a fault to report.
    UnhandledException { exception_type: u8, error_code: u32, parameter: u64 },
    /// An exit reason that is not handled.
    UnhandledExit { reason: i32 },
}

/// What the host does about one VM exit.
#[allow(inconsistent_fields)]
#[derive(Debug, Clone, Copy, PartialEq, Eq, Structural)]
pub enum ExitAction {
    /// Leave the run loop successfully.
    Stop,
    /// Leave the run loop with HRESULT `code`.
    Fail { code: u32 },
    /// Execution cannot continue.
    Abort { reason: AbortReason },
    /// Hand `byte` to the UART as a write to `port`, then advance RIP by
    /// `rip_advance`.
    SerialOut { port: u16, byte: u8, rip_advance: u64 },
    /// A memory access: when `device_offset` is set, it goes to that VirtIO
    /// register, as a write (from EAX) when `is_write`, else as a read (into
    /// EAX). Then RIP advances by `rip_advance`, or, when it is `None`, the
    /// loop fails with `E_ACCESSDENIED`.
    Mmio { device_offset: Option<u64>, is_write: bool, rip_advance: Option<u64> },
    /// Stop in the debugger; afterwards step over the `int3` byte when
    /// `skip_breakpoint`.
    Debug { skip_breakpoint: bool },
    /// Set RAX, RBX, RCX, RDX to these values and advance RIP by
    /// `rip_advance`, past the CPUID instruction.
    CpuidResult { eax: u64, ebx: u64, ecx: u64, edx: u64, rip_advance: u64 },
}

/// The guest physical address lies in the VirtIO MMIO window.
pub open spec fn in_virtio_window(gpa: u64) -> bool {
    VIRTIO_MMIO_BASE <= gpa < VIRTIO_MMIO_BASE + VIRTIO_MMIO_SIZE
}

/// Length of the faulting memory access instruction, when it can be known:
/// `mov eax,[rdi]` and `mov [rdi],eax` are 2 bytes, else the length the
/// hypervisor reports, else 1 byte inside the VirtIO window.
pub open spec fn mmio_instruction_length(gpa: u64, opcode: u8, modrm: u8, count: u8) -> Option<u64> {
    if (opcode == 0x8B || opcode == 0x89) && modrm == 0x07 {
        Some(2)
    } else if count > 0 {
        Some(count as u64)
    } else if in_virtio_window(gpa) {
        Some(1)
    } else {
        None
    }
}

/// The four CPUID results for leaf `rax as u32`: the hypervisor signature
/// leaf reports "IsolumVM", leaf 1 gets the hypervisor-present bit, and every
/// other leaf keeps the defaults.
pub open spec fn cpuid_result(rax: u64, d_rax: u64, d_rbx: u64, d_rcx: u64, d_rdx: u64) -> (u64, u64, u64, u64) {
    let leaf = rax as u32;
    if leaf == HYPERVISOR_LEAF {
        (HYPERVISOR_MAX_LEAF, SIGNATURE_EBX, SIGNATURE_ECX, 0)
    } else if leaf == 1 {
        (d_rax, d_rbx, d_rcx | HYPERVISOR_PRESENT_BIT, d_rdx)
    } else {
        (d_rax, d_rbx, d_rcx, d_rdx)
    }
}

/// The action for `exit`, given which of the UART, the VirtIO block device
/// and the debugger are attached.
pub open spec fn exit_action(exit: VmExit, uart: bool, virtio: bool, gdb: bool) -> ExitAction {
    match exit {
        VmExit::Halt => ExitAction::Stop,
        VmExit::IoPortAccess { port, rax, instruction_byte_count } => {
            if port == SHUTDOWN_PORT {
                ExitAction::Stop
            } else if uart && UART_PORT_FIRST <= port <= UART_PORT_LAST {
                ExitAction::SerialOut {
                    port,
                    byte: (rax % 256) as u8,
                    rip_advance: if instruction_byte_count > 0 { instruction_byte_count as u64 } else { 1 },
                }
            } else {
                ExitAction::Fail { code: E_NOINTERFACE }
            }
        },
        VmExit::MemoryAccess { gpa, opcode, modrm, instruction_byte_count } => ExitAction::Mmio {
            device_offset: if in_virtio_window(gpa) && virtio { Some((gpa - VIRTIO_MMIO_BASE) as u64) } else { None },
            is_write: opcode == 0x89,
            rip_advance: mmio_instruction_length(gpa, opcode, modrm, instruction_byte_count),
        },
        VmExit::Exception { exception_type, error_code, parameter } => {
            if exception_type == 1 || exception_type == 3 {
                if gdb {
                    ExitAction::Debug { skip_breakpoint: exception_type == 3 }
                } else {
                    ExitAction::Abort { reason: AbortReason::BreakpointWithoutDebugger }
                }
            } else if exception_type == 14 || exception_type == 8 || exception_type == 13 {
                ExitAction::Fail { code: E_FAIL }
            } else {
                ExitAction::Abort {
                    reason: AbortReason::UnhandledException { exception_type, error_code, parameter },
                }
            }
        },
        VmExit::Cpuid { rax, default_rax, default_rbx, default_rcx, default_rdx } => {
            let (eax, ebx, ecx, edx) = cpuid_result(rax, default_rax, default_rbx, default_rcx, default_rdx);
            ExitAction::CpuidResult { eax, ebx, ecx, edx, rip_advance: CPUID_INSTRUCTION_LENGTH }
        },
        VmExit::Other { reason } => ExitAction::Abort { reason: AbortReason::UnhandledExit { reason } },
    }
}

/// The CPUID results for a CPUID exit.
pub fn emulate_cpuid(rax: u64, d_rax: u64, d_rbx: u64, d_rcx: u64, d_rdx: u64) -> (r: (u64, u64, u64, u64))
    ensures
        r == cpuid_result(rax, d_rax, d_rbx, d_rcx, d_rdx),
{
    let leaf = rax as u32;
    if leaf == HYPERVISOR_LEAF {
        (HYPERVISOR_MAX_LEAF, SIGNATURE_EBX, SIGNATURE_ECX, 0)
    } else if leaf == 1 {
        (d_rax, d_rbx, d_rcx | HYPERVISOR_PRESENT_BIT, d_rdx)
    } else {
        (d_rax, d_rbx, d_rcx, d_rdx)
    }
}

/// Decides what to do about a VM exit.
pub fn decide_exit(exit: VmExit, uart: bool, virtio: bool, gdb: bool) -> (action: ExitAction)
    ensures
        action == exit_action(exit, uart, virtio, gdb),
{
    match exit {
        VmExit::Halt => ExitAction::Stop,
        VmExit::IoPortAccess { port, rax, instruction_byte_count } => {
            if port == SHUTDOWN_PORT {
                ExitAction::Stop
            } else if uart && UART_PORT_FIRST <= port && port <= UART_PORT_LAST {
                let rip_advance = if instruction_byte_count > 0 { instruction_byte_count as u64 } else { 1 };
                ExitAction::SerialOut { port, byte: (rax % 256) as u8, rip_advance }
            } else {
                ExitAction::Fail { code: E_NOINTERFACE }
            }
        },
        VmExit::MemoryAccess { gpa, opcode, modrm, instruction_byte_count } => {
            let in_window = VIRTIO_MMIO_BASE <= gpa && gpa < VIRTIO_MMIO_BASE + VIRTIO_MMIO_SIZE;
            let device_offset = if in_window && virtio { Some(gpa - VIRTIO_MMIO_BASE) } else { None };
            let rip_advance = if (opcode == 0x8B || opcode == 0x89) && modrm == 0x07 {
                Some(2)
            } else if instruction_byte_count > 0 {
                Some(instruction_byte_count as u64)
            } else if in_window {
                Some(1)
            } else {
                None
            };
            ExitAction::Mmio { device_offset, is_write: opcode == 0x89, rip_advance }
        },
        VmExit::Exception { exception_type, error_code, parameter } => {
            if exception_type == 1 || exception_type == 3 {
                if gdb {
                    ExitAction::Debug { skip_breakpoint: exception_type == 3 }
                } else {
                    ExitAction::Abort { reason: AbortReason::BreakpointWithoutDebugger }
                }
            } else if exception_type == 14 || exception_type == 8 || exception_type == 13 {
                ExitAction::Fail { code: E_FAIL }
            } else {
                ExitAction::Abort {
                    reason: AbortReason::UnhandledException { exception_type, error_code, parameter },
                }
            }
        },
        VmExit::Cpuid { rax, default_rax, default_rbx, default_rcx, default_rdx } => {
            let (eax, ebx, ecx, edx) = emulate_cpuid(rax, default_rax, default_rbx, default_rcx, default_rdx);
            ExitAction::CpuidResult { eax, ebx, ecx, edx, rip_advance: CPUID_INSTRUCTION_LENGTH }
        },
        VmExit::Other { reason } => ExitAction::Abort { reason: AbortReason::UnhandledExit { reason } },
    }
}

/// RAX after an MMIO read of `value`: the low 32 bits replaced, the high
/// 32 bits kept.
pub fn mmio_read_rax(rax: u64, value: u32) -> (r: u64)
    ensures
        r == with_low32(rax, value),
{
    (rax & 0xFFFF_FFFF_0000_0000) | (value as u64)
}

/// Counts handled VM exits against `MAX_EXITS`.
pub struct ExitBudget {
    exits: u32,
}

impl View for ExitBudget {
    type V = nat;

    closed spec fn view(&self) -> nat {
        self.exits as nat
    }
}

impl ExitBudget {
    /// No exits counted yet.
    pub fn new() -> (b: Self)
        ensures
            b@ == 0,
    {
        ExitBudget { exits: 0 }
    }

    /// Counts one more exit; `false` when that exit would exceed `MAX_EXITS`,
    /// in which case nothing is counted.
    pub fn tick(&mut self) -> (ok: bool)
        ensures
            ok == (old(self)@ < MAX_EXITS),
            ok ==> final(self)@ == old(self)@ + 1,
            !ok ==> final(self)@ == old(self)@,
    {
        if self.exits < MAX_EXITS {
            self.exits = self.exits + 1;
            true
        } else {
            false
        }
    }
}

/// CPUID leaf 1 reports a hypervisor and leaves every other bit of the
/// default results as it was.
pub proof fn cpuid_leaf1_sets_only_hypervisor_bit(rax: u64, d_rax: u64, d_rbx: u64, d_rcx: u64, d_rdx: u64)
    requires
        rax as u32 == 1,
    ensures
        ({
            let (a, b, c, d) = cpuid_result(rax, d_rax, d_rbx, d_rcx, d_rdx);
            &&& a == d_rax && b == d_rbx && d == d_rdx
            &&& c & HYPERVISOR_PRESENT_BIT != 0
            &&& c & !HYPERVISOR_PRESENT_BIT == d_rcx & !HYPERVISOR_PRESENT_BIT
        }),
{
    assert((d_rcx | 0x8000_0000u64) & 0x8000_0000u64 != 0) by (bit_vector);
    assert((d_rcx | 0x8000_0000u64) & !0x8000_0000u64 == d_rcx & !0x8000_0000u64) by (bit_vector);
}

/// Every port of the COM1 UART, 0x3F8 to 0x3FF, goes to the UART when it is
/// attached: the low byte of RAX is handed over and RIP advances by the
/// instruction length (1 byte when the hypervisor does not report one).
pub proof fn uart_ports_go_to_uart(port: u16, rax: u64, count: u8, virtio: bool, gdb: bool)
    requires
        0x3F8 <= port <= 0x3FF,
    ensures
        exit_action(VmExit::IoPortAccess { port, rax, instruction_byte_count: count }, true, virtio, gdb)
            == (ExitAction::SerialOut {
                port,
                byte: (rax % 256) as u8,
                rip_advance: if count > 0 { count as u64 } else { 1 },
            }),
{
}

/// CPUID answers the hypervisor signature ("IsolumVM", highest leaf
/// 0x40000001) exactly for leaf 0x40000000 (the low 32 bits of RAX), sets
/// only the hypervisor-present bit for leaf 1, and leaves every other leaf's
/// default results as they are.
pub proof fn cpuid_changes_only_two_leaves(rax: u64, d_rax: u64, d_rbx: u64, d_rcx: u64, d_rdx: u64)
    ensures
        rax % 0x1_0000_0000 == 0x4000_0000 ==> cpuid_result(rax, d_rax, d_rbx, d_rcx, d_rdx)
            == (0x4000_0001u64, 0x6C6F_7349u64, 0x4D56_6D75u64, 0u64),
        rax % 0x1_0000_0000 == 1 ==> cpuid_result(rax, d_rax, d_rbx, d_rcx, d_rdx)
            == (d_rax, d_rbx, d_rcx | 0x8000_0000, d_rdx),
        rax % 0x1_0000_0000 != 0x4000_0000 && rax % 0x1_0000_0000 != 1
            ==> cpuid_result(rax, d_rax, d_rbx, d_rcx, d_rdx) == (d_rax, d_rbx, d_rcx, d_rdx),
{
    assert(rax as u32 == rax % 0x1_0000_0000) by (bit_vector);
}

/// A CPUID exit is answered with the emulated results whatever devices are
/// attached, and RIP then moves past the 2-byte CPUID instruction.
pub proof fn cpuid_exit_answers_emulated_leaf(rax: u64, d_rax: u64, d_rbx: u64, d_rcx: u64, d_rdx: u64, uart: bool, virtio: bool, gdb: bool)
    ensures
        ({
            let (a, b, c, d) = cpuid_result(rax, d_rax, d_rbx, d_rcx, d_rdx);
            exit_action(VmExit::Cpuid { rax, default_rax: d_rax, default_rbx: d_rbx, default_rcx: d_rcx, default_rdx: d_rdx },
                uart, virtio, gdb) == (ExitAction::CpuidResult { eax: a, ebx: b, ecx: c, edx: d, rip_advance: 2 })
        }),
{
}

} // verus!

use vstd::prelude::*;

verus! {

/// The vCPU registers that the monitor reads or writes.
#[derive(Debug, Clone, Copy, PartialEq, Eq, Structural)]
pub enum RegisterName {
    Rax, Rbx, Rcx, Rdx, Rsi, Rdi, Rbp, Rsp,
    R8, R9, R10, R11, R12, R13, R14, R15,
    Rip, Rflags,
    Cr0, Cr3, Cr4, Efer,
    Cs, Ds, Es, Fs, Gs, Ss, Tr, Ldtr,
    Gdtr, Idtr,
    Star, Lstar, Sfmask,
    PendingInterruption,
}

/// A segment register's contents.
#[derive(Debug, Clone, Copy, PartialEq, Eq, Structural)]
pub struct SegmentValue {
    pub base: u64,
    pub limit: u32,
    pub selector: u16,
    pub attributes: u16,
}

/// A descriptor table register's contents.
#[derive(Debug, Clone, Copy, PartialEq, Eq, Structural)]
pub struct TableValue {
    pub base: u64,
    pub limit: u16,
}

/// A value to write to a register.
#[derive(Debug, Clone, Copy, PartialEq, Eq, Structural)]
pub enum RegisterValue {
    Reg64(u64),
    Segment(SegmentValue),
    Table(TableValue),
}

/// A flat segment with base 0.
pub open spec fn flat_segment(limit: u32, selector: u16, attributes: u16) -> RegisterValue {
    RegisterValue::Segment(SegmentValue { base: 0, limit, selector, attributes })
}

/// Real-mode start state: RIP at `entry_point`, RFLAGS with only the
/// reserved bit 1, and a 64 KiB code segment at 0 (present, execute/read,
/// accessed).
pub open spec fn real_mode_spec(entry_point: u64) -> Seq<(RegisterName, RegisterValue)> {
    seq![
        (RegisterName::Rip, RegisterValue::Reg64(entry_point)),
        (RegisterName::Rflags, RegisterValue::Reg64(0x02)),
        (RegisterName::Cs, flat_segment(0xFFFF, 0, 0x009B)),
    ]
}

/// Long-mode start state: CR4.PAE, CR3 at the PML4 table, EFER.LME|LMA,
/// CR0.PG|NE|ET|PE; a 64-bit code segment (selector 0x08), flat data
/// segments (selector 0x10), a busy TSS (selector 0x18) and an LDT, 64 KiB
/// GDT and IDT at 0, RFLAGS with interrupts enabled, and RIP at the entry
/// point.
pub open spec fn long_mode_spec(entry_point: u64, pml4_addr: u64) -> Seq<(RegisterName, RegisterValue)> {
    seq![
        (RegisterName::Cr4, RegisterValue::Reg64(0x20)),
        (RegisterName::Cr3, RegisterValue::Reg64(pml4_addr)),
        (RegisterName::Efer, RegisterValue::Reg64(0x500)),
        (RegisterName::Cr0, RegisterValue::Reg64(0x80000031)),
        (RegisterName::Cs, flat_segment(0xFFFFFFFF, 0x08, 0xA09B)),
        (RegisterName::Ds, flat_segment(0xFFFFFFFF, 0x10, 0xC093)),
        (RegisterName::Es, flat_segment(0xFFFFFFFF, 0x10, 0xC093)),
        (RegisterName::Ss, flat_segment(0xFFFFFFFF, 0x10, 0xC093)),
        (RegisterName::Fs, flat_segment(0xFFFFFFFF, 0x10, 0xC093)),
        (RegisterName::Gs, flat_segment(0xFFFFFFFF, 0x10, 0xC093)),
        (RegisterName::Tr, flat_segment(0xFFFF, 0x18, 0x008B)),
        (RegisterName::Ldtr, flat_segment(0xFFFF, 0x00, 0x0082)),
        (RegisterName::Gdtr, RegisterValue::Table(TableValue { base: 0, limit: 0xFFFF })),
        (RegisterName::Idtr, RegisterValue::Table(TableValue { base: 0, limit: 0xFFFF })),
        (RegisterName::Rflags, RegisterValue::Reg64(0x202)),
        (RegisterName::Rip, RegisterValue::Reg64(entry_point)),
    ]
}

/// Syscall setup: EFER with SCE added, STAR with kernel CS 0x08 and sysret
/// CS 0x10, LSTAR at the handler, and SFMASK clearing IF.
pub open spec fn syscall_spec(efer: u64, handler_addr: u64) -> Seq<(RegisterName, RegisterValue)> {
    seq![
        (RegisterName::Efer, RegisterValue::Reg64(efer | 1)),
        (RegisterName::Star, RegisterValue::Reg64(0x0010000800000000)),
        (RegisterName::Lstar, RegisterValue::Reg64(handler_addr)),
        (RegisterName::Sfmask, RegisterValue::Reg64(0x0200)),
    ]
}

/// The registers in the order of the GDB `g` reply: the 16 general purpose
/// registers, RIP, RFLAGS.
pub open spec fn gdb_order_spec() -> Seq<RegisterName> {
    seq![
        RegisterName::Rax, RegisterName::Rbx, RegisterName::Rcx, RegisterName::Rdx,
        RegisterName::Rsi, RegisterName::Rdi, RegisterName::Rbp, RegisterName::Rsp,
        RegisterName::R8, RegisterName::R9, RegisterName::R10, RegisterName::R11,
        RegisterName::R12, RegisterName::R13, RegisterName::R14, RegisterName::R15,
        RegisterName::Rip, RegisterName::Rflags,
    ]
}

fn flat_segment_value(limit: u32, selector: u16, attributes: u16) -> (v: RegisterValue)
    ensures
        v == flat_segment(limit, selector, attributes),
{
    RegisterValue::Segment(SegmentValue { base: 0, limit, selector, attributes })
}

/// Registers to set for real-mode execution from `entry_point`.
pub fn real_mode_state(entry_point: u64) -> (regs: Vec<(RegisterName, RegisterValue)>)
    ensures
        regs@ == real_mode_spec(entry_point),
{
    let regs = vec![
        (RegisterName::Rip, RegisterValue::Reg64(entry_point)),
        (RegisterName::Rflags, RegisterValue::Reg64(0x02)),
        (RegisterName::Cs, flat_segment_value(0xFFFF, 0, 0x009B)),
    ];
    assert(regs@ =~= real_mode_spec(entry_point));
    regs
}

/// Registers to set for 64-bit long-mode execution from `entry_point` with
/// the PML4 table at `pml4_addr`.
pub fn long_mode_state(entry_point: u64, pml4_addr: u64) -> (regs: Vec<(RegisterName, RegisterValue)>)
    ensures
        regs@ == long_mode_spec(entry_point, pml4_addr),
{
    let mut regs: Vec<(RegisterName, RegisterValue)> = Vec::with_capacity(16);
    regs.push((RegisterName::Cr4, RegisterValue::Reg64(0x20)));
    regs.push((RegisterName::Cr3, RegisterValue::Reg64(pml4_addr)));
    regs.push((RegisterName::Efer, RegisterValue::Reg64(0x500)));
    regs.push((RegisterName::Cr0, RegisterValue::Reg64(0x80000031)));
    regs.push((RegisterName::Cs, flat_segment_value(0xFFFFFFFF, 0x08, 0xA09B)));
    let data_segments = [RegisterName::Ds, RegisterName::Es, RegisterName::Ss, RegisterName::Fs, RegisterName::Gs];
    let mut i: usize = 0;
    while i < 5
        invariant
            i <= 5,
            data_segments@ == seq![RegisterName::Ds, RegisterName::Es, RegisterName::Ss, RegisterName::Fs, RegisterName::Gs],
            regs@ == long_mode_spec(entry_point, pml4_addr).take(5 + i),
        decreases 5 - i,
    {
        regs.push((data_segments[i], flat_segment_value(0xFFFFFFFF, 0x10, 0xC093)));
        assert(regs@ =~= long_mode_spec(entry_point, pml4_addr).take(5 + i + 1));
        i += 1;
    }
    regs.push((RegisterName::Tr, flat_segment_value(0xFFFF, 0x18, 0x008B)));
    regs.push((RegisterName::Ldtr, flat_segment_value(0xFFFF, 0x00, 0x0082)));
    regs.push((RegisterName::Gdtr, RegisterValue::Table(TableValue { base: 0, limit: 0xFFFF })));
    regs.push((RegisterName::Idtr, RegisterValue::Table(TableValue { base: 0, limit: 0xFFFF })));
    regs.push((RegisterName::Rflags, RegisterValue::Reg64(0x202)));
    regs.push((RegisterName::Rip, RegisterValue::Reg64(entry_point)));
    assert(regs@ =~= long_mode_spec(entry_point, pml4_addr));
    regs
}

/// The pending-interruption register value that injects software interrupt
/// `vector`: pending (bit 0), type 4 = software interrupt (bits 1..3), no
/// error code, instruction length 2 (bits 5..8), vector in bits 16..31.
pub fn software_interrupt(vector: u8) -> (value: u64)
    ensures
        value == 0x49 + vector * 0x10000,
{
    let v = 1u64 | (4u64 << 1u64) | (2u64 << 5u64) | ((vector as u64) << 16u64);
    assert(1u64 | (4u64 << 1u64) | (2u64 << 5u64) | ((vector as u64) << 16u64) == 0x49 + (vector as u64) * 0x10000)
        by (bit_vector);
    v
}

/// Registers to set to enable `syscall`/`sysret` with the handler at
/// `handler_addr`, given the current EFER value.
pub fn syscall_state(efer: u64, handler_addr: u64) -> (regs: Vec<(RegisterName, RegisterValue)>)
    ensures
        regs@ == syscall_spec(efer, handler_addr),
{
    let regs = vec![
        (RegisterName::Efer, RegisterValue::Reg64(efer | 1)),
        (RegisterName::Star, RegisterValue::Reg64(0x0010000800000000)),
        (RegisterName::Lstar, RegisterValue::Reg64(handler_addr)),
        (RegisterName::Sfmask, RegisterValue::Reg64(0x0200)),
    ];
    assert(regs@ =~= syscall_spec(efer, handler_addr));
    regs
}

/// The registers of a GDB `g` reply, in order.
pub fn gdb_register_order() -> (names: Vec<RegisterName>)
    ensures
        names@ == gdb_order_spec(),
{
    let names = vec![
        RegisterName::Rax, RegisterName::Rbx, RegisterName::Rcx, RegisterName::Rdx,
        RegisterName::Rsi, RegisterName::Rdi, RegisterName::Rbp, RegisterName::Rsp,
        RegisterName::R8, RegisterName::R9, RegisterName::R10, RegisterName::R11,
        RegisterName::R12, RegisterName::R13, RegisterName::R14, RegisterName::R15,
        RegisterName::Rip, RegisterName::Rflags,
    ];
    assert(names@ =~= gdb_order_spec());
    names
}

/// The long-mode state turns on protection, paging, PAE, long mode (LME and
/// LMA), a 64-bit code segment (L bit), and starts at the entry point with
/// CR3 at the PML4 table.
pub proof fn long_mode_state_enables_long_mode(entry_point: u64, pml4_addr: u64)
    ensures
        ({
            let s = long_mode_spec(entry_point, pml4_addr);
            &&& s[0] == (RegisterName::Cr4, RegisterValue::Reg64(0x20)) && 0x20u64 & 0x20 != 0
            &&& s[1] == (RegisterName::Cr3, RegisterValue::Reg64(pml4_addr))
            &&& s[2].0 == RegisterName::Efer && 0x500u64 & 0x100 != 0 && 0x500u64 & 0x400 != 0
            &&& s[3].0 == RegisterName::Cr0 && 0x80000031u64 & 0x80000000 != 0 && 0x80000031u64 & 1 != 0
            &&& s[4] matches (RegisterName::Cs, RegisterValue::Segment(cs)) && cs.attributes & 0x2000 != 0
            &&& s[15] == (RegisterName::Rip, RegisterValue::Reg64(entry_point))
        }),
{
    assert(0x20u64 & 0x20 != 0) by (bit_vector);
    assert(0x500u64 & 0x100 != 0 && 0x500u64 & 0x400 != 0) by (bit_vector);
    assert(0x80000031u64 & 0x80000000 != 0 && 0x80000031u64 & 1 != 0) by (bit_vector);
    assert(0xA09Bu16 & 0x2000 != 0) by (bit_vector);
}

} // verus!

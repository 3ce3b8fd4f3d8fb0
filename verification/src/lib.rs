//! Verified core of a small x86_64 virtual machine monitor: guest memory,
//! ELF loading, the emulated UART and VirtIO block devices, vCPU register
//! images, VM-exit dispatch decisions, and the GDB remote protocol codec.
//! The host side (hypervisor calls, sockets, files, printing) lives in app/.

pub mod elf;
pub mod event_loop;
pub mod gdb;
pub mod memory;
pub mod partition;
pub mod uart;
pub mod vcpu;
pub mod virtio;

# vmm-core

A small x86_64 virtual machine monitor for the Windows Hypervisor Platform,
split into a verified core and a thin host program.

- `src/` (verified with Verus): guest physical memory with bounds-checked
  reads and writes and 4-level identity paging; ELF64 segment loading (the
  parser is goblin); the 16550A UART; the VirtIO block device's MMIO
  registers and virtqueue processing; the vCPU register images for real
  mode, long mode, syscalls and interrupt injection; the decision taken for
  every VM exit; the partition configuration; the GDB remote protocol packet
  codec and command handling.
- `app/` (ordinary Rust, Windows only): the WHPX calls, host memory mapping,
  the vCPU run loop that carries out the core's decisions, the GDB TCP
  server, the VirtIO disk file, console output, and `main`.
- `tests/`: tests of the core, including guest scenarios replayed as the VM
  exits they produce.

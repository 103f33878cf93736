# kernel

A small operating-system kernel library written in Verus: its data structures,
protocols, file systems and device-driver logic are executable Rust whose
behaviour is stated in `requires` / `ensures` contracts and proved.

Layout:

- `src/` — the verified library: architecture helpers (page tables, GIC, UART
  ring, x86 context), capabilities, the device tree and PCI, block, network,
  USB, VirtIO, input and display drivers, and the RAM, FAT32 and ext4 file
  systems with the VFS and its message protocol.
- `tests/` — tests of the library on concrete values.
- `app/` — the platform glue around it: global instances, register and port
  I/O, and the loops that wait on devices. Every decision is taken by the
  library; this part performs the reads and writes it asks for.

Laws that relate several functions stand in `src/` as public proof functions
named `law_*`.

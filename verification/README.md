# exokernel

A minimal capability-based exokernel for x86_64. The kernel provides only
capability-based resource protection, physical memory allocation and
mapping, process multiplexing, IPC, and I/O port and IRQ binding; everything
else belongs to user-space library operating systems.

## Layout

- `src/` — the verified library (Verus):
  - `shared/` — types shared by kernel and user space: capabilities and
    rights, error codes, system-call numbers, IPC message buffers.
  - `kernel/` — the capability tables (grant, delegate, revoke, drop), the
    process table and round-robin scheduler, the system calls, IPC
    endpoints, IRQ bindings, the frame allocator, ELF parsing and load
    planning, PCI configuration-space decoding and bus scanning, the PIC
    programming sequence, and the boot-time capabilities of init.
  - `user/` — the library-OS side: decoding of system-call results, a bump
    heap allocator, ELF load planning for child processes.
  - `boot/` — the BIOS loader's computations: disk address packets, console
    text, the E820 loop, VESA mode choice, file read planning.
- `app/` — the machine side, unverified: boot entry, descriptor tables,
  interrupt stubs, page tables, port I/O, the SYSCALL entry and dispatcher,
  raw system calls for user space, BIOS calls.
- `tests/` — tests of the library.

The library never touches hardware or memory outside its own values: each
operation takes the kernel state it works on and answers what to do (which
ports to write, which pages to map, what to copy), and `app/` does it.

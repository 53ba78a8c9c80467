# tomorrow

The logic of a small x86-64 kernel, Tomorrow OS, verified with Verus: the
kernel heap and the physical page allocator, four-level page tables,
processes and the round-robin scheduler, the GDT, TSS and IDT, the system
call setup, the Multiboot2 and ACPI tables, the text console, the shell
and its commands, the ramfs archive, the PS/2 keyboard, and the xHCI/USB
stack down to the keyboard's boot reports.

- `src/` is the library.  Each function states what it returns or changes
  in its `ensures`, over spec functions and views; the `law_*` proof
  functions state what holds across calls.  Where the kernel alternates
  hardware work and decisions (device enumeration, hub and root-port
  walks, PCI scans, waits for events) the decisions are state machines:
  the kernel performs each action and hands the result back.
- `app/` is the kernel around it: the entry point, port and MMIO access,
  the global allocator, the framebuffer, interrupt entry points, and the
  loops that run the state machines against the hardware.
- `tests/` runs the library on concrete values.

`pc-keyboard` decodes scancodes inside the library, behind small trusted
wrappers in `src/keyboard.rs`; `spin` provides the kernel's locks in `app/`.

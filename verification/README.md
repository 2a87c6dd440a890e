# emb_trial

A small x86-64 kernel whose logic is verified with Verus.

- `src/` is the verified library: the VGA text writer (`vga_buffer`), the
  interrupt table layout and scancode decoding (`interrupts`), the task state
  segment's interrupt stack table (`gdt`), and the QEMU exit codes and test
  runner (`lib.rs`).
- `app/` is the hardware side: the global writer mirrored to the text buffer
  at 0xb8000, the serial port, the interrupt controllers and handlers, loading
  the descriptor tables, and the QEMU exit port.
- `tests/` runs the library on concrete screens and inputs.

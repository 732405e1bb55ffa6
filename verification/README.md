# kernel

The verified core of PancakeOS, a small x86_64 hobby kernel.

- `src/` is the verified library: PSF1 font parsing (`psf`), the
  8259 interrupt controllers (`pic8259`), the PS/2 controller's initialisation
  as a state machine and the scancode-set-2 keyboard (`ps2`), the interrupt
  vector table (`interrupts`), framebuffer clearing (`display`) and the heap's
  block and page allocators (`memory::allocator`).
- Hardware access (I/O ports, page tables, the serial port, the boot entry)
  lives in `app/`, which performs the port writes and reads that the library
  computes.
- `tests/` runs the library on concrete values.

//! Verified core of a small x86_64 hobby kernel: PSF1 console fonts, the
//! 8259 interrupt controller, the PS/2 controller and keyboard, the
//! interrupt vector table and the kernel heap's block and page allocators.

pub mod psf;
pub mod memory;
pub mod pic8259;
pub mod ps2;
pub mod interrupts;
pub mod display;

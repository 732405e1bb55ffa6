//! Kernel heap management.

pub mod allocator;

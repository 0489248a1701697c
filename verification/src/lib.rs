//! Kernel runtime core: address types, frame and heap allocation, the text
//! screen, interrupt vectors and the cooperative task executor.

pub mod allocator;
pub mod interrupts;
pub mod memory;
pub mod task;
pub mod vga;

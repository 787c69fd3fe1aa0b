//! Resource-management and concurrency core of a small single-core x86-64 kernel:
//! physical frame allocation, page-range planning, a first-fit free-list heap,
//! a cooperative task executor and the interrupt-to-task scancode bridge.

pub mod frame;
pub mod paging;
pub mod heap;
pub mod queue;
pub mod executor;
pub mod scancode;
pub mod vga;
pub mod interrupts;
pub mod pci;
pub mod acpi;
pub mod keyboard;

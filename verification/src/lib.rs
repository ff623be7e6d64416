//! Runtime core of a cooperative, interrupt-driven kernel: a single-threaded
//! task executor, a bounded lock-free event channel fed from interrupt
//! context, and the boot-time memory plumbing (frame source, page mapper,
//! heap arena) that makes dynamic allocation available to the scheduler.
pub mod allocator;
pub mod executer;
pub mod idt;
pub mod keyboard;
pub mod memory;
pub mod queue;
pub mod task;
pub mod vga;

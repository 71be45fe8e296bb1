//! Process and memory core of a small single-core teaching kernel: page-granular
//! address spaces, a frame pool, a fixed task pool with round-robin scheduling,
//! and the system-call layer that sits on top of them.

pub mod address;
pub mod config;
pub mod page_table;
pub mod frame_allocator;
pub mod memory_set;
pub mod task;
pub mod syscall;
pub mod shared;

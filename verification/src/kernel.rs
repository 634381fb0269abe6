//! The kernel's own state: frames, the retype table, page tables and
//! capability slots.
pub mod frames;
pub mod retyping;
pub mod memory_map;
pub mod bump_allocator;
pub mod exec;
pub mod page_table;
pub mod bootup;
pub mod caps;
pub mod component;
pub mod kptr;

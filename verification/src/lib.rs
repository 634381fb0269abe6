//! Verified core of the Harmony kernel and its userspace API: address and
//! page arithmetic, capability identifiers and tries, syscall argument
//! encoding, the physical-memory retype table, page-table walks and the ELF
//! segment loader.
use vstd::prelude::*;

pub mod addr;
pub mod archive;
pub mod booter;
pub mod bytes;
pub mod display;
pub mod kernel;
pub mod loader;
pub mod ops;
pub mod raw;
pub mod stack_list;
pub mod sync;
pub mod time;
pub mod trie;
pub mod userspace;
pub mod util;

verus! {

} // verus!

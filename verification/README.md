# harmony

The verified core of Harmony, a small capability-based x86_64 kernel, and of
the userspace library its components use. Every function under `src/` carries
a contract that Verus proves.

- `src/addr.rs`, `src/bytes.rs`: virtual and physical addresses, pages, frames,
  page-table indices; little-endian words.
- `src/raw.rs`, `src/ops/`: capability identifiers, error codes and the
  encoding of each syscall into raw arguments, with the decoding laws.
- `src/trie.rs`: the capability trie, an arena of 64-slot nodes.
- `src/kernel/`: the retype table of physical memory, frame allocators, page
  tables and their walks, loading the boot component, capabilities, threads
  and the syscall handler.
- `src/loader.rs`: ELF segments to load, over goblin's parsers.
- `src/userspace/`, `src/booter.rs`, `src/booter/`: capability allocation,
  address spaces managed through page-table capabilities, and loading a
  component from the boot component.
- `src/archive.rs`: finding a file in the initrd, over tar-no-std.
- `src/stack_list.rs`, `src/sync.rs`, `src/time.rs`, `src/display.rs`,
  `src/util.rs`: small supporting structures.
- `app/`: a host program that plans a boot from an initrd image and prints
  what the kernel and the boot component do.
- `tests/`: tests of the library.

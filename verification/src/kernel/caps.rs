//! Capabilities to resources: what a slot of a capability table holds, and
//! the lookup of a capability in a component's table trie.
//!
//! Kernel objects are named by handles: a capability table by its node in
//! the table arena, a thread by its index in the thread list, a page table
//! by the address of its frame.
use vstd::prelude::*;

use super::component::Component;
use super::frames::RawFrame;
use crate::raw::{CapError, CapId};
use crate::trie::{lookup, SlotRef, Trie, TrieEntry, TrieSlot};

verus! {

/// The number of slots in a capability table.
pub const NUM_SLOTS: usize = 64;

/// The level of the page table that a capability designates.
#[derive(Debug, Clone, Copy, PartialEq, Eq, Structural)]
pub struct PageCapFlags(u8);

impl View for PageCapFlags {
    type V = u8;

    closed spec fn view(&self) -> u8 {
        self.0
    }
}

impl PageCapFlags {
    /// Flags for a table of level `level`.
    pub closed spec fn spec_new(level: u8) -> Self {
        PageCapFlags(level)
    }

    /// Flags for a table of level `level`.
    pub fn new(level: u8) -> (r: Self)
        ensures
            r@ == level,
            r == Self::spec_new(level),
    {
        Self(level)
    }

    /// The level of the table.
    pub fn level(&self) -> (r: u8)
        ensures
            r == self@,
    {
        self.0
    }
}

/// A resource was asked for as a variant it is not.
#[derive(Debug)]
pub struct WrongVariant;

/// A slot already holds a resource.
#[derive(Debug)]
pub struct InUse;

/// What a capability slot holds.
#[derive(Debug, Clone, Copy, PartialEq, Eq, Structural)]
pub enum Resource {
    Empty,
    CapEntry(usize),
    Thread(usize),
    PageTable { table: RawFrame, flags: PageCapFlags },
    HardwareAccess,
    SyncCall { entry: usize, component: Component },
    SyncRet,
    /// The right to retype physical memory.
    MemoryTyping,
}

impl Resource {
    /// Whether the slot holds nothing.
    pub fn is_empty(&self) -> (r: bool)
        ensures
            r == (*self is Empty),
    {
        match self {
            Resource::Empty => true,
            _ => false,
        }
    }

    /// The capability table, if this is one.
    pub fn try_into_cap_entry(self) -> (r: Result<usize, WrongVariant>)
        ensures
            match self {
                Resource::CapEntry(t) => r == Ok::<usize, WrongVariant>(t),
                _ => r is Err,
            },
    {
        match self {
            Resource::CapEntry(entry) => Ok(entry),
            _ => Err(WrongVariant),
        }
    }

    /// The page table and its flags, if this is one.
    pub fn try_into_page_table(self) -> (r: Result<(RawFrame, PageCapFlags), WrongVariant>)
        ensures
            match self {
                Resource::PageTable { table, flags } => r == Ok::<_, WrongVariant>((table, flags)),
                _ => r is Err,
            },
    {
        match self {
            Resource::PageTable { table, flags } => Ok((table, flags)),
            _ => Err(WrongVariant),
        }
    }

    /// Nothing, if the slot is empty.
    pub fn try_into_empty(self) -> (r: Result<(), WrongVariant>)
        ensures
            r is Ok <==> self is Empty,
    {
        match self {
            Resource::Empty => Ok(()),
            _ => Err(WrongVariant),
        }
    }

    /// The thread, if this is one.
    pub fn try_into_thread(self) -> (r: Result<usize, WrongVariant>)
        ensures
            match self {
                Resource::Thread(t) => r == Ok::<usize, WrongVariant>(t),
                _ => r is Err,
            },
    {
        match self {
            Resource::Thread(thread) => Ok(thread),
            _ => Err(WrongVariant),
        }
    }
}

/// A capability slot: the table linked below it and the resource it holds.
#[derive(Debug, Clone, Copy, PartialEq, Eq, Structural)]
pub struct CapSlot {
    pub child: Option<usize>,
    pub resource: Resource,
}

impl CapSlot {
    /// Puts `new` in the slot, failing when the slot is not empty.
    pub fn insert(&mut self, new: Resource) -> (r: Result<(), InUse>)
        ensures
            old(self).resource is Empty ==> r is Ok && *final(self) == (CapSlot {
                child: old(self).child,
                resource: new,
            }),
            !(old(self).resource is Empty) ==> r is Err && *final(self) == *old(self),
    {
        if self.resource.is_empty() {
            self.resource = new;
            Ok(())
        } else {
            Err(InUse)
        }
    }
}

/// The capability tables of the kernel.
pub type CapTables = Trie<64, Resource>;

/// The slot of capability `cap` in the trie rooted at `node`.
pub open spec fn cap_slot(tables: Seq<Seq<TrieSlot<Resource>>>, node: usize, cap: u32) -> Option<
    SlotRef,
> {
    lookup(tables, 64, node as nat, cap as nat)
}

/// The resource of capability `cap` in the trie rooted at `node`.
pub open spec fn cap_resource(tables: Seq<Seq<TrieSlot<Resource>>>, node: usize, cap: u32) -> Result<
    Resource,
    CapError,
> {
    match cap_slot(tables, node, cap) {
        None => Err(CapError::NotFound),
        Some(r) => Ok(tables[r.node as int][r.offset as int].payload),
    }
}

/// The capability table that `cap` designates.
pub open spec fn cap_table_of(tables: Seq<Seq<TrieSlot<Resource>>>, node: usize, cap: u32) -> Result<
    usize,
    CapError,
> {
    match cap_resource(tables, node, cap) {
        Err(e) => Err(e),
        Ok(Resource::CapEntry(t)) => Ok(t),
        Ok(_) => Err(CapError::InvalidArgument),
    }
}

/// The page table that `cap` designates, with its flags.
pub open spec fn page_table_of(tables: Seq<Seq<TrieSlot<Resource>>>, node: usize, cap: u32) -> Result<
    (RawFrame, PageCapFlags),
    CapError,
> {
    match cap_resource(tables, node, cap) {
        Err(e) => Err(e),
        Ok(Resource::PageTable { table, flags }) => Ok((table, flags)),
        Ok(_) => Err(CapError::InvalidArgument),
    }
}

/// The slot of `cap` in the trie rooted at `node`.
pub fn find(tables: &CapTables, node: usize, cap: CapId) -> (r: Result<SlotRef, CapError>)
    requires
        tables.wf(),
        node < tables@.len(),
    ensures
        match cap_slot(tables@, node, cap@) {
            None => r == Err::<SlotRef, CapError>(CapError::NotFound),
            Some(s) => r == Ok::<SlotRef, CapError>(s) && s.node < tables@.len() && s.offset < 64,
        },
{
    match TrieEntry::get(tables, node, cap.get()) {
        Some(s) => Ok(s),
        None => Err(CapError::NotFound),
    }
}

/// The slot of `cap`: its child table and its resource.
pub fn get_capability(tables: &CapTables, node: usize, cap: CapId) -> (r: Result<
    TrieSlot<Resource>,
    CapError,
>)
    requires
        tables.wf(),
        node < tables@.len(),
    ensures
        match cap_slot(tables@, node, cap@) {
            None => r is Err && r->Err_0 == CapError::NotFound,
            Some(s) => r is Ok && r->Ok_0 == tables@[s.node as int][s.offset as int],
        },
{
    let s = find(tables, node, cap)?;
    Ok(*tables.slot(s))
}

/// The capability table that `cap` designates, failing with `NotFound`
/// for a missing slot and `InvalidArgument` for another resource.
pub fn get_cap_table(tables: &CapTables, node: usize, cap: CapId) -> (r: Result<usize, CapError>)
    requires
        tables.wf(),
        node < tables@.len(),
    ensures
        r == cap_table_of(tables@, node, cap@),
{
    let slot = get_capability(tables, node, cap)?;
    match slot.payload.try_into_cap_entry() {
        Ok(t) => Ok(t),
        Err(_) => Err(CapError::InvalidArgument),
    }
}

/// The page table that `cap` designates, failing with `NotFound` for a
/// missing slot and `InvalidArgument` for another resource.
pub fn get_page_table(tables: &CapTables, node: usize, cap: CapId) -> (r: Result<
    (RawFrame, PageCapFlags),
    CapError,
>)
    requires
        tables.wf(),
        node < tables@.len(),
    ensures
        r == page_table_of(tables@, node, cap@),
{
    let slot = get_capability(tables, node, cap)?;
    match slot.payload.try_into_page_table() {
        Ok(t) => Ok(t),
        Err(_) => Err(CapError::InvalidArgument),
    }
}

} // verus!

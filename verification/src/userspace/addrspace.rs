//! Userspace management of an address space through page-table
//! capabilities.
//!
//! The address space remembers which entry of which table it has set, and
//! to what. Mapping or unmapping a page decides, from that record, which
//! tables to link, which entry to set or clear and what the record becomes;
//! the page-table syscalls that carry those actions out are made by the
//! caller, in order.
use vstd::prelude::*;

use super::structures::PageTable;
use crate::addr::{table_index, Frame, Page, PageTableLevel, PageTableOffset};
use crate::ops::paging::PermissionMask;

verus! {

/// One of two values.
#[derive(Copy, Clone, Debug, PartialEq, Eq, Structural)]
pub enum Either<T, U> {
    First(T),
    Second(U),
}

/// An entry that the address space has set: entry `offset` of table
/// `from` leads to a table or maps a frame.
#[derive(Copy, Clone, Debug, PartialEq, Eq, Structural)]
pub struct Mapping {
    pub from: PageTable,
    pub offset: PageTableOffset,
    pub to: Either<PageTable, Frame>,
}

/// Makes page tables for new levels of the address space.
pub trait PageTableAllocator {
    /// A new table of level `level`.
    fn allocate_table(&mut self, level: PageTableLevel) -> PageTable;
}

/// The record of set entries, in a `heapless::Vec` of 32 places.
#[verifier::external_body]
pub struct Mappings {
    inner: heapless::Vec<Mapping, 32>,
}

/// The entries recorded, in the order they were set.
pub uninterp spec fn mapping_items(m: Mappings) -> Seq<Mapping>;

impl Mappings {
    /// An empty record, from `heapless::Vec::new`.
    #[verifier::external_body]
    pub fn new() -> (r: Self)
        ensures
            mapping_items(r) == Seq::<Mapping>::empty(),
    {
        Self { inner: heapless::Vec::new() }
    }

    /// The number of entries, from `heapless::Vec::len`.
    #[verifier::external_body]
    pub fn len(&self) -> (r: usize)
        ensures
            r == mapping_items(*self).len(),
    {
        self.inner.len()
    }

    /// The entry at `index`, read through the slice the vector dereferences
    /// to.
    #[verifier::external_body]
    pub fn get(&self, index: usize) -> (r: Mapping)
        requires
            index < mapping_items(*self).len(),
        ensures
            r == mapping_items(*self)[index as int],
    {
        self.inner[index]
    }

    /// Appends `m` with `heapless::Vec::push`, which refuses it when the 32
    /// places are taken.
    #[verifier::external_body]
    pub fn push(&mut self, m: Mapping) -> (r: Result<(), Mapping>)
        ensures
            mapping_items(*old(self)).len() < 32 ==> r is Ok,
            mapping_items(*old(self)).len() < 32 ==> mapping_items(*final(self)) == mapping_items(*old(self)).push(m),
            mapping_items(*old(self)).len() >= 32 ==> r is Err,
            mapping_items(*old(self)).len() >= 32 ==> mapping_items(*final(self)) == mapping_items(*old(self)),
    {
        self.inner.push(m)
    }

    /// Removes the entry at `index`, shifting the later ones down, with
    /// `heapless::Vec::remove`.
    #[verifier::external_body]
    pub fn remove(&mut self, index: usize) -> (r: Mapping)
        requires
            index < mapping_items(*old(self)).len(),
        ensures
            r == mapping_items(*old(self))[index as int],
            mapping_items(*final(self)) == mapping_items(*old(self)).remove(index as int),
    {
        self.inner.remove(index)
    }
}

/// A page-table syscall that an address-space change asks for.
#[derive(Copy, Clone, Debug, PartialEq, Eq, Structural)]
pub enum PagingAction {
    /// Link table `next` into entry `offset` of `table`, with rights `mask`.
    Link { table: PageTable, next: PageTable, offset: PageTableOffset, mask: PermissionMask },
    /// Map `frame` into entry `offset` of `table`, with rights `mask`.
    MapFrame { table: PageTable, offset: PageTableOffset, frame: Frame, mask: PermissionMask },
    /// Clear entry `offset` of `table`.
    Unmap { table: PageTable, offset: PageTableOffset },
}

/// The entry that an action records.
pub open spec fn action_mapping(a: PagingAction) -> Mapping {
    match a {
        PagingAction::Link { table, next, offset, .. } => Mapping {
            from: table,
            offset,
            to: Either::First(next),
        },
        PagingAction::MapFrame { table, offset, frame, .. } => Mapping {
            from: table,
            offset,
            to: Either::Second(frame),
        },
        PagingAction::Unmap { table, offset } => Mapping {
            from: table,
            offset,
            to: Either::First(table),
        },
    }
}

/// The index of the first entry of `ms` at or after `i` that records entry
/// `offset` of `table`.
pub open spec fn find_from(ms: Seq<Mapping>, table: PageTable, offset: usize, i: nat) -> Option<nat>
    decreases ms.len() - i,
{
    if i >= ms.len() {
        None
    } else if ms[i as int].from == table && ms[i as int].offset@ == offset {
        Some(i)
    } else {
        find_from(ms, table, offset, i + 1)
    }
}

/// An index that `find_from` gives lies between its start and the end.
pub proof fn lemma_find_from_bound(ms: Seq<Mapping>, table: PageTable, offset: usize, i: nat)
    ensures
        find_from(ms, table, offset, i) matches Some(k) ==> i <= k < ms.len(),
    decreases ms.len() - i,
{
    if i < ms.len() && !(ms[i as int].from == table && ms[i as int].offset@ == offset) {
        lemma_find_from_bound(ms, table, offset, i + 1);
    }
}

/// What mapping the page at `va` to `frame` does from `table` at `level`
/// down, given the record `ms`: `actions` are the syscalls asked for, in
/// order, and `err` the frame already mapped there, if any. A level whose
/// entry is not recorded as leading to a table gets a new table, linked
/// with rights `parent`; the lowest entry is mapped with rights `pm` unless
/// it is recorded as mapping a frame.
pub open spec fn map_walk(
    ms: Seq<Mapping>,
    table: PageTable,
    va: u64,
    level: u8,
    frame: Frame,
    pm: PermissionMask,
    parent: PermissionMask,
    actions: Seq<PagingAction>,
    err: Option<Frame>,
) -> bool
    decreases level,
{
    let off = table_index(va, level) as usize;
    let found = find_from(ms, table, off, 0);
    if level <= 1 {
        match found {
            Some(i) if ms[i as int].to is Second => err == Some(ms[i as int].to->Second_0)
                && actions.len() == 0,
            _ => {
                &&& err is None
                &&& actions.len() == 1
                &&& actions[0] matches PagingAction::MapFrame { table: t, offset, frame: f, mask }
                &&& t == table && offset@ == off && f == frame && mask == pm
            },
        }
    } else {
        match found {
            Some(i) if ms[i as int].to is First => map_walk(
                ms,
                ms[i as int].to->First_0,
                va,
                (level - 1) as u8,
                frame,
                pm,
                parent,
                actions,
                err,
            ),
            _ => {
                &&& actions.len() >= 1
                &&& actions[0] matches PagingAction::Link { table: t, next, offset, mask }
                &&& t == table && offset@ == off && mask == parent
                &&& map_walk(
                    ms.push(action_mapping(actions[0])),
                    actions[0]->next,
                    va,
                    (level - 1) as u8,
                    frame,
                    pm,
                    parent,
                    actions.skip(1),
                    err,
                )
            },
        }
    }
}

/// The number of levels, from `table` at `level` down, whose entry for `va`
/// the record `ms` has as leading to a table: a mapping of `va` adds at most
/// one entry for each of the other levels.
pub open spec fn recorded_depth(ms: Seq<Mapping>, table: PageTable, va: u64, level: u8) -> nat
    decreases level,
{
    if level <= 1 {
        0
    } else {
        match find_from(ms, table, table_index(va, level) as usize, 0) {
            Some(i) if ms[i as int].to is First => 1 + recorded_depth(
                ms,
                ms[i as int].to->First_0,
                va,
                (level - 1) as u8,
            ),
            _ => 0,
        }
    }
}

/// What unmapping the page at `va` finds from `table` at `level` down in
/// the record `ms`: the index of the entry that maps it, or `None` when an
/// entry on the way is not recorded. The walk follows recorded tables; a
/// lowest entry recorded as a table has no answer (`Some(None)` never
/// comes from it).
pub open spec fn unmap_walk(ms: Seq<Mapping>, table: PageTable, va: u64, level: u8) -> Option<
    Option<nat>,
>
    decreases level,
{
    let off = table_index(va, level) as usize;
    match find_from(ms, table, off, 0) {
        None => Some(None),
        Some(i) => match ms[i as int].to {
            Either::Second(_) => Some(Some(i)),
            Either::First(next) => if level <= 1 {
                None
            } else {
                unmap_walk(ms, next, va, (level - 1) as u8)
            },
        },
    }
}

/// The walk to the page at `va` through the record `ms`, from `table` at
/// `level` down, meets no frame and no table at the lowest level: it ends
/// on an entry that is not recorded.
pub open spec fn walk_clear(ms: Seq<Mapping>, table: PageTable, va: u64, level: u8) -> bool
    decreases level,
{
    match find_from(ms, table, table_index(va, level) as usize, 0) {
        None => true,
        Some(i) => level > 1 && ms[i as int].to is First && walk_clear(
            ms,
            ms[i as int].to->First_0,
            va,
            (level - 1) as u8,
        ),
    }
}

/// Each table that `acts` links is new: no entry of `ms`, and no entry
/// that `acts` records up to that link, is in it.
pub open spec fn links_fresh(ms: Seq<Mapping>, acts: Seq<PagingAction>) -> bool {
    forall|k: int|
        0 <= k < acts.len() && #[trigger] acts[k] is Link ==> {
            &&& forall|j: int| 0 <= j < ms.len() ==> ms[j].from != acts[k]->next
            &&& forall|j: int| 0 <= j <= k ==> action_mapping(acts[j]).from != acts[k]->next
        }
}

/// A match that `find_from` finds stays the first one when entries are
/// appended.
proof fn lemma_find_from_append(ms: Seq<Mapping>, extra: Seq<Mapping>, table: PageTable, offset: usize, i: nat)
    requires
        i <= ms.len(),
    ensures
        find_from(ms, table, offset, i) matches Some(k) ==> find_from(ms + extra, table, offset, i) == Some(k),
        find_from(ms, table, offset, i) is None ==> find_from(ms + extra, table, offset, i) == find_from(
            ms + extra,
            table,
            offset,
            ms.len(),
        ),
    decreases ms.len() - i,
{
    let all = ms + extra;
    if i < ms.len() {
        assert(all[i as int] == ms[i as int]);
        lemma_find_from_append(ms, extra, table, offset, i + 1);
    }
}

/// No entry of a table that nothing records is found.
proof fn lemma_find_from_absent(ms: Seq<Mapping>, table: PageTable, offset: usize, i: nat)
    requires
        forall|j: int| 0 <= j < ms.len() ==> ms[j].from != table,
    ensures
        find_from(ms, table, offset, i) is None,
    decreases ms.len() - i,
{
    if i < ms.len() {
        lemma_find_from_absent(ms, table, offset, i + 1);
    }
}

/// The walk that unmapping follows, over the record after a mapping,
/// from the tables of the mapping's walk.
proof fn lemma_map_unmap_level(
    ms: Seq<Mapping>,
    table: PageTable,
    va: u64,
    level: u8,
    frame: Frame,
    pm: PermissionMask,
    parent: PermissionMask,
    acts: Seq<PagingAction>,
)
    requires
        1 <= level <= 4,
        map_walk(ms, table, va, level, frame, pm, parent, acts, None),
        walk_clear(ms, table, va, level),
        links_fresh(ms, acts),
    ensures
        ({
            let after = ms + acts.map_values(|a: PagingAction| action_mapping(a));
            unmap_walk(after, table, va, level) matches Some(Some(i)) && after[i as int].to
                == Either::<PageTable, Frame>::Second(frame) && i == after.len() - 1
        }),
    decreases level,
{
    let after = ms + acts.map_values(|a: PagingAction| action_mapping(a));
    let off = table_index(va, level) as usize;
    lemma_find_from_append(ms, acts.map_values(|a: PagingAction| action_mapping(a)), table, off, 0);
    match find_from(ms, table, off, 0) {
        Some(i) => {
            lemma_find_from_bound(ms, table, off, 0);
            let next = ms[i as int].to->First_0;
            assert(after[i as int] == ms[i as int]);
            lemma_map_unmap_level(ms, next, va, (level - 1) as u8, frame, pm, parent, acts);
        },
        None => {
            let first = action_mapping(acts[0]);
            assert(after[ms.len() as int] == first);
            if level <= 1 {
                assert(first.from == table && first.offset@ == off);
                assert(find_from(after, table, off, ms.len()) == Some(ms.len()));
            } else {
                let ms1 = ms.push(first);
                let rest = acts.skip(1);
                let n = acts[0]->next;
                assert(first.from == table && first.offset@ == off);
                assert(find_from(after, table, off, ms.len()) == Some(ms.len()));
                assert(first.to == Either::<PageTable, Frame>::First(n));
                assert(acts[0] is Link);
                assert forall|j: int| 0 <= j < ms1.len() implies ms1[j].from != n by {
                    if j == ms.len() {
                        assert(action_mapping(acts[0]).from != n);
                    }
                }
                lemma_find_from_absent(ms1, n, table_index(va, (level - 1) as u8) as usize, 0);
                assert forall|k: int| 0 <= k < rest.len() && #[trigger] rest[k] is Link implies {
                    &&& forall|j: int| 0 <= j < ms1.len() ==> ms1[j].from != rest[k]->next
                    &&& forall|j: int| 0 <= j <= k ==> action_mapping(rest[j]).from != rest[k]->next
                } by {
                    assert(rest[k] == acts[k + 1]);
                    assert(acts[k + 1] is Link);
                    assert forall|j: int| 0 <= j < ms1.len() implies ms1[j].from != rest[k]->next by {
                        if j == ms.len() {
                            assert(action_mapping(acts[0]).from != acts[k + 1]->next);
                        }
                    }
                    assert forall|j: int| 0 <= j <= k implies action_mapping(rest[j]).from != rest[k]->next by {
                        assert(rest[j] == acts[j + 1]);
                        assert(action_mapping(acts[j + 1]).from != acts[k + 1]->next);
                    }
                }
                lemma_map_unmap_level(ms1, n, va, (level - 1) as u8, frame, pm, parent, rest);
                assert(ms1 + rest.map_values(|a: PagingAction| action_mapping(a)) =~= after);
            }
        },
    }
}

/// Mapping a page right after mapping it finds the frame it was mapped
/// to, and asks for nothing, from the tables of the first mapping's walk.
proof fn lemma_remap_level(
    ms: Seq<Mapping>,
    table: PageTable,
    va: u64,
    level: u8,
    frame: Frame,
    pm: PermissionMask,
    parent: PermissionMask,
    acts: Seq<PagingAction>,
    g: Frame,
    pm2: PermissionMask,
    parent2: PermissionMask,
    acts2: Seq<PagingAction>,
    err2: Option<Frame>,
)
    requires
        1 <= level <= 4,
        map_walk(ms, table, va, level, frame, pm, parent, acts, None),
        walk_clear(ms, table, va, level),
        links_fresh(ms, acts),
        map_walk(
            ms + acts.map_values(|a: PagingAction| action_mapping(a)),
            table,
            va,
            level,
            g,
            pm2,
            parent2,
            acts2,
            err2,
        ),
    ensures
        err2 == Some(frame),
        acts2.len() == 0,
    decreases level,
{
    let after = ms + acts.map_values(|a: PagingAction| action_mapping(a));
    let off = table_index(va, level) as usize;
    lemma_find_from_append(ms, acts.map_values(|a: PagingAction| action_mapping(a)), table, off, 0);
    match find_from(ms, table, off, 0) {
        Some(i) => {
            lemma_find_from_bound(ms, table, off, 0);
            let next = ms[i as int].to->First_0;
            assert(after[i as int] == ms[i as int]);
            lemma_remap_level(ms, next, va, (level - 1) as u8, frame, pm, parent, acts, g, pm2, parent2, acts2, err2);
        },
        None => {
            let first = action_mapping(acts[0]);
            assert(after[ms.len() as int] == first);
            if level <= 1 {
                assert(first.from == table && first.offset@ == off);
                assert(find_from(after, table, off, ms.len()) == Some(ms.len()));
            } else {
                let ms1 = ms.push(first);
                let rest = acts.skip(1);
                let n = acts[0]->next;
                assert(first.from == table && first.offset@ == off);
                assert(find_from(after, table, off, ms.len()) == Some(ms.len()));
                assert(first.to == Either::<PageTable, Frame>::First(n));
                assert(acts[0] is Link);
                assert forall|j: int| 0 <= j < ms1.len() implies ms1[j].from != n by {
                    if j == ms.len() {
                        assert(action_mapping(acts[0]).from != n);
                    }
                }
                lemma_find_from_absent(ms1, n, table_index(va, (level - 1) as u8) as usize, 0);
                assert forall|k: int| 0 <= k < rest.len() && #[trigger] rest[k] is Link implies {
                    &&& forall|j: int| 0 <= j < ms1.len() ==> ms1[j].from != rest[k]->next
                    &&& forall|j: int| 0 <= j <= k ==> action_mapping(rest[j]).from != rest[k]->next
                } by {
                    assert(rest[k] == acts[k + 1]);
                    assert(acts[k + 1] is Link);
                    assert forall|j: int| 0 <= j < ms1.len() implies ms1[j].from != rest[k]->next by {
                        if j == ms.len() {
                            assert(action_mapping(acts[0]).from != acts[k + 1]->next);
                        }
                    }
                    assert forall|j: int| 0 <= j <= k implies action_mapping(rest[j]).from != rest[k]->next by {
                        assert(rest[j] == acts[j + 1]);
                        assert(action_mapping(acts[j + 1]).from != acts[k + 1]->next);
                    }
                }
                assert(ms1 + rest.map_values(|a: PagingAction| action_mapping(a)) =~= after);
                lemma_remap_level(ms1, n, va, (level - 1) as u8, frame, pm, parent, rest, g, pm2, parent2, acts2, err2);
            }
        },
    }
}

/// The record after a link to a new table, and the actions after it, keep
/// the new table empty and the links after it fresh.
proof fn lemma_fresh_step(ms: Seq<Mapping>, acts: Seq<PagingAction>, va: u64, level: u8)
    requires
        2 <= level <= 4,
        acts.len() >= 1,
        acts[0] is Link,
        links_fresh(ms, acts),
    ensures
        walk_clear(ms.push(action_mapping(acts[0])), acts[0]->next, va, (level - 1) as u8),
        links_fresh(ms.push(action_mapping(acts[0])), acts.skip(1)),
{
    let ms1 = ms.push(action_mapping(acts[0]));
    let rest = acts.skip(1);
    let n = acts[0]->next;
    assert forall|j: int| 0 <= j < ms1.len() implies ms1[j].from != n by {
        if j == ms.len() {
            assert(action_mapping(acts[0]).from != n);
        }
    }
    lemma_find_from_absent(ms1, n, table_index(va, (level - 1) as u8) as usize, 0);
    assert forall|k: int| 0 <= k < rest.len() && #[trigger] rest[k] is Link implies {
        &&& forall|j: int| 0 <= j < ms1.len() ==> ms1[j].from != rest[k]->next
        &&& forall|j: int| 0 <= j <= k ==> action_mapping(rest[j]).from != rest[k]->next
    } by {
        assert(rest[k] == acts[k + 1]);
        assert(acts[k + 1] is Link);
        assert forall|j: int| 0 <= j < ms1.len() implies ms1[j].from != rest[k]->next by {
            if j == ms.len() {
                assert(action_mapping(acts[0]).from != acts[k + 1]->next);
            }
        }
        assert forall|j: int| 0 <= j <= k implies action_mapping(rest[j]).from != rest[k]->next by {
            assert(rest[j] == acts[j + 1]);
            assert(action_mapping(acts[j + 1]).from != acts[k + 1]->next);
        }
    }
}

/// Unmapping a page a second time after mapping it finds nothing: the
/// record without the entry that maps the frame, which is the last one the
/// mapping added, has the walk to the page end on an unrecorded entry.
proof fn lemma_unmap_again_level(
    ms: Seq<Mapping>,
    table: PageTable,
    va: u64,
    level: u8,
    frame: Frame,
    pm: PermissionMask,
    parent: PermissionMask,
    acts: Seq<PagingAction>,
)
    requires
        1 <= level <= 4,
        map_walk(ms, table, va, level, frame, pm, parent, acts, None),
        walk_clear(ms, table, va, level),
        links_fresh(ms, acts),
    ensures
        acts.len() >= 1,
        unmap_walk(
            ms + acts.drop_last().map_values(|a: PagingAction| action_mapping(a)),
            table,
            va,
            level,
        ) == Some(None::<nat>),
    decreases level,
{
    let dl = acts.drop_last().map_values(|a: PagingAction| action_mapping(a));
    let after = ms + dl;
    let off = table_index(va, level) as usize;
    lemma_find_from_append(ms, dl, table, off, 0);
    match find_from(ms, table, off, 0) {
        Some(i) => {
            lemma_find_from_bound(ms, table, off, 0);
            let next = ms[i as int].to->First_0;
            assert(after[i as int] == ms[i as int]);
            lemma_unmap_again_level(ms, next, va, (level - 1) as u8, frame, pm, parent, acts);
        },
        None => {
            if level <= 1 {
                assert(after =~= ms);
            } else {
                let first = action_mapping(acts[0]);
                let ms1 = ms.push(first);
                let rest = acts.skip(1);
                let n = acts[0]->next;
                lemma_fresh_step(ms, acts, va, level);
                lemma_unmap_again_level(ms1, n, va, (level - 1) as u8, frame, pm, parent, rest);
                assert(acts.drop_last() =~= seq![acts[0]] + rest.drop_last());
                assert(ms1 + rest.drop_last().map_values(|a: PagingAction| action_mapping(a)) =~= after);
                assert(after[ms.len() as int] == first);
                assert(first.from == table && first.offset@ == off);
                assert(find_from(after, table, off, ms.len()) == Some(ms.len()));
            }
        },
    }
}

/// A walk that meets no recorded frame and no table at the lowest level
/// ends on an unrecorded entry: unmapping finds nothing.
proof fn lemma_unmap_clear(ms: Seq<Mapping>, table: PageTable, va: u64, level: u8)
    requires
        1 <= level <= 4,
        walk_clear(ms, table, va, level),
    ensures
        unmap_walk(ms, table, va, level) == Some(None::<nat>),
    decreases level,
{
    let off = table_index(va, level) as usize;
    if let Some(i) = find_from(ms, table, off, 0) {
        lemma_unmap_clear(ms, ms[i as int].to->First_0, va, (level - 1) as u8);
    }
}

/// Unmapping a page right after mapping it gives back the frame that it
/// was mapped to: when mapping `va` to `frame` from the root table `l4`
/// asks for `acts` and finds nothing mapped, the walk to `va` met no frame
/// and no table at the lowest level, and its links take, in order, tables
/// new to the record (such as those `map_to` gets from an allocator that
/// hands out new tables), the walk that unmapping follows in the record that results reaches an entry
/// that maps `frame`.
pub proof fn lemma_map_then_unmap(
    ms: Seq<Mapping>,
    l4: PageTable,
    va: u64,
    frame: Frame,
    pm: PermissionMask,
    parent: PermissionMask,
    acts: Seq<PagingAction>,
    tables: Seq<PageTable>,
)
    requires
        map_walk(ms, l4, va, 4, frame, pm, parent, acts, None),
        walk_clear(ms, l4, va, 4),
        links_use(acts, tables),
        tables_fresh(ms, l4, tables),
    ensures
        ({
            let after = ms + acts.map_values(|a: PagingAction| action_mapping(a));
            unmap_walk(after, l4, va, 4) matches Some(Some(i)) && after[i as int].to == Either::<
                PageTable,
                Frame,
            >::Second(frame)
        }),
{
    lemma_fresh_walk(ms, l4, va, 4, frame, pm, parent, acts, None, tables);
    lemma_map_unmap_level(ms, l4, va, 4, frame, pm, parent, acts);
}

/// Mapping a page again, right after mapping it to `frame`, finds `frame`
/// mapped there and asks for no syscall, whatever frame, rights and tables
/// the second mapping is given: when the first mapping found nothing
/// mapped, its walk met no frame and no table at the lowest level, and its
/// links took, in order, tables new to the record.
pub proof fn lemma_map_twice(
    ms: Seq<Mapping>,
    l4: PageTable,
    va: u64,
    frame: Frame,
    pm: PermissionMask,
    parent: PermissionMask,
    acts: Seq<PagingAction>,
    g: Frame,
    pm2: PermissionMask,
    parent2: PermissionMask,
    acts2: Seq<PagingAction>,
    err2: Option<Frame>,
    tables: Seq<PageTable>,
)
    requires
        map_walk(ms, l4, va, 4, frame, pm, parent, acts, None),
        walk_clear(ms, l4, va, 4),
        links_use(acts, tables),
        tables_fresh(ms, l4, tables),
        map_walk(
            ms + acts.map_values(|a: PagingAction| action_mapping(a)),
            l4,
            va,
            4,
            g,
            pm2,
            parent2,
            acts2,
            err2,
        ),
    ensures
        err2 == Some(frame),
        acts2.len() == 0,
{
    lemma_fresh_walk(ms, l4, va, 4, frame, pm, parent, acts, None, tables);
    lemma_remap_level(ms, l4, va, 4, frame, pm, parent, acts, g, pm2, parent2, acts2, err2);
}

/// Unmapping a page twice right after mapping it: the first unmapping
/// removes the last entry that the mapping recorded, the one that maps the
/// frame, and the second finds nothing to unmap. This holds when the
/// mapping found nothing mapped, its walk met no frame and no table at the
/// lowest level, and its links took, in order, tables new to the record.
pub proof fn lemma_unmap_twice(
    ms: Seq<Mapping>,
    l4: PageTable,
    va: u64,
    frame: Frame,
    pm: PermissionMask,
    parent: PermissionMask,
    acts: Seq<PagingAction>,
    tables: Seq<PageTable>,
)
    requires
        map_walk(ms, l4, va, 4, frame, pm, parent, acts, None),
        walk_clear(ms, l4, va, 4),
        links_use(acts, tables),
        tables_fresh(ms, l4, tables),
    ensures
        ({
            let after = ms + acts.map_values(|a: PagingAction| action_mapping(a));
            &&& unmap_walk(after, l4, va, 4) == Some(Some((after.len() - 1) as nat))
            &&& after[after.len() - 1].to == Either::<PageTable, Frame>::Second(frame)
            &&& unmap_walk(after.remove(after.len() - 1), l4, va, 4) == Some(None::<nat>)
        }),
{
    let after = ms + acts.map_values(|a: PagingAction| action_mapping(a));
    lemma_fresh_walk(ms, l4, va, 4, frame, pm, parent, acts, None, tables);
    lemma_map_unmap_level(ms, l4, va, 4, frame, pm, parent, acts);
    lemma_unmap_again_level(ms, l4, va, 4, frame, pm, parent, acts);
    assert(after.remove(after.len() - 1) =~= ms + acts.drop_last().map_values(
        |a: PagingAction| action_mapping(a),
    ));
}

/// Unmapping a page whose walk meets no frame and no table at the lowest
/// level, such as one never mapped, finds nothing to unmap.
pub proof fn lemma_unmap_unmapped(ms: Seq<Mapping>, l4: PageTable, va: u64)
    requires
        walk_clear(ms, l4, va, 4),
    ensures
        unmap_walk(ms, l4, va, 4) == Some(None::<nat>),
{
    lemma_unmap_clear(ms, l4, va, 4);
}

/// The number of links among `s`.
pub open spec fn link_count(s: Seq<PagingAction>) -> nat
    decreases s.len(),
{
    if s.len() == 0 {
        0
    } else {
        link_count(s.drop_last()) + if s.last() is Link {
            1nat
        } else {
            0nat
        }
    }
}

/// The links among `acts` link the tables of `tables`, in order: the `k`-th
/// link links `tables[k]`.
pub open spec fn links_use(acts: Seq<PagingAction>, tables: Seq<PageTable>) -> bool {
    forall|k: int|
        0 <= k < acts.len() && #[trigger] acts[k] is Link ==> link_count(acts.take(k)) < tables.len()
            && acts[k]->next == tables[link_count(acts.take(k)) as int]
}

/// The tables of `tables` are new to the record `ms` kept under the root
/// `l4`: none is the root, none holds a recorded entry or is recorded as
/// linked, and no two are the same.
pub open spec fn tables_fresh(ms: Seq<Mapping>, l4: PageTable, tables: Seq<PageTable>) -> bool {
    &&& forall|k: int| 0 <= k < tables.len() ==> #[trigger] tables[k] != l4
    &&& forall|k: int, j: int|
        0 <= k < tables.len() && 0 <= j < ms.len() ==> #[trigger] ms[j].from != #[trigger] tables[k]
            && ms[j].to != Either::<PageTable, Frame>::First(tables[k])
    &&& forall|k1: int, k2: int|
        0 <= k1 < k2 < tables.len() ==> #[trigger] tables[k1] != #[trigger] tables[k2]
}

/// The links of a sequence are those of its first action and of the rest.
proof fn lemma_link_count_skip(s: Seq<PagingAction>)
    requires
        s.len() > 0,
    ensures
        link_count(s) == (if s[0] is Link {
            1nat
        } else {
            0nat
        }) + link_count(s.skip(1)),
    decreases s.len(),
{
    if s.len() == 1 {
        assert(s.drop_last() =~= Seq::<PagingAction>::empty());
        assert(s.skip(1) =~= Seq::<PagingAction>::empty());
    } else {
        lemma_link_count_skip(s.drop_last());
        assert(s.drop_last().skip(1) =~= s.skip(1).drop_last());
        assert(s.skip(1).last() == s.last());
    }
}

/// Past a first link, which takes the first table, the links take the
/// other tables in order.
proof fn lemma_links_use_skip(acts: Seq<PagingAction>, tables: Seq<PageTable>)
    requires
        links_use(acts, tables),
        acts.len() > 0,
        acts[0] is Link,
    ensures
        tables.len() > 0,
        acts[0]->next == tables[0],
        links_use(acts.skip(1), tables.skip(1)),
{
    assert(acts.take(0) =~= Seq::<PagingAction>::empty());
    assert forall|k: int| 0 <= k < acts.skip(1).len() && #[trigger] acts.skip(1)[k] is Link implies link_count(
        acts.skip(1).take(k),
    ) < tables.skip(1).len() && acts.skip(1)[k]->next == tables.skip(1)[link_count(
        acts.skip(1).take(k),
    ) as int] by {
        assert(acts[k + 1] == acts.skip(1)[k]);
        lemma_link_count_skip(acts.take(k + 1));
        assert(acts.take(k + 1).skip(1) =~= acts.skip(1).take(k));
        assert(acts.take(k + 1)[0] == acts[0]);
    }
}

/// When the tables that a walk links are new, each link it asks for is
/// to a new table.
proof fn lemma_fresh_walk(
    ms: Seq<Mapping>,
    table: PageTable,
    va: u64,
    level: u8,
    frame: Frame,
    pm: PermissionMask,
    parent: PermissionMask,
    acts: Seq<PagingAction>,
    err: Option<Frame>,
    tables: Seq<PageTable>,
)
    requires
        map_walk(ms, table, va, level, frame, pm, parent, acts, err),
        links_use(acts, tables),
        tables_fresh(ms, table, tables),
    ensures
        links_fresh(ms, acts),
    decreases level,
{
    let off = table_index(va, level) as usize;
    let found = find_from(ms, table, off, 0);
    lemma_find_from_bound(ms, table, off, 0);
    if level <= 1 {
    } else {
        match found {
            Some(i) if ms[i as int].to is First => {
                let next = ms[i as int].to->First_0;
                assert forall|k: int| 0 <= k < tables.len() implies #[trigger] tables[k] != next by {
                    assert(ms[i as int].to != Either::<PageTable, Frame>::First(tables[k]));
                }
                lemma_fresh_walk(ms, next, va, (level - 1) as u8, frame, pm, parent, acts, err, tables);
            },
            _ => {
                lemma_links_use_skip(acts, tables);
                let m0 = action_mapping(acts[0]);
                let ms1 = ms.push(m0);
                let rest = acts.skip(1);
                let ts = tables.skip(1);
                assert forall|k: int, j: int| 0 <= k < ts.len() && 0 <= j < ms1.len() implies #[trigger] ms1[j].from
                    != #[trigger] ts[k] && ms1[j].to != Either::<PageTable, Frame>::First(ts[k]) by {
                    assert(ts[k] == tables[k + 1]);
                    if j < ms.len() {
                        assert(ms1[j] == ms[j]);
                    } else {
                        assert(tables[0] != tables[k + 1]);
                    }
                }
                assert forall|k: int| 0 <= k < ts.len() implies #[trigger] ts[k] != tables[0] by {
                    assert(ts[k] == tables[k + 1]);
                    assert(tables[0] != tables[k + 1]);
                }
                assert forall|k1: int, k2: int| 0 <= k1 < k2 < ts.len() implies #[trigger] ts[k1] != #[trigger] ts[k2] by {
                    assert(ts[k1] == tables[k1 + 1] && ts[k2] == tables[k2 + 1]);
                }
                lemma_fresh_walk(ms1, tables[0], va, (level - 1) as u8, frame, pm, parent, rest, err, ts);
                assert forall|k: int| 0 <= k < acts.len() && #[trigger] acts[k] is Link implies {
                    &&& forall|j: int| 0 <= j < ms.len() ==> ms[j].from != acts[k]->next
                    &&& forall|j: int| 0 <= j <= k ==> action_mapping(acts[j]).from != acts[k]->next
                } by {
                    if k == 0 {
                        assert(tables[0] != table);
                        assert forall|j: int| 0 <= j < ms.len() implies ms[j].from != acts[k]->next by {
                            assert(ms[j].from != tables[0]);
                        }
                    } else {
                        assert(rest[k - 1] == acts[k]);
                        assert forall|j: int| 0 <= j < ms.len() implies ms[j].from != acts[k]->next by {
                            assert(ms1[j] == ms[j]);
                        }
                        assert forall|j: int| 0 <= j <= k implies action_mapping(acts[j]).from != acts[k]->next by {
                            if j == 0 {
                                assert(ms1[ms.len() as int] == m0);
                            } else {
                                assert(rest[j - 1] == acts[j]);
                            }
                        }
                    }
                }
            },
        }
    }
}

/// Appending an action keeps the links in order; a link must take the next
/// table.
proof fn lemma_links_push(acts: Seq<PagingAction>, x: PagingAction, tables: Seq<PageTable>)
    requires
        links_use(acts, tables),
        x is Link ==> link_count(acts) < tables.len() && x->next == tables[link_count(acts) as int],
    ensures
        links_use(acts.push(x), tables),
        link_count(acts.push(x)) == link_count(acts) + if x is Link {
            1nat
        } else {
            0nat
        },
{
    let n = acts.push(x);
    assert(n.drop_last() =~= acts);
    assert forall|k: int| 0 <= k < n.len() && #[trigger] n[k] is Link implies link_count(n.take(k))
        < tables.len() && n[k]->next == tables[link_count(n.take(k)) as int] by {
        if k < acts.len() {
            assert(n.take(k) =~= acts.take(k));
            assert(n[k] == acts[k]);
        } else {
            assert(n.take(k) =~= acts);
        }
    }
}

/// The levels that the record has as leading to tables are fewer than the
/// levels walked.
proof fn lemma_recorded_depth_bound(ms: Seq<Mapping>, table: PageTable, va: u64, level: u8)
    requires
        1 <= level <= 4,
    ensures
        recorded_depth(ms, table, va, level) < level,
    decreases level,
{
    if level > 1 {
        let off = table_index(va, level) as usize;
        if let Some(i) = find_from(ms, table, off, 0) {
            if ms[i as int].to is First {
                lemma_recorded_depth_bound(ms, ms[i as int].to->First_0, va, (level - 1) as u8);
            }
        }
    }
}

/// Why a page could not be mapped.
#[derive(Debug, Clone, Copy, PartialEq, Eq, Structural)]
pub enum MapperError {
    TableAllocationError,
    HugeParentEntry,
    AlreadyMapped(Frame),
}

/// Why a page could not be unmapped.
#[derive(Debug, Clone, Copy, PartialEq, Eq, Structural)]
pub enum UnmapError {
    NotMapped,
    HugeParent,
}

/// An address space: its root table and the record of what it has set.
pub struct Addrspace {
    l4_table: PageTable,
    mappings: Mappings,
}

impl Addrspace {
    /// The root table.
    pub closed spec fn spec_l4(&self) -> PageTable {
        self.l4_table
    }

    /// The entries set so far.
    pub closed spec fn spec_mappings(&self) -> Seq<Mapping> {
        mapping_items(self.mappings)
    }

    /// An address space of the root table `l4_table`, with nothing set.
    pub fn new(l4_table: PageTable) -> (r: Self)
        ensures
            r.spec_l4() == l4_table,
            r.spec_mappings() == Seq::<Mapping>::empty(),
    {
        Self { l4_table, mappings: Mappings::new() }
    }

    /// The index of the first recorded entry for entry `offset` of
    /// `table`.
    fn find(&self, table: PageTable, offset: PageTableOffset) -> (r: Option<usize>)
        ensures
            match find_from(self.spec_mappings(), table, offset@, 0) {
                Some(i) => r == Some(i as usize) && i < self.spec_mappings().len(),
                None => r is None,
            },
            self.spec_mappings().len() <= usize::MAX,
    {
        proof {
            lemma_find_from_bound(self.spec_mappings(), table, offset@, 0);
        }
        let n = self.mappings.len();
        let mut i: usize = 0;
        while i < n
            invariant
                n == self.spec_mappings().len(),
                i <= n,
                find_from(self.spec_mappings(), table, offset@, 0) == find_from(
                    self.spec_mappings(),
                    table,
                    offset@,
                    i as nat,
                ),
            decreases n - i,
        {
            let m = self.mappings.get(i);
            proof {
                PageTableOffset::lemma_view_injective(m.offset, offset);
            }
            if m.from == table && m.offset == offset {
                return Some(i);
            }
            i = i + 1;
        }
        None
    }

    /// Maps `page` to `frame` with rights `permission_mask`, taking the new
    /// tables that the walk needs from `tables`, in order, and linking them
    /// with rights `parent_mask`: the syscalls to make, in order, and the
    /// frame already mapped there, if any.
    pub fn map_with_tables(
        &mut self,
        page: Page,
        frame: Frame,
        permission_mask: PermissionMask,
        parent_mask: PermissionMask,
        tables: &Vec<PageTable>,
    ) -> (r: (Vec<PagingAction>, Result<(), MapperError>))
        requires
            old(self).spec_mappings().len() + 4 - recorded_depth(
                old(self).spec_mappings(),
                old(self).spec_l4(),
                page@,
                4,
            ) <= 32,
            tables@.len() + recorded_depth(old(self).spec_mappings(), old(self).spec_l4(), page@, 4)
                >= 3,
        ensures
            link_count(r.0@) <= tables@.len(),
            links_use(r.0@, tables@),
            final(self).spec_l4() == old(self).spec_l4(),
            final(self).spec_mappings() == old(self).spec_mappings() + r.0@.map_values(
                |a: PagingAction| action_mapping(a),
            ),
            map_walk(
                old(self).spec_mappings(),
                old(self).spec_l4(),
                page@,
                4,
                frame,
                permission_mask,
                parent_mask,
                r.0@,
                match r.1 {
                    Err(MapperError::AlreadyMapped(f)) => Some(f),
                    _ => None,
                },
            ),
            r.1 is Ok || r.1 is Err && r.1->Err_0 is AlreadyMapped,
    {
        let mut actions: Vec<PagingAction> = Vec::new();
        let mut level = PageTableLevel::top();
        let mut table = self.l4_table;
        let addr = page.base();
        let ghost ms0 = self.spec_mappings();
        let mut used: usize = 0;
        proof {
            assert forall|tail: Seq<PagingAction>, err: Option<Frame>|
                map_walk(ms0, table, page@, 4, frame, permission_mask, parent_mask, tail, err)
                    implies #[trigger] map_walk(ms0, old(self).spec_l4(), page@, 4, frame, permission_mask, parent_mask, actions@ + tail, err) by {
                assert(actions@ + tail =~= tail);
            }
            assert(self.spec_mappings() =~= ms0 + actions@.map_values(|a: PagingAction| action_mapping(a)));
        }
        loop
            invariant_except_break
                1 <= level@ <= 4,
                self.spec_l4() == old(self).spec_l4(),
                self.spec_mappings() == ms0 + actions@.map_values(|a: PagingAction| action_mapping(a)),
                ms0 == old(self).spec_mappings(),
                self.spec_mappings().len() + level@ - recorded_depth(self.spec_mappings(), table, page@, level@) <= 32,
                addr@ == page@,
                used <= tables@.len(),
                link_count(actions@) == used,
                links_use(actions@, tables@),
                tables@.len() - used + recorded_depth(self.spec_mappings(), table, page@, level@) >= level@ - 1,
                forall|tail: Seq<PagingAction>, err: Option<Frame>|
                    map_walk(self.spec_mappings(), table, page@, level@, frame, permission_mask, parent_mask, tail, err)
                        ==> #[trigger] map_walk(ms0, old(self).spec_l4(), page@, 4, frame, permission_mask, parent_mask, actions@ + tail, err),
            ensures
                link_count(actions@) <= tables@.len(),
                links_use(actions@, tables@),
                self.spec_l4() == old(self).spec_l4(),
                ms0 == old(self).spec_mappings(),
                self.spec_mappings() == ms0 + actions@.map_values(|a: PagingAction| action_mapping(a)),
                map_walk(ms0, old(self).spec_l4(), page@, 4, frame, permission_mask, parent_mask, actions@, None),
            decreases level@,
        {
            let offset = addr.page_table_index(level);
            let found = self.find(table, offset);
            if level.is_bottom() {
                match found {
                    Some(i) => {
                        let m = self.mappings.get(i);
                        if let Either::Second(existing) = m.to {
                            proof {
                                assert(map_walk(self.spec_mappings(), table, page@, level@, frame, permission_mask, parent_mask, Seq::empty(), Some(existing)));
                                assert(actions@ + Seq::<PagingAction>::empty() =~= actions@);
                            }
                            return (actions, Err(MapperError::AlreadyMapped(existing)));
                        }
                    },
                    None => {},
                }
                let action = PagingAction::MapFrame { table, offset, frame, mask: permission_mask };
                let ghost ms_before = self.spec_mappings();
                let ghost before = actions@;
                proof {
                    lemma_links_push(actions@, action, tables@);
                    assert(map_walk(ms_before, table, page@, level@, frame, permission_mask, parent_mask, seq![action], None));
                    assert(map_walk(ms0, old(self).spec_l4(), page@, 4, frame, permission_mask, parent_mask, before + seq![action], None));
                }
                actions.push(action);
                let _ = self.mappings.push(action_mapping_of(action));
                proof {
                    assert(before + seq![action] =~= actions@);
                    assert(self.spec_mappings() == ms_before.push(action_mapping(action)));
                    assert(self.spec_mappings() =~= ms0 + actions@.map_values(|a: PagingAction| action_mapping(a)));
                }
                break;
            } else {
                let lower = match level.lower() {
                    Some(l) => l,
                    None => {
                        break;
                    },
                };
                let mut next_table: Option<PageTable> = None;
                if let Some(i) = found {
                    if let Either::First(next) = self.mappings.get(i).to {
                        next_table = Some(next);
                    }
                }
                match next_table {
                    Some(next) => {
                        proof {
                            assert forall|tail: Seq<PagingAction>, err: Option<Frame>|
                                map_walk(self.spec_mappings(), next, page@, lower@, frame, permission_mask, parent_mask, tail, err)
                                    implies #[trigger] map_walk(ms0, old(self).spec_l4(), page@, 4, frame, permission_mask, parent_mask, actions@ + tail, err) by {
                                assert(map_walk(self.spec_mappings(), table, page@, level@, frame, permission_mask, parent_mask, tail, err));
                            }
                        }
                        table = next;
                    },
                    None => {
                        let count = tables.len();
                        assert(used < count);
                        let next = tables[used];
                        let action = PagingAction::Link { table, next, offset, mask: parent_mask };
                        let ghost ms_before = self.spec_mappings();
                        let ghost before = actions@;
                        proof {
                            lemma_links_push(actions@, action, tables@);
                        }
                        actions.push(action);
                        used = used + 1;
                        let _ = self.mappings.push(action_mapping_of(action));
                        proof {
                            assert(self.spec_mappings() == ms_before.push(action_mapping(action)));
                            assert(self.spec_mappings() =~= ms0 + actions@.map_values(|a: PagingAction| action_mapping(a)));
                            assert forall|tail: Seq<PagingAction>, err: Option<Frame>|
                                map_walk(self.spec_mappings(), next, page@, lower@, frame, permission_mask, parent_mask, tail, err)
                                    implies #[trigger] map_walk(ms0, old(self).spec_l4(), page@, 4, frame, permission_mask, parent_mask, actions@ + tail, err) by {
                                let full = seq![action] + tail;
                                assert(full.skip(1) =~= tail);
                                assert(full[0] == action);
                                assert(map_walk(ms_before, table, page@, level@, frame, permission_mask, parent_mask, full, err));
                                assert(before + full =~= actions@ + tail);
                            }
                        }
                        table = next;
                    },
                }
                level = lower;
            }
        }
        (actions, Ok(()))
    }

    /// Maps `page` to `frame` with rights `permission_mask`: the syscalls
    /// to make, in order, the frame already mapped there, if any, and the
    /// tables asked of `allocator`, each with the level it was asked for.
    /// New tables come from `allocator`, one for each level below the first
    /// that the record has no table for, asked for from the highest level
    /// down, and are linked with rights `parent_mask`, in the order they
    /// came.
    pub fn map_to<A: PageTableAllocator>(
        &mut self,
        page: Page,
        frame: Frame,
        permission_mask: PermissionMask,
        parent_mask: PermissionMask,
        allocator: &mut A,
    ) -> (r: (Vec<PagingAction>, Result<(), MapperError>, Ghost<Seq<(u8, PageTable)>>))
        requires
            old(self).spec_mappings().len() + 4 - recorded_depth(
                old(self).spec_mappings(),
                old(self).spec_l4(),
                page@,
                4,
            ) <= 32,
        ensures
            final(self).spec_l4() == old(self).spec_l4(),
            final(self).spec_mappings() == old(self).spec_mappings() + r.0@.map_values(
                |a: PagingAction| action_mapping(a),
            ),
            map_walk(
                old(self).spec_mappings(),
                old(self).spec_l4(),
                page@,
                4,
                frame,
                permission_mask,
                parent_mask,
                r.0@,
                match r.1 {
                    Err(MapperError::AlreadyMapped(f)) => Some(f),
                    _ => None,
                },
            ),
            r.1 is Ok || r.1 is Err && r.1->Err_0 is AlreadyMapped,
            r.2@.len() + recorded_depth(old(self).spec_mappings(), old(self).spec_l4(), page@, 4)
                == 3,
            forall|k: int| 0 <= k < r.2@.len() ==> (#[trigger] r.2@[k]).0 == r.2@.len() - k,
            link_count(r.0@) <= r.2@.len(),
            links_use(r.0@, r.2@.map_values(|x: (u8, PageTable)| x.1)),
    {
        let room = self.room_needed(page);
        proof {
            lemma_recorded_depth_bound(self.spec_mappings(), self.l4_table, page@, 4);
        }
        let needed = room - 1;
        let mut tables: Vec<PageTable> = Vec::new();
        let ghost mut asked: Seq<(u8, PageTable)> = Seq::empty();
        let mut i: usize = 0;
        while i < needed
            invariant
                i <= needed,
                needed <= 3,
                tables@.len() == i,
                asked.len() == i,
                forall|k: int| 0 <= k < i ==> (#[trigger] asked[k]).0 == needed - k && asked[k].1
                    == tables@[k],
            decreases needed - i,
        {
            let level = PageTableLevel::new((needed - i) as u8);
            let t = allocator.allocate_table(level);
            tables.push(t);
            proof {
                asked = asked.push(((needed - i) as u8, t));
            }
            i = i + 1;
        }
        let (actions, result) = self.map_with_tables(page, frame, permission_mask, parent_mask, &tables);
        proof {
            assert(asked.map_values(|x: (u8, PageTable)| x.1) =~= tables@);
        }
        (actions, result, Ghost(asked))
    }

    /// Unmaps `page`: the frame it mapped and the syscall that clears its
    /// entry, or `NotMapped` when the record does not reach it.
    pub fn unmap(&mut self, page: Page) -> (r: Result<(Frame, PagingAction), UnmapError>)
        requires
            unmap_walk(old(self).spec_mappings(), old(self).spec_l4(), page@, 4) is Some,
        ensures
            final(self).spec_l4() == old(self).spec_l4(),
            unmap_walk(old(self).spec_mappings(), old(self).spec_l4(), page@, 4) matches Some(Some(i))
                ==> i < old(self).spec_mappings().len(),
            match unmap_walk(old(self).spec_mappings(), old(self).spec_l4(), page@, 4) {
                Some(None) => r == Err::<(Frame, PagingAction), _>(UnmapError::NotMapped)
                    && final(self).spec_mappings() == old(self).spec_mappings(),
                Some(Some(i)) => {
                    let m = old(self).spec_mappings()[i as int];
                    &&& r is Ok
                    &&& r->Ok_0.0 == m.to->Second_0
                    &&& r->Ok_0.1 == PagingAction::Unmap { table: m.from, offset: m.offset }
                    &&& final(self).spec_mappings() == old(self).spec_mappings().remove(i as int)
                },
                None => false,
            },
    {
        let mut level = PageTableLevel::top();
        let mut table = self.l4_table;
        let addr = page.base();
        let ghost ms = self.spec_mappings();
        loop
            invariant
                1 <= level@ <= 4,
                self.spec_l4() == old(self).spec_l4(),
                self.spec_mappings() == ms,
                ms == old(self).spec_mappings(),
                addr@ == page@,
                unmap_walk(ms, table, page@, level@) == unmap_walk(ms, old(self).spec_l4(), page@, 4),
                unmap_walk(ms, table, page@, level@) is Some,
            decreases level@,
        {
            let offset = addr.page_table_index(level);
            let found = self.find(table, offset);
            proof {
                lemma_find_from_bound(ms, table, offset@, 0);
            }
            match found {
                None => {
                    return Err(UnmapError::NotMapped);
                },
                Some(pos) => {
                    proof {
                        assert(find_from(ms, table, offset@, 0) is Some);
                        assert(find_from(ms, table, offset@, 0) == Some(pos as nat));
                    }
                    let m = self.mappings.get(pos);
                    match m.to {
                        Either::Second(frame) => {
                            proof {
                                assert(unmap_walk(ms, table, page@, level@) == Some(Some(pos as nat)));
                            }
                            let removed = self.mappings.remove(pos);
                            return Ok((frame, PagingAction::Unmap { table: removed.from, offset: removed.offset }));
                        },
                        Either::First(next) => {
                            match level.lower() {
                                Some(l) => {
                                    table = next;
                                    level = l;
                                },
                                None => {
                                    return Err(UnmapError::NotMapped);
                                },
                            }
                        },
                    }
                },
            }
        }
    }

    /// The number of entries recorded.
    pub fn mapping_count(&self) -> (r: usize)
        ensures
            r == self.spec_mappings().len(),
    {
        self.mappings.len()
    }

    /// The number of entries that mapping `page` may add: one for each
    /// level whose entry is not recorded as leading to a table.
    pub fn room_needed(&self, page: Page) -> (r: usize)
        ensures
            r + recorded_depth(self.spec_mappings(), self.spec_l4(), page@, 4) == 4,
    {
        let mut level = PageTableLevel::top();
        let mut table = self.l4_table;
        let addr = page.base();
        let mut depth: usize = 0;
        let ghost ms = self.spec_mappings();
        while !level.is_bottom()
            invariant
                1 <= level@ <= 4,
                ms == self.spec_mappings(),
                addr@ == page@,
                depth + level@ == 4,
                depth + recorded_depth(ms, table, page@, level@) == recorded_depth(
                    ms,
                    self.spec_l4(),
                    page@,
                    4,
                ),
            decreases level@,
        {
            let offset = addr.page_table_index(level);
            let next = match self.find(table, offset) {
                None => None,
                Some(pos) => match self.mappings.get(pos).to {
                    Either::First(next) => Some(next),
                    Either::Second(_) => None,
                },
            };
            match next {
                Some(n) => {
                    match level.lower() {
                        Some(l) => {
                            table = n;
                            level = l;
                            depth = depth + 1;
                        },
                        None => {
                            return 4 - depth;
                        },
                    }
                },
                None => {
                    return 4 - depth;
                },
            }
        }
        4 - depth
    }

    /// Whether unmapping `page` has an answer: the walk through the record
    /// does not end on a lowest entry recorded as a table.
    pub fn unmap_reaches(&self, page: Page) -> (r: bool)
        ensures
            r == (unmap_walk(self.spec_mappings(), self.spec_l4(), page@, 4) is Some),
    {
        let mut level = PageTableLevel::top();
        let mut table = self.l4_table;
        let addr = page.base();
        let ghost ms = self.spec_mappings();
        loop
            invariant
                1 <= level@ <= 4,
                ms == self.spec_mappings(),
                addr@ == page@,
                unmap_walk(ms, table, page@, level@) == unmap_walk(ms, self.spec_l4(), page@, 4),
            decreases level@,
        {
            let offset = addr.page_table_index(level);
            match self.find(table, offset) {
                None => {
                    return true;
                },
                Some(pos) => {
                    match self.mappings.get(pos).to {
                        Either::Second(_) => {
                            return true;
                        },
                        Either::First(next) => {
                            match level.lower() {
                                Some(l) => {
                                    table = next;
                                    level = l;
                                },
                                None => {
                                    return false;
                                },
                            }
                        },
                    }
                },
            }
        }
    }

    /// The root table.
    pub fn into_inner(self) -> (r: PageTable)
        ensures
            r == self.spec_l4(),
    {
        self.l4_table
    }
}

/// The entry that an action records.
fn action_mapping_of(a: PagingAction) -> (r: Mapping)
    ensures
        r == action_mapping(a),
{
    match a {
        PagingAction::Link { table, next, offset, .. } => Mapping {
            from: table,
            offset,
            to: Either::First(next),
        },
        PagingAction::MapFrame { table, offset, frame, .. } => Mapping {
            from: table,
            offset,
            to: Either::Second(frame),
        },
        PagingAction::Unmap { table, offset } => Mapping {
            from: table,
            offset,
            to: Either::First(table),
        },
    }
}

} // verus!

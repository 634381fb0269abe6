//! A trie of fixed-size nodes indexed by the base-`COUNT` digits of an
//! identifier, least significant digit first (the capability tables).
//!
//! Nodes live in an arena and refer to their children by arena index.
use vstd::prelude::*;

verus! {

/// An index into a node of `COUNT` slots.
#[derive(Debug, Clone, Copy)]
pub struct SlotId<const COUNT: usize>(usize);

/// Error for an index that is not below the node size.
#[derive(Debug, Clone, Copy, PartialEq, Eq, Structural)]
pub enum TrieIndexError {
    OutOfBounds,
}

impl<const COUNT: usize> View for SlotId<COUNT> {
    type V = usize;

    closed spec fn view(&self) -> usize {
        self.0
    }
}

impl<const COUNT: usize> SlotId<COUNT> {
    #[verifier::type_invariant]
    spec fn inv(self) -> bool {
        self.0 < COUNT
    }

    /// The slot with index `id`.
    pub closed spec fn spec_new(id: usize) -> Self {
        SlotId(id)
    }

    /// A slot is determined by its index.
    pub proof fn lemma_spec_new(id: usize, s: Self)
        ensures
            Self::spec_new(id)@ == id,
            s@ == id ==> s == Self::spec_new(id),
    {
    }

    /// The slot with index `id`, failing unless `id < COUNT`.
    pub fn new(id: usize) -> (r: Result<Self, TrieIndexError>)
        ensures
            match r {
                Ok(s) => id < COUNT && s@ == id && s == Self::spec_new(id),
                Err(_) => id >= COUNT,
            },
    {
        if id < COUNT {
            Ok(Self(id))
        } else {
            Err(TrieIndexError::OutOfBounds)
        }
    }

    /// The number of slots in a node.
    pub fn count() -> (r: usize)
        ensures
            r == COUNT,
    {
        COUNT
    }

    /// The number of identifier bits that one node consumes.
    pub fn bits() -> (r: usize)
        ensures
            r == vstd::std_specs::bits::u64_trailing_zeros(COUNT as u64),
    {
        (COUNT as u64).trailing_zeros() as usize
    }

    /// The index as a number.
    pub fn as_usize(self) -> (r: usize)
        ensures
            r == self@,
            r < COUNT,
    {
        proof {
            use_type_invariant(&self);
        }
        self.0
    }
}

/// One slot of a node: an optional child node and a payload.
#[derive(Debug, Clone, Copy)]
pub struct TrieSlot<T> {
    pub child: Option<usize>,
    pub payload: T,
}

/// A reference to a slot: the arena index of its node and its offset there.
#[derive(Debug, Clone, Copy, PartialEq, Eq, Structural)]
pub struct SlotRef {
    pub node: usize,
    pub offset: usize,
}

/// One node of `COUNT` slots.
#[derive(Debug)]
pub struct TrieEntry<const COUNT: usize, T> {
    slots: Vec<TrieSlot<T>>,
}

/// The arena that holds the nodes of one or more tries.
#[derive(Debug)]
pub struct Trie<const COUNT: usize, T> {
    nodes: Vec<TrieEntry<COUNT, T>>,
}

/// The slot that identifier `id` designates when the walk starts at `node`:
/// the lowest base-`count` digit of `id` selects a slot, and while digits
/// remain the walk continues in that slot's child.
pub open spec fn lookup<T>(nodes: Seq<Seq<TrieSlot<T>>>, count: nat, node: nat, id: nat) -> Option<
    SlotRef,
>
    decreases id,
{
    if count < 2 || node >= nodes.len() || node > usize::MAX || count > usize::MAX {
        None
    } else if id / count == 0 {
        Some(SlotRef { node: node as usize, offset: (id % count) as usize })
    } else {
        proof {
            vstd::arithmetic::div_mod::lemma_div_decreases(id as int, count as int);
        }
        match nodes[node as int][(id % count) as int].child {
            Some(c) => lookup(nodes, count, c as nat, id / count),
            None => None,
        }
    }
}

/// An arena is well formed when every node has `count` slots and every child
/// names a node of the arena.
pub open spec fn arena_wf<T>(nodes: Seq<Seq<TrieSlot<T>>>, count: nat) -> bool {
    &&& count >= 2
    &&& forall|n: int| 0 <= n < nodes.len() ==> #[trigger] nodes[n].len() == count
    &&& forall|n: int, o: int|
        0 <= n < nodes.len() && 0 <= o < count ==> match #[trigger] nodes[n][o].child {
            Some(c) => c < nodes.len(),
            None => true,
        }
}

impl<const COUNT: usize, T> View for Trie<COUNT, T> {
    type V = Seq<Seq<TrieSlot<T>>>;

    closed spec fn view(&self) -> Seq<Seq<TrieSlot<T>>> {
        self.nodes@.map_values(|n: TrieEntry<COUNT, T>| n.slots@)
    }
}

impl<const COUNT: usize, T: Copy> TrieEntry<COUNT, T> {
    /// The size in bytes of one slot of a node.
    pub fn slot_size() -> (r: usize)
        ensures
            r as nat == vstd::layout::size_of::<TrieSlot<T>>(),
    {
        core::mem::size_of::<TrieSlot<T>>()
    }

    /// A node whose slots have no children and hold `fill`.
    pub fn new(fill: T) -> (r: Self)
        ensures
            r.spec_slots().len() == COUNT,
            forall|o: int|
                0 <= o < COUNT ==> #[trigger] r.spec_slots()[o] == (TrieSlot {
                    child: None,
                    payload: fill,
                }),
    {
        let mut slots: Vec<TrieSlot<T>> = Vec::new();
        let mut i: usize = 0;
        while i < COUNT
            invariant
                i <= COUNT,
                slots@.len() == i,
                forall|o: int|
                    0 <= o < i ==> #[trigger] slots@[o] == (TrieSlot { child: None, payload: fill }),
            decreases COUNT - i,
        {
            slots.push(TrieSlot { child: None, payload: fill });
            i = i + 1;
        }
        Self { slots }
    }
}

impl<const COUNT: usize, T> TrieEntry<COUNT, T> {
    /// The slots of this node.
    pub closed spec fn spec_slots(&self) -> Seq<TrieSlot<T>> {
        self.slots@
    }

    /// The reference to slot `idx` of node `this`.
    pub fn index(this: usize, idx: SlotId<COUNT>) -> (r: SlotRef)
        ensures
            r == (SlotRef { node: this, offset: idx@ }),
    {
        SlotRef { node: this, offset: idx.as_usize() }
    }

    /// The slot that `id` designates in the trie rooted at node `this`, or
    /// `None` when the walk reaches a slot without the child it needs.
    pub fn get(trie: &Trie<COUNT, T>, this: usize, id: u32) -> (r: Option<SlotRef>)
        requires
            trie.wf(),
            this < trie@.len(),
        ensures
            r == lookup(trie@, COUNT as nat, this as nat, id as nat),
            match r {
                Some(s) => s.node < trie@.len() && s.offset < COUNT,
                None => true,
            },
    {
        let id = id as usize;
        Self::get_inner(trie, this, id)
    }

    fn get_inner(trie: &Trie<COUNT, T>, this: usize, id: usize) -> (r: Option<SlotRef>)
        requires
            trie.wf(),
            this < trie@.len(),
        ensures
            r == lookup(trie@, COUNT as nat, this as nat, id as nat),
            match r {
                Some(s) => s.node < trie@.len() && s.offset < COUNT,
                None => true,
            },
        decreases id,
    {
        proof {
            trie.lemma_view();
        }
        let offset: usize = id % COUNT;
        let next = id / COUNT;
        if next == 0 {
            Some(SlotRef { node: this, offset })
        } else {
            proof {
                vstd::arithmetic::div_mod::lemma_div_decreases(id as int, COUNT as int);
            }
            let slot = &trie.nodes[this].slots[offset];
            match slot.child {
                Some(child) => Self::get_inner(trie, child, next),
                None => None,
            }
        }
    }
}

impl<const COUNT: usize, T> Trie<COUNT, T> {
    /// Every node has `COUNT` slots, every child is a node of the arena, and
    /// `COUNT` is at least 2.
    pub closed spec fn wf(&self) -> bool {
        arena_wf(self@, COUNT as nat)
    }

    /// A well-formed trie's nodes form a well-formed arena.
    pub proof fn lemma_wf(&self)
        requires
            self.wf(),
        ensures
            arena_wf(self@, COUNT as nat),
    {
    }

    proof fn lemma_view(&self)
        ensures
            self@.len() == self.nodes@.len(),
            forall|n: int|
                0 <= n < self.nodes@.len() ==> #[trigger] self@[n] == self.nodes@[n].slots@,
    {
    }

    /// The slot that `r` designates.
    pub fn slot(&self, r: SlotRef) -> (s: &TrieSlot<T>)
        requires
            self.wf(),
            r.node < self@.len(),
            r.offset < COUNT,
        ensures
            *s == self@[r.node as int][r.offset as int],
    {
        proof {
            self.lemma_view();
        }
        &self.nodes[r.node].slots[r.offset]
    }

    /// The payload of the slot that `r` designates.
    pub fn payload(&self, r: SlotRef) -> (p: &T)
        requires
            self.wf(),
            r.node < self@.len(),
            r.offset < COUNT,
        ensures
            *p == self@[r.node as int][r.offset as int].payload,
    {
        &self.slot(r).payload
    }

    /// The number of nodes in the arena.
    pub fn len(&self) -> (n: usize)
        ensures
            n == self@.len(),
    {
        proof {
            self.lemma_view();
        }
        self.nodes.len()
    }
}

impl<const COUNT: usize, T: Copy> Trie<COUNT, T> {
    /// An arena with one node (index 0) whose slots hold `fill`.
    pub fn new(fill: T) -> (r: Self)
        requires
            COUNT >= 2,
        ensures
            r.wf(),
            r@.len() == 1,
            forall|o: int|
                0 <= o < COUNT ==> #[trigger] r@[0][o] == (TrieSlot { child: None, payload: fill }),
    {
        let mut nodes: Vec<TrieEntry<COUNT, T>> = Vec::new();
        nodes.push(TrieEntry::new(fill));
        let r = Self { nodes };
        proof {
            r.lemma_view();
        }
        r
    }

    /// Adds a node whose slots hold `fill` and returns its index.
    pub fn add_node(&mut self, fill: T) -> (n: usize)
        requires
            old(self).wf(),
        ensures
            final(self).wf(),
            n == old(self)@.len(),
            final(self)@.len() == old(self)@.len() + 1,
            forall|m: int| 0 <= m < old(self)@.len() ==> #[trigger] final(self)@[m] == old(self)@[m],
            forall|o: int|
                0 <= o < COUNT ==> #[trigger] final(self)@[n as int][o] == (TrieSlot {
                    child: None,
                    payload: fill,
                }),
    {
        proof {
            self.lemma_view();
        }
        let n = self.nodes.len();
        let entry = TrieEntry::new(fill);
        self.nodes.push(entry);
        proof {
            self.lemma_view();
            assert forall|m: int| 0 <= m < self@.len() implies #[trigger] self@[m].len() == COUNT by {
                if m < n {
                    assert(self@[m] == old(self)@[m]);
                }
            }
            assert forall|m: int, o: int|
                0 <= m < self@.len() && 0 <= o < COUNT implies match #[trigger] self@[m][o].child {
                Some(c) => c < self@.len(),
                None => true,
            } by {
                if m < n {
                    assert(self@[m] == old(self)@[m]);
                }
            }
        }
        n
    }

    /// Replaces the payload of the slot that `r` designates.
    pub fn set_payload(&mut self, r: SlotRef, payload: T)
        requires
            old(self).wf(),
            r.node < old(self)@.len(),
            r.offset < COUNT,
        ensures
            final(self).wf(),
            final(self)@ == old(self)@.update(
                r.node as int,
                old(self)@[r.node as int].update(
                    r.offset as int,
                    TrieSlot { child: old(self)@[r.node as int][r.offset as int].child, payload },
                ),
            ),
    {
        proof {
            self.lemma_view();
        }
        let child = self.nodes[r.node].slots[r.offset].child;
        self.update_slot(r, TrieSlot { child, payload });
    }

    /// Replaces the child of the slot that `r` designates and returns the
    /// previous one.
    pub fn set_child(&mut self, r: SlotRef, child: Option<usize>) -> (prev: Option<usize>)
        requires
            old(self).wf(),
            r.node < old(self)@.len(),
            r.offset < COUNT,
            match child {
                Some(c) => c < old(self)@.len(),
                None => true,
            },
        ensures
            final(self).wf(),
            prev == old(self)@[r.node as int][r.offset as int].child,
            final(self)@ == old(self)@.update(
                r.node as int,
                old(self)@[r.node as int].update(
                    r.offset as int,
                    TrieSlot { child, payload: old(self)@[r.node as int][r.offset as int].payload },
                ),
            ),
    {
        proof {
            self.lemma_view();
        }
        let slot = self.nodes[r.node].slots[r.offset];
        self.update_slot(r, TrieSlot { child, payload: slot.payload });
        slot.child
    }

    fn update_slot(&mut self, r: SlotRef, slot: TrieSlot<T>)
        requires
            old(self).wf(),
            r.node < old(self)@.len(),
            r.offset < COUNT,
            match slot.child {
                Some(c) => c < old(self)@.len(),
                None => true,
            },
        ensures
            final(self).wf(),
            final(self)@ == old(self)@.update(
                r.node as int,
                old(self)@[r.node as int].update(r.offset as int, slot),
            ),
    {
        proof {
            self.lemma_view();
        }
        assert(self@[r.node as int].len() == COUNT);
        let mut entry = TrieEntry { slots: Vec::new() };
        std::mem::swap(&mut entry, &mut self.nodes[r.node]);
        entry.slots.set(r.offset, slot);
        std::mem::swap(&mut entry, &mut self.nodes[r.node]);
        proof {
            self.lemma_view();
            assert(self@ =~= old(self)@.update(
                r.node as int,
                old(self)@[r.node as int].update(r.offset as int, slot),
            ));
        }
    }
}

/// A slot that a lookup finds lies in the arena.
pub proof fn lemma_lookup_in_arena<T>(nodes: Seq<Seq<TrieSlot<T>>>, count: nat, node: nat, id: nat)
    requires
        arena_wf(nodes, count),
        node < nodes.len(),
    ensures
        lookup(nodes, count, node, id) matches Some(s) ==> s.node < nodes.len() && s.offset < count,
    decreases id,
{
    if count < 2 || node >= nodes.len() || node > usize::MAX || count > usize::MAX {
    } else if id / count == 0 {
    } else {
        vstd::arithmetic::div_mod::lemma_div_decreases(id as int, count as int);
        let o = (id % count) as int;
        match nodes[node as int][o].child {
            Some(c) => {
                lemma_lookup_in_arena(nodes, count, c as nat, id / count);
            },
            None => {},
        }
    }
}

/// Identifiers below the node size designate the slots of the starting node
/// itself.
pub proof fn lemma_lookup_local<T>(nodes: Seq<Seq<TrieSlot<T>>>, count: nat, node: nat, id: nat)
    requires
        arena_wf(nodes, count),
        node < nodes.len(),
        node <= usize::MAX,
        count <= usize::MAX,
        id < count,
    ensures
        lookup(nodes, count, node, id) == Some(SlotRef { node: node as usize, offset: id as usize }),
{
    vstd::arithmetic::div_mod::lemma_basic_div(id as int, count as int);
    vstd::arithmetic::div_mod::lemma_small_mod(id, count);
}

/// Through a slot with a child, the identifiers `offset + count * k` with
/// `k >= 1` designate what `k` designates from the child.
pub proof fn lemma_lookup_through_child<T>(
    nodes: Seq<Seq<TrieSlot<T>>>,
    count: nat,
    node: nat,
    offset: nat,
    k: nat,
)
    requires
        arena_wf(nodes, count),
        node < nodes.len(),
        node <= usize::MAX,
        count <= usize::MAX,
        offset < count,
        k >= 1,
        nodes[node as int][offset as int].child is Some,
    ensures
        lookup(nodes, count, node, offset + count * k) == lookup(
            nodes,
            count,
            nodes[node as int][offset as int].child->0 as nat,
            k,
        ),
{
    let id = offset + count * k;
    assert(id / count == k && id % count == offset) by {
        vstd::arithmetic::mul::lemma_mul_is_commutative(count as int, k as int);
        vstd::arithmetic::div_mod::lemma_fundamental_div_mod_converse(
            id as int,
            count as int,
            k as int,
            offset as int,
        );
    }
}

} // verus!

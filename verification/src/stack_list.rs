//! A last-in first-out list of stack buffers.
//!
//! Each buffer carries, in its first bytes, the node header: the link to
//! the next node (zero while the node is not linked) and the buffer's size.
use vstd::prelude::*;

use crate::bytes::{le_bytes_u64, push_u64_le};

verus! {

/// A buffer prepared to be linked into a [`StackList`].
#[derive(Debug)]
pub struct StackNode {
    address: usize,
    buffer: Vec<u8>,
}

/// Errors of preparing a buffer.
#[derive(Debug, Copy, Clone, Eq, PartialEq, Structural)]
pub enum StackNodeError {
    BufferNotAligned,
    BufferTooSmall,
}

/// The required alignment of a buffer.
pub const REQUIRED_ALIGNEMENT: usize = 16;

/// The size of the node header: the link and the size, 8 bytes each.
pub const NODE_SIZE: usize = 16;

/// `buffer` with the node header written over its first bytes: a zero
/// link, then its size in little-endian order.
pub open spec fn with_header(buffer: Seq<u8>) -> Seq<u8> {
    le_bytes_u64(0) + le_bytes_u64(buffer.len() as u64) + buffer.skip(16)
}

impl StackNode {
    /// The address of the buffer.
    pub closed spec fn spec_address(&self) -> usize {
        self.address
    }

    /// The bytes of the buffer.
    pub closed spec fn spec_buffer(&self) -> Seq<u8> {
        self.buffer@
    }

    /// Prepares `buffer`, which lies at `address`: it must be 16-byte
    /// aligned and hold at least the node header, which is written over its
    /// first bytes.
    pub fn new(buffer: Vec<u8>, address: usize) -> (r: Result<Self, StackNodeError>)
        ensures
            address % 16 != 0 ==> r == Err::<Self, _>(StackNodeError::BufferNotAligned),
            address % 16 == 0 && buffer@.len() < 16 ==> r == Err::<Self, _>(
                StackNodeError::BufferTooSmall,
            ),
            address % 16 == 0 && buffer@.len() >= 16 ==> (r matches Ok(n) && n.spec_address()
                == address && n.spec_buffer() == with_header(buffer@)),
    {
        if address % REQUIRED_ALIGNEMENT != 0 {
            return Err(StackNodeError::BufferNotAligned);
        }
        if buffer.len() < NODE_SIZE {
            return Err(StackNodeError::BufferTooSmall);
        }
        let mut buffer = buffer;
        let ghost old_buffer = buffer@;
        let mut header: Vec<u8> = Vec::new();
        push_u64_le(&mut header, 0);
        push_u64_le(&mut header, buffer.len() as u64);
        let mut i: usize = 0;
        while i < NODE_SIZE
            invariant
                i <= 16,
                buffer@.len() == old_buffer.len(),
                old_buffer.len() >= 16,
                header@ == le_bytes_u64(0) + le_bytes_u64(old_buffer.len() as u64),
                forall|k: int| 0 <= k < i ==> buffer@[k] == header@[k],
                forall|k: int| i <= k < buffer@.len() ==> buffer@[k] == old_buffer[k],
            decreases 16 - i,
        {
            buffer.set(i, header[i]);
            i = i + 1;
        }
        assert(buffer@ =~= with_header(old_buffer));
        Ok(Self { address, buffer })
    }

    /// The buffer back, with the node header in its first bytes.
    pub fn into_buffer(self) -> (r: Vec<u8>)
        ensures
            r@ == self.spec_buffer(),
    {
        self.buffer
    }

    /// The address of the buffer.
    pub fn address(&self) -> (r: usize)
        ensures
            r == self.spec_address(),
    {
        self.address
    }
}

/// A last-in first-out list of prepared buffers.
#[derive(Debug)]
pub struct StackList {
    nodes: Vec<StackNode>,
}

/// What a node stands for in a list: its address and its bytes.
pub open spec fn node_view(n: StackNode) -> (usize, Seq<u8>) {
    (n.spec_address(), n.spec_buffer())
}

impl View for StackList {
    /// The nodes, the head last.
    type V = Seq<(usize, Seq<u8>)>;

    closed spec fn view(&self) -> Seq<(usize, Seq<u8>)> {
        self.nodes@.map_values(|n: StackNode| node_view(n))
    }
}

impl StackList {
    /// An empty list.
    pub fn new() -> (r: Self)
        ensures
            r@ == Seq::<(usize, Seq<u8>)>::empty(),
    {
        Self { nodes: Vec::new() }
    }

    /// Takes the node at the head, the one pushed last.
    pub fn pop_front(&mut self) -> (r: Option<StackNode>)
        ensures
            old(self)@.len() == 0 ==> r is None && final(self)@ == old(self)@,
            old(self)@.len() > 0 ==> (r matches Some(n) && node_view(n) == old(self)@.last()
                && final(self)@ == old(self)@.drop_last()),
    {
        let r = self.nodes.pop();
        proof {
            if old(self)@.len() > 0 {
                assert(self@ =~= old(self)@.drop_last());
            } else {
                assert(self@ =~= old(self)@);
            }
        }
        r
    }

    /// Puts `node` at the head.
    pub fn push_front(&mut self, node: StackNode)
        ensures
            final(self)@ == old(self)@.push(node_view(node)),
    {
        self.nodes.push(node);
        proof {
            assert(self@ =~= old(self)@.push(node_view(node)));
        }
    }
}

/// Pushing a node and popping gives the node back and leaves the list as it
/// was: the list is last-in first-out.
pub proof fn lemma_push_pop(list: Seq<(usize, Seq<u8>)>, node: (usize, Seq<u8>))
    ensures
        list.push(node).last() == node,
        list.push(node).drop_last() == list,
{
    assert(list.push(node).drop_last() =~= list);
}

/// A byte on its own 16-byte boundary.
#[derive(Debug, Copy, Clone, Eq, PartialEq, Structural)]
pub struct OveralignedU8(pub u8);

} // verus!

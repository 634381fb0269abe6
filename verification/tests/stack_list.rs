use harmony::stack_list::{StackList, StackNode, StackNodeError};

#[test]
fn smoke() {
    let mut stacks = StackList::new();

    let n1 = StackNode::new(vec![0u8; 256], 0x1000).unwrap();
    let n2 = StackNode::new(vec![0u8; 256], 0x2000).unwrap();
    let n3 = StackNode::new(vec![0u8; 256], 0x3000).unwrap();
    stacks.push_front(n1);
    stacks.push_front(n2);
    stacks.push_front(n3);

    let node = stacks.pop_front().unwrap();
    assert_eq!(node.address(), 0x3000);
    let stack = node.into_buffer();
    assert_eq!(stack.len(), 256);
    let node = stacks.pop_front().unwrap();
    assert_eq!(node.address(), 0x2000);
    let stack = node.into_buffer();
    assert_eq!(stack.len(), 256);
    let node = stacks.pop_front().unwrap();
    assert_eq!(node.address(), 0x1000);
    let stack = node.into_buffer();
    assert_eq!(stack.len(), 256);
}

#[test]
fn empty_list_pops_nothing() {
    let mut stacks = StackList::new();
    assert!(stacks.pop_front().is_none());
}

#[test]
fn push_then_pop_gives_the_node_back() {
    let mut stacks = StackList::new();
    stacks.push_front(StackNode::new(vec![7u8; 32], 0x40).unwrap());
    let node = StackNode::new(vec![9u8; 48], 0x80).unwrap();
    stacks.push_front(node);
    let back = stacks.pop_front().unwrap();
    assert_eq!(back.address(), 0x80);
    assert_eq!(stacks.pop_front().unwrap().address(), 0x40);
    assert!(stacks.pop_front().is_none());
}

#[test]
fn unaligned_buffer_is_refused() {
    assert_eq!(
        StackNode::new(vec![0u8; 256], 0x1008).unwrap_err(),
        StackNodeError::BufferNotAligned
    );
}

#[test]
fn small_buffer_is_refused() {
    assert_eq!(
        StackNode::new(vec![0u8; 15], 0x1000).unwrap_err(),
        StackNodeError::BufferTooSmall
    );
}

#[test]
fn node_header_holds_null_link_and_size() {
    let node = StackNode::new(vec![0xAAu8; 300], 0x100).unwrap();
    let buf = node.into_buffer();
    assert_eq!(&buf[0..8], &[0u8; 8]);
    assert_eq!(&buf[8..16], &300u64.to_le_bytes());
    assert!(buf[16..].iter().all(|&b| b == 0xAA));
}

use harmony::trie::{SlotRef, Trie, TrieEntry};

#[test]
fn lib_smoke() {
    let trie: Trie<16, u32> = Trie::new(0);
    let slot = TrieEntry::get(&trie, 0, 0).unwrap();
    assert_eq!(*trie.payload(slot), 0);
}

#[test]
fn slots_can_be_set_and_get() {
    let mut trie: Trie<64, u32> = Trie::new(0);

    for id in 0..64 {
        let slot = TrieEntry::get(&trie, 0, id).unwrap();
        trie.set_payload(slot, id);
    }

    for id in 0..64 {
        let slot = TrieEntry::get(&trie, 0, id).unwrap();
        assert_eq!(*trie.payload(slot), id);
    }
}

#[test]
fn connections() {
    let mut trie: Trie<64, u32> = Trie::new(0);

    assert!(TrieEntry::get(&trie, 0, 64).is_none());
    let slot = TrieEntry::get(&trie, 0, 0).unwrap();
    let l1 = trie.add_node(0);
    assert!(trie.set_child(slot, Some(l1)).is_none());
    let found = TrieEntry::get(&trie, 0, 64).unwrap();
    assert_eq!(*trie.payload(found), 0);
}

#[test]
fn connections2() {
    let mut trie: Trie<64, u32> = Trie::new(0);

    assert!(TrieEntry::get(&trie, 0, 64).is_none());
    let slot = TrieEntry::get(&trie, 0, 0).unwrap();
    let l1 = trie.add_node(0);
    trie.set_payload(SlotRef { node: l1, offset: 4 }, 10);
    assert!(trie.set_child(slot, Some(l1)).is_none());
    let found = TrieEntry::get(&trie, 0, 4 << 6).unwrap();
    assert_eq!(*trie.payload(found), 10);
}

#[test]
fn deeper_identifiers_follow_each_digit() {
    let mut trie: Trie<16, u32> = Trie::new(0);
    let l1 = trie.add_node(0);
    let l2 = trie.add_node(0);
    trie.set_child(SlotRef { node: 0, offset: 3 }, Some(l1));
    trie.set_child(SlotRef { node: l1, offset: 5 }, Some(l2));
    trie.set_payload(SlotRef { node: l2, offset: 7 }, 99);
    // digits, least significant first: 3, 5, 7
    let id = 3 + 5 * 16 + 7 * 256;
    let found = TrieEntry::get(&trie, 0, id).unwrap();
    assert_eq!(found, SlotRef { node: l2, offset: 7 });
    assert_eq!(*trie.payload(found), 99);
    // a missing child stops the walk
    assert!(TrieEntry::get(&trie, 0, 4 + 16).is_none());
}

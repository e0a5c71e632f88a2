use bplustree::{BTree, DecodeFailure, Error, Payload};

fn header() -> Vec<u8> {
    vec![0x42, 0x2B, 0x54, 0x72, 0x65, 0x65, 0x00, 0x01]
}

#[test]
fn new_blank_file() {
    let mut tree_file: Vec<u8> = Vec::new();
    let wal_file: Vec<u8> = Vec::new();

    BTree::<u8, u8>::new(&mut tree_file, &wal_file, 1, 1).unwrap();

    // make sure our two files were filled as a new index fills them
    assert!(tree_file.len() == 8);
    assert!(wal_file.len() == 0);
}

#[test]
fn new_existing_file() {
    let mut tree_file: Vec<u8> = Vec::new();
    let wal_file: Vec<u8> = Vec::new();

    {
        BTree::<u8, u8>::new(&mut tree_file, &wal_file, 1, 1).unwrap();
    }

    let btree = BTree::<u8, u8>::new(&mut tree_file, &wal_file, 1, 1).unwrap();

    assert!(tree_file.len() == 8);
    assert!(wal_file.len() == 0);
    assert!(btree.root().is_none());
    assert!(btree.overlay().is_empty());
}

#[test]
fn insert_new_u8() {
    let mut tree_file: Vec<u8> = Vec::new();
    let mut wal_file: Vec<u8> = Vec::new();

    let mut btree = BTree::<u8, u8>::new(&mut tree_file, &wal_file, 1, 1).unwrap();

    let len = btree.insert(2, 3, &mut wal_file).unwrap(); // insert into a new file

    println!("LENGTH: {}", len);

    assert!(wal_file.len() == 2);
}

#[test]
fn insert_new_str() {
    let mut tree_file: Vec<u8> = Vec::new();
    let mut wal_file: Vec<u8> = Vec::new();

    let mut btree = BTree::<String, String>::new(&mut tree_file, &wal_file, 15, 15).unwrap();

    let size = btree.insert("Hello".to_owned(), "World".to_owned(), &mut wal_file).unwrap(); // insert into a new file

    assert!(wal_file.len() as u64 == size as u64);
}

#[test]
fn new_file_holds_magic_and_version() {
    let mut tree_file: Vec<u8> = Vec::new();
    let wal_file: Vec<u8> = Vec::new();
    let btree = BTree::<u32, String>::new(&mut tree_file, &wal_file, 4, 20).unwrap();
    assert_eq!(tree_file, b"B+Tree\0\x01".to_vec());
    assert_eq!(btree.max_key_size(), 4);
    assert_eq!(btree.max_value_size(), 20);
    assert_eq!(btree.record_size(), 24);
}

#[test]
fn insert_returns_the_record_width() {
    let mut tree_file: Vec<u8> = Vec::new();
    let mut wal_file: Vec<u8> = Vec::new();
    let mut btree = BTree::<u8, u8>::new(&mut tree_file, &wal_file, 1, 1).unwrap();
    assert_eq!(btree.insert(2, 3, &mut wal_file), Ok(2));
    assert_eq!(wal_file, vec![2, 3]);
    assert_eq!(btree.insert(9, 1, &mut wal_file), Ok(2));
    assert_eq!(wal_file, vec![2, 3, 9, 1]);
    assert_eq!(tree_file.len(), 8);
}

#[test]
fn insert_pads_a_text_record_with_zeros() {
    let mut tree_file: Vec<u8> = Vec::new();
    let mut wal_file: Vec<u8> = Vec::new();
    let mut btree = BTree::<String, String>::new(&mut tree_file, &wal_file, 15, 15).unwrap();
    let size = btree.insert("Hello".to_owned(), "World".to_owned(), &mut wal_file).unwrap();
    assert_eq!(size, 30);
    let mut expected: Vec<u8> = Vec::new();
    expected.extend_from_slice(&[0, 0, 0, 0, 0, 0, 0, 5]);
    expected.extend_from_slice(b"Hello");
    expected.extend_from_slice(&[0, 0, 0, 0, 0, 0, 0, 5]);
    expected.extend_from_slice(b"World");
    expected.extend_from_slice(&[0, 0, 0, 0]);
    assert_eq!(wal_file, expected);
}

#[test]
fn insert_reaches_the_overlay() {
    let mut tree_file: Vec<u8> = Vec::new();
    let mut wal_file: Vec<u8> = Vec::new();
    let mut btree = BTree::<u8, u8>::new(&mut tree_file, &wal_file, 1, 1).unwrap();
    btree.insert(2, 3, &mut wal_file).unwrap();
    assert!(btree.overlay().contains(&2, &3));
    assert!(!btree.overlay().contains(&3, &2));
    assert_eq!(btree.overlay().len(), 1);
}

#[test]
fn oversized_insert_is_refused_and_changes_nothing() {
    let mut tree_file: Vec<u8> = Vec::new();
    let mut wal_file: Vec<u8> = Vec::new();
    let mut btree = BTree::<String, String>::new(&mut tree_file, &wal_file, 10, 10).unwrap();
    btree.insert("a".to_owned(), "b".to_owned(), &mut wal_file).unwrap();
    let before = wal_file.clone();

    // 8 + 5 + 8 + 5 = 26 bytes do not fit in 20
    let refused = btree.insert("Hello".to_owned(), "World".to_owned(), &mut wal_file);
    assert_eq!(refused, Err(Error::Oversized));
    assert_eq!(wal_file, before);
    assert_eq!(btree.overlay().len(), 1);
    assert!(!btree.overlay().contains(&"Hello".to_owned(), &"World".to_owned()));
    assert!(btree.overlay().contains(&"a".to_owned(), &"b".to_owned()));
}

#[test]
fn oversized_integers_are_refused() {
    let mut tree_file: Vec<u8> = Vec::new();
    let mut wal_file: Vec<u8> = Vec::new();
    let mut btree = BTree::<u64, u64>::new(&mut tree_file, &wal_file, 1, 1).unwrap();
    assert_eq!(btree.insert(1, 2, &mut wal_file), Err(Error::Oversized));
    assert!(wal_file.is_empty());
    assert!(btree.overlay().is_empty());
    assert_eq!(btree.record(&1, &2), Err(Error::Oversized));
}

#[test]
fn a_record_that_fits_exactly_is_not_padded() {
    let mut tree_file: Vec<u8> = Vec::new();
    let wal_file: Vec<u8> = Vec::new();
    let btree = BTree::<u64, u64>::new(&mut tree_file, &wal_file, 8, 8).unwrap();
    assert_eq!(
        btree.record(&1, &258),
        Ok(vec![0, 0, 0, 0, 0, 0, 0, 1, 0, 0, 0, 0, 0, 0, 1, 2])
    );
}

#[test]
fn record_then_apply_is_an_insert() {
    let mut tree_file: Vec<u8> = Vec::new();
    let wal_file: Vec<u8> = Vec::new();
    let mut btree = BTree::<u8, u8>::new(&mut tree_file, &wal_file, 2, 2).unwrap();
    let record = btree.record(&7, &8).unwrap();
    assert_eq!(record, vec![7, 8, 0, 0]);
    assert!(btree.overlay().is_empty());
    btree.apply(7, 8);
    assert!(btree.overlay().contains(&7, &8));
}

#[test]
fn replay_rebuilds_the_overlay() {
    let mut tree_file: Vec<u8> = Vec::new();
    let mut wal_file: Vec<u8> = Vec::new();
    {
        let mut btree = BTree::<u32, String>::new(&mut tree_file, &wal_file, 4, 20).unwrap();
        for key in 0..10u32 {
            btree.insert(key, format!("value {}", key), &mut wal_file).unwrap();
        }
        assert_eq!(btree.overlay().len(), 10);
    }
    assert_eq!(wal_file.len(), 240);

    let reopened = BTree::<u32, String>::new(&mut tree_file, &wal_file, 4, 20).unwrap();
    assert_eq!(reopened.overlay().len(), 10);
    for key in 0..10u32 {
        assert!(reopened.overlay().contains(&key, &format!("value {}", key)));
        assert_eq!(reopened.overlay().count(&key), 1);
    }
    assert!(!reopened.overlay().contains(&10, &"value 10".to_owned()));
    assert!(!reopened.overlay().contains(&1, &"value 2".to_owned()));
    assert_eq!(tree_file, header());
}

#[test]
fn two_values_under_one_key_are_both_kept() {
    let mut tree_file: Vec<u8> = Vec::new();
    let mut wal_file: Vec<u8> = Vec::new();
    let mut btree = BTree::<u8, u8>::new(&mut tree_file, &wal_file, 1, 1).unwrap();
    btree.insert(1, 5, &mut wal_file).unwrap();
    btree.insert(1, 9, &mut wal_file).unwrap();
    assert!(btree.overlay().contains(&1, &5));
    assert!(btree.overlay().contains(&1, &9));
    assert_eq!(btree.overlay().count(&1), 2);
    assert_eq!(btree.overlay().len(), 1);

    // the same pair again: the log grows, the set does not
    btree.insert(1, 9, &mut wal_file).unwrap();
    assert_eq!(btree.overlay().count(&1), 2);
    assert_eq!(wal_file, vec![1, 5, 1, 9, 1, 9]);

    let reopened = BTree::<u8, u8>::new(&mut tree_file, &wal_file, 1, 1).unwrap();
    assert_eq!(reopened.overlay().count(&1), 2);
    assert_eq!(reopened.overlay().len(), 1);
}

#[test]
fn corrupted_magic_is_refused() {
    let mut tree_file: Vec<u8> = b"B-Tree\0\x01".to_vec();
    let wal_file: Vec<u8> = Vec::new();
    let refused = BTree::<u8, u8>::new(&mut tree_file, &wal_file, 1, 1);
    assert_eq!(refused.err(), Some(Error::InvalidFile));
    assert_eq!(tree_file, b"B-Tree\0\x01".to_vec());
}

#[test]
fn other_version_is_refused() {
    let mut tree_file: Vec<u8> = b"B+Tree\0\x02".to_vec();
    let wal_file: Vec<u8> = Vec::new();
    let refused = BTree::<u8, u8>::new(&mut tree_file, &wal_file, 1, 1);
    assert_eq!(refused.err(), Some(Error::InvalidFile));
}

#[test]
fn header_that_is_cut_short_is_an_unexpected_end() {
    let mut tree_file: Vec<u8> = b"B+Tree".to_vec();
    let wal_file: Vec<u8> = Vec::new();
    let refused = BTree::<u8, u8>::new(&mut tree_file, &wal_file, 1, 1);
    assert_eq!(refused.err(), Some(Error::UnexpectedEof));
    assert_eq!(tree_file, b"B+Tree".to_vec());
}

#[test]
fn log_that_ends_inside_a_record_is_an_unexpected_end() {
    let mut tree_file: Vec<u8> = Vec::new();
    let wal_file: Vec<u8> = vec![2, 3, 4];
    let refused = BTree::<u8, u8>::new(&mut tree_file, &wal_file, 1, 1);
    assert_eq!(refused.err(), Some(Error::UnexpectedEof));
    // the data file was not touched
    assert!(tree_file.is_empty());
}

#[test]
fn log_record_that_ends_early_is_a_decode_failure() {
    let mut tree_file: Vec<u8> = Vec::new();
    let wal_file: Vec<u8> = vec![0, 0];
    let refused = BTree::<u64, u64>::new(&mut tree_file, &wal_file, 1, 1);
    assert_eq!(refused.err(), Some(Error::Decode(DecodeFailure::Io)));
    assert!(tree_file.is_empty());
}

#[test]
fn log_record_with_broken_text_is_a_decode_failure() {
    let mut tree_file: Vec<u8> = Vec::new();
    // a length of one, then a byte that is no UTF-8
    let mut wal_file: Vec<u8> = vec![0, 0, 0, 0, 0, 0, 0, 1, 0xFF];
    wal_file.resize(20, 0);
    let refused = BTree::<String, u8>::new(&mut tree_file, &wal_file, 19, 1);
    assert_eq!(refused.err(), Some(Error::Decode(DecodeFailure::InvalidEncoding)));
}

#[test]
fn log_record_with_an_endless_length_is_a_decode_failure() {
    let mut tree_file: Vec<u8> = Vec::new();
    let wal_file: Vec<u8> = vec![0xFF; 20];
    let refused = BTree::<String, u8>::new(&mut tree_file, &wal_file, 19, 1);
    assert_eq!(refused.err(), Some(Error::Decode(DecodeFailure::SizeLimit)));
}

#[test]
fn decode_failure_comes_before_the_cut_record() {
    let mut tree_file: Vec<u8> = Vec::new();
    let mut wal_file: Vec<u8> = vec![0xFF; 20];
    wal_file.push(1);
    let refused = BTree::<String, u8>::new(&mut tree_file, &wal_file, 19, 1);
    assert_eq!(refused.err(), Some(Error::Decode(DecodeFailure::SizeLimit)));
}

#[test]
fn file_without_a_whole_slot_has_no_root() {
    // node size for (1, 1) is 297: one byte short of a slot
    let mut tree_file = header();
    tree_file.resize(8 + 296, 0);
    let wal_file: Vec<u8> = Vec::new();
    let btree = BTree::<u8, u8>::new(&mut tree_file, &wal_file, 1, 1).unwrap();
    assert!(btree.root().is_none());
    assert_eq!(tree_file.len(), 304);
}

#[test]
fn leaf_root_is_read_back() {
    let slot = bincode::rustc_serialize::encode(
        &(7u8, 11u64, Ok::<u8, [(u8, u64); 32]>(42u8)),
        bincode::SizeLimit::Infinite,
    )
    .unwrap();
    assert_eq!(slot, vec![7, 0, 0, 0, 0, 0, 0, 0, 11, 0, 0, 0, 0, 42]);
    let mut tree_file = header();
    tree_file.extend_from_slice(&slot);
    tree_file.resize(8 + 297, 0);
    let wal_file: Vec<u8> = Vec::new();
    let before = tree_file.clone();

    let btree = BTree::<u8, u8>::new(&mut tree_file, &wal_file, 1, 1).unwrap();
    let root = btree.root().unwrap();
    assert_eq!(root.key, 7);
    assert_eq!(root.parent, 11);
    assert!(root.is_leaf());
    assert!(matches!(root.payload, Payload::Value(42)));
    assert_eq!(tree_file, before);
}

#[test]
fn root_is_the_last_slot_of_the_file() {
    let mut tree_file = header();
    // an earlier slot, then the root
    tree_file.extend_from_slice(&[1, 0, 0, 0, 0, 0, 0, 0, 0, 0, 0, 0, 0, 2]);
    tree_file.resize(8 + 297, 0);
    tree_file.extend_from_slice(&[3, 0, 0, 0, 0, 0, 0, 0, 8, 0, 0, 0, 0, 4]);
    tree_file.resize(8 + 297 + 297, 0);
    let wal_file: Vec<u8> = Vec::new();
    let btree = BTree::<u8, u8>::new(&mut tree_file, &wal_file, 1, 1).unwrap();
    let root = btree.root().unwrap();
    assert_eq!(root.key, 3);
    assert_eq!(root.parent, 8);
    assert!(matches!(root.payload, Payload::Value(4)));
}

#[test]
fn internal_root_is_read_back() {
    let mut children = [(0u8, 0u64); 32];
    for i in 0..32 {
        children[i] = (i as u8, 8 + 528 * i as u64);
    }
    let slot = bincode::rustc_serialize::encode(
        &(100u8, 0u64, Err::<u8, [(u8, u64); 32]>(children)),
        bincode::SizeLimit::Infinite,
    )
    .unwrap();
    // key, parent, tag, length of the array, 32 children
    assert_eq!(slot.len(), 1 + 8 + 4 + 8 + 32 * 9);
    // node size for (8, 1) is 16 + 16 * 32
    let mut tree_file = header();
    tree_file.extend_from_slice(&slot);
    tree_file.resize(8 + 528, 0);
    let wal_file: Vec<u8> = Vec::new();

    let btree = BTree::<u8, u8>::new(&mut tree_file, &wal_file, 8, 1).unwrap();
    let root = btree.root().unwrap();
    assert_eq!(root.key, 100);
    assert_eq!(root.parent, 0);
    assert!(!root.is_leaf());
    match &root.payload {
        Payload::Children(read) => assert_eq!(*read, children),
        Payload::Value(_) => panic!("an internal node was read as a leaf"),
    }
}

#[test]
fn root_with_an_unknown_tag_is_a_decode_failure() {
    let mut tree_file = header();
    tree_file.extend_from_slice(&[7, 0, 0, 0, 0, 0, 0, 0, 11, 0, 0, 0, 2, 42]);
    tree_file.resize(8 + 297, 0);
    let before = tree_file.clone();
    let wal_file: Vec<u8> = Vec::new();
    let refused = BTree::<u8, u8>::new(&mut tree_file, &wal_file, 1, 1);
    assert_eq!(refused.err(), Some(Error::Decode(DecodeFailure::InvalidEncoding)));
    assert_eq!(tree_file, before);
}

#[test]
fn open_keeps_the_overlay_it_is_given() {
    let mut overlay = bplustree::Overlay::<u8, u8>::new();
    overlay.insert(4, 5);
    let mut tree_file: Vec<u8> = Vec::new();
    let btree = BTree::open(&mut tree_file, overlay, 1, 1).unwrap();
    assert_eq!(tree_file, header());
    assert!(btree.overlay().contains(&4, &5));
    assert_eq!(btree.overlay().len(), 1);
}

#[test]
fn compact_changes_nothing() {
    let mut tree_file: Vec<u8> = Vec::new();
    let mut wal_file: Vec<u8> = Vec::new();
    let mut btree = BTree::<u8, u8>::new(&mut tree_file, &wal_file, 1, 1).unwrap();
    btree.insert(2, 3, &mut wal_file).unwrap();
    btree.compact();
    assert!(btree.overlay().contains(&2, &3));
    assert_eq!(btree.overlay().len(), 1);
    assert!(btree.root().is_none());
    assert_eq!(wal_file, vec![2, 3]);
    assert_eq!(tree_file, header());
}

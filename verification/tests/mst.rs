use libipld::codec::Codec;
use libipld::Ipld;
use rsky_pds::cid::{cid_for_entries, node_data_bytes};
use rsky_pds::codec::{
    count_prefix_len, deserialize_node_data, layer_for_entries, serialize_node_data,
};
use rsky_pds::error::MstError;
use rsky_pds::fanout::{leading_zeros_on_digest, leading_zeros_on_hash};
use rsky_pds::keys::{ensure_valid_mst_key, is_valid_repo_mst_path};
use rsky_pds::node::{Cid, Leaf, NodeData, NodeEntry, TreeEntry, MST};
use std::collections::BTreeMap;

fn leaf(key: &str, cid_byte: u8) -> NodeEntry {
    NodeEntry::Leaf(Leaf {
        key: key.to_string(),
        value: Cid::new(vec![cid_byte; 4]),
    })
}

fn tree(cid_byte: u8, layer: Option<u32>) -> NodeEntry {
    NodeEntry::MST(MST::load(Cid::new(vec![cid_byte; 4]), layer))
}

#[test]
fn accepts_well_formed_keys() {
    assert!(is_valid_repo_mst_path(&"app.bsky.feed.post/3k2x".to_string()));
    assert!(is_valid_repo_mst_path(&"l/p".to_string()));
    assert!(is_valid_repo_mst_path(&"com.example:x_-9/A.B-c:d_e".to_string()));
    assert!(ensure_valid_mst_key(&"app.bsky.feed.post/3k2x".to_string()).is_ok());
}

#[test]
fn accepts_256_chars_rejects_257() {
    let collection = "com.example.record";
    let rkey_256 = "a".repeat(256 - collection.len() - 1);
    let key_256 = format!("{}/{}", collection, rkey_256);
    assert_eq!(key_256.len(), 256);
    assert!(is_valid_repo_mst_path(&key_256));

    let key_257 = format!("{}/{}a", collection, rkey_256);
    assert_eq!(key_257.len(), 257);
    assert!(!is_valid_repo_mst_path(&key_257));
}

#[test]
fn rejects_wrong_segment_counts() {
    assert!(!is_valid_repo_mst_path(&"asdj".to_string()));
    assert!(!is_valid_repo_mst_path(&"com.example/foo/bar".to_string()));
    assert!(!is_valid_repo_mst_path(&"/record".to_string()));
    assert!(!is_valid_repo_mst_path(&"collection/".to_string()));
    assert!(!is_valid_repo_mst_path(&"".to_string()));
}

#[test]
fn rejects_dot_record_keys() {
    assert!(!is_valid_repo_mst_path(&"a/.".to_string()));
    assert!(!is_valid_repo_mst_path(&"a/..".to_string()));
    assert!(is_valid_repo_mst_path(&"a/.well-known".to_string()));
}

#[test]
fn rejects_illegal_characters() {
    assert!(!is_valid_repo_mst_path(&"a/b@c".to_string()));
    assert!(!is_valid_repo_mst_path(&"a/b c".to_string()));
    assert!(!is_valid_repo_mst_path(&"a/b~c".to_string()));
    assert!(!is_valid_repo_mst_path(&"über/key".to_string()));
}

#[test]
fn invalid_key_error_names_the_key() {
    match ensure_valid_mst_key(&"asdj".to_string()) {
        Err(MstError::InvalidKey(k)) => assert_eq!(k, "asdj"),
        other => panic!("expected InvalidKey, got {:?}", other),
    }
}

#[test]
fn prefix_len_counts_shared_bytes() {
    assert_eq!(count_prefix_len(&"abcdefg".to_string(), &"abcdehi".to_string()), 5);
    assert_eq!(count_prefix_len(&"abc".to_string(), &"abd".to_string()), 2);
    assert_eq!(count_prefix_len(&"abc".to_string(), &"xyz".to_string()), 0);
    assert_eq!(count_prefix_len(&"".to_string(), &"abc".to_string()), 0);
    assert_eq!(count_prefix_len(&"a".to_string(), &"ab".to_string()), 1);
    assert_eq!(count_prefix_len(&"same".to_string(), &"same".to_string()), 4);
}

#[test]
fn leading_zero_groups_of_digest_bytes() {
    // Non-zero first byte ends the scan at its own contribution.
    assert_eq!(leading_zeros_on_digest(&vec![0x80, 0, 0]), 0);
    assert_eq!(leading_zeros_on_digest(&vec![0x40, 0, 0]), 0);
    assert_eq!(leading_zeros_on_digest(&vec![0x3f, 0, 0]), 1);
    assert_eq!(leading_zeros_on_digest(&vec![0x0f, 0, 0]), 2);
    assert_eq!(leading_zeros_on_digest(&vec![0x03, 0, 0]), 3);
    // A zero byte contributes four groups and the scan continues.
    assert_eq!(leading_zeros_on_digest(&vec![0x00, 0x00, 0x05, 0xff]), 10);
    assert_eq!(leading_zeros_on_digest(&vec![0x00; 4]), 16);
    assert_eq!(leading_zeros_on_digest(&Vec::new()), 0);
}

#[test]
fn layer_of_key_comes_from_its_hash() {
    // SHA-256("hello") begins 0x2c..., one leading zero 2-bit group.
    assert_eq!(leading_zeros_on_hash(&b"hello".to_vec()), 1);
    // SHA-256("abc") begins 0xba..., no leading zero groups.
    assert_eq!(leading_zeros_on_hash(&b"abc".to_vec()), 0);
}

#[test]
fn layer_is_stable_across_calls() {
    let key = b"app.bsky.feed.post/3k2x".to_vec();
    let first = leading_zeros_on_hash(&key);
    for _ in 0..3 {
        assert_eq!(leading_zeros_on_hash(&key), first);
    }
}

#[test]
fn layer_for_entries_reads_first_leaf() {
    let entries = vec![tree(1, None), leaf("hello", 2), leaf("zzz", 3)];
    assert_eq!(layer_for_entries(&entries), Some(1));
    let no_leaves = vec![tree(1, None)];
    assert_eq!(layer_for_entries(&no_leaves), None);
    assert_eq!(layer_for_entries(&Vec::new()), None);
}

#[test]
fn serialize_compresses_shared_prefixes() {
    let entries = vec![
        leaf("app.bsky.feed.post/3k2x", 1),
        leaf("app.bsky.feed.post/3k2y", 2),
    ];
    let data = serialize_node_data(&entries).unwrap();
    assert!(data.l.is_none());
    assert_eq!(data.e.len(), 2);
    assert_eq!(data.e[0].p, 0);
    assert_eq!(data.e[0].k, b"app.bsky.feed.post/3k2x".to_vec());
    assert_eq!(data.e[1].p, 22);
    assert_eq!(data.e[1].k, b"y".to_vec());
    assert!(data.e[1].t.is_none());
}

#[test]
fn serialize_takes_leading_subtree_as_left_pointer() {
    let entries = vec![tree(9, Some(0)), leaf("a/b", 1), tree(8, Some(0))];
    let data = serialize_node_data(&entries).unwrap();
    assert_eq!(data.l.as_ref().map(|c| c.bytes.clone()), Some(vec![9; 4]));
    assert_eq!(data.e.len(), 1);
    assert_eq!(data.e[0].t.as_ref().map(|c| c.bytes.clone()), Some(vec![8; 4]));
}

#[test]
fn serialize_rejects_adjacent_subtrees() {
    let entries = vec![tree(1, None), tree(2, None)];
    assert!(matches!(
        serialize_node_data(&entries),
        Err(MstError::AdjacentSubtrees)
    ));
    let entries = vec![leaf("a/b", 1), tree(2, None), tree(3, None)];
    assert!(matches!(
        serialize_node_data(&entries),
        Err(MstError::AdjacentSubtrees)
    ));
}

#[test]
fn serialize_rejects_invalid_keys() {
    let entries = vec![leaf("no-slash-here", 1)];
    assert!(matches!(
        serialize_node_data(&entries),
        Err(MstError::InvalidKey(_))
    ));
}

#[test]
fn serialize_rejects_unrepresentable_prefix() {
    let collection = "com.example.record";
    let rkey = "a".repeat(256 - collection.len() - 1);
    let key = format!("{}/{}", collection, rkey);
    let entries = vec![leaf(&key, 1), leaf(&key, 2)];
    assert!(matches!(
        serialize_node_data(&entries),
        Err(MstError::PrefixTooLong)
    ));
}

fn assert_entries_equal(a: &[NodeEntry], b: &[NodeEntry]) {
    assert_eq!(a.len(), b.len());
    for (x, y) in a.iter().zip(b.iter()) {
        match (x, y) {
            (NodeEntry::Leaf(lx), NodeEntry::Leaf(ly)) => {
                assert_eq!(lx.key, ly.key);
                assert_eq!(lx.value.bytes, ly.value.bytes);
            }
            (NodeEntry::MST(tx), NodeEntry::MST(ty)) => {
                assert_eq!(tx.pointer.bytes, ty.pointer.bytes);
                assert_eq!(tx.layer, ty.layer);
            }
            _ => panic!("entry kinds differ"),
        }
    }
}

#[test]
fn round_trip_without_layer_hint() {
    let entries = vec![
        tree(9, None),
        leaf("app.bsky.feed.post/3k2x", 1),
        leaf("app.bsky.feed.post/3k2y", 2),
        tree(8, None),
        leaf("com.example.other/abc", 3),
    ];
    let data = serialize_node_data(&entries).unwrap();
    let back = deserialize_node_data(&data, None).unwrap();
    assert_entries_equal(&entries, &back);
}

#[test]
fn round_trip_decrements_layer_hint() {
    let entries = vec![tree(9, Some(1)), leaf("a/b", 1), tree(8, Some(1))];
    let data = serialize_node_data(&entries).unwrap();
    let back = deserialize_node_data(&data, Some(2)).unwrap();
    assert_entries_equal(&entries, &back);
}

#[test]
fn deserialize_rejects_corrupt_nodes() {
    // Prefix pointing past the preceding key.
    let data = NodeData {
        l: None,
        e: vec![TreeEntry { p: 5, k: b"x/y".to_vec(), v: Cid::new(vec![1; 4]), t: None }],
    };
    assert!(matches!(
        deserialize_node_data(&data, None),
        Err(MstError::PrefixTooLong)
    ));

    // Key bytes that are not UTF-8.
    let data = NodeData {
        l: None,
        e: vec![TreeEntry { p: 0, k: vec![0xff, 0xfe], v: Cid::new(vec![1; 4]), t: None }],
    };
    assert!(matches!(
        deserialize_node_data(&data, None),
        Err(MstError::InvalidUtf8)
    ));

    // A decoded key that fails validation.
    let data = NodeData {
        l: None,
        e: vec![TreeEntry { p: 0, k: b"noslash".to_vec(), v: Cid::new(vec![1; 4]), t: None }],
    };
    assert!(matches!(
        deserialize_node_data(&data, None),
        Err(MstError::InvalidKey(_))
    ));

    // A subtree claimed below layer zero.
    let data = NodeData { l: Some(Cid::new(vec![7; 4])), e: Vec::new() };
    assert!(matches!(
        deserialize_node_data(&data, Some(0)),
        Err(MstError::LayerUnderflow)
    ));
}

#[test]
fn canonical_bytes_of_empty_node() {
    let data = NodeData { l: None, e: Vec::new() };
    // {"e": [], "l": null} in canonical DAG-CBOR.
    assert_eq!(
        node_data_bytes(&data),
        vec![0xa2, 0x61, 0x65, 0x80, 0x61, 0x6c, 0xf6]
    );
}

#[test]
fn canonical_bytes_match_dag_cbor() {
    // Links in DAG-CBOR must be real CIDs, so point the leaves at the
    // identifier of the empty node.
    let value = cid_for_entries(&Vec::new()).unwrap();
    let value_cid = libipld::Cid::try_from(value.bytes.as_slice()).unwrap();
    let entries = vec![
        NodeEntry::Leaf(Leaf {
            key: "app.bsky.feed.post/3k2x".to_string(),
            value: Cid::new(value.bytes.clone()),
        }),
        NodeEntry::Leaf(Leaf {
            key: "app.bsky.feed.post/3k2y".to_string(),
            value: Cid::new(value.bytes.clone()),
        }),
    ];
    let data = serialize_node_data(&entries).unwrap();
    let ours = node_data_bytes(&data);

    let entry = |suffix: &[u8], p: i128| {
        let mut m = BTreeMap::new();
        m.insert("k".to_string(), Ipld::Bytes(suffix.to_vec()));
        m.insert("p".to_string(), Ipld::Integer(p));
        m.insert("t".to_string(), Ipld::Null);
        m.insert("v".to_string(), Ipld::Link(value_cid));
        Ipld::StringMap(m)
    };
    let mut top = BTreeMap::new();
    top.insert(
        "e".to_string(),
        Ipld::List(vec![entry(b"app.bsky.feed.post/3k2x", 0), entry(b"y", 22)]),
    );
    top.insert("l".to_string(), Ipld::Null);
    let theirs = libipld::cbor::DagCborCodec.encode(&Ipld::StringMap(top)).unwrap();
    assert_eq!(ours, theirs);
}

#[test]
fn same_entries_same_root_identifier() {
    let build = || {
        vec![
            leaf("app.bsky.feed.post/3k2x", 1),
            leaf("app.bsky.feed.post/3k2y", 2),
        ]
    };
    let first = cid_for_entries(&build()).unwrap();
    let second = cid_for_entries(&build()).unwrap();
    assert_eq!(first.bytes, second.bytes);
    // CIDv1, DAG-CBOR codec, SHA2-256 multihash, 32-byte digest.
    assert_eq!(first.bytes.len(), 36);
    assert_eq!(&first.bytes[0..4], &[0x01, 0x71, 0x12, 0x20]);
}

#[test]
fn different_entries_different_root_identifier() {
    let a = cid_for_entries(&vec![leaf("a/b", 1)]).unwrap();
    let b = cid_for_entries(&vec![leaf("a/c", 1)]).unwrap();
    assert_ne!(a.bytes, b.bytes);
}

#[test]
fn cid_for_entries_surfaces_serialization_errors() {
    let entries = vec![tree(1, None), tree(2, None)];
    assert!(matches!(
        cid_for_entries(&entries),
        Err(MstError::AdjacentSubtrees)
    ));
}

#[test]
fn entry_kind_queries() {
    assert!(leaf("a/b", 1).is_leaf());
    assert!(!leaf("a/b", 1).is_tree());
    assert!(tree(1, None).is_tree());
    assert!(!tree(1, None).is_leaf());
}

#[test]
fn error_messages_name_the_failure() {
    assert_eq!(
        MstError::AdjacentSubtrees.message(),
        "not a valid node: two subtrees next to each other"
    );
    assert_eq!(MstError::InvalidKey("x".to_string()).message(), "invalid MST key");
}

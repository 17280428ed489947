use shairport_sync_rs::pairing_store::{
    decode_hex_32, encode_hex_32, hex_to_nibble, nibble_to_hex, FilePairingStore, PairingFileState,
};

fn new_store() -> FilePairingStore {
    FilePairingStore::new("/tmp/shairport-sync-rs-ap2-pairing-store.toml".to_string(), PairingFileState::default())
}

#[test]
fn persists_pairing_and_identity_across_reloads() {
    let mut store = new_store();
    let key = [3u8; 32];
    let seed = [9u8; 32];
    store.put("dev-1", key);
    store.save_identity(seed);

    let reloaded = FilePairingStore::new(store.path().clone(), store.state().clone());
    assert_eq!(reloaded.get("dev-1"), Some(key));
    assert_eq!(reloaded.load_identity(), Some(seed));
    assert!(reloaded.has_any_pairing());
}

#[test]
fn remove_deletes_pairing() {
    let mut store = new_store();
    store.put("dev-1", [7u8; 32]);
    assert!(store.has_any_pairing());

    store.remove("dev-1");
    assert_eq!(store.get("dev-1"), None);
    assert!(!store.has_any_pairing());
}

#[test]
fn put_replaces_and_keeps_others() {
    let mut store = new_store();
    store.put("a", [1u8; 32]);
    store.put("b", [2u8; 32]);
    store.put("a", [4u8; 32]);
    assert_eq!(store.get("a"), Some([4u8; 32]));
    assert_eq!(store.get("b"), Some([2u8; 32]));
    assert_eq!(store.state().paired_devices_hex.len(), 2);
    store.remove("a");
    assert_eq!(store.get("a"), None);
    assert_eq!(store.get("b"), Some([2u8; 32]));
    assert_eq!(store.load_identity(), None);
}

#[test]
fn stored_text_that_is_not_hex_reads_as_nothing() {
    let state = PairingFileState {
        identity_seed_hex: Some("zz".to_string()),
        paired_devices_hex: vec![("dev".to_string(), "0".repeat(63))],
    };
    let store = FilePairingStore::new("p".to_string(), state);
    assert_eq!(store.get("dev"), None);
    assert_eq!(store.load_identity(), None);
    assert!(store.has_any_pairing());
}

#[test]
fn later_entry_for_an_id_holds() {
    let state = PairingFileState {
        identity_seed_hex: None,
        paired_devices_hex: vec![
            ("dev".to_string(), "00".repeat(32)),
            ("dev".to_string(), "ff".repeat(32)),
        ],
    };
    let store = FilePairingStore::new("p".to_string(), state);
    assert_eq!(store.get("dev"), Some([0xffu8; 32]));
}

#[test]
fn hex_encoding_is_lowercase_high_nibble_first() {
    let mut bytes = [0u8; 32];
    bytes[0] = 0xab;
    bytes[1] = 0x01;
    bytes[31] = 0xf0;
    let text = encode_hex_32(bytes);
    assert_eq!(text.len(), 64);
    assert!(text.starts_with("ab01"));
    assert!(text.ends_with("f0"));
    assert_eq!(decode_hex_32(&text), Some(bytes));
    assert_eq!(decode_hex_32(&text.to_uppercase()), Some(bytes));
}

#[test]
fn decode_rejects_wrong_length_and_non_hex() {
    assert_eq!(decode_hex_32(""), None);
    assert_eq!(decode_hex_32(&"a".repeat(65)), None);
    let mut bad = "a".repeat(63);
    bad.push('g');
    assert_eq!(decode_hex_32(&bad), None);
    let mut wide = "a".repeat(62);
    wide.push('\u{e9}');
    assert_eq!(decode_hex_32(&wide), None);
}

#[test]
fn nibbles_map_both_ways() {
    for v in 0u8..16 {
        let c = nibble_to_hex(v);
        assert_eq!(hex_to_nibble(c as u8), Some(v));
    }
    assert_eq!(nibble_to_hex(10), 'a');
    assert_eq!(hex_to_nibble(b'F'), Some(15));
    assert_eq!(hex_to_nibble(b'G'), None);
}

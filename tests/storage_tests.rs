use circuitchat::storage::{
    create_store, derive_key, open_store, unlock_store, MessageDirection, StoreError, StoreMeta,
    StoredRow,
};

#[test]
fn reopen_with_same_passphrase() {
    let (key, meta) = create_store("p1").unwrap();
    assert_eq!(meta.salt.len(), 16);
    let again = unlock_store("p1", &meta.salt, &meta.verifier).unwrap();
    let blob = key.encrypt(b"hi").unwrap();
    assert_eq!(again.decrypt(&blob), Ok(b"hi".to_vec()));
}

#[test]
fn wrong_passphrase_is_refused() {
    let (_key, meta) = create_store("p1").unwrap();
    assert!(matches!(
        unlock_store("p2", &meta.salt, &meta.verifier),
        Err(StoreError::WrongPassphrase)
    ));
}

#[test]
fn corrupt_salt_is_refused() {
    assert!(matches!(unlock_store("p", &[1u8; 15], &[0u8; 40]), Err(StoreError::CorruptSalt)));
}

#[test]
fn verifier_opens_to_sentinel() {
    let (key, meta) = create_store("pass").unwrap();
    assert_eq!(key.decrypt(&meta.verifier), Ok(b"circuitchat".to_vec()));
    assert_eq!(meta.verifier.len(), 24 + 11 + 16);
}

#[test]
fn seal_open_and_failures() {
    let key = derive_key("k", &[7u8; 16]).unwrap();
    let blob = key.encrypt(b"payload").unwrap();
    assert_eq!(blob.len(), 24 + 7 + 16);
    assert_eq!(key.decrypt(&blob), Ok(b"payload".to_vec()));
    let other = key.encrypt(b"payload").unwrap();
    assert_ne!(blob, other);
    let mut bad = blob.clone();
    bad[30] ^= 0x80;
    assert_eq!(key.decrypt(&bad), Err(StoreError::Decryption));
    assert_eq!(key.decrypt(&[0u8; 23]), Err(StoreError::Decryption));
}

#[test]
fn history_round_trip() {
    let key = derive_key("history", &[3u8; 16]).unwrap();
    let writes: Vec<(MessageDirection, &[u8], i64)> = vec![
        (MessageDirection::Sent, &b"hello"[..], 100),
        (MessageDirection::Received, &b"hi there"[..], 101),
        (MessageDirection::Sent, &b""[..], 102),
    ];
    let rows: Vec<StoredRow> = writes
        .iter()
        .map(|(d, p, t)| StoredRow {
            direction: d.as_str().to_string(),
            content: key.encrypt(p).unwrap(),
            timestamp: *t,
        })
        .collect();
    let loaded = key.load_history(&rows).unwrap();
    assert_eq!(loaded.len(), 3);
    for (m, (d, p, t)) in loaded.iter().zip(writes.iter()) {
        assert_eq!(m.direction, *d);
        assert_eq!(m.content, p.to_vec());
        assert_eq!(m.timestamp, *t);
    }
}

#[test]
fn history_with_bad_blob_fails() {
    let key = derive_key("history", &[3u8; 16]).unwrap();
    let rows = vec![
        StoredRow { direction: "sent".to_string(), content: key.encrypt(b"ok").unwrap(), timestamp: 1 },
        StoredRow { direction: "sent".to_string(), content: vec![0u8; 40], timestamp: 2 },
    ];
    assert!(matches!(key.load_history(&rows), Err(StoreError::Decryption)));
}

#[test]
fn directions_as_text() {
    assert_eq!(MessageDirection::Sent.as_str(), "sent");
    assert_eq!(MessageDirection::Received.as_str(), "received");
    assert_eq!(MessageDirection::from_str("sent"), MessageDirection::Sent);
    assert_eq!(MessageDirection::from_str("received"), MessageDirection::Received);
    assert_eq!(MessageDirection::from_str("other"), MessageDirection::Received);
}

#[test]
fn history_comes_back_in_time_order() {
    let key = derive_key("order", &[5u8; 16]).unwrap();
    let rows: Vec<StoredRow> = [(105i64, "a"), (100, "b"), (105, "c"), (101, "d"), (100, "e")]
        .iter()
        .map(|(t, p)| StoredRow {
            direction: "received".to_string(),
            content: key.encrypt(p.as_bytes()).unwrap(),
            timestamp: *t,
        })
        .collect();
    let loaded = key.load_history(&rows).unwrap();
    let got: Vec<(i64, String)> = loaded
        .iter()
        .map(|m| (m.timestamp, String::from_utf8(m.content.clone()).unwrap()))
        .collect();
    let want: Vec<(i64, String)> = vec![
        (100, "b".to_string()),
        (100, "e".to_string()),
        (101, "d".to_string()),
        (105, "a".to_string()),
        (105, "c".to_string()),
    ];
    assert_eq!(got, want);
}

#[test]
fn both_sides_keep_one_row_of_a_text() {
    let alice = derive_key("alice", &[1u8; 16]).unwrap();
    let bob = derive_key("bob", &[2u8; 16]).unwrap();
    let sent = vec![StoredRow {
        direction: MessageDirection::Sent.as_str().to_string(),
        content: alice.encrypt(b"hello").unwrap(),
        timestamp: 7,
    }];
    let received = vec![StoredRow {
        direction: MessageDirection::Received.as_str().to_string(),
        content: bob.encrypt(b"hello").unwrap(),
        timestamp: 7,
    }];
    let a = alice.load_history(&sent).unwrap();
    let b = bob.load_history(&received).unwrap();
    assert_eq!(a.len(), 1);
    assert_eq!(b.len(), 1);
    assert_eq!(a[0].direction, MessageDirection::Sent);
    assert_eq!(b[0].direction, MessageDirection::Received);
    assert_eq!(a[0].content, b[0].content);
    assert_eq!(a[0].content, b"hello".to_vec());
}

#[test]
fn open_store_creates_then_reopens() {
    let (key, created) = open_store("pp", None).unwrap();
    let meta = created.unwrap();
    assert_eq!(meta.salt.len(), 16);
    let blob = key.encrypt(b"kept").unwrap();
    let (again, nothing_new) = open_store("pp", Some(&meta)).unwrap();
    assert!(nothing_new.is_none());
    assert_eq!(again.decrypt(&blob), Ok(b"kept".to_vec()));
    assert!(matches!(open_store("other", Some(&meta)), Err(StoreError::WrongPassphrase)));
    let bad = StoreMeta { salt: vec![0u8; 8], verifier: meta.verifier.clone() };
    assert!(matches!(open_store("pp", Some(&bad)), Err(StoreError::CorruptSalt)));
}

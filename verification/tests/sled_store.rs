use kvs::{KvStoreError, KvsEngine, SledKvsStore};

fn temporary() -> SledKvsStore {
    let db = sled::Config::new().temporary(true).open().unwrap();
    SledKvsStore::opened(Ok(db)).unwrap()
}

#[test]
fn a_failure_to_open_is_a_sled_error() {
    let failure = Err(sled::Error::Unsupported("closed".to_string()));
    assert!(matches!(SledKvsStore::opened(failure), Err(KvStoreError::SledError)));
}

#[test]
fn sled_store_runs_the_scenario() {
    let store = temporary();
    store.set("a".to_string(), "1".to_string()).unwrap();
    store.set("b".to_string(), "2".to_string()).unwrap();
    assert_eq!(store.get("a".to_string()), Ok(Some("1".to_string())));
    store.remove("a".to_string()).unwrap();
    assert_eq!(store.get("a".to_string()), Ok(None));
    assert_eq!(store.remove("a".to_string()), Err(KvStoreError::RemoveNonexistingKey));
    assert_eq!(store.get("b".to_string()), Ok(Some("2".to_string())));
}

#[test]
fn clones_of_a_sled_store_share_the_database() {
    let store = temporary();
    let other = store.clone();
    store.set("k".to_string(), "v".to_string()).unwrap();
    assert_eq!(other.get("k".to_string()), Ok(Some("v".to_string())));
}

#[test]
fn a_value_found_is_read_as_text() {
    assert_eq!(SledKvsStore::found(None), Ok(None));
    assert_eq!(SledKvsStore::found(Some(b"plain".to_vec())), Ok(Some("plain".to_string())));
    assert_eq!(
        SledKvsStore::found(Some(vec![0xc3, 0xa9, 0xe4, 0xb8, 0xad])),
        Ok(Some("\u{00e9}\u{4e2d}".to_string()))
    );
    assert_eq!(SledKvsStore::found(Some(Vec::new())), Ok(Some(String::new())));
    assert_eq!(SledKvsStore::found(Some(vec![0xff])), Err(KvStoreError::SledError));
    assert_eq!(SledKvsStore::found(Some(vec![0xc3])), Err(KvStoreError::SledError));
}

#[test]
fn a_removal_needs_a_value_that_was_there() {
    assert_eq!(SledKvsStore::removed(Some(b"old".to_vec())), Ok(()));
    assert_eq!(SledKvsStore::removed(None), Err(KvStoreError::RemoveNonexistingKey));
}

#[test]
fn an_answer_of_the_database_is_handed_on_and_a_failure_is_a_sled_error() {
    assert_eq!(SledKvsStore::answered(Ok(7usize)), Ok(7));
    assert_eq!(SledKvsStore::answered(Ok(Some(b"v".to_vec()))), Ok(Some(b"v".to_vec())));
    let failure: Result<usize, sled::Error> = Err(sled::Error::Unsupported("no".to_string()));
    assert_eq!(SledKvsStore::answered(failure), Err(KvStoreError::SledError));
}

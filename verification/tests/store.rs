use kvs::engines::kv::{append_file, deserialize, is_compaction_due};
use kvs::index::EntryPos;
use kvs::{KvStore, KvStoreError};

fn fresh() -> KvStore {
    KvStore::open(Vec::new()).unwrap()
}

fn text(s: &str) -> String {
    s.to_string()
}

#[test]
fn set_get_remove_scenario() {
    let mut store = fresh();
    store.set(text("a"), text("1")).unwrap();
    store.set(text("b"), text("2")).unwrap();
    assert_eq!(store.get(text("a")), Ok(Some(text("1"))));
    store.remove(text("a")).unwrap();
    assert_eq!(store.get(text("a")), Ok(None));
    assert_eq!(store.remove(text("a")), Err(KvStoreError::RemoveNonexistingKey));
    assert_eq!(store.get(text("b")), Ok(Some(text("2"))));
}

#[test]
fn get_returns_the_last_value_set() {
    let mut store = fresh();
    store.set(text("k"), text("first")).unwrap();
    store.set(text("other"), text("x")).unwrap();
    assert_eq!(store.get(text("k")), Ok(Some(text("first"))));
    store.set(text("k"), text("second")).unwrap();
    store.set(text("other"), text("y")).unwrap();
    assert_eq!(store.get(text("k")), Ok(Some(text("second"))));
    assert_eq!(store.get(text("other")), Ok(Some(text("y"))));
}

#[test]
fn get_of_a_key_never_set_is_none() {
    let store = fresh();
    assert_eq!(store.get(text("missing")), Ok(None));
    assert_eq!(store.len(), 0);
}

#[test]
fn remove_leaves_no_value_and_fails_the_second_time() {
    let mut store = fresh();
    store.set(text("k"), text("v")).unwrap();
    store.set(text("keep"), text("w")).unwrap();
    assert_eq!(store.remove(text("k")), Ok(()));
    assert_eq!(store.get(text("k")), Ok(None));
    assert_eq!(store.remove(text("k")), Err(KvStoreError::RemoveNonexistingKey));
    assert_eq!(store.get(text("keep")), Ok(Some(text("w"))));
}

#[test]
fn remove_of_a_missing_key_writes_nothing() {
    let mut store = fresh();
    store.set(text("k"), text("v")).unwrap();
    let before = store.log().clone();
    let total = store.total();
    assert_eq!(store.remove(text("absent")), Err(KvStoreError::RemoveNonexistingKey));
    assert_eq!(store.log(), &before);
    assert_eq!(store.total(), total);
}

#[test]
fn entries_are_written_as_json_objects_without_separators() {
    let mut store = fresh();
    store.set(text("a"), text("1")).unwrap();
    assert_eq!(store.log().as_slice(), br#"{"key":"a","value":"1"}"#);
    store.set(text("b"), text("2")).unwrap();
    assert_eq!(
        store.log().as_slice(),
        br#"{"key":"a","value":"1"}{"key":"b","value":"2"}"#
    );
    assert_eq!(store.total(), 2);
}

#[test]
fn a_removal_is_written_as_an_entry_with_a_null_value() {
    let mut store = fresh();
    store.set(text("a"), text("1")).unwrap();
    store.set(text("b"), text("2")).unwrap();
    store.set(text("c"), text("3")).unwrap();
    store.remove(text("a")).unwrap();
    assert_eq!(
        store.log().as_slice(),
        br#"{"key":"a","value":"1"}{"key":"b","value":"2"}{"key":"c","value":"3"}{"key":"a","value":null}"#
    );
    assert_eq!(store.len(), 2);
    assert_eq!(store.total(), 4);
}

#[test]
fn text_that_needs_escaping_comes_back_unchanged() {
    let mut store = fresh();
    let key = text("quote\" back\\slash\nline\ttab \u{1F600} \u{0001}");
    let value = text("{\"key\":\"x\",\"value\":null} \u{00e9}\u{4e2d}");
    store.set(key.clone(), value.clone()).unwrap();
    store.set(text(""), text("")).unwrap();
    assert_eq!(store.get(key.clone()), Ok(Some(value.clone())));
    assert_eq!(store.get(text("")), Ok(Some(text(""))));
    let again = KvStore::open(store.log().clone()).unwrap();
    assert_eq!(again.get(key), Ok(Some(value)));
    assert_eq!(again.get(text("")), Ok(Some(text(""))));
}

#[test]
fn reopening_the_log_gives_the_same_values() {
    let mut store = fresh();
    for i in 0..20 {
        store.set(format!("key{}", i), format!("value{}", i)).unwrap();
    }
    for i in 0..20 {
        if i % 3 == 0 {
            store.remove(format!("key{}", i)).unwrap();
        }
        if i % 4 == 1 {
            store.set(format!("key{}", i), format!("again{}", i)).unwrap();
        }
    }
    let again = KvStore::open(store.log().clone()).unwrap();
    assert_eq!(again.log(), store.log());
    assert_eq!(again.len(), store.len());
    for i in 0..20 {
        assert_eq!(again.get(format!("key{}", i)), store.get(format!("key{}", i)));
    }
    assert_eq!(again.get(text("key0")), Ok(None));
    assert_eq!(again.get(text("key1")), Ok(Some(text("again1"))));
    assert_eq!(again.get(text("key2")), Ok(Some(text("value2"))));
}

#[test]
fn reopening_starts_the_counter_at_zero() {
    let mut store = fresh();
    store.set(text("a"), text("1")).unwrap();
    store.set(text("b"), text("2")).unwrap();
    assert_eq!(store.total(), 2);
    let again = KvStore::open(store.log().clone()).unwrap();
    assert_eq!(again.total(), 0);
    assert_eq!(again.len(), 2);
}

#[test]
fn overwriting_most_keys_compacts_the_log_and_keeps_the_values() {
    let mut store = fresh();
    for i in 0..10 {
        store.set(format!("key{}", i), text("first")).unwrap();
    }
    assert_eq!(store.total(), 10);
    let mut latest = vec![text("first"); 10];
    let mut writes = 10;
    let mut compacted_at = None;
    let mut round = 0;
    while compacted_at.is_none() {
        for i in 0..7 {
            let value = format!("round{}-{}", round, i);
            store.set(format!("key{}", i), value.clone()).unwrap();
            latest[i] = value;
            writes += 1;
            if store.total() == 0 {
                compacted_at = Some(writes);
                break;
            }
            assert_eq!(store.total(), writes);
        }
        round += 1;
        assert!(round < 10);
    }
    // 10 live keys of 26 entries is the first ratio under 0.4
    assert_eq!(compacted_at, Some(26));
    assert_eq!(store.len(), 10);
    for i in 0..10 {
        assert_eq!(store.get(format!("key{}", i)), Ok(Some(latest[i].clone())));
    }
    let again = KvStore::open(store.log().clone()).unwrap();
    assert_eq!(again.len(), 10);
    for i in 0..10 {
        assert_eq!(again.get(format!("key{}", i)), Ok(Some(latest[i].clone())));
    }
}

#[test]
fn a_compaction_leaves_one_entry_for_each_live_key() {
    let mut store = fresh();
    store.set(text("a"), text("1")).unwrap();
    store.set(text("a"), text("2")).unwrap();
    assert_eq!(
        store.log().as_slice(),
        br#"{"key":"a","value":"1"}{"key":"a","value":"2"}"#
    );
    // one live key of three entries: 1/3 < 0.4
    store.set(text("a"), text("3")).unwrap();
    assert_eq!(store.log().as_slice(), br#"{"key":"a","value":"3"}"#);
    assert_eq!(store.get(text("a")), Ok(Some(text("3"))));
}

#[test]
fn a_compaction_resets_the_counter_to_zero_not_to_the_live_count() {
    let mut store = fresh();
    store.set(text("a"), text("1")).unwrap();
    store.set(text("b"), text("1")).unwrap();
    store.set(text("a"), text("2")).unwrap();
    store.set(text("a"), text("3")).unwrap();
    store.set(text("a"), text("4")).unwrap();
    assert_eq!(store.total(), 5);
    // two live keys of six entries: 2/6 < 0.4
    store.set(text("a"), text("5")).unwrap();
    assert_eq!(store.len(), 2);
    assert_eq!(store.total(), 0);
    assert_eq!(
        store.log().as_slice(),
        br#"{"key":"a","value":"5"}{"key":"b","value":"1"}"#
    );
    // the next write counts alone: 2/1 is far from 0.4, no second compaction
    store.set(text("b"), text("2")).unwrap();
    assert_eq!(store.total(), 1);
    assert_eq!(
        store.log().as_slice(),
        br#"{"key":"a","value":"5"}{"key":"b","value":"1"}{"key":"b","value":"2"}"#
    );
}

#[test]
fn removing_the_last_key_compacts_to_an_empty_log() {
    let mut store = fresh();
    store.set(text("a"), text("1")).unwrap();
    store.remove(text("a")).unwrap();
    assert!(store.log().is_empty());
    assert_eq!(store.total(), 0);
    assert_eq!(store.get(text("a")), Ok(None));
}

#[test]
fn a_rewrite_on_demand_keeps_every_value() {
    let mut store = fresh();
    for i in 0..5 {
        store.set(format!("k{}", i), format!("v{}", i)).unwrap();
    }
    store.set(text("k0"), text("new")).unwrap();
    let longer = store.log().len();
    assert!(!store.needs_compaction());
    assert_eq!(store.rewrite(), Ok(()));
    assert!(store.log().len() < longer);
    assert_eq!(store.total(), 0);
    assert_eq!(store.get(text("k0")), Ok(Some(text("new"))));
    for i in 1..5 {
        assert_eq!(store.get(format!("k{}", i)), Ok(Some(format!("v{}", i))));
    }
}

#[test]
fn compaction_is_due_under_four_tenths() {
    assert!(!is_compaction_due(2, 5));
    assert!(is_compaction_due(1, 3));
    assert!(is_compaction_due(0, 1));
    assert!(!is_compaction_due(0, 0));
    assert!(!is_compaction_due(1, 0));
    assert!(!is_compaction_due(10, 25));
    assert!(is_compaction_due(10, 26));
    assert!(is_compaction_due(3_999_999, 10_000_000));
    assert!(!is_compaction_due(usize::MAX, usize::MAX));
    assert!(is_compaction_due(usize::MAX / 3, usize::MAX));
}

#[test]
fn open_replays_a_log_written_by_hand() {
    let log = br#"{"key":"a","value":"1"}{"key":"b","value":"2"}{"key":"a","value":null}{"key":"b","value":"3"}"#;
    let store = KvStore::open(log.to_vec()).unwrap();
    assert_eq!(store.get(text("a")), Ok(None));
    assert_eq!(store.get(text("b")), Ok(Some(text("3"))));
    assert!(!store.contains(&text("a")));
    assert!(store.contains(&text("b")));
    assert_eq!(store.len(), 1);
    assert_eq!(store.total(), 0);
    assert_eq!(store.log().as_slice(), &log[..]);
}

#[test]
fn open_accepts_space_between_entries_and_drops_it_at_the_end() {
    let log = b" {\"key\": \"a\", \"value\": \"1\"}\n{\"value\":\"2\",\"key\":\"b\"} \n";
    let mut store = KvStore::open(log.to_vec()).unwrap();
    assert_eq!(store.get(text("a")), Ok(Some(text("1"))));
    assert_eq!(store.get(text("b")), Ok(Some(text("2"))));
    assert_eq!(store.log().as_slice(), &log[..log.len() - 2]);
    store.set(text("c"), text("3")).unwrap();
    let again = KvStore::open(store.log().clone()).unwrap();
    assert_eq!(again.get(text("a")), Ok(Some(text("1"))));
    assert_eq!(again.get(text("b")), Ok(Some(text("2"))));
    assert_eq!(again.get(text("c")), Ok(Some(text("3"))));
}

#[test]
fn open_takes_an_entry_without_value_for_a_removal() {
    let log = br#"{"key":"a","value":"1"}{"key":"a"}"#;
    let store = KvStore::open(log.to_vec()).unwrap();
    assert_eq!(store.get(text("a")), Ok(None));
    assert_eq!(store.len(), 0);
}

#[test]
fn open_fails_on_a_malformed_entry() {
    assert!(matches!(
        KvStore::open(br#"{"key":"a","value":"1"}{"key":"b","val"#.to_vec()),
        Err(KvStoreError::SerdeError)
    ));
    assert!(matches!(KvStore::open(b"[1,2]".to_vec()), Err(KvStoreError::SerdeError)));
    assert!(matches!(
        KvStore::open(br#"{"value":"1"}"#.to_vec()),
        Err(KvStoreError::SerdeError)
    ));
    assert!(matches!(
        KvStore::open(br#"{"key":null,"value":"1"}"#.to_vec()),
        Err(KvStoreError::SerdeError)
    ));
    assert!(matches!(
        KvStore::open(br#"{"key":"a","value":1}"#.to_vec()),
        Err(KvStoreError::SerdeError)
    ));
    assert!(matches!(KvStore::open(vec![0xff, 0xfe]), Err(KvStoreError::SerdeError)));
}

#[test]
fn open_of_an_empty_log_gives_an_empty_store() {
    let store = KvStore::open(Vec::new()).unwrap();
    assert_eq!(store.len(), 0);
    assert_eq!(store.total(), 0);
    assert!(store.log().is_empty());
    assert!(!store.needs_compaction());
}

#[test]
fn append_file_returns_the_span_of_the_new_bytes() {
    let mut log = b"abc".to_vec();
    let pos = append_file(&mut log, b"defgh".to_vec());
    assert_eq!(pos, EntryPos { offset: 3, size: 5 });
    assert_eq!(log.as_slice(), b"abcdefgh");
    let pos = append_file(&mut log, Vec::new());
    assert_eq!(pos, EntryPos { offset: 8, size: 0 });
}

#[test]
fn deserialize_reads_the_entry_in_a_span() {
    let log = br#"{"key":"a","value":"1"}{"key":"b","value":null}"#.to_vec();
    let first = deserialize(&log, EntryPos { offset: 0, size: 23 }).unwrap();
    assert_eq!(first.key, "a");
    assert_eq!(first.value, Some(text("1")));
    let second = deserialize(&log, EntryPos { offset: 23, size: 24 }).unwrap();
    assert_eq!(second.key, "b");
    assert_eq!(second.value, None);
    assert!(second.is_remove());
}

#[test]
fn deserialize_fails_outside_the_log_and_across_entries() {
    let log = br#"{"key":"a","value":"1"}{"key":"b","value":null}"#.to_vec();
    assert_eq!(
        deserialize(&log, EntryPos { offset: 40, size: 24 }),
        Err(KvStoreError::SerdeError)
    );
    assert_eq!(
        deserialize(&log, EntryPos { offset: usize::MAX, size: 2 }),
        Err(KvStoreError::SerdeError)
    );
    assert_eq!(
        deserialize(&log, EntryPos { offset: 0, size: 47 }),
        Err(KvStoreError::SerdeError)
    );
    assert_eq!(
        deserialize(&log, EntryPos { offset: 1, size: 22 }),
        Err(KvStoreError::SerdeError)
    );
}

#[test]
fn append_entry_records_what_encode_returned() {
    let mut store = fresh();
    let entry = kvs::entry::Entry { key: text("k"), value: Some(text("v")) };
    let bytes = entry.encode().unwrap();
    store.append_entry(entry, bytes);
    assert_eq!(store.get(text("k")), Ok(Some(text("v"))));
    assert_eq!(store.total(), 1);
    assert_eq!(store.log().as_slice(), br#"{"key":"k","value":"v"}"#);
    let removal = kvs::entry::Entry { key: text("k"), value: None };
    let bytes = removal.encode().unwrap();
    store.append_entry(removal, bytes);
    assert_eq!(store.get(text("k")), Ok(None));
    assert_eq!(store.total(), 2);
    // none of two entries is live: a compaction is due, and nothing has made one yet
    assert!(store.needs_compaction());
    let next = store.compacted().unwrap();
    assert!(next.log().is_empty());
    assert_eq!(next.total(), 0);
    assert_eq!(store.log().len(), 47);
}

#[test]
fn mapping_from_log_gives_the_span_of_the_last_entry_of_each_key() {
    let log = br#"{"key":"a","value":"1"}{"key":"b","value":"2"} {"key":"a","value":"10"}{"key":"b","value":null}  "#.to_vec();
    let (index, end) = kvs::engines::kv::KvStore::mapping_from_log(&log).unwrap();
    assert_eq!(end, 95);
    assert_eq!(index.len(), 1);
    // the span of an entry starts behind the entry before it
    assert_eq!(index.get(&text("a")), Some(EntryPos { offset: 46, size: 25 }));
    assert_eq!(index.get(&text("b")), None);
    assert_eq!(
        deserialize(&log, EntryPos { offset: 46, size: 25 }).unwrap().value,
        Some(text("10"))
    );
    assert!(matches!(
        KvStore::mapping_from_log(&b"{\"key\":\"a\",\"value\":\"1\"}]".to_vec()),
        Err(KvStoreError::SerdeError)
    ));
    let (empty, end) = KvStore::mapping_from_log(&b" \n".to_vec()).unwrap();
    assert_eq!(empty.len(), 0);
    assert_eq!(end, 0);
}

/// A small generator of numbers, so that a long run is the same every time.
struct Numbers(u64);

impl Numbers {
    fn next(&mut self, below: u64) -> u64 {
        self.0 = self.0.wrapping_mul(6364136223846793005).wrapping_add(1442695040888963407);
        (self.0 >> 33) % below
    }
}

#[test]
fn the_store_agrees_with_a_map_over_a_long_run_with_compactions() {
    let mut numbers = Numbers(7);
    let mut store = fresh();
    let mut model = std::collections::HashMap::new();
    let mut compactions = 0;
    for step in 0..3000u64 {
        let key = format!("key{}", numbers.next(40));
        match numbers.next(10) {
            0..=5 => {
                let value = format!("value{}", step);
                assert_eq!(store.set(key.clone(), value.clone()), Ok(()));
                model.insert(key, value);
            }
            6..=7 => {
                let expected = match model.remove(&key) {
                    Some(_) => Ok(()),
                    None => Err(KvStoreError::RemoveNonexistingKey),
                };
                assert_eq!(store.remove(key), expected);
            }
            _ => {
                assert_eq!(store.get(key.clone()), Ok(model.get(&key).cloned()));
            }
        }
        if store.total() == 0 {
            compactions += 1;
        }
        assert_eq!(store.len(), model.len());
        if step % 500 == 499 {
            store = KvStore::open(store.log().clone()).unwrap();
        }
    }
    assert!(compactions > 10);
    for i in 0..40 {
        let key = format!("key{}", i);
        assert_eq!(store.get(key.clone()), Ok(model.get(&key).cloned()));
    }
}

#[test]
fn compact_does_nothing_where_the_policy_does_not_ask_for_it() {
    let mut store = fresh();
    store.set(text("a"), text("1")).unwrap();
    store.set(text("b"), text("2")).unwrap();
    let before = store.log().clone();
    assert!(!store.needs_compaction());
    assert_eq!(store.compact(), Ok(()));
    assert_eq!(store.log(), &before);
    assert_eq!(store.total(), 2);
}

#[test]
fn compact_rewrites_the_log_where_the_policy_asks_for_it() {
    let mut store = fresh();
    for value in ["1", "2", "3"] {
        let entry = kvs::entry::Entry { key: text("a"), value: Some(text(value)) };
        let bytes = entry.encode().unwrap();
        store.append_entry(entry, bytes);
    }
    // one live key of three entries
    assert!(store.needs_compaction());
    assert_eq!(store.compact(), Ok(()));
    assert_eq!(store.log().as_slice(), br#"{"key":"a","value":"3"}"#);
    assert_eq!(store.total(), 0);
    assert!(!store.needs_compaction());
}

#[test]
fn set_and_remove_of_a_live_key_do_not_fail() {
    let mut store = fresh();
    for i in 0..200 {
        let key = format!("k{}", i % 7);
        assert_eq!(store.set(key.clone(), format!("\u{0}\"{}\\", i)), Ok(()));
        if i % 3 == 0 {
            assert_eq!(store.remove(key), Ok(()));
        }
    }
}

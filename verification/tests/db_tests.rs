use miniredis::db::{DbEntry, MemoryDb, RedisType};

#[test]
fn db_test_get_set() {
    let mut db = MemoryDb::new();
    let key = "Key1".to_string();

    let entry1 = DbEntry::new(RedisType::String("Value1".into()));

    let entry2 = DbEntry::new(RedisType::String("Value2".into()));

    // Set and get a value
    db.set(&key, &entry1).unwrap();
    assert_eq!(db.get(&key), Some(entry1));

    // Overwrite a value
    db.set(&key, &entry2).unwrap();
    assert_eq!(db.get(&key), Some(entry2));
}

#[test]
fn test_is_expired() {
    let mut entry = DbEntry::new(RedisType::String("Val".into()));
    // no PX set
    assert_eq!(entry.is_expired(), false);

    // 10s in the future, the entry should  not be expired yet
    entry.px = Some(10_000);
    assert_eq!(entry.is_expired(), false);

    // Let the entry expire immediately
    entry.px = Some(0);
    // after 2 milliseconds, it should be expired
    let start = std::time::Instant::now();
    while start.elapsed() < std::time::Duration::from_millis(2) {}
    assert_eq!(entry.is_expired(), true);
}

#[test]
fn is_expired_at_times() {
    let mut entry = DbEntry::new_at(RedisType::String("Val".into()), 1_000);
    assert_eq!(entry.is_expired_at(u64::MAX), false);
    entry.px = Some(10_000);
    assert_eq!(entry.is_expired_at(1_000 + 10_000), false);
    assert_eq!(entry.is_expired_at(1_000 + 10_001), true);
}

#[test]
fn new_entry_reads_the_clock() {
    let entry = DbEntry::new(RedisType::String("v".into()));
    assert!(entry.created_at > 1_600_000_000_000);
    assert_eq!(entry.px, None);
}

#[test]
fn expired_entries_are_removed() {
    let mut db = MemoryDb::new();
    let mut entry = DbEntry::new_at(RedisType::String("v".into()), 100);
    entry.px = Some(50);
    db.set("k", &entry).unwrap();
    assert_eq!(db.get_at("k", 150), Some(entry.clone()));
    assert_eq!(db.get_at("k", 151), None);
    assert_eq!(db.get_at("k", 0), None);
}

#[test]
fn empty_list_removes_key() {
    let mut db = MemoryDb::new();
    db.set("k", &DbEntry::new_at(RedisType::List(vec!["a".into()]), 1)).unwrap();
    assert!(db.get_at("k", 1).is_some());
    db.set("k", &DbEntry::new_at(RedisType::List(vec![]), 2)).unwrap();
    assert_eq!(db.get_at("k", 2), None);
}

#[test]
fn waiting_client_gets_the_written_value() {
    let mut db = MemoryDb::new();
    let (gone_tx, gone_rx) = tokio::sync::oneshot::channel();
    let (tx, mut rx) = tokio::sync::oneshot::channel();
    assert_eq!(db.get_or_wait_at("q", gone_tx, 5), None);
    assert_eq!(db.get_or_wait_at("q", tx, 5), None);
    drop(gone_rx);
    let entry = DbEntry::new_at(RedisType::List(vec!["x".into()]), 6);
    db.set("q", &entry).unwrap();
    assert_eq!(rx.try_recv().unwrap(), entry);
    let (tx2, _rx2) = tokio::sync::oneshot::channel();
    assert_eq!(db.get_or_wait_at("q", tx2, 7), Some(entry));
}

#[test]
fn a_write_wakes_one_waiting_client() {
    let mut db = MemoryDb::new();
    let (tx1, mut rx1) = tokio::sync::oneshot::channel();
    let (tx2, mut rx2) = tokio::sync::oneshot::channel();
    assert_eq!(db.get_or_wait_at("k", tx1, 1), None);
    assert_eq!(db.get_or_wait_at("k", tx2, 1), None);
    let first = DbEntry::new_at(RedisType::List(vec!["a".into()]), 2);
    db.set("k", &first).unwrap();
    assert_eq!(rx1.try_recv().unwrap(), first);
    assert!(rx2.try_recv().is_err());
    let second = DbEntry::new_at(RedisType::List(vec!["b".into()]), 3);
    db.set("k", &second).unwrap();
    assert_eq!(rx2.try_recv().unwrap(), second);
}

#[test]
fn other_keys_unchanged() {
    let mut db = MemoryDb::new();
    let a = DbEntry::new_at(RedisType::String("a".into()), 1);
    let b = DbEntry::new_at(RedisType::String("b".into()), 1);
    db.set("a", &a).unwrap();
    db.set("b", &b).unwrap();
    db.set("b", &DbEntry::new_at(RedisType::List(vec![]), 2)).unwrap();
    assert_eq!(db.get_at("a", 3), Some(a));
    assert_eq!(db.get_at("b", 3), None);
}

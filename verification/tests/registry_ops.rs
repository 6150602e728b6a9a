use grocery_registry::Registry;
use grocery_registry::Store;

fn lookup(snapshot: &[grocery_registry::Entry], name: &str) -> Option<i32> {
    snapshot.iter().find(|e| e.name == name).map(|e| e.quantity)
}

#[test]
fn new_registry_is_empty() {
    let r = Registry::new();
    assert_eq!(r.snapshot().len(), 0);
}

#[test]
fn delete_absent_is_noop_on_empty() {
    let mut r = Registry::new();
    r.remove(&"ghost".to_string());
    assert_eq!(r.snapshot().len(), 0);
}

#[test]
fn delete_absent_is_noop_with_content() {
    let mut r = Registry::new();
    r.set("apple".to_string(), 3);
    r.set("pear".to_string(), 7);
    r.remove(&"ghost".to_string());
    let snap = r.snapshot();
    assert_eq!(snap.len(), 2);
    assert_eq!(lookup(&snap, "apple"), Some(3));
    assert_eq!(lookup(&snap, "pear"), Some(7));
}

#[test]
fn upsert_overwrite_leaves_one_entry() {
    let mut r = Registry::new();
    r.set("apple".to_string(), 3);
    r.set("apple".to_string(), 5);
    let snap = r.snapshot();
    assert_eq!(snap.len(), 1);
    assert_eq!(snap[0].name, "apple");
    assert_eq!(snap[0].quantity, 5);
}

#[test]
fn read_after_write() {
    let mut r = Registry::new();
    r.set("apple".to_string(), 3);
    let snap = r.snapshot();
    assert_eq!(lookup(&snap, "apple"), Some(3));
    assert_eq!(r.get(&"apple".to_string()), Some(3));
    assert_eq!(r.get(&"pear".to_string()), None);
}

#[test]
fn distinct_upserts_all_land() {
    let mut r = Registry::new();
    for i in 0..10 {
        r.set(format!("item{}", i), i);
    }
    let snap = r.snapshot();
    assert_eq!(snap.len(), 10);
    for i in 0..10 {
        assert_eq!(lookup(&snap, &format!("item{}", i)), Some(i));
    }
}

#[test]
fn quantities_may_be_zero_or_negative() {
    let mut r = Registry::new();
    r.set("zero".to_string(), 0);
    r.set("debt".to_string(), -12);
    assert_eq!(r.get(&"zero".to_string()), Some(0));
    assert_eq!(r.get(&"debt".to_string()), Some(-12));
}

#[test]
fn remove_then_reinsert() {
    let mut r = Registry::new();
    r.set("apple".to_string(), 3);
    r.remove(&"apple".to_string());
    assert_eq!(r.get(&"apple".to_string()), None);
    r.set("apple".to_string(), 9);
    assert_eq!(r.get(&"apple".to_string()), Some(9));
}

#[test]
fn store_set_remove_snapshot() {
    let store = Store::new();
    store.set("apple".to_string(), 3);
    store.set("pear".to_string(), 4);
    store.remove(&"apple".to_string());
    let snap = store.snapshot();
    assert_eq!(snap.len(), 1);
    assert_eq!(lookup(&snap, "pear"), Some(4));
    assert_eq!(store.get(&"pear".to_string()), Some(4));
    assert_eq!(store.get(&"apple".to_string()), None);
}

#[test]
fn store_snapshots_consistent() {
    let store = Store::new();
    store.set("apple".to_string(), 3);
    store.set("pear".to_string(), 7);
    let s1 = store.snapshot();
    let s2 = store.snapshot();
    let s3 = store.snapshot();
    for snap in [&s1, &s2, &s3] {
        assert_eq!(snap.len(), 2);
        assert_eq!(lookup(snap, "apple"), Some(3));
        assert_eq!(lookup(snap, "pear"), Some(7));
    }
}

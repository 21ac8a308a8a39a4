use tectonic::hashtable::{get_hash, HtTable};

#[test]
fn hash_values() {
    assert_eq!(get_hash(b""), 0);
    assert_eq!(get_hash(b"a"), 97);
    assert_eq!(get_hash(b"ab"), 281);
    assert_eq!(get_hash(&[0xff]), 4294967295u64 as usize % 503);
}

#[test]
fn insert_replaces_and_append_keeps_both() {
    let mut t: HtTable<u32> = HtTable::new();
    assert_eq!(t.size(), 0);
    t.insert(b"key".to_vec(), 1);
    t.insert(b"key".to_vec(), 2);
    assert_eq!(t.size(), 1);
    assert_eq!(t.lookup(b"key"), Some(&2));
    t.append(b"key".to_vec(), 3);
    assert_eq!(t.size(), 2);
    assert_eq!(t.lookup(b"key"), Some(&2));
    assert!(t.remove(b"key"));
    assert_eq!(t.lookup(b"key"), Some(&3));
    assert!(t.remove(b"key"));
    assert!(!t.remove(b"key"));
    assert_eq!(t.lookup(b"key"), None);
    assert_eq!(t.size(), 0);
}

#[test]
fn iteration_visits_every_entry() {
    let mut t: HtTable<u32> = HtTable::new();
    assert!(t.set_iter().is_none());
    t.insert(b"b".to_vec(), 2);
    t.insert(b"a".to_vec(), 1);
    t.append(b"a".to_vec(), 10);
    let mut seen = Vec::new();
    let mut it = t.set_iter().unwrap();
    loop {
        seen.push((t.iter_getkey(&it).to_vec(), *t.iter_getval(&it)));
        if !t.iter_next(&mut it) {
            break;
        }
    }
    assert_eq!(
        seen,
        vec![(b"a".to_vec(), 1), (b"a".to_vec(), 10), (b"b".to_vec(), 2)]
    );
    t.clear();
    assert_eq!(t.size(), 0);
    assert!(t.set_iter().is_none());
}

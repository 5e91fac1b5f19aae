use ai_core::experience::Experience;
use ai_core::memory::Memory;

#[test]
fn count_follows_appends_and_clears() {
    let mut m = Memory::new();
    assert_eq!(m.experiences_len(), 0);
    assert!(m.is_empty());
    let a = m.append("first note", "cli", None);
    let b = m.append("second note", "cli", Some("meta".to_string()));
    assert_eq!(m.experiences_len(), 2);
    assert_eq!(m.get_by_id(&a.id).unwrap().content, "first note");
    assert_eq!(m.get_by_id(&b.id).unwrap().metadata, Some("meta".to_string()));
    m.clear();
    assert_eq!(m.experiences_len(), 0);
    assert!(m.get_by_id(&a.id).is_none());
    let c = m.append("third", "web", None);
    assert_eq!(m.experiences_len(), 1);
    assert_eq!(m.get_by_id(&c.id).unwrap().content, "third");
}

#[test]
fn id_is_timestamp_dash_source() {
    let e = Experience::recorded_at("hello", "web", 1700000000123);
    assert_eq!(e.id, "1700000000123-web");
    assert_eq!(e.timestamp, 1700000000123);
    let n = Experience::recorded_at("x", "s", -5);
    assert_eq!(n.id, "-5-s");
}

#[test]
fn colliding_id_is_padded() {
    let mut m = Memory::new();
    let first = m.remember(Experience::recorded_at("one", "web", 42));
    let second = m.remember(Experience::recorded_at("two", "web", 42));
    let third = m.remember(Experience::recorded_at("three", "web", 42));
    assert_eq!(first.id, "42-web");
    assert_eq!(second.id, "42-web+");
    assert_eq!(third.id, "42-web++");
    assert_eq!(m.get_by_id("42-web+").unwrap().content, "two");
}

#[test]
fn many_appends_have_unique_ids_and_all_listed() {
    let mut m = Memory::new();
    let mut ids = Vec::new();
    for i in 0..50 {
        let e = m.append(&format!("note {}", i), "batch", None);
        ids.push(e.id);
    }
    let listed = m.list();
    assert_eq!(listed.len(), 50);
    for (i, e) in listed.iter().enumerate() {
        assert_eq!(e.id, ids[i]);
        assert_eq!(e.content, format!("note {}", i));
    }
    let mut sorted = ids.clone();
    sorted.sort();
    sorted.dedup();
    assert_eq!(sorted.len(), 50);
}

#[test]
fn search_ignores_case() {
    let mut m = Memory::new();
    m.append("Hello World", "web", None);
    m.append("unrelated", "web", None);
    let a = m.search("hello");
    let b = m.search("WORLD");
    assert_eq!(a.len(), 1);
    assert_eq!(a[0].content, "Hello World");
    assert_eq!(b.len(), 1);
    assert_eq!(b[0].content, "Hello World");
    assert_eq!(m.search("zebra").len(), 0);
}

#[test]
fn empty_query_matches_every_record() {
    let mut m = Memory::new();
    m.append("a", "x", None);
    m.append("b", "x", None);
    assert_eq!(m.search("").len(), 2);
}

#[test]
fn search_keeps_store_order() {
    let mut m = Memory::new();
    m.remember(Experience::recorded_at("cat one", "s", 1));
    m.remember(Experience::recorded_at("dog", "s", 2));
    m.remember(Experience::recorded_at("CAT two", "s", 3));
    let r = m.search("cat");
    assert_eq!(r.len(), 2);
    assert_eq!(r[0].content, "cat one");
    assert_eq!(r[1].content, "CAT two");
}

#[test]
fn snapshot_round_trip_keeps_records() {
    let mut m = Memory::new();
    m.remember(Experience::recorded_at("alpha", "s", 10));
    m.remember(Experience::recorded_at("beta", "s", 11));
    let snap = m.list();
    let r = Memory::from_experiences(snap).unwrap();
    let a = m.list();
    let b = r.list();
    assert_eq!(a.len(), b.len());
    for i in 0..a.len() {
        assert_eq!(a[i].id, b[i].id);
        assert_eq!(a[i].content, b[i].content);
        assert_eq!(a[i].timestamp, b[i].timestamp);
    }
}

#[test]
fn restore_refuses_duplicate_ids_and_keeps_state() {
    let mut m = Memory::new();
    m.remember(Experience::recorded_at("kept", "s", 1));
    let dup = vec![
        Experience::recorded_at("x", "s", 5),
        Experience::recorded_at("y", "s", 5),
    ];
    assert!(Memory::from_experiences(dup.clone()).is_err());
    assert!(m.restore_from(dup).is_err());
    assert_eq!(m.experiences_len(), 1);
    assert_eq!(m.list()[0].content, "kept");
    let ok = vec![Experience::recorded_at("z", "s", 7)];
    assert!(m.restore_from(ok).is_ok());
    assert_eq!(m.list()[0].content, "z");
}

use pae_engine::versioning::snapshot::SnapshotEngine;
use pae_engine::versioning::store::VersionStore;
use pae_engine::versioning::types::{EntityType, SnapshotQuery, Timestamp, VersionAuthor, VersionQuery, VersionedRecord};

#[test]
fn test_append_and_retrieve() {
    let mut store = VersionStore::new();
    let hash = store
        .append(
            "holding-001",
            EntityType::Position,
            b"encrypted-content-v1".to_vec(),
            b"nonce-12bytes".to_vec(),
            VersionAuthor::User,
            Some("Initial import".to_string()),
            vec![],
        )
        .unwrap();

    assert!(!hash.is_empty());
    let latest = store.get_latest("holding-001").unwrap().unwrap();
    assert_eq!(latest.version, 1);
    assert!(latest.parent_hash.is_none());
}

#[test]
fn test_version_chain() {
    let mut store = VersionStore::new();
    store
        .append(
            "journal-001",
            EntityType::DecisionEntry,
            b"entry-v1".to_vec(),
            b"nonce-v1-12b!".to_vec(),
            VersionAuthor::User,
            Some("Initial entry".to_string()),
            vec!["quarterly-review".to_string()],
        )
        .unwrap();

    store
        .append(
            "journal-001",
            EntityType::DecisionEntry,
            b"entry-v2-updated".to_vec(),
            b"nonce-v2-12b!".to_vec(),
            VersionAuthor::User,
            Some("Added 30-day outcome".to_string()),
            vec![],
        )
        .unwrap();

    let latest = store.get_latest("journal-001").unwrap().unwrap();
    assert_eq!(latest.version, 2);
    assert!(latest.parent_hash.is_some());
    assert!(store.verify_chain("journal-001").unwrap());
}

#[test]
fn test_integrity_verification() {
    let mut store = VersionStore::new();
    store
        .append(
            "config-001",
            EntityType::Configuration,
            b"config-data".to_vec(),
            b"nonce-12byte".to_vec(),
            VersionAuthor::System,
            None,
            vec![],
        )
        .unwrap();

    let record = store.get_latest("config-001").unwrap().unwrap();
    assert!(record.verify_integrity());
}

fn at(secs: i64) -> Timestamp {
    Timestamp { secs, nanos: 0 }
}

fn append_at(store: &mut VersionStore, id: &str, content: &[u8], secs: i64) -> String {
    store
        .append_at(id, EntityType::Holdings, content.to_vec(), b"n".to_vec(), VersionAuthor::User, None, vec![], at(secs))
        .unwrap()
}

#[test]
fn compute_hash_matches_sha256_of_id_version_content() {
    // SHA-256("a" || 1u64 little-endian || "b")
    let h = VersionedRecord::compute_hash("a", 1, b"b");
    assert_eq!(h.len(), 64);
    assert!(h.chars().all(|c| c.is_ascii_hexdigit() && !c.is_ascii_uppercase()));
    assert_eq!(h, VersionedRecord::compute_hash("a", 1, b"b"));
    assert_ne!(h, VersionedRecord::compute_hash("a", 2, b"b"));
    assert_ne!(h, VersionedRecord::compute_hash("a", 1, b"c"));
    // the empty input: SHA-256 of the 8 zero bytes of version 0 with empty id and content
    assert_eq!(
        VersionedRecord::compute_hash("", 0, b""),
        "af5570f5a1810b7af78caf4bc70a660f0df51e42baf91d4de5b2328de0e83dfc"
    );
}

#[test]
fn parents_link_versions_and_other_entities_are_untouched() {
    let mut store = VersionStore::new();
    let h1 = append_at(&mut store, "e1", b"one", 10);
    let other = append_at(&mut store, "e2", b"x", 11);
    let h2 = append_at(&mut store, "e1", b"two", 12);
    let q = VersionQuery { entity_id: "e1".to_string(), entity_type: None, since: None, until: None, limit: None, latest_only: false };
    let hist = store.query(&q).unwrap();
    assert_eq!(hist.len(), 2);
    assert_eq!(hist[0].version_hash, h1);
    assert_eq!(hist[1].version_hash, h2);
    assert_eq!(hist[1].parent_hash.as_deref(), Some(h1.as_str()));
    assert_eq!(hist[1].version, 2);
    let e2 = store.get_latest("e2").unwrap().unwrap();
    assert_eq!(e2.version_hash, other);
    assert_eq!(e2.version, 1);
    assert_eq!(store.total_versions().unwrap(), 3);
    assert!(store.verify_chain("e1").unwrap());
    assert!(store.verify_chain("unknown").unwrap());
    assert_eq!(store.history_len("e1"), 2);
}

#[test]
fn query_window_limit_and_latest_only() {
    let mut store = VersionStore::new();
    for (i, secs) in [100, 200, 300, 400].iter().enumerate() {
        append_at(&mut store, "e", format!("c{i}").as_bytes(), *secs);
    }
    let mut q = VersionQuery {
        entity_id: "e".to_string(),
        entity_type: None,
        since: Some(at(200)),
        until: Some(at(300)),
        limit: None,
        latest_only: false,
    };
    let r = store.query(&q).unwrap();
    assert_eq!(r.iter().map(|v| v.version).collect::<Vec<_>>(), vec![2, 3]);
    q.since = None;
    q.until = None;
    q.limit = Some(3);
    assert_eq!(store.query(&q).unwrap().len(), 3);
    q.latest_only = true;
    let r = store.query(&q).unwrap();
    assert_eq!(r.len(), 1);
    assert_eq!(r[0].version, 4);
    q.entity_id = "missing".to_string();
    assert!(store.query(&q).unwrap().is_empty());
}

#[test]
fn get_by_hash_finds_the_version() {
    let mut store = VersionStore::new();
    append_at(&mut store, "a", b"1", 1);
    let h = append_at(&mut store, "b", b"2", 2);
    let found = store.get_by_hash(&h).unwrap().unwrap();
    assert_eq!(found.entity_id, "b");
    assert!(store.get_by_hash("0000").unwrap().is_none());
}

#[test]
fn tampered_record_fails_integrity() {
    let mut store = VersionStore::new();
    append_at(&mut store, "a", b"content", 1);
    let mut rec = store.get_latest("a").unwrap().unwrap();
    assert!(rec.verify_integrity());
    rec.content_encrypted.push(0);
    assert!(!rec.verify_integrity());
}

#[test]
fn timestamps_order_by_seconds_then_nanos() {
    let a = Timestamp { secs: 5, nanos: 10 };
    let b = Timestamp { secs: 5, nanos: 11 };
    let c = Timestamp { secs: 6, nanos: 0 };
    assert!(a.is_before(&b));
    assert!(b.is_before(&c));
    assert!(!c.is_before(&a));
    assert!(!a.is_before(&a));
}

#[test]
fn snapshot_engine_is_empty_for_now() {
    let store = VersionStore::new();
    let engine = SnapshotEngine::new(&store);
    let q = SnapshotQuery { as_of: at(0), entity_types: vec![EntityType::Holdings], entity_ids: vec![] };
    assert!(engine.snapshot_at(&q).unwrap().is_empty());
    let d = engine.diff(at(1), at(2), &[EntityType::Position]).unwrap();
    assert_eq!(d.from, at(1));
    assert_eq!(d.to, at(2));
    assert!(d.added.is_empty() && d.removed.is_empty() && d.modified.is_empty());
}

#[test]
fn entity_type_debug_names() {
    assert_eq!(EntityType::DecisionEntry.debug_name(), "DecisionEntry");
    assert_eq!(EntityType::CarrySnapshot.debug_name(), format!("{:?}", EntityType::CarrySnapshot));
}

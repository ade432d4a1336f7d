use kiro_rs::memory::MemoryCredentialStore;
use kiro_rs::order::PaginatedResult;
use kiro_rs::record::{BatchDeleteResult, BatchImportResult, CreateCredential, StoreError, UpdateCredential};

fn spec(token: &str, priority: i32) -> CreateCredential {
    CreateCredential {
        refresh_token: token.to_string(),
        auth_method: "social".to_string(),
        client_id: None,
        client_secret: None,
        priority,
        region: None,
        machine_id: None,
    }
}

fn ids(store: &MemoryCredentialStore) -> Vec<i64> {
    store.list_all().iter().map(|r| r.id).collect()
}

#[test]
fn three_records_listed_by_priority() {
    let mut store = MemoryCredentialStore::new();
    assert_eq!(store.create_at(spec("a", 2), 100).ok(), Some(1));
    assert_eq!(store.create_at(spec("b", 1), 101).ok(), Some(2));
    assert_eq!(store.create_at(spec("c", 3), 102).ok(), Some(3));
    assert_eq!(ids(&store), vec![2, 1, 3]);
    let prios: Vec<i32> = store.list_all().iter().map(|r| r.priority).collect();
    assert_eq!(prios, vec![1, 2, 3]);
}

#[test]
fn shuffled_priorities_come_out_ordered() {
    let mut store = MemoryCredentialStore::new();
    let prios = [5, 3, 9, 3, 1, 5, 0, 9, 2];
    for (i, p) in prios.iter().enumerate() {
        store.create_at(spec("t", *p), i as i64).unwrap();
    }
    let all = store.list_all();
    assert_eq!(all.len(), prios.len());
    for w in all.windows(2) {
        assert!((w[0].priority, w[0].id) < (w[1].priority, w[1].id));
    }
    assert_eq!(all.iter().map(|r| r.id).collect::<Vec<_>>(), vec![7, 5, 9, 2, 4, 1, 6, 3, 8]);
}

#[test]
fn delete_then_get_fails_both_times() {
    let mut store = MemoryCredentialStore::new();
    for p in [1, 2, 3] {
        store.create_at(spec("t", p), 10).unwrap();
    }
    assert!(store.delete_at(2, 20).is_ok());
    assert!(store.get(2).is_none());
    assert!(matches!(store.delete_at(2, 20), Err(StoreError::NotFound { id: 2 })));
    assert!(matches!(store.delete_at(2, 20), Err(StoreError::NotFound { id: 2 })));
    assert!(matches!(store.delete_at(42, 30), Err(StoreError::NotFound { id: 42 })));
}

#[test]
fn deleted_record_hidden_and_id_not_reused() {
    let mut store = MemoryCredentialStore::new();
    store.create_at(spec("a", 0), 10).unwrap();
    store.create_at(spec("b", 0), 11).unwrap();
    store.delete_at(2, 12).unwrap();
    assert!(store.get(2).is_none());
    assert_eq!(ids(&store), vec![1]);
    assert_eq!(store.export_all().len(), 1);
    let page = store.list(1, 10);
    assert_eq!(page.total, 1);
    assert_eq!(page.items.iter().map(|r| r.id).collect::<Vec<_>>(), vec![1]);
    assert_eq!(store.create_at(spec("c", 0), 13).ok(), Some(3));
    assert!(matches!(
        store.update_at(2, UpdateCredential::default(), 14),
        Err(StoreError::NotFound { id: 2 })
    ));
}

#[test]
fn empty_update_only_moves_updated_at() {
    let mut store = MemoryCredentialStore::new();
    store.create_at(spec("a", 4), 500).unwrap();
    let before = store.get(1).unwrap();
    store.update_at(1, UpdateCredential::default(), 500).unwrap();
    let after = store.get(1).unwrap();
    assert_eq!(after.updated_at, 501);
    assert!(after.updated_at > before.updated_at);
    assert_eq!(after.refresh_token, before.refresh_token);
    assert_eq!(after.priority, before.priority);
    assert_eq!(after.failure_count, before.failure_count);
    assert_eq!(after.disabled, before.disabled);
    assert_eq!(after.created_at, before.created_at);
    assert_eq!(after.access_token, before.access_token);
    assert_eq!(after.machine_id, before.machine_id);
}

#[test]
fn partial_update_changes_only_given_fields() {
    let mut store = MemoryCredentialStore::new();
    store.create_at(spec("a", 4), 500).unwrap();
    let mut u = UpdateCredential::default();
    u.priority = Some(7);
    u.access_token = Some("acc".to_string());
    store.update_at(1, u, 900).unwrap();
    let r = store.get(1).unwrap();
    assert_eq!(r.priority, 7);
    assert_eq!(r.access_token.as_deref(), Some("acc"));
    assert_eq!(r.refresh_token, "a");
    assert_eq!(r.updated_at, 900);
    assert!(!r.disabled);
}

#[test]
fn update_refuses_long_machine_id() {
    let mut store = MemoryCredentialStore::new();
    store.create_at(spec("a", 0), 1).unwrap();
    let mut u = UpdateCredential::default();
    u.machine_id = Some("m".repeat(129));
    match store.update_at(1, u, 2) {
        Err(StoreError::Rejected { message }) => {
            assert_eq!(message, "value too long for type character varying(128)")
        }
        _ => panic!("expected a refusal"),
    }
    assert_eq!(store.get(1).unwrap().machine_id, None);
}

#[test]
fn batch_create_reports_invalid_positions() {
    let mut store = MemoryCredentialStore::new();
    let mut bad_auth = spec("x", 0);
    bad_auth.auth_method = "a".repeat(21);
    let mut bad_region = spec("y", 0);
    bad_region.region = Some("r".repeat(51));
    let r = store.batch_create_at(vec![spec("a", 1), bad_auth, spec("b", 2), bad_region], 50);
    assert_eq!(r.imported, 2);
    assert_eq!(r.failed, 2);
    assert_eq!(r.errors.len(), 2);
    assert_eq!(r.errors[0].index, 1);
    assert_eq!(r.errors[0].message, "value too long for type character varying(20)");
    assert_eq!(r.errors[1].index, 3);
    assert_eq!(r.errors[1].message, "value too long for type character varying(50)");
    assert_eq!(ids(&store), vec![1, 2]);
}

#[test]
fn batch_delete_with_missing_id() {
    let mut store = MemoryCredentialStore::new();
    store.create_at(spec("a", 0), 10).unwrap();
    let r = store.batch_delete_at(vec![1, 99], 20);
    assert_eq!(r.deleted, 1);
    assert_eq!(r.failed, 1);
    assert_eq!(r.errors.len(), 1);
    assert_eq!(r.errors[0].id, 99);
    assert_eq!(r.errors[0].message, "凭据不存在: 99");
    assert!(store.get(1).is_none());
}

#[test]
fn pages_beyond_the_last_are_empty() {
    let mut store = MemoryCredentialStore::new();
    for p in [4, 3, 2, 1, 0] {
        store.create_at(spec("t", p), 10).unwrap();
    }
    let first = store.list(1, 2);
    assert_eq!(first.total, 5);
    assert_eq!(first.total_pages, 3);
    assert_eq!(first.items.iter().map(|r| r.id).collect::<Vec<_>>(), vec![5, 4]);
    let last = store.list(3, 2);
    assert_eq!(last.items.iter().map(|r| r.id).collect::<Vec<_>>(), vec![1]);
    let beyond = store.list(4, 2);
    assert!(beyond.items.is_empty());
    assert_eq!(beyond.total, 5);
    assert_eq!(beyond.total_pages, 3);
}

#[test]
fn total_pages_is_the_ceiling() {
    let r: PaginatedResult<u8> = PaginatedResult::new(vec![], 10, 1, 3);
    assert_eq!(r.total_pages, 4);
    let r: PaginatedResult<u8> = PaginatedResult::new(vec![], 9, 1, 3);
    assert_eq!(r.total_pages, 3);
    let r: PaginatedResult<u8> = PaginatedResult::new(vec![], 0, 1, 20);
    assert_eq!(r.total_pages, 0);
    let r: PaginatedResult<u8> = PaginatedResult::new(vec![], i64::MAX, 1, 1);
    assert_eq!(r.total_pages, i32::MAX);
}

#[test]
fn not_found_message_names_the_id() {
    assert_eq!(StoreError::NotFound { id: 12 }.message(), "凭据不存在: 12");
    assert_eq!(StoreError::NotFound { id: -3 }.message(), "凭据不存在: -3");
}

#[test]
fn store_batch_outcomes_accumulate() {
    let mut imports = BatchImportResult::new();
    imports.record_outcome(0, Ok(4));
    imports.record_outcome(1, Err("value too long for type character varying(20)".to_string()));
    assert_eq!((imports.imported, imports.failed), (1, 1));
    assert_eq!(imports.errors[0].index, 1);
    let mut deletes = BatchDeleteResult::new();
    deletes.record_outcome(7, Err("凭据不存在: 7".to_string()));
    deletes.record_outcome(2, Ok(()));
    assert_eq!((deletes.deleted, deletes.failed), (1, 1));
    assert_eq!(deletes.errors[0].id, 7);
    assert_eq!(deletes.errors[0].message, "凭据不存在: 7");
}

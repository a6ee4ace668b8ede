use llm_playground::store::ExchangeStore;

fn filled_store(n: u64) -> ExchangeStore {
    let mut s = ExchangeStore::new();
    for i in 0..n {
        let id = s.append(format!("p{}", i), format!("r{}", i));
        assert_eq!(id, i);
    }
    s
}

#[test]
fn append_assigns_monotonic_ids() {
    let mut s = ExchangeStore::new();
    assert_eq!(s.append("a".to_string(), "b".to_string()), 0);
    assert_eq!(s.append("c".to_string(), "d".to_string()), 1);
    assert_eq!(s.append("e".to_string(), "f".to_string()), 2);
    assert_eq!(s.len(), 3);
    assert_eq!(s.next_id(), 3);
}

#[test]
fn resolve_after_interleaved_deletions() {
    let mut s = filled_store(4);
    s.delete(1);
    s.delete(3);
    assert_eq!(s.resolve(2), Some(1));
    assert_eq!(s.resolve(0), Some(0));
    assert_eq!(s.resolve(1), None);
    assert_eq!(s.resolve(3), None);
    assert_eq!(s.resolve(4), None);
}

#[test]
fn ids_are_not_reused_after_deletion() {
    let mut s = filled_store(2);
    s.delete(1);
    let id = s.append("p2".to_string(), "r2".to_string());
    assert_eq!(id, 2);
    assert_eq!(s.resolve(1), None);
    assert_eq!(s.resolve(2), Some(1));
}

#[test]
fn edit_targets_original_exchange() {
    let mut s = filled_store(4);
    s.delete(0);
    s.delete(2);
    s.edit(3, "P".to_string(), "R".to_string());
    let snap = s.snapshot();
    assert_eq!(snap.len(), 2);
    assert_eq!(snap[0], ("p1".to_string(), "r1".to_string()));
    assert_eq!(snap[1], ("P".to_string(), "R".to_string()));
}

#[test]
fn edit_of_deleted_id_is_noop() {
    let mut s = filled_store(3);
    s.delete(1);
    s.edit(1, "X".to_string(), "Y".to_string());
    let snap = s.snapshot();
    assert_eq!(snap.len(), 2);
    assert_eq!(snap[0], ("p0".to_string(), "r0".to_string()));
    assert_eq!(snap[1], ("p2".to_string(), "r2".to_string()));
}

#[test]
fn delete_of_deleted_id_is_noop() {
    let mut s = filled_store(3);
    s.delete(1);
    s.delete(1);
    assert_eq!(s.len(), 2);
    assert_eq!(s.resolve(2), Some(1));
}

#[test]
fn clear_resets_identity_and_deletions() {
    let mut s = filled_store(5);
    s.delete(2);
    s.delete(0);
    s.clear();
    assert_eq!(s.len(), 0);
    let fresh_first_id = ExchangeStore::new().next_id();
    assert_eq!(s.next_id(), fresh_first_id);
    let id = s.append("p".to_string(), "r".to_string());
    assert_eq!(id, 0);
    // the old deletion log is forgotten: id 1 resolves by position again
    let id1 = s.append("q".to_string(), "t".to_string());
    assert_eq!(id1, 1);
    assert_eq!(s.resolve(1), Some(1));
}

#[test]
fn snapshot_does_not_alias_live_storage() {
    let mut s = filled_store(2);
    let snap = s.snapshot();
    s.edit(0, "edited".to_string(), "new".to_string());
    assert_eq!(snap[0], ("p0".to_string(), "r0".to_string()));
    let snap2 = s.snapshot();
    assert_eq!(snap2[0], ("edited".to_string(), "new".to_string()));
}

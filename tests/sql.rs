use kiro_rs::record::UpdateCredential;
use kiro_rs::sql::{list_offset, update_binds, update_statement, Column, SqlValue};

#[test]
fn statement_and_binds_come_from_one_list() {
    let mut u = UpdateCredential::default();
    u.priority = Some(3);
    u.disabled = Some(true);
    u.refresh_token = Some("rt".to_string());
    let pairs = u.assignments();
    let cols: Vec<Column> = pairs.iter().map(|p| p.0).collect();
    assert_eq!(cols, vec![Column::RefreshToken, Column::Priority, Column::Disabled]);
    assert_eq!(
        update_statement(&pairs),
        "UPDATE credentials SET updated_at = $1, refresh_token = $2, priority = $3, disabled = $4 WHERE id = $5 AND deleted_at IS NULL"
    );
    let binds = update_binds(77, &pairs, 9);
    assert_eq!(binds.len(), 5);
    assert!(matches!(binds[0], SqlValue::Timestamp(77)));
    assert!(matches!(&binds[1], SqlValue::Text(t) if t == "rt"));
    assert!(matches!(binds[2], SqlValue::Integer(3)));
    assert!(matches!(binds[3], SqlValue::Boolean(true)));
    assert!(matches!(binds[4], SqlValue::BigInt(9)));
}

#[test]
fn empty_update_sets_only_the_time() {
    let pairs = UpdateCredential::default().assignments();
    assert!(pairs.is_empty());
    assert_eq!(
        update_statement(&pairs),
        "UPDATE credentials SET updated_at = $1 WHERE id = $2 AND deleted_at IS NULL"
    );
}

#[test]
fn offsets_of_pages() {
    assert_eq!(list_offset(1, 20), 0);
    assert_eq!(list_offset(3, 20), 40);
    assert_eq!(list_offset(0, 20), 0);
    assert_eq!(list_offset(-5, 20), 0);
}

use spvc::store::{DimensionTable, Store, VisitRow, VisitorTable};

#[test]
fn dimension_table_seeds_sentinel_at_id_one() {
    let mut t = DimensionTable::new(b"UNKNOWN".to_vec());
    assert_eq!(t.rows.len(), 1);
    assert_eq!(t.resolve_or_create(b"UNKNOWN".to_vec()), 1);
    assert_eq!(t.rows.len(), 1);
}

#[test]
fn resolve_or_create_is_idempotent() {
    let mut t = DimensionTable::new(b"UNKNOWN".to_vec());
    let first = t.resolve_or_create(b"https://example.com/blog".to_vec());
    let rows_after_first = t.rows.len();
    let second = t.resolve_or_create(b"https://example.com/blog".to_vec());
    assert_eq!(first, 2);
    assert_eq!(second, first);
    assert_eq!(t.rows.len(), rows_after_first);
    assert_eq!(rows_after_first, 2);
}

#[test]
fn distinct_values_get_distinct_ids() {
    let mut t = DimensionTable::new(b"UNKNOWN".to_vec());
    let a = t.resolve_or_create(b"one".to_vec());
    let b = t.resolve_or_create(b"two".to_vec());
    assert_eq!(a, 2);
    assert_eq!(b, 3);
    assert_eq!(t.resolve_or_create(b"one".to_vec()), 2);
}

#[test]
fn visitor_table_mints_fresh_ids() {
    let mut vs = VisitorTable::new();
    assert_eq!(vs.rows.len(), 1);
    let a = vs.new_visitor(1700000000);
    let b = vs.new_visitor(1700000001);
    assert_eq!(a, 2);
    assert_eq!(b, 3);
    assert_eq!(vs.rows.len(), 3);
    assert_eq!(vs.rows[1].first_visit, Some(1700000000));
}

#[test]
fn visitor_resolve_id_is_idempotent() {
    let mut vs = VisitorTable::new();
    assert_eq!(vs.resolve_id(77), 77);
    assert_eq!(vs.rows.len(), 2);
    assert_eq!(vs.rows[1].first_visit, None);
    assert_eq!(vs.resolve_id(77), 77);
    assert_eq!(vs.rows.len(), 2);
    assert_eq!(vs.resolve_id(1), 1);
    assert_eq!(vs.rows.len(), 2);
}

#[test]
fn fresh_ids_skip_past_cookie_supplied_ids() {
    let mut vs = VisitorTable::new();
    vs.resolve_id(50);
    assert_eq!(vs.new_visitor(1700000000), 51);
}

#[test]
fn record_visit_always_appends() {
    let mut s = Store::new(b"UNKNOWN".to_vec(), b"UNKNOWN".to_vec(), b"UNKNOWN".to_vec());
    let row = VisitRow { url_id: 2, visitor_id: 2, user_agent_id: 1, ip_id: 1 };
    s.record_visit(row);
    s.record_visit(row);
    assert_eq!(s.visits.len(), 2);
    assert_eq!(s.visits[0], row);
    assert_eq!(s.visits[1], row);
}

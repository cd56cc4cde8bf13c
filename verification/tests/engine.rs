use allroads::change::{op_from_str, op_to_str, Change, ChangeOp, Payload, PayloadField, PayloadValue};
use allroads::engine::{
    create_triggers, delete_statement, encryption_key_pragma, insert_statement,
    json_object_for_columns, last_listed_id, update_statement, ApplyStep, SqlValue, SyncConfig,
    SyncEngine, SyncError, TableSpec,
};

fn strings(v: &[&str]) -> Vec<String> {
    v.iter().map(|s| s.to_string()).collect()
}

fn roadmap_spec() -> TableSpec {
    TableSpec {
        name: "roadmap".to_string(),
        primary_key: "id".to_string(),
        columns: strings(&["id", "name", "created_at", "updated_at"]),
    }
}

fn field(key: &str, value: PayloadValue) -> PayloadField {
    PayloadField { key: key.to_string(), value }
}

fn text(s: &str) -> PayloadValue {
    PayloadValue::Text(s.to_string())
}

fn mk_change(entity: &str, op: ChangeOp, payload: Payload) -> Change {
    Change {
        change_id: "c1".to_string(),
        timestamp_ms: 1,
        origin_node: "node-test".to_string(),
        entity: entity.to_string(),
        entity_id: "1".to_string(),
        op,
        payload,
        hlc: "1-node".to_string(),
    }
}

fn engine(tables: Vec<TableSpec>, max_orgs: i64) -> SyncEngine {
    SyncEngine::new(SyncConfig {
        db_path: "unused.db".to_string(),
        node_id: "node-test".to_string(),
        encryption_key: "k".to_string(),
        tables,
        max_orgs,
    })
}

fn texts(params: &[SqlValue]) -> Vec<String> {
    params
        .iter()
        .map(|p| match p {
            SqlValue::Null => "NULL".to_string(),
            SqlValue::Integer(i) => format!("i{}", i),
            SqlValue::Real(b) => format!("r{}", b),
            SqlValue::Text(s) => format!("t{}", s),
            SqlValue::Blob(b) => format!("b{}", b.len()),
        })
        .collect()
}

#[test]
fn op_names_round_trip() {
    for op in [ChangeOp::Insert, ChangeOp::Update, ChangeOp::Delete] {
        assert_eq!(op_from_str(op_to_str(op.clone())), op);
    }
    assert_eq!(op_from_str("bogus"), ChangeOp::Update);
    assert_eq!(op_to_str(ChangeOp::Delete), "delete");
}

#[test]
fn json_object_of_columns() {
    assert_eq!(
        json_object_for_columns(&strings(&["id", "name"]), "NEW"),
        "json_object('id', NEW.id, 'name', NEW.name)"
    );
    assert_eq!(json_object_for_columns(&Vec::new(), "t"), "json_object()");
}

#[test]
fn insert_statement_adds_missing_key_and_upserts() {
    let change = mk_change(
        "roadmap",
        ChangeOp::Insert,
        Payload::Object(vec![field("name", text("A")), field("extra", PayloadValue::Bool(true)), field("updated_at", text("b"))]),
    );
    let stmt = insert_statement(&roadmap_spec(), &change).unwrap();
    assert_eq!(
        stmt.sql,
        "INSERT INTO roadmap (id, name, updated_at) VALUES (?1, ?2, ?3) ON CONFLICT(id) DO UPDATE SET name = excluded.name, updated_at = excluded.updated_at;"
    );
    assert_eq!(texts(&stmt.params), vec!["t1", "tA", "tb"]);

    let only_key = mk_change("roadmap", ChangeOp::Insert, Payload::Object(vec![field("id", PayloadValue::Integer(5))]));
    let stmt = insert_statement(&roadmap_spec(), &only_key).unwrap();
    assert_eq!(stmt.sql, "INSERT INTO roadmap (id) VALUES (?1) ON CONFLICT(id) DO NOTHING;");
    assert_eq!(texts(&stmt.params), vec!["i5"]);

    let bad = mk_change("roadmap", ChangeOp::Insert, Payload::Other(PayloadValue::Null));
    assert!(matches!(insert_statement(&roadmap_spec(), &bad), Err(SyncError::InvalidPayload)));
}

#[test]
fn update_and_delete_statements() {
    let change = mk_change(
        "roadmap",
        ChangeOp::Update,
        Payload::Object(vec![field("id", PayloadValue::Integer(1)), field("name", text("A")), field("created_at", PayloadValue::Float(0x4000000000000000))]),
    );
    let stmt = update_statement(&roadmap_spec(), &change).unwrap().unwrap();
    assert_eq!(stmt.sql, "UPDATE roadmap SET name = ?1, created_at = ?2 WHERE id = ?3;");
    assert_eq!(texts(&stmt.params), vec!["tA", "r4611686018427387904", "t1"]);

    let only_key = mk_change("roadmap", ChangeOp::Update, Payload::Object(vec![field("id", PayloadValue::Integer(1))]));
    assert!(update_statement(&roadmap_spec(), &only_key).unwrap().is_none());

    let del = delete_statement(&roadmap_spec(), &change);
    assert_eq!(del.sql, "DELETE FROM roadmap WHERE id = ?1;");
    assert_eq!(texts(&del.params), vec!["t1"]);
}

#[test]
fn later_table_of_a_name_wins() {
    let mut second = roadmap_spec();
    second.columns = strings(&["id", "name"]);
    let e = engine(vec![roadmap_spec(), second], 5);
    assert_eq!(e.table("roadmap").unwrap().columns.len(), 2);
    assert!(e.table("feature").is_none());
}

#[test]
fn validation_rejects_blank_ids_and_non_objects() {
    let e = engine(vec![roadmap_spec()], 5);
    let mut c = mk_change("roadmap", ChangeOp::Update, Payload::Other(PayloadValue::Null));
    assert!(matches!(e.validate_change(&c), Err(SyncError::InvalidPayload)));
    c.op = ChangeOp::Delete;
    assert!(e.validate_change(&c).is_ok());
    c.entity_id = "  ".to_string();
    assert!(matches!(e.validate_change(&c), Err(SyncError::InvalidPayload)));
}

#[test]
fn applying_follows_org_limit_and_freshness() {
    let org = TableSpec { name: "org".to_string(), primary_key: "id".to_string(), columns: strings(&["id", "name", "updated_at"]) };
    let e = engine(vec![roadmap_spec(), org], 2);

    let unknown = mk_change("nope", ChangeOp::Delete, Payload::Other(PayloadValue::Null));
    assert!(matches!(e.begin_apply(&unknown), Err(SyncError::UnknownTable(n)) if n == "nope"));

    let org_insert = mk_change("org", ChangeOp::Insert, Payload::Object(vec![field("name", text("A")), field("updated_at", text("2024"))]));
    match e.begin_apply(&org_insert).unwrap() {
        ApplyStep::CountOrgs(q) => assert_eq!(q.sql, "SELECT COUNT(*) FROM org;"),
        other => panic!("unexpected step {:?}", other),
    }
    assert!(matches!(e.after_org_count(&org_insert, 2), Err(SyncError::InvalidPayload)));
    match e.after_org_count(&org_insert, 1).unwrap() {
        ApplyStep::ReadUpdatedAt(q) => assert_eq!(q.sql, "SELECT updated_at FROM org WHERE id = ?1;"),
        other => panic!("unexpected step {:?}", other),
    }

    let upd = mk_change("roadmap", ChangeOp::Update, Payload::Object(vec![field("name", text("B")), field("updated_at", text("2024-05"))]));
    assert!(matches!(e.after_freshness(&upd, Some("2024-06".to_string())).unwrap(), ApplyStep::Skip));
    match e.after_freshness(&upd, Some("2024-05".to_string())).unwrap() {
        ApplyStep::UpdateOrInsert(u, i) => {
            assert_eq!(u.sql, "UPDATE roadmap SET name = ?1, updated_at = ?2 WHERE id = ?3;");
            assert!(i.sql.starts_with("INSERT INTO roadmap (id, name, updated_at)"));
        }
        other => panic!("unexpected step {:?}", other),
    }
    assert!(matches!(e.after_freshness(&upd, None).unwrap(), ApplyStep::UpdateOrInsert(_, _)));

    let del = mk_change("roadmap", ChangeOp::Delete, Payload::Other(PayloadValue::Null));
    match e.begin_apply(&del).unwrap() {
        ApplyStep::Run(s) => assert_eq!(s.sql, "DELETE FROM roadmap WHERE id = ?1;"),
        other => panic!("unexpected step {:?}", other),
    }
}

#[test]
fn logging_statements() {
    let e = engine(vec![roadmap_spec()], 5);
    let stmt = e.ensure_logged_statement("roadmap").unwrap();
    assert!(stmt.sql.contains("FROM roadmap t LEFT JOIN sync_log l ON l.entity = 'roadmap'"));
    assert!(stmt.sql.contains("json_object('id', t.id, 'name', t.name, 'created_at', t.created_at, 'updated_at', t.updated_at)"));
    assert_eq!(texts(&stmt.params), vec!["tnode-test"]);
    assert!(matches!(e.ensure_logged_statement("x"), Err(SyncError::UnknownTable(n)) if n == "x"));

    let triggers = create_triggers(&roadmap_spec());
    assert_eq!(triggers.len(), 3);
    assert!(triggers[0].starts_with("CREATE TRIGGER IF NOT EXISTS sync_roadmap_insert AFTER INSERT ON roadmap"));
    assert!(triggers[2].contains("CAST(OLD.id AS TEXT), 'delete', json_object('id', OLD.id"));

    let change = mk_change("roadmap", ChangeOp::Delete, Payload::Other(PayloadValue::Null));
    let log = e.incoming_log_statement(&change, "null".to_string());
    assert_eq!(texts(&log.params), vec!["tc1", "i1", "tnode-test", "troadmap", "t1", "tdelete", "tnull", "t1-node"]);
    assert_eq!(texts(&e.change_seen_query(&change).params), vec!["tc1"]);

    assert_eq!(encryption_key_pragma("a'b\"c"), "PRAGMA key = 'a''b\"c';");
    assert_eq!(last_listed_id(7, &Vec::new()), 7);
    assert_eq!(last_listed_id(7, &vec![8, 9, 12]), 12);
}

#[test]
fn blank_key_is_refused() {
    let cfg = |key: &str| SyncConfig {
        db_path: "x".to_string(),
        node_id: "n".to_string(),
        encryption_key: key.to_string(),
        tables: Vec::new(),
        max_orgs: 1,
    };
    assert!(matches!(SyncEngine::new(cfg(" \t")).check_key(), Err(SyncError::MissingKey)));
    assert!(SyncEngine::new(cfg("k")).check_key().is_ok());
}

#[test]
fn incoming_step_skips_logged_changes() {
    let e = engine(vec![roadmap_spec()], 5);
    let c = mk_change("roadmap", ChangeOp::Delete, Payload::Other(PayloadValue::Null));
    assert!(matches!(e.incoming_step(&c, Some("c1".to_string())), Ok(None)));
    assert!(matches!(e.incoming_step(&c, None), Ok(Some(ApplyStep::Run(_)))));
    let other = mk_change("elsewhere", ChangeOp::Delete, Payload::Other(PayloadValue::Null));
    assert!(matches!(e.incoming_step(&other, None), Err(SyncError::UnknownTable(ref t)) if t == "elsewhere"));
    let bad = mk_change("roadmap", ChangeOp::Insert, Payload::Other(PayloadValue::Null));
    assert!(matches!(e.incoming_step(&bad, Some("c1".to_string())), Err(SyncError::InvalidPayload)));
}

#[test]
fn log_statements_bind_their_values() {
    let e = engine(vec![roadmap_spec()], 5);
    let q = e.outgoing_query(25);
    assert!(q.sql.contains("WHERE origin_node = ?1 AND sent = 0 ORDER BY id ASC LIMIT ?2;"));
    assert_eq!(texts(&q.params), vec!["tnode-test", "i25"]);
    let q = allroads::engine::since_query(4, 3);
    assert!(q.sql.contains("WHERE id > ?1 ORDER BY id ASC LIMIT ?2;"));
    assert_eq!(texts(&q.params), vec!["i4", "i3"]);
    assert_eq!(texts(&allroads::engine::set_peer_ack_statement("p", 8).params), vec!["tp", "i8"]);
    assert_eq!(texts(&allroads::engine::mark_sent_statement("c7").params), vec!["tc7"]);
    assert_eq!(allroads::engine::peer_last_ack(None), 0);
    assert_eq!(allroads::engine::peer_last_ack(Some(12)), 12);
}

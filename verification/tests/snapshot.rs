use allroads::engine::{SqlValue, TableSpec, SyncError};
use allroads::snapshot::{
    clear_scope_statements, merge_plan, merge_roadmap_ids, merge_update_params, org_scope_logical_hash,
    org_scope_queries, org_scope_table_defs, scoped_prune_statements, scoped_snapshot_file, vacuum_into,
    HashCell, SnapshotScope,
};
use sha2::Digest;

fn empty_tables() -> Vec<Vec<Vec<HashCell>>> {
    (0..12).map(|_| Vec::new()).collect()
}

#[test]
fn scope_tables_in_order() {
    let defs = org_scope_table_defs();
    let names: Vec<&str> = defs.iter().map(|d| d.name).collect();
    assert_eq!(
        names,
        vec!["org", "org_settings", "org_user", "org_owner", "org_chart", "org_roadmap", "org_roadmap_editor", "roadmap", "quarter", "feature", "subtask", "task_assignment"]
    );
    assert_eq!(defs[9].columns.len(), 14);
    let queries = org_scope_queries(3);
    assert_eq!(queries[1].sql, "SELECT org_id, mode, updated_at FROM org_settings WHERE org_id = ?1 ORDER BY org_id ASC;");
    assert!(matches!(queries[7].params[0], SqlValue::Integer(3)));
}

#[test]
fn logical_hash_is_sha256_of_the_scope_text() {
    let mut tables = empty_tables();
    tables[0].push(vec![
        HashCell::Integer(1),
        HashCell::Text(b"A".to_vec()),
        HashCell::Null,
        HashCell::Blob(b"hello".to_vec()),
        HashCell::Real("1.50000000000000000".to_string()),
        HashCell::Text(vec![0xff]),
        HashCell::Integer(-2),
        HashCell::Text(b"t".to_vec()),
    ]);
    let mut expected = String::from("org:1\n");
    let defs = org_scope_table_defs();
    for (i, d) in defs.iter().enumerate() {
        expected.push_str(&format!("table:{}\n", d.name));
        if i == 0 {
            expected.push_str("id=i:1|name=t:A|token_hash=null|token_salt=b:aGVsbG8=|owner_hash=r:1.50000000000000000|owner_salt=t:\u{fffd}|created_at=i:-2|updated_at=t:t|\n");
        }
    }
    let digest = sha2::Sha256::digest(expected.as_bytes());
    let hex: String = digest.iter().map(|b| format!("{:02x}", b)).collect();
    assert_eq!(org_scope_logical_hash(1, &tables), hex);
}

#[test]
fn logical_hash_stable_and_sensitive() {
    let a = org_scope_logical_hash(4, &empty_tables());
    let b = org_scope_logical_hash(4, &empty_tables());
    assert_eq!(a, b);
    assert_eq!(a.len(), 64);
    assert_ne!(a, org_scope_logical_hash(5, &empty_tables()));
}

#[test]
fn snapshot_paths_and_vacuum() {
    assert_eq!(scoped_snapshot_file("/d/x.db", 3, None), "/d/x.db.snapshot.org3");
    assert_eq!(scoped_snapshot_file("/d/x.db", 3, Some(0)), "/d/x.db.snapshot.org3");
    assert_eq!(scoped_snapshot_file("/d/x.db", 3, Some(9)), "/d/x.db.snapshot.org3.roadmap9");
    assert_eq!(vacuum_into("/tmp/o'k"), "VACUUM INTO '/tmp/o''k';");
}

#[test]
fn prune_plan_follows_present_tables() {
    let present = vec!["org_user".to_string(), "feature".to_string()];
    let stmts = scoped_prune_statements(1, Some(101), &present);
    let sqls: Vec<&str> = stmts.iter().map(|s| s.sql.as_str()).collect();
    assert_eq!(
        sqls,
        vec![
            "DELETE FROM sync_session;",
            "DELETE FROM sync_peer_state;",
            "DELETE FROM sync_log;",
            "DELETE FROM org_roadmap WHERE org_id != ?1;",
            "DELETE FROM org_roadmap WHERE roadmap_id != ?1;",
            "DELETE FROM roadmap WHERE id NOT IN (SELECT roadmap_id FROM org_roadmap WHERE org_id = ?1);",
            "DELETE FROM org WHERE id != ?1;",
            "DELETE FROM org_user WHERE org_id != ?1;",
            "DELETE FROM feature WHERE quarter_id NOT IN (SELECT id FROM quarter);",
        ]
    );
    assert!(matches!(stmts[4].params[0], SqlValue::Integer(101)));
    assert!(stmts[8].params.is_empty());
}

#[test]
fn clearing_covers_both_sides_roadmaps() {
    assert_eq!(merge_roadmap_ids(&vec![101, 102], &vec![102, 103, 103, 104]), vec![101, 102, 103, 104]);
    let scope = SnapshotScope { org_id: 1, roadmap_ids: vec![101] };
    let stmts = clear_scope_statements(&scope, &vec![7]);
    assert_eq!(stmts.len(), 2 * 5 + 6);
    assert!(matches!(stmts[5].params[0], SqlValue::Integer(7)));
    assert_eq!(stmts[15].sql, "DELETE FROM org_roadmap WHERE org_id = ?1;");
}

#[test]
fn merge_plans() {
    let t = TableSpec {
        name: "org_roadmap".to_string(),
        primary_key: "org_id".to_string(),
        columns: vec!["org_id", "roadmap_id", "created_at"].into_iter().map(String::from).collect(),
    };
    let plan = merge_plan(&t).unwrap().unwrap();
    assert_eq!(plan.select_sql, "SELECT org_id, roadmap_id, created_at FROM org_roadmap;");
    assert_eq!(plan.insert_sql, "INSERT INTO org_roadmap (org_id, roadmap_id, created_at) VALUES (?1, ?2, ?3);");
    assert_eq!(plan.update_sql.as_deref(), Some("UPDATE org_roadmap SET roadmap_id = ?1, created_at = ?2 WHERE org_id = ?3;"));
    assert_eq!(plan.pk_index, 0);
    assert_eq!(plan.update_indices, vec![1, 2]);
    let row = vec![SqlValue::Integer(1), SqlValue::Integer(101), SqlValue::Text("t".to_string())];
    let params = merge_update_params(&plan, &row);
    assert!(matches!(params[0], SqlValue::Integer(101)));
    assert!(matches!(params[2], SqlValue::Integer(1)));

    let key_only = TableSpec { name: "k".to_string(), primary_key: "id".to_string(), columns: vec!["id".to_string()] };
    assert!(merge_plan(&key_only).unwrap().unwrap().update_sql.is_none());
    let empty = TableSpec { name: "e".to_string(), primary_key: "id".to_string(), columns: Vec::new() };
    assert!(merge_plan(&empty).unwrap().is_none());
    let no_key = TableSpec { name: "n".to_string(), primary_key: "id".to_string(), columns: vec!["a".to_string()] };
    assert!(matches!(merge_plan(&no_key), Err(SyncError::InvalidPayload)));
}

#[test]
fn snapshot_hash_is_sha256_hex() {
    assert_eq!(
        allroads::snapshot::snapshot_hash(b"abc"),
        "ba7816bf8f01cfea414140de5dae2223b00361a396177a9cb410ff61f20015ad"
    );
}

#[test]
fn snapshot_files_sit_beside_the_database() {
    assert_eq!(allroads::snapshot::snapshot_file("/d/app.db"), "/d/app.db.snapshot");
    assert_eq!(allroads::snapshot::incoming_file("/d/app.db"), "/d/app.db.incoming");
}

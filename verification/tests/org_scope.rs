use allroads::engine::{SqlStatement, SqlValue, TableSpec};
use allroads::snapshot::{
    clear_scope_statements, merge_plan, merge_update_params, org_scope_logical_hash, org_scope_queries,
    org_scope_table_defs, scoped_prune_statements, HashCell, SnapshotScope,
};
use rusqlite::types::ValueRef;
use rusqlite::{params_from_iter, Connection, OptionalExtension};


fn to_sql(v: &SqlValue) -> rusqlite::types::Value {
    match v {
        SqlValue::Null => rusqlite::types::Value::Null,
        SqlValue::Integer(i) => rusqlite::types::Value::Integer(*i),
        SqlValue::Real(bits) => rusqlite::types::Value::Real(f64::from_bits(*bits)),
        SqlValue::Text(s) => rusqlite::types::Value::Text(s.clone()),
        SqlValue::Blob(b) => rusqlite::types::Value::Blob(b.clone()),
    }
}

fn run(conn: &Connection, stmt: &SqlStatement) -> rusqlite::Result<usize> {
    conn.execute(&stmt.sql, params_from_iter(stmt.params.iter().map(to_sql)))
}

fn seeded() -> Connection {
    let conn = Connection::open_in_memory().unwrap();
    create_scope_schema(&conn);
    seed_two_orgs(&conn);
    conn
}

fn count(conn: &Connection, sql: &str) -> i64 {
    conn.query_row(sql, [], |r| r.get(0)).unwrap()
}

fn table_names(conn: &Connection) -> Vec<String> {
    let mut stmt = conn.prepare("SELECT name FROM sqlite_master WHERE type = 'table';").unwrap();
    let rows = stmt.query_map([], |row| row.get(0)).unwrap();
    rows.map(|r| r.unwrap()).collect()
}

/// The org's scope as a scoped snapshot holds it: the database with everything else pruned.
fn prune_to_org(conn: &Connection, org_id: i64) {
    let present = table_names(conn);
    for stmt in scoped_prune_statements(org_id, None, &present) {
        run(conn, &stmt).unwrap();
    }
}

fn logical_hash(conn: &Connection, org_id: i64) -> String {
    let defs = org_scope_table_defs();
    let queries = org_scope_queries(org_id);
    let mut tables = Vec::new();
    for (def, query) in defs.iter().zip(queries.iter()) {
        let mut stmt = conn.prepare(&query.sql).unwrap();
        let mut rows = stmt.query(params_from_iter(query.params.iter().map(to_sql))).unwrap();
        let mut table_rows = Vec::new();
        while let Some(row) = rows.next().unwrap() {
            let mut cells = Vec::new();
            for idx in 0..def.columns.len() {
                cells.push(match row.get_ref(idx).unwrap() {
                    ValueRef::Null => HashCell::Null,
                    ValueRef::Integer(v) => HashCell::Integer(v),
                    ValueRef::Real(v) => HashCell::Real(format!("{:.17}", v)),
                    ValueRef::Text(v) => HashCell::Text(v.to_vec()),
                    ValueRef::Blob(v) => HashCell::Blob(v.to_vec()),
                });
            }
            table_rows.push(cells);
        }
        tables.push(table_rows);
    }
    org_scope_logical_hash(org_id, &tables)
}

fn org_roadmaps(conn: &Connection, org_id: i64) -> Vec<i64> {
    let mut stmt = conn.prepare("SELECT roadmap_id FROM org_roadmap WHERE org_id = ?1;").unwrap();
    let rows = stmt.query_map([org_id], |row| row.get(0)).unwrap();
    rows.map(|r| r.unwrap()).collect()
}

/// Merges a snapshot's rows into the target as importing does: the target's copy of the
/// snapshot's scope is cleared first.
fn import_into(incoming: &Connection, target: &Connection) {
    let org_id: Option<i64> = incoming
        .query_row("SELECT id FROM org LIMIT 1;", [], |row| row.get(0))
        .optional()
        .unwrap();
    if let Some(org_id) = org_id {
        let scope = SnapshotScope { org_id, roadmap_ids: org_roadmaps(incoming, org_id) };
        let existing = org_roadmaps(target, org_id);
        for stmt in clear_scope_statements(&scope, &existing) {
            run(target, &stmt).ok();
        }
    }
    let present = table_names(incoming);
    for table in sync_specs() {
        if table.columns.is_empty() || !present.contains(&table.name) {
            continue;
        }
        let plan = merge_plan(&table).unwrap().unwrap();
        let mut stmt = incoming.prepare(&plan.select_sql).unwrap();
        let mut rows = stmt.query([]).unwrap();
        while let Some(row) = rows.next().unwrap() {
            let mut values = Vec::new();
            for idx in 0..table.columns.len() {
                values.push(match row.get_ref(idx).unwrap() {
                    ValueRef::Null => SqlValue::Null,
                    ValueRef::Integer(v) => SqlValue::Integer(v),
                    ValueRef::Real(v) => SqlValue::Real(v.to_bits()),
                    ValueRef::Text(v) => SqlValue::Text(String::from_utf8_lossy(v).to_string()),
                    ValueRef::Blob(v) => SqlValue::Blob(v.to_vec()),
                });
            }
            let mut updated = 0usize;
            if let Some(update_sql) = &plan.update_sql {
                let update_vals = merge_update_params(&plan, &values);
                updated = target.execute(update_sql, params_from_iter(update_vals.iter().map(to_sql))).unwrap();
            }
            if updated == 0 {
                target.execute(&plan.insert_sql, params_from_iter(values.iter().map(to_sql))).unwrap();
            }
        }
    }
}

#[test]
fn export_scoped_snapshot_contains_only_requested_org() {
    let snap = seeded();
    prune_to_org(&snap, 1);

    assert_eq!(count(&snap, "SELECT COUNT(*) FROM org WHERE id = 1;"), 1);
    assert_eq!(count(&snap, "SELECT COUNT(*) FROM org WHERE id = 2;"), 0);
    assert_eq!(count(&snap, "SELECT COUNT(*) FROM roadmap WHERE id = 201;"), 0);
    assert_eq!(count(&snap, "SELECT COUNT(*) FROM roadmap WHERE id = 999;"), 0);
    assert_eq!(count(&snap, "SELECT COUNT(*) FROM feature WHERE id = 'fA';"), 1);
    assert_eq!(count(&snap, "SELECT COUNT(*) FROM feature WHERE id = 'fB';"), 0);
}

#[test]
fn import_snapshot_replaces_org_scope_but_preserves_other_org_and_local() {
    let source = seeded();
    source.execute("UPDATE feature SET title = 'A-fresh' WHERE id = 'fA';", []).unwrap();
    prune_to_org(&source, 1);

    let target = seeded();
    target.execute("UPDATE feature SET title = 'A-stale' WHERE id = 'fA';", []).unwrap();
    target
        .execute(
            "INSERT INTO feature (id, quarter_id, title, description, completed, status, color, sort_order, updated_at) VALUES ('fA_stale_extra', 1001, 'old', 'old', 0, 'Planned', '#fff', 1, 't');",
            [],
        )
        .unwrap();

    import_into(&source, &target);

    let fresh_title: String = target
        .query_row("SELECT title FROM feature WHERE id = 'fA';", [], |r| r.get(0))
        .unwrap();
    assert_eq!(fresh_title, "A-fresh");
    assert_eq!(count(&target, "SELECT COUNT(*) FROM feature WHERE id = 'fA_stale_extra';"), 0);
    assert_eq!(count(&target, "SELECT COUNT(*) FROM feature WHERE id = 'fB';"), 1);
    assert_eq!(count(&target, "SELECT COUNT(*) FROM roadmap WHERE id = 999;"), 1);
}

#[test]
fn logical_hash_stable_for_equivalent_org_content() {
    let a = seeded();
    let b = seeded();
    assert_eq!(logical_hash(&a, 1), logical_hash(&b, 1));
}

#[test]
fn logical_hash_ignores_other_orgs() {
    let a = seeded();
    let b = seeded();
    b.execute("UPDATE feature SET title = 'B changed' WHERE id = 'fB';", []).unwrap();
    b.execute("DELETE FROM roadmap WHERE id = 999;", []).unwrap();
    assert_eq!(logical_hash(&a, 1), logical_hash(&b, 1));
    assert_ne!(logical_hash(&a, 2), logical_hash(&b, 2));
}

#[test]
fn logical_hash_changes_when_org_content_changes() {
    let conn = seeded();
    let before = logical_hash(&conn, 1);
    conn.execute("UPDATE feature SET title = 'A++' WHERE id = 'fA';", []).unwrap();
    let after = logical_hash(&conn, 1);
    assert_ne!(before, after);
}

fn sync_specs() -> Vec<TableSpec> {
    vec![
        TableSpec { name: "org".to_string(), primary_key: "id".to_string(), columns: vec!["id", "name", "created_at", "updated_at"].into_iter().map(String::from).collect() },
        TableSpec { name: "org_settings".to_string(), primary_key: "org_id".to_string(), columns: vec!["org_id", "mode", "updated_at"].into_iter().map(String::from).collect() },
        TableSpec { name: "org_user".to_string(), primary_key: "id".to_string(), columns: vec!["id", "link_id", "org_id", "display_name", "role", "created_at", "updated_at"].into_iter().map(String::from).collect() },
        TableSpec { name: "org_owner".to_string(), primary_key: "org_id".to_string(), columns: vec!["org_id", "owner_user_id", "created_at"].into_iter().map(String::from).collect() },
        TableSpec { name: "org_roadmap".to_string(), primary_key: "org_id".to_string(), columns: vec!["org_id", "roadmap_id", "created_at"].into_iter().map(String::from).collect() },
        TableSpec { name: "org_chart".to_string(), primary_key: "id".to_string(), columns: vec!["id", "org_id", "manager_id", "report_id", "created_at"].into_iter().map(String::from).collect() },
        TableSpec { name: "org_roadmap_editor".to_string(), primary_key: "user_id".to_string(), columns: vec!["org_id", "user_id", "can_edit", "updated_at"].into_iter().map(String::from).collect() },
        TableSpec { name: "roadmap".to_string(), primary_key: "id".to_string(), columns: vec!["id", "name", "created_at", "updated_at"].into_iter().map(String::from).collect() },
        TableSpec { name: "quarter".to_string(), primary_key: "id".to_string(), columns: vec!["id", "roadmap_id", "year", "quarter", "sort_order"].into_iter().map(String::from).collect() },
        TableSpec { name: "feature".to_string(), primary_key: "id".to_string(), columns: vec!["id", "quarter_id", "title", "description", "completed", "status", "color", "sort_order", "updated_at"].into_iter().map(String::from).collect() },
        TableSpec { name: "subtask".to_string(), primary_key: "id".to_string(), columns: vec!["id", "feature_id", "title", "description", "completed", "status", "color", "sort_order", "updated_at"].into_iter().map(String::from).collect() },
        TableSpec { name: "task_assignment".to_string(), primary_key: "id".to_string(), columns: vec!["id", "feature_id", "user_id", "user_link_id", "status", "assigned_at", "updated_at"].into_iter().map(String::from).collect() },
    ]
}


fn create_scope_schema(conn: &Connection) {
    conn.execute_batch(
        "
        CREATE TABLE IF NOT EXISTS org (id INTEGER PRIMARY KEY, name TEXT NOT NULL, token_hash TEXT NOT NULL, token_salt TEXT NOT NULL, owner_hash TEXT NOT NULL, owner_salt TEXT NOT NULL, created_at TEXT NOT NULL, updated_at TEXT NOT NULL);
        CREATE TABLE IF NOT EXISTS org_settings (org_id INTEGER PRIMARY KEY, mode TEXT NOT NULL, updated_at TEXT NOT NULL);
        CREATE TABLE IF NOT EXISTS org_user (id INTEGER PRIMARY KEY, link_id TEXT NOT NULL DEFAULT '', org_id INTEGER NOT NULL, display_name TEXT NOT NULL, role TEXT NOT NULL, created_at TEXT NOT NULL, updated_at TEXT NOT NULL);
        CREATE TABLE IF NOT EXISTS org_owner (org_id INTEGER PRIMARY KEY, owner_user_id INTEGER NOT NULL, created_at TEXT NOT NULL);
        CREATE TABLE IF NOT EXISTS roadmap (id INTEGER PRIMARY KEY, name TEXT NOT NULL, created_at TEXT NOT NULL, updated_at TEXT NOT NULL);
        CREATE TABLE IF NOT EXISTS org_roadmap (org_id INTEGER NOT NULL, roadmap_id INTEGER NOT NULL, created_at TEXT NOT NULL, PRIMARY KEY (org_id, roadmap_id));
        CREATE UNIQUE INDEX IF NOT EXISTS org_roadmap_org_unique ON org_roadmap(org_id);
        CREATE TABLE IF NOT EXISTS quarter (id INTEGER PRIMARY KEY, roadmap_id INTEGER NOT NULL, year INTEGER NOT NULL, quarter INTEGER NOT NULL, sort_order INTEGER NOT NULL);
        CREATE TABLE IF NOT EXISTS feature (id TEXT PRIMARY KEY, quarter_id INTEGER NOT NULL, title TEXT NOT NULL, description TEXT NOT NULL, completed INTEGER NOT NULL, status TEXT NOT NULL, color TEXT NOT NULL, sort_order INTEGER NOT NULL, days INTEGER, weeks INTEGER, start_date TEXT, started_at TEXT, paused_at TEXT, completed_at TEXT, updated_at TEXT NOT NULL);
        CREATE TABLE IF NOT EXISTS subtask (id TEXT PRIMARY KEY, feature_id TEXT NOT NULL, title TEXT NOT NULL, description TEXT NOT NULL, completed INTEGER NOT NULL, status TEXT NOT NULL, color TEXT NOT NULL, sort_order INTEGER NOT NULL, started_at TEXT, completed_at TEXT, updated_at TEXT NOT NULL);
        CREATE TABLE IF NOT EXISTS task_assignment (id INTEGER PRIMARY KEY, feature_id TEXT NOT NULL, user_id INTEGER NOT NULL, user_link_id TEXT NOT NULL, status TEXT NOT NULL, assigned_at TEXT NOT NULL, updated_at TEXT NOT NULL);
        CREATE TABLE IF NOT EXISTS org_chart (id INTEGER PRIMARY KEY, org_id INTEGER NOT NULL, manager_id INTEGER NOT NULL, report_id INTEGER NOT NULL, created_at TEXT NOT NULL);
        CREATE TABLE IF NOT EXISTS org_roadmap_editor (org_id INTEGER NOT NULL, user_id INTEGER NOT NULL, can_edit INTEGER NOT NULL, updated_at TEXT NOT NULL, PRIMARY KEY (org_id, user_id));
        CREATE UNIQUE INDEX IF NOT EXISTS org_roadmap_editor_user_unique ON org_roadmap_editor(user_id);
        CREATE TABLE IF NOT EXISTS sync_meta (id INTEGER PRIMARY KEY CHECK(id = 1), node_id TEXT NOT NULL, schema_version INTEGER NOT NULL DEFAULT 1, last_snapshot_hash TEXT);
        CREATE TABLE IF NOT EXISTS sync_context (id INTEGER PRIMARY KEY CHECK(id = 1), suppress_triggers INTEGER NOT NULL DEFAULT 0);
        CREATE TABLE IF NOT EXISTS sync_session (session_id TEXT PRIMARY KEY, org_id INTEGER NOT NULL, user_id INTEGER NOT NULL, is_owner INTEGER NOT NULL, session_key TEXT NOT NULL, created_at TEXT NOT NULL, last_seen TEXT NOT NULL);
        CREATE TABLE IF NOT EXISTS sync_peer_state (peer_id TEXT PRIMARY KEY, last_acked_id INTEGER NOT NULL DEFAULT 0, updated_at INTEGER NOT NULL);
        CREATE TABLE IF NOT EXISTS sync_log (id INTEGER PRIMARY KEY AUTOINCREMENT, change_id TEXT NOT NULL UNIQUE, timestamp_ms INTEGER NOT NULL, origin_node TEXT NOT NULL, entity TEXT NOT NULL, entity_id TEXT NOT NULL, op TEXT NOT NULL, payload TEXT NOT NULL, hlc TEXT NOT NULL, applied INTEGER NOT NULL DEFAULT 0, sent INTEGER NOT NULL DEFAULT 0);
        INSERT OR IGNORE INTO sync_meta (id, node_id) VALUES (1, 'node-test');
        INSERT OR IGNORE INTO sync_context (id, suppress_triggers) VALUES (1, 0);
        "
    ).unwrap();
}

fn seed_two_orgs(conn: &Connection) {
    conn.execute("INSERT INTO org (id, name, token_hash, token_salt, owner_hash, owner_salt, created_at, updated_at) VALUES (1, 'A', 'th1', 'ts1', 'oh1', 'os1', 't', 't');", []).unwrap();
    conn.execute("INSERT INTO org (id, name, token_hash, token_salt, owner_hash, owner_salt, created_at, updated_at) VALUES (2, 'B', 'th2', 'ts2', 'oh2', 'os2', 't', 't');", []).unwrap();
    conn.execute("INSERT INTO org_settings (org_id, mode, updated_at) VALUES (1, 'flat', 't');", []).unwrap();
    conn.execute("INSERT INTO org_settings (org_id, mode, updated_at) VALUES (2, 'flat', 't');", []).unwrap();
    conn.execute("INSERT INTO org_user (id, link_id, org_id, display_name, role, created_at, updated_at) VALUES (11, 'usr-11', 1, 'Owner A', 'owner', 't', 't');", []).unwrap();
    conn.execute("INSERT INTO org_user (id, link_id, org_id, display_name, role, created_at, updated_at) VALUES (12, 'usr-12', 1, 'Member A', 'member', 't', 't');", []).unwrap();
    conn.execute("INSERT INTO org_user (id, link_id, org_id, display_name, role, created_at, updated_at) VALUES (21, 'usr-21', 2, 'Owner B', 'owner', 't', 't');", []).unwrap();
    conn.execute("INSERT INTO org_owner (org_id, owner_user_id, created_at) VALUES (1, 11, 't');", []).unwrap();
    conn.execute("INSERT INTO org_owner (org_id, owner_user_id, created_at) VALUES (2, 21, 't');", []).unwrap();
    conn.execute("INSERT INTO roadmap (id, name, created_at, updated_at) VALUES (101, 'OrgA Roadmap', 't', 't');", []).unwrap();
    conn.execute("INSERT INTO roadmap (id, name, created_at, updated_at) VALUES (201, 'OrgB Roadmap', 't', 't');", []).unwrap();
    conn.execute("INSERT INTO roadmap (id, name, created_at, updated_at) VALUES (999, 'Local Personal', 't', 't');", []).unwrap();
    conn.execute("INSERT INTO org_roadmap (org_id, roadmap_id, created_at) VALUES (1, 101, 't');", []).unwrap();
    conn.execute("INSERT INTO org_roadmap (org_id, roadmap_id, created_at) VALUES (2, 201, 't');", []).unwrap();
    conn.execute("INSERT INTO quarter (id, roadmap_id, year, quarter, sort_order) VALUES (1001, 101, 2026, 1, 0);", []).unwrap();
    conn.execute("INSERT INTO quarter (id, roadmap_id, year, quarter, sort_order) VALUES (2001, 201, 2026, 1, 0);", []).unwrap();
    conn.execute("INSERT INTO feature (id, quarter_id, title, description, completed, status, color, sort_order, days, weeks, start_date, started_at, paused_at, completed_at, updated_at) VALUES ('fA', 1001, 'A', 'A', 0, 'Planned', '#fff', 0, NULL, NULL, NULL, NULL, NULL, NULL, 't');", []).unwrap();
    conn.execute("INSERT INTO feature (id, quarter_id, title, description, completed, status, color, sort_order, days, weeks, start_date, started_at, paused_at, completed_at, updated_at) VALUES ('fB', 2001, 'B', 'B', 0, 'Planned', '#fff', 0, NULL, NULL, NULL, NULL, NULL, NULL, 't');", []).unwrap();
    conn.execute("INSERT INTO subtask (id, feature_id, title, description, completed, status, color, sort_order, started_at, completed_at, updated_at) VALUES ('sA', 'fA', 'sA', 'sA', 0, 'Planned', '#aaa', 0, NULL, NULL, 't');", []).unwrap();
    conn.execute("INSERT INTO subtask (id, feature_id, title, description, completed, status, color, sort_order, started_at, completed_at, updated_at) VALUES ('sB', 'fB', 'sB', 'sB', 0, 'Planned', '#aaa', 0, NULL, NULL, 't');", []).unwrap();
    conn.execute("INSERT INTO task_assignment (id, feature_id, user_id, user_link_id, status, assigned_at, updated_at) VALUES (1, 'fA', 12, 'usr-12', 'Assigned', 't', 't');", []).unwrap();
    conn.execute("INSERT INTO task_assignment (id, feature_id, user_id, user_link_id, status, assigned_at, updated_at) VALUES (2, 'fB', 21, 'usr-21', 'Assigned', 't', 't');", []).unwrap();
    conn.execute("INSERT INTO org_chart (id, org_id, manager_id, report_id, created_at) VALUES (1, 1, 11, 12, 't');", []).unwrap();
    conn.execute("INSERT INTO org_roadmap_editor (org_id, user_id, can_edit, updated_at) VALUES (1, 12, 1, 't');", []).unwrap();
}


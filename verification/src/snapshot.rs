use vstd::prelude::*;
use crate::engine::{SqlStatement, SqlValue, SqlValueView, SyncError, TableSpec, TableSpecView, stmts_view, push_plain, push_with_id, placeholder_list, placeholders, numbered_sets, update_sql};
use crate::text::{escape_quotes, escape_single_quotes, join, dec_digits, usize_to_decimal};
use vstd::string::StringExecFns;
use crate::text::{join_seq, join_strs, int_dec, i64_to_decimal, hex_lower, to_hex_lower};
use crate::digest::{sha256, sha256_digest, base64_encode, base64_standard, from_utf8_lossy, utf8_lossy};
use vstd::utf8::encode_utf8;
use vstd::string::StringSliceAdditionalSpecFns;

verus! {

/// A table of an org's scope: its columns, the filter that selects the org's rows (the org id
/// is `?1`), and the order in which they are read.
#[derive(Debug)]
pub struct OrgScopeTableDef {
    pub name: &'static str,
    pub columns: Vec<&'static str>,
    pub filter_sql: &'static str,
    pub order_sql: &'static str,
}

/// An org scope table as text.
pub struct OrgScopeDefView {
    pub name: Seq<char>,
    pub columns: Seq<Seq<char>>,
    pub filter_sql: Seq<char>,
    pub order_sql: Seq<char>,
}

impl View for OrgScopeTableDef {
    type V = OrgScopeDefView;

    open spec fn view(&self) -> OrgScopeDefView {
        OrgScopeDefView {
            name: self.name@,
            columns: self.columns.deep_view(),
            filter_sql: self.filter_sql@,
            order_sql: self.order_sql@,
        }
    }
}

/// The tables that make up an org's data, parents before children.
pub open spec fn org_scope_defs() -> Seq<OrgScopeDefView> {
    seq![
        OrgScopeDefView {
            name: "org"@,
            columns: seq!["id"@, "name"@, "token_hash"@, "token_salt"@, "owner_hash"@, "owner_salt"@, "created_at"@, "updated_at"@],
            filter_sql: "id = ?1"@,
            order_sql: "id ASC"@,
        },
        OrgScopeDefView {
            name: "org_settings"@,
            columns: seq!["org_id"@, "mode"@, "updated_at"@],
            filter_sql: "org_id = ?1"@,
            order_sql: "org_id ASC"@,
        },
        OrgScopeDefView {
            name: "org_user"@,
            columns: seq!["id"@, "link_id"@, "org_id"@, "display_name"@, "role"@, "created_at"@, "updated_at"@],
            filter_sql: "org_id = ?1"@,
            order_sql: "id ASC"@,
        },
        OrgScopeDefView {
            name: "org_owner"@,
            columns: seq!["org_id"@, "owner_user_id"@, "created_at"@],
            filter_sql: "org_id = ?1"@,
            order_sql: "org_id ASC"@,
        },
        OrgScopeDefView {
            name: "org_chart"@,
            columns: seq!["id"@, "org_id"@, "manager_id"@, "report_id"@, "created_at"@],
            filter_sql: "org_id = ?1"@,
            order_sql: "id ASC"@,
        },
        OrgScopeDefView {
            name: "org_roadmap"@,
            columns: seq!["org_id"@, "roadmap_id"@, "created_at"@],
            filter_sql: "org_id = ?1"@,
            order_sql: "roadmap_id ASC"@,
        },
        OrgScopeDefView {
            name: "org_roadmap_editor"@,
            columns: seq!["org_id"@, "user_id"@, "can_edit"@, "updated_at"@],
            filter_sql: "org_id = ?1"@,
            order_sql: "user_id ASC"@,
        },
        OrgScopeDefView {
            name: "roadmap"@,
            columns: seq!["id"@, "name"@, "created_at"@, "updated_at"@],
            filter_sql: "id IN (SELECT roadmap_id FROM org_roadmap WHERE org_id = ?1)"@,
            order_sql: "id ASC"@,
        },
        OrgScopeDefView {
            name: "quarter"@,
            columns: seq!["id"@, "roadmap_id"@, "year"@, "quarter"@, "sort_order"@],
            filter_sql: "roadmap_id IN (SELECT roadmap_id FROM org_roadmap WHERE org_id = ?1)"@,
            order_sql: "id ASC"@,
        },
        OrgScopeDefView {
            name: "feature"@,
            columns: seq!["id"@, "quarter_id"@, "title"@, "description"@, "completed"@, "status"@, "color"@, "sort_order"@, "days"@, "weeks"@, "start_date"@, "started_at"@, "paused_at"@, "completed_at"@],
            filter_sql: "quarter_id IN (SELECT q.id FROM quarter q JOIN org_roadmap orp ON orp.roadmap_id = q.roadmap_id WHERE orp.org_id = ?1)"@,
            order_sql: "id ASC"@,
        },
        OrgScopeDefView {
            name: "subtask"@,
            columns: seq!["id"@, "feature_id"@, "title"@, "description"@, "completed"@, "status"@, "color"@, "sort_order"@, "started_at"@, "completed_at"@],
            filter_sql: "feature_id IN (SELECT f.id FROM feature f JOIN quarter q ON q.id = f.quarter_id JOIN org_roadmap orp ON orp.roadmap_id = q.roadmap_id WHERE orp.org_id = ?1)"@,
            order_sql: "id ASC"@,
        },
        OrgScopeDefView {
            name: "task_assignment"@,
            columns: seq!["id"@, "feature_id"@, "user_id"@, "user_link_id"@, "status"@, "assigned_at"@, "updated_at"@],
            filter_sql: "feature_id IN (SELECT f.id FROM feature f JOIN quarter q ON q.id = f.quarter_id JOIN org_roadmap orp ON orp.roadmap_id = q.roadmap_id WHERE orp.org_id = ?1)"@,
            order_sql: "id ASC"@,
        },
    ]
}

/// The logical hash reads the org's data whole: the twelve org-scope tables, each with every
/// column of its content (of features and subtasks all but `updated_at`), so that a change in any
/// of those columns of a row of the org's scope reaches the hashed text.
pub proof fn scope_tables_hash_every_column()
    ensures
        org_scope_defs().len() == 12,
        org_scope_defs()[0].name == "org"@ && org_scope_defs()[0].columns == seq!["id"@, "name"@, "token_hash"@, "token_salt"@, "owner_hash"@, "owner_salt"@, "created_at"@, "updated_at"@],
        org_scope_defs()[1].name == "org_settings"@ && org_scope_defs()[1].columns == seq!["org_id"@, "mode"@, "updated_at"@],
        org_scope_defs()[2].name == "org_user"@ && org_scope_defs()[2].columns == seq!["id"@, "link_id"@, "org_id"@, "display_name"@, "role"@, "created_at"@, "updated_at"@],
        org_scope_defs()[3].name == "org_owner"@ && org_scope_defs()[3].columns == seq!["org_id"@, "owner_user_id"@, "created_at"@],
        org_scope_defs()[4].name == "org_chart"@ && org_scope_defs()[4].columns == seq!["id"@, "org_id"@, "manager_id"@, "report_id"@, "created_at"@],
        org_scope_defs()[5].name == "org_roadmap"@ && org_scope_defs()[5].columns == seq!["org_id"@, "roadmap_id"@, "created_at"@],
        org_scope_defs()[6].name == "org_roadmap_editor"@ && org_scope_defs()[6].columns == seq!["org_id"@, "user_id"@, "can_edit"@, "updated_at"@],
        org_scope_defs()[7].name == "roadmap"@ && org_scope_defs()[7].columns == seq!["id"@, "name"@, "created_at"@, "updated_at"@],
        org_scope_defs()[8].name == "quarter"@ && org_scope_defs()[8].columns == seq!["id"@, "roadmap_id"@, "year"@, "quarter"@, "sort_order"@],
        org_scope_defs()[9].name == "feature"@ && org_scope_defs()[9].columns == seq!["id"@, "quarter_id"@, "title"@, "description"@, "completed"@, "status"@, "color"@, "sort_order"@, "days"@, "weeks"@, "start_date"@, "started_at"@, "paused_at"@, "completed_at"@],
        org_scope_defs()[10].name == "subtask"@ && org_scope_defs()[10].columns == seq!["id"@, "feature_id"@, "title"@, "description"@, "completed"@, "status"@, "color"@, "sort_order"@, "started_at"@, "completed_at"@],
        org_scope_defs()[11].name == "task_assignment"@ && org_scope_defs()[11].columns == seq!["id"@, "feature_id"@, "user_id"@, "user_link_id"@, "status"@, "assigned_at"@, "updated_at"@],
{
}

/// The tables that make up an org's data, in the order the logical hash reads them.
pub fn org_scope_table_defs() -> (r: Vec<OrgScopeTableDef>)
    ensures
        r@.map_values(|d: OrgScopeTableDef| d@) == org_scope_defs(),
{
    let mut defs: Vec<OrgScopeTableDef> = Vec::new();
    let columns: Vec<&'static str> = vec!["id", "name", "token_hash", "token_salt", "owner_hash", "owner_salt", "created_at", "updated_at"];
    assert(columns.deep_view() =~= org_scope_defs()[0].columns);
    defs.push(OrgScopeTableDef { name: "org", columns, filter_sql: "id = ?1", order_sql: "id ASC" });
    assert(defs@[0]@ == org_scope_defs()[0]);
    let columns: Vec<&'static str> = vec!["org_id", "mode", "updated_at"];
    assert(columns.deep_view() =~= org_scope_defs()[1].columns);
    defs.push(OrgScopeTableDef { name: "org_settings", columns, filter_sql: "org_id = ?1", order_sql: "org_id ASC" });
    assert(defs@[1]@ == org_scope_defs()[1]);
    let columns: Vec<&'static str> = vec!["id", "link_id", "org_id", "display_name", "role", "created_at", "updated_at"];
    assert(columns.deep_view() =~= org_scope_defs()[2].columns);
    defs.push(OrgScopeTableDef { name: "org_user", columns, filter_sql: "org_id = ?1", order_sql: "id ASC" });
    assert(defs@[2]@ == org_scope_defs()[2]);
    let columns: Vec<&'static str> = vec!["org_id", "owner_user_id", "created_at"];
    assert(columns.deep_view() =~= org_scope_defs()[3].columns);
    defs.push(OrgScopeTableDef { name: "org_owner", columns, filter_sql: "org_id = ?1", order_sql: "org_id ASC" });
    assert(defs@[3]@ == org_scope_defs()[3]);
    let columns: Vec<&'static str> = vec!["id", "org_id", "manager_id", "report_id", "created_at"];
    assert(columns.deep_view() =~= org_scope_defs()[4].columns);
    defs.push(OrgScopeTableDef { name: "org_chart", columns, filter_sql: "org_id = ?1", order_sql: "id ASC" });
    assert(defs@[4]@ == org_scope_defs()[4]);
    let columns: Vec<&'static str> = vec!["org_id", "roadmap_id", "created_at"];
    assert(columns.deep_view() =~= org_scope_defs()[5].columns);
    defs.push(OrgScopeTableDef { name: "org_roadmap", columns, filter_sql: "org_id = ?1", order_sql: "roadmap_id ASC" });
    assert(defs@[5]@ == org_scope_defs()[5]);
    let columns: Vec<&'static str> = vec!["org_id", "user_id", "can_edit", "updated_at"];
    assert(columns.deep_view() =~= org_scope_defs()[6].columns);
    defs.push(OrgScopeTableDef { name: "org_roadmap_editor", columns, filter_sql: "org_id = ?1", order_sql: "user_id ASC" });
    assert(defs@[6]@ == org_scope_defs()[6]);
    let columns: Vec<&'static str> = vec!["id", "name", "created_at", "updated_at"];
    assert(columns.deep_view() =~= org_scope_defs()[7].columns);
    defs.push(OrgScopeTableDef { name: "roadmap", columns, filter_sql: "id IN (SELECT roadmap_id FROM org_roadmap WHERE org_id = ?1)", order_sql: "id ASC" });
    assert(defs@[7]@ == org_scope_defs()[7]);
    let columns: Vec<&'static str> = vec!["id", "roadmap_id", "year", "quarter", "sort_order"];
    assert(columns.deep_view() =~= org_scope_defs()[8].columns);
    defs.push(OrgScopeTableDef { name: "quarter", columns, filter_sql: "roadmap_id IN (SELECT roadmap_id FROM org_roadmap WHERE org_id = ?1)", order_sql: "id ASC" });
    assert(defs@[8]@ == org_scope_defs()[8]);
    let columns: Vec<&'static str> = vec!["id", "quarter_id", "title", "description", "completed", "status", "color", "sort_order", "days", "weeks", "start_date", "started_at", "paused_at", "completed_at"];
    assert(columns.deep_view() =~= org_scope_defs()[9].columns);
    defs.push(OrgScopeTableDef { name: "feature", columns, filter_sql: "quarter_id IN (SELECT q.id FROM quarter q JOIN org_roadmap orp ON orp.roadmap_id = q.roadmap_id WHERE orp.org_id = ?1)", order_sql: "id ASC" });
    assert(defs@[9]@ == org_scope_defs()[9]);
    let columns: Vec<&'static str> = vec!["id", "feature_id", "title", "description", "completed", "status", "color", "sort_order", "started_at", "completed_at"];
    assert(columns.deep_view() =~= org_scope_defs()[10].columns);
    defs.push(OrgScopeTableDef { name: "subtask", columns, filter_sql: "feature_id IN (SELECT f.id FROM feature f JOIN quarter q ON q.id = f.quarter_id JOIN org_roadmap orp ON orp.roadmap_id = q.roadmap_id WHERE orp.org_id = ?1)", order_sql: "id ASC" });
    assert(defs@[10]@ == org_scope_defs()[10]);
    let columns: Vec<&'static str> = vec!["id", "feature_id", "user_id", "user_link_id", "status", "assigned_at", "updated_at"];
    assert(columns.deep_view() =~= org_scope_defs()[11].columns);
    defs.push(OrgScopeTableDef { name: "task_assignment", columns, filter_sql: "feature_id IN (SELECT f.id FROM feature f JOIN quarter q ON q.id = f.quarter_id JOIN org_roadmap orp ON orp.roadmap_id = q.roadmap_id WHERE orp.org_id = ?1)", order_sql: "id ASC" });
    assert(defs@[11]@ == org_scope_defs()[11]);
    assert(defs@.map_values(|d: OrgScopeTableDef| d@) =~= org_scope_defs());
    defs
}


/// The query that reads an org's rows of a scope table, in the table's order.
pub open spec fn scope_query_sql(d: OrgScopeDefView) -> Seq<char> {
    "SELECT "@ + join_seq(d.columns, ", "@) + " FROM "@ + d.name + " WHERE "@ + d.filter_sql
        + " ORDER BY "@ + d.order_sql + ";"@
}

/// The queries that read an org's rows of every scope table, each with the org id as `?1`.
pub fn org_scope_queries(org_id: i64) -> (r: Vec<SqlStatement>)
    ensures
        r@.len() == org_scope_defs().len(),
        forall|i: int| 0 <= i < r@.len() ==> #[trigger] r@[i].sql@ == scope_query_sql(org_scope_defs()[i])
            && r@[i].params@ == seq![SqlValue::Integer(org_id)],
{
    let defs = org_scope_table_defs();
    let mut r: Vec<SqlStatement> = Vec::new();
    let mut i: usize = 0;
    while i < defs.len()
        invariant
            defs@.map_values(|d: OrgScopeTableDef| d@) == org_scope_defs(),
            i <= defs@.len(),
            r@.len() == i,
            forall|k: int| 0 <= k < i ==> #[trigger] r@[k].sql@ == scope_query_sql(org_scope_defs()[k])
                && r@[k].params@ == seq![SqlValue::Integer(org_id)],
        decreases defs@.len() - i,
    {
        let d = &defs[i];
        assert(d@ == org_scope_defs()[i as int]);
        let cols = join_strs(&d.columns, ", ");
        let mut sql = String::from_str("SELECT ");
        sql.append(cols.as_str());
        sql.append(" FROM ");
        sql.append(d.name);
        sql.append(" WHERE ");
        sql.append(d.filter_sql);
        sql.append(" ORDER BY ");
        sql.append(d.order_sql);
        sql.append(";");
        let mut params: Vec<SqlValue> = Vec::new();
        params.push(SqlValue::Integer(org_id));
        assert(params@ =~= seq![SqlValue::Integer(org_id)]);
        r.push(SqlStatement { sql, params });
        i = i + 1;
    }
    r
}

/// A value read from a row for the logical hash. `Real` carries the number as written with
/// seventeen decimals.
#[derive(Debug)]
pub enum HashCell {
    Null,
    Integer(i64),
    Real(String),
    Text(Vec<u8>),
    Blob(Vec<u8>),
}

/// How a value enters the logical hash: its type, a colon and its text.
pub open spec fn cell_text(c: HashCell) -> Seq<char> {
    match c {
        HashCell::Null => "null"@,
        HashCell::Integer(v) => "i:"@ + int_dec(v as int),
        HashCell::Real(t) => "r:"@ + t@,
        HashCell::Text(b) => "t:"@ + utf8_lossy(b@),
        HashCell::Blob(b) => "b:"@ + base64_standard(b@),
    }
}

/// Whether a value can be encoded: a blob's base64 length fits in `usize`.
pub open spec fn cell_fits(c: HashCell) -> bool {
    c matches HashCell::Blob(b) ==> 4 * ((b@.len() + 2) / 3) <= usize::MAX
}

/// The first `n` cells of a row as `col=value|` items.
pub open spec fn cells_text(columns: Seq<Seq<char>>, row: Seq<HashCell>, n: nat) -> Seq<char>
    decreases n,
{
    if n == 0 {
        Seq::empty()
    } else {
        let k = (n - 1) as int;
        cells_text(columns, row, (n - 1) as nat) + columns[k] + "="@ + cell_text(row[k]) + "|"@
    }
}

/// The rows of a table, each as its cells followed by a newline.
pub open spec fn rows_text(columns: Seq<Seq<char>>, rows: Seq<Vec<HashCell>>) -> Seq<char>
    decreases rows.len(),
{
    if rows.len() == 0 {
        Seq::empty()
    } else {
        rows_text(columns, rows.drop_last()) + cells_text(columns, rows.last()@, columns.len())
            + "\n"@
    }
}

/// The first `n` scope tables with their rows.
pub open spec fn tables_text(tables: Seq<Vec<Vec<HashCell>>>, n: nat) -> Seq<char>
    decreases n,
{
    if n == 0 {
        Seq::empty()
    } else {
        let k = (n - 1) as int;
        tables_text(tables, (n - 1) as nat) + "table:"@ + org_scope_defs()[k].name + "\n"@
            + rows_text(org_scope_defs()[k].columns, tables[k]@)
    }
}

/// The text the logical hash digests: the org id, then every scope table's name and rows.
pub open spec fn scope_text(org_id: i64, tables: Seq<Vec<Vec<HashCell>>>) -> Seq<char> {
    "org:"@ + int_dec(org_id as int) + "\n"@ + tables_text(tables, org_scope_defs().len())
}

/// The rows read by `org_scope_queries`, one list per scope table, each row one cell per
/// column, every cell encodable.
pub open spec fn scope_rows_well_formed(tables: Seq<Vec<Vec<HashCell>>>) -> bool {
    &&& tables.len() == org_scope_defs().len()
    &&& forall|t: int, r: int| 0 <= t < tables.len() && 0 <= r < tables[t]@.len()
        ==> (#[trigger] tables[t]@[r])@.len() == org_scope_defs()[t].columns.len()
    &&& forall|t: int, r: int, c: int| 0 <= t < tables.len() && 0 <= r < tables[t]@.len()
        && 0 <= c < tables[t]@[r]@.len() ==> cell_fits(#[trigger] tables[t]@[r]@[c])
}

/// The logical hash of an org's data: SHA-256 of the scope text, in lower-case hex.
pub open spec fn logical_hash(org_id: i64, tables: Seq<Vec<Vec<HashCell>>>) -> Seq<char> {
    hex_lower(sha256_digest(encode_utf8(scope_text(org_id, tables))))
}

fn cell_string(c: &HashCell) -> (r: String)
    requires
        cell_fits(*c),
    ensures
        r@ == cell_text(*c),
{
    match c {
        HashCell::Null => String::from_str("null"),
        HashCell::Integer(v) => {
            let mut s = String::from_str("i:");
            let d = i64_to_decimal(*v);
            s.append(d.as_str());
            s
        },
        HashCell::Real(t) => {
            let mut s = String::from_str("r:");
            s.append(t.as_str());
            s
        },
        HashCell::Text(b) => {
            let mut s = String::from_str("t:");
            let t = from_utf8_lossy(b.as_slice());
            s.append(t.as_str());
            s
        },
        HashCell::Blob(b) => {
            let mut s = String::from_str("b:");
            let t = base64_encode(b.as_slice());
            s.append(t.as_str());
            s
        },
    }
}

/// The logical hash of an org's data from the rows `org_scope_queries` read: equal content
/// gives an equal hash, whatever else the databases hold.
pub fn org_scope_logical_hash(org_id: i64, tables: &Vec<Vec<Vec<HashCell>>>) -> (r: String)
    requires
        scope_rows_well_formed(tables@),
    ensures
        r@ == logical_hash(org_id, tables@),
        r@.len() == 64,
{
    let defs = org_scope_table_defs();
    let mut text = String::from_str("org:");
    let d = i64_to_decimal(org_id);
    text.append(d.as_str());
    text.append("\n");
    let ghost prefix = "org:"@ + int_dec(org_id as int) + "\n"@;
    assert(text@ =~= prefix + tables_text(tables@, 0));
    let mut t: usize = 0;
    while t < defs.len()
        invariant
            defs@.map_values(|d: OrgScopeTableDef| d@) == org_scope_defs(),
            scope_rows_well_formed(tables@),
            t <= defs@.len(),
            text@ == prefix + tables_text(tables@, t as nat),
        decreases defs@.len() - t,
    {
        let def = &defs[t];
        assert(def@ == org_scope_defs()[t as int]);
        let ghost cols = org_scope_defs()[t as int].columns;
        let ghost before = text@;
        text.append("table:");
        text.append(def.name);
        text.append("\n");
        let rows = &tables[t];
        let mut r: usize = 0;
        assert(rows@.take(0) =~= Seq::<Vec<HashCell>>::empty());
        while r < rows.len()
            invariant
                def@ == org_scope_defs()[t as int],
                cols == def@.columns,
                scope_rows_well_formed(tables@),
                t < tables@.len(),
                *rows == tables@[t as int],
                r <= rows@.len(),
                text@ == before + "table:"@ + def@.name + "\n"@ + rows_text(cols, rows@.take(r as int)),
            decreases rows@.len() - r,
        {
            let row = &rows[r];
            assert(row@.len() == cols.len());
            let ghost row_start = text@;
            let mut c: usize = 0;
            while c < def.columns.len()
                invariant
                    cols == def.columns.deep_view(),
                    row@.len() == cols.len(),
                    c <= cols.len(),
                    forall|k: int| 0 <= k < row@.len() ==> cell_fits(#[trigger] row@[k]),
                    text@ == row_start + cells_text(cols, row@, c as nat),
                decreases cols.len() - c,
            {
                text.append(def.columns[c]);
                text.append("=");
                let cell = cell_string(&row[c]);
                text.append(cell.as_str());
                text.append("|");
                c = c + 1;
                assert(text@ =~= row_start + cells_text(cols, row@, c as nat));
            }
            text.append("\n");
            assert(rows@.take(r + 1).drop_last() =~= rows@.take(r as int));
            r = r + 1;
            assert(text@ =~= before + "table:"@ + def@.name + "\n"@ + rows_text(cols, rows@.take(r as int)));
        }
        assert(rows@.take(rows@.len() as int) =~= rows@);
        t = t + 1;
        assert(text@ =~= prefix + tables_text(tables@, t as nat));
    }
    let bytes = text.as_str().as_bytes();
    let digest = sha256(bytes);
    to_hex_lower(digest.as_slice())
}

/// The hash a snapshot file is published with: SHA-256 of its bytes, in lower-case hex.
pub fn snapshot_hash(bytes: &[u8]) -> (r: String)
    ensures
        r@ == hex_lower(sha256_digest(bytes@)),
        r@.len() == 64,
{
    let digest = sha256(bytes);
    to_hex_lower(digest.as_slice())
}

/// The cells of every row of every table.
pub open spec fn scope_cells(tables: Seq<Vec<Vec<HashCell>>>) -> Seq<Seq<Seq<HashCell>>> {
    Seq::new(tables.len(), |t: int| rows_cells(tables[t]@))
}

/// The cells of every row.
pub open spec fn rows_cells(rows: Seq<Vec<HashCell>>) -> Seq<Seq<HashCell>> {
    Seq::new(rows.len(), |r: int| rows[r]@)
}

/// Content that reads the same gives the same logical hash, on any node and in any database.
pub proof fn logical_hash_depends_only_on_content(
    org_id: i64,
    a: Seq<Vec<Vec<HashCell>>>,
    b: Seq<Vec<Vec<HashCell>>>,
)
    requires
        a.len() == org_scope_defs().len(),
        scope_cells(a) == scope_cells(b),
    ensures
        logical_hash(org_id, a) == logical_hash(org_id, b),
{
    assert(a.len() == scope_cells(a).len());
    assert(b.len() == scope_cells(b).len());
    assert forall|t: int| 0 <= t < a.len() implies #[trigger] rows_text(org_scope_defs()[t].columns, a[t]@)
        == rows_text(org_scope_defs()[t].columns, b[t]@) by {
        assert(scope_cells(a)[t] == scope_cells(b)[t]);
        lemma_rows_text_ext(org_scope_defs()[t].columns, a[t]@, b[t]@);
    }
    assert(a.len() == scope_cells(a).len());
    assert(b.len() == scope_cells(b).len());
    lemma_tables_text_ext(a, b, org_scope_defs().len());
}

/// `x` and `y` are `w.0 + w.1 + w.3` and `w.0 + w.2 + w.3` with `w.1` and `w.2` different.
pub open spec fn splits(x: Seq<char>, y: Seq<char>, w: (Seq<char>, Seq<char>, Seq<char>, Seq<char>)) -> bool {
    &&& w.1 != w.2
    &&& x == w.0 + w.1 + w.3
    &&& y == w.0 + w.2 + w.3
}

proof fn lemma_splits_differ(x: Seq<char>, y: Seq<char>, w: (Seq<char>, Seq<char>, Seq<char>, Seq<char>))
    requires
        splits(x, y, w),
    ensures
        x != y,
{
    let (p, mx, my, q) = w;
    if mx.len() == my.len() {
        if forall|i: int| 0 <= i < mx.len() ==> mx[i] == my[i] {
            assert(mx =~= my);
        }
        let i = choose|i: int| 0 <= i < mx.len() && mx[i] != my[i];
        assert(x[p.len() + i] == mx[i]);
        assert(y[p.len() + i] == my[i]);
    } else {
        assert(x.len() != y.len());
    }
}

proof fn lemma_cells_text_ext(columns: Seq<Seq<char>>, a: Seq<HashCell>, b: Seq<HashCell>, n: nat)
    requires
        forall|k: int| 0 <= k < n ==> a[k] == b[k],
    ensures
        cells_text(columns, a, n) == cells_text(columns, b, n),
    decreases n,
{
    if n > 0 {
        lemma_cells_text_ext(columns, a, b, (n - 1) as nat);
        assert(a[n - 1] == b[n - 1]);
    }
}

proof fn lemma_cells_split(columns: Seq<Seq<char>>, a: Seq<HashCell>, b: Seq<HashCell>, n: nat, c0: int)
    -> (w: (Seq<char>, Seq<char>, Seq<char>, Seq<char>))
    requires
        0 <= c0 < n,
        forall|k: int| 0 <= k < n && k != c0 ==> a[k] == b[k],
        cell_text(a[c0]) != cell_text(b[c0]),
    ensures
        splits(cells_text(columns, a, n), cells_text(columns, b, n), w),
    decreases n,
{
    let k = n - 1;
    if k == c0 {
        lemma_cells_text_ext(columns, a, b, k as nat);
        let w = (cells_text(columns, a, k as nat) + columns[k] + "="@, cell_text(a[k]), cell_text(b[k]), "|"@);
        assert(cells_text(columns, a, n) =~= w.0 + w.1 + w.3);
        assert(cells_text(columns, b, n) =~= w.0 + w.2 + w.3);
        w
    } else {
        let w0 = lemma_cells_split(columns, a, b, k as nat, c0);
        assert(a[k] == b[k]);
        let tail = columns[k] + "="@ + cell_text(a[k]) + "|"@;
        let w = (w0.0, w0.1, w0.2, w0.3 + tail);
        assert(cells_text(columns, a, n) =~= w.0 + w.1 + w.3);
        assert(cells_text(columns, b, n) =~= w.0 + w.2 + w.3);
        w
    }
}

proof fn lemma_rows_split(columns: Seq<Seq<char>>, a: Seq<Vec<HashCell>>, b: Seq<Vec<HashCell>>, r0: int, c0: int)
    -> (w: (Seq<char>, Seq<char>, Seq<char>, Seq<char>))
    requires
        a.len() == b.len(),
        0 <= r0 < a.len(),
        0 <= c0 < columns.len(),
        forall|r: int| 0 <= r < a.len() && r != r0 ==> a[r]@ == b[r]@,
        forall|k: int| 0 <= k < columns.len() && k != c0 ==> a[r0]@[k] == b[r0]@[k],
        cell_text(a[r0]@[c0]) != cell_text(b[r0]@[c0]),
    ensures
        splits(rows_text(columns, a), rows_text(columns, b), w),
    decreases a.len(),
{
    let m = a.len() - 1;
    let ai = a.drop_last();
    let bi = b.drop_last();
    if m == r0 {
        assert forall|r: int| 0 <= r < ai.len() implies ai[r]@ == bi[r]@ by {
            assert(ai[r] == a[r] && bi[r] == b[r]);
        }
        assert(rows_cells(ai) =~= rows_cells(bi));
        lemma_rows_text_ext(columns, ai, bi);
        let wc = lemma_cells_split(columns, a.last()@, b.last()@, columns.len(), c0);
        let pre = rows_text(columns, ai);
        let w = (pre + wc.0, wc.1, wc.2, wc.3 + "\n"@);
        assert(rows_text(columns, a) =~= w.0 + w.1 + w.3);
        assert(rows_text(columns, b) =~= w.0 + w.2 + w.3);
        w
    } else {
        assert forall|r: int| 0 <= r < ai.len() && r != r0 implies ai[r]@ == bi[r]@ by {
            assert(ai[r] == a[r] && bi[r] == b[r]);
        }
        assert(ai[r0] == a[r0] && bi[r0] == b[r0]);
        let w0 = lemma_rows_split(columns, ai, bi, r0, c0);
        assert(a.last()@ == b.last()@);
        let tail = cells_text(columns, a.last()@, columns.len()) + "\n"@;
        let w = (w0.0, w0.1, w0.2, w0.3 + tail);
        assert(rows_text(columns, a) =~= w.0 + w.1 + w.3);
        assert(rows_text(columns, b) =~= w.0 + w.2 + w.3);
        w
    }
}

proof fn lemma_tables_prefix(a: Seq<Vec<Vec<HashCell>>>, b: Seq<Vec<Vec<HashCell>>>, n: nat)
    requires
        n <= a.len(),
        n <= b.len(),
        forall|t: int| 0 <= t < n ==> #[trigger] rows_text(org_scope_defs()[t].columns, a[t]@)
            == rows_text(org_scope_defs()[t].columns, b[t]@),
    ensures
        tables_text(a, n) == tables_text(b, n),
    decreases n,
{
    if n > 0 {
        lemma_tables_prefix(a, b, (n - 1) as nat);
        assert(rows_text(org_scope_defs()[n - 1].columns, a[n - 1]@)
            == rows_text(org_scope_defs()[n - 1].columns, b[n - 1]@));
    }
}

#[verifier::rlimit(60)]
proof fn lemma_tables_split(
    a: Seq<Vec<Vec<HashCell>>>,
    b: Seq<Vec<Vec<HashCell>>>,
    n: nat,
    t0: int,
    wr: (Seq<char>, Seq<char>, Seq<char>, Seq<char>),
) -> (w: (Seq<char>, Seq<char>, Seq<char>, Seq<char>))
    requires
        n <= a.len(),
        a.len() == b.len(),
        0 <= t0 < n,
        forall|t: int| 0 <= t < a.len() && t != t0 ==> #[trigger] rows_text(org_scope_defs()[t].columns, a[t]@)
            == rows_text(org_scope_defs()[t].columns, b[t]@),
        splits(rows_text(org_scope_defs()[t0].columns, a[t0]@), rows_text(org_scope_defs()[t0].columns, b[t0]@), wr),
    ensures
        splits(tables_text(a, n), tables_text(b, n), w),
    decreases n,
{
    let k = n - 1;
    if k == t0 {
        lemma_tables_prefix(a, b, k as nat);
        let head = tables_text(a, k as nat) + "table:"@ + org_scope_defs()[k].name + "\n"@;
        let w = (head + wr.0, wr.1, wr.2, wr.3);
        assert(tables_text(a, n) =~= w.0 + w.1 + w.3);
        assert(tables_text(b, n) =~= w.0 + w.2 + w.3);
        w
    } else {
        let w0 = lemma_tables_split(a, b, k as nat, t0, wr);
        assert(rows_text(org_scope_defs()[k].columns, a[k]@) == rows_text(org_scope_defs()[k].columns, b[k]@));
        let tail = "table:"@ + org_scope_defs()[k].name + "\n"@ + rows_text(org_scope_defs()[k].columns, a[k]@);
        let w = (w0.0, w0.1, w0.2, w0.3 + tail);
        assert(tables_text(a, n) =~= w.0 + w.1 + w.3);
        assert(tables_text(b, n) =~= w.0 + w.2 + w.3);
        w
    }
}

/// The logical hash reads every cell of the org's scope: where two scopes have the same tables
/// and rows, every row holding one cell per column, and they differ in one cell alone, in a way
/// that its text shows (its type or its value as written), the texts that are hashed differ.
pub proof fn scope_text_sees_every_cell(
    org_id: i64,
    a: Seq<Vec<Vec<HashCell>>>,
    b: Seq<Vec<Vec<HashCell>>>,
    t0: int,
    r0: int,
    c0: int,
)
    requires
        a.len() == org_scope_defs().len(),
        b.len() == a.len(),
        forall|t: int| 0 <= t < a.len() ==> (#[trigger] a[t])@.len() == b[t]@.len(),
        forall|t: int, r: int| 0 <= t < a.len() && 0 <= r < a[t]@.len()
            ==> (#[trigger] a[t]@[r])@.len() == org_scope_defs()[t].columns.len()
                && b[t]@[r]@.len() == org_scope_defs()[t].columns.len(),
        0 <= t0 < a.len(),
        0 <= r0 < a[t0]@.len(),
        0 <= c0 < org_scope_defs()[t0].columns.len(),
        forall|t: int, r: int, c: int| 0 <= t < a.len() && 0 <= r < a[t]@.len()
            && 0 <= c < org_scope_defs()[t].columns.len() && !(t == t0 && r == r0 && c == c0)
            ==> #[trigger] a[t]@[r]@[c] == b[t]@[r]@[c],
        cell_text(a[t0]@[r0]@[c0]) != cell_text(b[t0]@[r0]@[c0]),
    ensures
        scope_text(org_id, a) != scope_text(org_id, b),
{
    let cols = org_scope_defs()[t0].columns;
    assert forall|r: int| 0 <= r < a[t0]@.len() && r != r0 implies a[t0]@[r]@ == b[t0]@[r]@ by {
        assert forall|c: int| 0 <= c < cols.len() implies a[t0]@[r]@[c] == b[t0]@[r]@[c] by {
            assert(a[t0]@[r]@[c] == b[t0]@[r]@[c]);
        }
        assert(a[t0]@[r]@ =~= b[t0]@[r]@);
    }
    assert forall|k: int| 0 <= k < cols.len() && k != c0 implies a[t0]@[r0]@[k] == b[t0]@[r0]@[k] by {
        assert(a[t0]@[r0]@[k] == b[t0]@[r0]@[k]);
    }
    let wr = lemma_rows_split(cols, a[t0]@, b[t0]@, r0, c0);
    assert forall|t: int| 0 <= t < a.len() && t != t0 implies #[trigger] rows_text(org_scope_defs()[t].columns, a[t]@)
        == rows_text(org_scope_defs()[t].columns, b[t]@) by {
        assert forall|r: int| 0 <= r < a[t]@.len() implies a[t]@[r]@ == b[t]@[r]@ by {
            assert forall|c: int| 0 <= c < org_scope_defs()[t].columns.len() implies a[t]@[r]@[c] == b[t]@[r]@[c] by {
                assert(a[t]@[r]@[c] == b[t]@[r]@[c]);
            }
            assert(a[t]@[r]@ =~= b[t]@[r]@);
        }
        assert(rows_cells(a[t]@) =~= rows_cells(b[t]@));
        lemma_rows_text_ext(org_scope_defs()[t].columns, a[t]@, b[t]@);
    }
    let wt = lemma_tables_split(a, b, org_scope_defs().len(), t0, wr);
    let head = "org:"@ + int_dec(org_id as int) + "\n"@;
    let w = (head + wt.0, wt.1, wt.2, wt.3);
    assert(scope_text(org_id, a) =~= w.0 + w.1 + w.3);
    assert(scope_text(org_id, b) =~= w.0 + w.2 + w.3);
    lemma_splits_differ(scope_text(org_id, a), scope_text(org_id, b), w);
}

proof fn lemma_rows_text_ext(columns: Seq<Seq<char>>, a: Seq<Vec<HashCell>>, b: Seq<Vec<HashCell>>)
    requires
        rows_cells(a) == rows_cells(b),
    ensures
        rows_text(columns, a) == rows_text(columns, b),
    decreases a.len(),
{
    assert(a.len() == rows_cells(a).len());
    assert(b.len() == rows_cells(b).len());
    if a.len() > 0 {
        assert forall|k: int| 0 <= k < a.len() implies a[k]@ == b[k]@ by {
            assert(rows_cells(a)[k] == rows_cells(b)[k]);
        }
        assert(rows_cells(a.drop_last()) =~= rows_cells(b.drop_last()));
        lemma_rows_text_ext(columns, a.drop_last(), b.drop_last());
        assert(a.last()@ == b.last()@);
    }
}

proof fn lemma_tables_text_ext(a: Seq<Vec<Vec<HashCell>>>, b: Seq<Vec<Vec<HashCell>>>, n: nat)
    requires
        n <= a.len(),
        a.len() == b.len(),
        forall|t: int| 0 <= t < a.len() ==> #[trigger] rows_text(org_scope_defs()[t].columns, a[t]@)
            == rows_text(org_scope_defs()[t].columns, b[t]@),
    ensures
        tables_text(a, n) == tables_text(b, n),
    decreases n,
{
    if n > 0 {
        lemma_tables_text_ext(a, b, (n - 1) as nat);
        assert(rows_text(org_scope_defs()[n - 1].columns, a[n - 1]@)
            == rows_text(org_scope_defs()[n - 1].columns, b[n - 1]@));
    }
}


/// Where a scoped snapshot is written before it is read back: beside the database, named by the
/// org and, for a positive roadmap id, the roadmap.
pub open spec fn scoped_snapshot_path(db_path: Seq<char>, org_id: i64, roadmap_id: Option<i64>) -> Seq<char> {
    let scope: i64 = match roadmap_id {
        Some(r) => r,
        None => 0,
    };
    if scope > 0 {
        db_path + ".snapshot.org"@ + int_dec(org_id as int) + ".roadmap"@ + int_dec(scope as int)
    } else {
        db_path + ".snapshot.org"@ + int_dec(org_id as int)
    }
}

/// Writes `scoped_snapshot_path`.
pub fn scoped_snapshot_file(db_path: &str, org_id: i64, roadmap_id: Option<i64>) -> (r: String)
    ensures
        r@ == scoped_snapshot_path(db_path@, org_id, roadmap_id),
{
    let scope: i64 = match roadmap_id {
        Some(r) => r,
        None => 0,
    };
    let mut p = String::from_str(db_path);
    p.append(".snapshot.org");
    let org = i64_to_decimal(org_id);
    p.append(org.as_str());
    if scope > 0 {
        p.append(".roadmap");
        let rm = i64_to_decimal(scope);
        p.append(rm.as_str());
    }
    p
}

/// Where a whole-database snapshot is written before it is read back: beside the database.
pub fn snapshot_file(db_path: &str) -> (r: String)
    ensures
        r@ == db_path@ + ".snapshot"@,
{
    let mut p = String::from_str(db_path);
    p.append(".snapshot");
    p
}

/// Where an incoming snapshot is written before it is merged: beside the database.
pub fn incoming_file(db_path: &str) -> (r: String)
    ensures
        r@ == db_path@ + ".incoming"@,
{
    let mut p = String::from_str(db_path);
    p.append(".incoming");
    p
}

/// The statement that copies the whole database into a file.
pub open spec fn vacuum_into_sql(path: Seq<char>) -> Seq<char> {
    "VACUUM INTO '"@ + escape_quotes(path) + "';"@
}

/// Writes `vacuum_into_sql`.
pub fn vacuum_into(path: &str) -> (r: String)
    ensures
        r@ == vacuum_into_sql(path@),
{
    let escaped = escape_single_quotes(path);
    let mut r = String::from_str("VACUUM INTO '");
    r.append(escaped.as_str());
    r.append("';");
    r
}

/// Whether the names list holds a name.
pub open spec fn names_contain(names: Seq<Seq<char>>, name: Seq<char>) -> bool {
    exists|i: int| 0 <= i < names.len() && names[i] == name
}

/// A statement that runs only where its table is present.
pub open spec fn if_present(
    present: Seq<Seq<char>>,
    table: Seq<char>,
    stmt: (Seq<char>, Seq<SqlValueView>),
) -> Seq<(Seq<char>, Seq<SqlValueView>)> {
    if names_contain(present, table) { seq![stmt] } else { Seq::empty() }
}

/// What is deleted from a copy of the database so that it holds one org's data alone, and of
/// that org only the given roadmap where one is given. The org-scoped tables other than `org`,
/// `org_roadmap` and `roadmap` are pruned only where `present` names them.
pub open spec fn scoped_prune_plan(
    org_id: i64,
    roadmap_id: Option<i64>,
    present: Seq<Seq<char>>,
) -> Seq<(Seq<char>, Seq<SqlValueView>)> {
    let org = seq![SqlValueView::Integer(org_id)];
    prune_base(org_id, roadmap_id) + if_present(present, "org_settings"@, ("DELETE FROM org_settings WHERE org_id != ?1;"@, org))
        + if_present(present, "org_user"@, ("DELETE FROM org_user WHERE org_id != ?1;"@, org))
        + if_present(present, "org_owner"@, ("DELETE FROM org_owner WHERE org_id != ?1;"@, org))
        + if_present(present, "org_chart"@, ("DELETE FROM org_chart WHERE org_id != ?1;"@, org))
        + if_present(present, "org_roadmap_editor"@, ("DELETE FROM org_roadmap_editor WHERE org_id != ?1;"@, org))
        + if_present(present, "quarter"@, ("DELETE FROM quarter WHERE roadmap_id NOT IN (SELECT roadmap_id FROM org_roadmap WHERE org_id = ?1);"@, org))
        + if_present(present, "feature"@, ("DELETE FROM feature WHERE quarter_id NOT IN (SELECT id FROM quarter);"@, Seq::<SqlValueView>::empty()))
        + if_present(present, "subtask"@, ("DELETE FROM subtask WHERE feature_id NOT IN (SELECT id FROM feature);"@, Seq::<SqlValueView>::empty()))
        + if_present(present, "task_assignment"@, ("DELETE FROM task_assignment WHERE feature_id NOT IN (SELECT id FROM feature);"@, Seq::<SqlValueView>::empty()))
}

/// The deletions every scoped snapshot makes: the sync bookkeeping, and the other orgs and their
/// roadmaps.
pub open spec fn prune_base(org_id: i64, roadmap_id: Option<i64>) -> Seq<(Seq<char>, Seq<SqlValueView>)> {
    let org = seq![SqlValueView::Integer(org_id)];
    seq![
        ("DELETE FROM sync_session;"@, Seq::<SqlValueView>::empty()),
        ("DELETE FROM sync_peer_state;"@, Seq::<SqlValueView>::empty()),
        ("DELETE FROM sync_log;"@, Seq::<SqlValueView>::empty()),
        ("DELETE FROM org_roadmap WHERE org_id != ?1;"@, org),
    ] + (match roadmap_id {
        Some(r) => seq![("DELETE FROM org_roadmap WHERE roadmap_id != ?1;"@, seq![SqlValueView::Integer(r)])],
        None => Seq::empty(),
    }) + seq![
        ("DELETE FROM roadmap WHERE id NOT IN (SELECT roadmap_id FROM org_roadmap WHERE org_id = ?1);"@, org),
        ("DELETE FROM org WHERE id != ?1;"@, org),
    ]
}

fn has_name(names: &Vec<String>, name: &str) -> (r: bool)
    ensures
        r == names_contain(names.deep_view(), name@),
{
    let mut i: usize = 0;
    while i < names.len()
        invariant
            i <= names@.len(),
            forall|k: int| 0 <= k < i ==> names.deep_view()[k] != name@,
        decreases names@.len() - i,
    {
        if crate::text::str_eq(names[i].as_str(), name) {
            assert(names.deep_view()[i as int] == name@);
            return true;
        }
        i = i + 1;
    }
    false
}

fn push_if_present(
    v: &mut Vec<SqlStatement>,
    present: &Vec<String>,
    table: &str,
    sql: &str,
    org_id: Option<i64>,
)
    ensures
        stmts_view(final(v)@) == stmts_view(old(v)@) + if_present(
            present.deep_view(),
            table@,
            (sql@, match org_id {
                Some(id) => seq![SqlValueView::Integer(id)],
                None => Seq::<SqlValueView>::empty(),
            }),
        ),
{
    let ghost before = stmts_view(v@);
    if has_name(present, table) {
        match org_id {
            Some(id) => push_with_id(v, sql, id),
            None => push_plain(v, sql),
        }
        assert(stmts_view(v@) =~= before + if_present(
            present.deep_view(),
            table@,
            (sql@, match org_id {
                Some(id) => seq![SqlValueView::Integer(id)],
                None => Seq::<SqlValueView>::empty(),
            }),
        ));
    } else {
        assert(stmts_view(v@) =~= before + Seq::<(Seq<char>, Seq<SqlValueView>)>::empty());
    }
}

/// The deletions that reduce a copy of the database to one org (and roadmap), given the tables
/// the copy holds.
#[verifier::rlimit(30)]
pub fn scoped_prune_statements(org_id: i64, roadmap_id: Option<i64>, present: &Vec<String>) -> (r: Vec<SqlStatement>)
    ensures
        stmts_view(r@) == scoped_prune_plan(org_id, roadmap_id, present.deep_view()),
{
    let mut v: Vec<SqlStatement> = Vec::new();
    push_plain(&mut v, "DELETE FROM sync_session;");
    push_plain(&mut v, "DELETE FROM sync_peer_state;");
    push_plain(&mut v, "DELETE FROM sync_log;");
    push_with_id(&mut v, "DELETE FROM org_roadmap WHERE org_id != ?1;", org_id);
    if let Some(r) = roadmap_id {
        push_with_id(&mut v, "DELETE FROM org_roadmap WHERE roadmap_id != ?1;", r);
    }
    push_with_id(&mut v, "DELETE FROM roadmap WHERE id NOT IN (SELECT roadmap_id FROM org_roadmap WHERE org_id = ?1);", org_id);
    push_with_id(&mut v, "DELETE FROM org WHERE id != ?1;", org_id);
    assert(stmts_view(v@) =~= prune_base(org_id, roadmap_id));
    push_if_present(&mut v, present, "org_settings", "DELETE FROM org_settings WHERE org_id != ?1;", Some(org_id));
    push_if_present(&mut v, present, "org_user", "DELETE FROM org_user WHERE org_id != ?1;", Some(org_id));
    push_if_present(&mut v, present, "org_owner", "DELETE FROM org_owner WHERE org_id != ?1;", Some(org_id));
    push_if_present(&mut v, present, "org_chart", "DELETE FROM org_chart WHERE org_id != ?1;", Some(org_id));
    push_if_present(&mut v, present, "org_roadmap_editor", "DELETE FROM org_roadmap_editor WHERE org_id != ?1;", Some(org_id));
    push_if_present(&mut v, present, "quarter", "DELETE FROM quarter WHERE roadmap_id NOT IN (SELECT roadmap_id FROM org_roadmap WHERE org_id = ?1);", Some(org_id));
    push_if_present(&mut v, present, "feature", "DELETE FROM feature WHERE quarter_id NOT IN (SELECT id FROM quarter);", None);
    push_if_present(&mut v, present, "subtask", "DELETE FROM subtask WHERE feature_id NOT IN (SELECT id FROM feature);", None);
    push_if_present(&mut v, present, "task_assignment", "DELETE FROM task_assignment WHERE feature_id NOT IN (SELECT id FROM feature);", None);
    v
}


/// The org a snapshot holds and that org's roadmaps.
#[derive(Debug)]
pub struct SnapshotScope {
    pub org_id: i64,
    pub roadmap_ids: Vec<i64>,
}

/// The ids of `a`, then each id of `b` that is not already among them, in order.
pub open spec fn merge_ids(a: Seq<i64>, b: Seq<i64>) -> Seq<i64>
    decreases b.len(),
{
    if b.len() == 0 {
        a
    } else {
        let m = merge_ids(a, b.drop_last());
        if m.contains(b.last()) { m } else { m.push(b.last()) }
    }
}

/// The roadmaps to clear before a snapshot is merged in: the snapshot's, and those the target
/// already has for the org.
pub fn merge_roadmap_ids(snapshot_ids: &Vec<i64>, existing: &Vec<i64>) -> (r: Vec<i64>)
    ensures
        r@ == merge_ids(snapshot_ids@, existing@),
{
    let mut r: Vec<i64> = Vec::new();
    let mut i: usize = 0;
    while i < snapshot_ids.len()
        invariant
            i <= snapshot_ids@.len(),
            r@ == snapshot_ids@.take(i as int),
        decreases snapshot_ids@.len() - i,
    {
        r.push(snapshot_ids[i]);
        assert(r@ =~= snapshot_ids@.take(i + 1));
        i = i + 1;
    }
    assert(snapshot_ids@.take(snapshot_ids@.len() as int) =~= snapshot_ids@);
    let mut j: usize = 0;
    while j < existing.len()
        invariant
            j <= existing@.len(),
            r@ == merge_ids(snapshot_ids@, existing@.take(j as int)),
        decreases existing@.len() - j,
    {
        let id = existing[j];
        assert(existing@.take(j + 1).drop_last() =~= existing@.take(j as int));
        let mut k: usize = 0;
        let mut found = false;
        while k < r.len()
            invariant
                k <= r@.len(),
                found == exists|x: int| 0 <= x < k && r@[x] == id,
            decreases r@.len() - k,
        {
            if r[k] == id {
                found = true;
            }
            k = k + 1;
        }
        if !found {
            r.push(id);
        }
        j = j + 1;
    }
    assert(existing@.take(existing@.len() as int) =~= existing@);
    r
}

/// The deletions that clear one roadmap and everything under it.
pub open spec fn roadmap_clear_plan(id: i64) -> Seq<(Seq<char>, Seq<SqlValueView>)> {
    let p = seq![SqlValueView::Integer(id)];
    seq![
        ("DELETE FROM task_assignment WHERE feature_id IN (SELECT f.id FROM feature f JOIN quarter q ON q.id = f.quarter_id WHERE q.roadmap_id = ?1);"@, p),
        ("DELETE FROM subtask WHERE feature_id IN (SELECT f.id FROM feature f JOIN quarter q ON q.id = f.quarter_id WHERE q.roadmap_id = ?1);"@, p),
        ("DELETE FROM feature WHERE quarter_id IN (SELECT id FROM quarter WHERE roadmap_id = ?1);"@, p),
        ("DELETE FROM quarter WHERE roadmap_id = ?1;"@, p),
        ("DELETE FROM roadmap WHERE id = ?1;"@, p),
    ]
}

/// The deletions that clear the given roadmaps, in order.
pub open spec fn roadmaps_clear_plan(ids: Seq<i64>) -> Seq<(Seq<char>, Seq<SqlValueView>)>
    decreases ids.len(),
{
    if ids.len() == 0 {
        Seq::empty()
    } else {
        roadmaps_clear_plan(ids.drop_last()) + roadmap_clear_plan(ids.last())
    }
}

/// The deletions that clear an org's own tables.
pub open spec fn org_clear_plan(org_id: i64) -> Seq<(Seq<char>, Seq<SqlValueView>)> {
    let p = seq![SqlValueView::Integer(org_id)];
    seq![
        ("DELETE FROM org_roadmap_editor WHERE org_id = ?1;"@, p),
        ("DELETE FROM org_chart WHERE org_id = ?1;"@, p),
        ("DELETE FROM org_owner WHERE org_id = ?1;"@, p),
        ("DELETE FROM org_user WHERE org_id = ?1;"@, p),
        ("DELETE FROM org_settings WHERE org_id = ?1;"@, p),
        ("DELETE FROM org_roadmap WHERE org_id = ?1;"@, p),
    ]
}

/// Whether a statement's parameters bind one integer id.
pub open spec fn binds_id(stmt: (Seq<char>, Seq<SqlValueView>), id: i64) -> bool {
    stmt.1 == seq![SqlValueView::Integer(id)]
}

proof fn lemma_merge_ids_contains(a: Seq<i64>, b: Seq<i64>, x: i64)
    ensures
        merge_ids(a, b).contains(x) <==> (a.contains(x) || b.contains(x)),
    decreases b.len(),
{
    if b.len() > 0 {
        let m = merge_ids(a, b.drop_last());
        lemma_merge_ids_contains(a, b.drop_last(), x);
        assert(b =~= b.drop_last().push(b.last()));
        if b.drop_last().contains(x) {
            let k = choose|k: int| 0 <= k < b.drop_last().len() && b.drop_last()[k] == x;
            assert(b[k] == x);
        }
        if b.contains(x) && x != b.last() {
            let k = choose|k: int| 0 <= k < b.len() && b[k] == x;
            assert(k != b.len() - 1);
            assert(b.drop_last()[k] == x);
        }
        if !m.contains(b.last()) {
            let n = m.push(b.last());
            if m.contains(x) {
                let k = choose|k: int| 0 <= k < m.len() && m[k] == x;
                assert(n[k] == x);
            }
            if n.contains(x) && x != b.last() {
                let k = choose|k: int| 0 <= k < n.len() && n[k] == x;
                assert(m[k] == x);
            }
            assert(n[n.len() - 1] == b.last());
        }
    }
}

proof fn lemma_roadmaps_clear_plan(ids: Seq<i64>)
    ensures
        roadmaps_clear_plan(ids).len() == 5 * ids.len(),
        forall|k: int| 0 <= k < roadmaps_clear_plan(ids).len()
            ==> binds_id(#[trigger] roadmaps_clear_plan(ids)[k], ids[k / 5]),
        forall|i: int| 0 <= i < ids.len() ==> #[trigger] roadmaps_clear_plan(ids)[5 * i + 4]
            == ("DELETE FROM roadmap WHERE id = ?1;"@, seq![SqlValueView::Integer(ids[i])]),
    decreases ids.len(),
{
    if ids.len() > 0 {
        let init = ids.drop_last();
        lemma_roadmaps_clear_plan(init);
        let plan = roadmaps_clear_plan(ids);
        let head = roadmaps_clear_plan(init);
        assert(plan == head + roadmap_clear_plan(ids.last()));
        assert forall|k: int| 0 <= k < plan.len() implies binds_id(#[trigger] plan[k], ids[k / 5]) by {
            if k < head.len() {
                assert(plan[k] == head[k]);
                assert(k / 5 < init.len()) by (nonlinear_arith)
                    requires 0 <= k < 5 * init.len();
                assert(init[k / 5] == ids[k / 5]);
            } else {
                assert(plan[k] == roadmap_clear_plan(ids.last())[k - head.len()]);
                assert(k / 5 == ids.len() - 1) by (nonlinear_arith)
                    requires 5 * (ids.len() - 1) <= k < 5 * ids.len();
            }
        }
        assert forall|i: int| 0 <= i < ids.len() implies #[trigger] plan[5 * i + 4]
            == ("DELETE FROM roadmap WHERE id = ?1;"@, seq![SqlValueView::Integer(ids[i])]) by {
            if i < init.len() {
                assert(plan[5 * i + 4] == head[5 * i + 4]);
                assert(init[i] == ids[i]);
            } else {
                assert(plan[5 * i + 4] == roadmap_clear_plan(ids.last())[4]);
            }
        }
    }
}

proof fn lemma_roadmaps_clear_block(ids: Seq<i64>)
    ensures
        roadmaps_clear_plan(ids).len() == 5 * ids.len(),
        forall|i: int, k: int| 0 <= i < ids.len() && 0 <= k < 5
            ==> #[trigger] roadmaps_clear_plan(ids)[5 * i + k] == roadmap_clear_plan(ids[i])[k],
    decreases ids.len(),
{
    if ids.len() > 0 {
        let init = ids.drop_last();
        lemma_roadmaps_clear_block(init);
        let plan = roadmaps_clear_plan(ids);
        let head = roadmaps_clear_plan(init);
        assert(plan == head + roadmap_clear_plan(ids.last()));
        assert forall|i: int, k: int| 0 <= i < ids.len() && 0 <= k < 5
            implies #[trigger] plan[5 * i + k] == roadmap_clear_plan(ids[i])[k] by {
            if i < init.len() {
                assert(5 * i + k < 5 * init.len()) by (nonlinear_arith)
                    requires 0 <= i < init.len(), 0 <= k < 5;
                assert(plan[5 * i + k] == head[5 * i + k]);
                assert(init[i] == ids[i]);
            } else {
                assert(plan[5 * i + k] == roadmap_clear_plan(ids.last())[k]);
            }
        }
    }
}

/// Clearing a snapshot's scope empties every roadmap that the snapshot or the target's org holds,
/// in an order in which nothing is left under a deleted row: the roadmap's task assignments and
/// subtasks (found through its features), then its features (through its quarters), then its
/// quarters, then the roadmap itself, each bound to the roadmap's id. After every roadmap, the org's
/// own tables are cleared of the org's rows.
pub proof fn clear_plan_empties_each_roadmap(org_id: i64, snapshot_ids: Seq<i64>, existing: Seq<i64>)
    ensures
        ({
            let plan = roadmaps_clear_plan(merge_ids(snapshot_ids, existing)) + org_clear_plan(org_id);
            &&& forall|r: i64| #![trigger snapshot_ids.contains(r)] #![trigger existing.contains(r)]
                snapshot_ids.contains(r) || existing.contains(r) ==> exists|i: int| {
                    let p = seq![SqlValueView::Integer(r)];
                    &&& 0 <= i && i + 5 <= plan.len()
                    &&& #[trigger] plan[i] == ("DELETE FROM task_assignment WHERE feature_id IN (SELECT f.id FROM feature f JOIN quarter q ON q.id = f.quarter_id WHERE q.roadmap_id = ?1);"@, p)
                    &&& plan[i + 1] == ("DELETE FROM subtask WHERE feature_id IN (SELECT f.id FROM feature f JOIN quarter q ON q.id = f.quarter_id WHERE q.roadmap_id = ?1);"@, p)
                    &&& plan[i + 2] == ("DELETE FROM feature WHERE quarter_id IN (SELECT id FROM quarter WHERE roadmap_id = ?1);"@, p)
                    &&& plan[i + 3] == ("DELETE FROM quarter WHERE roadmap_id = ?1;"@, p)
                    &&& plan[i + 4] == ("DELETE FROM roadmap WHERE id = ?1;"@, p)
                }
            &&& plan.len() >= 6
            &&& plan.subrange(plan.len() - 6, plan.len() as int) == seq![
                ("DELETE FROM org_roadmap_editor WHERE org_id = ?1;"@, seq![SqlValueView::Integer(org_id)]),
                ("DELETE FROM org_chart WHERE org_id = ?1;"@, seq![SqlValueView::Integer(org_id)]),
                ("DELETE FROM org_owner WHERE org_id = ?1;"@, seq![SqlValueView::Integer(org_id)]),
                ("DELETE FROM org_user WHERE org_id = ?1;"@, seq![SqlValueView::Integer(org_id)]),
                ("DELETE FROM org_settings WHERE org_id = ?1;"@, seq![SqlValueView::Integer(org_id)]),
                ("DELETE FROM org_roadmap WHERE org_id = ?1;"@, seq![SqlValueView::Integer(org_id)]),
            ]
        }),
{
    let ids = merge_ids(snapshot_ids, existing);
    let head = roadmaps_clear_plan(ids);
    let plan = head + org_clear_plan(org_id);
    lemma_roadmaps_clear_block(ids);
    assert forall|r: i64| #![trigger snapshot_ids.contains(r)] #![trigger existing.contains(r)]
        snapshot_ids.contains(r) || existing.contains(r) implies exists|i: int| {
            let p = seq![SqlValueView::Integer(r)];
            &&& 0 <= i && i + 5 <= plan.len()
            &&& #[trigger] plan[i] == ("DELETE FROM task_assignment WHERE feature_id IN (SELECT f.id FROM feature f JOIN quarter q ON q.id = f.quarter_id WHERE q.roadmap_id = ?1);"@, p)
            &&& plan[i + 1] == ("DELETE FROM subtask WHERE feature_id IN (SELECT f.id FROM feature f JOIN quarter q ON q.id = f.quarter_id WHERE q.roadmap_id = ?1);"@, p)
            &&& plan[i + 2] == ("DELETE FROM feature WHERE quarter_id IN (SELECT id FROM quarter WHERE roadmap_id = ?1);"@, p)
            &&& plan[i + 3] == ("DELETE FROM quarter WHERE roadmap_id = ?1;"@, p)
            &&& plan[i + 4] == ("DELETE FROM roadmap WHERE id = ?1;"@, p)
        } by {
        lemma_merge_ids_contains(snapshot_ids, existing, r);
        let x = choose|x: int| 0 <= x < ids.len() && ids[x] == r;
        let i = 5 * x;
        assert(i + 5 <= head.len()) by (nonlinear_arith)
            requires 0 <= x < ids.len(), head.len() == 5 * ids.len(), i == 5 * x;
        assert(plan[i] == head[5 * x + 0]);
        assert(plan[i + 1] == head[5 * x + 1]);
        assert(plan[i + 2] == head[5 * x + 2]);
        assert(plan[i + 3] == head[5 * x + 3]);
        assert(plan[i + 4] == head[5 * x + 4]);
    }
    assert(plan.subrange(plan.len() - 6, plan.len() as int) =~= org_clear_plan(org_id));
}

/// Clearing a snapshot's scope touches that scope alone and all of it: every deletion is bound
/// to the org or to a roadmap that the snapshot or the target's org holds, and every such roadmap
/// is deleted.
pub proof fn clear_plan_stays_in_scope(org_id: i64, snapshot_ids: Seq<i64>, existing: Seq<i64>)
    ensures
        ({
            let plan = roadmaps_clear_plan(merge_ids(snapshot_ids, existing)) + org_clear_plan(org_id);
            &&& forall|k: int| 0 <= k < plan.len() ==> binds_id(#[trigger] plan[k], org_id)
                || exists|r: i64| (snapshot_ids.contains(r) || existing.contains(r)) && binds_id(plan[k], r)
            &&& forall|r: i64| snapshot_ids.contains(r) || existing.contains(r)
                ==> #[trigger] plan.contains(("DELETE FROM roadmap WHERE id = ?1;"@, seq![SqlValueView::Integer(r)]))
        }),
{
    let ids = merge_ids(snapshot_ids, existing);
    let head = roadmaps_clear_plan(ids);
    let plan = head + org_clear_plan(org_id);
    lemma_roadmaps_clear_plan(ids);
    assert forall|k: int| 0 <= k < plan.len() implies binds_id(#[trigger] plan[k], org_id)
        || exists|r: i64| (snapshot_ids.contains(r) || existing.contains(r)) && binds_id(plan[k], r) by {
        if k < head.len() {
            assert(plan[k] == head[k]);
            let r = ids[k / 5];
            assert(k / 5 < ids.len()) by (nonlinear_arith)
                requires 0 <= k < 5 * ids.len();
            assert(ids.contains(r));
            lemma_merge_ids_contains(snapshot_ids, existing, r);
            assert(binds_id(plan[k], r));
        } else {
            assert(plan[k] == org_clear_plan(org_id)[k - head.len()]);
        }
    }
    assert forall|r: i64| snapshot_ids.contains(r) || existing.contains(r)
        implies #[trigger] plan.contains(("DELETE FROM roadmap WHERE id = ?1;"@, seq![SqlValueView::Integer(r)])) by {
        lemma_merge_ids_contains(snapshot_ids, existing, r);
        let i = choose|i: int| 0 <= i < ids.len() && ids[i] == r;
        assert(plan[5 * i + 4] == head[5 * i + 4]);
    }
}

/// A scoped snapshot keeps one org alone: whatever tables are present, its prune plan deletes the
/// sync bookkeeping, every other org, the other orgs' roadmap links and every roadmap the org
/// does not hold, and with a roadmap given, the links of every other roadmap.
pub proof fn scoped_prune_removes_other_orgs(org_id: i64, roadmap_id: Option<i64>, present: Seq<Seq<char>>)
    ensures
        ({
            let plan = scoped_prune_plan(org_id, roadmap_id, present);
            let org = seq![SqlValueView::Integer(org_id)];
            &&& plan.contains(("DELETE FROM sync_session;"@, Seq::<SqlValueView>::empty()))
            &&& plan.contains(("DELETE FROM sync_log;"@, Seq::<SqlValueView>::empty()))
            &&& plan.contains(("DELETE FROM sync_peer_state;"@, Seq::<SqlValueView>::empty()))
            &&& plan.contains(("DELETE FROM org WHERE id != ?1;"@, org))
            &&& plan.contains(("DELETE FROM org_roadmap WHERE org_id != ?1;"@, org))
            &&& plan.contains(("DELETE FROM roadmap WHERE id NOT IN (SELECT roadmap_id FROM org_roadmap WHERE org_id = ?1);"@, org))
            &&& roadmap_id matches Some(r) ==> plan.contains(
                ("DELETE FROM org_roadmap WHERE roadmap_id != ?1;"@, seq![SqlValueView::Integer(r)]))
        }),
{
    let plan = scoped_prune_plan(org_id, roadmap_id, present);
    let base = prune_base(org_id, roadmap_id);
    let extra: int = if roadmap_id is Some { 1 } else { 0 };
    assert(base.len() == 6 + extra);
    assert(plan.len() >= base.len());
    assert forall|k: int| 0 <= k < base.len() implies plan[k] == #[trigger] base[k] by {
        assert(plan =~= base + plan.skip(base.len() as int));
    }
    assert(plan[0] == base[0]);
    assert(plan[1] == base[1]);
    assert(plan[2] == base[2]);
    assert(plan[3] == base[3]);
    assert(plan[4 + extra] == base[4 + extra]);
    assert(plan[5 + extra] == base[5 + extra]);
    if roadmap_id is Some {
        assert(plan[4] == base[4]);
    }
}

/// Whether a statement of a scoped snapshot's prune plan removes only what is not the org's: the
/// sync bookkeeping; the rows of other orgs in the org tables; other roadmaps' links where one
/// roadmap was asked for; roadmaps and quarters the org does not hold; and features, subtasks and
/// task assignments left without a parent.
pub open spec fn prune_keeps_org(stmt: (Seq<char>, Seq<SqlValueView>), org_id: i64, roadmap_id: Option<i64>) -> bool {
    let org = seq![SqlValueView::Integer(org_id)];
    let none = Seq::<SqlValueView>::empty();
    ||| stmt == ("DELETE FROM sync_session;"@, none)
    ||| stmt == ("DELETE FROM sync_peer_state;"@, none)
    ||| stmt == ("DELETE FROM sync_log;"@, none)
    ||| stmt == ("DELETE FROM org WHERE id != ?1;"@, org)
    ||| stmt == ("DELETE FROM org_roadmap WHERE org_id != ?1;"@, org)
    ||| (roadmap_id matches Some(r)
        && stmt == ("DELETE FROM org_roadmap WHERE roadmap_id != ?1;"@, seq![SqlValueView::Integer(r)]))
    ||| stmt == ("DELETE FROM roadmap WHERE id NOT IN (SELECT roadmap_id FROM org_roadmap WHERE org_id = ?1);"@, org)
    ||| stmt == ("DELETE FROM org_settings WHERE org_id != ?1;"@, org)
    ||| stmt == ("DELETE FROM org_user WHERE org_id != ?1;"@, org)
    ||| stmt == ("DELETE FROM org_owner WHERE org_id != ?1;"@, org)
    ||| stmt == ("DELETE FROM org_chart WHERE org_id != ?1;"@, org)
    ||| stmt == ("DELETE FROM org_roadmap_editor WHERE org_id != ?1;"@, org)
    ||| stmt == ("DELETE FROM quarter WHERE roadmap_id NOT IN (SELECT roadmap_id FROM org_roadmap WHERE org_id = ?1);"@, org)
    ||| stmt == ("DELETE FROM feature WHERE quarter_id NOT IN (SELECT id FROM quarter);"@, none)
    ||| stmt == ("DELETE FROM subtask WHERE feature_id NOT IN (SELECT id FROM feature);"@, none)
    ||| stmt == ("DELETE FROM task_assignment WHERE feature_id NOT IN (SELECT id FROM feature);"@, none)
}

/// Whether every statement of a plan keeps the org's rows.
pub open spec fn plan_keeps_org(plan: Seq<(Seq<char>, Seq<SqlValueView>)>, org_id: i64, roadmap_id: Option<i64>) -> bool {
    forall|k: int| 0 <= k < plan.len() ==> prune_keeps_org(#[trigger] plan[k], org_id, roadmap_id)
}

proof fn lemma_keeps_concat(
    a: Seq<(Seq<char>, Seq<SqlValueView>)>,
    b: Seq<(Seq<char>, Seq<SqlValueView>)>,
    org_id: i64,
    roadmap_id: Option<i64>,
)
    requires
        plan_keeps_org(a, org_id, roadmap_id),
        plan_keeps_org(b, org_id, roadmap_id),
    ensures
        plan_keeps_org(a + b, org_id, roadmap_id),
{
    assert forall|k: int| 0 <= k < (a + b).len() implies prune_keeps_org(#[trigger] (a + b)[k], org_id, roadmap_id) by {
        if k < a.len() {
            assert((a + b)[k] == a[k]);
        } else {
            assert((a + b)[k] == b[k - a.len()]);
        }
    }
}

proof fn lemma_contains_concat(
    a: Seq<(Seq<char>, Seq<SqlValueView>)>,
    b: Seq<(Seq<char>, Seq<SqlValueView>)>,
    x: (Seq<char>, Seq<SqlValueView>),
)
    ensures
        a.contains(x) ==> (a + b).contains(x),
        b.contains(x) ==> (a + b).contains(x),
{
    if a.contains(x) {
        let k = choose|k: int| 0 <= k < a.len() && a[k] == x;
        assert((a + b)[k] == x);
    }
    if b.contains(x) {
        let k = choose|k: int| 0 <= k < b.len() && b[k] == x;
        assert((a + b)[a.len() + k] == x);
    }
}

proof fn lemma_if_present(
    present: Seq<Seq<char>>,
    table: Seq<char>,
    stmt: (Seq<char>, Seq<SqlValueView>),
    org_id: i64,
    roadmap_id: Option<i64>,
)
    requires
        prune_keeps_org(stmt, org_id, roadmap_id),
    ensures
        plan_keeps_org(if_present(present, table, stmt), org_id, roadmap_id),
        present.contains(table) ==> if_present(present, table, stmt).contains(stmt),
{
    if present.contains(table) {
        let k = choose|k: int| 0 <= k < present.len() && present[k] == table;
        assert(names_contain(present, table));
        assert(if_present(present, table, stmt)[0] == stmt);
    }
}

/// A scoped snapshot holds the org's rows and no other org's. Every statement of its prune plan
/// removes only rows that are not the org's (the sync bookkeeping, other orgs' rows, roadmaps and
/// quarters the org does not hold, and rows left without a parent), so none of the org's rows is
/// deleted, beyond the links of its other roadmaps where one roadmap was asked for. And each
/// org-scoped table that is present is pruned of other orgs' rows.
pub proof fn scoped_prune_keeps_exactly_the_org(org_id: i64, roadmap_id: Option<i64>, present: Seq<Seq<char>>)
    ensures
        plan_keeps_org(scoped_prune_plan(org_id, roadmap_id, present), org_id, roadmap_id),
        ({
            let plan = scoped_prune_plan(org_id, roadmap_id, present);
            let org = seq![SqlValueView::Integer(org_id)];
            let none = Seq::<SqlValueView>::empty();
            &&& present.contains("org_settings"@) ==> plan.contains(("DELETE FROM org_settings WHERE org_id != ?1;"@, org))
            &&& present.contains("org_user"@) ==> plan.contains(("DELETE FROM org_user WHERE org_id != ?1;"@, org))
            &&& present.contains("org_owner"@) ==> plan.contains(("DELETE FROM org_owner WHERE org_id != ?1;"@, org))
            &&& present.contains("org_chart"@) ==> plan.contains(("DELETE FROM org_chart WHERE org_id != ?1;"@, org))
            &&& present.contains("org_roadmap_editor"@) ==> plan.contains(("DELETE FROM org_roadmap_editor WHERE org_id != ?1;"@, org))
            &&& present.contains("quarter"@) ==> plan.contains(("DELETE FROM quarter WHERE roadmap_id NOT IN (SELECT roadmap_id FROM org_roadmap WHERE org_id = ?1);"@, org))
            &&& present.contains("feature"@) ==> plan.contains(("DELETE FROM feature WHERE quarter_id NOT IN (SELECT id FROM quarter);"@, none))
            &&& present.contains("subtask"@) ==> plan.contains(("DELETE FROM subtask WHERE feature_id NOT IN (SELECT id FROM feature);"@, none))
            &&& present.contains("task_assignment"@) ==> plan.contains(("DELETE FROM task_assignment WHERE feature_id NOT IN (SELECT id FROM feature);"@, none))
        }),
{
    let org = seq![SqlValueView::Integer(org_id)];
    let none = Seq::<SqlValueView>::empty();
    let base = prune_base(org_id, roadmap_id);
    let s1 = ("DELETE FROM org_settings WHERE org_id != ?1;"@, org);
    let s2 = ("DELETE FROM org_user WHERE org_id != ?1;"@, org);
    let s3 = ("DELETE FROM org_owner WHERE org_id != ?1;"@, org);
    let s4 = ("DELETE FROM org_chart WHERE org_id != ?1;"@, org);
    let s5 = ("DELETE FROM org_roadmap_editor WHERE org_id != ?1;"@, org);
    let s6 = ("DELETE FROM quarter WHERE roadmap_id NOT IN (SELECT roadmap_id FROM org_roadmap WHERE org_id = ?1);"@, org);
    let s7 = ("DELETE FROM feature WHERE quarter_id NOT IN (SELECT id FROM quarter);"@, none);
    let s8 = ("DELETE FROM subtask WHERE feature_id NOT IN (SELECT id FROM feature);"@, none);
    let s9 = ("DELETE FROM task_assignment WHERE feature_id NOT IN (SELECT id FROM feature);"@, none);
    let p1 = if_present(present, "org_settings"@, s1);
    let p2 = if_present(present, "org_user"@, s2);
    let p3 = if_present(present, "org_owner"@, s3);
    let p4 = if_present(present, "org_chart"@, s4);
    let p5 = if_present(present, "org_roadmap_editor"@, s5);
    let p6 = if_present(present, "quarter"@, s6);
    let p7 = if_present(present, "feature"@, s7);
    let p8 = if_present(present, "subtask"@, s8);
    let p9 = if_present(present, "task_assignment"@, s9);
    let c1 = base + p1;
    let c2 = c1 + p2;
    let c3 = c2 + p3;
    let c4 = c3 + p4;
    let c5 = c4 + p5;
    let c6 = c5 + p6;
    let c7 = c6 + p7;
    let c8 = c7 + p8;
    let c9 = c8 + p9;
    assert(c9 == scoped_prune_plan(org_id, roadmap_id, present));

    assert(plan_keeps_org(base, org_id, roadmap_id)) by {
        assert forall|k: int| 0 <= k < base.len() implies prune_keeps_org(#[trigger] base[k], org_id, roadmap_id) by {
            match roadmap_id {
                Some(r) => {
                    assert(base =~= seq![
                        ("DELETE FROM sync_session;"@, none),
                        ("DELETE FROM sync_peer_state;"@, none),
                        ("DELETE FROM sync_log;"@, none),
                        ("DELETE FROM org_roadmap WHERE org_id != ?1;"@, org),
                        ("DELETE FROM org_roadmap WHERE roadmap_id != ?1;"@, seq![SqlValueView::Integer(r)]),
                        ("DELETE FROM roadmap WHERE id NOT IN (SELECT roadmap_id FROM org_roadmap WHERE org_id = ?1);"@, org),
                        ("DELETE FROM org WHERE id != ?1;"@, org),
                    ]);
                },
                None => {
                    assert(base =~= seq![
                        ("DELETE FROM sync_session;"@, none),
                        ("DELETE FROM sync_peer_state;"@, none),
                        ("DELETE FROM sync_log;"@, none),
                        ("DELETE FROM org_roadmap WHERE org_id != ?1;"@, org),
                        ("DELETE FROM roadmap WHERE id NOT IN (SELECT roadmap_id FROM org_roadmap WHERE org_id = ?1);"@, org),
                        ("DELETE FROM org WHERE id != ?1;"@, org),
                    ]);
                },
            }
        }
    }
    lemma_if_present(present, "org_settings"@, s1, org_id, roadmap_id);
    lemma_if_present(present, "org_user"@, s2, org_id, roadmap_id);
    lemma_if_present(present, "org_owner"@, s3, org_id, roadmap_id);
    lemma_if_present(present, "org_chart"@, s4, org_id, roadmap_id);
    lemma_if_present(present, "org_roadmap_editor"@, s5, org_id, roadmap_id);
    lemma_if_present(present, "quarter"@, s6, org_id, roadmap_id);
    lemma_if_present(present, "feature"@, s7, org_id, roadmap_id);
    lemma_if_present(present, "subtask"@, s8, org_id, roadmap_id);
    lemma_if_present(present, "task_assignment"@, s9, org_id, roadmap_id);
    lemma_keeps_concat(base, p1, org_id, roadmap_id);
    lemma_keeps_concat(c1, p2, org_id, roadmap_id);
    lemma_keeps_concat(c2, p3, org_id, roadmap_id);
    lemma_keeps_concat(c3, p4, org_id, roadmap_id);
    lemma_keeps_concat(c4, p5, org_id, roadmap_id);
    lemma_keeps_concat(c5, p6, org_id, roadmap_id);
    lemma_keeps_concat(c6, p7, org_id, roadmap_id);
    lemma_keeps_concat(c7, p8, org_id, roadmap_id);
    lemma_keeps_concat(c8, p9, org_id, roadmap_id);

    // each present table's deletion is in the piece for it, and pieces only grow into the plan
    lemma_contains_concat(base, p1, s1);
    lemma_contains_concat(c1, p2, s1);
    lemma_contains_concat(c1, p2, s2);
    lemma_contains_concat(c2, p3, s1);
    lemma_contains_concat(c2, p3, s2);
    lemma_contains_concat(c2, p3, s3);
    lemma_contains_concat(c3, p4, s1);
    lemma_contains_concat(c3, p4, s2);
    lemma_contains_concat(c3, p4, s3);
    lemma_contains_concat(c3, p4, s4);
    lemma_contains_concat(c4, p5, s1);
    lemma_contains_concat(c4, p5, s2);
    lemma_contains_concat(c4, p5, s3);
    lemma_contains_concat(c4, p5, s4);
    lemma_contains_concat(c4, p5, s5);
    lemma_contains_concat(c5, p6, s1);
    lemma_contains_concat(c5, p6, s2);
    lemma_contains_concat(c5, p6, s3);
    lemma_contains_concat(c5, p6, s4);
    lemma_contains_concat(c5, p6, s5);
    lemma_contains_concat(c5, p6, s6);
    lemma_contains_concat(c6, p7, s1);
    lemma_contains_concat(c6, p7, s2);
    lemma_contains_concat(c6, p7, s3);
    lemma_contains_concat(c6, p7, s4);
    lemma_contains_concat(c6, p7, s5);
    lemma_contains_concat(c6, p7, s6);
    lemma_contains_concat(c6, p7, s7);
    lemma_contains_concat(c7, p8, s1);
    lemma_contains_concat(c7, p8, s2);
    lemma_contains_concat(c7, p8, s3);
    lemma_contains_concat(c7, p8, s4);
    lemma_contains_concat(c7, p8, s5);
    lemma_contains_concat(c7, p8, s6);
    lemma_contains_concat(c7, p8, s7);
    lemma_contains_concat(c7, p8, s8);
    lemma_contains_concat(c8, p9, s1);
    lemma_contains_concat(c8, p9, s2);
    lemma_contains_concat(c8, p9, s3);
    lemma_contains_concat(c8, p9, s4);
    lemma_contains_concat(c8, p9, s5);
    lemma_contains_concat(c8, p9, s6);
    lemma_contains_concat(c8, p9, s7);
    lemma_contains_concat(c8, p9, s8);
    lemma_contains_concat(c8, p9, s9);
}

/// The deletions that clear a snapshot's scope from the target before it is merged in: every
/// roadmap of the snapshot or of the target's org, then the org's own tables. Each may fail
/// without stopping the others.
pub fn clear_scope_statements(scope: &SnapshotScope, existing: &Vec<i64>) -> (r: Vec<SqlStatement>)
    ensures
        stmts_view(r@) == roadmaps_clear_plan(merge_ids(scope.roadmap_ids@, existing@))
            + org_clear_plan(scope.org_id),
{
    let ids = merge_roadmap_ids(&scope.roadmap_ids, existing);
    let mut v: Vec<SqlStatement> = Vec::new();
    let mut i: usize = 0;
    while i < ids.len()
        invariant
            i <= ids@.len(),
            stmts_view(v@) == roadmaps_clear_plan(ids@.take(i as int)),
        decreases ids@.len() - i,
    {
        let id = ids[i];
        let ghost before = stmts_view(v@);
        push_with_id(&mut v, "DELETE FROM task_assignment WHERE feature_id IN (SELECT f.id FROM feature f JOIN quarter q ON q.id = f.quarter_id WHERE q.roadmap_id = ?1);", id);
        push_with_id(&mut v, "DELETE FROM subtask WHERE feature_id IN (SELECT f.id FROM feature f JOIN quarter q ON q.id = f.quarter_id WHERE q.roadmap_id = ?1);", id);
        push_with_id(&mut v, "DELETE FROM feature WHERE quarter_id IN (SELECT id FROM quarter WHERE roadmap_id = ?1);", id);
        push_with_id(&mut v, "DELETE FROM quarter WHERE roadmap_id = ?1;", id);
        push_with_id(&mut v, "DELETE FROM roadmap WHERE id = ?1;", id);
        assert(ids@.take(i + 1).drop_last() =~= ids@.take(i as int));
        assert(stmts_view(v@) =~= before + roadmap_clear_plan(id));
        i = i + 1;
    }
    assert(ids@.take(ids@.len() as int) =~= ids@);
    let ghost mid = stmts_view(v@);
    let org = scope.org_id;
    push_with_id(&mut v, "DELETE FROM org_roadmap_editor WHERE org_id = ?1;", org);
    push_with_id(&mut v, "DELETE FROM org_chart WHERE org_id = ?1;", org);
    push_with_id(&mut v, "DELETE FROM org_owner WHERE org_id = ?1;", org);
    push_with_id(&mut v, "DELETE FROM org_user WHERE org_id = ?1;", org);
    push_with_id(&mut v, "DELETE FROM org_settings WHERE org_id = ?1;", org);
    push_with_id(&mut v, "DELETE FROM org_roadmap WHERE org_id = ?1;", org);
    assert(stmts_view(v@) =~= mid + org_clear_plan(org));
    v
}

/// How a table is merged from a snapshot: the query that reads its rows, the insert of a row,
/// and, where the table has columns besides its key, the update of a row by its key with the
/// positions of the values it binds.
#[derive(Debug)]
pub struct MergePlan {
    pub select_sql: String,
    pub insert_sql: String,
    pub update_sql: Option<String>,
    pub pk_index: usize,
    pub update_indices: Vec<usize>,
}

/// Whether `i` is the position of the first column of the given name.
pub open spec fn is_first_index(columns: Seq<Seq<char>>, name: Seq<char>, i: int) -> bool {
    &&& 0 <= i < columns.len()
    &&& columns[i] == name
    &&& forall|j: int| 0 <= j < i ==> columns[j] != name
}

/// Whether no column has the given name.
pub open spec fn column_absent(columns: Seq<Seq<char>>, name: Seq<char>) -> bool {
    forall|i: int| 0 <= i < columns.len() ==> columns[i] != name
}

/// The columns other than the primary key, in order.
pub open spec fn non_key_columns(columns: Seq<Seq<char>>, pk: Seq<char>) -> Seq<Seq<char>>
    decreases columns.len(),
{
    if columns.len() == 0 {
        Seq::empty()
    } else {
        let rest = non_key_columns(columns.drop_last(), pk);
        if columns.last() == pk { rest } else { rest.push(columns.last()) }
    }
}

/// The query that reads every row of a table, its columns in order.
pub open spec fn select_all_sql(table: TableSpecView) -> Seq<char> {
    "SELECT "@ + join_seq(table.columns, ", "@) + " FROM "@ + table.name + ";"@
}

/// The plain insert of a full row.
pub open spec fn insert_row_sql(table: TableSpecView) -> Seq<char> {
    "INSERT INTO "@ + table.name + " ("@ + join_seq(table.columns, ", "@) + ") VALUES ("@
        + join_seq(placeholder_list(table.columns.len()), ", "@) + ");"@
}

/// Whether `plan` is how `table` is merged.
pub open spec fn is_merge_plan(table: TableSpecView, plan: MergePlan) -> bool {
    let upd = non_key_columns(table.columns, table.primary_key);
    &&& plan.select_sql@ == select_all_sql(table)
    &&& plan.insert_sql@ == insert_row_sql(table)
    &&& is_first_index(table.columns, table.primary_key, plan.pk_index as int)
    &&& plan.update_indices@.len() == upd.len()
    &&& forall|k: int| 0 <= k < upd.len() ==> is_first_index(table.columns, upd[k], #[trigger] plan.update_indices@[k] as int)
    &&& if upd.len() == 0 {
        plan.update_sql is None
    } else {
        plan.update_sql matches Some(u) && u@ == update_sql(table, upd)
    }
}

fn first_column_index(columns: &Vec<String>, name: &str) -> (r: Option<usize>)
    ensures
        match r {
            Some(i) => is_first_index(columns.deep_view(), name@, i as int),
            None => column_absent(columns.deep_view(), name@),
        },
{
    let ghost cols = columns.deep_view();
    let mut i: usize = 0;
    while i < columns.len()
        invariant
            cols == columns.deep_view(),
            i <= cols.len(),
            forall|j: int| 0 <= j < i ==> cols[j] != name@,
        decreases cols.len() - i,
    {
        if crate::text::str_eq(columns[i].as_str(), name) {
            assert(cols[i as int] == name@);
            return Some(i);
        }
        i = i + 1;
    }
    None
}

/// The non-key columns of a table, their `col = ?k` assignments, and their first positions.
fn non_key_parts(table: &TableSpec) -> (r: (Vec<String>, Vec<String>, Vec<usize>))
    requires
        table.columns.len() < usize::MAX,
    ensures
        r.0.deep_view() == non_key_columns(table@.columns, table@.primary_key),
        r.1.deep_view() == numbered_sets(r.0.deep_view()),
        r.2@.len() == r.0@.len(),
        r.0@.len() <= table.columns@.len(),
        forall|k: int| 0 <= k < r.2@.len() ==> is_first_index(table@.columns, r.0.deep_view()[k], #[trigger] r.2@[k] as int),
{
    let ghost cols = table.columns.deep_view();
    let mut upd: Vec<String> = Vec::new();
    let mut sets: Vec<String> = Vec::new();
    let mut idx: Vec<usize> = Vec::new();
    let mut i: usize = 0;
    while i < table.columns.len()
        invariant
            cols == table.columns.deep_view(),
            i <= cols.len() < usize::MAX,
            upd@.len() <= i,
            upd.deep_view() == non_key_columns(cols.take(i as int), table@.primary_key),
            sets.deep_view() == numbered_sets(upd.deep_view()),
            idx@.len() == upd@.len(),
            forall|k: int| 0 <= k < idx@.len() ==> is_first_index(cols, upd.deep_view()[k], #[trigger] idx@[k] as int),
        decreases cols.len() - i,
    {
        let col = &table.columns[i];
        assert(cols.take(i + 1).drop_last() =~= cols.take(i as int));
        assert(cols.take(i + 1).last() == col@);
        if !crate::text::str_eq(col.as_str(), table.primary_key.as_str()) {
            assert(cols[i as int] == col@);
            let at = match first_column_index(&table.columns, col.as_str()) {
                Some(a) => a,
                None => {
                    assert(cols[i as int] != col@);
                    0
                },
            };
            let mut set = col.clone();
            set.append(" = ?");
            let digits = usize_to_decimal(upd.len() + 1);
            set.append(digits.as_str());
            let ghost before_upd = upd.deep_view();
            let ghost before_sets = sets.deep_view();
            let ghost before_idx = idx@;
            let ghost piece = set@;
            upd.push(col.clone());
            sets.push(set);
            idx.push(at);
            assert(upd.deep_view() =~= before_upd.push(col@));
            assert(sets.deep_view() =~= before_sets.push(piece));
            assert(sets.deep_view() =~= numbered_sets(upd.deep_view()));
            assert(forall|k: int| 0 <= k < before_idx.len() ==> idx@[k] == before_idx[k] && upd.deep_view()[k] == before_upd[k]);
        }
        i = i + 1;
        assert(upd.deep_view() =~= non_key_columns(cols.take(i as int), table@.primary_key));
    }
    assert(cols.take(cols.len() as int) =~= cols);
    (upd, sets, idx)
}

/// How a table is merged from a snapshot: `Ok(None)` for a table without columns,
/// `Err(InvalidPayload)` where its primary key is not among its columns.
pub fn merge_plan(table: &TableSpec) -> (r: Result<Option<MergePlan>, SyncError>)
    requires
        table.columns.len() < usize::MAX,
    ensures
        table@.columns.len() == 0 ==> r matches Ok(None),
        table@.columns.len() != 0 && column_absent(table@.columns, table@.primary_key)
            ==> r matches Err(SyncError::InvalidPayload),
        table@.columns.len() != 0 && !column_absent(table@.columns, table@.primary_key)
            ==> (r matches Ok(Some(plan)) && is_merge_plan(table@, plan)),
{
    if table.columns.len() == 0 {
        return Ok(None);
    }
    let ghost cols = table.columns.deep_view();
    let cols_text = join(&table.columns, ", ");
    let mut select_sql = String::from_str("SELECT ");
    select_sql.append(cols_text.as_str());
    select_sql.append(" FROM ");
    select_sql.append(table.name.as_str());
    select_sql.append(";");
    let ph = placeholders(table.columns.len());
    let ph_text = join(&ph, ", ");
    let mut insert_sql = String::from_str("INSERT INTO ");
    insert_sql.append(table.name.as_str());
    insert_sql.append(" (");
    insert_sql.append(cols_text.as_str());
    insert_sql.append(") VALUES (");
    insert_sql.append(ph_text.as_str());
    insert_sql.append(");");
    let pk_index = match first_column_index(&table.columns, table.primary_key.as_str()) {
        Some(i) => i,
        None => return Err(SyncError::InvalidPayload),
    };
    let (upd, sets, idx) = non_key_parts(table);
    let update_sql = if upd.len() == 0 {
        None
    } else {
        let sets_text = join(&sets, ", ");
        let mut u = String::from_str("UPDATE ");
        u.append(table.name.as_str());
        u.append(" SET ");
        u.append(sets_text.as_str());
        u.append(" WHERE ");
        u.append(table.primary_key.as_str());
        u.append(" = ?");
        let last = usize_to_decimal(upd.len() + 1);
        u.append(last.as_str());
        u.append(";");
        assert(u@ =~= update_sql(table@, upd.deep_view()));
        Some(u)
    };
    let plan = MergePlan { select_sql, insert_sql, update_sql, pk_index, update_indices: idx };
    assert(plan.select_sql@ =~= select_all_sql(table@));
    assert(plan.insert_sql@ =~= insert_row_sql(table@));
    Ok(Some(plan))
}

/// The values an update of a merged row binds: the non-key columns' values, then the key's.
pub fn merge_update_params(plan: &MergePlan, row: &Vec<SqlValue>) -> (r: Vec<SqlValue>)
    requires
        plan.pk_index < row@.len(),
        forall|k: int| 0 <= k < plan.update_indices@.len() ==> #[trigger] plan.update_indices@[k] < row@.len(),
    ensures
        r@.map_values(|v: SqlValue| v@) == plan.update_indices@.map_values(|i: usize| row@[i as int]@)
            .push(row@[plan.pk_index as int]@),
{
    let mut r: Vec<SqlValue> = Vec::new();
    let mut k: usize = 0;
    while k < plan.update_indices.len()
        invariant
            k <= plan.update_indices@.len(),
            forall|x: int| 0 <= x < plan.update_indices@.len() ==> #[trigger] plan.update_indices@[x] < row@.len(),
            r@.map_values(|v: SqlValue| v@) =~= plan.update_indices@.take(k as int).map_values(|i: usize| row@[i as int]@),
        decreases plan.update_indices@.len() - k,
    {
        let at = plan.update_indices[k];
        let ghost before = r@;
        let ghost f = |i: usize| row@[i as int]@;
        r.push(row[at].duplicate());
        assert(r@ =~= before.push(r@.last()));
        assert(r@.last()@ == row@[at as int]@);
        assert(plan.update_indices@.take(k + 1) =~= plan.update_indices@.take(k as int).push(at));
        assert(plan.update_indices@.take(k + 1).map_values(f) =~= plan.update_indices@.take(k as int).map_values(f).push(row@[at as int]@));
        assert(r@.map_values(|v: SqlValue| v@) =~= before.map_values(|v: SqlValue| v@).push(row@[at as int]@));
        k = k + 1;
        assert(r@.map_values(|v: SqlValue| v@) =~= plan.update_indices@.take(k as int).map_values(|i: usize| row@[i as int]@));
    }
    assert(plan.update_indices@.take(plan.update_indices@.len() as int) =~= plan.update_indices@);
    let ghost before = r@;
    r.push(row[plan.pk_index].duplicate());
    assert(r@ =~= before.push(r@.last()));
    assert(r@.map_values(|v: SqlValue| v@) =~= plan.update_indices@.map_values(|i: usize| row@[i as int]@)
        .push(row@[plan.pk_index as int]@));
    r
}

} // verus!

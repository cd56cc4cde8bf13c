use vstd::prelude::*;
use vstd::string::StringExecFns;
use crate::change::{Change, ChangeOp, Payload, PayloadField, PayloadValue, field_lookup, find_field};
use crate::text::{dec_digits, join, join_seq, usize_to_decimal, trim_seq, is_blank, escape_quotes, escape_single_quotes, bytes_lt, str_ge};
use vstd::utf8::encode_utf8;

verus! {

/// A table whose rows the engine logs and replicates.
#[derive(Debug)]
pub struct TableSpec {
    pub name: String,
    pub primary_key: String,
    pub columns: Vec<String>,
}

/// A table description as names: the table, its primary key and its columns.
pub struct TableSpecView {
    pub name: Seq<char>,
    pub primary_key: Seq<char>,
    pub columns: Seq<Seq<char>>,
}

impl View for TableSpec {
    type V = TableSpecView;

    open spec fn view(&self) -> TableSpecView {
        TableSpecView {
            name: self.name@,
            primary_key: self.primary_key@,
            columns: self.columns.deep_view(),
        }
    }
}

impl Clone for TableSpec {
    fn clone(&self) -> (r: Self)
        ensures
            r@ == self@,
    {
        let columns = clone_strings(&self.columns);
        TableSpec { name: self.name.clone(), primary_key: self.primary_key.clone(), columns }
    }
}

/// A copy of a list of strings.
pub fn clone_strings(v: &Vec<String>) -> (r: Vec<String>)
    ensures
        r@ == v@,
{
    let mut r: Vec<String> = Vec::new();
    let mut i: usize = 0;
    while i < v.len()
        invariant
            i <= v@.len(),
            r@ == v@.take(i as int),
        decreases v@.len() - i,
    {
        r.push(v[i].clone());
        assert(r@ =~= v@.take(i + 1));
        i = i + 1;
    }
    assert(v@.take(v@.len() as int) =~= v@);
    r
}

/// What a sync engine is set up with.
#[derive(Debug)]
pub struct SyncConfig {
    pub db_path: String,
    pub node_id: String,
    pub encryption_key: String,
    pub tables: Vec<TableSpec>,
    pub max_orgs: i64,
}

/// Why a sync operation failed. The database's and the file system's errors are carried by
/// their messages.
#[derive(Debug)]
pub enum SyncError {
    Sqlite(String),
    MissingKey,
    Io(String),
    UnknownTable(String),
    InvalidPayload,
}

/// A value bound to a statement parameter. `Real` carries the IEEE-754 bits of a float.
#[derive(Debug)]
pub enum SqlValue {
    Null,
    Integer(i64),
    Real(u64),
    Text(String),
    Blob(Vec<u8>),
}

/// A parameter value as plain data.
pub enum SqlValueView {
    Null,
    Integer(i64),
    Real(u64),
    Text(Seq<char>),
    Blob(Seq<u8>),
}

impl View for SqlValue {
    type V = SqlValueView;

    open spec fn view(&self) -> SqlValueView {
        match self {
            SqlValue::Null => SqlValueView::Null,
            SqlValue::Integer(i) => SqlValueView::Integer(*i),
            SqlValue::Real(f) => SqlValueView::Real(*f),
            SqlValue::Text(s) => SqlValueView::Text(s@),
            SqlValue::Blob(b) => SqlValueView::Blob(b@),
        }
    }
}

impl SqlValue {
    /// A copy of the value.
    pub fn duplicate(&self) -> (r: SqlValue)
        ensures
            r@ == self@,
    {
        match self {
            SqlValue::Null => SqlValue::Null,
            SqlValue::Integer(i) => SqlValue::Integer(*i),
            SqlValue::Real(f) => SqlValue::Real(*f),
            SqlValue::Text(s) => SqlValue::Text(s.clone()),
            SqlValue::Blob(b) => {
                let c = b.clone();
                assert(c@ =~= b@);
                SqlValue::Blob(c)
            },
        }
    }
}

/// A SQL statement with its positional parameters `?1`, `?2`, ...
#[derive(Debug)]
pub struct SqlStatement {
    pub sql: String,
    pub params: Vec<SqlValue>,
}


/// The parameter a payload value is bound as: booleans as 0 or 1, nested JSON as its text.
pub open spec fn param_of(v: PayloadValue) -> SqlValue {
    match v {
        PayloadValue::Null => SqlValue::Null,
        PayloadValue::Bool(b) => SqlValue::Integer(if b { 1 } else { 0 }),
        PayloadValue::Integer(i) => SqlValue::Integer(i),
        PayloadValue::Float(f) => SqlValue::Real(f),
        PayloadValue::Text(s) => SqlValue::Text(s),
        PayloadValue::Nested(s) => SqlValue::Text(s),
    }
}

/// A boolean payload value is stored as an integer: true as 1 and false as 0.
pub proof fn booleans_bind_as_one_and_zero(b: bool)
    ensures
        param_of(PayloadValue::Bool(b)) == SqlValue::Integer(if b { 1i64 } else { 0i64 }),
        b ==> param_of(PayloadValue::Bool(b)) == SqlValue::Integer(1),
        !b ==> param_of(PayloadValue::Bool(b)) == SqlValue::Integer(0),
{
}

/// Binds one payload value.
pub fn value_to_param(v: &PayloadValue) -> (r: SqlValue)
    ensures
        r == param_of(*v),
        *v == PayloadValue::Bool(true) ==> r == SqlValue::Integer(1),
        *v == PayloadValue::Bool(false) ==> r == SqlValue::Integer(0),
{
    match v {
        PayloadValue::Null => SqlValue::Null,
        PayloadValue::Bool(b) => SqlValue::Integer(if *b { 1 } else { 0 }),
        PayloadValue::Integer(i) => SqlValue::Integer(*i),
        PayloadValue::Float(f) => SqlValue::Real(*f),
        PayloadValue::Text(s) => SqlValue::Text(s.clone()),
        PayloadValue::Nested(s) => SqlValue::Text(s.clone()),
    }
}

/// Binds payload values in order.
pub fn values_to_params(values: &Vec<PayloadValue>) -> (r: Vec<SqlValue>)
    ensures
        r@ == values@.map_values(|v: PayloadValue| param_of(v)),
        r@.len() == values@.len(),
        forall|k: int| 0 <= k < values@.len() && values@[k] == PayloadValue::Bool(true)
            ==> #[trigger] r@[k] == SqlValue::Integer(1),
        forall|k: int| 0 <= k < values@.len() && values@[k] == PayloadValue::Bool(false)
            ==> #[trigger] r@[k] == SqlValue::Integer(0),
{
    let mut r: Vec<SqlValue> = Vec::new();
    let mut i: usize = 0;
    while i < values.len()
        invariant
            i <= values@.len(),
            r@ == values@.take(i as int).map_values(|v: PayloadValue| param_of(v)),
        decreases values@.len() - i,
    {
        r.push(value_to_param(&values[i]));
        assert(r@ =~= values@.take(i + 1).map_values(|v: PayloadValue| param_of(v)));
        i = i + 1;
    }
    assert(values@.take(values@.len() as int) =~= values@);
    r
}

/// A statement as its text and its parameters' values.
pub open spec fn stmt_view(s: SqlStatement) -> (Seq<char>, Seq<SqlValueView>) {
    (s.sql@, s.params@.map_values(|v: SqlValue| v@))
}

/// Statements as texts and parameter values, in order.
pub open spec fn stmts_view(v: Seq<SqlStatement>) -> Seq<(Seq<char>, Seq<SqlValueView>)> {
    v.map_values(|s: SqlStatement| stmt_view(s))
}

/// Appends a statement without parameters.
pub fn push_plain(v: &mut Vec<SqlStatement>, sql: &str)
    ensures
        stmts_view(final(v)@) == stmts_view(old(v)@).push((sql@, Seq::<SqlValueView>::empty())),
{
    let ghost before = v@;
    v.push(SqlStatement { sql: String::from_str(sql), params: Vec::new() });
    assert(v@ =~= before.push(v@.last()));
    assert(v@.last().params@.map_values(|x: SqlValue| x@) =~= Seq::<SqlValueView>::empty());
    assert(stmts_view(v@) =~= stmts_view(before).push((sql@, Seq::<SqlValueView>::empty())));
}

/// Appends a statement whose one parameter is an integer.
pub fn push_with_id(v: &mut Vec<SqlStatement>, sql: &str, id: i64)
    ensures
        stmts_view(final(v)@) == stmts_view(old(v)@).push((sql@, seq![SqlValueView::Integer(id)])),
{
    let ghost before = v@;
    let mut params: Vec<SqlValue> = Vec::new();
    params.push(SqlValue::Integer(id));
    v.push(SqlStatement { sql: String::from_str(sql), params });
    assert(v@ =~= before.push(v@.last()));
    assert(v@.last().params@.map_values(|x: SqlValue| x@) =~= seq![SqlValueView::Integer(id)]);
    assert(stmts_view(v@) =~= stmts_view(before).push((sql@, seq![SqlValueView::Integer(id)])));
}

/// The placeholder for the `k`-th parameter: `?k`.
pub open spec fn placeholder(k: nat) -> Seq<char> {
    "?"@ + dec_digits(k)
}

/// The placeholders `?1` to `?n`.
pub open spec fn placeholder_list(n: nat) -> Seq<Seq<char>> {
    Seq::new(n, |i: int| placeholder((i + 1) as nat))
}

/// Writes the placeholders `?1` to `?n`.
pub fn placeholders(n: usize) -> (r: Vec<String>)
    requires
        n < usize::MAX,
    ensures
        r.deep_view() == placeholder_list(n as nat),
{
    let mut r: Vec<String> = Vec::new();
    let mut i: usize = 0;
    while i < n
        invariant
            i <= n < usize::MAX,
            r.deep_view() =~= placeholder_list(i as nat),
        decreases n - i,
    {
        let mut p = String::from_str("?");
        let digits = usize_to_decimal(i + 1);
        p.append(digits.as_str());
        let ghost before = r.deep_view();
        let ghost piece = p@;
        assert(piece == placeholder((i + 1) as nat));
        r.push(p);
        assert(r.deep_view() =~= before.push(piece));
        assert(placeholder_list((i + 1) as nat) =~= placeholder_list(i as nat).push(piece));
        i = i + 1;
        assert(r.deep_view() =~= placeholder_list(i as nat));
    }
    r
}

/// One `'col', prefix.col` pair of a `json_object` call.
pub open spec fn json_pair(col: Seq<char>, prefix: Seq<char>) -> Seq<char> {
    "'"@ + col + "', "@ + prefix + "."@ + col
}

/// The SQL expression that packs the named columns of a row into a JSON object.
pub open spec fn json_object_expr(columns: Seq<Seq<char>>, prefix: Seq<char>) -> Seq<char> {
    "json_object("@ + join_seq(Seq::new(columns.len(), |i: int| json_pair(columns[i], prefix)), ", "@)
        + ")"@
}

/// The SQL expression that packs the columns of the row named `prefix` into a JSON object.
pub fn json_object_for_columns(columns: &Vec<String>, prefix: &str) -> (r: String)
    ensures
        r@ == json_object_expr(columns.deep_view(), prefix@),
{
    let ghost cols = columns.deep_view();
    let mut parts: Vec<String> = Vec::new();
    let mut i: usize = 0;
    while i < columns.len()
        invariant
            cols == columns.deep_view(),
            i <= columns.len(),
            parts.deep_view() =~= Seq::new(i as nat, |k: int| json_pair(cols[k], prefix@)),
        decreases columns.len() - i,
    {
        let mut p = String::from_str("'");
        p.append(columns[i].as_str());
        p.append("', ");
        p.append(prefix);
        p.append(".");
        p.append(columns[i].as_str());
        let ghost before = parts.deep_view();
        let ghost piece = p@;
        assert(piece == json_pair(cols[i as int], prefix@));
        parts.push(p);
        assert(parts.deep_view() =~= before.push(piece));
        i = i + 1;
        assert(parts.deep_view() =~= Seq::new(i as nat, |k: int| json_pair(cols[k], prefix@)));
    }
    let mut r = String::from_str("json_object(");
    let joined = join(&parts, ", ");
    r.append(joined.as_str());
    r.append(")");
    r
}

/// The columns, in table order, for which `get` gives a value, paired with that value.
pub open spec fn select_present(
    columns: Seq<Seq<char>>,
    get: spec_fn(Seq<char>) -> Option<PayloadValue>,
) -> Seq<(Seq<char>, PayloadValue)>
    decreases columns.len(),
{
    if columns.len() == 0 {
        Seq::empty()
    } else {
        let rest = select_present(columns.drop_last(), get);
        match get(columns.last()) {
            Some(v) => rest.push((columns.last(), v)),
            None => rest,
        }
    }
}

/// The value an upsert writes to `col`: the payload's, and for a primary key that the payload
/// lacks, the change's entity id.
pub open spec fn insert_value(
    fields: Seq<PayloadField>,
    primary_key: Seq<char>,
    entity_id: String,
    col: Seq<char>,
) -> Option<PayloadValue> {
    if col == primary_key && field_lookup(fields, primary_key) is None {
        Some(PayloadValue::Text(entity_id))
    } else {
        field_lookup(fields, col)
    }
}

/// The value an update writes to `col`: the payload's, never for the primary key.
pub open spec fn update_value(fields: Seq<PayloadField>, primary_key: Seq<char>, col: Seq<char>) -> Option<PayloadValue> {
    if col == primary_key {
        None
    } else {
        field_lookup(fields, col)
    }
}

/// The `col = excluded.col` assignments of an upsert, for every column but the primary key.
pub open spec fn excluded_sets(names: Seq<Seq<char>>, primary_key: Seq<char>) -> Seq<Seq<char>>
    decreases names.len(),
{
    if names.len() == 0 {
        Seq::empty()
    } else {
        let rest = excluded_sets(names.drop_last(), primary_key);
        if names.last() == primary_key {
            rest
        } else {
            rest.push(names.last() + " = excluded."@ + names.last())
        }
    }
}

/// The upsert of a row: insert the given columns, or on a key conflict overwrite them.
pub open spec fn insert_sql(table: TableSpecView, names: Seq<Seq<char>>) -> Seq<char> {
    let sets = excluded_sets(names, table.primary_key);
    "INSERT INTO "@ + table.name + " ("@ + join_seq(names, ", "@) + ") VALUES ("@
        + join_seq(placeholder_list(names.len()), ", "@) + ") ON CONFLICT("@ + table.primary_key
        + ") DO "@ + (if sets.len() == 0 {
        "NOTHING;"@
    } else {
        "UPDATE SET "@ + join_seq(sets, ", "@) + ";"@
    })
}

/// The `col = ?k` assignments of an update.
pub open spec fn numbered_sets(names: Seq<Seq<char>>) -> Seq<Seq<char>> {
    Seq::new(names.len(), |k: int| names[k] + " = ?"@ + dec_digits((k + 1) as nat))
}

/// The update of the given columns of the row whose key is the last parameter.
pub open spec fn update_sql(table: TableSpecView, names: Seq<Seq<char>>) -> Seq<char> {
    "UPDATE "@ + table.name + " SET "@ + join_seq(numbered_sets(names), ", "@) + " WHERE "@
        + table.primary_key + " = ?"@ + dec_digits(names.len() + 1) + ";"@
}

/// The first components of a selection.
pub open spec fn names_of(sel: Seq<(Seq<char>, PayloadValue)>) -> Seq<Seq<char>> {
    sel.map_values(|p: (Seq<char>, PayloadValue)| p.0)
}

/// The parameters of a selection, in order.
pub open spec fn params_of(sel: Seq<(Seq<char>, PayloadValue)>) -> Seq<SqlValue> {
    sel.map_values(|p: (Seq<char>, PayloadValue)| param_of(p.1))
}

fn excluded_assignments(names: &Vec<String>, primary_key: &String) -> (r: Vec<String>)
    ensures
        r.deep_view() == excluded_sets(names.deep_view(), primary_key@),
{
    let ghost dv = names.deep_view();
    let mut r: Vec<String> = Vec::new();
    let mut i: usize = 0;
    while i < names.len()
        invariant
            dv == names.deep_view(),
            i <= names.len(),
            r.deep_view() =~= excluded_sets(dv.take(i as int), primary_key@),
        decreases names.len() - i,
    {
        assert(dv.take(i + 1).drop_last() =~= dv.take(i as int));
        assert(dv.take(i + 1).last() == names[i as int]@);
        if !crate::text::str_eq(names[i].as_str(), primary_key.as_str()) {
            let mut p = names[i].clone();
            p.append(" = excluded.");
            p.append(names[i].as_str());
            r.push(p);
        }
        i = i + 1;
        assert(r.deep_view() =~= excluded_sets(dv.take(i as int), primary_key@));
    }
    assert(dv.take(names.len() as int) =~= dv);
    r
}

/// The upsert a change of kind insert runs; `Err(InvalidPayload)` where the payload is no
/// JSON object.
pub fn insert_statement(table: &TableSpec, change: &Change) -> (r: Result<SqlStatement, SyncError>)
    requires
        table.columns.len() < usize::MAX,
    ensures
        match change.payload@ {
            crate::change::PayloadView::Object(fields) => {
                let sel = select_present(
                    table@.columns,
                    |c: Seq<char>| insert_value(fields, table@.primary_key, change.entity_id, c),
                );
                r matches Ok(stmt) && stmt.sql@ == insert_sql(table@, names_of(sel))
                    && stmt.params@ == params_of(sel)
            },
            crate::change::PayloadView::Other(_) => r matches Err(SyncError::InvalidPayload),
        },
{
    let fields = match &change.payload {
        Payload::Object(fields) => fields,
        Payload::Other(_) => return Err(SyncError::InvalidPayload),
    };
    let ghost get = |c: Seq<char>| insert_value(fields@, table@.primary_key, change.entity_id, c);
    let ghost cols = table.columns.deep_view();
    let pk_present = find_field(fields, table.primary_key.as_str()).is_some();
    let mut names: Vec<String> = Vec::new();
    let mut vals: Vec<PayloadValue> = Vec::new();
    let mut i: usize = 0;
    while i < table.columns.len()
        invariant
            cols == table.columns.deep_view(),
            i <= table.columns.len(),
            names@.len() <= i,
            pk_present == field_lookup(fields@, table@.primary_key) is Some,
            get == (|c: Seq<char>| insert_value(fields@, table@.primary_key, change.entity_id, c)),
            names.deep_view() =~= names_of(select_present(cols.take(i as int), get)),
            vals@ =~= select_present(cols.take(i as int), get).map_values(|p: (Seq<char>, PayloadValue)| p.1),
        decreases table.columns.len() - i,
    {
        let col = &table.columns[i];
        assert(cols.take(i + 1).drop_last() =~= cols.take(i as int));
        assert(cols.take(i + 1).last() == col@);
        let is_pk = crate::text::str_eq(col.as_str(), table.primary_key.as_str());
        let v = if is_pk && !pk_present {
            Some(PayloadValue::Text(change.entity_id.clone()))
        } else {
            find_field(fields, col.as_str())
        };
        assert(v == get(col@));
        match v {
            Some(v) => {
                let ghost before = names.deep_view();
                names.push(col.clone());
                assert(names.deep_view() =~= before.push(col@));
                vals.push(v);
            },
            None => {},
        }
        i = i + 1;
        assert(names.deep_view() =~= names_of(select_present(cols.take(i as int), get)));
        assert(vals@ =~= select_present(cols.take(i as int), get).map_values(|p: (Seq<char>, PayloadValue)| p.1));
    }
    assert(cols.take(table.columns.len() as int) =~= cols);
    let ghost sel = select_present(cols, get);
    let params = values_to_params(&vals);
    assert(params@ =~= params_of(sel));
    let cols_text = join(&names, ", ");
    let ph = placeholders(names.len());
    let ph_text = join(&ph, ", ");
    let sets = excluded_assignments(&names, &table.primary_key);
    let mut sql = String::from_str("INSERT INTO ");
    sql.append(table.name.as_str());
    sql.append(" (");
    sql.append(cols_text.as_str());
    sql.append(") VALUES (");
    sql.append(ph_text.as_str());
    sql.append(") ON CONFLICT(");
    sql.append(table.primary_key.as_str());
    sql.append(") DO ");
    if sets.len() == 0 {
        sql.append("NOTHING;");
    } else {
        let sets_text = join(&sets, ", ");
        sql.append("UPDATE SET ");
        sql.append(sets_text.as_str());
        sql.append(";");
    }
    assert(sql@ =~= insert_sql(table@, names_of(sel)));
    Ok(SqlStatement { sql, params })
}


/// The update a change of kind update runs first: `Ok(None)` where the payload names no column
/// but the key, `Err(InvalidPayload)` where the payload is no JSON object.
pub fn update_statement(table: &TableSpec, change: &Change) -> (r: Result<Option<SqlStatement>, SyncError>)
    requires
        table.columns.len() < usize::MAX,
    ensures
        match change.payload@ {
            crate::change::PayloadView::Object(fields) => {
                let sel = select_present(
                    table@.columns,
                    |c: Seq<char>| update_value(fields, table@.primary_key, c),
                );
                if sel.len() == 0 {
                    r matches Ok(None)
                } else {
                    r matches Ok(Some(stmt)) && stmt.sql@ == update_sql(table@, names_of(sel))
                        && stmt.params@ == params_of(sel).push(SqlValue::Text(change.entity_id))
                }
            },
            crate::change::PayloadView::Other(_) => r matches Err(SyncError::InvalidPayload),
        },
{
    let fields = match &change.payload {
        Payload::Object(fields) => fields,
        Payload::Other(_) => return Err(SyncError::InvalidPayload),
    };
    let ghost get = |c: Seq<char>| update_value(fields@, table@.primary_key, c);
    let ghost cols = table.columns.deep_view();
    let mut names: Vec<String> = Vec::new();
    let mut sets: Vec<String> = Vec::new();
    let mut vals: Vec<PayloadValue> = Vec::new();
    let mut i: usize = 0;
    while i < table.columns.len()
        invariant
            cols == table.columns.deep_view(),
            i <= table.columns.len() < usize::MAX,
            names@.len() <= i,
            get == (|c: Seq<char>| update_value(fields@, table@.primary_key, c)),
            names.deep_view() =~= names_of(select_present(cols.take(i as int), get)),
            sets.deep_view() =~= numbered_sets(names.deep_view()),
            vals@ =~= select_present(cols.take(i as int), get).map_values(|p: (Seq<char>, PayloadValue)| p.1),
        decreases table.columns.len() - i,
    {
        let col = &table.columns[i];
        assert(cols.take(i + 1).drop_last() =~= cols.take(i as int));
        assert(cols.take(i + 1).last() == col@);
        let v = if crate::text::str_eq(col.as_str(), table.primary_key.as_str()) {
            None
        } else {
            find_field(fields, col.as_str())
        };
        assert(v == get(col@));
        match v {
            Some(v) => {
                let mut set = col.clone();
                set.append(" = ?");
                let digits = usize_to_decimal(names.len() + 1);
                set.append(digits.as_str());
                let ghost before_names = names.deep_view();
                let ghost before_sets = sets.deep_view();
                let ghost piece = set@;
                names.push(col.clone());
                sets.push(set);
                assert(names.deep_view() =~= before_names.push(col@));
                assert(sets.deep_view() =~= before_sets.push(piece));
                assert(sets.deep_view() =~= numbered_sets(names.deep_view()));
                vals.push(v);
            },
            None => {},
        }
        i = i + 1;
        assert(names.deep_view() =~= names_of(select_present(cols.take(i as int), get)));
        assert(vals@ =~= select_present(cols.take(i as int), get).map_values(|p: (Seq<char>, PayloadValue)| p.1));
    }
    assert(cols.take(table.columns.len() as int) =~= cols);
    let ghost sel = select_present(cols, get);
    if vals.len() == 0 {
        return Ok(None);
    }
    let mut params = values_to_params(&vals);
    params.push(SqlValue::Text(change.entity_id.clone()));
    assert(params@ =~= params_of(sel).push(SqlValue::Text(change.entity_id)));
    let sets_text = join(&sets, ", ");
    let mut sql = String::from_str("UPDATE ");
    sql.append(table.name.as_str());
    sql.append(" SET ");
    sql.append(sets_text.as_str());
    sql.append(" WHERE ");
    sql.append(table.primary_key.as_str());
    sql.append(" = ?");
    let last = usize_to_decimal(vals.len() + 1);
    sql.append(last.as_str());
    sql.append(";");
    assert(sql@ =~= update_sql(table@, names_of(sel)));
    Ok(Some(SqlStatement { sql, params }))
}

/// The deletion of a row by its key.
pub open spec fn delete_sql(table: TableSpecView) -> Seq<char> {
    "DELETE FROM "@ + table.name + " WHERE "@ + table.primary_key + " = ?1;"@
}

/// The statement a change of kind delete runs.
pub fn delete_statement(table: &TableSpec, change: &Change) -> (r: SqlStatement)
    ensures
        r.sql@ == delete_sql(table@),
        r.params@ == seq![SqlValue::Text(change.entity_id)],
{
    let mut sql = String::from_str("DELETE FROM ");
    sql.append(table.name.as_str());
    sql.append(" WHERE ");
    sql.append(table.primary_key.as_str());
    sql.append(" = ?1;");
    let mut params: Vec<SqlValue> = Vec::new();
    params.push(SqlValue::Text(change.entity_id.clone()));
    assert(params@ =~= seq![SqlValue::Text(change.entity_id)]);
    SqlStatement { sql, params }
}


/// The last table in the list with the given name: the one a lookup by name finds, as a map
/// filled from the list in order keeps it.
pub open spec fn last_named(tables: Seq<TableSpec>, name: Seq<char>) -> Option<TableSpecView>
    decreases tables.len(),
{
    if tables.len() == 0 {
        None
    } else if tables.last().name@ == name {
        Some(tables.last()@)
    } else {
        last_named(tables.drop_last(), name)
    }
}

/// The position of the table of the given name in a list, if one has it.
fn find_table_index(map: &Vec<TableSpec>, name: &str) -> (r: Option<usize>)
    ensures
        match r {
            Some(j) => j < map@.len() && map@[j as int].name@ == name@,
            None => forall|a: int| 0 <= a < map@.len() ==> map@[a].name@ != name@,
        },
{
    let mut j: usize = 0;
    while j < map.len()
        invariant
            j <= map@.len(),
            forall|a: int| 0 <= a < j ==> map@[a].name@ != name@,
        decreases map@.len() - j,
    {
        if crate::text::str_eq(map[j].name.as_str(), name) {
            return Some(j);
        }
        j = j + 1;
    }
    None
}

/// The replication engine: a configuration and its tables by name.
pub struct SyncEngine {
    config: SyncConfig,
    table_map: Vec<TableSpec>,
}

/// `map` holds, once each, the last table of `tables` of every name that occurs there.
pub open spec fn indexes_tables(map: Seq<TableSpec>, tables: Seq<TableSpec>) -> bool {
    &&& forall|a: int, b: int| 0 <= a < map.len() && 0 <= b < map.len() && a != b
        ==> map[a].name@ != map[b].name@
    &&& forall|a: int| 0 <= a < map.len() ==> last_named(tables, #[trigger] map[a].name@) == Some(map[a]@)
    &&& forall|name: Seq<char>| #[trigger] last_named(tables, name) is Some
        ==> exists|a: int| 0 <= a < map.len() && map[a].name@ == name
}

impl SyncEngine {
    #[verifier::type_invariant]
    spec fn well_formed(self) -> bool {
        indexes_tables(self.table_map@, self.config.tables@)
    }

    /// The configuration the engine was made with.
    pub closed spec fn spec_config(self) -> SyncConfig {
        self.config
    }

    /// Makes an engine for the configuration; a table name that occurs twice stands for the
    /// later table.
    pub fn new(config: SyncConfig) -> (r: Self)
        ensures
            r.spec_config() == config,
    {
        let mut map: Vec<TableSpec> = Vec::new();
        let mut i: usize = 0;
        while i < config.tables.len()
            invariant
                i <= config.tables@.len(),
                indexes_tables(map@, config.tables@.take(i as int)),
            decreases config.tables@.len() - i,
        {
            let t = config.tables[i].clone();
            let ghost tables = config.tables@;
            let ghost prev = tables.take(i as int);
            let ghost next = tables.take(i + 1);
            assert(next.drop_last() =~= prev);
            assert(next.last() == tables[i as int]);
            let found_at = find_table_index(&map, t.name.as_str());
            proof {
                assert forall|name: Seq<char>| name != t.name@ implies last_named(next, name) == last_named(prev, name) by {}
                assert(last_named(next, t.name@) == Some(t@));
            }
            if let Some(j) = found_at {
                let ghost old_map = map@;
                map.set(j, t);
                proof {
                    assert forall|a: int| 0 <= a < map@.len() implies last_named(next, #[trigger] map@[a].name@) == Some(map@[a]@) by {
                        if a != j {
                            assert(old_map[a].name@ != t.name@);
                        }
                    }
                    assert forall|name: Seq<char>| #[trigger] last_named(next, name) is Some implies exists|a: int| 0 <= a < map@.len() && map@[a].name@ == name by {
                        if name == t.name@ {
                            assert(map@[j as int].name@ == name);
                        } else {
                            assert(last_named(prev, name) is Some);
                            let a = choose|a: int| 0 <= a < old_map.len() && old_map[a].name@ == name;
                            assert(map@[a].name@ == name);
                        }
                    }
                }
            } else {
                let ghost old_map = map@;
                map.push(t);
                proof {
                    assert forall|a: int| 0 <= a < map@.len() implies last_named(next, #[trigger] map@[a].name@) == Some(map@[a]@) by {
                        if a < old_map.len() {
                            assert(map@[a] == old_map[a]);
                            assert(old_map[a].name@ != t.name@);
                            assert(last_named(prev, old_map[a].name@) == Some(old_map[a]@));
                        } else {
                            assert(map@[a] == t);
                        }
                    }
                    assert forall|name: Seq<char>| #[trigger] last_named(next, name) is Some implies exists|a: int| 0 <= a < map@.len() && map@[a].name@ == name by {
                        if name == t.name@ {
                            assert(map@[old_map.len() as int].name@ == name);
                        } else {
                            assert(last_named(prev, name) is Some);
                            let a = choose|a: int| 0 <= a < old_map.len() && old_map[a].name@ == name;
                            assert(map@[a].name@ == name);
                        }
                    }
                }
            }
            i = i + 1;
        }
        assert(config.tables@.take(config.tables@.len() as int) =~= config.tables@);
        SyncEngine { config, table_map: map }
    }

    /// The configuration the engine was made with.
    pub fn config(&self) -> (r: &SyncConfig)
        ensures
            *r == self.spec_config(),
    {
        &self.config
    }

    /// The table of the given name: the last one of that name in the configuration.
    pub fn table(&self, name: &str) -> (r: Option<&TableSpec>)
        ensures
            match r {
                Some(t) => last_named(self.spec_config().tables@, name@) == Some(t@),
                None => last_named(self.spec_config().tables@, name@) is None,
            },
    {
        proof { use_type_invariant(self); }
        match find_table_index(&self.table_map, name) {
            Some(j) => Some(&self.table_map[j]),
            None => {
                assert(last_named(self.config.tables@, name@) is None);
                None
            },
        }
    }
}


/// Whether a change is well formed: it names its row, and an insert or update carries a JSON
/// object.
pub open spec fn change_is_valid(change: Change) -> bool {
    &&& trim_seq(change.entity_id@).len() != 0
    &&& (change.op != ChangeOp::Delete ==> change.payload@ is Object)
}

/// Whether a list of table columns holds `updated_at`.
pub open spec fn has_updated_at(columns: Seq<Seq<char>>) -> bool {
    exists|i: int| 0 <= i < columns.len() && columns[i] == "updated_at"@
}

/// The `updated_at` text an incoming change carries, if its payload has one as a string.
pub open spec fn incoming_updated_at(change: Change) -> Option<String> {
    match change.payload@ {
        crate::change::PayloadView::Object(fields) => match field_lookup(fields, "updated_at"@) {
            Some(PayloadValue::Text(s)) => Some(s),
            _ => None,
        },
        _ => None,
    }
}

/// Whether an incoming `updated_at` orders before the stored one, by the bytes of the text:
/// then the stored row is newer and the change is left out.
pub open spec fn is_stale(incoming: Option<String>, stored: Option<String>) -> bool {
    match (incoming, stored) {
        (Some(i), Some(s)) => bytes_lt(encode_utf8(i@), encode_utf8(s@)),
        _ => false,
    }
}

/// The next thing to do with the database while applying one incoming change.
#[derive(Debug)]
pub enum ApplyStep {
    /// Run the query, whose one row holds the number of orgs, and hand the number to
    /// `SyncEngine::after_org_count`.
    CountOrgs(SqlStatement),
    /// Run the query, which gives the stored `updated_at` of the row if there is a row, and
    /// hand that to `SyncEngine::after_freshness`.
    ReadUpdatedAt(SqlStatement),
    /// Run the statement; that applies the change.
    Run(SqlStatement),
    /// Run the update; where it changes no row, run the upsert instead.
    UpdateOrInsert(SqlStatement, SqlStatement),
    /// The change is to be left out.
    Skip,
}

/// The counting query of the orgs.
pub open spec fn count_orgs_sql() -> Seq<char> {
    "SELECT COUNT(*) FROM org;"@
}

/// The query of a row's stored `updated_at`.
pub open spec fn updated_at_sql(table: TableSpecView) -> Seq<char> {
    "SELECT updated_at FROM "@ + table.name + " WHERE "@ + table.primary_key + " = ?1;"@
}

/// What applying the change does once it is known to be fresh enough: the statement of its
/// kind of operation.
pub open spec fn operation_step(table: TableSpec, change: Change, step: ApplyStep) -> bool {
    match change.op {
        ChangeOp::Insert => match change.payload@ {
            crate::change::PayloadView::Object(fields) => {
                let sel = select_present(
                    table@.columns,
                    |c: Seq<char>| insert_value(fields, table@.primary_key, change.entity_id, c),
                );
                step matches ApplyStep::Run(stmt) && stmt.sql@ == insert_sql(table@, names_of(sel))
                    && stmt.params@ == params_of(sel)
            },
            _ => false,
        },
        ChangeOp::Update => match change.payload@ {
            crate::change::PayloadView::Object(fields) => {
                let usel = select_present(
                    table@.columns,
                    |c: Seq<char>| update_value(fields, table@.primary_key, c),
                );
                let isel = select_present(
                    table@.columns,
                    |c: Seq<char>| insert_value(fields, table@.primary_key, change.entity_id, c),
                );
                if usel.len() == 0 {
                    step is Skip
                } else {
                    step matches ApplyStep::UpdateOrInsert(upd, ins)
                        && upd.sql@ == update_sql(table@, names_of(usel))
                        && upd.params@ == params_of(usel).push(SqlValue::Text(change.entity_id))
                        && ins.sql@ == insert_sql(table@, names_of(isel))
                        && ins.params@ == params_of(isel)
                }
            },
            _ => false,
        },
        ChangeOp::Delete => step matches ApplyStep::Run(stmt) && stmt.sql@ == delete_sql(table@)
            && stmt.params@ == seq![SqlValue::Text(change.entity_id)],
    }
}

/// What applying the change does once the org limit is known to allow it: read the stored
/// `updated_at` where both the table and the change carry one, else run the operation.
pub open spec fn freshness_step(table: TableSpec, change: Change, step: ApplyStep) -> bool {
    if has_updated_at(table@.columns) && incoming_updated_at(change) is Some {
        step matches ApplyStep::ReadUpdatedAt(q) && q.sql@ == updated_at_sql(table@)
            && q.params@ == seq![SqlValue::Text(change.entity_id)]
    } else {
        operation_step(table, change, step)
    }
}

/// The first step of applying a valid change under a configuration: `Err(UnknownTable)` for an
/// entity no table is configured for; for an insert into `org`, counting the orgs; otherwise the
/// step `freshness_step` says.
pub open spec fn first_apply_step(config: SyncConfig, change: Change, r: Result<ApplyStep, SyncError>) -> bool {
    match last_named(config.tables@, change.entity@) {
        None => r matches Err(SyncError::UnknownTable(name)) && name@ == change.entity@,
        Some(tv) => r matches Ok(step) && {
            if change.entity@ == "org"@ && change.op == ChangeOp::Insert {
                step matches ApplyStep::CountOrgs(q) && q.sql@ == count_orgs_sql()
                    && q.params@.len() == 0
            } else {
                exists|t: TableSpec| t@ == tv && #[trigger] freshness_step(t, change, step)
            }
        },
    }
}

/// The ids of an incoming batch that are applied, in order, over a log that already holds
/// `logged`: each change whose id is neither logged nor applied earlier in the batch.
pub open spec fn applied_ids(logged: Set<Seq<char>>, ids: Seq<Seq<char>>) -> Seq<Seq<char>>
    decreases ids.len(),
{
    if ids.len() == 0 {
        Seq::empty()
    } else {
        let prev = applied_ids(logged, ids.drop_last());
        if logged.contains(ids.last()) || prev.contains(ids.last()) { prev } else { prev.push(ids.last()) }
    }
}

/// The ids the log holds after a batch was applied: those it held, and each applied change's,
/// which `incoming_log_statement` logs.
pub open spec fn logged_after(logged: Set<Seq<char>>, ids: Seq<Seq<char>>) -> Set<Seq<char>> {
    Set::new(|x: Seq<char>| logged.contains(x) || applied_ids(logged, ids).contains(x))
}

proof fn lemma_applied_grows(logged: Set<Seq<char>>, ids: Seq<Seq<char>>, x: Seq<char>)
    requires
        ids.len() > 0,
        applied_ids(logged, ids.drop_last()).contains(x),
    ensures
        applied_ids(logged, ids).contains(x),
{
    let prev = applied_ids(logged, ids.drop_last());
    if !(logged.contains(ids.last()) || prev.contains(ids.last())) {
        let k = choose|k: int| 0 <= k < prev.len() && prev[k] == x;
        assert(prev.push(ids.last())[k] == x);
    }
}

proof fn lemma_batch_logged(logged: Set<Seq<char>>, ids: Seq<Seq<char>>)
    ensures
        forall|k: int| 0 <= k < ids.len() ==> #[trigger] logged_after(logged, ids).contains(ids[k]),
    decreases ids.len(),
{
    if ids.len() > 0 {
        let init = ids.drop_last();
        lemma_batch_logged(logged, init);
        let prev = applied_ids(logged, init);
        let all = applied_ids(logged, ids);
        assert forall|k: int| 0 <= k < ids.len() implies #[trigger] logged_after(logged, ids).contains(ids[k]) by {
            if k < init.len() {
                assert(init[k] == ids[k]);
                assert(logged_after(logged, init).contains(init[k]));
                if !logged.contains(ids[k]) {
                    assert(prev.contains(ids[k]));
                    lemma_applied_grows(logged, ids, ids[k]);
                }
            } else if !logged.contains(ids.last()) {
                if prev.contains(ids.last()) {
                    lemma_applied_grows(logged, ids, ids.last());
                } else {
                    assert(all == prev.push(ids.last()));
                    assert(all[prev.len() as int] == ids.last());
                }
            }
        }
    }
}

proof fn lemma_all_logged_applies_none(logged: Set<Seq<char>>, ids: Seq<Seq<char>>)
    requires
        forall|k: int| 0 <= k < ids.len() ==> logged.contains(#[trigger] ids[k]),
    ensures
        applied_ids(logged, ids).len() == 0,
    decreases ids.len(),
{
    if ids.len() > 0 {
        let init = ids.drop_last();
        assert forall|k: int| 0 <= k < init.len() implies logged.contains(#[trigger] init[k]) by {
            assert(init[k] == ids[k]);
        }
        lemma_all_logged_applies_none(logged, init);
        assert(logged.contains(ids[ids.len() - 1]));
    }
}

proof fn lemma_applied_distinct(logged: Set<Seq<char>>, ids: Seq<Seq<char>>)
    ensures
        applied_ids(logged, ids).no_duplicates(),
    decreases ids.len(),
{
    if ids.len() > 0 {
        lemma_applied_distinct(logged, ids.drop_last());
        let prev = applied_ids(logged, ids.drop_last());
        if !(logged.contains(ids.last()) || prev.contains(ids.last())) {
            let n = prev.push(ids.last());
            assert forall|i: int, j: int| 0 <= i < n.len() && 0 <= j < n.len() && i != j implies n[i] != n[j] by {
                if i == prev.len() {
                    assert(n[j] == prev[j]);
                } else if j == prev.len() {
                    assert(n[i] == prev[i]);
                } else {
                    assert(n[i] == prev[i] && n[j] == prev[j]);
                }
            }
        }
    }
}

/// Applying an incoming batch is idempotent: once a batch was applied, applying it again applies
/// no change, since every change of it is then logged; and within one batch a change id that
/// occurs twice is applied once.
pub proof fn incoming_batch_is_idempotent(logged: Set<Seq<char>>, ids: Seq<Seq<char>>)
    ensures
        applied_ids(logged_after(logged, ids), ids).len() == 0,
        applied_ids(logged, ids).no_duplicates(),
{
    lemma_batch_logged(logged, ids);
    lemma_all_logged_applies_none(logged_after(logged, ids), ids);
    lemma_applied_distinct(logged, ids);
}

fn columns_have_updated_at(columns: &Vec<String>) -> (r: bool)
    ensures
        r == has_updated_at(columns.deep_view()),
{
    let mut i: usize = 0;
    while i < columns.len()
        invariant
            i <= columns@.len(),
            forall|k: int| 0 <= k < i ==> columns.deep_view()[k] != "updated_at"@,
        decreases columns@.len() - i,
    {
        if crate::text::str_eq(columns[i].as_str(), "updated_at") {
            assert(columns.deep_view()[i as int] == "updated_at"@);
            return true;
        }
        i = i + 1;
    }
    false
}

fn incoming_updated_at_of(change: &Change) -> (r: Option<String>)
    ensures
        r == incoming_updated_at(*change),
{
    match &change.payload {
        Payload::Object(fields) => match find_field(fields, "updated_at") {
            Some(PayloadValue::Text(s)) => Some(s),
            _ => None,
        },
        _ => None,
    }
}

fn operation_step_of(table: &TableSpec, change: &Change) -> (r: Result<ApplyStep, SyncError>)
    requires
        change_is_valid(*change),
        table.columns.len() < usize::MAX,
    ensures
        r matches Ok(step) && operation_step(*table, *change, step),
{
    match change.op {
        ChangeOp::Insert => {
            let ins = insert_statement(table, change)?;
            Ok(ApplyStep::Run(ins))
        },
        ChangeOp::Update => {
            match update_statement(table, change)? {
                None => Ok(ApplyStep::Skip),
                Some(upd) => {
                    let ins = insert_statement(table, change)?;
                    Ok(ApplyStep::UpdateOrInsert(upd, ins))
                },
            }
        },
        ChangeOp::Delete => Ok(ApplyStep::Run(delete_statement(table, change))),
    }
}

fn freshness_step_of(table: &TableSpec, change: &Change) -> (r: Result<ApplyStep, SyncError>)
    requires
        change_is_valid(*change),
        table.columns.len() < usize::MAX,
    ensures
        r matches Ok(step) && freshness_step(*table, *change, step),
{
    if columns_have_updated_at(&table.columns) && incoming_updated_at_of(change).is_some() {
        let mut sql = String::from_str("SELECT updated_at FROM ");
        sql.append(table.name.as_str());
        sql.append(" WHERE ");
        sql.append(table.primary_key.as_str());
        sql.append(" = ?1;");
        let mut params: Vec<SqlValue> = Vec::new();
        params.push(SqlValue::Text(change.entity_id.clone()));
        assert(params@ =~= seq![SqlValue::Text(change.entity_id)]);
        Ok(ApplyStep::ReadUpdatedAt(SqlStatement { sql, params }))
    } else {
        operation_step_of(table, change)
    }
}

impl SyncEngine {
    /// Checks that a change is well formed before it is applied.
    pub fn validate_change(&self, change: &Change) -> (r: Result<(), SyncError>)
        ensures
            change_is_valid(*change) ==> r is Ok,
            !change_is_valid(*change) ==> r matches Err(SyncError::InvalidPayload),
    {
        if is_blank(change.entity_id.as_str()) {
            return Err(SyncError::InvalidPayload);
        }
        match change.op {
            ChangeOp::Insert | ChangeOp::Update => {
                match &change.payload {
                    Payload::Object(_) => {},
                    Payload::Other(_) => return Err(SyncError::InvalidPayload),
                }
            },
            ChangeOp::Delete => {},
        }
        Ok(())
    }

    /// The first step of applying a valid change: `Err(UnknownTable)` for an entity no table
    /// is configured for; for an insert into `org`, count the orgs first; otherwise go on as
    /// `freshness_step` says.
    pub fn begin_apply(&self, change: &Change) -> (r: Result<ApplyStep, SyncError>)
        requires
            change_is_valid(*change),
            forall|k: int| 0 <= k < self.spec_config().tables@.len()
                ==> #[trigger] self.spec_config().tables@[k].columns@.len() < usize::MAX,
        ensures
            first_apply_step(self.spec_config(), *change, r),
    {
        let table = match self.table(change.entity.as_str()) {
            Some(t) => t,
            None => return Err(SyncError::UnknownTable(change.entity.clone())),
        };
        proof { self.lemma_table_columns_fit(change.entity@); }
        let is_org = crate::text::str_eq(change.entity.as_str(), "org");
        if is_org && change.op == ChangeOp::Insert {
            let sql = String::from_str("SELECT COUNT(*) FROM org;");
            return Ok(ApplyStep::CountOrgs(SqlStatement { sql, params: Vec::new() }));
        }
        let r = freshness_step_of(table, change);
        assert(freshness_step(*table, *change, r->Ok_0));
        r
    }

    /// The step after counting the orgs for an insert into `org`: `Err(InvalidPayload)` once
    /// the count has reached the configured limit; otherwise go on as `freshness_step` says.
    pub fn after_org_count(&self, change: &Change, org_count: i64) -> (r: Result<ApplyStep, SyncError>)
        requires
            change_is_valid(*change),
            forall|k: int| 0 <= k < self.spec_config().tables@.len()
                ==> #[trigger] self.spec_config().tables@[k].columns@.len() < usize::MAX,
        ensures
            match last_named(self.spec_config().tables@, change.entity@) {
                None => r matches Err(SyncError::UnknownTable(name)) && name@ == change.entity@,
                Some(tv) => if org_count >= self.spec_config().max_orgs {
                    r matches Err(SyncError::InvalidPayload)
                } else {
                    r matches Ok(step) && exists|t: TableSpec| t@ == tv && #[trigger] freshness_step(t, *change, step)
                },
            },
    {
        let table = match self.table(change.entity.as_str()) {
            Some(t) => t,
            None => return Err(SyncError::UnknownTable(change.entity.clone())),
        };
        proof { self.lemma_table_columns_fit(change.entity@); }
        if org_count >= self.config.max_orgs {
            return Err(SyncError::InvalidPayload);
        }
        let r = freshness_step_of(table, change);
        assert(freshness_step(*table, *change, r->Ok_0));
        r
    }

    /// The step after reading a row's stored `updated_at`: the change is skipped where the row
    /// exists and its stored text orders after the incoming one; otherwise its operation runs.
    pub fn after_freshness(&self, change: &Change, existing: Option<String>) -> (r: Result<ApplyStep, SyncError>)
        requires
            change_is_valid(*change),
            forall|k: int| 0 <= k < self.spec_config().tables@.len()
                ==> #[trigger] self.spec_config().tables@[k].columns@.len() < usize::MAX,
        ensures
            match last_named(self.spec_config().tables@, change.entity@) {
                None => r matches Err(SyncError::UnknownTable(name)) && name@ == change.entity@,
                Some(tv) => r matches Ok(step) && if is_stale(incoming_updated_at(*change), existing) {
                    step is Skip
                } else {
                    exists|t: TableSpec| t@ == tv && #[trigger] operation_step(t, *change, step)
                },
            },
    {
        let table = match self.table(change.entity.as_str()) {
            Some(t) => t,
            None => return Err(SyncError::UnknownTable(change.entity.clone())),
        };
        proof { self.lemma_table_columns_fit(change.entity@); }
        if let (Some(incoming), Some(stored)) = (incoming_updated_at_of(change), existing) {
            if !str_ge(incoming.as_str(), stored.as_str()) {
                return Ok(ApplyStep::Skip);
            }
        }
        let r = operation_step_of(table, change);
        assert(operation_step(*table, *change, r->Ok_0));
        r
    }

    proof fn lemma_table_columns_fit(&self, name: Seq<char>)
        requires
            forall|k: int| 0 <= k < self.spec_config().tables@.len()
                ==> #[trigger] self.spec_config().tables@[k].columns@.len() < usize::MAX,
        ensures
            last_named(self.spec_config().tables@, name) matches Some(tv) ==> tv.columns.len() < usize::MAX,
    {
        lemma_last_named_in(self.spec_config().tables@, name);
    }
}

proof fn lemma_last_named_in(tables: Seq<TableSpec>, name: Seq<char>)
    ensures
        last_named(tables, name) matches Some(tv) ==> exists|k: int| 0 <= k < tables.len() && tables[k]@ == tv,
    decreases tables.len(),
{
    if tables.len() > 0 {
        lemma_last_named_in(tables.drop_last(), name);
        if last_named(tables, name) is Some && tables.last().name@ != name {
            let k = choose|k: int| 0 <= k < tables.drop_last().len() && tables.drop_last()[k]@ == last_named(tables, name)->0;
            assert(tables[k]@ == last_named(tables, name)->0);
        }
        if tables.last().name@ == name {
            assert(tables[tables.len() - 1]@ == tables.last()@);
        }
    }
}


/// The statement that logs, for every row of a table that this node has not logged an insert
/// for, an insert change with the row's columns as payload.
pub open spec fn ensure_logged_sql(table: TableSpecView) -> Seq<char> {
    let payload = json_object_expr(table.columns, "t"@);
    "INSERT INTO sync_log (change_id, timestamp_ms, origin_node, entity, entity_id, op, payload, hlc) SELECT lower(hex(randomblob(16))), CAST(strftime('%s','now') AS INTEGER) * 1000, ?1, '"@
        + table.name + "', CAST(t."@ + table.primary_key + " AS TEXT), 'insert', "@ + payload
        + ", printf('%lld-%s', CAST(strftime('%s','now') AS INTEGER) * 1000, ?1) FROM "@ + table.name
        + " t LEFT JOIN sync_log l ON l.entity = '"@ + table.name + "' AND l.entity_id = CAST(t."@
        + table.primary_key + " AS TEXT) AND l.origin_node = ?1 AND l.op = 'insert' WHERE l.change_id IS NULL;"@
}

/// The keyword of an operation in a trigger's `AFTER` clause.
pub open spec fn trigger_event(op: ChangeOp) -> Seq<char> {
    match op {
        ChangeOp::Insert => "INSERT"@,
        ChangeOp::Update => "UPDATE"@,
        ChangeOp::Delete => "DELETE"@,
    }
}

/// The row a trigger logs: the new row, or for a deletion the old one.
pub open spec fn trigger_row(op: ChangeOp) -> Seq<char> {
    match op {
        ChangeOp::Delete => "OLD"@,
        _ => "NEW"@,
    }
}

/// The trigger that logs every change of the given kind to a table, unless triggers are
/// suppressed.
pub open spec fn trigger_sql(table: TableSpecView, op: ChangeOp) -> Seq<char> {
    let row = trigger_row(op);
    "CREATE TRIGGER IF NOT EXISTS sync_"@ + table.name + "_"@ + crate::change::op_name(op) + " AFTER "@
        + trigger_event(op) + " ON "@ + table.name
        + " WHEN (SELECT suppress_triggers FROM sync_context WHERE id = 1) = 0 BEGIN INSERT INTO sync_log (change_id, timestamp_ms, origin_node, entity, entity_id, op, payload, hlc) VALUES (lower(hex(randomblob(16))), CAST(strftime('%s','now') AS INTEGER) * 1000, (SELECT node_id FROM sync_meta WHERE id = 1), '"@
        + table.name + "', CAST("@ + row + "."@ + table.primary_key + " AS TEXT), '"@
        + crate::change::op_name(op) + "', "@ + json_object_expr(table.columns, row)
        + ", printf('%lld-%s', CAST(strftime('%s','now') AS INTEGER) * 1000, (SELECT node_id FROM sync_meta WHERE id = 1))); END;"@
}

fn trigger_for(table: &TableSpec, op: ChangeOp) -> (r: String)
    ensures
        r@ == trigger_sql(table@, op),
{
    let (event, row): (&str, &str) = match op {
        ChangeOp::Insert => ("INSERT", "NEW"),
        ChangeOp::Update => ("UPDATE", "NEW"),
        ChangeOp::Delete => ("DELETE", "OLD"),
    };
    let name = crate::change::op_to_str(op.clone());
    let payload = json_object_for_columns(&table.columns, row);
    let mut sql = String::from_str("CREATE TRIGGER IF NOT EXISTS sync_");
    sql.append(table.name.as_str());
    sql.append("_");
    sql.append(name);
    sql.append(" AFTER ");
    sql.append(event);
    sql.append(" ON ");
    sql.append(table.name.as_str());
    sql.append(" WHEN (SELECT suppress_triggers FROM sync_context WHERE id = 1) = 0 BEGIN INSERT INTO sync_log (change_id, timestamp_ms, origin_node, entity, entity_id, op, payload, hlc) VALUES (lower(hex(randomblob(16))), CAST(strftime('%s','now') AS INTEGER) * 1000, (SELECT node_id FROM sync_meta WHERE id = 1), '");
    sql.append(table.name.as_str());
    sql.append("', CAST(");
    sql.append(row);
    sql.append(".");
    sql.append(table.primary_key.as_str());
    sql.append(" AS TEXT), '");
    sql.append(name);
    sql.append("', ");
    sql.append(payload.as_str());
    sql.append(", printf('%lld-%s', CAST(strftime('%s','now') AS INTEGER) * 1000, (SELECT node_id FROM sync_meta WHERE id = 1))); END;");
    sql
}

/// The three triggers, on insert, update and delete, that log a table's changes.
pub fn create_triggers(table: &TableSpec) -> (r: Vec<String>)
    ensures
        r.deep_view() == seq![
            trigger_sql(table@, ChangeOp::Insert),
            trigger_sql(table@, ChangeOp::Update),
            trigger_sql(table@, ChangeOp::Delete),
        ],
{
    let mut r: Vec<String> = Vec::new();
    r.push(trigger_for(table, ChangeOp::Insert));
    r.push(trigger_for(table, ChangeOp::Update));
    r.push(trigger_for(table, ChangeOp::Delete));
    assert(r.deep_view() =~= seq![
        trigger_sql(table@, ChangeOp::Insert),
        trigger_sql(table@, ChangeOp::Update),
        trigger_sql(table@, ChangeOp::Delete),
    ]);
    r
}

/// The pragma that unlocks an encrypted database with the key, the key quoted as a SQL literal.
pub open spec fn key_pragma(key: Seq<char>) -> Seq<char> {
    "PRAGMA key = '"@ + escape_quotes(key) + "';"@
}

/// Writes `key_pragma` for a key.
pub fn encryption_key_pragma(key: &str) -> (r: String)
    ensures
        r@ == key_pragma(key@),
{
    let escaped = escape_single_quotes(key);
    let mut r = String::from_str("PRAGMA key = '");
    r.append(escaped.as_str());
    r.append("';");
    r
}

/// The query whether the log already holds a change.
pub open spec fn change_seen_sql() -> Seq<char> {
    "SELECT change_id FROM sync_log WHERE change_id = ?1;"@
}

/// The statement that records an applied incoming change in the log.
pub open spec fn incoming_log_sql() -> Seq<char> {
    "INSERT INTO sync_log (change_id, timestamp_ms, origin_node, entity, entity_id, op, payload, hlc, applied, sent) VALUES (?1, ?2, ?3, ?4, ?5, ?6, ?7, ?8, 1, 0);"@
}

impl SyncEngine {
    /// `Err(MissingKey)` exactly where the configured key is blank: a database is never opened
    /// without a key.
    pub fn check_key(&self) -> (r: Result<(), SyncError>)
        ensures
            r is Ok <==> trim_seq(self.spec_config().encryption_key@).len() != 0,
            r is Err ==> r matches Err(SyncError::MissingKey),
    {
        if is_blank(self.config.encryption_key.as_str()) {
            Err(SyncError::MissingKey)
        } else {
            Ok(())
        }
    }

    /// The statement that logs the rows of the named table that this node has no insert logged
    /// for; `Err(UnknownTable)` where no table has that name.
    pub fn ensure_logged_statement(&self, table_name: &str) -> (r: Result<SqlStatement, SyncError>)
        ensures
            match last_named(self.spec_config().tables@, table_name@) {
                None => r matches Err(SyncError::UnknownTable(name)) && name@ == table_name@,
                Some(tv) => r matches Ok(stmt) && stmt.sql@ == ensure_logged_sql(tv)
                    && stmt.params@ == seq![SqlValue::Text(self.spec_config().node_id)],
            },
    {
        let table = match self.table(table_name) {
            Some(t) => t,
            None => return Err(SyncError::UnknownTable(String::from_str(table_name))),
        };
        let payload = json_object_for_columns(&table.columns, "t");
        let mut sql = String::from_str("INSERT INTO sync_log (change_id, timestamp_ms, origin_node, entity, entity_id, op, payload, hlc) SELECT lower(hex(randomblob(16))), CAST(strftime('%s','now') AS INTEGER) * 1000, ?1, '");
        sql.append(table.name.as_str());
        sql.append("', CAST(t.");
        sql.append(table.primary_key.as_str());
        sql.append(" AS TEXT), 'insert', ");
        sql.append(payload.as_str());
        sql.append(", printf('%lld-%s', CAST(strftime('%s','now') AS INTEGER) * 1000, ?1) FROM ");
        sql.append(table.name.as_str());
        sql.append(" t LEFT JOIN sync_log l ON l.entity = '");
        sql.append(table.name.as_str());
        sql.append("' AND l.entity_id = CAST(t.");
        sql.append(table.primary_key.as_str());
        sql.append(" AS TEXT) AND l.origin_node = ?1 AND l.op = 'insert' WHERE l.change_id IS NULL;");
        let mut params: Vec<SqlValue> = Vec::new();
        params.push(SqlValue::Text(self.config.node_id.clone()));
        assert(params@ =~= seq![SqlValue::Text(self.spec_config().node_id)]);
        Ok(SqlStatement { sql, params })
    }

    /// The query whether the log already holds the change: applying a change twice is avoided
    /// by it.
    pub fn change_seen_query(&self, change: &Change) -> (r: SqlStatement)
        ensures
            r.sql@ == change_seen_sql(),
            r.params@ == seq![SqlValue::Text(change.change_id)],
    {
        let mut params: Vec<SqlValue> = Vec::new();
        params.push(SqlValue::Text(change.change_id.clone()));
        assert(params@ =~= seq![SqlValue::Text(change.change_id)]);
        SqlStatement {
            sql: String::from_str("SELECT change_id FROM sync_log WHERE change_id = ?1;"),
            params,
        }
    }

    /// The statement that records an applied incoming change, marked applied and not sent;
    /// `payload_text` is the payload written as JSON.
    pub fn incoming_log_statement(&self, change: &Change, payload_text: String) -> (r: SqlStatement)
        ensures
            r.sql@ == incoming_log_sql(),
            r.params@.len() == 8,
            r.params@[0] == SqlValue::Text(change.change_id),
            r.params@[1] == SqlValue::Integer(change.timestamp_ms),
            r.params@[2] == SqlValue::Text(change.origin_node),
            r.params@[3] == SqlValue::Text(change.entity),
            r.params@[4] == SqlValue::Text(change.entity_id),
            r.params@[5] matches SqlValue::Text(op) && op@ == crate::change::op_name(change.op),
            r.params@[6] == SqlValue::Text(payload_text),
            r.params@[7] == SqlValue::Text(change.hlc),
    {
        let mut params: Vec<SqlValue> = Vec::new();
        params.push(SqlValue::Text(change.change_id.clone()));
        params.push(SqlValue::Integer(change.timestamp_ms));
        params.push(SqlValue::Text(change.origin_node.clone()));
        params.push(SqlValue::Text(change.entity.clone()));
        params.push(SqlValue::Text(change.entity_id.clone()));
        params.push(SqlValue::Text(String::from_str(crate::change::op_to_str(change.op.clone()))));
        params.push(SqlValue::Text(payload_text));
        params.push(SqlValue::Text(change.hlc.clone()));
        let sql = String::from_str("INSERT INTO sync_log (change_id, timestamp_ms, origin_node, entity, entity_id, op, payload, hlc, applied, sent) VALUES (?1, ?2, ?3, ?4, ?5, ?6, ?7, ?8, 1, 0);");
        SqlStatement { sql, params }
    }
}

/// The id of the last log entry a listing returned, or the id it listed after where it
/// returned none.
pub fn last_listed_id(after_id: i64, ids: &Vec<i64>) -> (r: i64)
    ensures
        r == if ids@.len() == 0 { after_id } else { ids@.last() },
{
    if ids.len() == 0 {
        after_id
    } else {
        ids[ids.len() - 1]
    }
}


/// The query of the local changes not yet sent, oldest first, at most `?2` of them.
pub open spec fn outgoing_sql() -> Seq<char> {
    "SELECT change_id, timestamp_ms, origin_node, entity, entity_id, op, payload, hlc FROM sync_log WHERE origin_node = ?1 AND sent = 0 ORDER BY id ASC LIMIT ?2;"@
}

/// The query of the log entries after an id, oldest first, at most `?2` of them, each with its id.
pub open spec fn since_sql() -> Seq<char> {
    "SELECT id, change_id, timestamp_ms, origin_node, entity, entity_id, op, payload, hlc FROM sync_log WHERE id > ?1 ORDER BY id ASC LIMIT ?2;"@
}

/// The query of the last log id a peer acknowledged.
pub open spec fn peer_ack_sql() -> Seq<char> {
    "SELECT last_acked_id FROM sync_peer_state WHERE peer_id = ?1;"@
}

/// The statement that records the last log id a peer acknowledged, with the time.
pub open spec fn set_peer_ack_sql() -> Seq<char> {
    "INSERT INTO sync_peer_state (peer_id, last_acked_id, updated_at) VALUES (?1, ?2, CAST(strftime('%s','now') AS INTEGER)) ON CONFLICT(peer_id) DO UPDATE SET last_acked_id = excluded.last_acked_id, updated_at = excluded.updated_at;"@
}

/// The statement that marks a logged change as sent.
pub open spec fn mark_sent_sql() -> Seq<char> {
    "UPDATE sync_log SET sent = 1 WHERE change_id = ?1;"@
}

/// A statement with one text parameter.
fn text_statement(sql: &str, text: &str) -> (r: SqlStatement)
    ensures
        r.sql@ == sql@,
        r.params@.len() == 1,
        r.params@[0] matches SqlValue::Text(t) && t@ == text@,
{
    let mut params: Vec<SqlValue> = Vec::new();
    params.push(SqlValue::Text(String::from_str(text)));
    SqlStatement { sql: String::from_str(sql), params }
}

impl SyncEngine {
    /// The query of this node's changes not yet sent, at most `limit` of them (the limit is
    /// bound as `i64`, as `as` converts it).
    pub fn outgoing_query(&self, limit: usize) -> (r: SqlStatement)
        ensures
            r.sql@ == outgoing_sql(),
            r.params@ == seq![SqlValue::Text(self.spec_config().node_id), SqlValue::Integer(limit as i64)],
    {
        let mut params: Vec<SqlValue> = Vec::new();
        params.push(SqlValue::Text(self.config.node_id.clone()));
        params.push(SqlValue::Integer(limit as i64));
        assert(params@ =~= seq![SqlValue::Text(self.spec_config().node_id), SqlValue::Integer(limit as i64)]);
        SqlStatement {
            sql: String::from_str("SELECT change_id, timestamp_ms, origin_node, entity, entity_id, op, payload, hlc FROM sync_log WHERE origin_node = ?1 AND sent = 0 ORDER BY id ASC LIMIT ?2;"),
            params,
        }
    }
}

/// The query of the log entries after `after_id`, at most `limit` of them.
pub fn since_query(after_id: i64, limit: usize) -> (r: SqlStatement)
    ensures
        r.sql@ == since_sql(),
        r.params@ == seq![SqlValue::Integer(after_id), SqlValue::Integer(limit as i64)],
{
    let mut params: Vec<SqlValue> = Vec::new();
    params.push(SqlValue::Integer(after_id));
    params.push(SqlValue::Integer(limit as i64));
    assert(params@ =~= seq![SqlValue::Integer(after_id), SqlValue::Integer(limit as i64)]);
    SqlStatement {
        sql: String::from_str("SELECT id, change_id, timestamp_ms, origin_node, entity, entity_id, op, payload, hlc FROM sync_log WHERE id > ?1 ORDER BY id ASC LIMIT ?2;"),
        params,
    }
}

/// The query of the last log id `peer_id` acknowledged.
pub fn peer_ack_query(peer_id: &str) -> (r: SqlStatement)
    ensures
        r.sql@ == peer_ack_sql(),
        r.params@.len() == 1,
        r.params@[0] matches SqlValue::Text(t) && t@ == peer_id@,
{
    text_statement("SELECT last_acked_id FROM sync_peer_state WHERE peer_id = ?1;", peer_id)
}

/// The last log id a peer acknowledged: what was stored, or 0 for a peer never heard from.
pub fn peer_last_ack(stored: Option<i64>) -> (r: i64)
    ensures
        r == match stored { Some(id) => id, None => 0 },
{
    match stored {
        Some(id) => id,
        None => 0,
    }
}

/// The statement that records `last_acked_id` as the last log id `peer_id` acknowledged.
pub fn set_peer_ack_statement(peer_id: &str, last_acked_id: i64) -> (r: SqlStatement)
    ensures
        r.sql@ == set_peer_ack_sql(),
        r.params@.len() == 2,
        r.params@[0] matches SqlValue::Text(t) && t@ == peer_id@,
        r.params@[1] == SqlValue::Integer(last_acked_id),
{
    let mut params: Vec<SqlValue> = Vec::new();
    params.push(SqlValue::Text(String::from_str(peer_id)));
    params.push(SqlValue::Integer(last_acked_id));
    SqlStatement {
        sql: String::from_str("INSERT INTO sync_peer_state (peer_id, last_acked_id, updated_at) VALUES (?1, ?2, CAST(strftime('%s','now') AS INTEGER)) ON CONFLICT(peer_id) DO UPDATE SET last_acked_id = excluded.last_acked_id, updated_at = excluded.updated_at;"),
        params,
    }
}

/// The statement that marks the change `change_id` as sent.
pub fn mark_sent_statement(change_id: &str) -> (r: SqlStatement)
    ensures
        r.sql@ == mark_sent_sql(),
        r.params@.len() == 1,
        r.params@[0] matches SqlValue::Text(t) && t@ == change_id@,
{
    text_statement("UPDATE sync_log SET sent = 1 WHERE change_id = ?1;", change_id)
}


impl SyncEngine {
    /// The first step for one change of an incoming batch, once the log was asked whether it
    /// holds the change already (`seen`: what `change_seen_query` found). An invalid change fails
    /// the batch with `InvalidPayload`; a change the log holds is skipped (`Ok(None)`); any other
    /// starts as `begin_apply` says.
    pub fn incoming_step(&self, change: &Change, seen: Option<String>) -> (r: Result<Option<ApplyStep>, SyncError>)
        requires
            forall|k: int| 0 <= k < self.spec_config().tables@.len()
                ==> #[trigger] self.spec_config().tables@[k].columns@.len() < usize::MAX,
        ensures
            !change_is_valid(*change) ==> r matches Err(SyncError::InvalidPayload),
            change_is_valid(*change) && seen is Some ==> r matches Ok(None),
            change_is_valid(*change) && seen is None ==> match r {
                Ok(Some(step)) => first_apply_step(self.spec_config(), *change, Ok(step)),
                Ok(None) => false,
                Err(e) => first_apply_step(self.spec_config(), *change, Err(e)),
            },
    {
        self.validate_change(change)?;
        if seen.is_some() {
            return Ok(None);
        }
        match self.begin_apply(change) {
            Ok(step) => Ok(Some(step)),
            Err(e) => Err(e),
        }
    }
}

} // verus!

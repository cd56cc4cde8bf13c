use vstd::prelude::*;
use vstd::string::StringExecFns;
use crate::engine::{SqlStatement, SqlValue, SqlValueView};
use crate::models::{Feature, Quarter};
use crate::text::{trim, trim_seq, is_blank};

verus! {

/// The row a quarter is stored as: its roadmap, year, quarter number and position.
pub open spec fn quarter_row(roadmap_id: i64, q: Quarter, sort_order: int) -> Seq<SqlValueView> {
    seq![
        SqlValueView::Integer(roadmap_id),
        SqlValueView::Integer(q.year as i64),
        SqlValueView::Integer(q.quarter as i64),
        SqlValueView::Integer(sort_order as i64),
    ]
}

/// The row a feature is stored as: id, quarter, title, description, completion flag, status,
/// color and position.
pub open spec fn feature_row(f: Feature, quarter_id: i64, sort_order: int) -> Seq<SqlValueView> {
    seq![
        SqlValueView::Text(f.id@),
        SqlValueView::Integer(quarter_id),
        SqlValueView::Text(f.title@),
        SqlValueView::Text(f.description@),
        SqlValueView::Integer(completed_flag(f.completed)),
        SqlValueView::Text(f.status@),
        SqlValueView::Text(f.color@),
        SqlValueView::Integer(sort_order as i64),
    ]
}

/// The parameters of a quarter row: roadmap, year, quarter number and position.
pub fn quarter_row_params(roadmap_id: i64, q: &Quarter, sort_order: usize) -> (r: Vec<SqlValue>)
    requires
        sort_order <= i64::MAX,
    ensures
        r@.map_values(|v: SqlValue| v@) == quarter_row(roadmap_id, *q, sort_order as int),
{
    let mut r: Vec<SqlValue> = Vec::new();
    r.push(SqlValue::Integer(roadmap_id));
    r.push(SqlValue::Integer(q.year as i64));
    r.push(SqlValue::Integer(q.quarter as i64));
    r.push(SqlValue::Integer(sort_order as i64));
    assert(r@.map_values(|v: SqlValue| v@) =~= seq![
        SqlValueView::Integer(roadmap_id),
        SqlValueView::Integer(q.year as i64),
        SqlValueView::Integer(q.quarter as i64),
        SqlValueView::Integer(sort_order as i64),
    ]);
    r
}

/// How a feature's completion is stored: 1 or 0.
pub open spec fn completed_flag(completed: bool) -> i64 {
    if completed { 1 } else { 0 }
}

/// The parameters of a feature row: id, quarter, title, description, completion flag, status,
/// color and position.
pub fn feature_row_params(f: &Feature, quarter_id: i64, sort_order: usize) -> (r: Vec<SqlValue>)
    requires
        sort_order <= i64::MAX,
    ensures
        r@.map_values(|v: SqlValue| v@) == feature_row(*f, quarter_id, sort_order as int),
{
    let mut r: Vec<SqlValue> = Vec::new();
    r.push(SqlValue::Text(f.id.clone()));
    r.push(SqlValue::Integer(quarter_id));
    r.push(SqlValue::Text(f.title.clone()));
    r.push(SqlValue::Text(f.description.clone()));
    r.push(SqlValue::Integer(if f.completed { 1 } else { 0 }));
    r.push(SqlValue::Text(f.status.clone()));
    r.push(SqlValue::Text(f.color.clone()));
    r.push(SqlValue::Integer(sort_order as i64));
    assert(r@.map_values(|v: SqlValue| v@) =~= seq![
        SqlValueView::Text(f.id@),
        SqlValueView::Integer(quarter_id),
        SqlValueView::Text(f.title@),
        SqlValueView::Text(f.description@),
        SqlValueView::Integer(completed_flag(f.completed)),
        SqlValueView::Text(f.status@),
        SqlValueView::Text(f.color@),
        SqlValueView::Integer(sort_order as i64),
    ]);
    r
}

/// The feature a row describes; any completion flag but 0 reads as completed.
pub open spec fn row_feature(
    id: String,
    title: String,
    description: String,
    completed: int,
    status: String,
    color: String,
) -> Feature {
    Feature { id, title, description, completed: completed != 0, status, color }
}

/// A feature read back from its row.
pub fn feature_from_row(
    id: String,
    title: String,
    description: String,
    completed: i32,
    status: String,
    color: String,
) -> (f: Feature)
    ensures
        f == row_feature(id, title, description, completed as int, status, color),
{
    Feature { id, title, description, completed: completed != 0, status, color }
}

/// A feature written as a row by `feature_row_params` and read back by `feature_from_row` is
/// the feature itself: its text columns come back as they went in, and its completion flag
/// reads back as the feature's completion.
pub proof fn stored_feature_reads_back(f: Feature)
    ensures
        row_feature(f.id, f.title, f.description, completed_flag(f.completed) as int, f.status, f.color) == f,
        f.completed ==> completed_flag(f.completed) == 1,
        !f.completed ==> completed_flag(f.completed) == 0,
{
}

/// The name of a roadmap in a listing, the first entry with that id.
pub open spec fn listed_name(list: Seq<(i64, String)>, id: i64) -> Option<String>
    decreases list.len(),
{
    if list.len() == 0 {
        None
    } else if list[0].0 == id {
        Some(list[0].1)
    } else {
        listed_name(list.drop_first(), id)
    }
}

/// Finds a roadmap's name in a listing.
pub fn find_roadmap_name(list: &Vec<(i64, String)>, id: i64) -> (r: Option<String>)
    ensures
        r == listed_name(list@, id),
{
    let mut i: usize = 0;
    assert(list@.skip(0) =~= list@);
    while i < list.len()
        invariant
            i <= list@.len(),
            listed_name(list@, id) == listed_name(list@.skip(i as int), id),
        decreases list@.len() - i,
    {
        assert(list@.skip(i as int).drop_first() =~= list@.skip(i + 1));
        assert(list@.skip(i as int)[0] == list@[i as int]);
        if list[i].0 == id {
            return Some(list[i].1.clone());
        }
        i = i + 1;
    }
    None
}

/// The name a roadmap is saved under for the first time: the entered name trimmed, or
/// `default` where none was entered.
pub fn roadmap_name_for_save(entered: &str) -> (r: String)
    ensures
        trim_seq(entered@).len() == 0 ==> r@ == "default"@,
        trim_seq(entered@).len() != 0 ==> r@ == trim_seq(entered@),
{
    if is_blank(entered) {
        String::from_str("default")
    } else {
        String::from_str(trim(entered))
    }
}

/// How the database is opened: with the key file, unencrypted, or with the keychain's key.
#[derive(Debug, PartialEq, Eq, Structural)]
pub enum OpenMode {
    KeyFile,
    Plain,
    Keychain,
}

impl OpenMode {
    /// Whether the mode opens an encrypted database.
    pub fn encrypted(&self) -> (r: bool)
        ensures
            r == !(*self is Plain),
    {
        !matches!(self, OpenMode::Plain)
    }

    /// Whether the mode takes the key from the keychain.
    pub fn uses_keychain(&self) -> (r: bool)
        ensures
            r == (*self is Keychain),
    {
        matches!(self, OpenMode::Keychain)
    }
}

/// The first way to open the database at start: with the key file where there is one,
/// unencrypted otherwise.
pub fn first_open_mode(key_file_exists: bool) -> (r: OpenMode)
    ensures
        key_file_exists ==> r == OpenMode::KeyFile,
        !key_file_exists ==> r == OpenMode::Plain,
{
    if key_file_exists { OpenMode::KeyFile } else { OpenMode::Plain }
}

/// What follows a failed open at start: a failure with the key file is final and reported as
/// it is; an unencrypted failure is followed by the keychain; a keychain failure ends the start
/// with a message.
pub fn after_failed_open(mode: OpenMode, error: String) -> (r: Result<OpenMode, String>)
    ensures
        mode == OpenMode::KeyFile ==> r == Err::<OpenMode, String>(error),
        mode == OpenMode::Plain ==> r == Ok::<OpenMode, String>(OpenMode::Keychain),
        mode == OpenMode::Keychain ==> (r matches Err(m)
            && m@ == "Could not open database: not unencrypted, no key file, no keychain entry"@),
{
    match mode {
        OpenMode::KeyFile => Err(error),
        OpenMode::Plain => Ok(OpenMode::Keychain),
        OpenMode::Keychain => Err(String::from_str("Could not open database: not unencrypted, no key file, no keychain entry")),
    }
}


/// The tables the roadmaps are stored in.
pub const DB_SCHEMA: &'static str = "
CREATE TABLE IF NOT EXISTS roadmap (
    id INTEGER PRIMARY KEY AUTOINCREMENT,
    name TEXT NOT NULL,
    created_at TEXT NOT NULL,
    updated_at TEXT NOT NULL
);
CREATE TABLE IF NOT EXISTS quarter (
    id INTEGER PRIMARY KEY AUTOINCREMENT,
    roadmap_id INTEGER NOT NULL REFERENCES roadmap(id) ON DELETE CASCADE,
    year INTEGER NOT NULL,
    quarter INTEGER NOT NULL,
    sort_order INTEGER NOT NULL
);
CREATE TABLE IF NOT EXISTS feature (
    id TEXT PRIMARY KEY,
    quarter_id INTEGER NOT NULL REFERENCES quarter(id) ON DELETE CASCADE,
    title TEXT NOT NULL,
    description TEXT NOT NULL,
    completed INTEGER NOT NULL DEFAULT 0,
    status TEXT NOT NULL DEFAULT 'Planned',
    color TEXT NOT NULL DEFAULT '#FF9800',
    sort_order INTEGER NOT NULL
);
";

/// The status line after the database was rewritten with encryption switched on or off.
pub fn encryption_status(encrypted: bool) -> (r: String)
    ensures
        encrypted ==> r@ == "Encryption enabled"@,
        !encrypted ==> r@ == "Encryption disabled"@,
{
    if encrypted {
        String::from_str("Encryption enabled")
    } else {
        String::from_str("Encryption disabled")
    }
}


/// The pragma that unlocks the database with a key: the key stands in double quotes as it is.
pub open spec fn roadmap_key_pragma(key: Seq<char>) -> Seq<char> {
    "PRAGMA key = \""@ + key + "\";"@
}

/// The batches run on a freshly opened roadmap database, in order: foreign keys on; with a
/// key, the key and the cipher; then the schema.
pub open spec fn setup_batches(key: Option<Seq<char>>) -> Seq<Seq<char>> {
    match key {
        None => seq!["PRAGMA foreign_keys = ON;"@, DB_SCHEMA@],
        Some(k) => seq![
            "PRAGMA foreign_keys = ON;"@,
            roadmap_key_pragma(k),
            "PRAGMA cipher = 'aes-256-cbc';"@,
            DB_SCHEMA@,
        ],
    }
}

/// The batches that set up a freshly opened roadmap database, unlocked with `key` where given.
pub fn connection_setup(key: Option<&str>) -> (r: Vec<String>)
    ensures
        r.deep_view() == setup_batches(match key { Some(k) => Some(k@), None => None }),
{
    let mut r: Vec<String> = Vec::new();
    r.push(String::from_str("PRAGMA foreign_keys = ON;"));
    if let Some(k) = key {
        let mut p = String::from_str("PRAGMA key = \"");
        p.append(k);
        p.append("\";");
        r.push(p);
        r.push(String::from_str("PRAGMA cipher = 'aes-256-cbc';"));
    }
    r.push(String::from_str(DB_SCHEMA));
    assert(r.deep_view() =~= setup_batches(match key { Some(k) => Some(k@), None => None }));
    r
}


/// A feature's columns as text.
pub struct FeatureColumns {
    pub id: Seq<char>,
    pub title: Seq<char>,
    pub description: Seq<char>,
    pub completed: bool,
    pub status: Seq<char>,
    pub color: Seq<char>,
}

/// The columns of a feature.
pub open spec fn columns_of(f: Feature) -> FeatureColumns {
    FeatureColumns {
        id: f.id@,
        title: f.title@,
        description: f.description@,
        completed: f.completed,
        status: f.status@,
        color: f.color@,
    }
}

/// What loading reads from a feature row: the text columns as they are, and the flag as
/// completed where it is not 0 (as `feature_from_row` reads it).
pub open spec fn read_feature_row(row: Seq<SqlValueView>) -> Option<FeatureColumns> {
    if row.len() == 8 {
        match (row[0], row[2], row[3], row[4], row[5], row[6]) {
            (
                SqlValueView::Text(id),
                SqlValueView::Text(title),
                SqlValueView::Text(description),
                SqlValueView::Integer(flag),
                SqlValueView::Text(status),
                SqlValueView::Text(color),
            ) => Some(FeatureColumns { id, title, description, completed: flag != 0, status, color }),
            _ => None,
        }
    } else {
        None
    }
}

/// What loading reads from a quarter row: its year and quarter number, each read as a `u32`.
pub open spec fn read_quarter_row(row: Seq<SqlValueView>) -> Option<(u32, u32)> {
    if row.len() == 4 {
        match (row[1], row[2]) {
            (SqlValueView::Integer(y), SqlValueView::Integer(q)) =>
                if 0 <= y <= u32::MAX && 0 <= q <= u32::MAX { Some((y as u32, q as u32)) } else { None },
            _ => None,
        }
    } else {
        None
    }
}

/// A roadmap saved as rows reads back as itself. The quarter saved at position `i` is read back
/// as its year and number, and its row carries `i`, so reading the rows in order of position gives
/// the quarters in the order saved. Its feature saved at position `j` is read back with every
/// column as it was, its row names the quarter's row, and carries `j`.
pub proof fn saved_roadmap_reads_back(roadmap_id: i64, qs: Seq<Quarter>, quarter_ids: Seq<i64>)
    requires
        quarter_ids.len() == qs.len(),
        qs.len() <= i64::MAX,
        forall|i: int| 0 <= i < qs.len() ==> #[trigger] qs[i].features@.len() <= i64::MAX,
    ensures
        forall|i: int| 0 <= i < qs.len() ==> {
            &&& read_quarter_row(#[trigger] quarter_row(roadmap_id, qs[i], i)) == Some((qs[i].year, qs[i].quarter))
            &&& quarter_row(roadmap_id, qs[i], i)[3] == SqlValueView::Integer(i as i64)
        },
        forall|i: int, j: int| 0 <= i < qs.len() && 0 <= j < qs[i].features@.len() ==> {
            let row = #[trigger] feature_row(qs[i].features@[j], quarter_ids[i], j);
            &&& read_feature_row(row) == Some(columns_of(qs[i].features@[j]))
            &&& row[1] == SqlValueView::Integer(quarter_ids[i])
            &&& row[7] == SqlValueView::Integer(j as i64)
        },
{
}

/// The statement that stores a quarter.
pub open spec fn quarter_insert_sql() -> Seq<char> {
    "INSERT INTO quarter (roadmap_id, year, quarter, sort_order) VALUES (?1, ?2, ?3, ?4)"@
}

/// The statement that stores a feature.
pub open spec fn feature_insert_sql() -> Seq<char> {
    "INSERT INTO feature (id, quarter_id, title, description, completed, status, color, sort_order) VALUES (?1, ?2, ?3, ?4, ?5, ?6, ?7, ?8)"@
}

/// Stores quarter `q` of a roadmap at position `sort_order`.
pub fn quarter_insert(roadmap_id: i64, q: &Quarter, sort_order: usize) -> (r: SqlStatement)
    requires
        sort_order <= i64::MAX,
    ensures
        r.sql@ == quarter_insert_sql(),
        r.params@.map_values(|v: SqlValue| v@) == quarter_row(roadmap_id, *q, sort_order as int),
{
    SqlStatement {
        sql: String::from_str("INSERT INTO quarter (roadmap_id, year, quarter, sort_order) VALUES (?1, ?2, ?3, ?4)"),
        params: quarter_row_params(roadmap_id, q, sort_order),
    }
}

/// Stores feature `f` of the quarter row `quarter_id` at position `sort_order`.
pub fn feature_insert(f: &Feature, quarter_id: i64, sort_order: usize) -> (r: SqlStatement)
    requires
        sort_order <= i64::MAX,
    ensures
        r.sql@ == feature_insert_sql(),
        r.params@.map_values(|v: SqlValue| v@) == feature_row(*f, quarter_id, sort_order as int),
{
    SqlStatement {
        sql: String::from_str("INSERT INTO feature (id, quarter_id, title, description, completed, status, color, sort_order) VALUES (?1, ?2, ?3, ?4, ?5, ?6, ?7, ?8)"),
        params: feature_row_params(f, quarter_id, sort_order),
    }
}

} // verus!

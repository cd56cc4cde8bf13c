use vstd::prelude::*;
use vstd::string::StringExecFns;

verus! {

/// The kind of change a log entry records.
#[derive(Debug, PartialEq, Eq, Structural)]
pub enum ChangeOp {
    Insert,
    Update,
    Delete,
}

impl Clone for ChangeOp {
    fn clone(&self) -> (r: Self)
        ensures
            r == *self,
    {
        match self {
            ChangeOp::Insert => ChangeOp::Insert,
            ChangeOp::Update => ChangeOp::Update,
            ChangeOp::Delete => ChangeOp::Delete,
        }
    }
}

/// A scalar of a change's JSON payload, held as the values the engine reads from it.
/// `Float` carries the IEEE-754 bits of a number that is not an `i64`;
/// `Nested` carries an array or object in its JSON text.
#[derive(Debug)]
pub enum PayloadValue {
    Null,
    Bool(bool),
    Integer(i64),
    Float(u64),
    Text(String),
    Nested(String),
}

impl Clone for PayloadValue {
    fn clone(&self) -> (r: Self)
        ensures
            r == *self,
    {
        match self {
            PayloadValue::Null => PayloadValue::Null,
            PayloadValue::Bool(b) => PayloadValue::Bool(*b),
            PayloadValue::Integer(i) => PayloadValue::Integer(*i),
            PayloadValue::Float(f) => PayloadValue::Float(*f),
            PayloadValue::Text(s) => PayloadValue::Text(s.clone()),
            PayloadValue::Nested(s) => PayloadValue::Nested(s.clone()),
        }
    }
}

/// One member of a JSON object payload.
#[derive(Debug)]
pub struct PayloadField {
    pub key: String,
    pub value: PayloadValue,
}

impl Clone for PayloadField {
    fn clone(&self) -> (r: Self)
        ensures
            r == *self,
    {
        PayloadField { key: self.key.clone(), value: self.value.clone() }
    }
}

/// The JSON payload of a change: an object of column values, or any other JSON value.
#[derive(Debug)]
pub enum Payload {
    Object(Vec<PayloadField>),
    Other(PayloadValue),
}

/// A payload as the engine reads it: the members of an object, or another JSON value.
pub enum PayloadView {
    Object(Seq<PayloadField>),
    Other(PayloadValue),
}

impl View for Payload {
    type V = PayloadView;

    open spec fn view(&self) -> PayloadView {
        match self {
            Payload::Object(fields) => PayloadView::Object(fields@),
            Payload::Other(v) => PayloadView::Other(*v),
        }
    }
}

/// A row change as the sync log records it and peers exchange it.
#[derive(Debug)]
pub struct Change {
    pub change_id: String,
    pub timestamp_ms: i64,
    pub origin_node: String,
    pub entity: String,
    pub entity_id: String,
    pub op: ChangeOp,
    pub payload: Payload,
    pub hlc: String,
}

/// The value of the first member named `key`, as a JSON object lookup finds it.
pub open spec fn field_lookup(fields: Seq<PayloadField>, key: Seq<char>) -> Option<PayloadValue>
    decreases fields.len(),
{
    if fields.len() == 0 {
        None
    } else if fields[0].key@ == key {
        Some(fields[0].value)
    } else {
        field_lookup(fields.drop_first(), key)
    }
}

/// Looks a member up by name.
pub fn find_field(fields: &Vec<PayloadField>, key: &str) -> (r: Option<PayloadValue>)
    ensures
        r == field_lookup(fields@, key@),
{
    let mut i: usize = 0;
    assert(fields@.skip(0) =~= fields@);
    while i < fields.len()
        invariant
            i <= fields@.len(),
            field_lookup(fields@, key@) == field_lookup(fields@.skip(i as int), key@),
        decreases fields@.len() - i,
    {
        assert(fields@.skip(i as int).drop_first() =~= fields@.skip(i + 1));
        assert(fields@.skip(i as int)[0] == fields@[i as int]);
        if crate::text::str_eq(fields[i].key.as_str(), key) {
            return Some(fields[i].value.clone());
        }
        i = i + 1;
    }
    None
}

/// The log's name for an operation.
pub open spec fn op_name(op: ChangeOp) -> Seq<char> {
    match op {
        ChangeOp::Insert => "insert"@,
        ChangeOp::Update => "update"@,
        ChangeOp::Delete => "delete"@,
    }
}

/// The operation a log's name stands for; a name the log does not use reads as an update.
pub open spec fn op_of_name(s: Seq<char>) -> ChangeOp {
    if s == "insert"@ {
        ChangeOp::Insert
    } else if s == "delete"@ {
        ChangeOp::Delete
    } else {
        ChangeOp::Update
    }
}

/// The name under which the log stores an operation.
pub fn op_to_str(op: ChangeOp) -> (s: &'static str)
    ensures
        s@ == op_name(op),
{
    match op {
        ChangeOp::Insert => "insert",
        ChangeOp::Update => "update",
        ChangeOp::Delete => "delete",
    }
}

/// Reads an operation back from its log name.
pub fn op_from_str(s: &str) -> (op: ChangeOp)
    ensures
        op == op_of_name(s@),
{
    if crate::text::str_eq(s, "insert") {
        ChangeOp::Insert
    } else if crate::text::str_eq(s, "delete") {
        ChangeOp::Delete
    } else {
        ChangeOp::Update
    }
}

/// Reading back the name that an operation is stored under gives that operation.
pub proof fn op_name_round_trip(op: ChangeOp)
    ensures
        op_of_name(op_name(op)) == op,
{
    reveal_strlit("insert");
    reveal_strlit("update");
    reveal_strlit("delete");
    if op == ChangeOp::Update {
        assert("update"@ != "insert"@) by { assert("update"@[0] != "insert"@[0]); }
        assert("update"@ != "delete"@) by { assert("update"@[0] != "delete"@[0]); }
    }
    if op == ChangeOp::Delete {
        assert("delete"@ != "insert"@) by { assert("delete"@[0] != "insert"@[0]); }
    }
}

} // verus!

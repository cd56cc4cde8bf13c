use vstd::prelude::*;
use vstd::string::StringExecFns;
use vstd::utf8::encode_utf8;
use crate::change::Change;

verus! {

/// A message of the sync protocol.
#[derive(Debug)]
pub enum SyncMessage {
    Hello {
        node_id: String,
        schema_version: i64,
        last_log_id: i64,
        token: String,
        owner_token: Option<String>,
        client_kind: Option<String>,
    },
    AuthOk {
        session_id: String,
        session_key: String,
        after_log_id: i64,
        server_node_id: String,
        is_owner: bool,
        user_id: i64,
        user_role: String,
        is_ai: bool,
    },
    NodeIdReq,
    NodeIdOk { node_id: String },
    SnapshotReq { reason: String },
    SnapshotData { data_b64: String, hash: String, nonce_b64: String },
    GenerateShareToken { roadmap_id: i64 },
    ShareToken { token: String, roadmap_id: i64 },
    ShareSnapshotReq { token: String },
    ShareSnapshotData { data_b64: String, hash: String },
    MigrationStartReq {
        owner_token: String,
        old_server_url: String,
        new_server_url: String,
        org_id: i64,
        target_server_identity: String,
    },
    MigrationStartOk { org_id: i64 },
    MigrationSnapshotReq {
        owner_token: String,
        org_id: i64,
        target_server_url: String,
        target_server_identity: String,
    },
    MigrationSnapshotData { data_b64: String, source_logical_hash: String },
    MigrationFinalizeReq {
        owner_token: String,
        org_id: i64,
        target_logical_hash: String,
        target_server_url: String,
        target_server_identity: String,
    },
    MigrationFinalizeOk { org_id: i64, delete_after_unix: i64 },
    Sealed { nonce_b64: String, data_b64: String },
    Changeset { changes: Vec<Change>, last_log_id: i64 },
    RotateToken { token: String, user_id: Option<i64> },
    Ack { last_log_id: i64 },
    Resume { after_log_id: i64 },
    Ping,
    Pong,
    Error { message: String },
}

/// A message signed for a session: the nonce orders the session's messages.
#[derive(Debug)]
pub struct SignedEnvelope {
    pub session_id: String,
    pub nonce: u64,
    pub sig: String,
    pub body: SyncMessage,
}

/// A connection that carries sync messages.
pub trait Transport {
    fn is_open(&self) -> bool;
}

/// What reading the next text frame does with one item of the stream.
#[derive(Debug)]
pub enum FrameOutcome {
    /// The item was an error or not text: read on.
    ReadOn,
    /// Stop reading and return this.
    Return(Result<Option<String>, String>),
}

/// The decision of reading the next text message of at most `max_bytes` bytes: `None` is the
/// end of the stream, `Some(None)` an item that failed or carries no text, `Some(Some(text))`
/// a text. The end of the stream returns `Ok(None)`; a text longer than the limit returns
/// `Err("message too large")`; any other text returns it.
pub fn next_text_decision(item: Option<Option<String>>, max_bytes: usize) -> (r: FrameOutcome)
    ensures
        item is None ==> (r matches FrameOutcome::Return(Ok(x)) && x is None),
        item == Some(None::<String>) ==> r is ReadOn,
        item is Some && item->0 is Some ==> (if encode_utf8(item->0->0@).len() as usize > max_bytes {
            r matches FrameOutcome::Return(Err(msg)) && msg@ == "message too large"@
        } else {
            r matches FrameOutcome::Return(Ok(Some(t))) && t == item->0->0
        }),
{
    if item.is_none() {
        return FrameOutcome::Return(Ok(None));
    }
    let inner = item.unwrap();
    if inner.is_none() {
        return FrameOutcome::ReadOn;
    }
    let text = inner.unwrap();
    if text.as_str().len() > max_bytes {
        FrameOutcome::Return(Err(String::from_str("message too large")))
    } else {
        FrameOutcome::Return(Ok(Some(text)))
    }
}

} // verus!

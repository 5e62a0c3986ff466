//! The messages of the protocol: one request and its answers.

use vstd::prelude::*;

use crate::error::ProtocolError;
use crate::record::{AnyOperationRecord, TransferDirection};

verus! {

pub const PROTOCOL_VERSION: u32 = 1;

pub type RequestId = String;

pub type OperationId = String;

/// A request. Its id is unique among all requests that the workspace ever sees.
#[derive(Debug)]
pub struct Request {
    pub request_id: RequestId,
    pub body: RequestBody,
}

#[derive(Debug)]
#[allow(inconsistent_fields)]
pub enum RequestBody {
    List { path: String, offset: Option<usize>, limit: Option<usize> },
    Stat { path: String },
    Read { path: String, offset: Option<u64>, limit: Option<u64> },
    Write { path: String, content: String, base_hash: Option<String> },
    Patch { path: String, base_hash: String, patch: String },
    Exec {
        argv: Vec<String>,
        cwd: Option<String>,
        profile: Option<String>,
        timeout_ms: Option<u64>,
    },
    Delete { path: String },
    Undo { operation_id: OperationId },
    History { limit: Option<usize> },
    OperationGet { operation_id: OperationId },
    RequestStatus { target: RequestId },
    /// Prune stored history: keep only the `keep` most recent operations and the
    /// request entries they reference. `None` uses the server's configured
    /// history limit.
    Gc { keep: Option<usize> },
    UploadPrepare { path: String, overwrite: bool },
    UploadCommit { transfer_id: String, size: u64, sha256: String, duration_ms: u64 },
    UploadAbort { transfer_id: String },
    DownloadRecord { path: String, size: u64, sha256: String, duration_ms: u64 },
}

/// What the server sends: one terminal answer per request. The message for the
/// output of a running command is one that a client takes before it.
#[derive(Debug)]
pub enum ServerMessage {
    Result { request_id: RequestId, result: ResultBody },
    Error { request_id: RequestId, error: ProtocolError },
    ExecEvent(ExecEvent),
}

impl ServerMessage {
    /// The id of the request that the message belongs to.
    pub open spec fn spec_request_id(self) -> Seq<char> {
        match self {
            ServerMessage::Result { request_id, .. } => request_id@,
            ServerMessage::Error { request_id, .. } => request_id@,
            ServerMessage::ExecEvent(e) => e.request_id@,
        }
    }

    /// Whether the message ends its request.
    pub open spec fn spec_is_terminal(self) -> bool {
        !(self is ExecEvent)
    }

    /// Whether the message refuses request `id` with `error`.
    pub open spec fn refuses(self, id: Seq<char>, error: ProtocolError) -> bool {
        self matches ServerMessage::Error { request_id, error: e } && request_id@ == id && e
            == error
    }

    /// Whether the message answers request `id` with `body`.
    pub open spec fn answers(self, id: Seq<char>, body: ResultBody) -> bool {
        self matches ServerMessage::Result { request_id, result } && request_id@ == id && result
            == body
    }

    pub fn request_id(&self) -> (id: &String)
        ensures
            id@ == self.spec_request_id(),
    {
        match self {
            ServerMessage::Result { request_id, .. } => request_id,
            ServerMessage::Error { request_id, .. } => request_id,
            ServerMessage::ExecEvent(e) => &e.request_id,
        }
    }

    pub fn is_terminal(&self) -> (yes: bool)
        ensures
            yes == self.spec_is_terminal(),
    {
        match self {
            ServerMessage::Result { .. } => true,
            ServerMessage::Error { .. } => true,
            ServerMessage::ExecEvent(_) => false,
        }
    }
}

#[derive(Debug)]
pub enum ResultBody {
    List(ListResult),
    Stat { stat: FileEntry },
    Read(ReadResult),
    WriteOrPatch(WriteOrPatchResult),
    Exec(ExecResult),
    Undo(UndoResult),
    History { operations: Vec<AnyOperationRecord> },
    Operation(OperationDetails),
    RequestStatus(RequestStatusResult),
    Gc(GcResult),
    UploadPrepare(UploadPrepareResult),
    Transfer(TransferResult),
    UploadAbort { transfer_id: String },
}

/// One page of a directory, and where the next one starts.
#[derive(Debug)]
pub struct ListResult {
    pub entries: Vec<ListEntry>,
    pub next_offset: Option<usize>,
}

#[derive(Debug, PartialEq, Eq)]
pub struct ListEntry {
    pub name: String,
    pub kind: ListKind,
    pub size: Option<u64>,
}

impl Clone for ListEntry {
    fn clone(&self) -> (e: Self)
        ensures
            e == *self,
    {
        ListEntry { name: self.name.clone(), kind: self.kind, size: self.size }
    }
}

#[derive(Debug, Clone, Copy, PartialEq, Eq, Structural)]
pub enum ListKind {
    File,
    Dir,
    Symlink,
}

#[derive(Debug, PartialEq, Eq)]
pub struct FileEntry {
    pub path: String,
    pub kind: ListKind,
    pub size: u64,
    pub hash: Option<String>,
    pub mode: Option<FileMode>,
}

#[derive(Debug, Clone, Copy, PartialEq, Eq, Structural)]
pub struct FileMode {
    pub readable: bool,
    pub writable: bool,
    pub executable: bool,
}

/// One page of a file, with the hash of the whole file.
#[derive(Debug, PartialEq, Eq)]
pub struct ReadResult {
    pub content: String,
    pub hash: Option<String>,
    pub truncated: bool,
    pub next_offset: Option<u64>,
}

#[derive(Debug, PartialEq, Eq)]
pub struct WriteOrPatchResult {
    pub operation_id: OperationId,
    pub old_hash: Option<String>,
    pub new_hash: String,
}

/// A piece of the output of a running command.
#[derive(Debug, PartialEq, Eq)]
pub struct ExecEvent {
    pub request_id: RequestId,
    pub event: ExecEventKind,
}

#[derive(Debug, PartialEq, Eq)]
pub enum ExecEventKind {
    Stdout { data: String },
    Stderr { data: String },
    Exit { exit_code: i32, operation_id: OperationId },
}

/// How a command ended.
#[derive(Debug, Clone, Copy, PartialEq, Eq, Structural)]
pub enum ExecTermination {
    Exited { code: i32 },
    TimedOut,
}

/// The bounded preview of one output stream: its start, its end, and how much
/// of it there was.
#[derive(Debug, PartialEq, Eq)]
pub struct ExecOutput {
    pub prefix: String,
    pub suffix: String,
    pub total_bytes: u64,
    pub omitted_bytes: u64,
}

impl Default for ExecOutput {
    fn default() -> (o: Self)
        ensures
            o.prefix@.len() == 0,
            o.suffix@.len() == 0,
            o.total_bytes == 0,
            o.omitted_bytes == 0,
    {
        ExecOutput {
            prefix: String::new(),
            suffix: String::new(),
            total_bytes: 0,
            omitted_bytes: 0,
        }
    }
}

#[derive(Debug, PartialEq, Eq)]
pub struct ExecResult {
    pub operation_id: OperationId,
    pub termination: ExecTermination,
    pub duration_ms: u64,
    pub stdout: ExecOutput,
    pub stderr: ExecOutput,
}

#[derive(Debug, PartialEq, Eq)]
pub struct UndoResult {
    pub operation_id: OperationId,
    pub restored_hash: Option<String>,
    pub new_hash: String,
}

#[derive(Debug, Clone, Copy, PartialEq, Eq, Structural)]
pub struct GcResult {
    pub removed_operations: usize,
    pub removed_requests: usize,
    pub retained_operations: usize,
}

#[derive(Debug)]
pub struct OperationDetails {
    pub record: AnyOperationRecord,
}

#[derive(Debug)]
pub struct RequestStatusResult {
    pub target: RequestId,
    pub status: RequestStatus,
    pub error: Option<ProtocolError>,
}

#[derive(Debug, Clone, Copy, PartialEq, Eq, Structural)]
pub enum RequestStatus {
    Unknown,
    InProgress,
    Done,
    Error,
}

/// Where the client sends the content of an upload.
#[derive(Debug, PartialEq, Eq)]
pub struct UploadPrepareResult {
    pub transfer_id: String,
    pub staging_path: String,
}

#[derive(Debug, PartialEq, Eq)]
pub struct TransferResult {
    pub operation_id: OperationId,
    pub direction: TransferDirection,
    pub path: String,
    pub size: u64,
    pub sha256: String,
    pub duration_ms: u64,
}

/// A result and an error end their request and name it; output names its request and
/// does not end it.
pub proof fn messages_name_their_request(m: ServerMessage, id: Seq<char>, body: ResultBody)
    ensures
        m.spec_is_terminal() <==> m is Result || m is Error,
        m matches ServerMessage::Result { request_id, result } ==> m.spec_request_id()
            == request_id@ && (m.answers(id, body) <==> request_id@ == id && result == body),
        m matches ServerMessage::Error { request_id, .. } ==> m.spec_request_id() == request_id@,
        m matches ServerMessage::ExecEvent(e) ==> m.spec_request_id() == e.request_id@,
        m.answers(id, body) ==> m is Result,
        forall|e: ProtocolError| #[trigger]
            m.refuses(id, e) <==> (m matches ServerMessage::Error { request_id, error }
                && request_id@ == id && error == e),
{
}

}

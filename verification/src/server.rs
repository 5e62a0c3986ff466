//! The server: how a request is admitted, what is decided of it, and what it is
//! answered.
//!
//! A request goes through the same steps whatever it asks for. It is admitted or
//! answered from memory, entered as in progress, given what it needs to know of
//! the file system, decided, carried out, and finished. The steps that touch the
//! outside stand between these functions and hand in what came of them.

use vstd::prelude::*;

use crate::config::ServerConfig;
use crate::error::{ErrorCode, ProtocolError};
use crate::exec;
use crate::exec::{ExecOutcome, ExecPlan, WorkingDir};
use crate::fs_ops;
use crate::fs_ops::{Content, Directory, Effect, Lookup, Mutation, NodeMeta};
use crate::messages::{
    ExecOutput, ExecResult, GcResult, OperationDetails, Request,
    RequestBody, ResultBody, ServerMessage,
};
use crate::record::{
    AnyOperationRecord, ExecDisposition, ExecOperationRecord, FsOperationRecord, OperationKind,
    PreparedRecord,
};
use crate::store;
use crate::store::{OperationStore, PruneStats, RequestEntry, StoredResult};
use crate::text;
use crate::transfer;
use crate::transfer::{
    Install, PendingUpload, StagingName, StagingSeen, UploadPlace, UploadRegistry,
};
use crate::undo;
use crate::workspace::Workspace;

verus! {

/// How many operations a history request gets that asks for none.
pub const HISTORY_DEFAULT_LIMIT: usize = 50;

/// The most operations that a history request can ask for.
pub const HISTORY_MAX_LIMIT: usize = 100;

/// How to start a server.
#[derive(Debug)]
pub struct ServerOptions {
    pub root: String,
    pub log_dir: String,
    pub config_path: Option<String>,
    /// Keep only this many recent operations; older ones are pruned at startup
    /// and on `gc`. `None` disables automatic pruning.
    pub history_limit: Option<usize>,
}

/// The limit that a number given for it stands for: zero is no limit.
pub fn history_limit_from(n: usize) -> (out: Option<usize>)
    ensures
        out == (if n > 0 {
            Some(n)
        } else {
            None
        }),
{
    if n > 0 {
        Some(n)
    } else {
        None
    }
}

pub struct Server {
    pub workspace: Workspace,
    pub store: OperationStore,
    pub config: ServerConfig,
    pub uploads: UploadRegistry,
    pub history_limit: Option<usize>,
}

/// The answer to a line that is no request.
pub fn parse_failed(cause: &str) -> (m: ServerMessage)
    ensures
        m matches ServerMessage::Error { request_id, error } && request_id@ == "(parse-error)"@
            && error.says(ErrorCode::InvalidRequest, "invalid request line: "@ + cause@),
{
    let message = text::concat("invalid request line: ", cause);
    ServerMessage::Error {
        request_id: "(parse-error)".to_owned(),
        error: ProtocolError::new(ErrorCode::InvalidRequest, message.as_str()),
    }
}

/// The name of what a request asks for.
pub open spec fn op_kind(body: RequestBody) -> Seq<char> {
    match body {
        RequestBody::List { .. } => "list"@,
        RequestBody::Stat { .. } => "stat"@,
        RequestBody::Read { .. } => "read"@,
        RequestBody::Write { .. } => "write"@,
        RequestBody::Patch { .. } => "patch"@,
        RequestBody::Exec { .. } => "exec"@,
        RequestBody::Delete { .. } => "delete"@,
        RequestBody::Undo { .. } => "undo"@,
        RequestBody::History { .. } => "history"@,
        RequestBody::OperationGet { .. } => "operation_get"@,
        RequestBody::RequestStatus { .. } => "request_status"@,
        RequestBody::Gc { .. } => "gc"@,
        RequestBody::UploadPrepare { .. } => "upload_prepare"@,
        RequestBody::UploadCommit { .. } => "upload_commit"@,
        RequestBody::UploadAbort { .. } => "upload_abort"@,
        RequestBody::DownloadRecord { .. } => "download_record"@,
    }
}

/// The name of what a request asks for.
pub fn op_kind_str(body: &RequestBody) -> (out: &'static str)
    ensures
        out@ == op_kind(*body),
{
    match body {
        RequestBody::List { .. } => "list",
        RequestBody::Stat { .. } => "stat",
        RequestBody::Read { .. } => "read",
        RequestBody::Write { .. } => "write",
        RequestBody::Patch { .. } => "patch",
        RequestBody::Exec { .. } => "exec",
        RequestBody::Delete { .. } => "delete",
        RequestBody::Undo { .. } => "undo",
        RequestBody::History { .. } => "history",
        RequestBody::OperationGet { .. } => "operation_get",
        RequestBody::RequestStatus { .. } => "request_status",
        RequestBody::Gc { .. } => "gc",
        RequestBody::UploadPrepare { .. } => "upload_prepare",
        RequestBody::UploadCommit { .. } => "upload_commit",
        RequestBody::UploadAbort { .. } => "upload_abort",
        RequestBody::DownloadRecord { .. } => "download_record",
    }
}

/// Whether a request is to be carried out or is answered already.
pub enum Admission<'a> {
    /// The request is new.
    New,
    /// The request was carried out; this is what it was answered.
    Stored(&'a ServerMessage),
    /// The request was refused, or is being carried out; this is its answer.
    Fresh(ServerMessage),
}

/// What becomes of a request with the id `id`.
pub open spec fn admitted(out: Admission<'_>, requests: Seq<RequestEntry>, id: Seq<char>) -> bool {
    match store::entry_of(requests, id) {
        None => out is New,
        Some(entry) => match entry.result {
            Some(StoredResult::Done(m)) => out matches Admission::Stored(x) && *x == m,
            Some(StoredResult::Error(e)) => out matches Admission::Fresh(m) && m.refuses(id, e),
            None => out matches Admission::Fresh(ServerMessage::Error { request_id, error })
                && request_id@ == id && error.says(
                ErrorCode::InvalidRequest,
                "request already in progress"@,
            ),
        },
    }
}

/// What has to be known of the outside to decide a request.
#[derive(Debug, PartialEq, Eq)]
#[allow(inconsistent_fields)]
pub enum Need {
    Nothing,
    Directory { path: String },
    Node { path: String },
    Content { path: String },
    /// The bytes of a file.
    File { path: String },
    /// The directory of a command; the root of the workspace without a path.
    WorkingDir { path: Option<String> },
    /// The bytes of a file, and those that were kept of it for an operation.
    Undone { path: String, operation_id: String },
    UploadPlace { path: String },
    Staging { staging: String },
    /// Whether a path lies in the workspace.
    Place { path: String },
}

/// What was seen of the outside.
pub enum Observed {
    Nothing,
    Directory(Result<Lookup<Directory>, ProtocolError>),
    Node(Result<Lookup<NodeMeta>, ProtocolError>),
    Content(Result<Lookup<Content>, ProtocolError>),
    File { is_dir: bool, current: Result<Option<Vec<u8>>, ProtocolError> },
    WorkingDir(Result<WorkingDir, ProtocolError>),
    Undone { current: Result<Option<Vec<u8>>, ProtocolError>, kept: Option<Vec<u8>> },
    UploadPlace(Result<UploadPlace, ProtocolError>),
    Staging(StagingSeen),
    Place(Result<(), ProtocolError>),
}

/// What is decided of a request.
pub enum Decision {
    /// It is answered.
    Answer(Result<ResultBody, ProtocolError>),
    /// A file is to be changed, once that is announced.
    Mutate(Planned),
    /// A command is to be run under an operation id.
    Run { operation_id: String, plan: ExecPlan },
    /// A command is refused, under an operation id of its own.
    Reject { operation_id: String, error: ProtocolError },
    /// A staging file is to be made.
    Stage(StagingName),
    /// A staging file is to be put in place.
    Install { install: Install, upload: PendingUpload },
    /// A staging file is to be removed.
    Discard(PendingUpload),
    /// A download is to be recorded.
    Record,
}

/// A mutation that was granted and is not announced yet. What it puts in place is
/// not handed out.
pub struct Planned {
    mutation: Mutation,
}

impl Planned {
    /// The mutation.
    pub closed spec fn mutation(&self) -> Mutation {
        self.mutation
    }

    /// The path of the file that is to be changed.
    pub fn path(&self) -> (path: &str)
        ensures
            path@ == self.mutation().path@,
    {
        self.mutation.path.as_str()
    }
}

/// A mutation that has an operation id, and the line that announces it.
pub struct Preparation {
    record: PreparedRecord,
    mutation: Mutation,
}

impl Preparation {
    /// The line that announces the mutation.
    pub closed spec fn record(&self) -> PreparedRecord {
        self.record
    }

    /// The mutation.
    pub closed spec fn mutation(&self) -> Mutation {
        self.mutation
    }

    /// The line announces the mutation.
    pub open spec fn wf(&self) -> bool {
        announces(
            self.record(),
            self.record().operation_id@,
            self.record().request_id@,
            self.mutation(),
            self.record().timestamp_ms,
        )
    }

    /// The line that announces the mutation.
    pub fn announcement(&self) -> (record: &PreparedRecord)
        ensures
            *record == self.record(),
    {
        &self.record
    }
}

/// A mutation whose announcement stands in the log. Only now can be seen what it
/// puts in place.
pub struct Announced {
    record: PreparedRecord,
    mutation: Mutation,
}

impl Announced {
    /// The line that announced the mutation.
    pub closed spec fn record(&self) -> PreparedRecord {
        self.record
    }

    /// The mutation.
    pub closed spec fn mutation(&self) -> Mutation {
        self.mutation
    }

    /// The line announced the mutation.
    pub open spec fn wf(&self) -> bool {
        announces(
            self.record(),
            self.record().operation_id@,
            self.record().request_id@,
            self.mutation(),
            self.record().timestamp_ms,
        )
    }

    /// The path of the file that is to be changed.
    pub fn path(&self) -> (path: &str)
        ensures
            path@ == self.mutation().path@,
    {
        self.mutation.path.as_str()
    }

    /// What is to be put in place of the file.
    pub fn effect(&self) -> (effect: &Effect)
        ensures
            *effect == self.mutation().effect,
    {
        &self.mutation.effect
    }

    /// The record of the mutation once it took effect. `found` is the hash of the
    /// file that was found when the effect was carried out.
    pub fn commit_record(&self, found: &Option<String>, timestamp_ms: u64) -> (record:
        FsOperationRecord)
        ensures
            record == record_of_mutation(
                self.record(),
                recorded_before(self.mutation(), *found),
                timestamp_ms,
            ),
    {
        let before_hash = if self.mutation.kind == OperationKind::Write {
            found.clone()
        } else {
            self.mutation.before_hash.clone()
        };
        FsOperationRecord {
            operation_id: self.record.operation_id.clone(),
            request_id: self.record.request_id.clone(),
            kind: self.record.kind,
            path: self.record.path.clone(),
            before_hash,
            after_hash: self.record.after_hash.clone(),
            timestamp_ms,
        }
    }
}

/// The answer to a request, as it is sent.
pub enum Reply {
    /// The stored result of the entry at this position.
    Stored(usize),
    Fresh(ServerMessage),
}

/// Whether `need` is what has to be known to decide a request.
pub open spec fn needs(server: Server, body: RequestBody, need: Need) -> bool {
    match body {
        RequestBody::List { path, .. } => need == (Need::Directory { path }),
        RequestBody::Stat { path } => need == (Need::Node { path }),
        RequestBody::Read { path, .. } => need == (Need::Content { path }),
        RequestBody::Write { path, .. } => need == (Need::File { path }),
        RequestBody::Patch { path, .. } => need == (Need::File { path }),
        RequestBody::Delete { path } => need == (Need::File { path }),
        RequestBody::Exec { cwd, .. } => need == (Need::WorkingDir { path: cwd }),
        RequestBody::Undo { operation_id } => match store::record_of(
            server.store.log(),
            operation_id@,
        ) {
            Some(AnyOperationRecord::Fs(r)) => need == (Need::Undone {
                path: r.path,
                operation_id,
            }),
            _ => need is Nothing,
        },
        RequestBody::UploadPrepare { path, .. } => need == (Need::UploadPlace { path }),
        RequestBody::UploadCommit { transfer_id, .. } => if server.uploads@.contains_key(
            transfer_id@,
        ) {
            need == (Need::Staging { staging: server.uploads@[transfer_id@].staging })
        } else {
            need is Nothing
        },
        RequestBody::DownloadRecord { path, .. } => need == (Need::Place { path }),
        _ => need is Nothing,
    }
}

/// Whether what was seen answers a need.
pub open spec fn answers_need(need: Need, seen: Observed) -> bool {
    match need {
        Need::Nothing => true,
        Need::Directory { .. } => seen is Directory,
        Need::Node { .. } => seen is Node,
        Need::Content { .. } => seen is Content,
        Need::File { .. } => seen is File,
        Need::WorkingDir { .. } => seen is WorkingDir,
        Need::Undone { .. } => seen is Undone,
        Need::UploadPlace { .. } => seen is UploadPlace,
        Need::Staging { .. } => seen is Staging,
        Need::Place { .. } => seen is Place,
    }
}

/// Whether enough was seen to decide a request.
pub open spec fn seen_enough(server: Server, body: RequestBody, seen: Observed) -> bool {
    exists|need: Need| #[trigger] needs(server, body, need) && answers_need(need, seen)
}

/// Whether the answer is the plain error with the given code and message.
pub open spec fn refused(out: Decision, code: ErrorCode, message: Seq<char>) -> bool {
    out matches Decision::Answer(Err(e)) && e.says(code, message)
}

/// What is decided of a file mutation whose file is in a state that could be
/// read, or could not.
pub open spec fn mutation_decided(
    out: Decision,
    current: Result<Option<Vec<u8>>, ProtocolError>,
    decided: spec_fn(Result<Mutation, ProtocolError>, Option<Seq<u8>>) -> bool,
) -> bool {
    match current {
        Err(cause) => out == Decision::Answer(Err(cause)),
        Ok(bytes) => match out {
            Decision::Mutate(p) => decided(Ok(p.mutation()), fs_ops::bytes_of(bytes)),
            Decision::Answer(Err(e)) => decided(Err(e), fs_ops::bytes_of(bytes)),
            _ => false,
        },
    }
}

/// The limit of a history request.
pub open spec fn history_limit_of(limit: Option<usize>) -> usize {
    fs_ops::or_default(limit, HISTORY_DEFAULT_LIMIT)
}

impl Server {
    pub open spec fn wf(&self) -> bool {
        self.store.wf() && self.config.wf()
    }

    /// Whether nothing but the store differs.
    pub open spec fn same_but_store(&self, other: Self) -> bool {
        &&& self.workspace == other.workspace
        &&& self.config == other.config
        &&& self.uploads == other.uploads
        &&& self.history_limit == other.history_limit
    }

    /// Whether `id` is one that was given out, where it is an operation id at all.
    pub open spec fn gave_out(&self, id: Seq<char>) -> bool {
        store::operation_number(id) matches Some(n) ==> n <= self.store.last_id()
    }

    /// Whether only the newest operation id may differ.
    pub open spec fn same_but_id(&self, other: Self) -> bool {
        &&& self.same_but_store(other)
        &&& self.store.requests() == other.store.requests()
        &&& self.store.log() == other.store.log()
    }

    /// Starts a server on what it remembers, which is pruned first where there is
    /// a limit.
    pub fn new(
        workspace: Workspace,
        store: OperationStore,
        config: ServerConfig,
        history_limit: Option<usize>,
    ) -> (out: (Self, Option<PruneStats>))
        requires
            store.wf(),
            config.wf(),
        ensures
            out.0.wf(),
            out.0.workspace == workspace,
            out.0.config == config,
            out.0.uploads@ == Map::<Seq<char>, PendingUpload>::empty(),
            out.0.history_limit == history_limit,
            match history_limit {
                Some(keep) => out.1 matches Some(stats) && store::pruned(
                    store,
                    out.0.store,
                    keep as nat,
                    stats,
                ),
                None => out.1 is None && out.0.store == store,
            },
    {
        let mut store = store;
        let stats = match history_limit {
            Some(keep) => Some(store.prune(keep)),
            None => None,
        };
        (
            Server { workspace, store, config, uploads: UploadRegistry::new(), history_limit },
            stats,
        )
    }

    /// Whether a request is to be carried out: a request that was seen before is
    /// answered from memory and never carried out again.
    pub fn recall(&self, request_id: &str) -> (out: Admission<'_>)
        requires
            self.wf(),
        ensures
            admitted(out, self.store.requests(), request_id@),
    {
        match self.store.find_request(request_id) {
            None => Admission::New,
            Some(i) => {
                proof {
                    store::entry_position_is(self.store.requests(), request_id@, i as int);
                }
                match &self.store.request_at(i).result {
                    Some(StoredResult::Done(m)) => Admission::Stored(m),
                    Some(StoredResult::Error(e)) => Admission::Fresh(
                        ServerMessage::Error {
                            request_id: request_id.to_owned(),
                            error: e.clone(),
                        },
                    ),
                    None => Admission::Fresh(
                        ServerMessage::Error {
                            request_id: request_id.to_owned(),
                            error: ProtocolError::new(
                                ErrorCode::InvalidRequest,
                                "request already in progress",
                            ),
                        },
                    ),
                }
            },
        }
    }

    /// Enters a new request as in progress. Where that could not be written, the
    /// request is refused and must not be carried out.
    pub fn claim(&mut self, request: &Request, written: Result<(), ProtocolError>) -> (out: Result<
        (),
        ServerMessage,
    >)
        requires
            old(self).wf(),
            !store::knows(old(self).store.requests(), request.request_id@),
        ensures
            final(self).wf(),
            final(self).same_but_store(*old(self)),
            final(self).store.log() == old(self).store.log(),
            final(self).store.last_id() == old(self).store.last_id(),
            match written {
                Ok(_) => {
                    &&& out is Ok
                    &&& final(self).store.requests().len() == old(self).store.requests().len() + 1
                    &&& final(self).store.requests().drop_last() == old(self).store.requests()
                    &&& final(self).store.requests().last().request_id@ == request.request_id@
                    &&& final(self).store.requests().last().op_kind@ == op_kind(request.body)
                    &&& final(self).store.requests().last().result is None
                },
                Err(e) => {
                    &&& final(self).store.requests() == old(self).store.requests()
                    &&& out matches Err(m) && m.refuses(request.request_id@, e)
                },
            },
    {
        match self.store.claim_request(
            request.request_id.as_str(),
            op_kind_str(&request.body),
            written,
        ) {
            Ok(_) => Ok(()),
            Err(e) => Err(
                ServerMessage::Error { request_id: request.request_id.clone(), error: e },
            ),
        }
    }

    /// What has to be known of the outside to decide a request.
    pub fn need(&self, body: &RequestBody) -> (need: Need)
        ensures
            needs(*self, *body, need),
    {
        match body {
            RequestBody::List { path, .. } => Need::Directory { path: path.clone() },
            RequestBody::Stat { path } => Need::Node { path: path.clone() },
            RequestBody::Read { path, .. } => Need::Content { path: path.clone() },
            RequestBody::Write { path, .. } => Need::File { path: path.clone() },
            RequestBody::Patch { path, .. } => Need::File { path: path.clone() },
            RequestBody::Delete { path } => Need::File { path: path.clone() },
            RequestBody::Exec { cwd, .. } => Need::WorkingDir { path: cwd.clone() },
            RequestBody::Undo { operation_id } => match self.store.find_record(
                operation_id.as_str(),
            ) {
                Some(AnyOperationRecord::Fs(r)) => Need::Undone {
                    path: r.path.clone(),
                    operation_id: operation_id.clone(),
                },
                _ => Need::Nothing,
            },
            RequestBody::UploadPrepare { path, .. } => Need::UploadPlace { path: path.clone() },
            RequestBody::UploadCommit { transfer_id, .. } => match self.uploads.find(
                transfer_id.as_str(),
            ) {
                Some(upload) => Need::Staging { staging: upload.staging.clone() },
                None => Need::Nothing,
            },
            RequestBody::DownloadRecord { path, .. } => Need::Place { path: path.clone() },
            RequestBody::History { .. } => Need::Nothing,
            RequestBody::OperationGet { .. } => Need::Nothing,
            RequestBody::RequestStatus { .. } => Need::Nothing,
            RequestBody::Gc { .. } => Need::Nothing,
            RequestBody::UploadAbort { .. } => Need::Nothing,
        }
    }
}

/// What is decided of a request that reads, and of one that changes a file.
pub open spec fn file_request_decided(
    server: Server,
    body: RequestBody,
    seen: Observed,
    out: Decision,
) -> bool {
    match (body, seen) {
        (
            RequestBody::List { path, offset, limit },
            Observed::Directory(dir),
        ) => out matches Decision::Answer(r) && fs_ops::listed(r, path@, dir, offset, limit),
        (RequestBody::Stat { path }, Observed::Node(node)) => out matches Decision::Answer(r)
            && fs_ops::stated(r, path@, node),
        (
            RequestBody::Read { path, offset, limit },
            Observed::Content(node),
        ) => out matches Decision::Answer(r) && fs_ops::read_answered(
            r,
            path@,
            node,
            offset,
            limit,
        ),
        (
            RequestBody::Write { path, content, base_hash },
            Observed::File { current, .. },
        ) => mutation_decided(
            out,
            current,
            |r: Result<Mutation, ProtocolError>, c: Option<Seq<u8>>|
                fs_ops::write_decided(r, path@, c, content@, fs_ops::chars_in(base_hash)),
        ),
        (
            RequestBody::Patch { path, base_hash, patch },
            Observed::File { current, .. },
        ) => mutation_decided(
            out,
            current,
            |r: Result<Mutation, ProtocolError>, c: Option<Seq<u8>>|
                fs_ops::patch_decided(r, path@, c, base_hash@, patch@),
        ),
        (RequestBody::Delete { path }, Observed::File { is_dir, current }) => if is_dir {
            refused(out, ErrorCode::IsADirectory, "not a file: "@ + path@)
        } else {
            mutation_decided(
                out,
                current,
                |r: Result<Mutation, ProtocolError>, c: Option<Seq<u8>>|
                    fs_ops::delete_decided(r, path@, false, c),
            )
        },
        (RequestBody::Undo { operation_id }, _) => match store::record_of(
            server.store.log(),
            operation_id@,
        ) {
            Some(AnyOperationRecord::Fs(record)) => seen matches Observed::Undone { current, kept }
                && mutation_decided(
                out,
                current,
                |r: Result<Mutation, ProtocolError>, c: Option<Seq<u8>>|
                    undo::undo_decided(r, record, c, fs_ops::bytes_of(kept)),
            ),
            Some(AnyOperationRecord::Exec(_)) => refused(
                out,
                ErrorCode::InvalidRequest,
                "cannot undo an exec operation"@,
            ),
            Some(AnyOperationRecord::Transfer(_)) => refused(
                out,
                ErrorCode::InvalidRequest,
                "cannot undo a transfer operation"@,
            ),
            _ => refused(
                out,
                ErrorCode::OperationNotFound,
                "operation not found: "@ + operation_id@,
            ),
        },
        _ => false,
    }
}

/// What is decided of a request about what the server remembers.
pub open spec fn memory_request_decided(server: Server, body: RequestBody, out: Decision) -> bool {
    match body {
        RequestBody::History { limit } => if history_limit_of(limit) > HISTORY_MAX_LIMIT {
            refused(out, ErrorCode::InvalidRequest, "history limit must be at most 100"@)
        } else {
            out matches Decision::Answer(Ok(ResultBody::History { operations }))
                && store::is_history(
                operations@,
                server.store.log(),
                history_limit_of(limit) as nat,
            )
        },
        RequestBody::OperationGet { operation_id } => match store::record_of(
            server.store.log(),
            operation_id@,
        ) {
            Some(record) if record is Fs || record is Exec => out matches Decision::Answer(
                Ok(ResultBody::Operation(d)),
            ) && d.record.same(record),
            _ => refused(
                out,
                ErrorCode::OperationNotFound,
                "operation not found: "@ + operation_id@,
            ),
        },
        RequestBody::RequestStatus { target } => out matches Decision::Answer(
            Ok(ResultBody::RequestStatus(r)),
        ) && store::is_status(r, server.store.requests(), target@),
        _ => false,
    }
}

/// What is decided of a request to prune.
pub open spec fn gc_decided(
    before: Server,
    after: Server,
    keep: Option<usize>,
    out: Decision,
) -> bool {
    let limit = match keep {
        Some(k) => Some(k),
        None => before.history_limit,
    };
    match limit {
        Some(k) => {
            &&& out matches Decision::Answer(Ok(ResultBody::Gc(g)))
            &&& store::pruned(
                before.store,
                after.store,
                k as nat,
                (PruneStats {
                    removed_operations: g.removed_operations,
                    removed_requests: g.removed_requests,
                    retained_operations: g.retained_operations,
                }),
            )
        },
        None => {
            &&& after.store == before.store
            &&& refused(
                out,
                ErrorCode::InvalidRequest,
                "server has no history limit configured; pass keep explicitly"@,
            )
        },
    }
}

/// What is decided of a request to run a command. It takes an operation id
/// whether the command is run or refused.
pub open spec fn exec_decided(
    before: Server,
    after: Server,
    cwd: Result<WorkingDir, ProtocolError>,
    profile: Option<String>,
    argv: Seq<String>,
    timeout_ms: Option<u64>,
    out: Decision,
) -> bool {
    let name = as_name(profile);
    &&& after.store.last_id() == before.store.last_id() + 1
    &&& after.same_but_id(before)
    &&& match out {
        Decision::Run { operation_id, plan } => {
            &&& operation_id@ == store::operation_id(after.store.last_id() as nat)
            &&& exec::exec_accepted(before.config, cwd, name, argv)
            &&& exec::is_plan(plan, before.config, name, argv, timeout_ms)
        },
        Decision::Reject { operation_id, error } => {
            &&& operation_id@ == store::operation_id(after.store.last_id() as nat)
            &&& !exec::exec_accepted(before.config, cwd, name, argv)
            &&& exec::exec_refusal(before.config, cwd, name, argv, error)
        },
        _ => false,
    }
}

/// The name of a profile, if one is named.
pub open spec fn as_name(profile: Option<String>) -> Option<Seq<char>> {
    fs_ops::chars_in(profile)
}

/// What is decided of a request about a transfer.
pub open spec fn transfer_request_decided(
    before: Server,
    after: Server,
    body: RequestBody,
    seen: Observed,
    out: Decision,
) -> bool {
    match body {
        RequestBody::UploadPrepare { path, overwrite } => {
            &&& after == before
            &&& seen matches Observed::UploadPlace(place)
            &&& match out {
                Decision::Stage(name) => transfer::upload_decided(
                    Ok(name),
                    path@,
                    place,
                    overwrite,
                ),
                Decision::Answer(Err(e)) => transfer::upload_decided(
                    Err(e),
                    path@,
                    place,
                    overwrite,
                ),
                _ => false,
            }
        },
        RequestBody::UploadCommit { transfer_id, size, .. } => {
            &&& after == before
            &&& if before.uploads@.contains_key(transfer_id@) {
                &&& seen matches Observed::Staging(staged)
                &&& match out {
                    Decision::Install { install, upload } => transfer::commit_decided(
                        Ok(install),
                        before.uploads@,
                        transfer_id@,
                        size,
                        staged,
                    ) && upload == before.uploads@[transfer_id@],
                    Decision::Answer(Err(e)) => transfer::commit_decided(
                        Err(e),
                        before.uploads@,
                        transfer_id@,
                        size,
                        staged,
                    ),
                    _ => false,
                }
            } else {
                refused(
                    out,
                    ErrorCode::OperationNotFound,
                    "unknown transfer id: "@ + transfer_id@,
                )
            }
        },
        RequestBody::UploadAbort { transfer_id } => {
            &&& after.workspace == before.workspace
            &&& after.store == before.store
            &&& after.config == before.config
            &&& after.history_limit == before.history_limit
            &&& after.uploads@ == before.uploads@.remove(transfer_id@)
            &&& match out {
                Decision::Discard(upload) => transfer::abort_decided(
                    Ok(upload),
                    before.uploads@,
                    transfer_id@,
                ),
                Decision::Answer(Err(e)) => transfer::abort_decided(
                    Err(e),
                    before.uploads@,
                    transfer_id@,
                ),
                _ => false,
            }
        },
        RequestBody::DownloadRecord { .. } => {
            &&& after == before
            &&& match seen {
                Observed::Place(Ok(_)) => out is Record,
                Observed::Place(Err(e)) => out == Decision::Answer(Err(e)),
                _ => false,
            }
        },
        _ => false,
    }
}

/// What is decided of a request.
pub open spec fn decided(
    before: Server,
    after: Server,
    body: RequestBody,
    seen: Observed,
    out: Decision,
) -> bool {
    match body {
        RequestBody::Exec { argv, profile, timeout_ms, .. } => seen matches Observed::WorkingDir(
            cwd,
        ) && exec_decided(before, after, cwd, profile, argv@, timeout_ms, out),
        RequestBody::Gc { keep } => after.same_but_store(before) && gc_decided(
            before,
            after,
            keep,
            out,
        ),
        RequestBody::History { .. } => after == before && memory_request_decided(
            before,
            body,
            out,
        ),
        RequestBody::OperationGet { .. } => after == before && memory_request_decided(
            before,
            body,
            out,
        ),
        RequestBody::RequestStatus { .. } => after == before && memory_request_decided(
            before,
            body,
            out,
        ),
        RequestBody::UploadPrepare { .. } => transfer_request_decided(
            before,
            after,
            body,
            seen,
            out,
        ),
        RequestBody::UploadCommit { .. } => transfer_request_decided(
            before,
            after,
            body,
            seen,
            out,
        ),
        RequestBody::UploadAbort { .. } => transfer_request_decided(
            before,
            after,
            body,
            seen,
            out,
        ),
        RequestBody::DownloadRecord { .. } => transfer_request_decided(
            before,
            after,
            body,
            seen,
            out,
        ),
        _ => after == before && file_request_decided(before, body, seen, out),
    }
}

fn refuse(code: ErrorCode, message: &str) -> (out: Decision)
    ensures
        refused(out, code, message@),
{
    Decision::Answer(Err(ProtocolError::new(code, message)))
}

fn refuse_for(code: ErrorCode, what: &str, name: &str) -> (out: Decision)
    ensures
        refused(out, code, what@ + name@),
{
    let m = text::concat(what, name);
    Decision::Answer(Err(ProtocolError::new(code, m.as_str())))
}

/// Whether the details of an operation can be asked for: it changed a file or ran
/// a command. Transfers are told of in the history alone.
fn is_detailed(record: &AnyOperationRecord) -> (yes: bool)
    ensures
        yes == (record is Fs || record is Exec),
{
    match record {
        AnyOperationRecord::Fs(_) => true,
        AnyOperationRecord::Exec(_) => true,
        _ => false,
    }
}

fn mutation_or_refusal(r: Result<Mutation, ProtocolError>) -> (out: Decision)
    ensures
        match r {
            Ok(m) => out matches Decision::Mutate(p) && p.mutation() == m,
            Err(e) => out == Decision::Answer(Err(e)),
        },
{
    match r {
        Ok(m) => Decision::Mutate(Planned { mutation: m }),
        Err(e) => Decision::Answer(Err(e)),
    }
}

impl Server {
    /// Decides a request, given what was seen of the outside.
    pub fn decide(&mut self, body: &RequestBody, seen: Observed) -> (out: Decision)
        requires
            old(self).wf(),
            old(self).store.last_id() < u64::MAX,
            seen_enough(*old(self), *body, seen),
        ensures
            final(self).wf(),
            decided(*old(self), *final(self), *body, seen, out),
    {
        match body {
            RequestBody::Exec { argv, profile, timeout_ms, .. } => {
                let cwd = match seen {
                    Observed::WorkingDir(cwd) => cwd,
                    _ => vstd::pervasive::unreached(),
                };
                self.decide_exec(cwd, profile, argv, *timeout_ms)
            },
            RequestBody::Gc { keep } => self.decide_gc(*keep),
            RequestBody::UploadAbort { transfer_id } => {
                match transfer::upload_abort(&mut self.uploads, transfer_id.as_str()) {
                    Ok(upload) => Decision::Discard(upload),
                    Err(e) => Decision::Answer(Err(e)),
                }
            },
            RequestBody::History { .. } => self.decide_from_memory(body),
            RequestBody::OperationGet { .. } => self.decide_from_memory(body),
            RequestBody::RequestStatus { .. } => self.decide_from_memory(body),
            RequestBody::UploadPrepare { path, overwrite } => {
                let place = match seen {
                    Observed::UploadPlace(place) => place,
                    _ => vstd::pervasive::unreached(),
                };
                match transfer::upload_prepare(path.as_str(), place, *overwrite) {
                    Ok(name) => Decision::Stage(name),
                    Err(e) => Decision::Answer(Err(e)),
                }
            },
            RequestBody::UploadCommit { transfer_id, size, .. } => self.decide_commit(
                transfer_id.as_str(),
                *size,
                seen,
            ),
            RequestBody::DownloadRecord { .. } => {
                match seen {
                    Observed::Place(Ok(_)) => Decision::Record,
                    Observed::Place(Err(e)) => Decision::Answer(Err(e)),
                    _ => vstd::pervasive::unreached(),
                }
            },
            _ => self.decide_file_request(body, seen),
        }
    }

    fn decide_exec(
        &mut self,
        cwd: Result<WorkingDir, ProtocolError>,
        profile: &Option<String>,
        argv: &Vec<String>,
        timeout_ms: Option<u64>,
    ) -> (out: Decision)
        requires
            old(self).wf(),
            old(self).store.last_id() < u64::MAX,
        ensures
            final(self).wf(),
            exec_decided(*old(self), *final(self), cwd, *profile, argv@, timeout_ms, out),
    {
        let operation_id = self.store.next_operation_id();
        let name = match profile {
            Some(name) => Some(name.as_str()),
            None => None,
        };
        match exec::plan_exec(&self.config, cwd, name, argv, timeout_ms) {
            Ok(plan) => Decision::Run { operation_id, plan },
            Err(error) => Decision::Reject { operation_id, error },
        }
    }

    fn decide_gc(&mut self, keep: Option<usize>) -> (out: Decision)
        requires
            old(self).wf(),
        ensures
            final(self).wf(),
            final(self).same_but_store(*old(self)),
            gc_decided(*old(self), *final(self), keep, out),
    {
        let limit = match keep {
            Some(k) => Some(k),
            None => self.history_limit,
        };
        match limit {
            Some(k) => {
                let stats = self.store.prune(k);
                Decision::Answer(
                    Ok(
                        ResultBody::Gc(
                            GcResult {
                                removed_operations: stats.removed_operations,
                                removed_requests: stats.removed_requests,
                                retained_operations: stats.retained_operations,
                            },
                        ),
                    ),
                )
            },
            None => refuse(
                ErrorCode::InvalidRequest,
                "server has no history limit configured; pass keep explicitly",
            ),
        }
    }

    fn decide_from_memory(&self, body: &RequestBody) -> (out: Decision)
        requires
            self.wf(),
            body is History || body is OperationGet || body is RequestStatus,
        ensures
            memory_request_decided(*self, *body, out),
    {
        match body {
            RequestBody::History { limit } => {
                let limit: usize = match limit {
                    Some(n) => *n,
                    None => HISTORY_DEFAULT_LIMIT,
                };
                if limit > HISTORY_MAX_LIMIT {
                    return refuse(
                        ErrorCode::InvalidRequest,
                        "history limit must be at most 100",
                    );
                }
                Decision::Answer(Ok(ResultBody::History { operations: self.store.history(limit) }))
            },
            RequestBody::OperationGet { operation_id } => match self.store.find_record(
                operation_id.as_str(),
            ) {
                Some(record) if is_detailed(record) => Decision::Answer(
                    Ok(ResultBody::Operation(OperationDetails { record: record.clone() })),
                ),
                _ => refuse_for(
                    ErrorCode::OperationNotFound,
                    "operation not found: ",
                    operation_id.as_str(),
                ),
            },
            RequestBody::RequestStatus { target } => Decision::Answer(
                Ok(ResultBody::RequestStatus(self.store.status_for_request(target.as_str()))),
            ),
            _ => vstd::pervasive::unreached(),
        }
    }

    fn decide_commit(&self, transfer_id: &str, size: u64, seen: Observed) -> (out: Decision)
        requires
            self.uploads@.contains_key(transfer_id@) ==> seen is Staging,
        ensures
            if self.uploads@.contains_key(transfer_id@) {
                &&& seen matches Observed::Staging(staged)
                &&& match out {
                    Decision::Install { install, upload } => transfer::commit_decided(
                        Ok(install),
                        self.uploads@,
                        transfer_id@,
                        size,
                        staged,
                    ) && upload == self.uploads@[transfer_id@],
                    Decision::Answer(Err(e)) => transfer::commit_decided(
                        Err(e),
                        self.uploads@,
                        transfer_id@,
                        size,
                        staged,
                    ),
                    _ => false,
                }
            } else {
                refused(
                    out,
                    ErrorCode::OperationNotFound,
                    "unknown transfer id: "@ + transfer_id@,
                )
            },
    {
        match self.uploads.find(transfer_id) {
            None => refuse_for(
                ErrorCode::OperationNotFound,
                "unknown transfer id: ",
                transfer_id,
            ),
            Some(upload) => {
                let staged = match seen {
                    Observed::Staging(staged) => staged,
                    _ => vstd::pervasive::unreached(),
                };
                match transfer::upload_commit(&self.uploads, transfer_id, size, staged) {
                    Ok(install) => Decision::Install { install, upload: upload.clone() },
                    Err(e) => Decision::Answer(Err(e)),
                }
            },
        }
    }

    fn decide_file_request(&self, body: &RequestBody, seen: Observed) -> (out: Decision)
        requires
            self.wf(),
            body is List || body is Stat || body is Read || body is Write || body is Patch || body
                is Delete || body is Undo,
            seen_enough(*self, *body, seen),
        ensures
            file_request_decided(*self, *body, seen, out),
    {
        match (body, seen) {
            (RequestBody::List { path, offset, limit }, Observed::Directory(dir)) => Decision::Answer(
                fs_ops::list(path.as_str(), dir, *offset, *limit),
            ),
            (RequestBody::Stat { path }, Observed::Node(node)) => Decision::Answer(
                fs_ops::stat(path.as_str(), node),
            ),
            (RequestBody::Read { path, offset, limit }, Observed::Content(node)) => Decision::Answer(
                fs_ops::read(path.as_str(), node, *offset, *limit),
            ),
            (
                RequestBody::Write { path, content, base_hash },
                Observed::File { current, .. },
            ) => match current {
                Err(e) => Decision::Answer(Err(e)),
                Ok(bytes) => mutation_or_refusal(
                    fs_ops::write(path.as_str(), &bytes, content.as_str(), base_hash),
                ),
            },
            (
                RequestBody::Patch { path, base_hash, patch },
                Observed::File { current, .. },
            ) => match current {
                Err(e) => Decision::Answer(Err(e)),
                Ok(bytes) => mutation_or_refusal(
                    fs_ops::patch(path.as_str(), &bytes, base_hash.as_str(), patch.as_str()),
                ),
            },
            (RequestBody::Delete { path }, Observed::File { is_dir, current }) => {
                if is_dir {
                    return refuse_for(ErrorCode::IsADirectory, "not a file: ", path.as_str());
                }
                match current {
                    Err(e) => Decision::Answer(Err(e)),
                    Ok(bytes) => mutation_or_refusal(
                        fs_ops::delete(path.as_str(), false, &bytes),
                    ),
                }
            },
            (RequestBody::Undo { operation_id }, seen) => self.decide_undo(
                operation_id.as_str(),
                seen,
            ),
            _ => vstd::pervasive::unreached(),
        }
    }

    fn decide_undo(&self, operation_id: &str, seen: Observed) -> (out: Decision)
        requires
            store::record_of(self.store.log(), operation_id@) matches Some(
                AnyOperationRecord::Fs(_),
            ) ==> seen is Undone,
        ensures
            match store::record_of(self.store.log(), operation_id@) {
                Some(AnyOperationRecord::Fs(record)) => seen matches Observed::Undone {
                    current,
                    kept,
                } && mutation_decided(
                    out,
                    current,
                    |r: Result<Mutation, ProtocolError>, c: Option<Seq<u8>>|
                        undo::undo_decided(r, record, c, fs_ops::bytes_of(kept)),
                ),
                Some(AnyOperationRecord::Exec(_)) => refused(
                    out,
                    ErrorCode::InvalidRequest,
                    "cannot undo an exec operation"@,
                ),
                Some(AnyOperationRecord::Transfer(_)) => refused(
                    out,
                    ErrorCode::InvalidRequest,
                    "cannot undo a transfer operation"@,
                ),
                _ => refused(
                    out,
                    ErrorCode::OperationNotFound,
                    "operation not found: "@ + operation_id@,
                ),
            },
    {
        match self.store.find_record(operation_id) {
            Some(AnyOperationRecord::Fs(record)) => {
                match seen {
                    Observed::Undone { current, kept } => match current {
                        Err(e) => Decision::Answer(Err(e)),
                        Ok(bytes) => mutation_or_refusal(undo::undo(record, &bytes, &kept)),
                    },
                    _ => vstd::pervasive::unreached(),
                }
            },
            Some(AnyOperationRecord::Exec(_)) => refuse(
                ErrorCode::InvalidRequest,
                "cannot undo an exec operation",
            ),
            Some(AnyOperationRecord::Transfer(_)) => refuse(
                ErrorCode::InvalidRequest,
                "cannot undo a transfer operation",
            ),
            _ => refuse_for(ErrorCode::OperationNotFound, "operation not found: ", operation_id),
        }
    }
}

/// Whether `record` announces a mutation.
pub open spec fn announces(
    record: PreparedRecord,
    operation_id: Seq<char>,
    request_id: Seq<char>,
    m: Mutation,
    timestamp_ms: u64,
) -> bool {
    &&& record.operation_id@ == operation_id
    &&& record.request_id@ == request_id
    &&& record.kind == m.kind
    &&& record.path == m.path
    &&& record.before_hash == m.before_hash
    &&& record.after_hash == m.after_hash
    &&& record.timestamp_ms == timestamp_ms
}

/// The hash from before the mutation that is recorded: of a write, what was
/// found when the new content was put in place, else what the mutation was
/// decided on.
pub open spec fn recorded_before(m: Mutation, found: Option<String>) -> Option<String> {
    if m.kind == OperationKind::Write {
        found
    } else {
        m.before_hash
    }
}

/// The record of a mutation that took effect.
pub open spec fn record_of_mutation(
    prepared: PreparedRecord,
    before_hash: Option<String>,
    timestamp_ms: u64,
) -> FsOperationRecord {
    FsOperationRecord {
        operation_id: prepared.operation_id,
        request_id: prepared.request_id,
        kind: prepared.kind,
        path: prepared.path,
        before_hash,
        after_hash: prepared.after_hash,
        timestamp_ms,
    }
}

/// Whether `body` answers the request behind a recorded mutation.
pub open spec fn answers_mutation(
    body: ResultBody,
    record: FsOperationRecord,
    undone: Option<FsOperationRecord>,
) -> bool {
    match undone {
        Some(u) => body == ResultBody::Undo(
            crate::messages::UndoResult {
                operation_id: record.operation_id,
                restored_hash: u.before_hash,
                new_hash: record.after_hash,
            },
        ),
        None => body == ResultBody::WriteOrPatch(
            crate::messages::WriteOrPatchResult {
                operation_id: record.operation_id,
                old_hash: record.before_hash,
                new_hash: record.after_hash,
            },
        ),
    }
}

/// What an exec request asks for.
pub struct ExecRequest {
    pub argv: Vec<String>,
    pub cwd: Option<String>,
    pub profile: Option<String>,
    pub timeout_ms: Option<u64>,
}

/// The way an optional number is written in messages.
pub open spec fn shown_number(n: Option<u64>) -> Seq<char> {
    match n {
        Some(n) => "Some("@ + text::decimal(n as nat) + ")"@,
        None => "None"@,
    }
}

fn show_number(n: Option<u64>) -> (out: String)
    ensures
        out@ == shown_number(n),
{
    match n {
        Some(n) => text::concat3("Some(", text::decimal_u64(n).as_str(), ")"),
        None => "None".to_owned(),
    }
}

/// Whether `record` tells of a command that ran.
pub open spec fn records_run(
    record: ExecOperationRecord,
    request_id: Seq<char>,
    request: ExecRequest,
    o: ExecOutcome,
    timestamp_ms: u64,
) -> bool {
    &&& record.operation_id == o.operation_id
    &&& record.request_id@ == request_id
    &&& record.argv == request.argv
    &&& record.cwd == request.cwd
    &&& record.profile == request.profile
    &&& record.timeout_ms == request.timeout_ms
    &&& record.disposition == (if o.timed_out {
        ExecDisposition::TimedOut
    } else {
        ExecDisposition::Completed
    })
    &&& record.exit_code == Some(o.exit_code)
    &&& record.duration_ms == o.duration_ms
    &&& record.timestamp_ms == timestamp_ms
    &&& fs_ops::chars_in(record.error) == (if o.timed_out {
        Some("killed after "@ + shown_number(request.timeout_ms) + " ms timeout"@)
    } else {
        None
    })
    &&& record.error_code == (if o.timed_out {
        Some(ErrorCode::ExecFailed)
    } else {
        None
    })
    &&& record.output_truncated == (if o.output_truncated {
        Some(true)
    } else {
        None
    })
}

/// The record of a command that ran, to its end or to its deadline.
pub fn run_record(
    request_id: &str,
    request: ExecRequest,
    o: &ExecOutcome,
    timestamp_ms: u64,
) -> (record: ExecOperationRecord)
    ensures
        records_run(record, request_id@, request, *o, timestamp_ms),
{
    let disposition = if o.timed_out {
        ExecDisposition::TimedOut
    } else {
        ExecDisposition::Completed
    };
    let error = if o.timed_out {
        Some(
            text::concat3(
                "killed after ",
                show_number(request.timeout_ms).as_str(),
                " ms timeout",
            ),
        )
    } else {
        None
    };
    let error_code = if o.timed_out {
        Some(ErrorCode::ExecFailed)
    } else {
        None
    };
    ExecOperationRecord {
        operation_id: o.operation_id.clone(),
        request_id: request_id.to_owned(),
        argv: request.argv,
        cwd: request.cwd,
        profile: request.profile,
        timeout_ms: request.timeout_ms,
        disposition,
        exit_code: Some(o.exit_code),
        duration_ms: o.duration_ms,
        timestamp_ms,
        error,
        error_code,
        output_truncated: if o.output_truncated {
            Some(true)
        } else {
            None
        },
    }
}

/// Whether `record` tells of a command that never started.
pub open spec fn records_rejection(
    record: ExecOperationRecord,
    operation_id: Seq<char>,
    request_id: Seq<char>,
    request: ExecRequest,
    e: ProtocolError,
    timestamp_ms: u64,
) -> bool {
    &&& record.operation_id@ == operation_id
    &&& record.request_id@ == request_id
    &&& record.argv == request.argv
    &&& record.cwd == request.cwd
    &&& record.profile == request.profile
    &&& record.timeout_ms == request.timeout_ms
    &&& record.disposition == ExecDisposition::Rejected
    &&& record.exit_code is None
    &&& record.duration_ms == 0
    &&& record.timestamp_ms == timestamp_ms
    &&& record.error == Some(e.message)
    &&& record.error_code == Some(e.code)
    &&& record.output_truncated is None
}

/// The record of a command that never started.
pub fn rejection_record(
    operation_id: &str,
    request_id: &str,
    request: ExecRequest,
    e: &ProtocolError,
    timestamp_ms: u64,
) -> (record: ExecOperationRecord)
    ensures
        records_rejection(record, operation_id@, request_id@, request, *e, timestamp_ms),
{
    ExecOperationRecord {
        operation_id: operation_id.to_owned(),
        request_id: request_id.to_owned(),
        argv: request.argv,
        cwd: request.cwd,
        profile: request.profile,
        timeout_ms: request.timeout_ms,
        disposition: ExecDisposition::Rejected,
        exit_code: None,
        duration_ms: 0,
        timestamp_ms,
        error: Some(e.message.clone()),
        error_code: Some(e.code),
        output_truncated: None,
    }
}

/// The answer to an exec request whose command ran.
pub fn exec_answer(o: ExecOutcome, stdout: ExecOutput, stderr: ExecOutput) -> (body: ResultBody)
    ensures
        body == ResultBody::Exec(
            ExecResult {
                operation_id: o.operation_id,
                termination: exec::termination_of(o),
                duration_ms: o.duration_ms,
                stdout,
                stderr,
            },
        ),
{
    let termination = exec::termination(&o);
    ResultBody::Exec(
        ExecResult {
            operation_id: o.operation_id,
            termination,
            duration_ms: o.duration_ms,
            stdout,
            stderr,
        },
    )
}

/// Whether finishing a request stored `result` as what came of it and nothing
/// else.
pub open spec fn stored(
    before: Seq<RequestEntry>,
    after: Seq<RequestEntry>,
    id: Seq<char>,
    result: StoredResult,
) -> bool {
    let i = store::entry_position(before, id);
    after == before.update(i, (RequestEntry { result: Some(result), ..before[i] }))
}

/// Whether finishing a request with `result` is answered with `out`. An answer is
/// given only once it is written: where that failed, the request is refused with
/// the failure.
pub open spec fn finished(
    before: Seq<RequestEntry>,
    after: Seq<RequestEntry>,
    id: Seq<char>,
    result: Result<ResultBody, ProtocolError>,
    written: Result<(), ProtocolError>,
    out: Reply,
) -> bool {
    match written {
        Err(cause) => {
            &&& after == before
            &&& out matches Reply::Fresh(m) && m.refuses(id, cause)
        },
        Ok(_) => match result {
            Ok(body) => {
                let i = store::entry_position(before, id);
                &&& out matches Reply::Stored(k) && k == i
                &&& 0 <= i < before.len()
                &&& after[i].result matches Some(StoredResult::Done(m))
                &&& m.answers(id, body)
                &&& stored(before, after, id, StoredResult::Done(m))
            },
            Err(e) => {
                &&& out matches Reply::Fresh(m) && m.refuses(id, e)
                &&& stored(before, after, id, StoredResult::Error(e))
            },
        },
    }
}

impl Server {
    /// Gives a mutation an operation id, and the line that announces it.
    pub fn prepare(&mut self, request_id: &str, planned: Planned, timestamp_ms: u64) -> (out:
        Preparation)
        requires
            old(self).wf(),
            old(self).store.last_id() < u64::MAX,
        ensures
            final(self).wf(),
            final(self).same_but_id(*old(self)),
            final(self).store.last_id() == old(self).store.last_id() + 1,
            out.mutation() == planned.mutation(),
            announces(
                out.record(),
                store::operation_id(final(self).store.last_id() as nat),
                request_id@,
                planned.mutation(),
                timestamp_ms,
            ),
            out.wf(),
            final(self).gave_out(out.record().operation_id@),
    {
        let operation_id = self.store.next_operation_id();
        proof {
            store::operation_id_has_its_number(self.store.last_id() as nat);
        }
        let m = planned.mutation;
        let record = PreparedRecord {
            operation_id,
            request_id: request_id.to_owned(),
            kind: m.kind,
            path: m.path.clone(),
            before_hash: m.before_hash.clone(),
            after_hash: m.after_hash.clone(),
            timestamp_ms,
        };
        Preparation { record, mutation: m }
    }

    /// Adds the announcement of a mutation to the log, where it was written. Only
    /// then the mutation can be carried out.
    pub fn announce(&mut self, p: Preparation, written: Result<(), ProtocolError>) -> (out: Result<
        Announced,
        ProtocolError,
    >)
        requires
            old(self).wf(),
            old(self).gave_out(p.record().operation_id@),
        ensures
            final(self).wf(),
            final(self).same_but_store(*old(self)),
            final(self).store.last_id() == old(self).store.last_id(),
            final(self).store.requests() == old(self).store.requests(),
            match written {
                Ok(_) => {
                    &&& final(self).store.log() == old(self).store.log().push(
                        AnyOperationRecord::Prepared(p.record()),
                    )
                    &&& store::announced(final(self).store.log(), p.record().operation_id@)
                    &&& out matches Ok(a) && a.record() == p.record() && a.mutation()
                        == p.mutation() && a.wf() == p.wf()
                },
                Err(cause) => {
                    &&& final(self).store.log() == old(self).store.log()
                    &&& out matches Err(e) && e == cause
                },
            },
    {
        let line = AnyOperationRecord::Prepared(p.record.clone());
        match self.store.append(line, written) {
            Ok(_) => {
                proof {
                    let n = self.store.log().len() - 1;
                    assert(store::unresolved(self.store.log(), n));
                }
                Ok(Announced { record: p.record, mutation: p.mutation })
            },
            Err(e) => Err(e),
        }
    }

    /// Adds a line to the log that was written, or was not.
    pub fn append(&mut self, record: AnyOperationRecord, written: Result<(), ProtocolError>) -> (out:
        Result<(), ProtocolError>)
        requires
            old(self).wf(),
            store::operation_number(record.spec_operation_id()) matches Some(n) ==> n <= old(
                self,
            ).store.last_id(),
        ensures
            final(self).wf(),
            final(self).same_but_store(*old(self)),
            final(self).store.last_id() == old(self).store.last_id(),
            final(self).store.requests() == old(self).store.requests(),
            out == written,
            final(self).store.log() == (match written {
                Ok(_) => old(self).store.log().push(record),
                Err(_) => old(self).store.log(),
            }),
    {
        self.store.append(record, written)
    }

    /// Adds the record of a mutation that took effect to the log, which announced
    /// it, and answers the request behind it. `undone` is the record that an undo
    /// undid.
    pub fn commit(
        &mut self,
        record: FsOperationRecord,
        undone: &Option<FsOperationRecord>,
        written: Result<(), ProtocolError>,
    ) -> (out: Result<ResultBody, ProtocolError>)
        requires
            old(self).wf(),
            store::announced(old(self).store.log(), record.operation_id@),
        ensures
            final(self).wf(),
            final(self).same_but_store(*old(self)),
            final(self).store.last_id() == old(self).store.last_id(),
            final(self).store.requests() == old(self).store.requests(),
            match written {
                Ok(_) => {
                    &&& final(self).store.log() == old(self).store.log().push(
                        AnyOperationRecord::Fs(record),
                    )
                    &&& out matches Ok(body) && answers_mutation(body, record, *undone)
                },
                Err(cause) => {
                    &&& final(self).store.log() == old(self).store.log()
                    &&& out == Err::<ResultBody, ProtocolError>(cause)
                },
            },
    {
        let body = match undone {
            Some(u) => ResultBody::Undo(
                crate::messages::UndoResult {
                    operation_id: record.operation_id.clone(),
                    restored_hash: u.before_hash.clone(),
                    new_hash: record.after_hash.clone(),
                },
            ),
            None => ResultBody::WriteOrPatch(
                crate::messages::WriteOrPatchResult {
                    operation_id: record.operation_id.clone(),
                    old_hash: record.before_hash.clone(),
                    new_hash: record.after_hash.clone(),
                },
            ),
        };
        match self.store.append(AnyOperationRecord::Fs(record), written) {
            Ok(_) => Ok(body),
            Err(e) => Err(e),
        }
    }

    /// The record that an undo request is to undo.
    pub fn undone_record(&self, body: &RequestBody) -> (out: Option<FsOperationRecord>)
        ensures
            match body {
                RequestBody::Undo { operation_id } => match store::record_of(
                    self.store.log(),
                    operation_id@,
                ) {
                    Some(AnyOperationRecord::Fs(r)) => out == Some(r),
                    _ => out is None,
                },
                _ => out is None,
            },
    {
        match body {
            RequestBody::Undo { operation_id } => match self.store.find_record(
                operation_id.as_str(),
            ) {
                Some(AnyOperationRecord::Fs(r)) => Some(r.clone()),
                _ => None,
            },
            _ => None,
        }
    }

    /// Stores what came of a request and answers it.
    pub fn finish(
        &mut self,
        request_id: &str,
        result: Result<ResultBody, ProtocolError>,
        written: Result<(), ProtocolError>,
    ) -> (out: Reply)
        requires
            old(self).wf(),
            store::knows(old(self).store.requests(), request_id@),
        ensures
            final(self).wf(),
            final(self).same_but_store(*old(self)),
            final(self).store.log() == old(self).store.log(),
            final(self).store.last_id() == old(self).store.last_id(),
            finished(
                old(self).store.requests(),
                final(self).store.requests(),
                request_id@,
                result,
                written,
                out,
            ),
    {
        let i = match self.store.find_request(request_id) {
            Some(i) => i,
            None => vstd::pervasive::unreached(),
        };
        proof {
            store::entry_position_is(self.store.requests(), request_id@, i as int);
        }
        match result {
            Ok(body) => {
                let m = ServerMessage::Result { request_id: request_id.to_owned(), result: body };
                match self.store.remember(i, StoredResult::Done(m), written) {
                    Ok(_) => Reply::Stored(i),
                    Err(cause) => Reply::Fresh(
                        ServerMessage::Error { request_id: request_id.to_owned(), error: cause },
                    ),
                }
            },
            Err(e) => {
                let answer = e.clone();
                match self.store.remember(i, StoredResult::Error(e), written) {
                    Ok(_) => Reply::Fresh(
                        ServerMessage::Error { request_id: request_id.to_owned(), error: answer },
                    ),
                    Err(cause) => Reply::Fresh(
                        ServerMessage::Error { request_id: request_id.to_owned(), error: cause },
                    ),
                }
            },
        }
    }

    /// Finishes an exec request whose command ran but could not be recorded: the
    /// failure is the answer, whether or not it could be written as the result.
    pub fn finish_unrecorded(
        &mut self,
        request_id: &str,
        failure: ProtocolError,
        written: Result<(), ProtocolError>,
    ) -> (out: ServerMessage)
        requires
            old(self).wf(),
            store::knows(old(self).store.requests(), request_id@),
        ensures
            final(self).wf(),
            final(self).same_but_store(*old(self)),
            final(self).store.log() == old(self).store.log(),
            final(self).store.last_id() == old(self).store.last_id(),
            out.refuses(request_id@, failure),
            match written {
                Ok(_) => stored(
                    old(self).store.requests(),
                    final(self).store.requests(),
                    request_id@,
                    StoredResult::Error(failure),
                ),
                Err(_) => final(self).store.requests() == old(self).store.requests(),
            },
    {
        let i = match self.store.find_request(request_id) {
            Some(i) => i,
            None => vstd::pervasive::unreached(),
        };
        proof {
            store::entry_position_is(self.store.requests(), request_id@, i as int);
        }
        let answer = failure.clone();
        let _ = self.store.remember(i, StoredResult::Error(failure), written);
        ServerMessage::Error { request_id: request_id.to_owned(), error: answer }
    }

    /// Finishes an exec request whose command never started. The answer is the
    /// rejection, unless the result or the record could not be written: then it is
    /// the failure, that of the result first.
    pub fn finish_rejected(
        &mut self,
        request_id: &str,
        rejection: ProtocolError,
        recorded: Result<(), ProtocolError>,
        written: Result<(), ProtocolError>,
    ) -> (out: ServerMessage)
        requires
            old(self).wf(),
            store::knows(old(self).store.requests(), request_id@),
        ensures
            final(self).wf(),
            final(self).same_but_store(*old(self)),
            final(self).store.log() == old(self).store.log(),
            final(self).store.last_id() == old(self).store.last_id(),
            match (written, recorded) {
                (Err(cause), _) => out.refuses(request_id@, cause),
                (Ok(_), Err(cause)) => out.refuses(request_id@, cause),
                (Ok(_), Ok(_)) => out.refuses(request_id@, rejection),
            },
            match written {
                Ok(_) => stored(
                    old(self).store.requests(),
                    final(self).store.requests(),
                    request_id@,
                    StoredResult::Error(rejection),
                ),
                Err(_) => final(self).store.requests() == old(self).store.requests(),
            },
    {
        let i = match self.store.find_request(request_id) {
            Some(i) => i,
            None => vstd::pervasive::unreached(),
        };
        proof {
            store::entry_position_is(self.store.requests(), request_id@, i as int);
        }
        let answer = rejection.clone();
        let error = match self.store.remember(i, StoredResult::Error(rejection), written) {
            Err(cause) => cause,
            Ok(_) => match recorded {
                Err(cause) => cause,
                Ok(_) => answer,
            },
        };
        ServerMessage::Error { request_id: request_id.to_owned(), error }
    }

    /// The stored answer at a position.
    pub fn stored_answer(&self, i: usize) -> (out: Option<&ServerMessage>)
        requires
            i < self.store.requests().len(),
        ensures
            match self.store.requests()[i as int].result {
                Some(StoredResult::Done(m)) => out == Some(&m),
                _ => out is None,
            },
    {
        match &self.store.request_at(i).result {
            Some(StoredResult::Done(m)) => Some(m),
            _ => None,
        }
    }
}

/// A request that was entered is not carried out a second time: until it is
/// finished, the same request is refused.
pub proof fn claimed_requests_are_not_repeated(
    requests: Seq<RequestEntry>,
    entry: RequestEntry,
    out: Admission<'_>,
)
    requires
        store::one_entry_each(requests.push(entry)),
        entry.result is None,
        admitted(out, requests.push(entry), entry.request_id@),
    ensures
        out matches Admission::Fresh(ServerMessage::Error { request_id, error }) && request_id@
            == entry.request_id@ && error.says(
            ErrorCode::InvalidRequest,
            "request already in progress"@,
        ),
{
    let all = requests.push(entry);
    assert(all[requests.len() as int] == entry);
    store::entry_is_found(all, requests.len() as int);
}

/// A request that was answered is answered the same again, without being carried
/// out again: the result where there was one, the refusal where it was refused.
pub proof fn answered_requests_are_replayed(
    before: Seq<RequestEntry>,
    after: Seq<RequestEntry>,
    id: Seq<char>,
    result: Result<ResultBody, ProtocolError>,
    reply: Reply,
    out: Admission<'_>,
)
    requires
        store::one_entry_each(before),
        store::knows(before, id),
        finished(before, after, id, result, Ok(()), reply),
        admitted(out, after, id),
    ensures
        match result {
            Ok(body) => {
                &&& out matches Admission::Stored(m) && m.answers(id, body)
                &&& reply matches Reply::Stored(i) && after[i as int].result matches Some(
                    StoredResult::Done(first),
                ) && out == Admission::Stored(&first)
            },
            Err(e) => {
                &&& out matches Admission::Fresh(m) && m.refuses(id, e)
                &&& reply matches Reply::Fresh(first) && first.refuses(id, e)
            },
        },
{
    let i = store::entry_position(before, id);
    assert(0 <= i < before.len() && before[i].request_id@ == id);
    assert forall|a: int, b: int| 0 <= a < b < after.len() implies (
    #[trigger] after[a]).request_id@ != (#[trigger] after[b]).request_id@ by {
        assert(before[a].request_id@ != before[b].request_id@);
    }
    store::entry_is_found(after, i);
}

/// Finishing a request changes nothing that is known of any other.
pub proof fn finishing_touches_one_request(
    before: Seq<RequestEntry>,
    after: Seq<RequestEntry>,
    id: Seq<char>,
    result: StoredResult,
    other: Seq<char>,
)
    requires
        store::one_entry_each(before),
        store::knows(before, id),
        stored(before, after, id, result),
        other != id,
    ensures
        store::entry_of(after, other) == store::entry_of(before, other),
{
    let i = store::entry_position(before, id);
    assert(0 <= i < before.len() && before[i].request_id@ == id);
    assert forall|a: int, b: int| 0 <= a < b < after.len() implies (
    #[trigger] after[a]).request_id@ != (#[trigger] after[b]).request_id@ by {
        assert(before[a].request_id@ != before[b].request_id@);
    }
    if store::knows(before, other) {
        let k = store::entry_position(before, other);
        assert(0 <= k < before.len() && before[k].request_id@ == other);
        store::entry_is_found(before, k);
        assert(after[k] == before[k]);
        store::entry_is_found(after, k);
    } else {
        assert(!store::knows(after, other)) by {
            if store::knows(after, other) {
                let k = choose|k: int|
                    0 <= k < after.len() && (#[trigger] after[k]).request_id@ == other;
                assert(before[k].request_id@ == after[k].request_id@);
            }
        }
    }
}

/// Mutations are write-ahead: from its announcement on a mutation stands in the
/// log as one of which nobody knows what came of it, so that recovery finds it,
/// and its record closes it.
pub proof fn announcements_stand_until_the_commit(
    log: Seq<AnyOperationRecord>,
    p: PreparedRecord,
    record: FsOperationRecord,
)
    requires
        record.operation_id@ == p.operation_id@,
    ensures
        store::unresolved(log.push(AnyOperationRecord::Prepared(p)), log.len() as int),
        !store::unresolved(
            log.push(AnyOperationRecord::Prepared(p)).push(AnyOperationRecord::Fs(record)),
            log.len() as int,
        ),
{
    let both = log.push(AnyOperationRecord::Prepared(p)).push(AnyOperationRecord::Fs(record));
    assert(both[log.len() as int] == AnyOperationRecord::Prepared(p));
    assert(both.last() == AnyOperationRecord::Fs(record));
    assert(both[both.len() - 1] is Fs);
}

/// A command that ran is answered by one message, and that message ends its
/// request: it tells how the command ended and how long it took, and holds all of
/// each stream of up to 16 KiB, and of a longer one the first 4 KiB and the last
/// 12 KiB, with the counts of all bytes and of those left out.
pub proof fn commands_are_answered_by_one_terminal_message(
    before: Seq<RequestEntry>,
    after: Seq<RequestEntry>,
    id: Seq<char>,
    result: ExecResult,
    stdout: Seq<u8>,
    stderr: Seq<u8>,
    reply: Reply,
)
    requires
        exec::previews(result.stdout, stdout),
        exec::previews(result.stderr, stderr),
        finished(before, after, id, Ok(ResultBody::Exec(result)), Ok(()), reply),
    ensures
        reply matches Reply::Stored(i) && after[i as int].result matches Some(
            StoredResult::Done(m),
        ) && m.spec_is_terminal() && m.answers(id, ResultBody::Exec(result)),
        stdout.len() <= 16384 ==> {
            let kept = vstd::math::min(stdout.len() as int, 4096);
            &&& result.stdout.prefix@ == crate::utf8::lossy_text(stdout.take(kept))
            &&& result.stdout.suffix@ == crate::utf8::lossy_text(stdout.skip(kept))
            &&& result.stdout.total_bytes == stdout.len()
            &&& result.stdout.omitted_bytes == 0
        },
        stderr.len() <= 16384 ==> {
            let kept = vstd::math::min(stderr.len() as int, 4096);
            &&& result.stderr.prefix@ == crate::utf8::lossy_text(stderr.take(kept))
            &&& result.stderr.suffix@ == crate::utf8::lossy_text(stderr.skip(kept))
            &&& result.stderr.total_bytes == stderr.len()
            &&& result.stderr.omitted_bytes == 0
        },
        16384 < stdout.len() <= u64::MAX ==> {
            &&& result.stdout.prefix@ == crate::utf8::lossy_text(stdout.take(4096))
            &&& result.stdout.suffix@ == crate::utf8::lossy_text(stdout.skip(stdout.len() - 12288))
            &&& result.stdout.total_bytes == stdout.len()
            &&& result.stdout.omitted_bytes == stdout.len() - 16384
        },
        16384 < stderr.len() <= u64::MAX ==> {
            &&& result.stderr.prefix@ == crate::utf8::lossy_text(stderr.take(4096))
            &&& result.stderr.suffix@ == crate::utf8::lossy_text(stderr.skip(stderr.len() - 12288))
            &&& result.stderr.total_bytes == stderr.len()
            &&& result.stderr.omitted_bytes == stderr.len() - 16384
        },
{
    if stdout.len() <= u64::MAX {
        exec::previews_tell_what_they_leave_out(result.stdout, stdout);
    }
    if stderr.len() <= u64::MAX {
        exec::previews_tell_what_they_leave_out(result.stderr, stderr);
    }
    assert(stdout.len() <= 4096 ==> stdout.take(stdout.len() as int) =~= stdout);
    assert(stderr.len() <= 4096 ==> stderr.take(stderr.len() as int) =~= stderr);
    assert(stdout.len() <= 4096 ==> stdout.skip(stdout.len() as int) =~= Seq::<u8>::empty());
    assert(stderr.len() <= 4096 ==> stderr.skip(stderr.len() as int) =~= Seq::<u8>::empty());
    assert(crate::utf8::lossy_text(Seq::<u8>::empty()) =~= Seq::<char>::empty());
}

/// Whatever a request is answered when it is finished ends the request and names
/// it.
pub proof fn finishing_sends_a_terminal_message(
    before: Seq<RequestEntry>,
    after: Seq<RequestEntry>,
    id: Seq<char>,
    result: Result<ResultBody, ProtocolError>,
    written: Result<(), ProtocolError>,
    reply: Reply,
)
    requires
        finished(before, after, id, result, written, reply),
    ensures
        match reply {
            Reply::Stored(i) => after[i as int].result matches Some(StoredResult::Done(m))
                && m.spec_is_terminal() && m.spec_request_id() == id,
            Reply::Fresh(m) => m.spec_is_terminal() && m.spec_request_id() == id,
        },
{
}

/// An operation of which no line is left, such as one that was pruned, is not
/// found: neither to undo it nor to look it up.
pub proof fn forgotten_operations_are_not_found(
    before: Server,
    after: Server,
    operation_id: String,
    body: RequestBody,
    seen: Observed,
    out: Decision,
)
    requires
        forall|i: int|
            0 <= i < before.store.log().len() ==> (
            #[trigger] before.store.log()[i]).spec_operation_id() != operation_id@,
        body == (RequestBody::Undo { operation_id }) || body == (RequestBody::OperationGet {
            operation_id,
        }),
        decided(before, after, body, seen, out),
    ensures
        refused(out, ErrorCode::OperationNotFound, "operation not found: "@ + operation_id@),
{
    store::operations_are_found(before.store.log(), operation_id@);
}

/// Undo undoes: a write, patch or removal that was recorded and whose file is
/// still as it left it is undone by a request that names its operation, and the
/// file is then as it was before.
pub proof fn recorded_mutations_can_be_undone(
    before: Server,
    after: Server,
    m: Mutation,
    record: FsOperationRecord,
    operation_id: String,
    was: Option<Seq<u8>>,
    is: Option<Vec<u8>>,
    kept: Option<Vec<u8>>,
    out: Decision,
)
    requires
        record.kind != OperationKind::Undo,
        m.turns(record.kind, record.path@, was, fs_ops::bytes_of(is)),
        record.before_hash == m.before_hash,
        record.after_hash == m.after_hash,
        store::record_of(before.store.log(), operation_id@) == Some(
            AnyOperationRecord::Fs(record),
        ),
        fs_ops::bytes_of(kept) == was,
        decided(
            before,
            after,
            (RequestBody::Undo { operation_id }),
            (Observed::Undone { current: Ok(is), kept }),
            out,
        ),
    ensures
        out matches Decision::Mutate(undoing) && undoing.mutation().effect.state() == was
            && undoing.mutation().path@ == record.path@,
{
}

/// A request asks about nothing but its own path: listing about a directory there,
/// a description about what is there, reading about its content, a change about the
/// file, a command about its directory, an upload and a download about the place.
pub proof fn requests_ask_about_their_own_path(server: Server, body: RequestBody, need: Need)
    requires
        needs(server, body, need),
    ensures
        body matches RequestBody::List { path, .. } ==> need == (Need::Directory { path }),
        body matches RequestBody::Stat { path } ==> need == (Need::Node { path }),
        body matches RequestBody::Read { path, .. } ==> need == (Need::Content { path }),
        body matches RequestBody::Write { path, .. } ==> need == (Need::File { path }),
        body matches RequestBody::Patch { path, .. } ==> need == (Need::File { path }),
        body matches RequestBody::Delete { path } ==> need == (Need::File { path }),
        body matches RequestBody::Exec { cwd, .. } ==> need == (Need::WorkingDir { path: cwd }),
        body matches RequestBody::UploadPrepare { path, .. } ==> need == (Need::UploadPlace {
            path,
        }),
        body matches RequestBody::DownloadRecord { path, .. } ==> need == (Need::Place { path }),
{
}

/// Requests that look at files change nothing that the server remembers, and are
/// answered from what was seen.
pub proof fn reading_requests_are_answered(
    before: Server,
    after: Server,
    body: RequestBody,
    seen: Observed,
    out: Decision,
)
    requires
        decided(before, after, body, seen, out),
        body is List || body is Stat || body is Read,
    ensures
        after == before,
        out is Answer,
        body matches RequestBody::List { path, offset, limit } ==> (seen matches
            Observed::Directory(dir) && fs_ops::listed(out->Answer_0, path@, dir, offset, limit)),
        body matches RequestBody::Stat { path } ==> (seen matches Observed::Node(node)
            && fs_ops::stated(out->Answer_0, path@, node)),
        body matches RequestBody::Read { path, offset, limit } ==> (seen matches
            Observed::Content(node) && fs_ops::read_answered(
            out->Answer_0,
            path@,
            node,
            offset,
            limit,
        )),
{
}

/// Changing a file is granted on what was seen of the file: a write where no hash
/// or the file's own was given, a patch where the file's own was given and the
/// script applies to its text, a removal where there is a file. Nothing that the
/// server remembers changes before it is announced.
pub proof fn changes_are_decided_on_what_was_seen(
    before: Server,
    after: Server,
    body: RequestBody,
    is_dir: bool,
    current: Option<Vec<u8>>,
    out: Decision,
)
    requires
        body is Write || body is Patch || body is Delete,
        decided(before, after, body, (Observed::File { is_dir, current: Ok(current) }), out),
    ensures
        after == before,
        out is Mutate || (out matches Decision::Answer(r) && r is Err),
        body matches RequestBody::Write { path, content, base_hash } ==> {
            &&& out is Mutate <==> base_hash is None || (current is Some && base_hash->0@
                == "sha256:"@ + crate::hash::hex(crate::hash::sha256(current->0@)))
            &&& out matches Decision::Mutate(p) ==> {
                &&& p.mutation().kind == OperationKind::Write
                &&& p.mutation().path@ == path@
                &&& p.mutation().effect matches Effect::Put(bytes) && bytes@
                    == vstd::utf8::encode_utf8(content@)
            }
        },
        body matches RequestBody::Patch { path, base_hash, patch } ==> {
            &&& out is Mutate <==> {
                &&& current is Some
                &&& base_hash@ == "sha256:"@ + crate::hash::hex(crate::hash::sha256(current->0@))
                &&& vstd::utf8::valid_utf8(current->0@)
                &&& crate::patch::patched(vstd::utf8::decode_utf8(current->0@), patch@) is Ok
            }
            &&& out matches Decision::Mutate(p) ==> {
                &&& p.mutation().kind == OperationKind::Patch
                &&& p.mutation().path@ == path@
                &&& p.mutation().effect matches Effect::Put(bytes) && bytes@
                    == vstd::utf8::encode_utf8(
                    crate::patch::patched(vstd::utf8::decode_utf8(current->0@), patch@)->Ok_0,
                )
            }
        },
        body matches RequestBody::Delete { path } ==> {
            &&& out is Mutate <==> !is_dir && current is Some
            &&& out matches Decision::Mutate(p) ==> {
                &&& p.mutation().kind == OperationKind::Delete
                &&& p.mutation().path@ == path@
                &&& p.mutation().effect is Remove
            }
        },
{
    let c = fs_ops::bytes_of(current);
    let r: Result<Mutation, ProtocolError> = match out {
        Decision::Mutate(p) => Ok(p.mutation()),
        Decision::Answer(Err(e)) => Err(e),
        _ => Ok(arbitrary()),
    };
    match body {
        RequestBody::Write { path, content, base_hash } => {
            fs_ops::writes_put_the_text(r, path@, c, content@, fs_ops::chars_in(base_hash));
        },
        RequestBody::Patch { path, base_hash, patch } => {
            fs_ops::patches_put_the_patched_text(r, path@, c, base_hash@, patch@);
        },
        RequestBody::Delete { path } => {
            if !is_dir {
                fs_ops::removals_leave_nothing(r, path@, false, c);
            }
        },
        _ => {},
    }
}

/// A file that cannot be read for a change refuses the change with the reason.
pub proof fn unreadable_files_are_not_changed(
    before: Server,
    after: Server,
    body: RequestBody,
    cause: ProtocolError,
    out: Decision,
)
    requires
        body is Write || body is Patch || body is Delete,
        decided(before, after, body, (Observed::File { is_dir: false, current: Err(cause) }), out),
    ensures
        after == before,
        out == Decision::Answer(Err(cause)),
{
}

/// An undo names an operation that changed a file, and is decided by the newest
/// record of it; a command, a transfer and what is not known cannot be undone.
pub proof fn undo_goes_by_the_newest_record(
    before: Server,
    after: Server,
    operation_id: String,
    seen: Observed,
    i: int,
    out: Decision,
)
    requires
        decided(before, after, (RequestBody::Undo { operation_id }), seen, out),
        0 <= i < before.store.log().len(),
        before.store.log()[i].spec_operation_id() == operation_id@,
        before.store.log()[i] is Fs || before.store.log()[i] is Exec
            || before.store.log()[i] is Transfer,
        forall|k: int|
            i < k < before.store.log().len() && ((#[trigger] before.store.log()[k]) is Fs
                || before.store.log()[k] is Exec || before.store.log()[k] is Transfer)
                ==> before.store.log()[k].spec_operation_id() != operation_id@,
    ensures
        after == before,
        before.store.log()[i] is Exec || before.store.log()[i] is Transfer ==> (
        out matches Decision::Answer(Err(e)) && e.code == ErrorCode::InvalidRequest),
        before.store.log()[i] matches AnyOperationRecord::Fs(record) ==> {
            &&& seen matches Observed::Undone { current, kept }
            &&& match current {
                Err(cause) => out == Decision::Answer(Err(cause)),
                Ok(c) => match out {
                    Decision::Mutate(p) => undo::undo_decided(
                        Ok(p.mutation()),
                        record,
                        fs_ops::bytes_of(c),
                        fs_ops::bytes_of(kept),
                    ),
                    Decision::Answer(r) => r is Err && undo::undo_decided(
                        Err(r->Err_0),
                        record,
                        fs_ops::bytes_of(c),
                        fs_ops::bytes_of(kept),
                    ),
                    _ => false,
                },
            }
        },
{
    store::newest_lines_are_found(before.store.log(), i);
}

/// A history request is answered with the newest operations of the log in their
/// order, at most as many as it asks for, or 50 where it does not say; one that asks
/// for more than 100 is refused.
pub proof fn history_requests_are_answered(
    before: Server,
    after: Server,
    limit: Option<usize>,
    seen: Observed,
    out: Decision,
)
    requires
        decided(before, after, (RequestBody::History { limit }), seen, out),
    ensures
        after == before,
        ({
            let most = match limit {
                Some(n) => n as int,
                None => 50,
            };
            let all = before.store.log().filter(
                |r: AnyOperationRecord| r is Fs || r is Exec || r is Transfer,
            );
            &&& most > 100 ==> (out matches Decision::Answer(Err(e)) && e.code
                == ErrorCode::InvalidRequest)
            &&& most <= 100 ==> {
                &&& out matches Decision::Answer(Ok(ResultBody::History { operations }))
                &&& operations@.len() == vstd::math::min(all.len() as int, most)
                &&& forall|i: int|
                    0 <= i < operations@.len() ==> (#[trigger] operations@[i]).same(
                        all[all.len() - operations@.len() + i],
                    )
            }
        }),
{
    if let Decision::Answer(Ok(ResultBody::History { operations })) = out {
        let most = match limit {
            Some(n) => n as nat,
            None => 50,
        };
        store::history_tells_of_every_operation(operations@, before.store.log(), most);
    }
}

/// A file operation or a command is looked up by its id and told as it was recorded
/// last; a transfer, and what was only announced or aborted, is not found so.
pub proof fn operations_are_looked_up(
    before: Server,
    after: Server,
    operation_id: String,
    seen: Observed,
    i: int,
    out: Decision,
)
    requires
        decided(before, after, (RequestBody::OperationGet { operation_id }), seen, out),
        0 <= i < before.store.log().len(),
        before.store.log()[i].spec_operation_id() == operation_id@,
        before.store.log()[i] is Fs || before.store.log()[i] is Exec
            || before.store.log()[i] is Transfer,
        forall|k: int|
            i < k < before.store.log().len() && ((#[trigger] before.store.log()[k]) is Fs
                || before.store.log()[k] is Exec || before.store.log()[k] is Transfer)
                ==> before.store.log()[k].spec_operation_id() != operation_id@,
    ensures
        after == before,
        !(before.store.log()[i] is Transfer) ==> (out matches Decision::Answer(
            Ok(ResultBody::Operation(d)),
        ) && d.record.same(before.store.log()[i])),
        before.store.log()[i] is Transfer ==> (out matches Decision::Answer(Err(e)) && e.code
            == ErrorCode::OperationNotFound),
{
    store::newest_lines_are_found(before.store.log(), i);
}

/// Asking for the status of a request is answered with what is known of it.
pub proof fn status_requests_are_answered(
    before: Server,
    after: Server,
    target: String,
    seen: Observed,
    i: int,
    out: Decision,
)
    requires
        before.wf(),
        decided(before, after, (RequestBody::RequestStatus { target }), seen, out),
    ensures
        after == before,
        out matches Decision::Answer(Ok(ResultBody::RequestStatus(r))) && r.target@ == target@ && {
            let requests = before.store.requests();
            &&& (forall|k: int|
                0 <= k < requests.len() ==> (#[trigger] requests[k]).request_id@ != target@)
                ==> r.status == crate::messages::RequestStatus::Unknown
            &&& 0 <= i < requests.len() && requests[i].request_id@ == target@
                ==> match requests[i].result {
                None => r.status == crate::messages::RequestStatus::InProgress,
                Some(StoredResult::Done(_)) => r.status == crate::messages::RequestStatus::Done,
                Some(StoredResult::Error(e)) => r.status == crate::messages::RequestStatus::Error
                    && r.error == Some(e),
            }
        },
{
    if let Decision::Answer(Ok(ResultBody::RequestStatus(r))) = out {
        store::statuses_tell_what_came(r, before.store.requests(), target@, i);
    }
}

/// Pruning keeps as many of the newest operations as it is told to, or as the server
/// is set up to keep; where neither says how many, nothing is pruned.
pub proof fn pruning_requests_are_carried_out(
    before: Server,
    after: Server,
    keep: Option<usize>,
    seen: Observed,
    out: Decision,
)
    requires
        before.wf(),
        decided(before, after, (RequestBody::Gc { keep }), seen, out),
    ensures
        keep is None && before.history_limit is None ==> after.store == before.store && (
        out matches Decision::Answer(Err(e)) && e.code == ErrorCode::InvalidRequest),
        keep is Some || before.history_limit is Some ==> {
            let most = match keep {
                Some(k) => k as int,
                None => before.history_limit->0 as int,
            };
            let recorded = |r: AnyOperationRecord| r is Fs || r is Exec || r is Transfer;
            let had = before.store.log().filter(recorded);
            let has = after.store.log().filter(recorded);
            &&& out matches Decision::Answer(Ok(ResultBody::Gc(g)))
            &&& has.len() == vstd::math::min(had.len() as int, most)
            &&& has == had.skip(had.len() - has.len())
            &&& g.retained_operations == has.len()
            &&& g.removed_operations == had.len() - has.len()
            &&& g.removed_requests == before.store.requests().len()
                - after.store.requests().len()
        },
        after.workspace == before.workspace && after.config == before.config && after.uploads
            == before.uploads && after.history_limit == before.history_limit,
{
    if let Decision::Answer(Ok(ResultBody::Gc(g))) = out {
        let most = match keep {
            Some(k) => k as nat,
            None => before.history_limit->0 as nat,
        };
        if keep is Some || before.history_limit is Some {
            store::pruning_drops_the_oldest(
                before.store,
                after.store,
                most,
                (PruneStats {
                    removed_operations: g.removed_operations,
                    removed_requests: g.removed_requests,
                    retained_operations: g.retained_operations,
                }),
            );
        }
    }
}

/// A command gets an operation id, the next number, whether it is run or refused;
/// it is run exactly where it has a program, its profile is declared and its
/// directory is one inside the workspace.
pub proof fn commands_are_run_or_refused(
    before: Server,
    after: Server,
    argv: Vec<String>,
    cwd: Option<String>,
    profile: Option<String>,
    timeout_ms: Option<u64>,
    dir: Result<WorkingDir, ProtocolError>,
    out: Decision,
)
    requires
        decided(
            before,
            after,
            (RequestBody::Exec { argv, cwd, profile, timeout_ms }),
            Observed::WorkingDir(dir),
            out,
        ),
    ensures
        ({
            let named = match profile {
                Some(p) => Some(p@),
                None => match before.config.default_profile {
                    Some(p) => Some(p@),
                    None => None,
                },
            };
            let usable = dir matches Ok(d) && d.inside && d.is_dir;
            &&& out is Run <==> argv@.len() > 0 && (named is None
                || before.config.profiles@.contains_key(named->0)) && usable
            &&& !(out is Run) ==> out is Reject
        }),
        after.store.last_id() == before.store.last_id() + 1,
        out matches Decision::Run { operation_id, plan } ==> {
            &&& operation_id@ == "op-"@ + text::decimal((before.store.last_id() + 1) as nat)
            &&& plan.timeout_ms == timeout_ms
            &&& profile is None && before.config.default_profile is None ==> plan.command@ == argv@
        },
        out matches Decision::Reject { operation_id, .. } ==> operation_id@ == "op-"@
            + text::decimal((before.store.last_id() + 1) as nat),
{
    store::operation_ids_are_numbered((before.store.last_id() + 1) as nat);
    exec::commands_are_refused_for_the_first_reason(
        before.config,
        dir,
        as_name(profile),
        argv@,
        arbitrary(),
    );
    if let Decision::Run { plan, .. } = out {
        exec::commands_are_started_under_their_profile(
            plan,
            before.config,
            as_name(profile),
            argv@,
            timeout_ms,
        );
    }
}

/// A mutation is recorded as it was decided, under the id that it was announced
/// with, and with the hash that was found when it was carried out where it wrote the
/// file; and the request is answered with the hashes of its record.
pub proof fn mutations_are_recorded_as_decided(
    p: PreparedRecord,
    operation_id: Seq<char>,
    request_id: Seq<char>,
    m: Mutation,
    announced_ms: u64,
    found: Option<String>,
    record: FsOperationRecord,
    timestamp_ms: u64,
    undone: Option<FsOperationRecord>,
    body: ResultBody,
)
    requires
        announces(p, operation_id, request_id, m, announced_ms),
        record == record_of_mutation(p, recorded_before(m, found), timestamp_ms),
        answers_mutation(body, record, undone),
    ensures
        p.operation_id@ == operation_id && record.operation_id@ == operation_id,
        p.request_id@ == request_id && record.request_id@ == request_id,
        p.kind == m.kind && record.kind == m.kind,
        p.path == m.path && record.path == m.path,
        p.after_hash == m.after_hash && record.after_hash == m.after_hash,
        p.before_hash == m.before_hash,
        m.kind == OperationKind::Write ==> record.before_hash == found,
        m.kind != OperationKind::Write ==> record.before_hash == m.before_hash,
        record.timestamp_ms == timestamp_ms,
        undone is None ==> (body matches ResultBody::WriteOrPatch(w) && w.operation_id@
            == operation_id && w.old_hash == record.before_hash && w.new_hash == m.after_hash),
        undone matches Some(u) ==> (body matches ResultBody::Undo(r) && r.operation_id@
            == operation_id && r.restored_hash == u.before_hash && r.new_hash == m.after_hash),
{
}

/// The record of a command holds what was asked for and what came of it; that of a
/// command that was refused holds the refusal and no exit code.
pub proof fn commands_are_recorded_as_they_ended(
    record: ExecOperationRecord,
    operation_id: Seq<char>,
    request_id: Seq<char>,
    request: ExecRequest,
    o: ExecOutcome,
    e: ProtocolError,
    timestamp_ms: u64,
)
    ensures
        records_run(record, request_id, request, o, timestamp_ms) || records_rejection(
            record,
            operation_id,
            request_id,
            request,
            e,
            timestamp_ms,
        ) ==> {
            &&& record.request_id@ == request_id
            &&& record.argv == request.argv
            &&& record.cwd == request.cwd
            &&& record.profile == request.profile
            &&& record.timeout_ms == request.timeout_ms
            &&& record.timestamp_ms == timestamp_ms
        },
        records_run(record, request_id, request, o, timestamp_ms) ==> {
            &&& record.operation_id == o.operation_id
            &&& record.exit_code == Some(o.exit_code)
            &&& record.duration_ms == o.duration_ms
            &&& record.disposition == ExecDisposition::TimedOut <==> o.timed_out
            &&& record.disposition == ExecDisposition::Completed <==> !o.timed_out
            &&& record.error is Some <==> o.timed_out
            &&& record.error_code is Some <==> o.timed_out
            &&& record.output_truncated == Some(true) <==> o.output_truncated
        },
        records_rejection(record, operation_id, request_id, request, e, timestamp_ms) ==> {
            &&& record.operation_id@ == operation_id
            &&& record.disposition == ExecDisposition::Rejected
            &&& record.exit_code is None
            &&& record.error == Some(e.message)
            &&& record.error_code == Some(e.code)
        },
{
}

/// What a request is answered is stored under it and under no other, and is what was
/// found for it; where it could not be written, the failure is the answer and nothing
/// is stored.
pub proof fn answers_are_stored_under_their_request(
    before: Seq<RequestEntry>,
    after: Seq<RequestEntry>,
    i: int,
    result: Result<ResultBody, ProtocolError>,
    written: Result<(), ProtocolError>,
    out: Reply,
)
    requires
        store::one_entry_each(before),
        0 <= i < before.len(),
        finished(before, after, before[i].request_id@, result, written, out),
    ensures
        written matches Err(cause) ==> after == before && (out matches Reply::Fresh(m)
            && m matches ServerMessage::Error { request_id, error } && request_id@
            == before[i].request_id@ && error == cause),
        written is Ok ==> {
            &&& after.len() == before.len()
            &&& forall|k: int| 0 <= k < before.len() && k != i ==> #[trigger] after[k] == before[k]
            &&& after[i].request_id == before[i].request_id
            &&& after[i].op_kind == before[i].op_kind
            &&& result matches Ok(body) ==> {
                &&& out matches Reply::Stored(k) && k == i
                &&& after[i].result matches Some(StoredResult::Done(m))
                &&& m matches ServerMessage::Result { request_id, result: sent }
                &&& request_id@ == before[i].request_id@
                &&& sent == body
            }
            &&& result matches Err(e) ==> {
                &&& after[i].result == Some(StoredResult::Error(e))
                &&& out matches Reply::Fresh(m)
                &&& m matches ServerMessage::Error { request_id, error }
                &&& request_id@ == before[i].request_id@
                &&& error == e
            }
        },
{
    store::entry_position_is(before, before[i].request_id@, i);
}

/// A request is carried out exactly where no entry stands for it. Else it is answered
/// from its entry: with the very answer that it got, with the error that it was
/// refused with, or, while it is carried out, with an error that says so.
pub proof fn known_requests_are_answered_from_memory(
    out: Admission<'_>,
    requests: Seq<RequestEntry>,
    id: Seq<char>,
    i: int,
)
    requires
        store::one_entry_each(requests),
        admitted(out, requests, id),
    ensures
        out is New <==> (forall|k: int|
            0 <= k < requests.len() ==> (#[trigger] requests[k]).request_id@ != id),
        0 <= i < requests.len() && requests[i].request_id@ == id ==> match requests[i].result {
            Some(StoredResult::Done(m)) => out matches Admission::Stored(x) && *x == m,
            Some(StoredResult::Error(e)) => out matches Admission::Fresh(m)
                && m matches ServerMessage::Error { request_id, error } && request_id@ == id
                && error == e,
            None => out matches Admission::Fresh(m) && m matches ServerMessage::Error {
                request_id,
                error,
            } && request_id@ == id && error.code == ErrorCode::InvalidRequest,
        },
{
    if 0 <= i < requests.len() && requests[i].request_id@ == id {
        store::entry_is_found(requests, i);
    }
    if store::knows(requests, id) {
        let k = choose|k: int| 0 <= k < requests.len() && (#[trigger] requests[k]).request_id@ == id;
        store::entry_is_found(requests, k);
    }
}

/// An upload is staged where it is granted, installed where its staged bytes are as
/// declared, and given up where it is pending; a download is recorded where its path
/// is one of the workspace.
pub proof fn transfers_are_decided(
    before: Server,
    after: Server,
    body: RequestBody,
    seen: Observed,
    out: Decision,
)
    requires
        decided(before, after, body, seen, out),
    ensures
        body matches RequestBody::UploadPrepare { path, overwrite } ==> {
            &&& after == before
            &&& seen matches Observed::UploadPlace(place)
            &&& out is Stage <==> {
                &&& place matches Ok(p)
                &&& p.parent is Directory
                &&& p.target is Missing || (p.target is File && overwrite)
                &&& p.file_name is Some
            }
            &&& out is Stage || (out matches Decision::Answer(r) && r is Err)
        },
        body matches RequestBody::UploadCommit { transfer_id, size, .. } ==> {
            &&& after == before
            &&& out is Install <==> before.uploads@.contains_key(transfer_id@) && (
            seen matches Observed::Staging(StagingSeen::File { size: found }) && found == size)
            &&& out matches Decision::Install { install, upload } ==> upload
                == before.uploads@[transfer_id@] && (install == Install::Rename
                <==> upload.overwrite)
            &&& out is Install || (out matches Decision::Answer(r) && r is Err)
        },
        body matches RequestBody::UploadAbort { transfer_id } ==> {
            &&& out is Discard <==> before.uploads@.contains_key(transfer_id@)
            &&& out matches Decision::Discard(upload) ==> upload == before.uploads@[transfer_id@]
            &&& !after.uploads@.contains_key(transfer_id@)
            &&& forall|id: Seq<char>|
                id != transfer_id@ ==> (#[trigger] after.uploads@.contains_key(id)
                    <==> before.uploads@.contains_key(id))
            &&& after.store == before.store
        },
        body is DownloadRecord ==> {
            &&& after == before
            &&& seen matches Observed::Place(place)
            &&& out is Record <==> place is Ok
            &&& place matches Err(e) ==> out == Decision::Answer(Err(e))
        },
{
    match body {
        RequestBody::UploadPrepare { path, overwrite } => {
            let r: Result<StagingName, ProtocolError> = match out {
                Decision::Stage(name) => Ok(name),
                Decision::Answer(Err(e)) => Err(e),
                _ => Ok(arbitrary()),
            };
            transfer::uploads_are_granted_where_they_fit(
                r,
                path@,
                seen->UploadPlace_0,
                overwrite,
            );
        },
        RequestBody::UploadCommit { transfer_id, size, .. } => {
            if before.uploads@.contains_key(transfer_id@) {
                let r: Result<Install, ProtocolError> = match out {
                    Decision::Install { install, .. } => Ok(install),
                    Decision::Answer(Err(e)) => Err(e),
                    _ => Ok(arbitrary()),
                };
                transfer::commits_install_what_was_declared(
                    r,
                    before.uploads@,
                    transfer_id@,
                    size,
                    seen->Staging_0,
                    Seq::empty(),
                    transfer::Installed::Done,
                );
            }
        },
        _ => {},
    }
}

}

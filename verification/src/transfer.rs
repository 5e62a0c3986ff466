//! File transfer: the control plane that stages, commits and records transfers,
//! and the framing of the bytes themselves.

use vstd::hash_map::StringHashMap;
use vstd::prelude::*;

use crate::error::{ErrorCode, ProtocolError};
use crate::hash;
use crate::hash::StreamHash;
use crate::messages::{ResultBody, TransferResult, UploadPrepareResult};
use crate::record::{AnyOperationRecord, TransferDirection, TransferOperationRecord};
use crate::store::OperationStore;
use crate::text;

verus! {

/// The size of the buffer that a transfer is streamed through.
pub const TRANSFER_BUF_SIZE: usize = 64 * 1024;

/// A staged upload awaiting commit. It lives in memory alone: a client whose
/// connection drops simply uploads again.
#[derive(Debug, PartialEq, Eq)]
pub struct PendingUpload {
    pub staging: String,
    pub target: String,
    pub logical_path: String,
    pub overwrite: bool,
}

impl Clone for PendingUpload {
    fn clone(&self) -> (p: Self)
        ensures
            p == *self,
    {
        PendingUpload {
            staging: self.staging.clone(),
            target: self.target.clone(),
            logical_path: self.logical_path.clone(),
            overwrite: self.overwrite,
        }
    }
}

/// The uploads that await commit, by transfer id.
pub struct UploadRegistry {
    pending: StringHashMap<PendingUpload>,
}

/// What the file system shows of the directory that an upload goes to.
pub enum ParentSeen {
    /// The path has no parent.
    NoParent,
    Missing,
    Directory,
    Other,
    Failed(String),
}

/// What the file system shows where an upload goes.
pub enum TargetSeen {
    Missing,
    Directory,
    File,
    Other,
    Failed(String),
}

/// What the file system shows of a target.
pub struct UploadPlace {
    pub parent: ParentSeen,
    pub target: TargetSeen,
    pub file_name: Option<String>,
}

/// The error that refuses an upload, if one does: the code and the message.
pub open spec fn upload_refusal(path: Seq<char>, seen: UploadPlace, overwrite: bool) -> Option<
    (ErrorCode, Seq<char>),
> {
    match seen.parent {
        ParentSeen::NoParent => Some((ErrorCode::InvalidRequest, "path has no parent"@)),
        ParentSeen::Missing => Some(
            (
                ErrorCode::NotFound,
                "parent directory of "@ + path + " does not exist; create it first"@,
            ),
        ),
        ParentSeen::Other => Some(
            (ErrorCode::NotADirectory, "parent of "@ + path + " is not a directory"@),
        ),
        ParentSeen::Failed(m) => Some((ErrorCode::IoError, m@)),
        ParentSeen::Directory => match seen.target {
            TargetSeen::Directory => Some((ErrorCode::IsADirectory, "is a directory: "@ + path)),
            TargetSeen::Other => Some(
                (ErrorCode::NotAFile, "target exists and is not a regular file: "@ + path),
            ),
            TargetSeen::Failed(m) => Some((ErrorCode::IoError, m@)),
            TargetSeen::File => if !overwrite {
                Some(
                    (
                        ErrorCode::InvalidRequest,
                        "target already exists: "@ + path + "; pass overwrite=true to replace it"@,
                    ),
                )
            } else if seen.file_name is None {
                Some((ErrorCode::InvalidRequest, "path has no file name"@))
            } else {
                None
            },
            TargetSeen::Missing => if seen.file_name is None {
                Some((ErrorCode::InvalidRequest, "path has no file name"@))
            } else {
                None
            },
        },
    }
}

/// How a staging file is named: a random part goes between the two.
pub struct StagingName {
    pub prefix: String,
    pub suffix: String,
}

/// What is decided of an upload.
pub open spec fn upload_decided(
    out: Result<StagingName, ProtocolError>,
    path: Seq<char>,
    seen: Result<UploadPlace, ProtocolError>,
    overwrite: bool,
) -> bool {
    match seen {
        Err(cause) => out == Err::<StagingName, ProtocolError>(cause),
        Ok(place) => match upload_refusal(path, place, overwrite) {
            Some((code, message)) => out matches Err(e) && e.says(code, message),
            None => out matches Ok(name) && name.prefix@ == "."@ + place.file_name->0@ + "."@
                && name.suffix@ == ".part"@,
        },
    }
}

/// Grants an upload, or refuses it. `seen` is what the target's path leads to, or
/// the error that refuses the path. The staging file of a granted upload is made
/// in the target's directory, so that it can be moved into place.
pub fn upload_prepare(
    path: &str,
    seen: Result<UploadPlace, ProtocolError>,
    overwrite: bool,
) -> (out: Result<StagingName, ProtocolError>)
    ensures
        upload_decided(out, path@, seen, overwrite),
{
    let place = match seen {
        Ok(place) => place,
        Err(e) => {
            return Err(e);
        },
    };
    match place.parent {
        ParentSeen::Directory => {},
        ParentSeen::NoParent => {
            return Err(ProtocolError::new(ErrorCode::InvalidRequest, "path has no parent"));
        },
        ParentSeen::Other => {
            let m = text::concat3("parent of ", path, " is not a directory");
            return Err(ProtocolError::new(ErrorCode::NotADirectory, m.as_str()));
        },
        ParentSeen::Missing => {
            let m = text::concat3(
                "parent directory of ",
                path,
                " does not exist; create it first",
            );
            return Err(ProtocolError::new(ErrorCode::NotFound, m.as_str()));
        },
        ParentSeen::Failed(m) => {
            return Err(ProtocolError::new(ErrorCode::IoError, m.as_str()));
        },
    }
    match place.target {
        TargetSeen::Missing => {},
        TargetSeen::Directory => {
            let m = text::concat("is a directory: ", path);
            return Err(ProtocolError::new(ErrorCode::IsADirectory, m.as_str()));
        },
        TargetSeen::Other => {
            let m = text::concat("target exists and is not a regular file: ", path);
            return Err(ProtocolError::new(ErrorCode::NotAFile, m.as_str()));
        },
        TargetSeen::File => {
            if !overwrite {
                let m = text::concat3(
                    "target already exists: ",
                    path,
                    "; pass overwrite=true to replace it",
                );
                return Err(ProtocolError::new(ErrorCode::InvalidRequest, m.as_str()));
            }
        },
        TargetSeen::Failed(m) => {
            return Err(ProtocolError::new(ErrorCode::IoError, m.as_str()));
        },
    }
    match place.file_name {
        None => Err(ProtocolError::new(ErrorCode::InvalidRequest, "path has no file name")),
        Some(name) => Ok(
            StagingName {
                prefix: text::concat3(".", name.as_str(), "."),
                suffix: ".part".to_owned(),
            },
        ),
    }
}

/// What the file system shows of a staging file.
pub enum StagingSeen {
    Failed(String),
    Other,
    File { size: u64 },
}

/// How a staging file is put in place of its target.
#[derive(Debug, Clone, Copy, PartialEq, Eq, Structural)]
pub enum Install {
    /// Rename it, which replaces a target that is there.
    Rename,
    /// Link it and remove it, which fails where a target is there.
    Link,
}

/// What came of putting a staging file in place.
pub enum Installed {
    Done,
    /// A target appeared since the upload was prepared.
    TargetExists,
    RenameFailed(String),
    LinkFailed(String),
    RemoveFailed(String),
    SyncFailed(String),
}

/// The error of an install that did not succeed: the code and the message.
pub open spec fn install_refusal(logical_path: Seq<char>, installed: Installed) -> Option<
    (ErrorCode, Seq<char>),
> {
    match installed {
        Installed::Done => None,
        Installed::TargetExists => Some(
            (
                ErrorCode::InvalidRequest,
                "target was created while the upload ran: "@ + logical_path
                    + "; pass overwrite=true to replace it"@,
            ),
        ),
        Installed::RenameFailed(m) => Some((ErrorCode::IoError, "rename failed: "@ + m@)),
        Installed::LinkFailed(m) => Some((ErrorCode::IoError, "link into place failed: "@ + m@)),
        Installed::RemoveFailed(m) => Some((ErrorCode::IoError, "remove staging failed: "@ + m@)),
        Installed::SyncFailed(m) => Some((ErrorCode::IoError, "fsync target: "@ + m@)),
    }
}

fn io_error(what: &str, cause: &str) -> (e: ProtocolError)
    ensures
        e.says(ErrorCode::IoError, what@ + cause@),
{
    let m = text::concat(what, cause);
    ProtocolError::new(ErrorCode::IoError, m.as_str())
}

/// What came of putting a staging file in place, as the answer tells it.
pub fn check_install(logical_path: &str, installed: Installed) -> (out: Result<(), ProtocolError>)
    ensures
        match install_refusal(logical_path@, installed) {
            None => out is Ok,
            Some((code, message)) => out matches Err(e) && e.says(code, message),
        },
{
    match installed {
        Installed::Done => Ok(()),
        Installed::TargetExists => {
            let m = text::concat3(
                "target was created while the upload ran: ",
                logical_path,
                "; pass overwrite=true to replace it",
            );
            Err(ProtocolError::new(ErrorCode::InvalidRequest, m.as_str()))
        },
        Installed::RenameFailed(m) => Err(io_error("rename failed: ", m.as_str())),
        Installed::LinkFailed(m) => Err(io_error("link into place failed: ", m.as_str())),
        Installed::RemoveFailed(m) => Err(io_error("remove staging failed: ", m.as_str())),
        Installed::SyncFailed(m) => Err(io_error("fsync target: ", m.as_str())),
    }
}

fn unknown_transfer(transfer_id: &str) -> (e: ProtocolError)
    ensures
        e.says(ErrorCode::OperationNotFound, "unknown transfer id: "@ + transfer_id@),
{
    let m = text::concat("unknown transfer id: ", transfer_id);
    ProtocolError::new(ErrorCode::OperationNotFound, m.as_str())
}

impl View for UploadRegistry {
    type V = Map<Seq<char>, PendingUpload>;

    /// The pending uploads by transfer id.
    closed spec fn view(&self) -> Map<Seq<char>, PendingUpload> {
        self.pending@
    }
}

/// The error that refuses a commit, if one does: the code and the message.
pub open spec fn commit_refusal(
    pending: Map<Seq<char>, PendingUpload>,
    transfer_id: Seq<char>,
    size: u64,
    staged: StagingSeen,
) -> Option<(ErrorCode, Seq<char>)> {
    if !pending.contains_key(transfer_id) {
        Some((ErrorCode::OperationNotFound, "unknown transfer id: "@ + transfer_id))
    } else {
        match staged {
            StagingSeen::Failed(m) => Some(
                (ErrorCode::IoError, "staging file unreadable: "@ + m@),
            ),
            StagingSeen::Other => Some(
                (ErrorCode::NotAFile, "staging path is not a regular file"@),
            ),
            StagingSeen::File { size: found } => if found != size {
                Some(
                    (
                        ErrorCode::InvalidRequest,
                        "staging file has "@ + text::decimal(found as nat)
                            + " bytes but client declared "@ + text::decimal(size as nat),
                    ),
                )
            } else {
                None
            },
        }
    }
}

/// How a pending upload is put in place.
pub open spec fn install_of(pending: PendingUpload) -> Install {
    if pending.overwrite {
        Install::Rename
    } else {
        Install::Link
    }
}

impl UploadRegistry {
    pub fn new() -> (r: Self)
        ensures
            r@ == Map::<Seq<char>, PendingUpload>::empty(),
    {
        UploadRegistry { pending: StringHashMap::new() }
    }

    /// The pending upload of a transfer id.
    pub fn find(&self, transfer_id: &str) -> (out: Option<&PendingUpload>)
        ensures
            match out {
                Some(p) => self@.contains_key(transfer_id@) && self@[transfer_id@] == *p,
                None => !self@.contains_key(transfer_id@),
            },
    {
        self.pending.get(transfer_id)
    }

    /// Enters an upload whose staging file was made, and tells the client where
    /// it goes.
    pub fn register(&mut self, transfer_id: String, upload: PendingUpload) -> (body: ResultBody)
        ensures
            final(self)@ == old(self)@.insert(transfer_id@, upload),
            body == ResultBody::UploadPrepare(
                UploadPrepareResult { transfer_id, staging_path: upload.staging },
            ),
    {
        let staging_path = upload.staging.clone();
        self.pending.insert(transfer_id.clone(), upload);
        ResultBody::UploadPrepare(UploadPrepareResult { transfer_id, staging_path })
    }

    /// Forgets an upload that was committed.
    pub fn forget(&mut self, transfer_id: &str)
        ensures
            final(self)@ == old(self)@.remove(transfer_id@),
    {
        self.pending.remove(transfer_id);
    }
}

/// What is decided of a commit.
pub open spec fn commit_decided(
    out: Result<Install, ProtocolError>,
    pending: Map<Seq<char>, PendingUpload>,
    transfer_id: Seq<char>,
    size: u64,
    staged: StagingSeen,
) -> bool {
    match commit_refusal(pending, transfer_id, size, staged) {
        Some((code, message)) => out matches Err(e) && e.says(code, message),
        None => out == Ok::<Install, ProtocolError>(install_of(pending[transfer_id])),
    }
}

/// An upload never replaces a file that it was not told to replace: a target that
/// is there when it starts refuses it, it is put in place in the way that fails
/// on a target, and one that came up meanwhile refuses it then.
pub proof fn uploads_replace_only_when_told(
    path: Seq<char>,
    seen: UploadPlace,
    pending: Map<Seq<char>, PendingUpload>,
    transfer_id: Seq<char>,
    size: u64,
    staged: StagingSeen,
    install: Install,
)
    requires
        !(seen.target is Missing),
        pending.contains_key(transfer_id),
        !pending[transfer_id].overwrite,
        commit_decided(Ok(install), pending, transfer_id, size, staged),
    ensures
        upload_refusal(path, seen, false) is Some,
        install == Install::Link,
        install_refusal(path, Installed::TargetExists) is Some,
{
}

/// Decides how a staged upload is put in place, or refuses to. `staged` is
/// what the file system shows of its staging file.
pub fn upload_commit(
    registry: &UploadRegistry,
    transfer_id: &str,
    size: u64,
    staged: StagingSeen,
) -> (out: Result<Install, ProtocolError>)
    ensures
        commit_decided(out, registry@, transfer_id@, size, staged),
{
    let entry = match registry.pending.get(transfer_id) {
        Some(entry) => entry,
        None => {
            return Err(unknown_transfer(transfer_id));
        },
    };
    match staged {
        StagingSeen::Failed(m) => Err(io_error("staging file unreadable: ", m.as_str())),
        StagingSeen::Other => Err(
            ProtocolError::new(ErrorCode::NotAFile, "staging path is not a regular file"),
        ),
        StagingSeen::File { size: found } => {
            if found != size {
                let mut m = text::concat3(
                    "staging file has ",
                    text::decimal_u64(found).as_str(),
                    " bytes but client declared ",
                );
                m.append(text::decimal_u64(size).as_str());
                return Err(ProtocolError::new(ErrorCode::InvalidRequest, m.as_str()));
            }
            if entry.overwrite {
                Ok(Install::Rename)
            } else {
                Ok(Install::Link)
            }
        },
    }
}

/// What is decided of giving up an upload.
pub open spec fn abort_decided(
    out: Result<PendingUpload, ProtocolError>,
    pending: Map<Seq<char>, PendingUpload>,
    transfer_id: Seq<char>,
) -> bool {
    match out {
        Ok(p) => pending.contains_key(transfer_id) && p == pending[transfer_id],
        Err(e) => !pending.contains_key(transfer_id) && e.says(
            ErrorCode::OperationNotFound,
            "unknown transfer id: "@ + transfer_id,
        ),
    }
}

/// Gives up an upload. Returns what was pending, whose staging file is to be
/// removed.
pub fn upload_abort(registry: &mut UploadRegistry, transfer_id: &str) -> (out: Result<
    PendingUpload,
    ProtocolError,
>)
    ensures
        final(registry)@ == old(registry)@.remove(transfer_id@),
        abort_decided(out, old(registry)@, transfer_id@),
{
    let found = match registry.pending.get(transfer_id) {
        Some(entry) => Some(entry.clone()),
        None => None,
    };
    registry.pending.remove(transfer_id);
    match found {
        Some(entry) => Ok(entry),
        None => {
            assert(registry@ =~= old(registry)@.remove(transfer_id@));
            Err(unknown_transfer(transfer_id))
        },
    }
}

/// The answer to an upload that was given up. `removed` is what came of removing
/// the staging file; that it is gone already is no failure.
pub fn abort_result(transfer_id: &str, removed: Result<(), String>) -> (out: Result<
    ResultBody,
    ProtocolError,
>)
    ensures
        match removed {
            Ok(_) => out matches Ok(ResultBody::UploadAbort { transfer_id: id }) && id@
                == transfer_id@,
            Err(m) => out matches Err(e) && e.says(
                ErrorCode::IoError,
                "remove staging failed: "@ + m@,
            ),
        },
{
    match removed {
        Ok(_) => Ok(ResultBody::UploadAbort { transfer_id: transfer_id.to_owned() }),
        Err(m) => Err(io_error("remove staging failed: ", m.as_str())),
    }
}

/// Whether `record` records the transfer.
pub open spec fn records_transfer(
    record: TransferOperationRecord,
    operation_id: Seq<char>,
    request_id: Seq<char>,
    direction: TransferDirection,
    path: Seq<char>,
    size: u64,
    sha256: Seq<char>,
    duration_ms: u64,
    timestamp_ms: u64,
) -> bool {
    &&& record.operation_id@ == operation_id
    &&& record.request_id@ == request_id
    &&& record.direction == direction
    &&& record.path@ == path
    &&& record.size == size
    &&& record.sha256@ == sha256
    &&& record.duration_ms == duration_ms
    &&& record.timestamp_ms == timestamp_ms
}

/// The record of a transfer.
pub fn transfer_record(
    operation_id: &str,
    request_id: &str,
    direction: TransferDirection,
    path: &str,
    size: u64,
    sha256: &str,
    duration_ms: u64,
    timestamp_ms: u64,
) -> (record: TransferOperationRecord)
    ensures
        records_transfer(
            record,
            operation_id@,
            request_id@,
            direction,
            path@,
            size,
            sha256@,
            duration_ms,
            timestamp_ms,
        ),
{
    TransferOperationRecord {
        operation_id: operation_id.to_owned(),
        request_id: request_id.to_owned(),
        direction,
        path: path.to_owned(),
        size,
        sha256: sha256.to_owned(),
        duration_ms,
        timestamp_ms,
    }
}

/// The answer to a transfer that was recorded.
pub open spec fn result_of(record: TransferOperationRecord) -> ResultBody {
    ResultBody::Transfer(
        TransferResult {
            operation_id: record.operation_id,
            direction: record.direction,
            path: record.path,
            size: record.size,
            sha256: record.sha256,
            duration_ms: record.duration_ms,
        },
    )
}

/// The answer to a transfer that was recorded.
fn transfer_result(record: &TransferOperationRecord) -> (body: ResultBody)
    ensures
        body == result_of(*record),
{
    ResultBody::Transfer(
        TransferResult {
            operation_id: record.operation_id.clone(),
            direction: record.direction,
            path: record.path.clone(),
            size: record.size,
            sha256: record.sha256.clone(),
            duration_ms: record.duration_ms,
        },
    )
}

/// Records an upload under a new operation id once its file is in place, or
/// refuses it where the file could not be put there.
pub fn upload_record(
    store: &mut OperationStore,
    request_id: &str,
    upload: &PendingUpload,
    installed: Installed,
    size: u64,
    sha256: &str,
    duration_ms: u64,
    timestamp_ms: u64,
) -> (out: Result<TransferOperationRecord, ProtocolError>)
    requires
        old(store).wf(),
        old(store).last_id() < u64::MAX,
    ensures
        final(store).wf(),
        final(store).log() == old(store).log(),
        final(store).requests() == old(store).requests(),
        match install_refusal(upload.logical_path@, installed) {
            Some((code, message)) => {
                &&& out matches Err(e) && e.says(code, message)
                &&& final(store).last_id() == old(store).last_id()
            },
            None => {
                &&& final(store).last_id() == old(store).last_id() + 1
                &&& out matches Ok(record) && records_transfer(
                    record,
                    crate::store::operation_id(final(store).last_id() as nat),
                    request_id@,
                    TransferDirection::Upload,
                    upload.logical_path@,
                    size,
                    sha256@,
                    duration_ms,
                    timestamp_ms,
                )
            },
        },
{
    if let Err(e) = check_install(upload.logical_path.as_str(), installed) {
        return Err(e);
    }
    let id = store.next_operation_id();
    Ok(
        transfer_record(
            id.as_str(),
            request_id,
            TransferDirection::Upload,
            upload.logical_path.as_str(),
            size,
            sha256,
            duration_ms,
            timestamp_ms,
        ),
    )
}

/// Records a download under a new operation id, or refuses it for its path.
pub fn download_record(
    store: &mut OperationStore,
    request_id: &str,
    path: &str,
    place: Result<(), ProtocolError>,
    size: u64,
    sha256: &str,
    duration_ms: u64,
    timestamp_ms: u64,
) -> (out: Result<TransferOperationRecord, ProtocolError>)
    requires
        old(store).wf(),
        old(store).last_id() < u64::MAX,
    ensures
        final(store).wf(),
        final(store).log() == old(store).log(),
        final(store).requests() == old(store).requests(),
        match place {
            Err(cause) => {
                &&& out == Err::<TransferOperationRecord, ProtocolError>(cause)
                &&& final(store).last_id() == old(store).last_id()
            },
            Ok(_) => {
                &&& final(store).last_id() == old(store).last_id() + 1
                &&& out matches Ok(record) && records_transfer(
                    record,
                    crate::store::operation_id(final(store).last_id() as nat),
                    request_id@,
                    TransferDirection::Download,
                    path@,
                    size,
                    sha256@,
                    duration_ms,
                    timestamp_ms,
                )
            },
        },
{
    if let Err(e) = place {
        return Err(e);
    }
    let id = store.next_operation_id();
    Ok(
        transfer_record(
            id.as_str(),
            request_id,
            TransferDirection::Download,
            path,
            size,
            sha256,
            duration_ms,
            timestamp_ms,
        ),
    )
}

/// Adds the record of a transfer to the log, and answers with it.
pub fn finish_transfer(
    store: &mut OperationStore,
    record: TransferOperationRecord,
    written: Result<(), ProtocolError>,
) -> (out: Result<ResultBody, ProtocolError>)
    requires
        old(store).wf(),
        crate::store::operation_number(record.operation_id@) matches Some(n) ==> n <= old(
            store,
        ).last_id(),
    ensures
        final(store).wf(),
        final(store).last_id() == old(store).last_id(),
        final(store).requests() == old(store).requests(),
        match written {
            Ok(_) => {
                &&& final(store).log() == old(store).log().push(
                    AnyOperationRecord::Transfer(record),
                )
                &&& out == Ok::<ResultBody, ProtocolError>(result_of(record))
            },
            Err(cause) => {
                &&& final(store).log() == old(store).log()
                &&& out == Err::<ResultBody, ProtocolError>(cause)
            },
        },
{
    let body = transfer_result(&record);
    match store.append(AnyOperationRecord::Transfer(record), written) {
        Ok(_) => Ok(body),
        Err(e) => Err(e),
    }
}

/// What the receiving side reports.
#[derive(Debug, PartialEq, Eq)]
pub struct ReceiveMetadata {
    pub size: u64,
    pub sha256: String,
}

/// What the sending side announces.
#[derive(Debug, PartialEq, Eq)]
pub struct SendHeader {
    pub size: u64,
}

/// What the sending side closes with.
#[derive(Debug, PartialEq, Eq)]
pub struct SendTrailer {
    pub sha256: String,
}

/// Whether `out` is what the receiving side reports of the bytes that it received.
pub open spec fn reports(
    out: Result<ReceiveMetadata, String>,
    received: Seq<u8>,
    expect_size: u64,
) -> bool {
    match out {
        Ok(meta) => received.len() == expect_size && meta.size == expect_size && meta.sha256@
            == hash::content_hash(received),
        Err(m) => received.len() != expect_size && m@ == "received "@ + text::decimal(
            received.len(),
        ) + " bytes but caller declared "@ + text::decimal(expect_size as nat),
    }
}

/// The receiving side of a transfer.
pub struct Receiving {
    hash: StreamHash,
}

impl View for Receiving {
    type V = Seq<u8>;

    /// The bytes received so far.
    closed spec fn view(&self) -> Seq<u8> {
        self.hash@
    }
}

impl Receiving {
    pub closed spec fn wf(&self) -> bool {
        self.hash.wf()
    }

    pub fn new() -> (r: Self)
        ensures
            r.wf(),
            r@ == Seq::<u8>::empty(),
    {
        Receiving { hash: StreamHash::new() }
    }

    /// Takes the next bytes. Returns whether they were taken: a content that
    /// cannot be hashed is not.
    pub fn take(&mut self, chunk: &[u8]) -> (taken: bool)
        requires
            old(self).wf(),
        ensures
            final(self).wf(),
            taken == (old(self)@.len() + chunk@.len() < hash::MESSAGE_LIMIT),
            final(self)@ == (if taken {
                old(self)@ + chunk@
            } else {
                old(self)@
            }),
    {
        self.hash.update(chunk)
    }

    /// Reports what was received, or fails where it is not as much as the caller
    /// declared.
    pub fn finish(self, expect_size: u64) -> (out: Result<ReceiveMetadata, String>)
        requires
            self.wf(),
        ensures
            reports(out, self@, expect_size),
    {
        let total: u64 = self.hash.total();
        if total != expect_size {
            let mut m = text::concat3(
                "received ",
                text::decimal_u64(total).as_str(),
                " bytes but caller declared ",
            );
            m.append(text::decimal_u64(expect_size).as_str());
            return Err(m);
        }
        Ok(ReceiveMetadata { size: total, sha256: self.hash.finish() })
    }
}

/// How many bytes to read next into a buffer of the given size.
pub open spec fn wanted(announced: u64, sent: nat, buffer: usize) -> int {
    if announced - sent < buffer {
        announced - sent
    } else {
        buffer as int
    }
}

/// The sending side of a transfer: a file of a known size.
pub struct Sending {
    size: u64,
    hash: StreamHash,
}

impl View for Sending {
    type V = Seq<u8>;

    /// The bytes sent so far.
    closed spec fn view(&self) -> Seq<u8> {
        self.hash@
    }
}

impl Sending {
    /// No more was sent than was announced.
    pub closed spec fn wf(&self) -> bool {
        self.hash.wf() && self@.len() <= self.size && self.size < hash::MESSAGE_LIMIT
    }

    /// The size that was announced.
    pub closed spec fn announced(&self) -> u64 {
        self.size
    }

    /// Starts to send a file of the given size; one that cannot be hashed is
    /// refused.
    pub fn new(size: u64) -> (out: Option<Self>)
        ensures
            match out {
                Some(s) => size < hash::MESSAGE_LIMIT && s.wf() && s@ == Seq::<u8>::empty()
                    && s.announced() == size,
                None => size >= hash::MESSAGE_LIMIT,
            },
    {
        if size >= hash::MESSAGE_LIMIT {
            return None;
        }
        Some(Sending { size, hash: StreamHash::new() })
    }

    /// The header that announces the file.
    pub fn header(&self) -> (h: SendHeader)
        ensures
            h.size == self.announced(),
    {
        SendHeader { size: self.size }
    }

    /// How many bytes to read next into a buffer of the given size; none when all
    /// was sent.
    pub fn want(&self, buffer: usize) -> (n: usize)
        requires
            self.wf(),
        ensures
            n == wanted(self.announced(), self@.len(), buffer),
    {
        let remaining: u64 = self.size - self.hash.total();
        if remaining < buffer as u64 {
            remaining as usize
        } else {
            buffer
        }
    }

    /// Takes the bytes that were read, which are sent as they are. That nothing
    /// was read although something is left means that the file shrank.
    pub fn take(&mut self, path: &str, chunk: &[u8]) -> (out: Result<(), String>)
        requires
            old(self).wf(),
            old(self)@.len() + chunk@.len() <= old(self).announced(),
            old(self)@.len() < old(self).announced(),
        ensures
            final(self).wf(),
            final(self).announced() == old(self).announced(),
            final(self)@ == old(self)@ + chunk@,
            match out {
                Ok(_) => chunk@.len() > 0,
                Err(m) => chunk@.len() == 0 && m@ == "file shrank during send: "@ + path@,
            },
    {
        let ghost before = self@;
        if chunk.len() == 0 {
            assert(before + chunk@ =~= before);
            return Err(text::concat("file shrank during send: ", path));
        }
        let taken = self.hash.update(chunk);
        assert(taken);
        Ok(())
    }

    /// The trailer, when all was sent.
    pub fn finish(self) -> (t: SendTrailer)
        requires
            self.wf(),
            self@.len() == self.announced(),
        ensures
            t.sha256@ == hash::content_hash(self@),
    {
        SendTrailer { sha256: self.hash.finish() }
    }
}

/// What the two ends of a transfer say of the same bytes agrees: the size that
/// is announced is the size that is reported, and the hash that closes the
/// sending is the one that the receiving side reports. Where the hashes differ,
/// so do the bytes.
pub proof fn both_ends_agree(
    header: SendHeader,
    trailer: SendTrailer,
    sent: Seq<u8>,
    meta: ReceiveMetadata,
    received: Seq<u8>,
)
    requires
        header.size == sent.len(),
        trailer.sha256@ == hash::content_hash(sent),
        meta.size == received.len(),
        meta.sha256@ == hash::content_hash(received),
    ensures
        sent == received ==> header.size == meta.size && trailer.sha256@ == meta.sha256@,
        trailer.sha256@ != meta.sha256@ ==> sent != received,
{
}

/// An upload is granted exactly where its directory is there and its place is
/// free, or taken by a plain file that it was told to replace. It is staged beside
/// its target, under a hidden name that the target's name is part of.
pub proof fn uploads_are_granted_where_they_fit(
    out: Result<StagingName, ProtocolError>,
    path: Seq<char>,
    seen: Result<UploadPlace, ProtocolError>,
    overwrite: bool,
)
    requires
        upload_decided(out, path, seen, overwrite),
    ensures
        out is Ok <==> {
            &&& seen matches Ok(place)
            &&& place.parent is Directory
            &&& place.target is Missing || (place.target is File && overwrite)
            &&& place.file_name is Some
        },
        out matches Ok(name) ==> name.prefix@ == "."@ + seen->Ok_0.file_name->0@ + "."@
            && name.suffix@ == ".part"@,
        seen matches Err(cause) ==> out is Err && out->Err_0 == cause,
        seen matches Ok(place) ==> {
            &&& place.parent is Missing ==> out->Err_0.code == ErrorCode::NotFound
            &&& place.parent is Other ==> out->Err_0.code == ErrorCode::NotADirectory
            &&& place.parent is Directory && place.target is Directory ==> out->Err_0.code
                == ErrorCode::IsADirectory
            &&& place.parent is Directory && place.target is Other ==> out->Err_0.code
                == ErrorCode::NotAFile
            &&& place.parent is Directory && place.target is File && !overwrite
                ==> out->Err_0.code == ErrorCode::InvalidRequest
        },
{
}

/// A commit is granted exactly where the upload is pending and as many bytes were
/// staged as the client declares; the target is replaced exactly where the upload
/// was told to. What came of it is told as it is.
pub proof fn commits_install_what_was_declared(
    out: Result<Install, ProtocolError>,
    pending: Map<Seq<char>, PendingUpload>,
    transfer_id: Seq<char>,
    size: u64,
    staged: StagingSeen,
    path: Seq<char>,
    installed: Installed,
)
    requires
        commit_decided(out, pending, transfer_id, size, staged),
    ensures
        out is Ok <==> pending.contains_key(transfer_id) && (staged matches StagingSeen::File {
            size: found,
        } && found == size),
        out matches Ok(install) ==> (install == Install::Rename
            <==> pending[transfer_id].overwrite) && (install == Install::Link
            <==> !pending[transfer_id].overwrite),
        !pending.contains_key(transfer_id) ==> out->Err_0.code == ErrorCode::OperationNotFound,
        install_refusal(path, installed) is None <==> installed is Done,
        installed is TargetExists ==> (install_refusal(path, installed) matches Some((code, _))
            && code == ErrorCode::InvalidRequest),
{
}

/// A transfer is answered with what was recorded of it.
pub proof fn transfers_are_answered_as_recorded(
    record: TransferOperationRecord,
    operation_id: Seq<char>,
    request_id: Seq<char>,
    direction: TransferDirection,
    path: Seq<char>,
    size: u64,
    sha256: Seq<char>,
    duration_ms: u64,
    timestamp_ms: u64,
)
    requires
        records_transfer(
            record,
            operation_id,
            request_id,
            direction,
            path,
            size,
            sha256,
            duration_ms,
            timestamp_ms,
        ),
    ensures
        record.request_id@ == request_id,
        record.timestamp_ms == timestamp_ms,
        result_of(record) matches ResultBody::Transfer(t) && {
            &&& t.operation_id@ == operation_id && record.operation_id@ == operation_id
            &&& t.direction == direction && record.direction == direction
            &&& t.path@ == path && record.path@ == path
            &&& t.size == size && record.size == size
            &&& t.sha256@ == sha256 && record.sha256@ == sha256
            &&& t.duration_ms == duration_ms && record.duration_ms == duration_ms
        },
{
}

/// Receiving succeeds exactly where as many bytes came as were declared, and tells
/// their number and the hash of all of them.
pub proof fn received_bytes_are_reported(
    out: Result<ReceiveMetadata, String>,
    received: Seq<u8>,
    expect_size: u64,
)
    requires
        reports(out, received, expect_size),
    ensures
        out is Ok <==> received.len() == expect_size,
        out matches Ok(meta) ==> meta.size == received.len() && meta.sha256@ == "sha256:"@
            + hash::hex(hash::sha256(received)),
{
}

/// Sending goes on until all that was announced is sent, with as much at a time as the
/// buffer holds, and never past the end.
pub proof fn sending_goes_on_to_the_end(announced: u64, sent: nat, buffer: usize)
    requires
        sent <= announced,
        buffer > 0,
    ensures
        wanted(announced, sent, buffer) == 0 <==> sent == announced,
        0 <= wanted(announced, sent, buffer) <= buffer,
        sent + wanted(announced, sent, buffer) <= announced,
        wanted(announced, sent, buffer) == buffer || sent + wanted(announced, sent, buffer)
            == announced,
{
}

}

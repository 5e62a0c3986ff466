//! Recovery: what becomes of file operations that were announced when the server
//! stopped.

use vstd::prelude::*;

use crate::error::{ErrorCode, ProtocolError};
use crate::fs_ops;
use crate::hash;
use crate::messages::{ResultBody, ServerMessage, UndoResult, WriteOrPatchResult};
use crate::record::{
    AbortedRecord, AnyOperationRecord, FsOperationRecord, OperationKind, PreparedRecord,
};
use crate::store::StoredResult;
use crate::text;
use crate::undo;

verus! {

/// What recovery makes of an announced file operation.
#[derive(Debug, Clone, Copy, PartialEq, Eq, Structural)]
pub enum RecoveryAction {
    /// The operation had taken effect; it is recorded now.
    Committed,
    /// The operation had not taken effect; its request can be sent again.
    Aborted,
    /// The file is in neither state; the request is answered with an error.
    Conflict,
}

/// What recovery makes of an announced operation whose file has the hash
/// `found`, or is not there.
pub open spec fn action_on(p: PreparedRecord, found: Option<Seq<char>>) -> RecoveryAction {
    if undo::told_hash(found) == p.after_hash@ {
        RecoveryAction::Committed
    } else if found == fs_ops::chars_in(p.before_hash) {
        RecoveryAction::Aborted
    } else {
        RecoveryAction::Conflict
    }
}

/// What recovery makes of an announced operation whose file is in state
/// `current`.
pub open spec fn recovery_action(p: PreparedRecord, current: Option<Seq<u8>>) -> RecoveryAction {
    action_on(p, hash::state_hash(current))
}

/// The answer to a mutation that took effect, as its announcement tells it.
pub open spec fn is_result_of(body: ResultBody, p: PreparedRecord) -> bool {
    match p.kind {
        OperationKind::Undo => {
            &&& body matches ResultBody::Undo(u)
            &&& u.operation_id == p.operation_id
            &&& u.new_hash == p.after_hash
            &&& fs_ops::chars_in(u.restored_hash) == (if p.after_hash@ == hash::no_content_hash() {
                None
            } else {
                Some(p.after_hash@)
            })
        },
        _ => body == ResultBody::WriteOrPatch(
            WriteOrPatchResult {
                operation_id: p.operation_id,
                old_hash: p.before_hash,
                new_hash: p.after_hash,
            },
        ),
    }
}

/// What recovery adds to the log for an announced operation.
pub open spec fn is_resolution(
    record: AnyOperationRecord,
    p: PreparedRecord,
    action: RecoveryAction,
    timestamp_ms: u64,
) -> bool {
    match action {
        RecoveryAction::Committed => record == AnyOperationRecord::Fs(
            FsOperationRecord {
                operation_id: p.operation_id,
                request_id: p.request_id,
                kind: p.kind,
                path: p.path,
                before_hash: p.before_hash,
                after_hash: p.after_hash,
                timestamp_ms,
            },
        ),
        _ => record == AnyOperationRecord::Aborted(
            AbortedRecord {
                operation_id: p.operation_id,
                request_id: p.request_id,
                timestamp_ms,
            },
        ),
    }
}

/// What recovery stores as the result of the request that announced an
/// operation; nothing where the request can be sent again.
pub open spec fn is_recovered_result(
    result: Option<StoredResult>,
    p: PreparedRecord,
    action: RecoveryAction,
) -> bool {
    match action {
        RecoveryAction::Committed => {
            &&& result matches Some(StoredResult::Done(ServerMessage::Result { request_id, result: body }))
            &&& request_id@ == p.request_id@
            &&& is_result_of(body, p)
        },
        RecoveryAction::Aborted => result is None,
        RecoveryAction::Conflict => result matches Some(StoredResult::Error(e)) && e.says(
            ErrorCode::IoError,
            "recovery conflict: file is neither in the state before nor after operation "@
                + p.operation_id@,
        ),
    }
}

/// What is to be done about an announced operation.
pub struct Resolution {
    pub action: RecoveryAction,
    /// The line that the log gets.
    pub record: AnyOperationRecord,
    /// What the request that announced the operation is answered from now on.
    pub result: Option<StoredResult>,
}

fn result_for(p: &PreparedRecord) -> (body: ResultBody)
    ensures
        is_result_of(body, *p),
{
    match p.kind {
        OperationKind::Undo => {
            let restored_hash = if text::str_eq(p.after_hash.as_str(), "sha256:") {
                None
            } else {
                Some(p.after_hash.clone())
            };
            ResultBody::Undo(
                UndoResult {
                    operation_id: p.operation_id.clone(),
                    restored_hash,
                    new_hash: p.after_hash.clone(),
                },
            )
        },
        _ => ResultBody::WriteOrPatch(
            WriteOrPatchResult {
                operation_id: p.operation_id.clone(),
                old_hash: p.before_hash.clone(),
                new_hash: p.after_hash.clone(),
            },
        ),
    }
}

/// What recovery makes of an announced operation, given the hash of its file.
pub fn action_for(p: &PreparedRecord, found: &Option<String>) -> (action: RecoveryAction)
    ensures
        action == action_on(*p, fs_ops::chars_in(*found)),
{
    let actual = match found {
        Some(h) => h.as_str(),
        None => "sha256:",
    };
    if text::str_eq(actual, p.after_hash.as_str()) {
        return RecoveryAction::Committed;
    }
    let unchanged = match (found, &p.before_hash) {
        (Some(a), Some(b)) => text::str_eq(a.as_str(), b.as_str()),
        (None, None) => true,
        _ => false,
    };
    if unchanged {
        RecoveryAction::Aborted
    } else {
        RecoveryAction::Conflict
    }
}

/// Decides what becomes of an announced operation, given what its file is now.
pub fn resolve(p: &PreparedRecord, current: &Option<Vec<u8>>, timestamp_ms: u64) -> (out:
    Resolution)
    ensures
        out.action == recovery_action(*p, fs_ops::bytes_of(*current)),
        is_resolution(out.record, *p, out.action, timestamp_ms),
        is_recovered_result(out.result, *p, out.action),
{
    let action = action_for(p, &hash::hash_state(current));
    let record = match action {
        RecoveryAction::Committed => AnyOperationRecord::Fs(
            FsOperationRecord {
                operation_id: p.operation_id.clone(),
                request_id: p.request_id.clone(),
                kind: p.kind,
                path: p.path.clone(),
                before_hash: p.before_hash.clone(),
                after_hash: p.after_hash.clone(),
                timestamp_ms,
            },
        ),
        _ => AnyOperationRecord::Aborted(
            AbortedRecord {
                operation_id: p.operation_id.clone(),
                request_id: p.request_id.clone(),
                timestamp_ms,
            },
        ),
    };
    let result = match action {
        RecoveryAction::Committed => Some(
            StoredResult::Done(
                ServerMessage::Result {
                    request_id: p.request_id.clone(),
                    result: result_for(p),
                },
            ),
        ),
        RecoveryAction::Aborted => None,
        RecoveryAction::Conflict => {
            let m = text::concat(
                "recovery conflict: file is neither in the state before nor after operation ",
                p.operation_id.as_str(),
            );
            Some(StoredResult::Error(ProtocolError::new(ErrorCode::IoError, m.as_str())))
        },
    };
    Resolution { action, record, result }
}

/// An operation that took effect is never lost, and one that did not is never
/// recorded: a file in the state after the operation makes it committed, and one
/// in the state before it, where that is another state, makes it aborted.
pub proof fn recovery_tells_what_happened(
    p: PreparedRecord,
    before: Option<Seq<u8>>,
    after: Option<Seq<u8>>,
)
    requires
        fs_ops::chars_in(p.before_hash) == hash::state_hash(before),
        p.after_hash@ == fs_ops::hash_of_state(after),
    ensures
        recovery_action(p, after) == RecoveryAction::Committed,
        fs_ops::hash_of_state(before) != fs_ops::hash_of_state(after) ==> recovery_action(
            p,
            before,
        ) == RecoveryAction::Aborted,
{
}

/// A resolution resolves: with its line in the log, the announcement is no longer
/// open, and no other announcement is opened by it.
pub proof fn resolution_closes_the_announcement(
    log: Seq<AnyOperationRecord>,
    i: int,
    record: AnyOperationRecord,
    p: PreparedRecord,
    action: RecoveryAction,
    timestamp_ms: u64,
)
    requires
        0 <= i < log.len(),
        log[i] == AnyOperationRecord::Prepared(p),
        is_resolution(record, p, action, timestamp_ms),
    ensures
        !crate::store::unresolved(log.push(record), i),
        forall|j: int| #[trigger]
            crate::store::unresolved(log.push(record), j) ==> crate::store::unresolved(log, j),
{
    let more = log.push(record);
    assert(more[i] == log[i]);
    assert(more[log.len() as int] == record);
    assert(!(more[log.len() as int] is Prepared));
    assert forall|j: int| #[trigger] crate::store::unresolved(more, j) implies crate::store::unresolved(
        log,
        j,
    ) by {
        assert(more[j] == log[j]);
        assert forall|k: int|
            j < k < log.len() && !((#[trigger] log[k]) is Prepared) implies
            log[k].spec_operation_id() != log[j].spec_operation_id() by {
            assert(more[k] == log[k]);
        }
    }
}

/// Recovery goes by the hashes alone: an operation whose file hashes as it would
/// have left it was carried out and is recorded as announced, one whose file hashes
/// as it was before was not and its request is open again, and of any other file
/// nothing is claimed and the request is answered with an error.
pub proof fn recovery_goes_by_the_hashes(
    p: PreparedRecord,
    current: Option<Seq<u8>>,
    record: AnyOperationRecord,
    result: Option<StoredResult>,
    timestamp_ms: u64,
)
    requires
        is_resolution(record, p, recovery_action(p, current), timestamp_ms),
        is_recovered_result(result, p, recovery_action(p, current)),
    ensures
        ({
            let shown = match current {
                Some(bytes) => "sha256:"@ + hash::hex(hash::sha256(bytes)),
                None => "sha256:"@,
            };
            let as_before = match (current, p.before_hash) {
                (Some(_), Some(h)) => h@ == shown,
                (None, None) => true,
                _ => false,
            };
            &&& shown == p.after_hash@ ==> {
                &&& record matches AnyOperationRecord::Fs(r)
                &&& r.operation_id == p.operation_id
                &&& r.request_id == p.request_id
                &&& r.kind == p.kind
                &&& r.path == p.path
                &&& r.before_hash == p.before_hash
                &&& r.after_hash == p.after_hash
                &&& r.timestamp_ms == timestamp_ms
                &&& result matches Some(StoredResult::Done(m))
                &&& m matches ServerMessage::Result { request_id, result: body }
                &&& request_id@ == p.request_id@
                &&& p.kind != OperationKind::Undo ==> (body matches ResultBody::WriteOrPatch(w)
                    && w.operation_id == p.operation_id && w.old_hash == p.before_hash
                    && w.new_hash == p.after_hash)
                &&& p.kind == OperationKind::Undo ==> (body matches ResultBody::Undo(u)
                    && u.operation_id == p.operation_id && u.new_hash == p.after_hash && (
                u.restored_hash is None <==> p.after_hash@ == "sha256:"@) && (
                u.restored_hash matches Some(h) ==> h@ == p.after_hash@))
            }
            &&& shown != p.after_hash@ ==> (record matches AnyOperationRecord::Aborted(r)
                && r.operation_id == p.operation_id && r.request_id == p.request_id)
            &&& shown != p.after_hash@ && as_before ==> result is None
            &&& shown != p.after_hash@ && !as_before ==> (result matches Some(
                StoredResult::Error(e),
            ) && e.code == ErrorCode::IoError)
        }),
{
}

}

//! Undo: putting a file back to what it was before a recorded operation.

use vstd::prelude::*;

use crate::error::{ErrorCode, ProtocolError};
use crate::fs_ops;
use crate::fs_ops::{Effect, Mutation};
use crate::hash;
use crate::record::{FsOperationRecord, OperationKind};
use crate::text;

verus! {

/// The hash of a file as errors tell it: that of no file where there is none.
pub open spec fn told_hash(found: Option<Seq<char>>) -> Seq<char> {
    match found {
        Some(h) => h,
        None => hash::no_content_hash(),
    }
}

/// What undoing an operation leaves at its path: the content that was kept, or
/// nothing where there was no file before.
pub open spec fn undone_state(before_hash: Option<Seq<char>>, kept: Option<Seq<u8>>) -> Option<
    Seq<u8>,
> {
    match before_hash {
        Some(_) => kept,
        None => None,
    }
}

/// What is decided of an undo, where `found` is the hash of the file and
/// `kept_hash` that of the content that was kept.
pub open spec fn undo_decided_on(
    out: Result<Mutation, ProtocolError>,
    record: FsOperationRecord,
    found: Option<Seq<char>>,
    kept: Option<Seq<u8>>,
    kept_hash: Option<Seq<char>>,
) -> bool {
    let before_hash = fs_ops::chars_in(record.before_hash);
    if record.kind == OperationKind::Undo {
        out matches Err(e) && e.says(ErrorCode::InvalidRequest, "cannot undo an undo operation"@)
    } else if told_hash(found) != record.after_hash@ {
        out matches Err(e) && e.says_with_hashes(
            ErrorCode::UndoConflict,
            "file changed since operation "@ + record.operation_id@,
            record.after_hash@,
            told_hash(found),
        )
    } else if before_hash is Some && kept_hash != before_hash {
        out matches Err(e) && e.says(
            ErrorCode::IoError,
            "content from before the operation is not available: "@ + record.operation_id@,
        )
    } else {
        &&& out matches Ok(m)
        &&& m.kind == OperationKind::Undo
        &&& m.path@ == record.path@
        &&& fs_ops::chars_in(m.before_hash) == found
        &&& m.after_hash@ == told_hash(before_hash)
        &&& m.effect.state() == undone_state(before_hash, kept)
    }
}

/// What is decided of an undo.
pub open spec fn undo_decided(
    out: Result<Mutation, ProtocolError>,
    record: FsOperationRecord,
    current: Option<Seq<u8>>,
    kept: Option<Seq<u8>>,
) -> bool {
    undo_decided_on(out, record, hash::state_hash(current), kept, hash::state_hash(kept))
}

/// Grants the undo of a recorded operation, or refuses it: for an undo, for a
/// file that is no longer in the state that the operation left, or where the
/// content from before is no longer there. The hashes of the file and of the
/// content that was kept are given.
pub fn undo_on(
    record: &FsOperationRecord,
    found: Option<String>,
    kept: &Option<Vec<u8>>,
    kept_hash: Option<String>,
) -> (out: Result<Mutation, ProtocolError>)
    requires
        kept is None ==> kept_hash is None,
    ensures
        undo_decided_on(
            out,
            *record,
            fs_ops::chars_in(found),
            fs_ops::bytes_of(*kept),
            fs_ops::chars_in(kept_hash),
        ),
{
    if record.kind == OperationKind::Undo {
        return Err(
            ProtocolError::new(ErrorCode::InvalidRequest, "cannot undo an undo operation"),
        );
    }
    let actual = match &found {
        Some(h) => h.clone(),
        None => "sha256:".to_owned(),
    };
    if !text::str_eq(actual.as_str(), record.after_hash.as_str()) {
        let m = text::concat("file changed since operation ", record.operation_id.as_str());
        let e = ProtocolError::new(ErrorCode::UndoConflict, m.as_str());
        return Err(e.with_hashes(record.after_hash.clone(), actual));
    }
    match &record.before_hash {
        None => Ok(
            Mutation {
                kind: OperationKind::Undo,
                path: record.path.clone(),
                before_hash: found,
                after_hash: "sha256:".to_owned(),
                effect: Effect::Remove,
            },
        ),
        Some(before_hash) => {
            if let (Some(bytes), Some(h)) = (kept, kept_hash) {
                if text::str_eq(h.as_str(), before_hash.as_str()) {
                    return Ok(
                        Mutation {
                            kind: OperationKind::Undo,
                            path: record.path.clone(),
                            before_hash: found,
                            after_hash: h,
                            effect: Effect::Put(text::copy_bytes(bytes.as_slice())),
                        },
                    );
                }
            }
            let m = text::concat(
                "content from before the operation is not available: ",
                record.operation_id.as_str(),
            );
            Err(ProtocolError::new(ErrorCode::IoError, m.as_str()))
        },
    }
}

/// Grants the undo of a recorded operation, or refuses it. `current` is the file
/// as it is, and `kept` the content that was kept from before the operation.
pub fn undo(
    record: &FsOperationRecord,
    current: &Option<Vec<u8>>,
    kept: &Option<Vec<u8>>,
) -> (out: Result<Mutation, ProtocolError>)
    ensures
        undo_decided(out, *record, fs_ops::bytes_of(*current), fs_ops::bytes_of(*kept)),
{
    undo_on(record, hash::hash_state(current), kept, hash::hash_state(kept))
}

/// Undo restores: where a mutation turned a file from one state into another and
/// the file is still in that state, the undo of its record is granted and leaves
/// the file in the state before, a file that did not exist included.
pub proof fn undo_restores_the_state_before(
    m: Mutation,
    record: FsOperationRecord,
    before: Option<Seq<u8>>,
    after: Option<Seq<u8>>,
    out: Result<Mutation, ProtocolError>,
)
    requires
        record.kind != OperationKind::Undo,
        m.turns(record.kind, record.path@, before, after),
        record.before_hash == m.before_hash,
        record.after_hash == m.after_hash,
        undo_decided(out, record, after, before),
    ensures
        out is Ok,
        out->Ok_0.turns(OperationKind::Undo, record.path@, after, before),
{
}

/// Undo never clobbers later changes: where the file hashes differently from
/// what the operation left, the undo is refused.
pub proof fn undo_refuses_changed_files(
    record: FsOperationRecord,
    current: Option<Seq<u8>>,
    kept: Option<Seq<u8>>,
    out: Result<Mutation, ProtocolError>,
)
    requires
        record.kind != OperationKind::Undo,
        fs_ops::hash_of_state(current) != record.after_hash@,
        undo_decided(out, record, current, kept),
    ensures
        out is Err,
        out->Err_0.code == ErrorCode::UndoConflict,
{
}

/// An undo is granted exactly where the operation is none, the file is still what
/// the operation left, and what was there before was kept, or nothing was there.
/// It puts back what was kept, byte for byte, or removes the file where there was
/// none.
pub proof fn undo_puts_back_what_was_kept(
    out: Result<Mutation, ProtocolError>,
    record: FsOperationRecord,
    current: Option<Seq<u8>>,
    kept: Option<Seq<u8>>,
)
    requires
        undo_decided(out, record, current, kept),
    ensures
        out is Ok <==> {
            &&& record.kind != OperationKind::Undo
            &&& match current {
                Some(bytes) => record.after_hash@ == "sha256:"@ + hash::hex(hash::sha256(bytes)),
                None => record.after_hash@ == "sha256:"@,
            }
            &&& record.before_hash matches Some(h) ==> kept is Some && h@ == "sha256:"@
                + hash::hex(hash::sha256(kept->0))
        },
        record.kind == OperationKind::Undo ==> out is Err && out->Err_0.code
            == ErrorCode::InvalidRequest,
        out matches Ok(m) ==> {
            &&& m.kind == OperationKind::Undo
            &&& m.path@ == record.path@
            &&& record.before_hash is Some ==> (m.effect matches Effect::Put(bytes) && bytes@
                == kept->0)
            &&& record.before_hash is None ==> m.effect is Remove
            &&& m.after_hash@ == match record.before_hash {
                Some(h) => h@,
                None => "sha256:"@,
            }
            &&& m.before_hash is Some <==> current is Some
            &&& m.before_hash matches Some(h) ==> h@ == "sha256:"@ + hash::hex(
                hash::sha256(current->0),
            )
        },
{
}

}

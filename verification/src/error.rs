//! Error codes and the error value that every refused request is answered with.

use vstd::prelude::*;

use crate::text;

verus! {

/// Why a request was refused.
#[derive(Debug, Clone, Copy, PartialEq, Eq, Structural)]
pub enum ErrorCode {
    InvalidRequest,
    PathOutsideRoot,
    NotFound,
    NotADirectory,
    IsADirectory,
    NotAFile,
    StaleFile,
    PatchFailed,
    ExecFailed,
    OperationNotFound,
    UndoConflict,
    IoError,
}

impl ErrorCode {
    /// The name that stands for the code on the wire.
    pub open spec fn spec_name(self) -> Seq<char> {
        match self {
            ErrorCode::InvalidRequest => "INVALID_REQUEST"@,
            ErrorCode::PathOutsideRoot => "PATH_OUTSIDE_ROOT"@,
            ErrorCode::NotFound => "NOT_FOUND"@,
            ErrorCode::NotADirectory => "NOT_A_DIRECTORY"@,
            ErrorCode::IsADirectory => "IS_A_DIRECTORY"@,
            ErrorCode::NotAFile => "NOT_A_FILE"@,
            ErrorCode::StaleFile => "STALE_FILE"@,
            ErrorCode::PatchFailed => "PATCH_FAILED"@,
            ErrorCode::ExecFailed => "EXEC_FAILED"@,
            ErrorCode::OperationNotFound => "OPERATION_NOT_FOUND"@,
            ErrorCode::UndoConflict => "UNDO_CONFLICT"@,
            ErrorCode::IoError => "IO_ERROR"@,
        }
    }

    /// The name that stands for the code on the wire.
    pub fn name(self) -> (out: &'static str)
        ensures
            out@ == self.spec_name(),
    {
        match self {
            ErrorCode::InvalidRequest => "INVALID_REQUEST",
            ErrorCode::PathOutsideRoot => "PATH_OUTSIDE_ROOT",
            ErrorCode::NotFound => "NOT_FOUND",
            ErrorCode::NotADirectory => "NOT_A_DIRECTORY",
            ErrorCode::IsADirectory => "IS_A_DIRECTORY",
            ErrorCode::NotAFile => "NOT_A_FILE",
            ErrorCode::StaleFile => "STALE_FILE",
            ErrorCode::PatchFailed => "PATCH_FAILED",
            ErrorCode::ExecFailed => "EXEC_FAILED",
            ErrorCode::OperationNotFound => "OPERATION_NOT_FOUND",
            ErrorCode::UndoConflict => "UNDO_CONFLICT",
            ErrorCode::IoError => "IO_ERROR",
        }
    }

    /// The name that stands for the code in messages.
    pub open spec fn spec_label(self) -> Seq<char> {
        match self {
            ErrorCode::InvalidRequest => "InvalidRequest"@,
            ErrorCode::PathOutsideRoot => "PathOutsideRoot"@,
            ErrorCode::NotFound => "NotFound"@,
            ErrorCode::NotADirectory => "NotADirectory"@,
            ErrorCode::IsADirectory => "IsADirectory"@,
            ErrorCode::NotAFile => "NotAFile"@,
            ErrorCode::StaleFile => "StaleFile"@,
            ErrorCode::PatchFailed => "PatchFailed"@,
            ErrorCode::ExecFailed => "ExecFailed"@,
            ErrorCode::OperationNotFound => "OperationNotFound"@,
            ErrorCode::UndoConflict => "UndoConflict"@,
            ErrorCode::IoError => "IoError"@,
        }
    }

    /// The name that stands for the code in messages.
    pub fn label(self) -> (out: &'static str)
        ensures
            out@ == self.spec_label(),
    {
        match self {
            ErrorCode::InvalidRequest => "InvalidRequest",
            ErrorCode::PathOutsideRoot => "PathOutsideRoot",
            ErrorCode::NotFound => "NotFound",
            ErrorCode::NotADirectory => "NotADirectory",
            ErrorCode::IsADirectory => "IsADirectory",
            ErrorCode::NotAFile => "NotAFile",
            ErrorCode::StaleFile => "StaleFile",
            ErrorCode::PatchFailed => "PatchFailed",
            ErrorCode::ExecFailed => "ExecFailed",
            ErrorCode::OperationNotFound => "OperationNotFound",
            ErrorCode::UndoConflict => "UndoConflict",
            ErrorCode::IoError => "IoError",
        }
    }
}

/// The answer to a refused request: a code to act on, a message to show, and,
/// for a stale file, the hash that was expected and the one that was found.
#[derive(Debug)]
pub struct ProtocolError {
    pub code: ErrorCode,
    pub message: String,
    pub expected_hash: Option<String>,
    pub actual_hash: Option<String>,
}

impl ProtocolError {
    /// Whether this is the plain error with the given code and message, with
    /// no hashes.
    pub open spec fn says(self, code: ErrorCode, message: Seq<char>) -> bool {
        &&& self.code == code
        &&& self.message@ == message
        &&& self.expected_hash is None
        &&& self.actual_hash is None
    }

    /// Whether this is the error with the given code and message that carries
    /// both hashes.
    pub open spec fn says_with_hashes(
        self,
        code: ErrorCode,
        message: Seq<char>,
        expected: Seq<char>,
        actual: Seq<char>,
    ) -> bool {
        &&& self.code == code
        &&& self.message@ == message
        &&& self.expected_hash matches Some(e) && e@ == expected
        &&& self.actual_hash matches Some(a) && a@ == actual
    }

    pub fn new(code: ErrorCode, message: &str) -> (e: ProtocolError)
        ensures
            e.says(code, message@),
    {
        ProtocolError { code, message: message.to_owned(), expected_hash: None, actual_hash: None }
    }

    /// The same error, carrying the two hashes.
    pub fn with_hashes(self, expected: String, actual: String) -> (e: ProtocolError)
        ensures
            e == (ProtocolError {
                code: self.code,
                message: self.message,
                expected_hash: Some(expected),
                actual_hash: Some(actual),
            }),
    {
        ProtocolError {
            code: self.code,
            message: self.message,
            expected_hash: Some(expected),
            actual_hash: Some(actual),
        }
    }
}

impl ProtocolError {
    /// The error as it is shown.
    pub open spec fn shown(self) -> Seq<char> {
        self.code.spec_label() + ": "@ + self.message@
    }

    /// The error as it is shown.
    pub fn show(&self) -> (out: String)
        ensures
            out@ == self.shown(),
    {
        text::concat3(self.code.label(), ": ", self.message.as_str())
    }
}

impl Clone for ProtocolError {
    fn clone(&self) -> (e: Self)
        ensures
            e == *self,
    {
        ProtocolError {
            code: self.code,
            message: self.message.clone(),
            expected_hash: self.expected_hash.clone(),
            actual_hash: self.actual_hash.clone(),
        }
    }
}

/// Every code has a name of its own, on the wire and in messages.
pub proof fn codes_have_their_own_names(a: ErrorCode, b: ErrorCode)
    ensures
        a.spec_name() == b.spec_name() ==> a == b,
        a.spec_label() == b.spec_label() ==> a == b,
{
    reveal_strlit("INVALID_REQUEST");
    reveal_strlit("PATH_OUTSIDE_ROOT");
    reveal_strlit("NOT_FOUND");
    reveal_strlit("NOT_A_DIRECTORY");
    reveal_strlit("IS_A_DIRECTORY");
    reveal_strlit("NOT_A_FILE");
    reveal_strlit("STALE_FILE");
    reveal_strlit("PATCH_FAILED");
    reveal_strlit("EXEC_FAILED");
    reveal_strlit("OPERATION_NOT_FOUND");
    reveal_strlit("UNDO_CONFLICT");
    reveal_strlit("IO_ERROR");
    reveal_strlit("InvalidRequest");
    reveal_strlit("PathOutsideRoot");
    reveal_strlit("NotFound");
    reveal_strlit("NotADirectory");
    reveal_strlit("IsADirectory");
    reveal_strlit("NotAFile");
    reveal_strlit("StaleFile");
    reveal_strlit("PatchFailed");
    reveal_strlit("ExecFailed");
    reveal_strlit("OperationNotFound");
    reveal_strlit("UndoConflict");
    reveal_strlit("IoError");
    let m = a.spec_name();
    let n = b.spec_name();
    assert(m == n ==> m.len() == n.len() && m[0] == n[0] && m[1] == n[1]);
    let x = a.spec_label();
    let y = b.spec_label();
    assert(x == y ==> x.len() == y.len() && x[0] == y[0] && x[1] == y[1] && x[3] == y[3]);
}

}

//! What the operation log holds: one record per operation.

use vstd::prelude::*;

use crate::error::ErrorCode;
use crate::text;

verus! {

/// What a recorded file operation did.
#[derive(Debug, Clone, Copy, PartialEq, Eq, Structural)]
pub enum OperationKind {
    Write,
    Patch,
    Delete,
    Undo,
}

/// A file operation that took effect.
#[derive(Debug, PartialEq, Eq)]
pub struct FsOperationRecord {
    pub operation_id: String,
    pub request_id: String,
    pub kind: OperationKind,
    pub path: String,
    /// The hash of the content before the operation; `None` where there was no
    /// file.
    pub before_hash: Option<String>,
    /// The hash of the content after the operation; the bare prefix where there
    /// is no file.
    pub after_hash: String,
    pub timestamp_ms: u64,
}

impl Clone for FsOperationRecord {
    fn clone(&self) -> (r: Self)
        ensures
            r == *self,
    {
        FsOperationRecord {
            operation_id: self.operation_id.clone(),
            request_id: self.request_id.clone(),
            kind: self.kind,
            path: self.path.clone(),
            before_hash: self.before_hash.clone(),
            after_hash: self.after_hash.clone(),
            timestamp_ms: self.timestamp_ms,
        }
    }
}

/// How an exec request ended.
#[derive(Debug, Clone, Copy, PartialEq, Eq, Structural)]
pub enum ExecDisposition {
    /// The command ran to its end.
    Completed,
    /// The command ran and was killed at its deadline.
    TimedOut,
    /// The command never started.
    Rejected,
}

/// An exec request, whether its command ran or not.
#[derive(Debug, PartialEq, Eq)]
pub struct ExecOperationRecord {
    pub operation_id: String,
    pub request_id: String,
    pub argv: Vec<String>,
    pub cwd: Option<String>,
    pub profile: Option<String>,
    pub timeout_ms: Option<u64>,
    pub disposition: ExecDisposition,
    pub exit_code: Option<i32>,
    pub duration_ms: u64,
    pub timestamp_ms: u64,
    pub error: Option<String>,
    pub error_code: Option<ErrorCode>,
    pub output_truncated: Option<bool>,
}

impl ExecOperationRecord {
    /// Whether two records hold the same values.
    pub open spec fn same(self, other: Self) -> bool {
        &&& self.operation_id == other.operation_id
        &&& self.request_id == other.request_id
        &&& self.argv@ == other.argv@
        &&& self.cwd == other.cwd
        &&& self.profile == other.profile
        &&& self.timeout_ms == other.timeout_ms
        &&& self.disposition == other.disposition
        &&& self.exit_code == other.exit_code
        &&& self.duration_ms == other.duration_ms
        &&& self.timestamp_ms == other.timestamp_ms
        &&& self.error == other.error
        &&& self.error_code == other.error_code
        &&& self.output_truncated == other.output_truncated
    }
}

impl Clone for ExecOperationRecord {
    fn clone(&self) -> (r: Self)
        ensures
            r.same(*self),
    {
        ExecOperationRecord {
            operation_id: self.operation_id.clone(),
            request_id: self.request_id.clone(),
            argv: text::copy_strings(&self.argv),
            cwd: self.cwd.clone(),
            profile: self.profile.clone(),
            timeout_ms: self.timeout_ms,
            disposition: self.disposition,
            exit_code: self.exit_code,
            duration_ms: self.duration_ms,
            timestamp_ms: self.timestamp_ms,
            error: self.error.clone(),
            error_code: self.error_code,
            output_truncated: self.output_truncated,
        }
    }
}

/// Which way a file went.
#[derive(Debug, Clone, Copy, PartialEq, Eq, Structural)]
pub enum TransferDirection {
    Upload,
    Download,
}

/// A file transfer that completed. It holds metadata alone: no content, and no
/// path of the other machine.
#[derive(Debug, PartialEq, Eq)]
pub struct TransferOperationRecord {
    pub operation_id: String,
    pub request_id: String,
    pub direction: TransferDirection,
    pub path: String,
    pub size: u64,
    pub sha256: String,
    pub duration_ms: u64,
    pub timestamp_ms: u64,
}

impl Clone for TransferOperationRecord {
    fn clone(&self) -> (r: Self)
        ensures
            r == *self,
    {
        TransferOperationRecord {
            operation_id: self.operation_id.clone(),
            request_id: self.request_id.clone(),
            direction: self.direction,
            path: self.path.clone(),
            size: self.size,
            sha256: self.sha256.clone(),
            duration_ms: self.duration_ms,
            timestamp_ms: self.timestamp_ms,
        }
    }
}

/// The announcement of a file operation, logged before the file is touched.
#[derive(Debug, PartialEq, Eq)]
pub struct PreparedRecord {
    pub operation_id: String,
    pub request_id: String,
    pub kind: OperationKind,
    pub path: String,
    pub before_hash: Option<String>,
    /// The hash that the file is going to have.
    pub after_hash: String,
    pub timestamp_ms: u64,
}

impl Clone for PreparedRecord {
    fn clone(&self) -> (r: Self)
        ensures
            r == *self,
    {
        PreparedRecord {
            operation_id: self.operation_id.clone(),
            request_id: self.request_id.clone(),
            kind: self.kind,
            path: self.path.clone(),
            before_hash: self.before_hash.clone(),
            after_hash: self.after_hash.clone(),
            timestamp_ms: self.timestamp_ms,
        }
    }
}

/// The note that a prepared operation did not take effect.
#[derive(Debug, PartialEq, Eq)]
pub struct AbortedRecord {
    pub operation_id: String,
    pub request_id: String,
    pub timestamp_ms: u64,
}

impl Clone for AbortedRecord {
    fn clone(&self) -> (r: Self)
        ensures
            r == *self,
    {
        AbortedRecord {
            operation_id: self.operation_id.clone(),
            request_id: self.request_id.clone(),
            timestamp_ms: self.timestamp_ms,
        }
    }
}

/// One line of the operation log.
#[derive(Debug, PartialEq, Eq)]
pub enum AnyOperationRecord {
    Fs(FsOperationRecord),
    Exec(ExecOperationRecord),
    Transfer(TransferOperationRecord),
    Prepared(PreparedRecord),
    Aborted(AbortedRecord),
}

impl AnyOperationRecord {
    /// The id of the operation that the line is about.
    pub open spec fn spec_operation_id(self) -> Seq<char> {
        match self {
            AnyOperationRecord::Fs(r) => r.operation_id@,
            AnyOperationRecord::Exec(r) => r.operation_id@,
            AnyOperationRecord::Transfer(r) => r.operation_id@,
            AnyOperationRecord::Prepared(r) => r.operation_id@,
            AnyOperationRecord::Aborted(r) => r.operation_id@,
        }
    }

    /// The id of the request that the operation belongs to.
    pub open spec fn spec_request_id(self) -> Seq<char> {
        match self {
            AnyOperationRecord::Fs(r) => r.request_id@,
            AnyOperationRecord::Exec(r) => r.request_id@,
            AnyOperationRecord::Transfer(r) => r.request_id@,
            AnyOperationRecord::Prepared(r) => r.request_id@,
            AnyOperationRecord::Aborted(r) => r.request_id@,
        }
    }

    /// Whether the line records an operation, rather than the start or the
    /// failure of one.
    pub open spec fn spec_is_operation(self) -> bool {
        match self {
            AnyOperationRecord::Fs(_) => true,
            AnyOperationRecord::Exec(_) => true,
            AnyOperationRecord::Transfer(_) => true,
            AnyOperationRecord::Prepared(_) => false,
            AnyOperationRecord::Aborted(_) => false,
        }
    }

    /// Whether two lines hold the same values.
    pub open spec fn same(self, other: Self) -> bool {
        match (self, other) {
            (AnyOperationRecord::Exec(a), AnyOperationRecord::Exec(b)) => a.same(b),
            _ => self == other,
        }
    }

    pub fn operation_id(&self) -> (id: &String)
        ensures
            id@ == self.spec_operation_id(),
    {
        match self {
            AnyOperationRecord::Fs(r) => &r.operation_id,
            AnyOperationRecord::Exec(r) => &r.operation_id,
            AnyOperationRecord::Transfer(r) => &r.operation_id,
            AnyOperationRecord::Prepared(r) => &r.operation_id,
            AnyOperationRecord::Aborted(r) => &r.operation_id,
        }
    }

    pub fn request_id(&self) -> (id: &String)
        ensures
            id@ == self.spec_request_id(),
    {
        match self {
            AnyOperationRecord::Fs(r) => &r.request_id,
            AnyOperationRecord::Exec(r) => &r.request_id,
            AnyOperationRecord::Transfer(r) => &r.request_id,
            AnyOperationRecord::Prepared(r) => &r.request_id,
            AnyOperationRecord::Aborted(r) => &r.request_id,
        }
    }

    pub fn is_operation(&self) -> (yes: bool)
        ensures
            yes == self.spec_is_operation(),
    {
        match self {
            AnyOperationRecord::Fs(_) => true,
            AnyOperationRecord::Exec(_) => true,
            AnyOperationRecord::Transfer(_) => true,
            AnyOperationRecord::Prepared(_) => false,
            AnyOperationRecord::Aborted(_) => false,
        }
    }
}

impl Clone for AnyOperationRecord {
    fn clone(&self) -> (r: Self)
        ensures
            r.same(*self),
    {
        match self {
            AnyOperationRecord::Fs(r) => AnyOperationRecord::Fs(r.clone()),
            AnyOperationRecord::Exec(r) => AnyOperationRecord::Exec(r.clone()),
            AnyOperationRecord::Transfer(r) => AnyOperationRecord::Transfer(r.clone()),
            AnyOperationRecord::Prepared(r) => AnyOperationRecord::Prepared(r.clone()),
            AnyOperationRecord::Aborted(r) => AnyOperationRecord::Aborted(r.clone()),
        }
    }
}

/// Two lines that hold the same values tell the same, field by field, of the same
/// kind of operation.
pub proof fn same_lines_hold_the_same_values(a: AnyOperationRecord, b: AnyOperationRecord)
    requires
        a.same(b),
    ensures
        !(a is Exec) ==> a == b,
        a matches AnyOperationRecord::Exec(x) ==> {
            &&& b matches AnyOperationRecord::Exec(y)
            &&& x.operation_id == y.operation_id
            &&& x.request_id == y.request_id
            &&& x.argv@ == y.argv@
            &&& x.cwd == y.cwd
            &&& x.profile == y.profile
            &&& x.timeout_ms == y.timeout_ms
            &&& x.disposition == y.disposition
            &&& x.exit_code == y.exit_code
            &&& x.duration_ms == y.duration_ms
            &&& x.timestamp_ms == y.timestamp_ms
            &&& x.error == y.error
            &&& x.error_code == y.error_code
            &&& x.output_truncated == y.output_truncated
        },
{
}

/// A line carries the ids of its own operation and request, and it records an
/// operation exactly where it tells of a file operation that took effect, a command
/// or a transfer.
pub proof fn lines_carry_their_ids(line: AnyOperationRecord)
    ensures
        line matches AnyOperationRecord::Fs(r) ==> line.spec_operation_id() == r.operation_id@
            && line.spec_request_id() == r.request_id@,
        line matches AnyOperationRecord::Exec(r) ==> line.spec_operation_id() == r.operation_id@
            && line.spec_request_id() == r.request_id@,
        line matches AnyOperationRecord::Transfer(r) ==> line.spec_operation_id()
            == r.operation_id@ && line.spec_request_id() == r.request_id@,
        line matches AnyOperationRecord::Prepared(r) ==> line.spec_operation_id()
            == r.operation_id@ && line.spec_request_id() == r.request_id@,
        line matches AnyOperationRecord::Aborted(r) ==> line.spec_operation_id()
            == r.operation_id@ && line.spec_request_id() == r.request_id@,
        line.spec_is_operation() <==> line is Fs || line is Exec || line is Transfer,
{
}

}

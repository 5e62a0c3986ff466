//! The inputs of the MCP tools, and the requests that they stand for. Each names
//! the workspace that it is meant for.

use vstd::prelude::*;

use crate::messages::RequestBody;

verus! {

/// How long a command may run that is given no timeout, in milliseconds.
pub const RUN_DEFAULT_TIMEOUT_MS: u64 = 300000;

/// The longest timeout that a command can be given, in milliseconds.
pub const RUN_MAX_TIMEOUT_MS: u64 = 3600000;

#[derive(Debug)]
pub struct ListDirInput {
    pub workspace: String,
    pub path: String,
    pub offset: Option<usize>,
    pub limit: Option<usize>,
}

impl ListDirInput {
    /// The request that the input stands for.
    pub fn into_request(self) -> (body: RequestBody)
        ensures
            body == (RequestBody::List { path: self.path, offset: self.offset, limit: self.limit }),
    {
        RequestBody::List { path: self.path, offset: self.offset, limit: self.limit }
    }
}

#[derive(Debug)]
pub struct ReadFileInput {
    pub workspace: String,
    pub path: String,
    pub offset: Option<u64>,
    pub limit: Option<u64>,
}

impl ReadFileInput {
    /// The request that the input stands for.
    pub fn into_request(self) -> (body: RequestBody)
        ensures
            body == (RequestBody::Read { path: self.path, offset: self.offset, limit: self.limit }),
    {
        RequestBody::Read { path: self.path, offset: self.offset, limit: self.limit }
    }
}

#[derive(Debug)]
pub struct StatInput {
    pub workspace: String,
    pub path: String,
}

impl StatInput {
    /// The request that the input stands for.
    pub fn into_request(self) -> (body: RequestBody)
        ensures
            body == (RequestBody::Stat { path: self.path }),
    {
        RequestBody::Stat { path: self.path }
    }
}

#[derive(Debug)]
pub struct WriteFileInput {
    pub workspace: String,
    pub path: String,
    pub content: String,
    pub base_hash: Option<String>,
}

impl WriteFileInput {
    /// The request that the input stands for.
    pub fn into_request(self) -> (body: RequestBody)
        ensures
            body == (RequestBody::Write {
                path: self.path,
                content: self.content,
                base_hash: self.base_hash,
            }),
    {
        RequestBody::Write { path: self.path, content: self.content, base_hash: self.base_hash }
    }
}

#[derive(Debug)]
pub struct PatchFileInput {
    pub workspace: String,
    pub path: String,
    pub base_hash: String,
    pub patch: String,
}

impl PatchFileInput {
    /// The request that the input stands for.
    pub fn into_request(self) -> (body: RequestBody)
        ensures
            body == (RequestBody::Patch {
                path: self.path,
                base_hash: self.base_hash,
                patch: self.patch,
            }),
    {
        RequestBody::Patch { path: self.path, base_hash: self.base_hash, patch: self.patch }
    }
}

#[derive(Debug)]
pub struct DeleteFileInput {
    pub workspace: String,
    pub path: String,
}

impl DeleteFileInput {
    /// The request that the input stands for.
    pub fn into_request(self) -> (body: RequestBody)
        ensures
            body == (RequestBody::Delete { path: self.path }),
    {
        RequestBody::Delete { path: self.path }
    }
}

#[derive(Debug)]
pub struct RunCommandInput {
    pub workspace: String,
    pub argv: Vec<String>,
    pub cwd: Option<String>,
    pub profile: Option<String>,
    pub timeout_ms: Option<u64>,
}

impl RunCommandInput {
    /// The time that the command gets.
    pub open spec fn time(self) -> u64 {
        match self.timeout_ms {
            Some(ms) => ms,
            None => RUN_DEFAULT_TIMEOUT_MS,
        }
    }

    /// Whether the input is turned into the request that it stands for, or refused.
    pub open spec fn asks(self, out: Result<RequestBody, String>) -> bool {
        match out {
            Ok(body) => self.time() <= RUN_MAX_TIMEOUT_MS && body == (RequestBody::Exec {
                argv: self.argv,
                cwd: self.cwd,
                profile: self.profile,
                timeout_ms: Some(self.time()),
            }),
            Err(m) => self.time() > RUN_MAX_TIMEOUT_MS && m@
                == "timeout_ms must be at most 3600000"@,
        }
    }

    /// The request that the input stands for. Without a timeout it gets the
    /// default one; a timeout above the maximum is refused.
    pub fn into_request(self) -> (out: Result<RequestBody, String>)
        ensures
            self.asks(out),
    {
        let time: u64 = match self.timeout_ms {
            Some(ms) => ms,
            None => RUN_DEFAULT_TIMEOUT_MS,
        };
        if time > RUN_MAX_TIMEOUT_MS {
            return Err("timeout_ms must be at most 3600000".to_owned());
        }
        Ok(
            RequestBody::Exec {
                argv: self.argv,
                cwd: self.cwd,
                profile: self.profile,
                timeout_ms: Some(time),
            },
        )
    }
}

#[derive(Debug)]
pub struct UndoInput {
    pub workspace: String,
    pub operation_id: String,
}

impl UndoInput {
    /// The request that the input stands for.
    pub fn into_request(self) -> (body: RequestBody)
        ensures
            body == (RequestBody::Undo { operation_id: self.operation_id }),
    {
        RequestBody::Undo { operation_id: self.operation_id }
    }
}

#[derive(Debug)]
pub struct HistoryInput {
    pub workspace: String,
    pub limit: Option<usize>,
}

impl HistoryInput {
    /// The request that the input stands for.
    pub fn into_request(self) -> (body: RequestBody)
        ensures
            body == (RequestBody::History { limit: self.limit }),
    {
        RequestBody::History { limit: self.limit }
    }
}

#[derive(Debug)]
pub struct OperationGetInput {
    pub workspace: String,
    pub operation_id: String,
}

impl OperationGetInput {
    /// The request that the input stands for.
    pub fn into_request(self) -> (body: RequestBody)
        ensures
            body == (RequestBody::OperationGet { operation_id: self.operation_id }),
    {
        RequestBody::OperationGet { operation_id: self.operation_id }
    }
}

#[derive(Debug)]
pub struct RequestStatusInput {
    pub workspace: String,
    pub request_id: String,
}

impl RequestStatusInput {
    /// The request that the input stands for.
    pub fn into_request(self) -> (body: RequestBody)
        ensures
            body == (RequestBody::RequestStatus { target: self.request_id }),
    {
        RequestBody::RequestStatus { target: self.request_id }
    }
}

#[derive(Debug)]
pub struct UploadFileInput {
    pub workspace: String,
    pub local_path: String,
    pub remote_path: String,
    pub overwrite: Option<bool>,
}

#[derive(Debug)]
pub struct DownloadFileInput {
    pub workspace: String,
    pub remote_path: String,
    pub local_path: String,
    pub overwrite: Option<bool>,
}

/// A command is asked for as it was put in, with five minutes of time where none were
/// given, and refused exactly where it asks for more than an hour.
pub proof fn commands_are_asked_for_as_put_in(
    input: RunCommandInput,
    out: Result<RequestBody, String>,
)
    requires
        input.asks(out),
    ensures
        out is Err <==> (input.timeout_ms matches Some(ms) && ms > 3600000),
        out matches Ok(body) ==> {
            &&& body matches RequestBody::Exec { argv, cwd, profile, timeout_ms }
            &&& argv == input.argv
            &&& cwd == input.cwd
            &&& profile == input.profile
            &&& timeout_ms == Some(
                match input.timeout_ms {
                    Some(ms) => ms,
                    None => 300000,
                },
            )
        },
{
}

}

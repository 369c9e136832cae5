//! The rules of the SFTP verbs that change the remote side: which request
//! each one makes, and how a refused request is reported.

use vstd::prelude::*;
use crate::error::{describe, ErrorKind, SshError};
use crate::sftp::FileAttrs;

verus! {

/// Mode of a directory made by `mkdir`: `rwxr-xr-x`.
pub const DIRECTORY_MODE: i32 = 0o755;

/// A request to the SFTP subsystem of a session.
#[derive(Debug, Clone, Copy, PartialEq, Eq, Structural)]
pub enum SftpRequest {
    /// Acquire the subsystem itself.
    Init,
    ReadDir,
    OpenFile,
    CreateFile,
    ReadFile,
    WriteFile,
    Mkdir,
    Rmdir,
    Unlink,
    Rename,
    Stat,
    SetTimes,
}

/// The words put before the reason when `request` is refused.
pub open spec fn request_lead(request: SftpRequest) -> Seq<char> {
    match request {
        SftpRequest::Init => "SFTP init failed: "@,
        SftpRequest::ReadDir => "Failed to read directory: "@,
        SftpRequest::OpenFile => "Failed to open remote file: "@,
        SftpRequest::CreateFile => "Failed to create remote file: "@,
        SftpRequest::ReadFile => "Failed to read remote file: "@,
        SftpRequest::WriteFile => "Failed to write remote file: "@,
        SftpRequest::Mkdir => "Failed to create directory: "@,
        SftpRequest::Rmdir => "Failed to delete directory: "@,
        SftpRequest::Unlink => "Failed to delete file: "@,
        SftpRequest::Rename => "Failed to rename: "@,
        SftpRequest::Stat => "Failed to stat: "@,
        SftpRequest::SetTimes => "Failed to set file times: "@,
    }
}

/// The request that deletes a path: `Rmdir` for a directory, `Unlink` for
/// anything else.
pub open spec fn delete_request_of(is_dir: bool) -> SftpRequest {
    if is_dir {
        SftpRequest::Rmdir
    } else {
        SftpRequest::Unlink
    }
}

/// What `touch` asks of the server.
#[derive(Debug, Clone, Copy, PartialEq, Eq)]
pub enum TouchAction {
    /// Create the file, empty.
    Create,
    /// Set the times of the file that is already there.
    SetTimes { atime: u64, mtime: u64 },
}

/// What `touch` does at the time `now`, given the attributes of the path
/// if it exists: a missing file is created, and an existing one gets `now`
/// as its modification time and keeps its access time, or gets `now` for
/// that too where the server did not report one.
pub open spec fn touch_action_of(existing: Option<FileAttrs>, now: u64) -> TouchAction {
    match existing {
        None => TouchAction::Create,
        Some(attrs) => TouchAction::SetTimes {
            atime: match attrs.atime {
                Some(t) => t,
                None => now,
            },
            mtime: now,
        },
    }
}

/// The error for a request that the remote side refused for `reason`:
/// always a `ChannelError`, worded after the request.
pub fn sftp_failure(request: SftpRequest, reason: &str) -> (e: SshError)
    ensures
        e@ == (ErrorKind::ChannelError, request_lead(request) + reason@),
{
    let lead = match request {
        SftpRequest::Init => "SFTP init failed: ",
        SftpRequest::ReadDir => "Failed to read directory: ",
        SftpRequest::OpenFile => "Failed to open remote file: ",
        SftpRequest::CreateFile => "Failed to create remote file: ",
        SftpRequest::ReadFile => "Failed to read remote file: ",
        SftpRequest::WriteFile => "Failed to write remote file: ",
        SftpRequest::Mkdir => "Failed to create directory: ",
        SftpRequest::Rmdir => "Failed to delete directory: ",
        SftpRequest::Unlink => "Failed to delete file: ",
        SftpRequest::Rename => "Failed to rename: ",
        SftpRequest::Stat => "Failed to stat: ",
        SftpRequest::SetTimes => "Failed to set file times: ",
    };
    SshError::ChannelError(describe(lead, reason))
}

/// The request that deletes a path.
pub fn delete_request(is_dir: bool) -> (r: SftpRequest)
    ensures
        r == delete_request_of(is_dir),
{
    if is_dir {
        SftpRequest::Rmdir
    } else {
        SftpRequest::Unlink
    }
}

/// What `touch` does at the time `now` with a path whose attributes are
/// `existing`, or that does not exist if there are none.
pub fn touch_action(existing: Option<FileAttrs>, now: u64) -> (a: TouchAction)
    ensures
        a == touch_action_of(existing, now),
{
    match existing {
        None => TouchAction::Create,
        Some(attrs) => TouchAction::SetTimes {
            atime: match attrs.atime {
                Some(t) => t,
                None => now,
            },
            mtime: now,
        },
    }
}

} // verus!

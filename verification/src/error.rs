//! The failures that a call or a transfer reports.

use vstd::prelude::*;
use vstd::string::StringExecFns;
use crate::text::{decimal, push_decimal};

verus! {

/// The remote operations of the vault.
#[derive(Debug, Clone, Copy, PartialEq, Eq, Structural)]
pub enum Operation {
    Presend,
    Send,
    Finish,
    GetBlockIds,
    GetBlock,
    ListFile,
    DeleteFile,
    Ping,
    Register,
    Login,
    Refresh,
    GetFileInfo,
}

impl Operation {
    /// The method name that stands first in the operation's request.
    pub open spec fn method_text(self) -> Seq<char> {
        match self {
            Operation::Presend => "presend"@,
            Operation::Send => "send"@,
            Operation::Finish => "finish"@,
            Operation::GetBlockIds => "get_block_ids"@,
            Operation::GetBlock => "get_block"@,
            Operation::ListFile => "list_file"@,
            Operation::DeleteFile => "delete_file"@,
            Operation::Ping => "ping"@,
            Operation::Register => "register"@,
            Operation::Login => "login"@,
            Operation::Refresh => "refresh"@,
            Operation::GetFileInfo => "get_file_info"@,
        }
    }

    /// The method name that stands first in the operation's request.
    pub fn method(&self) -> (name: &'static str)
        ensures
            name@ == self.method_text(),
    {
        match self {
            Operation::Presend => "presend",
            Operation::Send => "send",
            Operation::Finish => "finish",
            Operation::GetBlockIds => "get_block_ids",
            Operation::GetBlock => "get_block",
            Operation::ListFile => "list_file",
            Operation::DeleteFile => "delete_file",
            Operation::Ping => "ping",
            Operation::Register => "register",
            Operation::Login => "login",
            Operation::Refresh => "refresh",
            Operation::GetFileInfo => "get_file_info",
        }
    }
}

/// One failure of a call or of a whole transfer.
#[derive(Debug, Clone, Copy, PartialEq, Eq, Structural)]
pub enum Error {
    /// The server could not be reached.
    Connection,
    /// The TLS handshake failed: the certificate or the server name was wrong.
    Handshake,
    /// Reading or writing failed.
    Io,
    /// The response was not UTF-8.
    Encoding,
    /// The server answered with failure, or left out what the operation returns.
    Remote(Operation),
    /// The server answered with success but left out the session it owes.
    Session(Operation),
    /// The bytes of a block do not have the checksum on the block's record.
    ChecksumMismatch { expected: u32, actual: u32 },
    /// Some chunk of an upload ran out of attempts.
    UploadFailed,
    /// Some block of a download ran out of attempts.
    DownloadFailed,
    /// The assembled file does not have the checksum on record.
    CorruptedFile { expected: u32, actual: u32 },
}

impl Error {
    /// The one line that describes the failure.
    pub open spec fn message_text(self) -> Seq<char> {
        match self {
            Error::Connection => "connection failed"@,
            Error::Handshake => "handshake failed"@,
            Error::Io => "io failed"@,
            Error::Encoding => "response is not valid UTF-8"@,
            Error::Remote(op) => op.method_text() + " failed"@,
            Error::Session(op) => op.method_text() + " failed"@,
            Error::ChecksumMismatch { expected, actual } => "block checksum mismatch, "@ + decimal(
                actual as nat,
            ) + " vs "@ + decimal(expected as nat),
            Error::UploadFailed => "Upload failed"@,
            Error::DownloadFailed => "Download failed"@,
            Error::CorruptedFile { expected, actual } => "check_file failed, "@ + decimal(
                actual as nat,
            ) + " vs "@ + decimal(expected as nat),
        }
    }

    /// The one line that describes the failure.
    pub fn message(&self) -> (line: String)
        ensures
            line@ == self.message_text(),
    {
        match self {
            Error::Connection => String::from_str("connection failed"),
            Error::Handshake => String::from_str("handshake failed"),
            Error::Io => String::from_str("io failed"),
            Error::Encoding => String::from_str("response is not valid UTF-8"),
            Error::Remote(op) => {
                let mut line = String::from_str(op.method());
                line.append(" failed");
                line
            },
            Error::Session(op) => {
                let mut line = String::from_str(op.method());
                line.append(" failed");
                line
            },
            Error::ChecksumMismatch { expected, actual } => {
                let mut line = String::from_str("block checksum mismatch, ");
                push_decimal(&mut line, *actual as u64);
                line.append(" vs ");
                push_decimal(&mut line, *expected as u64);
                line
            },
            Error::UploadFailed => String::from_str("Upload failed"),
            Error::DownloadFailed => String::from_str("Download failed"),
            Error::CorruptedFile { expected, actual } => {
                let mut line = String::from_str("check_file failed, ");
                push_decimal(&mut line, *actual as u64);
                line.append(" vs ");
                push_decimal(&mut line, *expected as u64);
                line
            },
        }
    }
}

} // verus!

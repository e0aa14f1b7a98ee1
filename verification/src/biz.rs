//! The remote operations: what each sends, and what it makes of the answer.
//!
//! Every operation has two halves. The first builds the request from the
//! caller's values. The second takes what the call gave back, the response or
//! the transport's failure, and turns it into the operation's result. Sending
//! the one and receiving the other is the caller's part.

use vstd::prelude::*;
use vstd::string::StringExecFns;
use crate::control::ControlBlock;
use crate::error::{Error, Operation};
use crate::req::{Payload, Resp};

verus! {

/// A point in time as the server records it. Only carried, never inspected.
#[verifier::external_type_specification]
#[verifier::external_body]
pub struct ExNaiveDateTime(chrono::NaiveDateTime);

/// Announces a file before its chunks are sent.
#[derive(Debug)]
pub struct PresendReq {
    pub file_name: String,
    pub file_size: u64,
}

/// One chunk of a file.
#[derive(Debug)]
pub struct SendReq {
    pub file_id: u32,
    pub block_id: u64,
    pub block_checksum: u32,
    pub block_payload: Vec<u8>,
}

/// Closes an upload with the checksum of the whole file.
#[derive(Debug)]
pub struct FinishReq {
    pub file_id: u32,
    pub file_checksum: u32,
}

/// Asks for the blocks of a file.
#[derive(Debug)]
pub struct GetBlockIdsByFileIdReq {
    pub file_id: i32,
}

/// The server ids of the blocks of a file.
#[derive(Debug)]
pub struct GetBlockIdsByFileIdResp {
    pub block_ids: Vec<i32>,
}

/// Asks for one block by its server id.
#[derive(Debug)]
pub struct GetBlockReq {
    pub block_id: i32,
}

/// One block: its record and its bytes.
#[derive(Debug)]
pub struct GetBlockResp {
    pub block_info: FileBlock,
    pub block_data: Vec<u8>,
}

/// The server's record of one block. `id` is the server's, `block_id` the
/// sequence number that the uploader gave.
#[derive(Debug)]
pub struct FileBlock {
    pub id: i32,
    pub file_id: i32,
    pub block_name: String,
    pub block_id: i64,
    pub block_checksum: u32,
    pub block_size: u32,
    pub created_at: chrono::NaiveDateTime,
}

/// Asks for the files whose names match a filter.
#[derive(Debug)]
pub struct ListFileReq {
    pub filter: String,
}

/// The files that matched.
#[derive(Debug)]
pub struct ListFileResp {
    pub file_info: Vec<FileInfo>,
}

/// The server's record of one file.
#[derive(Debug)]
pub struct FileInfo {
    pub id: i32,
    pub file_name: String,
    pub file_size: i64,
    pub file_checksum: u32,
    pub file_status: i32,
    pub created_at: chrono::NaiveDateTime,
}

/// Asks to delete a file.
#[derive(Debug)]
pub struct DeleteFileReq {
    pub file_id: i32,
}

/// Asks to create an account.
#[derive(Debug)]
pub struct RegisterReq {
    pub user_name: String,
    pub password: String,
}

/// Asks for a session.
#[derive(Debug)]
pub struct LoginReq {
    pub user_name: String,
    pub password: String,
}

/// Asks for the record of one file.
#[derive(Debug)]
pub struct GetFileInfoReq {
    pub file_id: i32,
}

/// What a call gave back: the response, or the transport's failure.
pub type Outcome<R> = Result<Resp<R>, Error>;

/// The result of an operation that returns nothing: the transport's failure
/// as it came, a remote failure unless the server said `true`.
pub open spec fn acknowledged<R>(op: Operation, outcome: Outcome<R>) -> Result<(), Error> {
    match outcome {
        Err(e) => Err(e),
        Ok(resp) => if resp.success {
            Ok(())
        } else {
            Err(Error::Remote(op))
        },
    }
}

/// The result of an operation that returns a value: as [`acknowledged`], and
/// a remote failure too where the payload is missing.
pub open spec fn answered<R>(op: Operation, outcome: Outcome<R>) -> Result<R, Error> {
    match outcome {
        Err(e) => Err(e),
        Ok(resp) => if resp.success && resp.content is Some {
            Ok(resp.content->0)
        } else {
            Err(Error::Remote(op))
        },
    }
}

/// The result of an operation that returns a session: as [`acknowledged`],
/// and a session failure where the server said `true` without a session.
pub open spec fn granted<R>(op: Operation, outcome: Outcome<R>) -> Result<ControlBlock, Error> {
    match outcome {
        Err(e) => Err(e),
        Ok(resp) => if !resp.success {
            Err(Error::Remote(op))
        } else if resp.block is None {
            Err(Error::Session(op))
        } else {
            Ok(resp.block->0)
        },
    }
}

/// The request of `op` with the given session and payload.
pub fn request<T>(op: Operation, block: Option<ControlBlock>, content: Option<T>) -> (payload:
    Payload<T>)
    ensures
        payload.method@ == op.method_text(),
        payload.block == block,
        payload.content == content,
{
    Payload { method: String::from_str(op.method()), block, content }
}

/// Judges the answer to an operation that returns nothing.
pub fn acknowledge<R>(op: Operation, outcome: Outcome<R>) -> (result: Result<(), Error>)
    ensures
        result == acknowledged(op, outcome),
{
    match outcome {
        Err(e) => Err(e),
        Ok(resp) => if resp.success {
            Ok(())
        } else {
            Err(Error::Remote(op))
        },
    }
}

/// Judges the answer to an operation that returns a value.
pub fn answer<R>(op: Operation, outcome: Outcome<R>) -> (result: Result<R, Error>)
    ensures
        result == answered(op, outcome),
{
    match outcome {
        Err(e) => Err(e),
        Ok(resp) => {
            if !resp.success {
                return Err(Error::Remote(op));
            }
            match resp.content {
                Some(value) => Ok(value),
                None => Err(Error::Remote(op)),
            }
        },
    }
}

/// Judges the answer to an operation that returns a session, and on success
/// puts the new session in place of the old one. On any failure the old
/// session stays.
pub fn grant<R>(op: Operation, block: &mut ControlBlock, outcome: Outcome<R>) -> (result: Result<
    (),
    Error,
>)
    ensures
        match granted(op, outcome) {
            Ok(session) => result is Ok && *final(block) == session,
            Err(e) => result == Err::<(), Error>(e) && *final(block) == *old(block),
        },
{
    match outcome {
        Err(e) => Err(e),
        Ok(resp) => {
            if !resp.success {
                return Err(Error::Remote(op));
            }
            match resp.block {
                Some(session) => {
                    *block = session;
                    Ok(())
                },
                None => Err(Error::Session(op)),
            }
        },
    }
}

/// The request that announces a file of `file_size` bytes.
pub fn presend_payload(block: ControlBlock, file_name: &str, file_size: usize) -> (payload:
    Payload<PresendReq>)
    ensures
        payload.method@ == Operation::Presend.method_text(),
        payload.block == Some(block),
        payload.content matches Some(req) && req.file_name@ == file_name@ && req.file_size
            == file_size,
{
    let req = PresendReq { file_name: String::from_str(file_name), file_size: file_size as u64 };
    request(Operation::Presend, Some(block), Some(req))
}

/// The id that the server gave the announced file.
pub fn presend(outcome: Outcome<u32>) -> (result: Result<u32, Error>)
    ensures
        result == answered(Operation::Presend, outcome),
{
    answer(Operation::Presend, outcome)
}

/// The request that carries one chunk.
pub fn send_payload(
    block: ControlBlock,
    file_id: u32,
    block_id: u64,
    block_checksum: u32,
    block_payload: Vec<u8>,
) -> (payload: Payload<SendReq>)
    ensures
        payload.method@ == Operation::Send.method_text(),
        payload.block == Some(block),
        payload.content == Some(SendReq { file_id, block_id, block_checksum, block_payload }),
{
    let req = SendReq { file_id, block_id, block_checksum, block_payload };
    request(Operation::Send, Some(block), Some(req))
}

/// Whether the server took the chunk.
pub fn send(outcome: Outcome<()>) -> (result: Result<(), Error>)
    ensures
        result == acknowledged(Operation::Send, outcome),
{
    acknowledge(Operation::Send, outcome)
}

/// The request that closes an upload.
pub fn finish_payload(block: ControlBlock, file_id: u32, file_checksum: u32) -> (payload: Payload<
    FinishReq,
>)
    ensures
        payload.method@ == Operation::Finish.method_text(),
        payload.block == Some(block),
        payload.content == Some(FinishReq { file_id, file_checksum }),
{
    request(Operation::Finish, Some(block), Some(FinishReq { file_id, file_checksum }))
}

/// Whether the server closed the upload.
pub fn finish(outcome: Outcome<()>) -> (result: Result<(), Error>)
    ensures
        result == acknowledged(Operation::Finish, outcome),
{
    acknowledge(Operation::Finish, outcome)
}

/// The request for the blocks of a file.
pub fn get_block_ids_payload(block: ControlBlock, file_id: i32) -> (payload: Payload<
    GetBlockIdsByFileIdReq,
>)
    ensures
        payload.method@ == Operation::GetBlockIds.method_text(),
        payload.block == Some(block),
        payload.content == Some(GetBlockIdsByFileIdReq { file_id }),
{
    request(Operation::GetBlockIds, Some(block), Some(GetBlockIdsByFileIdReq { file_id }))
}

/// The blocks of the file, in the order the server lists them.
pub fn get_block_ids(outcome: Outcome<GetBlockIdsByFileIdResp>) -> (result: Result<
    GetBlockIdsByFileIdResp,
    Error,
>)
    ensures
        result == answered(Operation::GetBlockIds, outcome),
{
    answer(Operation::GetBlockIds, outcome)
}

/// The request for one block.
pub fn get_block_payload(block: ControlBlock, block_id: i32) -> (payload: Payload<GetBlockReq>)
    ensures
        payload.method@ == Operation::GetBlock.method_text(),
        payload.block == Some(block),
        payload.content == Some(GetBlockReq { block_id }),
{
    request(Operation::GetBlock, Some(block), Some(GetBlockReq { block_id }))
}

/// The block, or nothing. Every failure, of the transport or of the server,
/// comes out as "no block": the download engine tries again on its own.
pub fn get_block(outcome: Outcome<GetBlockResp>) -> (result: Option<GetBlockResp>)
    ensures
        result == match outcome {
            Ok(resp) => if resp.success {
                resp.content
            } else {
                None
            },
            Err(_) => None,
        },
{
    match outcome {
        Ok(resp) => if resp.success {
            resp.content
        } else {
            None
        },
        Err(_) => None,
    }
}

/// The request for the files that match `filter`. It carries no session.
pub fn list_file_payload(filter: String) -> (payload: Payload<ListFileReq>)
    ensures
        payload.method@ == Operation::ListFile.method_text(),
        payload.block is None,
        payload.content == Some(ListFileReq { filter }),
{
    request(Operation::ListFile, None, Some(ListFileReq { filter }))
}

/// The files that matched. Unlike every other operation, a missing payload
/// is no failure here: it reads as "no file matched".
pub fn list_file(outcome: Outcome<ListFileResp>) -> (result: Result<ListFileResp, Error>)
    ensures
        match outcome {
            Err(e) => result == Err::<ListFileResp, Error>(e),
            Ok(resp) => if !resp.success {
                result == Err::<ListFileResp, Error>(Error::Remote(Operation::ListFile))
            } else {
                match resp.content {
                    Some(list) => result == Ok::<ListFileResp, Error>(list),
                    None => result matches Ok(list) && list.file_info@.len() == 0,
                }
            },
        },
{
    match outcome {
        Err(e) => Err(e),
        Ok(resp) => {
            if !resp.success {
                return Err(Error::Remote(Operation::ListFile));
            }
            match resp.content {
                Some(list) => Ok(list),
                None => Ok(ListFileResp { file_info: Vec::new() }),
            }
        },
    }
}

/// The request to delete a file.
pub fn delete_file_payload(block: ControlBlock, file_id: i32) -> (payload: Payload<DeleteFileReq>)
    ensures
        payload.method@ == Operation::DeleteFile.method_text(),
        payload.block == Some(block),
        payload.content == Some(DeleteFileReq { file_id }),
{
    request(Operation::DeleteFile, Some(block), Some(DeleteFileReq { file_id }))
}

/// Whether the server deleted the file.
pub fn delete_file(outcome: Outcome<()>) -> (result: Result<(), Error>)
    ensures
        result == acknowledged(Operation::DeleteFile, outcome),
{
    acknowledge(Operation::DeleteFile, outcome)
}

/// The request that asks whether the server is there. It carries neither a
/// session nor a payload.
pub fn ping_payload() -> (payload: Payload<u32>)
    ensures
        payload.method@ == Operation::Ping.method_text(),
        payload.block is None,
        payload.content is None,
{
    request(Operation::Ping, None, None)
}

/// Whether the server answered.
pub fn ping(outcome: Outcome<()>) -> (result: Result<(), Error>)
    ensures
        result == acknowledged(Operation::Ping, outcome),
{
    acknowledge(Operation::Ping, outcome)
}

/// The request to create an account, with a copy of the caller's session.
pub fn register_payload(block: &ControlBlock, user_name: String, password: String) -> (payload:
    Payload<RegisterReq>)
    ensures
        payload.method@ == Operation::Register.method_text(),
        payload.block == Some(*block),
        payload.content == Some(RegisterReq { user_name, password }),
{
    request(Operation::Register, Some(block.snapshot()), Some(RegisterReq { user_name, password }))
}

/// Takes the session of the new account into `block`.
pub fn register(block: &mut ControlBlock, outcome: Outcome<()>) -> (result: Result<(), Error>)
    ensures
        match granted(Operation::Register, outcome) {
            Ok(session) => result is Ok && *final(block) == session,
            Err(e) => result == Err::<(), Error>(e) && *final(block) == *old(block),
        },
{
    grant(Operation::Register, block, outcome)
}

/// The request for a session, with a copy of the caller's session.
pub fn login_payload(block: &ControlBlock, user_name: String, password: String) -> (payload:
    Payload<LoginReq>)
    ensures
        payload.method@ == Operation::Login.method_text(),
        payload.block == Some(*block),
        payload.content == Some(LoginReq { user_name, password }),
{
    request(Operation::Login, Some(block.snapshot()), Some(LoginReq { user_name, password }))
}

/// Takes the session of the login into `block`.
pub fn login(block: &mut ControlBlock, outcome: Outcome<()>) -> (result: Result<(), Error>)
    ensures
        match granted(Operation::Login, outcome) {
            Ok(session) => result is Ok && *final(block) == session,
            Err(e) => result == Err::<(), Error>(e) && *final(block) == *old(block),
        },
{
    grant(Operation::Login, block, outcome)
}

/// The request for a fresh session in exchange for the caller's. It carries
/// no payload.
pub fn refresh_payload(block: &ControlBlock) -> (payload: Payload<u32>)
    ensures
        payload.method@ == Operation::Refresh.method_text(),
        payload.block == Some(*block),
        payload.content is None,
{
    request(Operation::Refresh, Some(block.snapshot()), None)
}

/// Takes the fresh session into `block`.
pub fn refresh(block: &mut ControlBlock, outcome: Outcome<()>) -> (result: Result<(), Error>)
    ensures
        match granted(Operation::Refresh, outcome) {
            Ok(session) => result is Ok && *final(block) == session,
            Err(e) => result == Err::<(), Error>(e) && *final(block) == *old(block),
        },
{
    grant(Operation::Refresh, block, outcome)
}

/// The request for the record of one file. It carries no session.
pub fn get_file_info_payload(file_id: i32) -> (payload: Payload<GetFileInfoReq>)
    ensures
        payload.method@ == Operation::GetFileInfo.method_text(),
        payload.block is None,
        payload.content == Some(GetFileInfoReq { file_id }),
{
    request(Operation::GetFileInfo, None, Some(GetFileInfoReq { file_id }))
}

/// The record of the file.
pub fn get_file_info(outcome: Outcome<FileInfo>) -> (result: Result<FileInfo, Error>)
    ensures
        result == answered(Operation::GetFileInfo, outcome),
{
    answer(Operation::GetFileInfo, outcome)
}

} // verus!

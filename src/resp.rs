//! Result codes and the envelope of every API answer.

use vstd::prelude::*;

verus! {

/// The result codes of the API.
#[derive(Debug, Clone, Copy, PartialEq, Eq, Structural)]
pub enum ApiCode {
    Success,
    BadRequest,
    NotFound,
    DbInsertFailed,
    DbQueryFailed,
    DbListFailed,
    DbGetFailed,
    DbUpdateFailed,
    DbUpdateGetFailed,
    DbDeleteFailed,
    FileMissing,
    FileWriteFailed,
    SyncFailed,
}

pub open spec fn code_value(c: ApiCode) -> i32 {
    match c {
        ApiCode::Success => 200,
        ApiCode::BadRequest => 400,
        ApiCode::NotFound => 404,
        ApiCode::DbInsertFailed => 1001,
        ApiCode::DbQueryFailed => 1002,
        ApiCode::DbListFailed => 1003,
        ApiCode::DbGetFailed => 1004,
        ApiCode::DbUpdateFailed => 1005,
        ApiCode::DbUpdateGetFailed => 1006,
        ApiCode::DbDeleteFailed => 1007,
        ApiCode::FileMissing => 2001,
        ApiCode::FileWriteFailed => 2002,
        ApiCode::SyncFailed => 3001,
    }
}

impl ApiCode {
    /// The number sent for the code.
    pub fn code(self) -> (r: i32)
        ensures
            r == code_value(self),
    {
        match self {
            ApiCode::Success => 200,
            ApiCode::BadRequest => 400,
            ApiCode::NotFound => 404,
            ApiCode::DbInsertFailed => 1001,
            ApiCode::DbQueryFailed => 1002,
            ApiCode::DbListFailed => 1003,
            ApiCode::DbGetFailed => 1004,
            ApiCode::DbUpdateFailed => 1005,
            ApiCode::DbUpdateGetFailed => 1006,
            ApiCode::DbDeleteFailed => 1007,
            ApiCode::FileMissing => 2001,
            ApiCode::FileWriteFailed => 2002,
            ApiCode::SyncFailed => 3001,
        }
    }
}

/// The envelope of an answer: a code, a message, and the data on success.
#[derive(Debug)]
pub struct ApiResponse<T> {
    pub code: i32,
    pub msg: String,
    pub data: Option<T>,
}

impl<T> ApiResponse<T> {
    /// A successful answer carrying `data`.
    pub fn ok(data: T) -> (r: ApiResponse<T>)
        ensures
            r.code == 200,
            r.msg@ == "ok"@,
            r.data == Some(data),
    {
        ApiResponse { code: ApiCode::Success.code(), msg: String::from_str("ok"), data: Some(data) }
    }

    /// A failed answer with a code and a message.
    pub fn err(code: ApiCode, msg: &str) -> (r: ApiResponse<T>)
        ensures
            r.code == code_value(code),
            r.msg@ == msg@,
            r.data is None,
    {
        ApiResponse { code: code.code(), msg: String::from_str(msg), data: None }
    }
}

} // verus!

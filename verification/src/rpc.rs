//! Error replies.
use crate::value::{owned_view, string_value, Json, Object, Value};
use vstd::prelude::*;

verus! {

/// The kinds of error that a reply can carry.
#[derive(Debug, Clone, Copy, PartialEq, Eq, Structural)]
pub enum ErrorCode {
    InvalidParams,
    InternalError,
    MethodNotFound,
    MethodNotSupported,
}

/// An error reply.
#[derive(Debug)]
pub struct RpcError {
    pub code: ErrorCode,
    pub message: String,
    pub data: Option<Value>,
}

/// The model of an [`RpcError`].
pub struct Fault {
    pub code: ErrorCode,
    pub message: Seq<char>,
    pub data: Option<Json>,
}

impl RpcError {
    pub open spec fn view(&self) -> Fault {
        Fault { code: self.code, message: self.message@, data: owned_view(self.data) }
    }
}

/// The model of a reply.
pub open spec fn reply_view(reply: Result<Value, RpcError>) -> Result<Json, Fault> {
    match reply {
        Ok(v) => Ok(v@),
        Err(e) => Err(e@),
    }
}

/// The fault of a request that is not well formed.
pub open spec fn invalid_fault(message: Seq<char>) -> Fault {
    Fault { code: ErrorCode::InvalidParams, message, data: None }
}

/// The fault of a request for something that is not there.
pub open spec fn not_found_fault(message: Seq<char>) -> Fault {
    Fault {
        code: ErrorCode::InvalidParams,
        message,
        data: Some(Json::Object(map!["category"@ => Json::String("not_found"@)])),
    }
}

/// The fault of a request that failed on this side.
pub open spec fn internal_fault(message: Seq<char>) -> Fault {
    Fault { code: ErrorCode::InternalError, message, data: None }
}

/// The error of a request that is not well formed.
pub fn invalid(message: &str) -> (error: RpcError)
    ensures
        error@ == invalid_fault(message@),
{
    RpcError { code: ErrorCode::InvalidParams, message: message.to_string(), data: None }
}

/// The error of a request for something that is not there.
pub fn not_found(message: &str) -> (error: RpcError)
    ensures
        error@ == not_found_fault(message@),
{
    let mut data = Object::new();
    data.insert("category", string_value("not_found"));
    RpcError {
        code: ErrorCode::InvalidParams,
        message: message.to_string(),
        data: Some(Value::Object(data)),
    }
}

/// The error of a request that failed on this side.
pub fn internal(message: &str) -> (error: RpcError)
    ensures
        error@ == internal_fault(message@),
{
    RpcError { code: ErrorCode::InternalError, message: message.to_string(), data: None }
}

} // verus!

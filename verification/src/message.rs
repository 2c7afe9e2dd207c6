//! Messages: requests, the responses to them, and notifications. What a
//! message carries, its parameters or its result, stands here as JSON
//! text.

use vstd::prelude::*;
use crate::error::{error_text, LspError};
use crate::text::str_eq;

verus! {

/// The version of the protocol that every message names.
pub const RPC_VERSION: &'static str = "2.0";

/// The code of a response that says that a request failed.
pub const REQUEST_FAILED: i64 = -32803;

/// The version of the protocol that every message names.
pub open spec fn rpc_version() -> Seq<char> {
    "2.0"@
}

/// What the editor sends.
#[derive(Debug, Clone, PartialEq, Eq)]
pub enum Message {
    Request(Request),
    Notification(Notification),
}

/// A message that wants an answer.
#[derive(Debug, Clone, PartialEq, Eq)]
pub struct Request {
    pub rpc: String,
    /// The request ID
    pub id: usize,
    /// The method to be invoked.
    pub method: String,
    /// The method's params
    pub params: String,
}

impl Request {
    pub fn new(id: usize, method: &str, params: String) -> (r: Self)
        ensures
            r.rpc@ == rpc_version(),
            r.id == id,
            r.method@ == method@,
            r.params == params,
    {
        Self {
            rpc: String::from_str("2.0"),
            id,
            method: String::from_str(method),
            params,
        }
    }
}

/// What a response says of a request that went wrong.
#[derive(Debug, Clone, PartialEq, Eq)]
pub struct ResponseError {
    /// A number indicating the error type that occurred.
    pub code: i64,
    /// A string providing a short description of the error.
    pub message: String,
    /// A primitive or structured value that contains additional
    /// information about the error. Can be omitted.
    pub data: Option<String>,
}

/// The answer to a request: its result, or an error.
#[derive(Debug, Clone, PartialEq, Eq)]
pub struct Response {
    pub jsonrpc: String,
    /// The Request ID
    pub id: usize,
    /// The result of a request. This member is REQUIRED on success.
    /// This member MUST NOT exist if there was an error invoking the method.
    pub result: Option<String>,
    pub error: Option<ResponseError>,
}

impl Response {
    /// The response that carries the result of a request.
    pub fn from_ok(id: usize, result: String) -> (r: Self)
        ensures
            r.jsonrpc@ == rpc_version(),
            r.id == id,
            r.result == Some(result),
            r.error is None,
    {
        Self { jsonrpc: String::from_str("2.0"), id, result: Some(result), error: None }
    }

    /// The response that says that a request went wrong.
    pub fn from_error(id: usize, code: i64, msg: String) -> (r: Self)
        ensures
            r.jsonrpc@ == rpc_version(),
            r.id == id,
            r.result is None,
            r.error is Some,
            r.error->0.code == code,
            r.error->0.message == msg,
            r.error->0.data is None,
    {
        Self {
            jsonrpc: String::from_str("2.0"),
            id,
            result: None,
            error: Some(ResponseError { code, message: msg, data: None }),
        }
    }

    /// The response to a request that failed: it carries the code for a
    /// failed request and the text that describes the error.
    pub fn from_failure(id: usize, error: LspError) -> (r: Self)
        ensures
            r.jsonrpc@ == rpc_version(),
            r.id == id,
            r.result is None,
            r.error is Some,
            r.error->0.code == REQUEST_FAILED,
            r.error->0.message@ == error_text(error),
            r.error->0.data is None,
    {
        Response::from_error(id, REQUEST_FAILED, error.message())
    }
}

/// A message that wants no answer.
#[derive(Debug, Clone, PartialEq, Eq)]
pub struct Notification {
    pub jsonrpc: String,
    pub method: String,
    pub params: String,
}

impl Notification {
    pub fn new(method: &str, params: String) -> (n: Self)
        ensures
            n.jsonrpc@ == rpc_version(),
            n.method@ == method@,
            n.params == params,
    {
        Self { jsonrpc: String::from_str("2.0"), method: String::from_str(method), params }
    }
}

/// What a message asks for.
#[derive(Debug, Clone, Copy, PartialEq, Eq, Structural)]
pub enum Method {
    Initialize,
    Initialized,
    Shutdown,
    DidOpen,
    DidChange,
    DidClose,
    DidSave,
    Hover,
    Definition,
    References,
    Completion,
    CompletionResolve,
    CodeAction,
    Diagnostic,
    /// A method that the server does not know.
    Unknown,
}

/// What the method with the given name asks for.
pub open spec fn method_named(name: Seq<char>) -> Method {
    if name == "initialize"@ {
        Method::Initialize
    } else if name == "initialized"@ {
        Method::Initialized
    } else if name == "shutdown"@ {
        Method::Shutdown
    } else if name == "textDocument/didOpen"@ {
        Method::DidOpen
    } else if name == "textDocument/didChange"@ {
        Method::DidChange
    } else if name == "textDocument/didClose"@ {
        Method::DidClose
    } else if name == "textDocument/didSave"@ {
        Method::DidSave
    } else if name == "textDocument/hover"@ {
        Method::Hover
    } else if name == "textDocument/definition"@ {
        Method::Definition
    } else if name == "textDocument/references"@ {
        Method::References
    } else if name == "textDocument/completion"@ {
        Method::Completion
    } else if name == "completionItem/resolve"@ {
        Method::CompletionResolve
    } else if name == "textDocument/codeAction"@ {
        Method::CodeAction
    } else if name == "textDocument/diagnostic"@ {
        Method::Diagnostic
    } else {
        Method::Unknown
    }
}

impl Method {
    /// Tells what the method with the given name asks for.
    pub fn from_name(name: &str) -> (m: Method)
        ensures
            m == method_named(name@),
    {
        if str_eq(name, "initialize") {
            Method::Initialize
        } else if str_eq(name, "initialized") {
            Method::Initialized
        } else if str_eq(name, "shutdown") {
            Method::Shutdown
        } else if str_eq(name, "textDocument/didOpen") {
            Method::DidOpen
        } else if str_eq(name, "textDocument/didChange") {
            Method::DidChange
        } else if str_eq(name, "textDocument/didClose") {
            Method::DidClose
        } else if str_eq(name, "textDocument/didSave") {
            Method::DidSave
        } else if str_eq(name, "textDocument/hover") {
            Method::Hover
        } else if str_eq(name, "textDocument/definition") {
            Method::Definition
        } else if str_eq(name, "textDocument/references") {
            Method::References
        } else if str_eq(name, "textDocument/completion") {
            Method::Completion
        } else if str_eq(name, "completionItem/resolve") {
            Method::CompletionResolve
        } else if str_eq(name, "textDocument/codeAction") {
            Method::CodeAction
        } else if str_eq(name, "textDocument/diagnostic") {
            Method::Diagnostic
        } else {
            Method::Unknown
        }
    }
}

} // verus!

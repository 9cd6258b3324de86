//! The error taxonomy and its mapping to JSON-RPC error objects.

use vstd::prelude::*;
use vstd::string::StringExecFns;
use crate::json::JsonValue;
use crate::json::JsonView;
use crate::text::join;

verus! {

broadcast use vstd::string::group_string_axioms;

/// What can go wrong while a request is served.
#[derive(Debug)]
pub enum McpError {
    /// The frame was not a well-formed JSON-RPC message.
    Parse { message: String },
    /// A structural rule of the protocol was broken.
    Protocol { message: String },
    /// The method needs an initialized client.
    NotInitialized,
    /// No handler knows the method.
    MethodNotFound { method: String },
    /// An argument was rejected.
    Validation { message: String },
    ToolNotFound { name: String },
    ResourceNotFound { uri: String },
    PromptNotFound { name: String },
    /// A URI is malformed or belongs to no known scheme.
    InvalidResource { uri: String, message: String },
    /// The authenticator denied the action.
    Authorization { message: String },
    /// A handler failed unexpectedly.
    Internal { message: String },
}

pub type McpResult<T> = Result<T, McpError>;

/// The mathematical value of an `McpError`.
pub ghost enum McpErrorView {
    Parse { message: Seq<char> },
    Protocol { message: Seq<char> },
    NotInitialized,
    MethodNotFound { method: Seq<char> },
    Validation { message: Seq<char> },
    ToolNotFound { name: Seq<char> },
    ResourceNotFound { uri: Seq<char> },
    PromptNotFound { name: Seq<char> },
    InvalidResource { uri: Seq<char>, message: Seq<char> },
    Authorization { message: Seq<char> },
    Internal { message: Seq<char> },
}

impl View for McpError {
    type V = McpErrorView;

    open spec fn view(&self) -> McpErrorView {
        match self {
            McpError::Parse { message } => McpErrorView::Parse { message: message@ },
            McpError::Protocol { message } => McpErrorView::Protocol { message: message@ },
            McpError::NotInitialized => McpErrorView::NotInitialized,
            McpError::MethodNotFound { method } => McpErrorView::MethodNotFound { method: method@ },
            McpError::Validation { message } => McpErrorView::Validation { message: message@ },
            McpError::ToolNotFound { name } => McpErrorView::ToolNotFound { name: name@ },
            McpError::ResourceNotFound { uri } => McpErrorView::ResourceNotFound { uri: uri@ },
            McpError::PromptNotFound { name } => McpErrorView::PromptNotFound { name: name@ },
            McpError::InvalidResource { uri, message } => McpErrorView::InvalidResource {
                uri: uri@,
                message: message@,
            },
            McpError::Authorization { message } => McpErrorView::Authorization {
                message: message@,
            },
            McpError::Internal { message } => McpErrorView::Internal { message: message@ },
        }
    }
}

pub const PARSE_ERROR: i32 = -32700;

pub const INVALID_REQUEST: i32 = -32600;

pub const METHOD_NOT_FOUND: i32 = -32601;

pub const INVALID_PARAMS: i32 = -32602;

pub const INTERNAL_ERROR: i32 = -32603;

pub const UNAUTHORIZED: i32 = -32000;

pub const TOOL_NOT_FOUND: i32 = -32001;

pub const NOT_INITIALIZED: i32 = -32002;

pub const RESOURCE_NOT_FOUND: i32 = -32003;

pub const PROMPT_NOT_FOUND: i32 = -32004;

pub const INVALID_RESOURCE: i32 = -32005;

/// The JSON-RPC code of an error.
pub open spec fn error_code(e: McpErrorView) -> i32 {
    match e {
        McpErrorView::Parse { .. } => PARSE_ERROR,
        McpErrorView::Protocol { .. } => INVALID_REQUEST,
        McpErrorView::NotInitialized => NOT_INITIALIZED,
        McpErrorView::MethodNotFound { .. } => METHOD_NOT_FOUND,
        McpErrorView::Validation { .. } => INVALID_PARAMS,
        McpErrorView::ToolNotFound { .. } => TOOL_NOT_FOUND,
        McpErrorView::ResourceNotFound { .. } => RESOURCE_NOT_FOUND,
        McpErrorView::PromptNotFound { .. } => PROMPT_NOT_FOUND,
        McpErrorView::InvalidResource { .. } => INVALID_RESOURCE,
        McpErrorView::Authorization { .. } => UNAUTHORIZED,
        McpErrorView::Internal { .. } => INTERNAL_ERROR,
    }
}

/// The human-readable message of an error.
pub open spec fn error_message(e: McpErrorView) -> Seq<char> {
    match e {
        McpErrorView::Parse { message } => message,
        McpErrorView::Protocol { message } => message,
        McpErrorView::NotInitialized => "Client must call initialize first"@,
        McpErrorView::MethodNotFound { method } => "Method not found: "@ + method,
        McpErrorView::Validation { message } => message,
        McpErrorView::ToolNotFound { name } => "Tool not found: "@ + name,
        McpErrorView::ResourceNotFound { uri } => "Resource not found: "@ + uri,
        McpErrorView::PromptNotFound { name } => "Prompt not found: "@ + name,
        McpErrorView::InvalidResource { uri, message } => "Invalid resource '"@ + uri + "': "@
            + message,
        McpErrorView::Authorization { message } => message,
        McpErrorView::Internal { message } => message,
    }
}

/// A JSON-RPC error object.
#[derive(Debug)]
pub struct JsonRpcError {
    pub code: i32,
    pub message: String,
    pub data: Option<JsonValue>,
}

/// The mathematical value of a `JsonRpcError`.
pub ghost struct JsonRpcErrorView {
    pub code: i32,
    pub message: Seq<char>,
    pub data: Option<JsonView>,
}

impl View for JsonRpcError {
    type V = JsonRpcErrorView;

    open spec fn view(&self) -> JsonRpcErrorView {
        JsonRpcErrorView {
            code: self.code,
            message: self.message@,
            data: match self.data {
                Some(d) => Some(d@),
                None => None,
            },
        }
    }
}

/// The JSON-RPC error object that stands for an error: its code, its
/// message, no data.
pub open spec fn rpc_error_of(e: McpErrorView) -> JsonRpcErrorView {
    JsonRpcErrorView { code: error_code(e), message: error_message(e), data: None }
}

impl Clone for JsonRpcError {
    fn clone(&self) -> (copy: Self)
        ensures
            copy@ == self@,
    {
        JsonRpcError {
            code: self.code,
            message: self.message.clone(),
            data: match &self.data {
                Some(d) => Some(d.clone()),
                None => None,
            },
        }
    }
}

impl McpError {
    /// The JSON-RPC code of the error.
    pub fn code(&self) -> (code: i32)
        ensures
            code == error_code(self@),
    {
        match self {
            McpError::Parse { .. } => PARSE_ERROR,
            McpError::Protocol { .. } => INVALID_REQUEST,
            McpError::NotInitialized => NOT_INITIALIZED,
            McpError::MethodNotFound { .. } => METHOD_NOT_FOUND,
            McpError::Validation { .. } => INVALID_PARAMS,
            McpError::ToolNotFound { .. } => TOOL_NOT_FOUND,
            McpError::ResourceNotFound { .. } => RESOURCE_NOT_FOUND,
            McpError::PromptNotFound { .. } => PROMPT_NOT_FOUND,
            McpError::InvalidResource { .. } => INVALID_RESOURCE,
            McpError::Authorization { .. } => UNAUTHORIZED,
            McpError::Internal { .. } => INTERNAL_ERROR,
        }
    }

    /// The human-readable message of the error.
    pub fn message(&self) -> (text: String)
        ensures
            text@ == error_message(self@),
    {
        match self {
            McpError::Parse { message } => message.clone(),
            McpError::Protocol { message } => message.clone(),
            McpError::NotInitialized => String::from_str("Client must call initialize first"),
            McpError::MethodNotFound { method } => join("Method not found: ", method.as_str()),
            McpError::Validation { message } => message.clone(),
            McpError::ToolNotFound { name } => join("Tool not found: ", name.as_str()),
            McpError::ResourceNotFound { uri } => join("Resource not found: ", uri.as_str()),
            McpError::PromptNotFound { name } => join("Prompt not found: ", name.as_str()),
            McpError::InvalidResource { uri, message } => {
                let mut out = join("Invalid resource '", uri.as_str());
                out.append("': ");
                out.append(message.as_str());
                out
            },
            McpError::Authorization { message } => message.clone(),
            McpError::Internal { message } => message.clone(),
        }
    }

    /// The JSON-RPC error object that stands for the error.
    pub fn to_rpc_error(&self) -> (out: JsonRpcError)
        ensures
            out@ == rpc_error_of(self@),
    {
        JsonRpcError { code: self.code(), message: self.message(), data: None }
    }
}

/// Every error code is one of the five JSON-RPC codes or lies in the range
/// that JSON-RPC reserves for applications.
pub proof fn lemma_error_codes(e: McpErrorView)
    ensures
        error_code(e) == PARSE_ERROR || error_code(e) == INVALID_REQUEST || error_code(e)
            == METHOD_NOT_FOUND || error_code(e) == INVALID_PARAMS || error_code(e)
            == INTERNAL_ERROR || -32099 <= error_code(e) <= -32000,
{
}

} // verus!

//! The messages of the protocol: JSON-RPC requests and responses, the
//! standard methods, and the parameters and results of batches.

use vstd::prelude::*;
use crate::error::JsonRpcError;
use crate::error::JsonRpcErrorView;
use crate::json::JsonValue;
use crate::json::JsonView;
use crate::json::members_view;
use crate::text::text_equal;

verus! {

broadcast use vstd::string::group_string_axioms;

/// The methods that the server handles itself. Any other method is custom
/// and goes to the server state.
#[derive(Debug, Clone, Copy, PartialEq, Eq)]
pub enum StandardMethod {
    Initialize,
    Initialized,
    NotificationsInitialized,
    Ping,
    ToolsList,
    ToolsCall,
    ResourcesList,
    ResourcesRead,
    PromptsList,
    PromptsGet,
    Batch,
}

/// The method string of a standard method.
pub open spec fn method_name(method: StandardMethod) -> Seq<char> {
    match method {
        StandardMethod::Initialize => "initialize"@,
        StandardMethod::Initialized => "initialized"@,
        StandardMethod::NotificationsInitialized => "notifications/initialized"@,
        StandardMethod::Ping => "ping"@,
        StandardMethod::ToolsList => "tools/list"@,
        StandardMethod::ToolsCall => "tools/call"@,
        StandardMethod::ResourcesList => "resources/list"@,
        StandardMethod::ResourcesRead => "resources/read"@,
        StandardMethod::PromptsList => "prompts/list"@,
        StandardMethod::PromptsGet => "prompts/get"@,
        StandardMethod::Batch => "batch"@,
    }
}

/// The standard method that a method string names, if it names one.
pub open spec fn standard_method(name: Seq<char>) -> Option<StandardMethod> {
    if name == "initialize"@ {
        Some(StandardMethod::Initialize)
    } else if name == "initialized"@ {
        Some(StandardMethod::Initialized)
    } else if name == "notifications/initialized"@ {
        Some(StandardMethod::NotificationsInitialized)
    } else if name == "ping"@ {
        Some(StandardMethod::Ping)
    } else if name == "tools/list"@ {
        Some(StandardMethod::ToolsList)
    } else if name == "tools/call"@ {
        Some(StandardMethod::ToolsCall)
    } else if name == "resources/list"@ {
        Some(StandardMethod::ResourcesList)
    } else if name == "resources/read"@ {
        Some(StandardMethod::ResourcesRead)
    } else if name == "prompts/list"@ {
        Some(StandardMethod::PromptsList)
    } else if name == "prompts/get"@ {
        Some(StandardMethod::PromptsGet)
    } else if name == "batch"@ {
        Some(StandardMethod::Batch)
    } else {
        None
    }
}

/// A client must have called `initialize` before this method is served.
/// The handshake itself and `ping` are served at any time.
pub open spec fn needs_initialization(method: StandardMethod) -> bool {
    match method {
        StandardMethod::Initialize => false,
        StandardMethod::Initialized => false,
        StandardMethod::NotificationsInitialized => false,
        StandardMethod::Ping => false,
        _ => true,
    }
}

impl StandardMethod {
    /// The method string.
    pub fn name(&self) -> (out: &'static str)
        ensures
            out@ == method_name(*self),
    {
        match self {
            StandardMethod::Initialize => "initialize",
            StandardMethod::Initialized => "initialized",
            StandardMethod::NotificationsInitialized => "notifications/initialized",
            StandardMethod::Ping => "ping",
            StandardMethod::ToolsList => "tools/list",
            StandardMethod::ToolsCall => "tools/call",
            StandardMethod::ResourcesList => "resources/list",
            StandardMethod::ResourcesRead => "resources/read",
            StandardMethod::PromptsList => "prompts/list",
            StandardMethod::PromptsGet => "prompts/get",
            StandardMethod::Batch => "batch",
        }
    }

    /// The standard method that `name` names.
    pub fn from_name(name: &str) -> (found: Option<StandardMethod>)
        ensures
            found == standard_method(name@),
    {
        if text_equal(name, "initialize") {
            Some(StandardMethod::Initialize)
        } else if text_equal(name, "initialized") {
            Some(StandardMethod::Initialized)
        } else if text_equal(name, "notifications/initialized") {
            Some(StandardMethod::NotificationsInitialized)
        } else if text_equal(name, "ping") {
            Some(StandardMethod::Ping)
        } else if text_equal(name, "tools/list") {
            Some(StandardMethod::ToolsList)
        } else if text_equal(name, "tools/call") {
            Some(StandardMethod::ToolsCall)
        } else if text_equal(name, "resources/list") {
            Some(StandardMethod::ResourcesList)
        } else if text_equal(name, "resources/read") {
            Some(StandardMethod::ResourcesRead)
        } else if text_equal(name, "prompts/list") {
            Some(StandardMethod::PromptsList)
        } else if text_equal(name, "prompts/get") {
            Some(StandardMethod::PromptsGet)
        } else if text_equal(name, "batch") {
            Some(StandardMethod::Batch)
        } else {
            None
        }
    }

    /// Whether the method is served only to initialized clients.
    pub fn requires_initialization(&self) -> (yes: bool)
        ensures
            yes == needs_initialization(*self),
    {
        match self {
            StandardMethod::Initialize => false,
            StandardMethod::Initialized => false,
            StandardMethod::NotificationsInitialized => false,
            StandardMethod::Ping => false,
            _ => true,
        }
    }
}

/// The method strings of the standard methods differ from one another, so
/// each standard method is found again under its own name.
pub proof fn lemma_method_names(method: StandardMethod)
    ensures
        standard_method(method_name(method)) == Some(method),
{
    reveal_strlit("initialize");
    reveal_strlit("initialized");
    reveal_strlit("notifications/initialized");
    reveal_strlit("ping");
    reveal_strlit("tools/list");
    reveal_strlit("tools/call");
    reveal_strlit("resources/list");
    reveal_strlit("resources/read");
    reveal_strlit("prompts/list");
    reveal_strlit("prompts/get");
    reveal_strlit("batch");
    assert("initialize"@.len() == 10);
    assert("initialized"@.len() == 11);
    assert("notifications/initialized"@.len() == 25);
    assert("ping"@.len() == 4);
    assert("tools/list"@.len() == 10);
    assert("tools/call"@.len() == 10);
    assert("resources/list"@.len() == 14);
    assert("resources/read"@.len() == 14);
    assert("prompts/list"@.len() == 12);
    assert("prompts/get"@.len() == 11);
    assert("batch"@.len() == 5);
    assert("initialize"@[0] != "tools/list"@[0]);
    assert("initialize"@[0] != "tools/call"@[0]);
    assert("initialized"@[0] != "prompts/get"@[0]);
    assert("tools/list"@[6] != "tools/call"@[6]);
    assert("resources/list"@[10] != "resources/read"@[10]);
}

/// A JSON-RPC request. A request without `id` is a notification.
#[derive(Debug)]
pub struct JsonRpcRequest {
    pub jsonrpc: String,
    pub method: String,
    pub params: Option<JsonValue>,
    pub id: Option<JsonValue>,
}

/// A JSON-RPC response: a result or an error, never both.
#[derive(Debug)]
pub struct JsonRpcResponse {
    pub jsonrpc: String,
    pub result: Option<JsonValue>,
    pub error: Option<JsonRpcError>,
    pub id: Option<JsonValue>,
}

/// The mathematical value of a `JsonRpcRequest`.
pub ghost struct JsonRpcRequestView {
    pub jsonrpc: Seq<char>,
    pub method: Seq<char>,
    pub params: Option<JsonView>,
    pub id: Option<JsonView>,
}

impl View for JsonRpcRequest {
    type V = JsonRpcRequestView;

    open spec fn view(&self) -> JsonRpcRequestView {
        JsonRpcRequestView {
            jsonrpc: self.jsonrpc@,
            method: self.method@,
            params: opt_value(self.params),
            id: opt_value(self.id),
        }
    }
}

/// The view of an optional JSON value.
pub open spec fn opt_value(o: Option<JsonValue>) -> Option<JsonView> {
    match o {
        Some(v) => Some(v@),
        None => None,
    }
}

/// The view of an optional error object.
pub open spec fn opt_error(o: Option<JsonRpcError>) -> Option<JsonRpcErrorView> {
    match o {
        Some(e) => Some(e@),
        None => None,
    }
}

/// The mathematical value of a `JsonRpcResponse`.
pub ghost struct JsonRpcResponseView {
    pub jsonrpc: Seq<char>,
    pub result: Option<JsonView>,
    pub error: Option<JsonRpcErrorView>,
    pub id: Option<JsonView>,
}

impl View for JsonRpcResponse {
    type V = JsonRpcResponseView;

    open spec fn view(&self) -> JsonRpcResponseView {
        JsonRpcResponseView {
            jsonrpc: self.jsonrpc@,
            result: opt_value(self.result),
            error: opt_error(self.error),
            id: opt_value(self.id),
        }
    }
}

/// The response that carries a result.
pub open spec fn success_response(result: JsonView, id: Option<JsonView>) -> JsonRpcResponseView {
    JsonRpcResponseView { jsonrpc: "2.0"@, result: Some(result), error: None, id }
}

/// The response that carries an error.
pub open spec fn error_response(error: JsonRpcErrorView, id: Option<JsonView>)
    -> JsonRpcResponseView {
    JsonRpcResponseView { jsonrpc: "2.0"@, result: None, error: Some(error), id }
}

/// Exactly one of result and error is there, and the version is `2.0`.
pub open spec fn well_formed_response(response: JsonRpcResponseView) -> bool {
    &&& response.jsonrpc == "2.0"@
    &&& response.result is Some <==> response.error is None
}

impl JsonRpcResponse {
    /// The response that carries `result` for the request `id`.
    pub fn success(result: JsonValue, id: Option<JsonValue>) -> (response: JsonRpcResponse)
        ensures
            response@ == success_response(result@, opt_value(id)),
            response.id == id,
            response.result == Some(result),
            response.error is None,
    {
        JsonRpcResponse { jsonrpc: "2.0".to_owned(), result: Some(result), error: None, id }
    }

    /// The response that carries `error` for the request `id`.
    pub fn error(error: JsonRpcError, id: Option<JsonValue>) -> (response: JsonRpcResponse)
        ensures
            response@ == error_response(error@, opt_value(id)),
            response.id == id,
            response.error == Some(error),
            response.result is None,
    {
        JsonRpcResponse { jsonrpc: "2.0".to_owned(), result: None, error: Some(error), id }
    }
}

/// A tool as the listing shows it.
#[derive(Debug)]
pub struct Tool {
    pub name: String,
    pub description: String,
    pub input_schema: JsonValue,
}

/// The mathematical value of a `Tool`.
pub ghost struct ToolView {
    pub name: Seq<char>,
    pub description: Seq<char>,
    pub input_schema: JsonView,
}

impl View for Tool {
    type V = ToolView;

    open spec fn view(&self) -> ToolView {
        ToolView {
            name: self.name@,
            description: self.description@,
            input_schema: self.input_schema@,
        }
    }
}

impl Clone for Tool {
    fn clone(&self) -> (copy: Self)
        ensures
            copy@ == self@,
    {
        Tool {
            name: self.name.clone(),
            description: self.description.clone(),
            input_schema: self.input_schema.clone(),
        }
    }
}

/// The parameters of `tools/call`.
#[derive(Debug)]
pub struct ToolsCallParams {
    pub name: String,
    pub arguments: Option<JsonValue>,
}

/// The parameters of `resources/read`.
#[derive(Debug)]
pub struct ResourcesReadParams {
    pub uri: String,
}

/// How the client asks for a batch to be scheduled.
#[derive(Debug, Clone, Copy, PartialEq, Eq)]
pub enum BatchExecutionMode {
    Parallel,
    Sequential,
    Dependency,
    PriorityDependency,
}

/// One request of a batch.
#[derive(Debug)]
pub struct BatchRequest {
    pub id: String,
    pub method: String,
    pub params: Option<JsonValue>,
}

/// The parameters of `batch`.
#[derive(Debug)]
pub struct BatchParams {
    pub requests: Vec<BatchRequest>,
    pub execution_mode: BatchExecutionMode,
    pub max_parallel: Option<u32>,
    pub timeout_ms: Option<u64>,
}

/// What became of one request of a batch.
#[derive(Debug)]
pub struct BatchItemResult {
    pub id: String,
    pub result: Option<JsonValue>,
    pub error: Option<JsonRpcError>,
    pub execution_time_ms: u64,
    pub skipped: bool,
    pub metadata: Vec<(String, JsonValue)>,
}

/// The counts of a batch.
#[derive(Debug, Clone, Copy, PartialEq, Eq)]
pub struct BatchStats {
    pub total_requests: usize,
    pub successful_requests: usize,
    pub failed_requests: usize,
    pub skipped_requests: usize,
    pub total_execution_time_ms: u64,
    pub average_execution_time_ms: u64,
    pub max_parallel_executed: usize,
}

/// The result of `batch`.
#[derive(Debug)]
pub struct BatchResult {
    pub stats: BatchStats,
    pub results: Vec<BatchItemResult>,
    pub correlation_token: Option<String>,
    pub metadata: Vec<(String, JsonValue)>,
}

/// The mathematical value of a `BatchRequest`.
pub ghost struct BatchRequestView {
    pub id: Seq<char>,
    pub method: Seq<char>,
    pub params: Option<JsonView>,
}

impl View for BatchRequest {
    type V = BatchRequestView;

    open spec fn view(&self) -> BatchRequestView {
        BatchRequestView { id: self.id@, method: self.method@, params: opt_value(self.params) }
    }
}

/// The mathematical value of a `BatchItemResult`.
pub ghost struct BatchItemResultView {
    pub id: Seq<char>,
    pub result: Option<JsonView>,
    pub error: Option<JsonRpcErrorView>,
    pub execution_time_ms: u64,
    pub skipped: bool,
    pub metadata: Seq<(Seq<char>, JsonView)>,
}

impl View for BatchItemResult {
    type V = BatchItemResultView;

    open spec fn view(&self) -> BatchItemResultView {
        BatchItemResultView {
            id: self.id@,
            result: opt_value(self.result),
            error: opt_error(self.error),
            execution_time_ms: self.execution_time_ms,
            skipped: self.skipped,
            metadata: members_view(self.metadata@),
        }
    }
}

/// The views of a sequence of item results.
pub open spec fn item_results_view(results: Seq<BatchItemResult>) -> Seq<BatchItemResultView> {
    Seq::new(results.len(), |i: int| results[i]@)
}

/// The views of a sequence of batch requests.
pub open spec fn batch_requests_view(requests: Seq<BatchRequest>) -> Seq<BatchRequestView> {
    Seq::new(requests.len(), |i: int| requests[i]@)
}

/// The identifiers of a sequence of item results.
pub open spec fn result_ids(results: Seq<BatchItemResultView>) -> Seq<Seq<char>> {
    Seq::new(results.len(), |i: int| results[i].id)
}

/// The identifiers of a sequence of batch requests.
pub open spec fn request_ids(requests: Seq<BatchRequestView>) -> Seq<Seq<char>> {
    Seq::new(requests.len(), |i: int| requests[i].id)
}

} // verus!

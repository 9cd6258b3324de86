//! The server: it checks each request against the state of the client,
//! routes it to the handler of its method, and runs batches of requests.

use vstd::prelude::*;
use crate::config::McpServerConfig;
use crate::config::ServerHealth;
use crate::error::INVALID_REQUEST;
use crate::error::JsonRpcError;
use crate::error::JsonRpcErrorView;
use crate::error::McpError;
use crate::error::McpErrorView;
use crate::error::McpResult;
use crate::error::rpc_error_of;
use crate::json::decimal_string;
use crate::json::JsonValue;
use crate::json::JsonView;
use crate::progress::completed_update;
use crate::progress::processed_message;
use crate::progress::processed_text;
use crate::progress::ProgressReporter;
use crate::progress::ProgressUpdate;
use crate::progress::ProgressUpdateView;
use crate::progress::progress_update;
use crate::progress::started_update;
use crate::prompt::clone_opt_json;
use crate::prompt::PromptRegistry;
use crate::protocol::BatchItemResult;
use crate::protocol::BatchItemResultView;
use crate::protocol::BatchParams;
use crate::protocol::BatchRequest;
use crate::protocol::BatchRequestView;
use crate::protocol::BatchResult;
use crate::protocol::BatchStats;
use crate::protocol::batch_requests_view;
use crate::protocol::error_response;
use crate::protocol::item_results_view;
use crate::protocol::JsonRpcRequest;
use crate::protocol::JsonRpcRequestView;
use crate::protocol::JsonRpcResponse;
use crate::protocol::JsonRpcResponseView;
use crate::protocol::lemma_method_names;
use crate::protocol::needs_initialization;
use crate::protocol::opt_value;
use crate::protocol::request_ids;
use crate::protocol::result_ids;
use crate::protocol::StandardMethod;
use crate::protocol::standard_method;
use crate::protocol::success_response;
use crate::protocol::Tool;
use crate::protocol::ToolView;
use crate::protocol::well_formed_response;
use crate::registry::McpServerState;
use crate::registry::ToolExecutionContext;
use crate::registry::ToolExecutionContextView;
use crate::registry::ToolRegistry;
use crate::resource::fresh_identifier;
use crate::resource::ResourceRegistry;
use crate::security::initialized;
use crate::security::metadata_value;
use crate::security::SecurityContext;
use crate::text::decimal_text;
use crate::text::join;
use crate::text::text_equal;
use crate::wire::BatchParamsView;
use crate::wire::batch_params;
use crate::wire::batch_params_of;
use crate::wire::batch_params_view;
use crate::wire::batch_result;
use crate::wire::batch_result_json;
use crate::wire::call_params;
use crate::wire::call_params_of;
use crate::wire::opt_u32;
use crate::wire::pong;
use crate::wire::pong_json;
use crate::wire::prompts_list_json;
use crate::wire::prompts_list_result;
use crate::wire::prompt_request;
use crate::wire::prompt_request_of;
use crate::wire::prompt_result;
use crate::wire::prompt_result_json;
use crate::wire::read_params;
use crate::wire::read_params_of;
use crate::wire::resources_list_json;
use crate::wire::resources_list_result;
use crate::wire::resource_read_json;
use crate::wire::resource_read_result;
use crate::wire::tools_list_json;
use crate::wire::tools_list_result;
use crate::wire::tools_view;

verus! {

broadcast use vstd::string::group_string_axioms;

/// How the server schedules a batch.
#[derive(Debug, Clone, Copy, PartialEq, Eq)]
pub enum BatchExecutionMode {
    Parallel,
    Sequential,
    FailFast,
}

/// What a batch is run under.
pub struct BatchContext<'a> {
    pub mode: BatchExecutionMode,
    pub max_parallel: Option<usize>,
    pub timeout_ms: Option<u64>,
    pub security: &'a SecurityContext,
}

/// A server around the state `S`.
pub struct McpServer<S: McpServerState> {
    pub config: McpServerConfig,
    pub state: S,
    pub progress_reporter: ProgressReporter,
    pub health: ServerHealth,
    pub active_connections: usize,
}

/// A method as the server routes it.
enum InternalMcpMethod {
    Standard(StandardMethod),
    Custom(String),
}

/// A protocol error with the given message.
pub open spec fn protocol_error(message: Seq<char>) -> McpErrorView {
    McpErrorView::Protocol { message }
}

/// The error for a batch of `size` requests where `max` is the limit.
pub open spec fn batch_too_large(size: usize, max: usize) -> McpErrorView {
    McpErrorView::Validation {
        message: "Batch size "@ + decimal_text(size as nat) + " exceeds maximum "@ + decimal_text(
            max as nat,
        ),
    }
}

/// The method is a standard one that needs an initialized client, and the
/// client behind `context` is not initialized.
pub open spec fn blocked(method: Seq<char>, context: &SecurityContext) -> bool {
    match standard_method(method) {
        Some(m) => needs_initialization(m) && !initialized(*context),
        None => false,
    }
}

/// What `tools/call` hands to the tool registry: the name of the tool and
/// the arguments, `null` where the parameters carry none. Parameters that
/// are missing or of the wrong shape are a protocol error.
pub open spec fn tool_call_of(params: Option<JsonView>) -> Result<
    (Seq<char>, JsonView),
    McpErrorView,
> {
    match params {
        None => Err(protocol_error("tools/call requires parameters"@)),
        Some(p) => match call_params_of(p) {
            None => Err(protocol_error("Invalid tools/call params"@)),
            Some(call) => Ok(
                (
                    call.0,
                    match call.1 {
                        Some(arguments) => arguments,
                        None => JsonView::Null,
                    },
                ),
            ),
        },
    }
}

/// What a handler's answer becomes: the answer as the result, or the error.
pub open spec fn answer_outcome(answer: Result<JsonView, McpErrorView>) -> Result<
    Option<JsonView>,
    McpErrorView,
> {
    match answer {
        Ok(value) => Ok(Some(value)),
        Err(e) => Err(e),
    }
}

/// What a request is answered with where neither a tool nor a handler of
/// the server state decides: `None` where one of them does.
///
/// The handshake notifications and `ping` are answered at once. A request
/// without the parameters that its method needs, or with parameters of the
/// wrong shape, is a protocol error, and so is a request for a registry that
/// the server lacks or for batches where they are switched off; a batch over
/// the limit is a validation error. The methods of resources and prompts
/// are answered with what the registries answer. What the tool registry
/// answers, and what the state answers to `initialize`, is for them to
/// decide, and so is the result of a batch that runs.
pub open spec fn decided_outcome<S: McpServerState>(
    state: S,
    config: McpServerConfig,
    method: StandardMethod,
    params: Option<JsonView>,
    context: &SecurityContext,
) -> Option<Result<Option<JsonView>, McpErrorView>> {
    match method {
        StandardMethod::Initialize => match params {
            None => Some(Err(protocol_error("Initialize requires parameters"@))),
            Some(_) => None,
        },
        StandardMethod::Initialized => Some(Ok(None)),
        StandardMethod::NotificationsInitialized => Some(Ok(None)),
        StandardMethod::Ping => Some(Ok(Some(pong_json()))),
        StandardMethod::ToolsList => None,
        StandardMethod::ToolsCall => match tool_call_of(params) {
            Err(e) => Some(Err(e)),
            Ok(_) => None,
        },
        StandardMethod::ResourcesList => match state.resources() {
            None => Some(Err(protocol_error("Resources not supported by this server"@))),
            Some(registry) => match registry.offer(context) {
                Ok(templates) => Some(Ok(Some(resources_list_json(templates)))),
                Err(e) => Some(Err(e)),
            },
        },
        StandardMethod::ResourcesRead => match state.resources() {
            None => Some(Err(protocol_error("Resources not supported by this server"@))),
            Some(registry) => match params {
                None => Some(Err(protocol_error("resources/read requires parameters"@))),
                Some(p) => match read_params_of(p) {
                    None => Some(Err(protocol_error("Invalid resources/read params"@))),
                    Some(uri) => match registry.lookup(uri, context) {
                        Ok(resource) => Some(Ok(Some(resource_read_json(resource)))),
                        Err(e) => Some(Err(e)),
                    },
                },
            },
        },
        StandardMethod::PromptsList => match state.prompts() {
            None => Some(Err(protocol_error("Prompts not supported by this server"@))),
            Some(registry) => match registry.listing(context) {
                Ok(prompts) => Some(Ok(Some(prompts_list_json(prompts)))),
                Err(e) => Some(Err(e)),
            },
        },
        StandardMethod::PromptsGet => match state.prompts() {
            None => Some(Err(protocol_error("Prompts not supported by this server"@))),
            Some(registry) => match params {
                None => Some(Err(protocol_error("prompts/get requires parameters"@))),
                Some(p) => match prompt_request_of(p) {
                    None => Some(Err(protocol_error("Invalid prompts/get params"@))),
                    Some(request) => match registry.rendering(
                        request.0,
                        match request.1 {
                            Some(arguments) => arguments,
                            None => Seq::empty(),
                        },
                        context,
                    ) {
                        Ok(rendered) => Some(Ok(Some(prompt_result_json(rendered)))),
                        Err(e) => Some(Err(e)),
                    },
                },
            },
        },
        StandardMethod::Batch => if !config.enable_batch {
            Some(Err(protocol_error("Batch operations are not enabled"@)))
        } else {
            match params {
                None => Some(Err(protocol_error("batch requires parameters"@))),
                Some(p) => match batch_params_of(p) {
                    None => Some(Err(protocol_error("Invalid batch params"@))),
                    Some(batch) => if batch.requests.len() > config.max_batch_size {
                        Some(
                            Err(
                                batch_too_large(
                                    batch.requests.len() as usize,
                                    config.max_batch_size,
                                ),
                            ),
                        )
                    } else {
                        None
                    },
                },
            }
        },
    }
}

/// What holds of the outcome of a method that the tool registry or a
/// handler of the state decides, whatever they answer: `tools/list` gives
/// an error or some tools in the shape of its result; `tools/call` and
/// `initialize` give an error or a result, never nothing.
pub open spec fn open_outcome(
    method: StandardMethod,
    outcome: Result<Option<JsonView>, McpErrorView>,
) -> bool {
    match method {
        StandardMethod::ToolsList => outcome matches Ok(result) ==> exists|tools: Seq<ToolView>|
            result == Some(#[trigger] tools_list_json(tools)),
        StandardMethod::ToolsCall => outcome matches Ok(result) ==> result is Some,
        StandardMethod::Initialize => outcome matches Ok(result) ==> result is Some,
        _ => true,
    }
}

/// The view of what a handler hands back.
pub open spec fn outcome_view(outcome: McpResult<Option<JsonValue>>) -> Result<
    Option<JsonView>,
    McpErrorView,
> {
    match outcome {
        Ok(value) => Ok(opt_value(value)),
        Err(e) => Err(e@),
    }
}

/// The response that carries an outcome: the result of a handler, `null`
/// where the handler has none, or the error object of its error.
pub open spec fn response_of(outcome: Result<Option<JsonView>, McpErrorView>, id: Option<JsonView>)
    -> JsonRpcResponseView {
    match outcome {
        Ok(Some(value)) => success_response(value, id),
        Ok(None) => success_response(JsonView::Null, id),
        Err(e) => error_response(rpc_error_of(e), id),
    }
}

/// The response to a request where neither a tool nor a handler of the
/// server state decides it: the not-initialized error for a blocked
/// request, else the response that carries the decided outcome of a
/// standard method.
pub open spec fn expected_response<S: McpServerState>(
    state: S,
    config: McpServerConfig,
    request: JsonRpcRequestView,
    context: &SecurityContext,
) -> Option<JsonRpcResponseView> {
    if blocked(request.method, context) {
        Some(error_response(rpc_error_of(McpErrorView::NotInitialized), request.id))
    } else {
        match standard_method(request.method) {
            Some(method) => match decided_outcome(state, config, method, request.params, context) {
                Some(outcome) => Some(response_of(outcome, request.id)),
                None => None,
            },
            None => None,
        }
    }
}

/// The result of a request of a batch that is itself a batch: an
/// invalid-request error, and nothing run.
pub open spec fn nested_batch_result(id: Seq<char>) -> BatchItemResultView {
    BatchItemResultView {
        id,
        result: None,
        error: Some(
            JsonRpcErrorView {
                code: INVALID_REQUEST,
                message: "Nested batch requests are not allowed"@,
                data: None,
            },
        ),
        execution_time_ms: 0,
        skipped: false,
        metadata: Seq::empty(),
    }
}

/// The result of a request of a batch, given the response that the server
/// gave to it: the error where there is one, else the result.
pub open spec fn item_result_of(id: Seq<char>, response: JsonRpcResponseView)
    -> BatchItemResultView {
    BatchItemResultView {
        id,
        result: if response.error is None {
            response.result
        } else {
            None
        },
        error: response.error,
        execution_time_ms: 0,
        skipped: false,
        metadata: Seq::empty(),
    }
}

/// The request that the server serves for a request of a batch.
pub open spec fn sub_request(item: BatchRequestView) -> JsonRpcRequestView {
    JsonRpcRequestView {
        jsonrpc: "2.0"@,
        method: item.method,
        params: item.params,
        id: Some(JsonView::String(item.id)),
    }
}

/// The result stands for the request: it carries the request's identifier,
/// no timing and no metadata, and is not skipped; it holds a result or an
/// error, not both. A nested batch is rejected; any other request has the
/// result of the response that the server gives to it.
pub open spec fn item_ok<S: McpServerState>(
    state: S,
    config: McpServerConfig,
    item: BatchRequestView,
    context: &SecurityContext,
    result: BatchItemResultView,
) -> bool {
    &&& result.id == item.id
    &&& result.execution_time_ms == 0
    &&& !result.skipped
    &&& result.metadata.len() == 0
    &&& result.result is Some <==> result.error is None
    &&& item.method == "batch"@ ==> result == nested_batch_result(item.id)
    &&& item.method != "batch"@ ==> (expected_response(state, config, sub_request(item), context)
        matches Some(response) ==> result == item_result_of(item.id, response))
}

/// The results that carry an error.
pub open spec fn count_failed(results: Seq<BatchItemResultView>) -> nat
    decreases results.len(),
{
    if results.len() == 0 {
        0
    } else if results.last().error is Some {
        count_failed(results.drop_last()) + 1
    } else {
        count_failed(results.drop_last())
    }
}

/// The client asked for a sequential batch to stop at the first error: the
/// metadata entry `stop_on_error` is the text `true`.
pub open spec fn stops_on_error(context: &SecurityContext) -> bool {
    metadata_value(context.client.metadata@, "stop_on_error"@) == Some("true"@)
}

/// The scheduling that the server gives to a mode that a client asks for:
/// the modes with dependencies run sequentially.
pub open spec fn schedule_of(mode: crate::protocol::BatchExecutionMode) -> BatchExecutionMode {
    match mode {
        crate::protocol::BatchExecutionMode::Parallel => BatchExecutionMode::Parallel,
        _ => BatchExecutionMode::Sequential,
    }
}

/// A run under `mode` and `context` stops at the first error.
pub open spec fn halts_on_error(mode: BatchExecutionMode, context: &SecurityContext) -> bool {
    mode != BatchExecutionMode::Parallel && stops_on_error(context)
}

/// The results are those of a run that stops after the first request, not
/// a nested batch, that gave an error: no result before the last carries
/// such an error, and where requests are left over, the last one does.
pub open spec fn stopped_at_first_error(
    items: Seq<BatchRequestView>,
    results: Seq<BatchItemResultView>,
) -> bool {
    &&& forall|k: int|
        0 <= k < results.len() - 1 ==> !((#[trigger] results[k]).error is Some && items[k].method
            != "batch"@)
    &&& results.len() < items.len() ==> results.len() > 0 && results.last().error is Some
        && items[results.len() - 1].method != "batch"@
}

/// The results stand for the requests, in their order: one result for each
/// request, unless the run stops at the first error, where they end with
/// the result that carries it.
pub open spec fn results_ok<S: McpServerState>(
    state: S,
    config: McpServerConfig,
    items: Seq<BatchRequestView>,
    halting: bool,
    context: &SecurityContext,
    results: Seq<BatchItemResultView>,
) -> bool {
    &&& results.len() <= items.len()
    &&& forall|k: int|
        0 <= k < results.len() ==> item_ok(state, config, items[k], context, #[trigger] results[k])
    &&& if halting {
        stopped_at_first_error(items, results)
    } else {
        results.len() == items.len()
    }
}

/// The counts of a batch of `total` requests with the given results:
/// requests left out by an early stop count as skipped, and the timings
/// are not measured.
pub open spec fn stats_of(total: usize, results: Seq<BatchItemResultView>, max_parallel: Option<int>)
    -> BatchStats {
    BatchStats {
        total_requests: total,
        successful_requests: (results.len() - count_failed(results)) as usize,
        failed_requests: count_failed(results) as usize,
        skipped_requests: (total - results.len()) as usize,
        total_execution_time_ms: 0,
        average_execution_time_ms: 0,
        max_parallel_executed: match max_parallel {
            Some(n) => n as usize,
            None => 1,
        },
    }
}

/// The reports of a batch of `total` requests of which `done` gave a
/// result: that it started, one report after each result with the count so
/// far, and that it completed.
pub open spec fn batch_reports(id: Seq<char>, total: usize, done: int) -> Seq<ProgressUpdateView> {
    Seq::new(
        (done + 2) as nat,
        |i: int|
            if i == 0 {
                started_update(id, "Processing batch request"@, total)
            } else if i <= done {
                progress_update(id, processed_message(i as usize), i as usize)
            } else {
                completed_update(id, "Batch request completed"@)
            },
    )
}

/// The value is the result of a batch of the given requests, and the
/// reports are those of its run: there are results that stand for the
/// requests, the value carries them with their counts, and the reports
/// follow them under one identifier.
pub open spec fn is_batch_reply<S: McpServerState>(
    state: S,
    config: McpServerConfig,
    batch: BatchParamsView,
    context: &SecurityContext,
    value: JsonView,
    reports: Seq<ProgressUpdateView>,
) -> bool {
    exists|results: Seq<BatchItemResultView>, id: Seq<char>|
        {
            &&& results_ok(
                state,
                config,
                batch.requests,
                halts_on_error(schedule_of(batch.execution_mode), context),
                context,
                results,
            )
            &&& value == #[trigger] batch_result_json(
                stats_of(batch.requests.len() as usize, results, batch.max_parallel),
                results,
                None,
                Seq::empty(),
            )
            &&& reports == #[trigger] batch_reports(
                id,
                batch.requests.len() as usize,
                results.len() as int,
            )
        }
}

/// The reports that came after the first `before` of them.
pub open spec fn reports_since(reports: Seq<ProgressUpdateView>, before: nat) -> Seq<
    ProgressUpdateView,
> {
    reports.skip(before as int)
}

/// The window of a parallel batch: at most this many requests are in
/// flight at once.
pub open spec fn window_of(max_parallel: Option<usize>, len: usize) -> usize {
    let wanted = match max_parallel {
        Some(n) => n,
        None => 10usize,
    };
    if wanted < len {
        wanted
    } else {
        len
    }
}

/// The window of a parallel batch of `len` requests: `max_parallel`, or 10
/// where none is given, but no more than `len`.
pub fn parallel_window(max_parallel: Option<usize>, len: usize) -> (window: usize)
    ensures
        window == window_of(max_parallel, len),
{
    let wanted: usize = match max_parallel {
        Some(n) => n,
        None => 10,
    };
    if wanted < len {
        wanted
    } else {
        len
    }
}

/// Reads the parameters of `tools/call` and builds what the tool is run
/// with: the rights of the caller and the arguments.
pub fn tool_call(params: Option<JsonValue>, context: &SecurityContext) -> (prepared: McpResult<
    (String, ToolExecutionContext),
>)
    ensures
        match tool_call_of(opt_value(params)) {
            Ok(call) => prepared matches Ok(pair) && pair.0@ == call.0 && pair.1@ == (
                ToolExecutionContextView { security: context@, arguments: call.1 }
            ),
            Err(e) => prepared matches Err(got) && got@ == e,
        },
{
    let p = match params {
        Some(p) => p,
        None => {
            return Err(protocol("tools/call requires parameters"));
        },
    };
    let call = match call_params(&p) {
        Some(call) => call,
        None => {
            return Err(protocol("Invalid tools/call params"));
        },
    };
    let arguments = match call.arguments {
        Some(arguments) => arguments,
        None => JsonValue::Null,
    };
    let execution = ToolExecutionContext::new(context.clone()).with_arguments(arguments);
    Ok((call.name, execution))
}

/// The outcome of `tools/list`, given what the tool registry listed: the
/// tools in the shape of the result, or the error of the registry.
pub fn tools_listed(listing: McpResult<Vec<Tool>>) -> (outcome: McpResult<Option<JsonValue>>)
    ensures
        outcome_view(outcome) == match listing {
            Ok(tools) => Ok::<Option<JsonView>, McpErrorView>(
                Some(tools_list_json(tools_view(tools@))),
            ),
            Err(e) => Err(e@),
        },
{
    match listing {
        Ok(tools) => Ok(Some(tools_list_result(&tools))),
        Err(e) => Err(e),
    }
}

/// The outcome of a request, given what its handler answered: the answer
/// as it is, or the error of the handler.
pub fn answered(answer: McpResult<JsonValue>) -> (outcome: McpResult<Option<JsonValue>>)
    ensures
        outcome_view(outcome) == answer_outcome(
            match answer {
                Ok(value) => Ok(value@),
                Err(e) => Err(e@),
            },
        ),
{
    match answer {
        Ok(value) => Ok(Some(value)),
        Err(e) => Err(e),
    }
}

/// The response that carries what a handler handed back.
pub fn build_response(outcome: McpResult<Option<JsonValue>>, id: Option<JsonValue>) -> (response:
    JsonRpcResponse)
    ensures
        response@ == response_of(outcome_view(outcome), opt_value(id)),
        response.id == id,
        well_formed_response(response@),
{
    match outcome {
        Ok(Some(value)) => JsonRpcResponse::success(value, id),
        Ok(None) => JsonRpcResponse::success(JsonValue::Null, id),
        Err(e) => JsonRpcResponse::error(e.to_rpc_error(), id),
    }
}

/// The response to a frame that could not be read as a request: a parse
/// error, and no identifier.
pub fn parse_error_response(message: &str) -> (response: JsonRpcResponse)
    ensures
        response@ == error_response(
            rpc_error_of(McpErrorView::Parse { message: message@ }),
            None,
        ),
        response.id is None,
        well_formed_response(response@),
{
    let error = McpError::Parse { message: message.to_owned() };
    JsonRpcResponse::error(error.to_rpc_error(), None)
}

/// The result of a request of a batch, from the response to it.
pub fn item_result(id: &str, response: JsonRpcResponse) -> (item: BatchItemResult)
    ensures
        item@ == item_result_of(id@, response@),
{
    let result = if response.error.is_none() {
        response.result
    } else {
        None
    };
    let item = BatchItemResult {
        id: id.to_owned(),
        result,
        error: response.error,
        execution_time_ms: 0,
        skipped: false,
        metadata: Vec::new(),
    };
    assert(crate::json::members_view(item.metadata@) =~= Seq::empty());
    item
}

/// The result of a request of a batch that is itself a batch.
pub fn nested_batch_rejection(id: &str) -> (item: BatchItemResult)
    ensures
        item@ == nested_batch_result(id@),
{
    let item = BatchItemResult {
        id: id.to_owned(),
        result: None,
        error: Some(
            JsonRpcError {
                code: INVALID_REQUEST,
                message: "Nested batch requests are not allowed".to_owned(),
                data: None,
            },
        ),
        execution_time_ms: 0,
        skipped: false,
        metadata: Vec::new(),
    };
    assert(crate::json::members_view(item.metadata@) =~= Seq::empty());
    item
}

/// Counts the results that carry an error.
pub fn failed_count(results: &Vec<BatchItemResult>) -> (failed: usize)
    ensures
        failed == count_failed(item_results_view(results@)),
        failed <= results.len(),
{
    let ghost views = item_results_view(results@);
    let mut failed: usize = 0;
    let mut i: usize = 0;
    assert(views.take(0) =~= Seq::empty());
    while i < results.len()
        invariant
            i <= results.len(),
            failed <= i,
            views == item_results_view(results@),
            failed == count_failed(views.take(i as int)),
        decreases results.len() - i,
    {
        proof {
            assert(views.take(i + 1).drop_last() =~= views.take(i as int));
            assert(views.take(i + 1).last() == results@[i as int]@);
        }
        if results[i].error.is_some() {
            failed += 1;
        }
        i += 1;
    }
    assert(views.take(i as int) =~= views);
    failed
}

/// A protocol error with the given message.
fn protocol(message: &str) -> (error: McpError)
    ensures
        error@ == protocol_error(message@),
{
    McpError::Protocol { message: message.to_owned() }
}

/// No more results carry an error than there are results.
pub proof fn lemma_count_failed(results: Seq<BatchItemResultView>)
    ensures
        count_failed(results) <= results.len(),
    decreases results.len(),
{
    if results.len() > 0 {
        lemma_count_failed(results.drop_last());
    }
}

/// The counts of a batch add up: the requests that succeeded, failed and
/// were skipped are all its requests; and unless the run stops at the
/// first error, every request has its result.
pub proof fn lemma_batch_counts<S: McpServerState>(
    state: S,
    config: McpServerConfig,
    items: Seq<BatchRequestView>,
    halting: bool,
    context: &SecurityContext,
    results: Seq<BatchItemResultView>,
    max_parallel: Option<int>,
)
    requires
        results_ok(state, config, items, halting, context, results),
        items.len() <= usize::MAX,
    ensures
        stats_of(items.len() as usize, results, max_parallel).total_requests == items.len(),
        stats_of(items.len() as usize, results, max_parallel).successful_requests + stats_of(
            items.len() as usize,
            results,
            max_parallel,
        ).failed_requests + stats_of(items.len() as usize, results, max_parallel).skipped_requests
            == items.len(),
        !halting ==> results.len() == items.len(),
{
    lemma_count_failed(results);
}

/// The results of a run that does not stop early carry the identifiers of
/// the requests, in the order of the requests; so the identifiers of the
/// results are those of the requests, each as often. A parallel batch is
/// such a run.
pub proof fn lemma_batch_order<S: McpServerState>(
    state: S,
    config: McpServerConfig,
    items: Seq<BatchRequestView>,
    context: &SecurityContext,
    results: Seq<BatchItemResultView>,
)
    requires
        results_ok(state, config, items, false, context, results),
    ensures
        result_ids(results) == request_ids(items),
        result_ids(results).to_multiset() == request_ids(items).to_multiset(),
        !halts_on_error(BatchExecutionMode::Parallel, context),
{
    assert(result_ids(results) =~= request_ids(items)) by {
        assert forall|k: int| 0 <= k < results.len() implies result_ids(results)[k] == request_ids(
            items,
        )[k] by {
            assert(item_ok(state, config, items[k], context, results[k]));
        }
    }
}

/// A batch that does not stop early answers every request: where the
/// value is the result of a batch whose run does not stop at the first
/// error, it carries one result for each request, with the identifiers of
/// the requests in their order, and counts that add up to the number of
/// requests.
pub proof fn lemma_batch_reply_complete<S: McpServerState>(
    state: S,
    config: McpServerConfig,
    batch: BatchParamsView,
    context: &SecurityContext,
    value: JsonView,
    reports: Seq<ProgressUpdateView>,
)
    requires
        is_batch_reply(state, config, batch, context, value, reports),
        !halts_on_error(schedule_of(batch.execution_mode), context),
        batch.requests.len() <= usize::MAX,
    ensures
        exists|results: Seq<BatchItemResultView>|
            {
                &&& value == #[trigger] batch_result_json(
                    stats_of(batch.requests.len() as usize, results, batch.max_parallel),
                    results,
                    None,
                    Seq::empty(),
                )
                &&& results.len() == batch.requests.len()
                &&& result_ids(results) == request_ids(batch.requests)
                &&& stats_of(
                    batch.requests.len() as usize,
                    results,
                    batch.max_parallel,
                ).total_requests == batch.requests.len()
                &&& stats_of(
                    batch.requests.len() as usize,
                    results,
                    batch.max_parallel,
                ).successful_requests + stats_of(
                    batch.requests.len() as usize,
                    results,
                    batch.max_parallel,
                ).failed_requests + stats_of(
                    batch.requests.len() as usize,
                    results,
                    batch.max_parallel,
                ).skipped_requests == batch.requests.len()
                &&& forall|k: int|
                    0 <= k < results.len() && batch.requests[k].method == "batch"@
                        ==> #[trigger] results[k] == nested_batch_result(batch.requests[k].id)
            },
{
    let (results, id) = choose|results: Seq<BatchItemResultView>, id: Seq<char>|
        {
            &&& results_ok(
                state,
                config,
                batch.requests,
                halts_on_error(schedule_of(batch.execution_mode), context),
                context,
                results,
            )
            &&& value == #[trigger] batch_result_json(
                stats_of(batch.requests.len() as usize, results, batch.max_parallel),
                results,
                None,
                Seq::empty(),
            )
            &&& reports == #[trigger] batch_reports(
                id,
                batch.requests.len() as usize,
                results.len() as int,
            )
        };
    lemma_batch_counts(state, config, batch.requests, false, context, results, batch.max_parallel);
    lemma_batch_order(state, config, batch.requests, context, results);
    assert forall|k: int|
        0 <= k < results.len() && batch.requests[k].method == "batch"@ implies #[trigger] results[k]
        == nested_batch_result(batch.requests[k].id) by {
        assert(item_ok(state, config, batch.requests[k], context, results[k]));
    }
}

/// The weight of a method in the order that bounds the nesting of
/// requests: a batch weighs more than the requests it carries.
pub open spec fn request_weight(method: Seq<char>) -> int {
    if method == "batch"@ {
        1
    } else {
        0
    }
}

/// The weight of a standard method.
pub open spec fn method_weight(method: StandardMethod) -> int {
    if method is Batch {
        1
    } else {
        0
    }
}

/// The reports that follow the results of a batch: one after each result,
/// with the count so far.
pub open spec fn progress_reports(id: Seq<char>, done: int) -> Seq<ProgressUpdateView> {
    Seq::new(
        done as nat,
        |i: int| progress_update(id, processed_message((i + 1) as usize), (i + 1) as usize),
    )
}

/// Nothing but the progress reports differs between the two servers, and
/// the reports of the first are the first reports of the second.
pub open spec fn carried_on<S: McpServerState>(before: McpServer<S>, after: McpServer<S>) -> bool {
    &&& after.config == before.config
    &&& after.state == before.state
    &&& after.health == before.health
    &&& after.active_connections == before.active_connections
    &&& before.progress_reporter.reported().len() <= after.progress_reporter.reported().len()
    &&& after.progress_reporter.reported().take(before.progress_reporter.reported().len() as int)
        == before.progress_reporter.reported()
}

/// The response carries an outcome that `open_outcome` allows for the
/// method.
pub open spec fn open_response(
    method: StandardMethod,
    id: Option<JsonView>,
    response: JsonRpcResponseView,
) -> bool {
    exists|outcome: Result<Option<JsonView>, McpErrorView>|
        open_outcome(method, outcome) && response == #[trigger] response_of(outcome, id)
}

/// The response is what the server gives to the request, and `after` is
/// the server that this leaves.
///
/// The response carries the identifier of the request and holds a result or
/// an error, not both. Where neither a tool nor a handler of the state
/// decides, it is the response that `expected_response` gives, and nothing
/// is reported. Where a tool or a handler decides a standard method, the
/// response carries an outcome that `open_outcome` allows. Where a batch
/// runs, its result is the result of that batch, and the reports are those
/// of its run. Nothing but the reports changes, and only a batch that runs
/// reports.
pub open spec fn served<S: McpServerState>(
    before: McpServer<S>,
    after: McpServer<S>,
    request: JsonRpcRequest,
    context: &SecurityContext,
    response: JsonRpcResponse,
) -> bool {
    &&& response.id == request.id
    &&& well_formed_response(response@)
    &&& expected_response(before.state, before.config, request@, context) matches Some(expected)
        ==> (response@ == expected && after.progress_reporter.reported()
        == before.progress_reporter.reported())
    &&& !blocked(request.method@, context) ==> match standard_method(request.method@) {
        Some(method) => decided_outcome(
            before.state,
            before.config,
            method,
            request@.params,
            context,
        ) is None ==> open_response(method, request@.id, response@),
        None => true,
    }
    &&& !blocked(request.method@, context) && request.method@ == "batch"@ && decided_outcome(
        before.state,
        before.config,
        StandardMethod::Batch,
        request@.params,
        context,
    ) is None ==> (response@.result matches Some(value) && is_batch_reply(
        before.state,
        before.config,
        batch_params_of(request@.params->0)->0,
        context,
        value,
        reports_since(
            after.progress_reporter.reported(),
            before.progress_reporter.reported().len(),
        ),
    ))
    &&& carried_on(before, after)
    &&& !(standard_method(request.method@) matches Some(StandardMethod::Batch))
        ==> after.progress_reporter.reported() == before.progress_reporter.reported()
}

impl<S: McpServerState> McpServer<S> {
    /// A server with the given configuration around the given state: no
    /// reports, no connections, in good health.
    pub fn new(config: McpServerConfig, state: S) -> (server: Self)
        ensures
            server.config == config,
            server.state == state,
            server.progress_reporter.reported().len() == 0,
            server.active_connections == 0,
            server.health.healthy,
            server.health.status@ == "healthy"@,
            server.health.uptime_seconds == 0,
            server.health.active_connections == 0,
    {
        McpServer {
            config,
            state,
            progress_reporter: ProgressReporter::new(),
            health: ServerHealth::default(),
            active_connections: 0,
        }
    }

    pub fn config(&self) -> (config: &McpServerConfig)
        ensures
            *config == self.config,
    {
        &self.config
    }

    pub fn state(&self) -> (state: &S)
        ensures
            *state == self.state,
    {
        &self.state
    }

    pub fn progress_reporter(&self) -> (reporter: &ProgressReporter)
        ensures
            *reporter == self.progress_reporter,
    {
        &self.progress_reporter
    }

    /// The health of the server after `uptime_seconds` of service.
    pub fn get_health(&self, uptime_seconds: u64) -> (health: ServerHealth)
        ensures
            health.healthy == self.health.healthy,
            health.status == self.health.status,
            health.uptime_seconds == uptime_seconds,
            health.active_connections == self.active_connections,
    {
        let mut health = self.health.clone();
        health.uptime_seconds = uptime_seconds;
        health.active_connections = self.active_connections;
        health
    }

    /// Records the health of the server.
    pub fn update_health(&mut self, healthy: bool, status: String)
        ensures
            final(self).health.healthy == healthy,
            final(self).health.status == status,
            final(self).health.uptime_seconds == old(self).health.uptime_seconds,
            final(self).health.active_connections == old(self).health.active_connections,
            final(self).config == old(self).config,
            final(self).state == old(self).state,
            final(self).progress_reporter == old(self).progress_reporter,
            final(self).active_connections == old(self).active_connections,
    {
        self.health.healthy = healthy;
        self.health.status = status;
    }

    /// Counts a connection that was opened. The count stays at the largest
    /// number that it can hold.
    pub fn connection_opened(&mut self)
        ensures
            final(self).active_connections == if old(self).active_connections < usize::MAX {
                (old(self).active_connections + 1) as usize
            } else {
                old(self).active_connections
            },
            final(self).config == old(self).config,
            final(self).state == old(self).state,
            final(self).progress_reporter == old(self).progress_reporter,
            final(self).health == old(self).health,
    {
        if self.active_connections < usize::MAX {
            self.active_connections = self.active_connections + 1;
        }
    }

    /// Counts a connection that was closed. The count does not go below 0.
    pub fn connection_closed(&mut self)
        ensures
            final(self).active_connections == if old(self).active_connections > 0 {
                (old(self).active_connections - 1) as usize
            } else {
                0
            },
            final(self).config == old(self).config,
            final(self).state == old(self).state,
            final(self).progress_reporter == old(self).progress_reporter,
            final(self).health == old(self).health,
    {
        if self.active_connections > 0 {
            self.active_connections = self.active_connections - 1;
        }
    }

    /// Checks that the client may call the method of the request.
    fn validate_request(&self, request: &JsonRpcRequest, context: &SecurityContext) -> (checked:
        McpResult<()>)
        ensures
            match checked {
                Ok(_) => !blocked(request.method@, context),
                Err(e) => blocked(request.method@, context) && e@ == McpErrorView::NotInitialized,
            },
    {
        match StandardMethod::from_name(request.method.as_str()) {
            Some(method) => {
                if method.requires_initialization() && !context.is_initialized() {
                    Err(McpError::NotInitialized)
                } else {
                    Ok(())
                }
            },
            None => Ok(()),
        }
    }

    /// Tells a standard method from a custom one.
    fn parse_method(&self, method: &str) -> (parsed: InternalMcpMethod)
        ensures
            match parsed {
                InternalMcpMethod::Standard(m) => standard_method(method@) == Some(m),
                InternalMcpMethod::Custom(name) => standard_method(method@) is None && name@
                    == method@,
            },
    {
        match StandardMethod::from_name(method) {
            Some(m) => InternalMcpMethod::Standard(m),
            None => InternalMcpMethod::Custom(method.to_owned()),
        }
    }

    /// Serves a request. Every failure becomes the error object of the
    /// response, which carries the identifier of the request.
    pub fn handle_request(&mut self, request: JsonRpcRequest, context: &SecurityContext) -> (response:
        JsonRpcResponse)
        ensures
            response.id == request.id,
            response@.result is Some <==> response@.error is None,
            served(*old(self), *final(self), request, context, response),
        decreases request_weight(request.method@), 4int,
    {
        proof {
            lemma_method_names(StandardMethod::Batch);
        }
        let ghost before = *self;
        match self.validate_request(&request, context) {
            Err(e) => {
                assert(before.progress_reporter.reported().take(
                    before.progress_reporter.reported().len() as int,
                ) =~= before.progress_reporter.reported());
                return JsonRpcResponse::error(e.to_rpc_error(), request.id);
            },
            Ok(_) => {},
        }
        let outcome = match self.parse_method(request.method.as_str()) {
            InternalMcpMethod::Standard(method) => {
                self.handle_standard_method(method, request.params, context)
            },
            InternalMcpMethod::Custom(name) => {
                assert(before.progress_reporter.reported().take(
                    before.progress_reporter.reported().len() as int,
                ) =~= before.progress_reporter.reported());
                self.state.handle_custom_method(name.as_str(), request.params, context)
            },
        };
        build_response(outcome, request.id)
    }

    /// Serves a request as a transport needs it: a notification, which
    /// carries no identifier, is served and gets no response.
    pub fn serve(&mut self, request: JsonRpcRequest, context: &SecurityContext) -> (reply: Option<
        JsonRpcResponse,
    >)
        ensures
            reply is Some <==> request.id is Some,
            exists|response: JsonRpcResponse| #[trigger]
                served(*old(self), *final(self), request, context, response) && (reply matches Some(
                    given,
                ) ==> given == response),
    {
        let notification = request.id.is_none();
        let ghost asked = request;
        let ghost before = *self;
        let response = self.handle_request(request, context);
        assert(served(before, *self, asked, context, response));
        if notification {
            None
        } else {
            Some(response)
        }
    }

    /// Serves a standard method.
    fn handle_standard_method(
        &mut self,
        method: StandardMethod,
        params: Option<JsonValue>,
        context: &SecurityContext,
    ) -> (outcome: McpResult<Option<JsonValue>>)
        ensures
            decided_outcome(old(self).state, old(self).config, method, opt_value(params), context)
                matches Some(decided) ==> (outcome_view(outcome) == decided
                && final(self).progress_reporter.reported()
                == old(self).progress_reporter.reported()),
            decided_outcome(old(self).state, old(self).config, method, opt_value(params), context)
                is None ==> open_outcome(method, outcome_view(outcome)),
            method is Batch && decided_outcome(
                old(self).state,
                old(self).config,
                method,
                opt_value(params),
                context,
            ) is None ==> (outcome matches Ok(Some(value)) && is_batch_reply(
                old(self).state,
                old(self).config,
                batch_params_of(opt_value(params)->0)->0,
                context,
                value@,
                reports_since(
                    final(self).progress_reporter.reported(),
                    old(self).progress_reporter.reported().len(),
                ),
            )),
            carried_on(*old(self), *final(self)),
            !(method is Batch) ==> final(self).progress_reporter.reported() == old(
                self,
            ).progress_reporter.reported(),
        decreases method_weight(method), 3int,
    {
        proof {
            let reports = self.progress_reporter.reported();
            assert(reports.take(reports.len() as int) =~= reports);
        }
        match method {
            StandardMethod::Initialize => {
                match params {
                    Some(p) => answered(self.state.initialize(p)),
                    None => Err(protocol("Initialize requires parameters")),
                }
            },
            StandardMethod::Initialized => Ok(None),
            StandardMethod::NotificationsInitialized => Ok(None),
            StandardMethod::Ping => Ok(Some(pong())),
            StandardMethod::ToolsList => {
                tools_listed(self.state.tool_registry().list_tools(context))
            },
            StandardMethod::ToolsCall => {
                match tool_call(params, context) {
                    Ok((name, execution)) => answered(
                        self.state.tool_registry().execute_tool(name.as_str(), execution),
                    ),
                    Err(e) => Err(e),
                }
            },
            StandardMethod::ResourcesList => {
                match self.state.resource_registry() {
                    Some(registry) => match registry.list_resource_templates(context) {
                        Ok(templates) => Ok(Some(resources_list_result(&templates))),
                        Err(e) => Err(e),
                    },
                    None => Err(protocol("Resources not supported by this server")),
                }
            },
            StandardMethod::ResourcesRead => {
                let registry = match self.state.resource_registry() {
                    Some(registry) => registry,
                    None => {
                        return Err(protocol("Resources not supported by this server"));
                    },
                };
                let p = match params {
                    Some(p) => p,
                    None => {
                        return Err(protocol("resources/read requires parameters"));
                    },
                };
                let read = match read_params(&p) {
                    Some(read) => read,
                    None => {
                        return Err(protocol("Invalid resources/read params"));
                    },
                };
                match registry.get_resource(read.uri.as_str(), context) {
                    Ok(resource) => Ok(Some(resource_read_result(&resource))),
                    Err(e) => Err(e),
                }
            },
            StandardMethod::PromptsList => {
                match self.state.prompt_registry() {
                    Some(registry) => match registry.list_prompts(context) {
                        Ok(prompts) => Ok(Some(prompts_list_result(&prompts))),
                        Err(e) => Err(e),
                    },
                    None => Err(protocol("Prompts not supported by this server")),
                }
            },
            StandardMethod::PromptsGet => {
                let registry = match self.state.prompt_registry() {
                    Some(registry) => registry,
                    None => {
                        return Err(protocol("Prompts not supported by this server"));
                    },
                };
                let p = match params {
                    Some(p) => p,
                    None => {
                        return Err(protocol("prompts/get requires parameters"));
                    },
                };
                let request = match prompt_request(&p) {
                    Some(request) => request,
                    None => {
                        return Err(protocol("Invalid prompts/get params"));
                    },
                };
                match registry.get_prompt_with_args(request, context) {
                    Ok(rendered) => Ok(Some(prompt_result(&rendered))),
                    Err(e) => Err(e),
                }
            },
            StandardMethod::Batch => {
                if !self.config.enable_batch {
                    return Err(protocol("Batch operations are not enabled"));
                }
                let p = match params {
                    Some(p) => p,
                    None => {
                        return Err(protocol("batch requires parameters"));
                    },
                };
                let batch = match batch_params(&p) {
                    Some(batch) => batch,
                    None => {
                        return Err(protocol("Invalid batch params"));
                    },
                };
                let ghost view = batch_params_view(batch);
                let ghost base = self.progress_reporter.reported();
                match self.handle_batch_request(batch, context) {
                    Ok(result) => {
                        let value = batch_result(&result);
                        proof {
                            let results = item_results_view(result.results@);
                            let now = self.progress_reporter.reported();
                            let id = choose|id: Seq<char>|
                                now == base + #[trigger] batch_reports(
                                    id,
                                    view.requests.len() as usize,
                                    results.len() as int,
                                );
                            let reports = batch_reports(
                                id,
                                view.requests.len() as usize,
                                results.len() as int,
                            );
                            assert(reports_since(now, base.len()) =~= reports);
                            assert(crate::json::members_view(result.metadata@).len() == 0);
                            assert(crate::json::members_view(result.metadata@) =~= Seq::empty());
                            assert(value@ == batch_result_json(
                                stats_of(view.requests.len() as usize, results, view.max_parallel),
                                results,
                                None,
                                Seq::empty(),
                            ));
                        }
                        Ok(Some(value))
                    },
                    Err(e) => Err(e),
                }
            },
        }
    }

    /// Runs a batch: reports that it started, runs its requests under the
    /// scheduling that their mode asks for, reports that it completed, and
    /// counts the results.
    pub fn handle_batch_request(&mut self, batch: BatchParams, context: &SecurityContext) -> (outcome:
        McpResult<BatchResult>)
        ensures
            carried_on(*old(self), *final(self)),
            batch.requests.len() > old(self).config.max_batch_size ==> (outcome matches Err(e)
                && e@ == batch_too_large(batch.requests.len(), old(self).config.max_batch_size)
                && final(self).progress_reporter.reported() == old(
                self,
            ).progress_reporter.reported()),
            batch.requests.len() <= old(self).config.max_batch_size ==> (outcome matches Ok(result)
                && results_ok(
                old(self).state,
                old(self).config,
                batch_requests_view(batch.requests@),
                halts_on_error(schedule_of(batch.execution_mode), context),
                context,
                item_results_view(result.results@),
            ) && result.stats == stats_of(
                batch.requests.len(),
                item_results_view(result.results@),
                opt_u32(batch.max_parallel),
            ) && result.correlation_token is None && result.metadata@.len() == 0 && exists|
                id: Seq<char>,
            |
                final(self).progress_reporter.reported() == old(self).progress_reporter.reported()
                    + #[trigger] batch_reports(id, batch.requests.len(), result.results@.len() as int)),
        decreases 1int, 2int,
    {
        let ghost before = *self;
        let ghost base = self.progress_reporter.reported();
        let total = batch.requests.len();
        if total > self.config.max_batch_size {
            let mut message = join("Batch size ", decimal_string(total as u64).as_str());
            message.append(" exceeds maximum ");
            message.append(decimal_string(self.config.max_batch_size as u64).as_str());
            assert(base.take(base.len() as int) =~= base);
            return Err(McpError::Validation { message });
        }
        let mode = match batch.execution_mode {
            crate::protocol::BatchExecutionMode::Parallel => BatchExecutionMode::Parallel,
            crate::protocol::BatchExecutionMode::Sequential => BatchExecutionMode::Sequential,
            crate::protocol::BatchExecutionMode::Dependency => BatchExecutionMode::Sequential,
            crate::protocol::BatchExecutionMode::PriorityDependency => BatchExecutionMode::Sequential,
        };
        let max_parallel: Option<usize> = match batch.max_parallel {
            Some(n) => Some(n as usize),
            None => None,
        };
        let batch_context = BatchContext {
            mode,
            max_parallel,
            timeout_ms: batch.timeout_ms,
            security: context,
        };
        let progress_id = fresh_identifier();
        self.progress_reporter.report_progress(
            ProgressUpdate::started(
                progress_id.clone(),
                "Processing batch request".to_owned(),
                total,
            ),
        );
        let ghost started = self.progress_reporter.reported();
        let results = match batch_context.mode {
            BatchExecutionMode::Parallel => self.execute_batch_parallel(
                &batch.requests,
                &batch_context,
                progress_id.as_str(),
            ),
            _ => self.execute_batch_sequential(
                &batch.requests,
                &batch_context,
                progress_id.as_str(),
            ),
        };
        let ghost ran = self.progress_reporter.reported();
        self.progress_reporter.report_progress(
            ProgressUpdate::completed(progress_id.clone(), "Batch request completed".to_owned()),
        );
        let failed = failed_count(&results);
        let done = results.len();
        let stats = BatchStats {
            total_requests: total,
            successful_requests: done - failed,
            failed_requests: failed,
            skipped_requests: total - done,
            total_execution_time_ms: 0,
            average_execution_time_ms: 0,
            max_parallel_executed: match max_parallel {
                Some(n) => n,
                None => 1,
            },
        };
        proof {
            let now = self.progress_reporter.reported();
            let reports = batch_reports(progress_id@, total, done as int);
            assert(now =~= base + reports);
            assert(now.take(base.len() as int) =~= base);
            assert(results_ok(
                before.state,
                before.config,
                batch_requests_view(batch.requests@),
                halts_on_error(schedule_of(batch.execution_mode), context),
                context,
                item_results_view(results@),
            ));
            assert(stats == stats_of(
                total,
                item_results_view(results@),
                opt_u32(batch.max_parallel),
            ));
        }
        Ok(BatchResult { stats, results, correlation_token: None, metadata: Vec::new() })
    }

    /// Runs one request of a batch and reports that it is done: a nested
    /// batch is rejected, any other request is served.
    fn run_item(
        &mut self,
        item: &BatchRequest,
        context: &SecurityContext,
        progress_id: &str,
        done: usize,
    ) -> (result: BatchItemResult)
        ensures
            item_ok(old(self).state, old(self).config, item@, context, result@),
            final(self).config == old(self).config,
            final(self).state == old(self).state,
            final(self).health == old(self).health,
            final(self).active_connections == old(self).active_connections,
            final(self).progress_reporter.reported() == old(self).progress_reporter.reported().push(
                progress_update(progress_id@, processed_message(done), done),
            ),
        decreases 1int, 0int,
    {
        let result = if text_equal(item.method.as_str(), "batch") {
            nested_batch_rejection(item.id.as_str())
        } else {
            let request = JsonRpcRequest {
                jsonrpc: "2.0".to_owned(),
                method: item.method.clone(),
                params: clone_opt_json(&item.params),
                id: Some(JsonValue::string(item.id.as_str())),
            };
            assert(request@ == sub_request(item@));
            let response = self.handle_request(request, context);
            item_result(item.id.as_str(), response)
        };
        self.progress_reporter.report_progress(
            ProgressUpdate::progress(progress_id.to_owned(), processed_text(done), done),
        );
        result
    }

    /// Runs the requests of a parallel batch. The results stand in the
    /// order of the requests.
    pub fn execute_batch_parallel(
        &mut self,
        items: &Vec<BatchRequest>,
        context: &BatchContext,
        progress_id: &str,
    ) -> (results: Vec<BatchItemResult>)
        ensures
            results_ok(
                old(self).state,
                old(self).config,
                batch_requests_view(items@),
                false,
                context.security,
                item_results_view(results@),
            ),
            final(self).config == old(self).config,
            final(self).state == old(self).state,
            final(self).health == old(self).health,
            final(self).active_connections == old(self).active_connections,
            final(self).progress_reporter.reported() == old(self).progress_reporter.reported()
                + progress_reports(progress_id@, results@.len() as int),
        decreases 1int, 1int,
    {
        let ghost before = *self;
        let ghost base = self.progress_reporter.reported();
        let ghost requests = batch_requests_view(items@);
        let mut results: Vec<BatchItemResult> = Vec::new();
        let mut i: usize = 0;
        assert(base =~= base + progress_reports(progress_id@, 0));
        while i < items.len()
            invariant
                i <= items.len(),
                results.len() == i,
                requests == batch_requests_view(items@),
                self.config == before.config,
                self.state == before.state,
                self.health == before.health,
                self.active_connections == before.active_connections,
                self.progress_reporter.reported() == base + progress_reports(
                    progress_id@,
                    i as int,
                ),
                forall|k: int|
                    0 <= k < i ==> item_ok(
                        before.state,
                        before.config,
                        requests[k],
                        context.security,
                        #[trigger] results@[k]@,
                    ),
            decreases items.len() - i,
        {
            let ghost reported = self.progress_reporter.reported();
            let result = self.run_item(&items[i], context.security, progress_id, i + 1);
            results.push(result);
            proof {
                assert(requests[i as int] == items@[i as int]@);
                assert(reported.push(
                    progress_update(
                        progress_id@,
                        processed_message((i + 1) as usize),
                        (i + 1) as usize,
                    ),
                ) =~= base + progress_reports(progress_id@, i + 1));
            }
            i += 1;
        }
        proof {
            let views = item_results_view(results@);
            assert forall|k: int| 0 <= k < views.len() implies item_ok(
                before.state,
                before.config,
                requests[k],
                context.security,
                #[trigger] views[k],
            ) by {
                assert(views[k] == results@[k]@);
            }
        }
        results
    }

    /// Runs the requests of a sequential batch, one after the other. Where
    /// the client asked for it, the run stops after the first request that
    /// gave an error.
    pub fn execute_batch_sequential(
        &mut self,
        items: &Vec<BatchRequest>,
        context: &BatchContext,
        progress_id: &str,
    ) -> (results: Vec<BatchItemResult>)
        ensures
            results_ok(
                old(self).state,
                old(self).config,
                batch_requests_view(items@),
                stops_on_error(context.security),
                context.security,
                item_results_view(results@),
            ),
            final(self).config == old(self).config,
            final(self).state == old(self).state,
            final(self).health == old(self).health,
            final(self).active_connections == old(self).active_connections,
            final(self).progress_reporter.reported() == old(self).progress_reporter.reported()
                + progress_reports(progress_id@, results@.len() as int),
        decreases 1int, 1int,
    {
        let ghost before = *self;
        let ghost base = self.progress_reporter.reported();
        let ghost requests = batch_requests_view(items@);
        let stop_on_error = match context.security.client.metadata_get("stop_on_error") {
            Some(value) => text_equal(value.as_str(), "true"),
            None => false,
        };
        let mut results: Vec<BatchItemResult> = Vec::new();
        let mut halted = false;
        let mut i: usize = 0;
        assert(base =~= base + progress_reports(progress_id@, 0));
        while i < items.len() && !halted
            invariant
                i <= items.len(),
                results.len() == i,
                requests == batch_requests_view(items@),
                stop_on_error == stops_on_error(context.security),
                self.config == before.config,
                self.state == before.state,
                self.health == before.health,
                self.active_connections == before.active_connections,
                self.progress_reporter.reported() == base + progress_reports(
                    progress_id@,
                    i as int,
                ),
                forall|k: int|
                    0 <= k < i ==> item_ok(
                        before.state,
                        before.config,
                        requests[k],
                        context.security,
                        #[trigger] results@[k]@,
                    ),
                halted ==> stop_on_error && i > 0 && results@[i - 1]@.error is Some && requests[i
                    - 1].method != "batch"@,
                stop_on_error ==> forall|k: int|
                    0 <= k < i - 1 ==> !((#[trigger] results@[k]@).error is Some
                        && requests[k].method != "batch"@),
                stop_on_error && !halted ==> forall|k: int|
                    0 <= k < i ==> !((#[trigger] results@[k]@).error is Some && requests[k].method
                        != "batch"@),
            decreases items.len() - i + (if halted { 0int } else { 1int }),
        {
            let ghost reported = self.progress_reporter.reported();
            let nested = text_equal(items[i].method.as_str(), "batch");
            let result = self.run_item(&items[i], context.security, progress_id, i + 1);
            if stop_on_error && !nested && result.error.is_some() {
                halted = true;
            }
            results.push(result);
            proof {
                assert(requests[i as int] == items@[i as int]@);
                assert(reported.push(
                    progress_update(
                        progress_id@,
                        processed_message((i + 1) as usize),
                        (i + 1) as usize,
                    ),
                ) =~= base + progress_reports(progress_id@, i + 1));
            }
            i += 1;
        }
        proof {
            let views = item_results_view(results@);
            assert forall|k: int| 0 <= k < views.len() implies item_ok(
                before.state,
                before.config,
                requests[k],
                context.security,
                #[trigger] views[k],
            ) by {
                assert(views[k] == results@[k]@);
            }
            if stop_on_error {
                assert forall|k: int| 0 <= k < views.len() - 1 implies !((#[trigger] views[k]).error
                    is Some && requests[k].method != "batch"@) by {
                    assert(views[k] == results@[k]@);
                }
                if views.len() < requests.len() {
                    assert(halted);
                    assert(views.last() == results@[i - 1]@);
                }
            }
        }
        results
    }
}

} // verus!

use mcp_core::config::McpServerConfig;
use mcp_core::error::{McpError, McpResult};
use mcp_core::json::{JsonNumber, JsonValue};
use mcp_core::prompt::{InMemoryPromptRegistry, PromptParameter};
use mcp_core::protocol::{BatchExecutionMode, BatchParams, BatchRequest, JsonRpcRequest, Tool};
use mcp_core::registry::{McpAuth, ServerInfo, ServerState, ToolExecutionContext, ToolRegistry};
use mcp_core::resource::{
    InMemoryResourceRegistry, Resource, ResourceContent, ResourceTemplate, UriSchemeConfig,
};
use mcp_core::security::{ClientContext, SecurityContext};
use mcp_core::service::{answered, tool_call, tools_listed, McpServer};

struct EchoTools;

impl ToolRegistry for EchoTools {
    fn list_tools(&self, _context: &SecurityContext) -> McpResult<Vec<Tool>> {
        Ok(vec![Tool {
            name: "echo".to_string(),
            description: "Hands its arguments back".to_string(),
            input_schema: JsonValue::Object(vec![]),
        }])
    }

    fn execute_tool(&self, name: &str, context: ToolExecutionContext) -> McpResult<JsonValue> {
        if name == "echo" {
            Ok(context.arguments)
        } else {
            Err(McpError::ToolNotFound { name: name.to_string() })
        }
    }
}

struct TestAuth;

impl McpAuth for TestAuth {
    fn authenticate(&self, _client: &ClientContext) -> McpResult<SecurityContext> {
        Ok(SecurityContext::system())
    }

    fn authorize(&self, _context: &SecurityContext, _resource: &str, _action: &str) -> bool {
        true
    }
}

type TestServerState =
    ServerState<EchoTools, TestAuth, InMemoryResourceRegistry, InMemoryPromptRegistry>;

fn state_with(
    resources: Option<InMemoryResourceRegistry>,
    prompts: Option<InMemoryPromptRegistry>,
) -> TestServerState {
    ServerState {
        tools: EchoTools,
        auth: TestAuth,
        resources,
        prompts,
        info: ServerInfo { name: "Test".to_string(), version: "0.0.1".to_string(), metadata: vec![] },
    }
}

fn bare_state() -> TestServerState {
    state_with(None, None)
}

fn request(method: &str, params: Option<JsonValue>, id: JsonValue) -> JsonRpcRequest {
    JsonRpcRequest {
        jsonrpc: "2.0".to_string(),
        method: method.to_string(),
        params,
        id: Some(id),
    }
}

fn text(s: &str) -> JsonValue {
    JsonValue::String(s.to_string())
}

fn object(members: Vec<(&str, JsonValue)>) -> JsonValue {
    JsonValue::Object(members.into_iter().map(|(k, v)| (k.to_string(), v)).collect())
}

#[test]
fn test_server_creation() {
    let config = McpServerConfig::default();
    let server = McpServer::new(config, bare_state());
    assert_eq!(server.config().name, "MCP Server");

    let health = server.get_health(0);
    assert!(health.healthy);
    assert_eq!(health.active_connections, 0);
}

#[test]
fn test_ping_request() {
    let config = McpServerConfig::default();
    let mut server = McpServer::new(config, bare_state());
    let context = SecurityContext::system();

    let response = server.handle_request(request("ping", None, text("test")), &context);
    assert!(response.error.is_none());
    assert!(response.result.is_some());
}

#[test]
fn ping_before_initialize_is_answered() {
    let mut server = McpServer::new(McpServerConfig::default(), bare_state());
    let context = SecurityContext::anonymous(ClientContext::new("c1"));
    let id = JsonValue::Number(JsonNumber::PosInt(1));
    let response = server.handle_request(request("ping", None, id), &context);
    assert_eq!(response.jsonrpc, "2.0");
    assert!(response.error.is_none());
    assert_eq!(response.result.unwrap().to_compact(), "{\"status\":\"pong\"}");
    assert_eq!(response.id.unwrap().to_compact(), "1");
}

#[test]
fn tools_list_needs_an_initialized_client() {
    let mut server = McpServer::new(McpServerConfig::default(), bare_state());
    let system = SecurityContext::system();
    let listed = server.handle_request(request("tools/list", None, text("a")), &system);
    assert!(listed.error.is_none());
    assert_eq!(
        listed.result.unwrap().to_compact(),
        "{\"tools\":[{\"name\":\"echo\",\"description\":\"Hands its arguments back\",\"input_schema\":{}}],\"next_cursor\":null}"
    );

    let stranger = SecurityContext::anonymous(ClientContext::new("c1"));
    let refused = server.handle_request(request("tools/list", None, text("b")), &stranger);
    assert!(refused.result.is_none());
    let error = refused.error.unwrap();
    assert_eq!(error.code, -32002);
    assert_eq!(error.message, "Client must call initialize first");
    assert_eq!(refused.id.unwrap().to_compact(), "\"b\"");

    let mut initialized = SecurityContext::anonymous(ClientContext::new("c2"));
    initialized.capabilities.push("initialized".to_string());
    let allowed = server.handle_request(request("tools/list", None, text("c")), &initialized);
    assert!(allowed.error.is_none());
}

#[test]
fn custom_method_not_found_maps_to_its_code() {
    let mut server = McpServer::new(McpServerConfig::default(), bare_state());
    let context = SecurityContext::system();
    let response = server.handle_request(request("acme/do", None, text("x")), &context);
    let error = response.error.unwrap();
    assert_eq!(error.code, -32601);
    assert_eq!(error.message, "Method not found: acme/do");
}

#[test]
fn tools_call_hands_arguments_to_the_tool() {
    let mut server = McpServer::new(McpServerConfig::default(), bare_state());
    let context = SecurityContext::system();
    let params = object(vec![("name", text("echo")), ("arguments", object(vec![("k", text("v"))]))]);
    let response = server.handle_request(request("tools/call", Some(params), text("1")), &context);
    assert_eq!(response.result.unwrap().to_compact(), "{\"k\":\"v\"}");

    let missing = server.handle_request(request("tools/call", None, text("2")), &context);
    let error = missing.error.unwrap();
    assert_eq!(error.code, -32600);
    assert_eq!(error.message, "tools/call requires parameters");

    let malformed =
        server.handle_request(request("tools/call", Some(object(vec![])), text("3")), &context);
    assert_eq!(malformed.error.unwrap().message, "Invalid tools/call params");

    let unknown = object(vec![("name", text("nope"))]);
    let failed = server.handle_request(request("tools/call", Some(unknown), text("4")), &context);
    let error = failed.error.unwrap();
    assert_eq!(error.code, -32001);
    assert_eq!(error.message, "Tool not found: nope");
}

#[test]
fn resources_are_read_through_the_registry() {
    let mut resources = InMemoryResourceRegistry::new(UriSchemeConfig::new("test", "Test"));
    resources.add_resource(Resource {
        uri: "test://a".to_string(),
        name: "A".to_string(),
        description: None,
        mime_type: Some("text/plain".to_string()),
        content: ResourceContent::Text { text: "hello".to_string() },
        metadata: vec![],
    });
    let state = state_with(Some(resources), None);
    let mut server = McpServer::new(McpServerConfig::default(), state);
    let context = SecurityContext::system();
    let params = object(vec![("uri", text("test://a"))]);
    let response =
        server.handle_request(request("resources/read", Some(params), text("1")), &context);
    assert_eq!(
        response.result.unwrap().to_compact(),
        "{\"contents\":[{\"type\":\"text\",\"uri\":\"test://a\",\"mime_type\":\"text/plain\",\"text\":\"hello\"}]}"
    );

    let params = object(vec![("uri", text("test://missing"))]);
    let response =
        server.handle_request(request("resources/read", Some(params), text("2")), &context);
    let error = response.error.unwrap();
    assert_eq!(error.code, -32003);
    assert_eq!(error.message, "Resource not found: test://missing");

    let mut bare = McpServer::new(McpServerConfig::default(), bare_state());
    let response = bare.handle_request(request("resources/list", None, text("3")), &context);
    assert_eq!(response.error.unwrap().message, "Resources not supported by this server");
}

fn batch_params(mode: &str, items: Vec<(&str, &str)>) -> JsonValue {
    let requests = items
        .into_iter()
        .map(|(id, method)| object(vec![("id", text(id)), ("method", text(method))]))
        .collect();
    object(vec![("requests", JsonValue::Array(requests)), ("execution_mode", text(mode))])
}

fn result_ids(result: &JsonValue) -> Vec<String> {
    match result.get("results") {
        Some(JsonValue::Array(items)) => items
            .iter()
            .map(|item| item.get("id").unwrap().as_str().unwrap().to_string())
            .collect(),
        _ => panic!("no results"),
    }
}

fn stat(result: &JsonValue, name: &str) -> u64 {
    result.get("stats").unwrap().get(name).unwrap().as_u64().unwrap()
}

#[test]
fn parallel_batch_keeps_the_order_of_its_requests() {
    let mut server = McpServer::new(McpServerConfig::default(), bare_state());
    let context = SecurityContext::system();
    let params = batch_params(
        "parallel",
        vec![("a", "ping"), ("b", "ping"), ("c", "tools/list"), ("d", "ping"), ("e", "ping")],
    );
    let response = server.handle_request(request("batch", Some(params), text("b1")), &context);
    let result = response.result.unwrap();
    assert_eq!(result_ids(&result), vec!["a", "b", "c", "d", "e"]);
    assert_eq!(stat(&result, "total_requests"), 5);
    assert_eq!(stat(&result, "successful_requests"), 5);
    assert_eq!(stat(&result, "failed_requests"), 0);
    assert_eq!(stat(&result, "skipped_requests"), 0);
    assert_eq!(stat(&result, "max_parallel_executed"), 1);
    assert_eq!(server.progress_reporter().len(), 7);
    let updates = &server.progress_reporter().updates;
    assert_eq!(updates[0].total, Some(5));
    assert_eq!(updates[3].completed_count, Some(3));
    assert_eq!(updates[3].message, "Processed 3 items");
    assert_eq!(updates[6].message, "Batch request completed");
    assert_eq!(updates[0].correlation_id.len(), 36);
    assert_eq!(updates[0].correlation_id, updates[6].correlation_id);
}

#[test]
fn nested_batch_is_rejected_and_siblings_run() {
    let mut server = McpServer::new(McpServerConfig::default(), bare_state());
    let context = SecurityContext::system();
    let params = batch_params("sequential", vec![("a", "ping"), ("b", "batch"), ("c", "ping")]);
    let response = server.handle_request(request("batch", Some(params), text("b1")), &context);
    let result = response.result.unwrap();
    assert_eq!(result_ids(&result), vec!["a", "b", "c"]);
    let items = match result.get("results") {
        Some(JsonValue::Array(items)) => items,
        _ => panic!("no results"),
    };
    let error = items[1].get("error").unwrap();
    assert_eq!(error.get("code").unwrap().to_compact(), "-32600");
    assert_eq!(
        error.get("message").unwrap().as_str().unwrap(),
        "Nested batch requests are not allowed"
    );
    assert!(items[1].get("result").is_none());
    assert_eq!(items[0].get("result").unwrap().to_compact(), "{\"status\":\"pong\"}");
    assert_eq!(items[2].get("result").unwrap().to_compact(), "{\"status\":\"pong\"}");
    assert_eq!(stat(&result, "successful_requests"), 2);
    assert_eq!(stat(&result, "failed_requests"), 1);
}

#[test]
fn sequential_batch_stops_at_the_first_error_when_asked() {
    let mut server = McpServer::new(McpServerConfig::default(), bare_state());
    let mut context = SecurityContext::system();
    context.client.metadata.push(("stop_on_error".to_string(), "true".to_string()));
    let items = vec![("a", "ping"), ("b", "batch"), ("c", "resources/list"), ("d", "ping")];
    let response = server.handle_request(
        request("batch", Some(batch_params("sequential", items.clone())), text("b1")),
        &context,
    );
    let result = response.result.unwrap();
    assert_eq!(result_ids(&result), vec!["a", "b", "c"]);
    assert_eq!(stat(&result, "total_requests"), 4);
    assert_eq!(stat(&result, "successful_requests"), 1);
    assert_eq!(stat(&result, "failed_requests"), 2);
    assert_eq!(stat(&result, "skipped_requests"), 1);

    let response = server.handle_request(
        request("batch", Some(batch_params("parallel", items.clone())), text("b2")),
        &context,
    );
    assert_eq!(result_ids(&response.result.unwrap()), vec!["a", "b", "c", "d"]);

    let relaxed = SecurityContext::system();
    let response = server.handle_request(
        request("batch", Some(batch_params("dependency", items)), text("b3")),
        &relaxed,
    );
    assert_eq!(result_ids(&response.result.unwrap()), vec!["a", "b", "c", "d"]);
}

#[test]
fn batch_is_gated_and_bounded() {
    let mut config = McpServerConfig::default();
    config.enable_batch = false;
    let mut server = McpServer::new(config, bare_state());
    let context = SecurityContext::system();
    let params = batch_params("parallel", vec![("a", "ping")]);
    let response = server.handle_request(request("batch", Some(params), text("1")), &context);
    assert_eq!(response.error.unwrap().message, "Batch operations are not enabled");

    let mut config = McpServerConfig::default();
    config.max_batch_size = 2;
    let mut server = McpServer::new(config, bare_state());
    let params = batch_params("parallel", vec![("a", "ping"), ("b", "ping"), ("c", "ping")]);
    let response = server.handle_request(request("batch", Some(params), text("2")), &context);
    let error = response.error.unwrap();
    assert_eq!(error.code, -32602);
    assert_eq!(error.message, "Batch size 3 exceeds maximum 2");
    assert_eq!(server.progress_reporter().len(), 0);

    let response = server.handle_request(request("batch", None, text("3")), &context);
    assert_eq!(response.error.unwrap().message, "batch requires parameters");
    let bad = object(vec![("requests", JsonValue::Array(vec![])), ("execution_mode", text("x"))]);
    let response = server.handle_request(request("batch", Some(bad), text("4")), &context);
    assert_eq!(response.error.unwrap().message, "Invalid batch params");
}

#[test]
fn connections_are_counted() {
    let mut server = McpServer::new(McpServerConfig::default(), bare_state());
    server.connection_closed();
    assert_eq!(server.get_health(5).active_connections, 0);
    server.connection_opened();
    server.connection_opened();
    server.connection_closed();
    let health = server.get_health(7);
    assert_eq!(health.active_connections, 1);
    assert_eq!(health.uptime_seconds, 7);
    server.update_health(false, "draining".to_string());
    let health = server.get_health(8);
    assert!(!health.healthy);
    assert_eq!(health.status, "draining");
}

fn prompt_server() -> McpServer<TestServerState> {
    let mut prompts = InMemoryPromptRegistry::new();
    prompts.add_workflow_prompt(
        "task_analyzer",
        "Analyze a task for complexity and requirements",
        "You are a task analysis expert.",
        &["Analyze this ", "task: {{task_description}}"].concat(),
        vec![PromptParameter {
            name: "task_description".to_string(),
            description: "Description of the task to analyze".to_string(),
            required: true,
            schema: None,
            default: None,
        }],
    );
    prompts.add_code_analysis_prompt(
        "code_reviewer",
        "Review code for {{analysis_type}} issues",
        "ratchet://code/validator.py",
    );
    McpServer::new(McpServerConfig::default(), state_with(None, Some(prompts)))
}

#[test]
fn a_prompt_is_rendered_with_its_arguments() {
    let mut server = prompt_server();
    let context = SecurityContext::system();
    let params = object(vec![
        ("name", text("task_analyzer")),
        ("arguments", object(vec![("task_description", text("Build a web scraper"))])),
    ]);
    let response = server.handle_request(request("prompts/get", Some(params), text("1")), &context);
    let result = response.result.unwrap();
    let messages = match result.get("messages") {
        Some(JsonValue::Array(items)) => items,
        _ => panic!("no messages"),
    };
    assert_eq!(messages.len(), 2);
    assert_eq!(messages[0].get("role").unwrap().as_str(), Some("system"));
    assert_eq!(messages[1].get("role").unwrap().as_str(), Some("user"));
    let content = messages[1].get("content").unwrap();
    assert_eq!(content.get("type").unwrap().as_str(), Some("text"));
    assert_eq!(
        content.get("text").unwrap().as_str().unwrap(),
        ["Analyze this ", "task: Build a web scraper"].concat()
    );
}

#[test]
fn a_prompt_without_its_required_argument_is_refused() {
    let mut server = prompt_server();
    let context = SecurityContext::system();
    let params = object(vec![("name", text("task_analyzer")), ("arguments", object(vec![]))]);
    let response = server.handle_request(request("prompts/get", Some(params), text("1")), &context);
    let error = response.error.unwrap();
    assert_eq!(error.code, -32602);
    assert!(error.message.contains("task_description"));

    let params = object(vec![("name", text("task_analyzer")), ("arguments", text("no object"))]);
    let response = server.handle_request(request("prompts/get", Some(params), text("2")), &context);
    assert_eq!(response.error.unwrap().message, "Invalid prompts/get params");

    let mut bare = McpServer::new(McpServerConfig::default(), bare_state());
    let response = bare.handle_request(request("prompts/list", None, text("3")), &context);
    assert_eq!(response.error.unwrap().message, "Prompts not supported by this server");
}

#[test]
fn a_prompt_with_an_embedded_resource_keeps_its_reference() {
    let mut server = prompt_server();
    let context = SecurityContext::system();
    let params = object(vec![
        ("name", text("code_reviewer")),
        ("arguments", object(vec![("analysis_type", text("security"))])),
    ]);
    let response = server.handle_request(request("prompts/get", Some(params), text("1")), &context);
    let result = response.result.unwrap();
    assert_eq!(result.get("description").unwrap().as_str(), Some("Review code for security issues"));
    let messages = match result.get("messages") {
        Some(JsonValue::Array(items)) => items,
        _ => panic!("no messages"),
    };
    let content = messages[1].get("content").unwrap();
    assert_eq!(content.get("type").unwrap().as_str(), Some("embedded_resource"));
    let resource = content.get("resource").unwrap();
    assert_eq!(resource.get("uri").unwrap().as_str(), Some("ratchet://code/validator.py"));
    assert_eq!(
        resource.get("annotation").unwrap().get("role").unwrap().as_str(),
        Some("primary_input")
    );
    assert!(content.get("text").unwrap().as_str().unwrap().contains("security"));

    let listed = server.handle_request(request("prompts/list", None, text("2")), &context);
    let listing = listed.result.unwrap().to_compact();
    assert!(listing.starts_with("{\"prompts\":[{\"name\":\"task_analyzer\""));
    assert!(listing.contains("\"arguments\":[{\"name\":\"task_description\""));
    assert!(listing.contains("\"required\":true,\"schema\":null}"));
}

#[test]
fn initialize_needs_parameters() {
    let mut server = McpServer::new(McpServerConfig::default(), bare_state());
    let context = SecurityContext::anonymous(ClientContext::new("c"));
    let response = server.handle_request(request("initialize", None, text("1")), &context);
    assert_eq!(response.error.unwrap().message, "Initialize requires parameters");
    let response =
        server.handle_request(request("initialize", Some(object(vec![])), text("2")), &context);
    assert_eq!(
        response.result.unwrap().to_compact(),
        "{\"name\":\"Test\",\"version\":\"0.0.1\"}"
    );
    let response = server.handle_request(request("initialized", None, text("3")), &context);
    assert!(response.result.unwrap().is_null());
    let mut notification = request("notifications/initialized", None, text("4"));
    notification.id = None;
    let response = server.handle_request(notification, &context);
    assert!(response.id.is_none());
    assert!(response.result.unwrap().is_null());
}

#[test]
fn resources_list_shows_each_template_under_its_uri() {
    let mut resources = InMemoryResourceRegistry::new(UriSchemeConfig::new("test", "Test"));
    resources.add_template(ResourceTemplate {
        uri_template: "test://items/{id}".to_string(),
        name: "Items".to_string(),
        description: Some("All items".to_string()),
        mime_type: None,
        metadata: vec![],
    });
    let mut server = McpServer::new(McpServerConfig::default(), state_with(Some(resources), None));
    let context = SecurityContext::system();
    let response = server.handle_request(request("resources/list", None, text("1")), &context);
    assert_eq!(
        response.result.unwrap().to_compact(),
        "{\"resources\":[{\"uri\":\"test://items/{id}\",\"name\":\"Items\",\"description\":\"All items\",\"metadata\":{}}],\"next_cursor\":null}"
    );
}

#[test]
fn a_tool_call_is_prepared_from_its_parameters() {
    let context = SecurityContext::system();
    let params = object(vec![
        ("name", text("echo")),
        ("arguments", object(vec![("x", text("1"))])),
    ]);
    let (name, execution) = tool_call(Some(params), &context).unwrap();
    assert_eq!(name, "echo");
    assert_eq!(execution.arguments.to_compact(), "{\"x\":\"1\"}");
    assert!(execution.security.system);
    assert_eq!(execution.security.client.id, "system");

    let bare = object(vec![("name", text("echo"))]);
    let (_, execution) = tool_call(Some(bare), &context).unwrap();
    assert!(execution.arguments.is_null());

    let explicit = object(vec![("name", text("echo")), ("arguments", JsonValue::Null)]);
    let (_, execution) = tool_call(Some(explicit), &context).unwrap();
    assert!(execution.arguments.is_null());

    match tool_call(None, &context) {
        Err(McpError::Protocol { message }) => {
            assert_eq!(message, "tools/call requires parameters")
        }
        _ => panic!("expected a protocol error"),
    }
    match tool_call(Some(object(vec![("name", JsonValue::Bool(true))])), &context) {
        Err(McpError::Protocol { message }) => assert_eq!(message, "Invalid tools/call params"),
        _ => panic!("expected a protocol error"),
    }
}

#[test]
fn what_a_handler_answers_becomes_the_outcome() {
    assert_eq!(answered(Ok(text("v"))).unwrap().unwrap().to_compact(), "\"v\"");
    match answered(Err(McpError::ToolNotFound { name: "t".to_string() })) {
        Err(McpError::ToolNotFound { name }) => assert_eq!(name, "t"),
        _ => panic!("expected tool not found"),
    }
    assert_eq!(
        tools_listed(Ok(vec![])).unwrap().unwrap().to_compact(),
        "{\"tools\":[],\"next_cursor\":null}"
    );
    match tools_listed(Err(McpError::Authorization { message: "no".to_string() })) {
        Err(McpError::Authorization { message }) => assert_eq!(message, "no"),
        _ => panic!("expected an authorization error"),
    }
}

#[test]
fn a_notification_is_served_and_gets_no_response() {
    let mut server = McpServer::new(McpServerConfig::default(), bare_state());
    let context = SecurityContext::system();
    let mut notification = request("notifications/initialized", None, text("x"));
    notification.id = None;
    assert!(server.serve(notification, &context).is_none());

    let params = batch_params("sequential", vec![("a", "ping")]);
    let mut unheard = request("batch", Some(params), text("x"));
    unheard.id = None;
    assert!(server.serve(unheard, &context).is_none());
    assert_eq!(server.progress_reporter().len(), 3);

    let reply = server.serve(request("ping", None, text("1")), &context).unwrap();
    assert_eq!(reply.result.unwrap().to_compact(), "{\"status\":\"pong\"}");
    assert_eq!(reply.id.unwrap().to_compact(), "\"1\"");
}

fn item(id: &str, method: &str) -> BatchRequest {
    BatchRequest { id: id.to_string(), method: method.to_string(), params: None }
}

#[test]
fn a_batch_that_does_not_stop_answers_every_request() {
    let mut server = McpServer::new(McpServerConfig::default(), bare_state());
    let context = SecurityContext::system();
    for mode in [
        BatchExecutionMode::Parallel,
        BatchExecutionMode::Sequential,
        BatchExecutionMode::Dependency,
        BatchExecutionMode::PriorityDependency,
    ] {
        let batch = BatchParams {
            requests: vec![
                item("a", "ping"),
                item("b", "resources/list"),
                item("c", "batch"),
                item("a", "ping"),
            ],
            execution_mode: mode,
            max_parallel: Some(2),
            timeout_ms: None,
        };
        let result = server.handle_batch_request(batch, &context).unwrap();
        let ids: Vec<&str> = result.results.iter().map(|r| r.id.as_str()).collect();
        assert_eq!(ids, vec!["a", "b", "c", "a"]);
        assert_eq!(result.stats.total_requests, 4);
        assert_eq!(result.stats.successful_requests, 2);
        assert_eq!(result.stats.failed_requests, 2);
        assert_eq!(result.stats.skipped_requests, 0);
        assert_eq!(result.stats.max_parallel_executed, 2);
        let nested = result.results[2].error.as_ref().unwrap();
        assert_eq!(nested.code, -32600);
        assert_eq!(nested.message, "Nested batch requests are not allowed");
        assert!(result.results[2].result.is_none());
        assert!(!result.results[2].skipped);
    }
}

#[test]
fn a_batch_that_is_switched_off_reports_nothing() {
    let mut config = McpServerConfig::default();
    config.enable_batch = false;
    let mut server = McpServer::new(config, bare_state());
    let context = SecurityContext::system();
    let response = server.handle_request(request("batch", None, text("1")), &context);
    assert_eq!(response.error.unwrap().message, "Batch operations are not enabled");
    assert_eq!(server.progress_reporter().len(), 0);
}

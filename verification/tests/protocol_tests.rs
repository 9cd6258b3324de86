use mcp_core::error::McpError;
use mcp_core::json::{JsonNumber, JsonValue};
use mcp_core::prompt::MessageRole;
use mcp_core::protocol::StandardMethod;
use mcp_core::service::{parallel_window, parse_error_response};
use mcp_core::text::{replace_all, split_nonempty, split_text, text_contains};

#[test]
fn standard_methods_are_found_by_their_names() {
    let all = [
        (StandardMethod::Initialize, "initialize", false),
        (StandardMethod::Initialized, "initialized", false),
        (StandardMethod::NotificationsInitialized, "notifications/initialized", false),
        (StandardMethod::Ping, "ping", false),
        (StandardMethod::ToolsList, "tools/list", true),
        (StandardMethod::ToolsCall, "tools/call", true),
        (StandardMethod::ResourcesList, "resources/list", true),
        (StandardMethod::ResourcesRead, "resources/read", true),
        (StandardMethod::PromptsList, "prompts/list", true),
        (StandardMethod::PromptsGet, "prompts/get", true),
        (StandardMethod::Batch, "batch", true),
    ];
    for (method, name, gated) in all {
        assert_eq!(method.name(), name);
        assert_eq!(StandardMethod::from_name(name), Some(method));
        assert_eq!(method.requires_initialization(), gated);
    }
    assert_eq!(StandardMethod::from_name("Ping"), None);
    assert_eq!(StandardMethod::from_name("tools/list "), None);
}

#[test]
fn errors_map_to_their_codes_and_messages() {
    let cases = vec![
        (McpError::Parse { message: "bad".to_string() }, -32700, "bad"),
        (McpError::Protocol { message: "p".to_string() }, -32600, "p"),
        (McpError::NotInitialized, -32002, "Client must call initialize first"),
        (McpError::MethodNotFound { method: "m".to_string() }, -32601, "Method not found: m"),
        (McpError::Validation { message: "v".to_string() }, -32602, "v"),
        (McpError::ToolNotFound { name: "t".to_string() }, -32001, "Tool not found: t"),
        (McpError::ResourceNotFound { uri: "u".to_string() }, -32003, "Resource not found: u"),
        (McpError::PromptNotFound { name: "n".to_string() }, -32004, "Prompt not found: n"),
        (
            McpError::InvalidResource { uri: "u".to_string(), message: "why".to_string() },
            -32005,
            "Invalid resource 'u': why",
        ),
        (McpError::Authorization { message: "a".to_string() }, -32000, "a"),
        (McpError::Internal { message: "i".to_string() }, -32603, "i"),
    ];
    for (error, code, message) in cases {
        assert_eq!(error.code(), code);
        assert_eq!(error.message(), message);
        let rpc = error.to_rpc_error();
        assert_eq!(rpc.code, code);
        assert_eq!(rpc.message, message);
        assert!(rpc.data.is_none());
    }
}

#[test]
fn a_parse_error_has_no_identifier() {
    let response = parse_error_response("unexpected end of input");
    assert!(response.id.is_none());
    assert!(response.result.is_none());
    let error = response.error.unwrap();
    assert_eq!(error.code, -32700);
    assert_eq!(error.message, "unexpected end of input");
    assert_eq!(response.jsonrpc, "2.0");
}

#[test]
fn json_is_written_compactly() {
    let value = JsonValue::Object(vec![
        ("a".to_string(), JsonValue::Array(vec![])),
        ("b".to_string(), JsonValue::Object(vec![])),
        ("c\n".to_string(), JsonValue::Number(JsonNumber::PosInt(18446744073709551615))),
        ("d".to_string(), JsonValue::Number(JsonNumber::NegInt(-9223372036854775808))),
        ("e".to_string(), JsonValue::Number(JsonNumber::NegInt(7))),
        ("f".to_string(), JsonValue::String("tab\tquote\"back\\".to_string())),
    ]);
    assert_eq!(
        value.to_compact(),
        "{\"a\":[],\"b\":{},\"c\\n\":18446744073709551615,\"d\":-9223372036854775808,\"e\":7,\"f\":\"tab\\tquote\\\"back\\\\\"}"
    );
    assert_eq!(value.clone().to_compact(), value.to_compact());
    assert_eq!(value.get("e").unwrap().as_u64(), Some(7));
    assert_eq!(value.get("d").unwrap().as_u64(), None);
    assert!(value.get("zz").is_none());
    assert_eq!(JsonValue::Null.to_inline(), "");
    assert_eq!(JsonValue::String("x\"y".to_string()).to_inline(), "x\"y");
    assert_eq!(JsonValue::String("x\"y".to_string()).to_compact(), "\"x\\\"y\"");
    assert!(JsonValue::Null.is_null());
}

#[test]
fn text_is_replaced_from_the_left() {
    assert_eq!(replace_all("aaa", "aa", "b"), "ba");
    assert_eq!(replace_all("abcabc", "bc", ""), "aa");
    assert_eq!(replace_all("abc", "", "x"), "abc");
    assert_eq!(replace_all("ab", "abc", "x"), "ab");
    assert_eq!(replace_all("héllo wörld", "ö", "oe"), "héllo woerld");
    assert_eq!(replace_all("{{na{{name}}e}}", "{{name}}", "m"), "{{name}}");
    assert!(text_contains("héllo", "llo"));
    assert!(!text_contains("héllo", "hello"));
    assert_eq!(split_text("a,,b,", ','), vec!["a", "", "b", ""]);
    assert_eq!(split_text("", ','), vec![""]);
    assert_eq!(split_nonempty("/a//b/", '/'), vec!["a", "b"]);
    assert!(split_nonempty("", '/').is_empty());
}

#[test]
fn the_window_of_a_parallel_batch() {
    assert_eq!(parallel_window(None, 25), 10);
    assert_eq!(parallel_window(None, 3), 3);
    assert_eq!(parallel_window(Some(4), 25), 4);
    assert_eq!(parallel_window(Some(40), 25), 25);
    assert_eq!(parallel_window(Some(0), 5), 0);
}

#[test]
fn roles_have_lower_case_names() {
    assert_eq!(MessageRole::System.name(), "system");
    assert_eq!(MessageRole::User.name(), "user");
    assert_eq!(MessageRole::Assistant.name(), "assistant");
}

fn as_serde(value: &JsonValue) -> serde_json::Value {
    match value {
        JsonValue::Null => serde_json::Value::Null,
        JsonValue::Bool(b) => serde_json::Value::Bool(*b),
        JsonValue::Number(JsonNumber::PosInt(n)) => serde_json::Value::from(*n),
        JsonValue::Number(JsonNumber::NegInt(n)) => serde_json::Value::from(*n),
        JsonValue::Number(JsonNumber::Real(literal)) => {
            serde_json::Value::from(literal.parse::<f64>().unwrap())
        }
        JsonValue::String(s) => serde_json::Value::String(s.clone()),
        JsonValue::Array(items) => serde_json::Value::Array(items.iter().map(as_serde).collect()),
        JsonValue::Object(members) => {
            let mut map = serde_json::Map::new();
            for (name, member) in members {
                map.insert(name.clone(), as_serde(member));
            }
            serde_json::Value::Object(map)
        }
    }
}

#[test]
fn compact_text_is_what_serde_json_writes() {
    let inner = JsonValue::Object(vec![
        ("alpha".to_string(), JsonValue::Bool(true)),
        ("beta".to_string(), JsonValue::Null),
        ("gamma \u{e9}".to_string(), JsonValue::String("line\nbreak \u{1} / \u{1F600}".to_string())),
    ]);
    let value = JsonValue::Object(vec![
        ("a".to_string(), JsonValue::Array(vec![inner, JsonValue::Array(vec![])])),
        ("b".to_string(), JsonValue::Number(JsonNumber::NegInt(-42))),
        ("c".to_string(), JsonValue::Number(JsonNumber::PosInt(0))),
        ("d".to_string(), JsonValue::Number(JsonNumber::Real("1.5".to_string()))),
        ("e".to_string(), JsonValue::String(String::new())),
        ("f".to_string(), JsonValue::Bool(false)),
    ]);
    assert_eq!(value.to_compact(), serde_json::to_string(&as_serde(&value)).unwrap());
    let items = JsonValue::Array(vec![
        JsonValue::Number(JsonNumber::PosInt(10)),
        JsonValue::String("q\"".to_string()),
        JsonValue::Null,
    ]);
    assert_eq!(items.to_compact(), serde_json::to_string(&as_serde(&items)).unwrap());
    assert_eq!(items.to_inline(), serde_json::to_string(&as_serde(&items)).unwrap());
}

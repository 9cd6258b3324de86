use mcp_core::json::{JsonNumber, JsonValue};
use mcp_core::prompt::{
    GetPromptRequest, InMemoryPromptRegistry, PromptCategory, PromptContent, PromptParameter,
    PromptRegistry, SimpleTemplateEngine, TemplateEngine,
};
use mcp_core::error::McpError;
use mcp_core::security::SecurityContext;

fn text(s: &str) -> JsonValue {
    JsonValue::String(s.to_string())
}

#[test]
fn test_simple_template_engine() {
    let engine = SimpleTemplateEngine;
    let mut params = Vec::new();
    params.push(("name".to_string(), JsonValue::String("Alice".to_string())));
    params.push(("age".to_string(), JsonValue::Number(JsonNumber::PosInt(30))));

    let template = "Hello {{name}}, you are {{age}} years old!";
    let result = engine.substitute(template, &params).unwrap();
    assert_eq!(result, "Hello Alice, you are 30 years old!");
}

#[test]
fn test_template_validation() {
    let engine = SimpleTemplateEngine;
    let params = Vec::new();
    let required = vec!["name".to_string()];

    let result = engine.validate_parameters("Hello {{name}}!", &params, &required);
    assert!(result.is_err());

    let mut params = Vec::new();
    params.push(("name".to_string(), JsonValue::String("Alice".to_string())));
    let result = engine.validate_parameters("Hello {{name}}!", &params, &required);
    assert!(result.is_ok());
}

fn task_analyzer() -> InMemoryPromptRegistry {
    let mut registry = InMemoryPromptRegistry::new();
    registry.add_workflow_prompt(
        "task_analyzer",
        "Analyze a task for complexity and requirements",
        "You are a task analysis expert.",
        &["Analyze this ", "task: {{task_description}}. Provide complexity rating and requirements."]
            .concat(),
        vec![PromptParameter {
            name: "task_description".to_string(),
            description: "Description of the task to analyze".to_string(),
            required: true,
            schema: Some(JsonValue::Object(vec![
                ("type".to_string(), text("string")),
                ("minLength".to_string(), JsonValue::Number(JsonNumber::PosInt(1))),
            ])),
            default: None,
        }],
    );
    registry
}

#[test]
fn test_prompt_registry() {
    let registry = task_analyzer();
    let context = SecurityContext::system();

    let prompts = registry.list_prompts(&context).unwrap();
    assert_eq!(prompts.len(), 1);
    assert_eq!(prompts[0].name, "task_analyzer");

    let request = GetPromptRequest {
        name: "task_analyzer".to_string(),
        arguments: Some(vec![(
            "task_description".to_string(),
            JsonValue::String("Build a web scraper".to_string()),
        )]),
    };

    let result = registry.get_prompt_with_args(request, &context).unwrap();
    assert_eq!(result.name, "task_analyzer");
    assert_eq!(result.messages.len(), 2);

    if let PromptContent::Text { text } = &result.messages[1].content {
        assert!(text.contains("Build a web scraper"));
        assert!(text.starts_with("Analyze this "));
        assert!(text.ends_with("task: Build a web scraper. Provide complexity rating and requirements."));
        assert_eq!(text.len(), 83);
    } else {
        panic!("Expected text content");
    }
}

#[test]
fn missing_required_argument_is_a_validation_error() {
    let registry = task_analyzer();
    let context = SecurityContext::system();
    let request = GetPromptRequest { name: "task_analyzer".to_string(), arguments: Some(vec![]) };
    match registry.get_prompt_with_args(request, &context) {
        Err(McpError::Validation { message }) => {
            assert_eq!(message, "Required parameter 'task_description' not provided");
        }
        other => panic!("expected a validation error, got {:?}", other.map(|r| r.name)),
    }
    let request = GetPromptRequest { name: "task_analyzer".to_string(), arguments: None };
    assert!(matches!(
        registry.get_prompt_with_args(request, &context),
        Err(McpError::Validation { .. })
    ));
    let request = GetPromptRequest { name: "nope".to_string(), arguments: None };
    match registry.get_prompt_with_args(request, &context) {
        Err(McpError::PromptNotFound { name }) => assert_eq!(name, "nope"),
        _ => panic!("expected prompt not found"),
    }
    assert!(registry.validate_prompt_parameters("task_analyzer", &vec![], &context).is_err());
    assert!(registry.prompt_exists("task_analyzer", &context).unwrap());
    assert!(!registry.prompt_exists("nope", &context).unwrap());
}

#[test]
fn test_embedded_resource_prompt() {
    let mut registry = InMemoryPromptRegistry::new();

    registry.add_code_analysis_prompt(
        "code_reviewer",
        "Review code for {{analysis_type}} issues",
        "ratchet://tasks/code-review",
    );

    let context = SecurityContext::system();
    let request = GetPromptRequest {
        name: "code_reviewer".to_string(),
        arguments: Some(vec![(
            "analysis_type".to_string(),
            JsonValue::String("security".to_string()),
        )]),
    };

    let result = registry.get_prompt_with_args(request, &context).unwrap();
    assert_eq!(result.description, "Review code for security issues");

    if let PromptContent::EmbeddedResource { resource, text } = &result.messages[1].content {
        assert_eq!(resource.uri, "ratchet://tasks/code-review");
        assert_eq!(resource.annotation.as_ref().unwrap().role, "primary_input");
        assert!(text.as_ref().unwrap().contains("security"));
        assert!(!text.as_ref().unwrap().contains("{{analysis_type}}"));
        assert!(text.as_ref().unwrap().contains("{{#if focus_areas}}"));
    } else {
        panic!("Expected embedded resource content");
    }
}

#[test]
fn values_are_written_by_their_kind() {
    let engine = SimpleTemplateEngine;
    let params = vec![
        ("s".to_string(), text("a\"b")),
        ("n".to_string(), JsonValue::Number(JsonNumber::NegInt(-42))),
        ("z".to_string(), JsonValue::Number(JsonNumber::PosInt(0))),
        ("r".to_string(), JsonValue::Number(JsonNumber::Real("1.5".to_string()))),
        ("b".to_string(), JsonValue::Bool(true)),
        ("x".to_string(), JsonValue::Null),
        (
            "o".to_string(),
            JsonValue::Object(vec![
                ("k".to_string(), JsonValue::Array(vec![text("q\"t"), JsonValue::Null])),
                ("m".to_string(), JsonValue::Bool(false)),
            ]),
        ),
    ];
    let out = engine
        .substitute("{{s}}|{{n}}|{{z}}|{{r}}|{{b}}|{{x}}|{{o}}|{{other}}|{{s}}", &params)
        .unwrap();
    assert_eq!(
        out,
        "a\"b|-42|0|1.5|true||{\"k\":[\"q\\\"t\",null],\"m\":false}|{{other}}|a\"b"
    );
}

#[test]
fn substitution_twice_changes_nothing_more() {
    let engine = SimpleTemplateEngine;
    let params = vec![
        ("name".to_string(), text("Alice")),
        ("age".to_string(), JsonValue::Number(JsonNumber::PosInt(30))),
    ];
    let once = engine.substitute("Hello {{name}}, {{age}}! {{name}}", &params).unwrap();
    let twice = engine.substitute(&once, &params).unwrap();
    assert_eq!(once, "Hello Alice, 30! Alice");
    assert_eq!(once, twice);
    assert!(!once.contains("{{name}}"));
    assert!(!once.contains("{{age}}"));
}

#[test]
fn validation_names_what_is_wrong() {
    let engine = SimpleTemplateEngine;
    let params = vec![("name".to_string(), text("Alice"))];
    let required = vec!["name".to_string()];
    match engine.validate_parameters("Hello!", &params, &required) {
        Err(McpError::Validation { message }) => {
            assert_eq!(message, "Parameter 'name' not found in template")
        }
        _ => panic!("expected a validation error"),
    }
    match engine.validate_parameters("Hello {{name}}!", &vec![], &required) {
        Err(McpError::Validation { message }) => {
            assert_eq!(message, "Required parameter 'name' not provided")
        }
        _ => panic!("expected a validation error"),
    }
}

#[test]
fn adding_a_prompt_of_the_same_name_replaces_it() {
    let mut registry = task_analyzer();
    registry.add_workflow_prompt("task_analyzer", "Second", "s", "u", vec![]);
    registry.add_workflow_prompt("other", "Third", "s", "u", vec![]);
    let context = SecurityContext::system();
    let prompts = registry.list_prompts(&context).unwrap();
    assert_eq!(prompts.len(), 2);
    assert_eq!(prompts[0].description, "Second");
    assert_eq!(prompts[0].version, "1.0.0");
    assert_eq!(prompts[1].name, "other");
    let found = registry.get_prompt("other", &context).unwrap().unwrap();
    assert_eq!(found.metadata[0].0, "type");
    assert_eq!(found.metadata[0].1.to_compact(), "\"workflow\"");
}

#[test]
fn categories_are_listed_in_the_order_in_which_they_came() {
    let mut registry = InMemoryPromptRegistry::new();
    registry.add_category(PromptCategory {
        id: "analysis".to_string(),
        name: "Analysis".to_string(),
        description: "Prompts that analyze".to_string(),
        prompts: vec!["task_analyzer".to_string(), "not_stored".to_string()],
    });
    registry.add_category(PromptCategory {
        id: "summary".to_string(),
        name: "Summary".to_string(),
        description: "Prompts that summarize".to_string(),
        prompts: vec![],
    });
    let context = SecurityContext::system();
    let listed = registry.list_categories(&context).unwrap();
    assert_eq!(listed.len(), 2);
    assert_eq!(listed[0].id, "analysis");
    assert_eq!(listed[0].prompts, vec!["task_analyzer".to_string(), "not_stored".to_string()]);
    assert_eq!(listed[1].name, "Summary");
    assert!(listed[1].prompts.is_empty());
    assert!(registry.list_prompts(&context).unwrap().is_empty());
}

#[test]
fn a_default_registry_holds_no_prompt() {
    let registry = InMemoryPromptRegistry::default();
    let context = SecurityContext::system();
    assert!(registry.list_prompts(&context).unwrap().is_empty());
    assert!(registry.list_categories(&context).unwrap().is_empty());
    assert!(!registry.prompt_exists("task_analyzer", &context).unwrap());
    assert!(registry.get_prompt("task_analyzer", &context).unwrap().is_none());
    let request = GetPromptRequest { name: "task_analyzer".to_string(), arguments: None };
    match registry.get_prompt_with_args(request, &context) {
        Err(McpError::PromptNotFound { name }) => assert_eq!(name, "task_analyzer"),
        _ => panic!("expected prompt not found"),
    }
}

#[test]
fn a_null_argument_leaves_nothing_and_a_second_pass_changes_nothing() {
    let engine = SimpleTemplateEngine;
    let params = vec![("name".to_string(), JsonValue::Null), ("n".to_string(), text("a"))];
    let once = engine.substitute("Hello {{name}}{{n}}, {{other}}!", &params).unwrap();
    assert_eq!(once, "Hello a, {{other}}!");
    let twice = engine.substitute(&once, &params).unwrap();
    assert_eq!(twice, once);
}

#[test]
fn a_value_that_is_a_placeholder_comes_back() {
    let engine = SimpleTemplateEngine;
    let params = vec![("a".to_string(), text("{{a}}x"))];
    let once = engine.substitute("{{a}}", &params).unwrap();
    assert_eq!(once, "{{a}}x");
    let twice = engine.substitute(&once, &params).unwrap();
    assert_eq!(twice, "{{a}}xx");
}

#[test]
fn the_code_analysis_prompt_is_stored_as_it_was_built() {
    let mut registry = InMemoryPromptRegistry::new();
    registry.add_code_analysis_prompt("analyzer", "Analyze code", "ratchet://code/main.rs");
    let context = SecurityContext::system();
    let prompt = registry.get_prompt("analyzer", &context).unwrap().unwrap();
    assert_eq!(prompt.version, "1.0.0");
    assert_eq!(prompt.parameters.len(), 2);
    assert_eq!(prompt.parameters[0].name, "analysis_type");
    assert!(prompt.parameters[0].required);
    assert_eq!(
        prompt.parameters[0].schema.as_ref().unwrap().to_compact(),
        "{\"enum\":[\"security\",\"performance\",\"style\",\"all\"],\"type\":\"string\"}"
    );
    assert_eq!(prompt.parameters[1].name, "focus_areas");
    assert!(!prompt.parameters[1].required);
    assert_eq!(prompt.parameters[1].default.as_ref().unwrap().to_compact(), "[]");
    assert_eq!(prompt.messages.len(), 2);
    match &prompt.messages[0].content {
        PromptContent::Text { text } => assert_eq!(
            text,
            "You are an expert in code analysis. Analyze the provided code and give detailed \
             feedback based on the requested analysis type."
        ),
        _ => panic!("expected a text message"),
    }
    match &prompt.messages[1].content {
        PromptContent::EmbeddedResource { resource, text } => {
            assert_eq!(resource.uri, "ratchet://code/main.rs");
            assert_eq!(resource.mime_type.as_deref(), Some("text/plain"));
            assert_eq!(resource.annotation.as_ref().unwrap().description, "Source code to analyze");
            assert_eq!(
                text.as_deref(),
                Some(
                    "Please perform a {{analysis_type}} analysis of this code{{#if focus_areas}} \
                     focusing on: {{focus_areas}}{{/if}}. Provide specific recommendations."
                )
            );
        }
        _ => panic!("expected an embedded resource"),
    }
    assert_eq!(prompt.metadata.len(), 2);
    assert_eq!(prompt.metadata[0].0, "type");
    assert_eq!(prompt.metadata[0].1.as_str(), Some("code_analysis"));
    assert_eq!(prompt.metadata[1].0, "resource_dependent");
}

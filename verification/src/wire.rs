//! The JSON shapes of the protocol: how results are written as JSON values
//! and how the parameters of the standard methods are read from them.

use vstd::prelude::*;
use crate::error::JsonRpcError;
use crate::error::JsonRpcErrorView;
use crate::json::clone_members;
use crate::json::items_view;
use crate::json::JsonNumber;
use crate::json::JsonValue;
use crate::json::JsonView;
use crate::json::members_view;
use crate::json::member_value;
use crate::json::NumberView;
use crate::prompt::EmbeddedResource;
use crate::prompt::EmbeddedResourceView;
use crate::prompt::GetPromptRequest;
use crate::prompt::GetPromptResult;
use crate::prompt::GetPromptResultView;
use crate::prompt::Prompt;
use crate::prompt::PromptContent;
use crate::prompt::PromptContentView;
use crate::prompt::PromptMessage;
use crate::prompt::PromptMessageView;
use crate::prompt::PromptParameter;
use crate::prompt::PromptParameterView;
use crate::prompt::prompts_view;
use crate::prompt::PromptView;
use crate::prompt::ResourceAnnotationView;
use crate::prompt::role_name;
use crate::protocol::BatchExecutionMode;
use crate::protocol::BatchItemResult;
use crate::protocol::BatchItemResultView;
use crate::protocol::BatchParams;
use crate::protocol::BatchRequest;
use crate::protocol::BatchRequestView;
use crate::protocol::BatchResult;
use crate::protocol::BatchStats;
use crate::protocol::batch_requests_view;
use crate::protocol::item_results_view;
use crate::protocol::opt_value;
use crate::protocol::ResourcesReadParams;
use crate::protocol::Tool;
use crate::protocol::ToolsCallParams;
use crate::protocol::ToolView;
use crate::resource::Resource;
use crate::resource::ResourceContent;
use crate::resource::ResourceContentView;
use crate::resource::ResourceTemplate;
use crate::resource::ResourceTemplateView;
use crate::resource::ResourceView;
use crate::resource::templates_view;
use crate::text::text_equal;

verus! {

broadcast use vstd::string::group_string_axioms;

/// An empty list of members.
pub fn no_members() -> (members: Vec<(String, JsonValue)>)
    ensures
        members_view(members@) == Seq::<(Seq<char>, JsonView)>::empty(),
{
    let members: Vec<(String, JsonValue)> = Vec::new();
    assert(members_view(members@) =~= Seq::empty());
    members
}

/// Appends the member `key: value`.
pub fn push_member(members: &mut Vec<(String, JsonValue)>, key: &str, value: JsonValue)
    ensures
        members_view(final(members)@) == members_view(old(members)@).push((key@, value@)),
{
    let ghost before = members@;
    members.push((key.to_owned(), value));
    assert(members_view(members@) =~= members_view(before).push((key@, value@)));
}

/// Appends the member `key: value` where there is a value.
pub fn push_optional(members: &mut Vec<(String, JsonValue)>, key: &str, value: &Option<String>)
    ensures
        members_view(final(members)@) == with_optional(
            members_view(old(members)@),
            key@,
            crate::text::opt_text(*value),
        ),
{
    match value {
        Some(text) => push_member(members, key, JsonValue::string(text.as_str())),
        None => {},
    }
}

/// The members with `key: text` appended where there is a text.
pub open spec fn with_optional(
    members: Seq<(Seq<char>, JsonView)>,
    key: Seq<char>,
    value: Option<Seq<char>>,
) -> Seq<(Seq<char>, JsonView)> {
    match value {
        Some(text) => members.push((key, JsonView::String(text))),
        None => members,
    }
}

/// A JSON number holding `n`.
pub open spec fn count_json(n: int) -> JsonView {
    JsonView::Number(NumberView::Int(n))
}

/// A JSON number holding a count.
pub fn count(n: usize) -> (out: JsonValue)
    ensures
        out@ == count_json(n as int),
{
    JsonValue::Number(JsonNumber::PosInt(n as u64))
}

/// The result of `ping`.
pub open spec fn pong_json() -> JsonView {
    JsonView::Object(seq![("status"@, JsonView::String("pong"@))])
}

/// The result of `ping`.
pub fn pong() -> (out: JsonValue)
    ensures
        out@ == pong_json(),
{
    let mut members = no_members();
    push_member(&mut members, "status", JsonValue::string("pong"));
    assert(members_view(members@) =~= seq![("status"@, JsonView::String("pong"@))]);
    JsonValue::Object(members)
}

/// A tool as the listing shows it.
pub open spec fn tool_json(tool: ToolView) -> JsonView {
    JsonView::Object(
        seq![
            ("name"@, JsonView::String(tool.name)),
            ("description"@, JsonView::String(tool.description)),
            ("input_schema"@, tool.input_schema),
        ],
    )
}

/// The result of `tools/list`: the tools and no cursor.
pub open spec fn tools_list_json(tools: Seq<ToolView>) -> JsonView {
    JsonView::Object(
        seq![
            ("tools"@, JsonView::Array(Seq::new(tools.len(), |i: int| tool_json(tools[i])))),
            ("next_cursor"@, JsonView::Null),
        ],
    )
}

/// The views of a sequence of tools.
pub open spec fn tools_view(tools: Seq<Tool>) -> Seq<ToolView> {
    Seq::new(tools.len(), |i: int| tools[i]@)
}

/// Writes the result of `tools/list`.
pub fn tools_list_result(tools: &Vec<Tool>) -> (out: JsonValue)
    ensures
        out@ == tools_list_json(tools_view(tools@)),
{
    let mut items: Vec<JsonValue> = Vec::new();
    let mut i: usize = 0;
    while i < tools.len()
        invariant
            i <= tools.len(),
            items.len() == i,
            forall|k: int| 0 <= k < i ==> items@[k]@ == tool_json(tools@[k]@),
        decreases tools.len() - i,
    {
        let tool = &tools[i];
        let mut members = no_members();
        push_member(&mut members, "name", JsonValue::string(tool.name.as_str()));
        push_member(&mut members, "description", JsonValue::string(tool.description.as_str()));
        push_member(&mut members, "input_schema", tool.input_schema.clone());
        assert(members_view(members@) =~= tool_json(tool@)->Object_0);
        items.push(JsonValue::Object(members));
        i += 1;
    }
    let ghost views = tools_view(tools@);
    assert(items_view(items@) =~= Seq::new(views.len(), |i: int| tool_json(views[i])));
    let mut members = no_members();
    push_member(&mut members, "tools", JsonValue::Array(items));
    push_member(&mut members, "next_cursor", JsonValue::Null);
    assert(members_view(members@) =~= tools_list_json(views)->Object_0);
    JsonValue::Object(members)
}

/// A resource template as `resources/list` shows it: the template stands in
/// the place of the URI.
pub open spec fn template_json(template: ResourceTemplateView) -> JsonView {
    JsonView::Object(
        with_optional(
            with_optional(
                seq![
                    ("uri"@, JsonView::String(template.uri_template)),
                    ("name"@, JsonView::String(template.name)),
                ],
                "description"@,
                template.description,
            ),
            "mime_type"@,
            template.mime_type,
        ).push(("metadata"@, JsonView::Object(template.metadata))),
    )
}

/// The result of `resources/list`: the templates and no cursor.
pub open spec fn resources_list_json(templates: Seq<ResourceTemplateView>) -> JsonView {
    JsonView::Object(
        seq![
            (
                "resources"@,
                JsonView::Array(Seq::new(templates.len(), |i: int| template_json(templates[i]))),
            ),
            ("next_cursor"@, JsonView::Null),
        ],
    )
}

/// Writes the result of `resources/list`.
pub fn resources_list_result(templates: &Vec<ResourceTemplate>) -> (out: JsonValue)
    ensures
        out@ == resources_list_json(templates_view(templates@)),
{
    let mut items: Vec<JsonValue> = Vec::new();
    let mut i: usize = 0;
    while i < templates.len()
        invariant
            i <= templates.len(),
            items.len() == i,
            forall|k: int| 0 <= k < i ==> items@[k]@ == template_json(templates@[k]@),
        decreases templates.len() - i,
    {
        let template = &templates[i];
        let mut members = no_members();
        push_member(&mut members, "uri", JsonValue::string(template.uri_template.as_str()));
        push_member(&mut members, "name", JsonValue::string(template.name.as_str()));
        push_optional(&mut members, "description", &template.description);
        push_optional(&mut members, "mime_type", &template.mime_type);
        push_member(&mut members, "metadata", JsonValue::Object(clone_members(&template.metadata)));
        assert(members_view(members@) =~= template_json(template@)->Object_0);
        items.push(JsonValue::Object(members));
        i += 1;
    }
    let ghost views = templates_view(templates@);
    assert(items_view(items@) =~= Seq::new(views.len(), |i: int| template_json(views[i])));
    let mut members = no_members();
    push_member(&mut members, "resources", JsonValue::Array(items));
    push_member(&mut members, "next_cursor", JsonValue::Null);
    assert(members_view(members@) =~= resources_list_json(views)->Object_0);
    JsonValue::Object(members)
}

/// The content of a resource as `resources/read` shows it, with the URI of
/// the resource attached.
pub open spec fn content_json(resource: ResourceView) -> JsonView {
    match resource.content {
        ResourceContentView::Text { text } => JsonView::Object(
            with_optional(
                seq![
                    ("type"@, JsonView::String("text"@)),
                    ("uri"@, JsonView::String(resource.uri)),
                ],
                "mime_type"@,
                resource.mime_type,
            ).push(("text"@, JsonView::String(text))),
        ),
        ResourceContentView::Blob { blob, mime_type } => JsonView::Object(
            seq![
                ("type"@, JsonView::String("blob"@)),
                ("uri"@, JsonView::String(resource.uri)),
                ("mime_type"@, JsonView::String(mime_type)),
                ("blob"@, JsonView::String(blob)),
            ],
        ),
    }
}

/// The result of `resources/read`: the content of the resource, as the one
/// element of `contents`.
pub open spec fn resource_read_json(resource: ResourceView) -> JsonView {
    JsonView::Object(seq![("contents"@, JsonView::Array(seq![content_json(resource)]))])
}

/// Writes the result of `resources/read`.
pub fn resource_read_result(resource: &Resource) -> (out: JsonValue)
    ensures
        out@ == resource_read_json(resource@),
{
    let mut members = no_members();
    match &resource.content {
        ResourceContent::Text { text } => {
            push_member(&mut members, "type", JsonValue::string("text"));
            push_member(&mut members, "uri", JsonValue::string(resource.uri.as_str()));
            push_optional(&mut members, "mime_type", &resource.mime_type);
            push_member(&mut members, "text", JsonValue::string(text.as_str()));
        },
        ResourceContent::Blob { blob, mime_type } => {
            push_member(&mut members, "type", JsonValue::string("blob"));
            push_member(&mut members, "uri", JsonValue::string(resource.uri.as_str()));
            push_member(&mut members, "mime_type", JsonValue::string(mime_type.as_str()));
            push_member(&mut members, "blob", JsonValue::string(blob.as_str()));
        },
    }
    assert(members_view(members@) =~= content_json(resource@)->Object_0);
    let mut contents: Vec<JsonValue> = Vec::new();
    contents.push(JsonValue::Object(members));
    assert(items_view(contents@) =~= seq![content_json(resource@)]);
    let mut outer = no_members();
    push_member(&mut outer, "contents", JsonValue::Array(contents));
    assert(members_view(outer@) =~= resource_read_json(resource@)->Object_0);
    JsonValue::Object(outer)
}

/// The schema of a parameter, or null where it has none.
pub open spec fn schema_json(schema: Option<JsonView>) -> JsonView {
    match schema {
        Some(s) => s,
        None => JsonView::Null,
    }
}

/// A parameter as `prompts/list` shows it.
pub open spec fn parameter_json(parameter: PromptParameterView) -> JsonView {
    JsonView::Object(
        seq![
            ("name"@, JsonView::String(parameter.name)),
            ("description"@, JsonView::String(parameter.description)),
            ("required"@, JsonView::Bool(parameter.required)),
            ("schema"@, schema_json(parameter.schema)),
        ],
    )
}

/// A prompt as `prompts/list` shows it: its name, its description and its
/// parameters as `arguments`.
pub open spec fn prompt_json(prompt: PromptView) -> JsonView {
    JsonView::Object(
        seq![
            ("name"@, JsonView::String(prompt.name)),
            ("description"@, JsonView::String(prompt.description)),
            (
                "arguments"@,
                JsonView::Array(
                    Seq::new(prompt.parameters.len(), |i: int| parameter_json(prompt.parameters[i])),
                ),
            ),
        ],
    )
}

/// The result of `prompts/list`.
pub open spec fn prompts_list_json(prompts: Seq<PromptView>) -> JsonView {
    JsonView::Object(
        seq![
            ("prompts"@, JsonView::Array(Seq::new(prompts.len(), |i: int| prompt_json(prompts[i])))),
        ],
    )
}

/// Writes a parameter as `prompts/list` shows it.
fn parameter_value(parameter: &PromptParameter) -> (out: JsonValue)
    ensures
        out@ == parameter_json(parameter@),
{
    let mut members = no_members();
    push_member(&mut members, "name", JsonValue::string(parameter.name.as_str()));
    push_member(&mut members, "description", JsonValue::string(parameter.description.as_str()));
    push_member(&mut members, "required", JsonValue::Bool(parameter.required));
    let schema = match &parameter.schema {
        Some(s) => s.clone(),
        None => JsonValue::Null,
    };
    push_member(&mut members, "schema", schema);
    assert(members_view(members@) =~= parameter_json(parameter@)->Object_0);
    JsonValue::Object(members)
}

/// Writes a prompt as `prompts/list` shows it.
fn prompt_value(prompt: &Prompt) -> (out: JsonValue)
    ensures
        out@ == prompt_json(prompt@),
{
    let mut arguments: Vec<JsonValue> = Vec::new();
    let mut i: usize = 0;
    while i < prompt.parameters.len()
        invariant
            i <= prompt.parameters.len(),
            arguments.len() == i,
            forall|k: int| 0 <= k < i ==> arguments@[k]@ == parameter_json(prompt.parameters@[k]@),
        decreases prompt.parameters.len() - i,
    {
        arguments.push(parameter_value(&prompt.parameters[i]));
        i += 1;
    }
    let ghost views = prompt@.parameters;
    assert(items_view(arguments@) =~= Seq::new(views.len(), |i: int| parameter_json(views[i])));
    let mut members = no_members();
    push_member(&mut members, "name", JsonValue::string(prompt.name.as_str()));
    push_member(&mut members, "description", JsonValue::string(prompt.description.as_str()));
    push_member(&mut members, "arguments", JsonValue::Array(arguments));
    assert(members_view(members@) =~= prompt_json(prompt@)->Object_0);
    JsonValue::Object(members)
}

/// Writes the result of `prompts/list`.
pub fn prompts_list_result(prompts: &Vec<Prompt>) -> (out: JsonValue)
    ensures
        out@ == prompts_list_json(prompts_view(prompts@)),
{
    let mut items: Vec<JsonValue> = Vec::new();
    let mut i: usize = 0;
    while i < prompts.len()
        invariant
            i <= prompts.len(),
            items.len() == i,
            forall|k: int| 0 <= k < i ==> items@[k]@ == prompt_json(prompts@[k]@),
        decreases prompts.len() - i,
    {
        items.push(prompt_value(&prompts[i]));
        i += 1;
    }
    let ghost views = prompts_view(prompts@);
    assert(items_view(items@) =~= Seq::new(views.len(), |i: int| prompt_json(views[i])));
    let mut members = no_members();
    push_member(&mut members, "prompts", JsonValue::Array(items));
    assert(members_view(members@) =~= prompts_list_json(views)->Object_0);
    JsonValue::Object(members)
}

/// An annotation as a rendered prompt shows it.
pub open spec fn annotation_json(annotation: ResourceAnnotationView) -> JsonView {
    JsonView::Object(
        seq![
            ("description"@, JsonView::String(annotation.description)),
            ("role"@, JsonView::String(annotation.role)),
        ],
    )
}

/// The members with `annotation` appended where there is one.
pub open spec fn with_annotation(
    members: Seq<(Seq<char>, JsonView)>,
    annotation: Option<ResourceAnnotationView>,
) -> Seq<(Seq<char>, JsonView)> {
    match annotation {
        Some(a) => members.push(("annotation"@, annotation_json(a))),
        None => members,
    }
}

/// The reference of an embedded resource as a rendered prompt shows it.
pub open spec fn embedded_json(resource: EmbeddedResourceView) -> JsonView {
    JsonView::Object(
        with_annotation(
            with_optional(
                seq![("uri"@, JsonView::String(resource.uri))],
                "mime_type"@,
                resource.mime_type,
            ),
            resource.annotation,
        ),
    )
}

/// The content of a message as a rendered prompt shows it.
pub open spec fn prompt_content_json(content: PromptContentView) -> JsonView {
    match content {
        PromptContentView::Text { text } => JsonView::Object(
            seq![("type"@, JsonView::String("text"@)), ("text"@, JsonView::String(text))],
        ),
        PromptContentView::EmbeddedResource { resource, text } => JsonView::Object(
            with_optional(
                seq![
                    ("type"@, JsonView::String("embedded_resource"@)),
                    ("resource"@, embedded_json(resource)),
                ],
                "text"@,
                text,
            ),
        ),
    }
}

/// A message as a rendered prompt shows it.
pub open spec fn message_json(message: PromptMessageView) -> JsonView {
    JsonView::Object(
        seq![
            ("role"@, JsonView::String(role_name(message.role))),
            ("content"@, prompt_content_json(message.content)),
        ],
    )
}

/// The result of `prompts/get`.
pub open spec fn prompt_result_json(result: GetPromptResultView) -> JsonView {
    JsonView::Object(
        seq![
            ("name"@, JsonView::String(result.name)),
            ("description"@, JsonView::String(result.description)),
            (
                "messages"@,
                JsonView::Array(
                    Seq::new(result.messages.len(), |i: int| message_json(result.messages[i])),
                ),
            ),
        ],
    )
}

/// Writes the reference of an embedded resource.
fn embedded_value(resource: &EmbeddedResource) -> (out: JsonValue)
    ensures
        out@ == embedded_json(resource@),
{
    let mut members = no_members();
    push_member(&mut members, "uri", JsonValue::string(resource.uri.as_str()));
    push_optional(&mut members, "mime_type", &resource.mime_type);
    match &resource.annotation {
        Some(annotation) => {
            let mut inner = no_members();
            push_member(
                &mut inner,
                "description",
                JsonValue::string(annotation.description.as_str()),
            );
            push_member(&mut inner, "role", JsonValue::string(annotation.role.as_str()));
            assert(members_view(inner@) =~= annotation_json(annotation@)->Object_0);
            push_member(&mut members, "annotation", JsonValue::Object(inner));
        },
        None => {},
    }
    JsonValue::Object(members)
}

/// Writes a message of a rendered prompt.
fn message_value(message: &PromptMessage) -> (out: JsonValue)
    ensures
        out@ == message_json(message@),
{
    let mut content = no_members();
    match &message.content {
        PromptContent::Text { text } => {
            push_member(&mut content, "type", JsonValue::string("text"));
            push_member(&mut content, "text", JsonValue::string(text.as_str()));
        },
        PromptContent::EmbeddedResource { resource, text } => {
            push_member(&mut content, "type", JsonValue::string("embedded_resource"));
            push_member(&mut content, "resource", embedded_value(resource));
            push_optional(&mut content, "text", text);
        },
    }
    assert(members_view(content@) =~= prompt_content_json(message@.content)->Object_0);
    let mut members = no_members();
    push_member(&mut members, "role", JsonValue::string(message.role.name()));
    push_member(&mut members, "content", JsonValue::Object(content));
    assert(members_view(members@) =~= message_json(message@)->Object_0);
    JsonValue::Object(members)
}

/// Writes the result of `prompts/get`.
pub fn prompt_result(result: &GetPromptResult) -> (out: JsonValue)
    ensures
        out@ == prompt_result_json(result@),
{
    let mut items: Vec<JsonValue> = Vec::new();
    let mut i: usize = 0;
    while i < result.messages.len()
        invariant
            i <= result.messages.len(),
            items.len() == i,
            forall|k: int| 0 <= k < i ==> items@[k]@ == message_json(result.messages@[k]@),
        decreases result.messages.len() - i,
    {
        items.push(message_value(&result.messages[i]));
        i += 1;
    }
    let ghost views = result@.messages;
    assert(items_view(items@) =~= Seq::new(views.len(), |i: int| message_json(views[i])));
    let mut members = no_members();
    push_member(&mut members, "name", JsonValue::string(result.name.as_str()));
    push_member(&mut members, "description", JsonValue::string(result.description.as_str()));
    push_member(&mut members, "messages", JsonValue::Array(items));
    assert(members_view(members@) =~= prompt_result_json(result@)->Object_0);
    JsonValue::Object(members)
}

/// The members with `key: value` appended where there is a value.
pub open spec fn with_value(
    members: Seq<(Seq<char>, JsonView)>,
    key: Seq<char>,
    value: Option<JsonView>,
) -> Seq<(Seq<char>, JsonView)> {
    match value {
        Some(v) => members.push((key, v)),
        None => members,
    }
}

/// An error object as JSON.
pub open spec fn rpc_error_json(error: JsonRpcErrorView) -> JsonView {
    JsonView::Object(
        with_value(
            seq![
                ("code"@, count_json(error.code as int)),
                ("message"@, JsonView::String(error.message)),
            ],
            "data"@,
            error.data,
        ),
    )
}

/// The members with `error` appended where there is one.
pub open spec fn with_error(
    members: Seq<(Seq<char>, JsonView)>,
    error: Option<JsonRpcErrorView>,
) -> Seq<(Seq<char>, JsonView)> {
    match error {
        Some(e) => members.push(("error"@, rpc_error_json(e))),
        None => members,
    }
}

/// The result of one request of a batch as JSON.
pub open spec fn item_result_json(item: BatchItemResultView) -> JsonView {
    JsonView::Object(
        with_error(
            with_value(seq![("id"@, JsonView::String(item.id))], "result"@, item.result),
            item.error,
        ).push(("execution_time_ms"@, count_json(item.execution_time_ms as int))).push(
            ("skipped"@, JsonView::Bool(item.skipped)),
        ).push(("metadata"@, JsonView::Object(item.metadata))),
    )
}

/// The counts of a batch as JSON.
pub open spec fn stats_json(stats: BatchStats) -> JsonView {
    JsonView::Object(
        seq![
            ("total_requests"@, count_json(stats.total_requests as int)),
            ("successful_requests"@, count_json(stats.successful_requests as int)),
            ("failed_requests"@, count_json(stats.failed_requests as int)),
            ("skipped_requests"@, count_json(stats.skipped_requests as int)),
            ("total_execution_time_ms"@, count_json(stats.total_execution_time_ms as int)),
            ("average_execution_time_ms"@, count_json(stats.average_execution_time_ms as int)),
            ("max_parallel_executed"@, count_json(stats.max_parallel_executed as int)),
        ],
    )
}

/// The result of `batch` as JSON.
pub open spec fn batch_result_json(
    stats: BatchStats,
    results: Seq<BatchItemResultView>,
    correlation_token: Option<Seq<char>>,
    metadata: Seq<(Seq<char>, JsonView)>,
) -> JsonView {
    JsonView::Object(
        with_optional(
            seq![
                ("stats"@, stats_json(stats)),
                (
                    "results"@,
                    JsonView::Array(Seq::new(results.len(), |i: int| item_result_json(results[i]))),
                ),
            ],
            "correlation_token"@,
            correlation_token,
        ).push(("metadata"@, JsonView::Object(metadata))),
    )
}

/// Writes an error object.
pub fn rpc_error_value(error: &JsonRpcError) -> (out: JsonValue)
    ensures
        out@ == rpc_error_json(error@),
{
    let mut members = no_members();
    push_member(&mut members, "code", JsonValue::Number(JsonNumber::NegInt(error.code as i64)));
    push_member(&mut members, "message", JsonValue::string(error.message.as_str()));
    match &error.data {
        Some(data) => push_member(&mut members, "data", data.clone()),
        None => {},
    }
    assert(members_view(members@) =~= rpc_error_json(error@)->Object_0);
    JsonValue::Object(members)
}

/// Writes the result of one request of a batch.
fn item_result_value(item: &BatchItemResult) -> (out: JsonValue)
    ensures
        out@ == item_result_json(item@),
{
    let mut members = no_members();
    push_member(&mut members, "id", JsonValue::string(item.id.as_str()));
    match &item.result {
        Some(result) => push_member(&mut members, "result", result.clone()),
        None => {},
    }
    match &item.error {
        Some(error) => push_member(&mut members, "error", rpc_error_value(error)),
        None => {},
    }
    push_member(
        &mut members,
        "execution_time_ms",
        JsonValue::Number(JsonNumber::PosInt(item.execution_time_ms)),
    );
    push_member(&mut members, "skipped", JsonValue::Bool(item.skipped));
    push_member(&mut members, "metadata", JsonValue::Object(clone_members(&item.metadata)));
    assert(members_view(members@) =~= item_result_json(item@)->Object_0);
    JsonValue::Object(members)
}

/// Writes the result of `batch`.
pub fn batch_result(result: &BatchResult) -> (out: JsonValue)
    ensures
        out@ == batch_result_json(
            result.stats,
            item_results_view(result.results@),
            crate::text::opt_text(result.correlation_token),
            members_view(result.metadata@),
        ),
{
    let mut items: Vec<JsonValue> = Vec::new();
    let mut i: usize = 0;
    while i < result.results.len()
        invariant
            i <= result.results.len(),
            items.len() == i,
            forall|k: int| 0 <= k < i ==> items@[k]@ == item_result_json(result.results@[k]@),
        decreases result.results.len() - i,
    {
        items.push(item_result_value(&result.results[i]));
        i += 1;
    }
    let ghost views = item_results_view(result.results@);
    assert(items_view(items@) =~= Seq::new(views.len(), |i: int| item_result_json(views[i])));
    let stats = &result.stats;
    let mut counts = no_members();
    push_member(&mut counts, "total_requests", count(stats.total_requests));
    push_member(&mut counts, "successful_requests", count(stats.successful_requests));
    push_member(&mut counts, "failed_requests", count(stats.failed_requests));
    push_member(&mut counts, "skipped_requests", count(stats.skipped_requests));
    push_member(
        &mut counts,
        "total_execution_time_ms",
        JsonValue::Number(JsonNumber::PosInt(stats.total_execution_time_ms)),
    );
    push_member(
        &mut counts,
        "average_execution_time_ms",
        JsonValue::Number(JsonNumber::PosInt(stats.average_execution_time_ms)),
    );
    push_member(&mut counts, "max_parallel_executed", count(stats.max_parallel_executed));
    assert(members_view(counts@) =~= stats_json(result.stats)->Object_0);
    let mut members = no_members();
    push_member(&mut members, "stats", JsonValue::Object(counts));
    push_member(&mut members, "results", JsonValue::Array(items));
    push_optional(&mut members, "correlation_token", &result.correlation_token);
    push_member(&mut members, "metadata", JsonValue::Object(clone_members(&result.metadata)));
    assert(members_view(members@) =~= batch_result_json(
        result.stats,
        views,
        crate::text::opt_text(result.correlation_token),
        members_view(result.metadata@),
    )->Object_0);
    JsonValue::Object(members)
}

/// The text of the member `key`, where the member is there and is a string.
pub open spec fn text_member(members: Seq<(Seq<char>, JsonView)>, key: Seq<char>) -> Option<
    Seq<char>,
> {
    match member_value(members, key) {
        Some(JsonView::String(text)) => Some(text),
        _ => None,
    }
}

/// The value of the member `key`; a member that is null counts as absent.
pub open spec fn optional_member(members: Seq<(Seq<char>, JsonView)>, key: Seq<char>) -> Option<
    JsonView,
> {
    match member_value(members, key) {
        Some(JsonView::Null) => None,
        other => other,
    }
}

/// The URI that the parameters of `resources/read` name: the parameters are
/// an object whose member `uri` is a string.
pub open spec fn read_params_of(params: JsonView) -> Option<Seq<char>> {
    match params {
        JsonView::Object(members) => text_member(members, "uri"@),
        _ => None,
    }
}

/// The name and arguments that the parameters of `tools/call` carry: the
/// parameters are an object whose member `name` is a string; `arguments` is
/// optional and may be any value.
pub open spec fn call_params_of(params: JsonView) -> Option<(Seq<char>, Option<JsonView>)> {
    match params {
        JsonView::Object(members) => match text_member(members, "name"@) {
            Some(name) => Some((name, optional_member(members, "arguments"@))),
            None => None,
        },
        _ => None,
    }
}

/// The name and arguments that the parameters of `prompts/get` carry: the
/// parameters are an object whose member `name` is a string; `arguments` is
/// optional and, where it is there, an object.
pub open spec fn prompt_request_of(params: JsonView) -> Option<
    (Seq<char>, Option<Seq<(Seq<char>, JsonView)>>),
> {
    match params {
        JsonView::Object(members) => match text_member(members, "name"@) {
            Some(name) => match optional_member(members, "arguments"@) {
                None => Some((name, None)),
                Some(JsonView::Object(arguments)) => Some((name, Some(arguments))),
                Some(_) => None,
            },
            None => None,
        },
        _ => None,
    }
}

/// The member `key` of an object: the text of a string member.
fn text_of<'a>(value: &'a JsonValue, key: &str) -> (out: Option<&'a str>)
    ensures
        match out {
            Some(text) => value@ is Object && text_member(value@->Object_0, key@) == Some(text@),
            None => !(value@ is Object) || text_member(value@->Object_0, key@) is None,
        },
{
    match value.get(key) {
        Some(member) => member.as_str(),
        None => None,
    }
}

/// The member `key` of an object, where it is there and not null.
fn optional_of<'a>(value: &'a JsonValue, key: &str) -> (out: Option<&'a JsonValue>)
    requires
        value@ is Object,
    ensures
        match out {
            Some(member) => optional_member(value@->Object_0, key@) == Some(member@),
            None => optional_member(value@->Object_0, key@) is None,
        },
{
    match value.get(key) {
        Some(member) => if member.is_null() {
            None
        } else {
            Some(member)
        },
        None => None,
    }
}

/// Reads the parameters of `resources/read`.
pub fn read_params(params: &JsonValue) -> (out: Option<ResourcesReadParams>)
    ensures
        match out {
            Some(read) => read_params_of(params@) == Some(read.uri@),
            None => read_params_of(params@) is None,
        },
{
    match text_of(params, "uri") {
        Some(uri) => Some(ResourcesReadParams { uri: uri.to_owned() }),
        None => None,
    }
}

/// Reads the parameters of `tools/call`.
pub fn call_params(params: &JsonValue) -> (out: Option<ToolsCallParams>)
    ensures
        match out {
            Some(call) => call_params_of(params@) == Some((call.name@, opt_value(call.arguments))),
            None => call_params_of(params@) is None,
        },
{
    match text_of(params, "name") {
        Some(name) => {
            let arguments = match optional_of(params, "arguments") {
                Some(value) => Some(value.clone()),
                None => None,
            };
            Some(ToolsCallParams { name: name.to_owned(), arguments })
        },
        None => None,
    }
}

/// The arguments of a request as a view.
pub open spec fn opt_members(arguments: Option<Vec<(String, JsonValue)>>) -> Option<
    Seq<(Seq<char>, JsonView)>,
> {
    match arguments {
        Some(members) => Some(members_view(members@)),
        None => None,
    }
}

/// Reads the parameters of `prompts/get`.
pub fn prompt_request(params: &JsonValue) -> (out: Option<GetPromptRequest>)
    ensures
        match out {
            Some(request) => prompt_request_of(params@) == Some(
                (request.name@, opt_members(request.arguments)),
            ),
            None => prompt_request_of(params@) is None,
        },
{
    match text_of(params, "name") {
        Some(name) => match optional_of(params, "arguments") {
            None => Some(GetPromptRequest { name: name.to_owned(), arguments: None }),
            Some(value) => match value {
                JsonValue::Object(members) => Some(
                    GetPromptRequest {
                        name: name.to_owned(),
                        arguments: Some(clone_members(members)),
                    },
                ),
                _ => None,
            },
        },
        None => None,
    }
}

/// The scheduling that a mode name asks for.
pub open spec fn mode_of(name: Seq<char>) -> Option<BatchExecutionMode> {
    if name == "parallel"@ {
        Some(BatchExecutionMode::Parallel)
    } else if name == "sequential"@ {
        Some(BatchExecutionMode::Sequential)
    } else if name == "dependency"@ {
        Some(BatchExecutionMode::Dependency)
    } else if name == "priority_dependency"@ {
        Some(BatchExecutionMode::PriorityDependency)
    } else {
        None
    }
}

/// The count that the optional member `key` holds. `None` where the member
/// is there and is no whole number from 0 to `max`; `Some(None)` where it is
/// absent.
pub open spec fn optional_count(members: Seq<(Seq<char>, JsonView)>, key: Seq<char>, max: int)
    -> Option<Option<int>> {
    match optional_member(members, key) {
        None => Some(None),
        Some(JsonView::Number(NumberView::Int(n))) => if 0 <= n <= max {
            Some(Some(n))
        } else {
            None
        },
        Some(_) => None,
    }
}

/// The request that one element of `requests` stands for: an object whose
/// members `id` and `method` are strings; `params` is optional.
pub open spec fn batch_request_of(value: JsonView) -> Option<BatchRequestView> {
    match value {
        JsonView::Object(members) => match (
            text_member(members, "id"@),
            text_member(members, "method"@),
        ) {
            (Some(id), Some(method)) => Some(
                BatchRequestView { id, method, params: optional_member(members, "params"@) },
            ),
            _ => None,
        },
        _ => None,
    }
}

/// The requests that the elements stand for, where every element stands for
/// one.
pub open spec fn batch_requests_of(items: Seq<JsonView>) -> Option<Seq<BatchRequestView>> {
    if forall|i: int| 0 <= i < items.len() ==> (#[trigger] batch_request_of(items[i])) is Some {
        Some(Seq::new(items.len(), |i: int| batch_request_of(items[i])->0))
    } else {
        None
    }
}

/// The mathematical value of a `BatchParams`.
pub ghost struct BatchParamsView {
    pub requests: Seq<BatchRequestView>,
    pub execution_mode: BatchExecutionMode,
    pub max_parallel: Option<int>,
    pub timeout_ms: Option<int>,
}

/// The view of an optional 32-bit count.
pub open spec fn opt_u32(o: Option<u32>) -> Option<int> {
    match o {
        Some(n) => Some(n as int),
        None => None,
    }
}

/// The view of an optional 64-bit count.
pub open spec fn opt_u64(o: Option<u64>) -> Option<int> {
    match o {
        Some(n) => Some(n as int),
        None => None,
    }
}

/// The view of the parameters of a batch.
pub open spec fn batch_params_view(params: BatchParams) -> BatchParamsView {
    BatchParamsView {
        requests: batch_requests_view(params.requests@),
        execution_mode: params.execution_mode,
        max_parallel: opt_u32(params.max_parallel),
        timeout_ms: opt_u64(params.timeout_ms),
    }
}

/// The parameters of `batch` that a value stands for: an object whose
/// member `requests` is an array of requests and whose member
/// `execution_mode` names a mode; `max_parallel` and `timeout_ms` are
/// optional counts of 32 and 64 bits.
pub open spec fn batch_params_of(params: JsonView) -> Option<BatchParamsView> {
    match params {
        JsonView::Object(members) => match (
            member_value(members, "requests"@),
            text_member(members, "execution_mode"@),
        ) {
            (Some(JsonView::Array(items)), Some(mode)) => match (
                batch_requests_of(items),
                mode_of(mode),
                optional_count(members, "max_parallel"@, u32::MAX as int),
                optional_count(members, "timeout_ms"@, u64::MAX as int),
            ) {
                (Some(requests), Some(execution_mode), Some(max_parallel), Some(timeout_ms)) => Some(
                    BatchParamsView { requests, execution_mode, max_parallel, timeout_ms },
                ),
                _ => None,
            },
            _ => None,
        },
        _ => None,
    }
}

/// Reads a mode name.
fn mode(name: &str) -> (out: Option<BatchExecutionMode>)
    ensures
        out == mode_of(name@),
{
    if text_equal(name, "parallel") {
        Some(BatchExecutionMode::Parallel)
    } else if text_equal(name, "sequential") {
        Some(BatchExecutionMode::Sequential)
    } else if text_equal(name, "dependency") {
        Some(BatchExecutionMode::Dependency)
    } else if text_equal(name, "priority_dependency") {
        Some(BatchExecutionMode::PriorityDependency)
    } else {
        None
    }
}

/// Reads the optional count `key` of an object.
fn count_of(value: &JsonValue, key: &str, max: u64) -> (out: Option<Option<u64>>)
    requires
        value@ is Object,
    ensures
        match out {
            Some(Some(n)) => optional_count(value@->Object_0, key@, max as int) == Some(
                Some(n as int),
            ) && n <= max,
            Some(None) => optional_count(value@->Object_0, key@, max as int) == Some(
                None::<int>,
            ),
            None => optional_count(value@->Object_0, key@, max as int) is None,
        },
{
    match optional_of(value, key) {
        None => Some(None),
        Some(member) => match member {
            JsonValue::Number(JsonNumber::PosInt(n)) => if *n <= max {
                Some(Some(*n))
            } else {
                None
            },
            JsonValue::Number(JsonNumber::NegInt(n)) => if *n >= 0 && (*n as u64) <= max {
                Some(Some(*n as u64))
            } else {
                None
            },
            _ => None,
        },
    }
}

/// Reads one request of a batch.
fn batch_request(value: &JsonValue) -> (out: Option<BatchRequest>)
    ensures
        match out {
            Some(request) => batch_request_of(value@) == Some(request@),
            None => batch_request_of(value@) is None,
        },
{
    let id = match text_of(value, "id") {
        Some(id) => id,
        None => {
            return None;
        },
    };
    let method = match text_of(value, "method") {
        Some(method) => method,
        None => {
            return None;
        },
    };
    let params = match optional_of(value, "params") {
        Some(member) => Some(member.clone()),
        None => None,
    };
    Some(BatchRequest { id: id.to_owned(), method: method.to_owned(), params })
}

/// Reads the parameters of `batch`.
pub fn batch_params(params: &JsonValue) -> (out: Option<BatchParams>)
    ensures
        match out {
            Some(batch) => batch_params_of(params@) == Some(batch_params_view(batch)),
            None => batch_params_of(params@) is None,
        },
{
    let items = match params.get("requests") {
        Some(JsonValue::Array(items)) => items,
        _ => {
            return None;
        },
    };
    let execution_mode = match text_of(params, "execution_mode") {
        Some(name) => match mode(name) {
            Some(m) => m,
            None => {
                return None;
            },
        },
        None => {
            return None;
        },
    };
    let ghost views = items_view(items@);
    let mut requests: Vec<BatchRequest> = Vec::new();
    let mut i: usize = 0;
    while i < items.len()
        invariant
            i <= items.len(),
            requests.len() == i,
            views == items_view(items@),
            params@ is Object,
            member_value(params@->Object_0, "requests"@) == Some(JsonView::Array(views)),
            forall|k: int| 0 <= k < i ==> batch_request_of(views[k]) == Some(requests@[k]@),
        decreases items.len() - i,
    {
        match batch_request(&items[i]) {
            Some(request) => {
                requests.push(request);
            },
            None => {
                proof {
                    assert(views[i as int] == items@[i as int]@);
                    assert(!(batch_request_of(views[i as int]) is Some));
                    assert(batch_requests_of(views) is None);
                }
                return None;
            },
        }
        i += 1;
    }
    proof {
        assert(batch_requests_of(views) is Some);
        assert(batch_requests_of(views)->0 =~= batch_requests_view(requests@));
    }
    let max_parallel = match count_of(params, "max_parallel", 0xffff_ffff) {
        Some(Some(n)) => Some(n as u32),
        Some(None) => None,
        None => {
            return None;
        },
    };
    let timeout_ms = match count_of(params, "timeout_ms", 0xffff_ffff_ffff_ffff) {
        Some(found) => found,
        None => {
            return None;
        },
    };
    Some(BatchParams { requests, execution_mode, max_parallel, timeout_ms })
}

} // verus!

//! Prompts: parameterized templates of chat messages, the engine that
//! substitutes arguments into them, and the registry that stores and renders
//! them.

use vstd::prelude::*;
use crate::error::McpError;
use crate::error::McpErrorView;
use crate::error::McpResult;
use crate::json::clone_members;
use crate::json::find_member;
use crate::json::JsonValue;
use crate::json::JsonView;
use crate::json::members_view;
use crate::json::member_index;
use crate::security::SecurityContext;
use crate::template::lemma_placeholders_gone;
use crate::template::placeholder;
use crate::template::substituted;
use crate::template::substitutes_cleanly;
use crate::text::clone_opt;
use crate::text::contains_pattern;
use crate::text::index_of_text;
use crate::text::join3;
use crate::text::lemma_index_of_pushed;
use crate::text::lemma_index_of_text;
use crate::text::opt_text;
use crate::text::pairwise_distinct;
use crate::text::replace_all;
use crate::text::text_contains;
use crate::text::text_equal;

verus! {

broadcast use vstd::string::group_string_axioms;

/// Who speaks a message.
#[derive(Debug, Clone, Copy, PartialEq, Eq)]
pub enum MessageRole {
    System,
    User,
    Assistant,
}

/// What tells a model how to read an embedded resource.
#[derive(Debug)]
pub struct ResourceAnnotation {
    pub description: String,
    /// The part that the resource plays in the prompt, such as `example` or
    /// `context`.
    pub role: String,
}

/// A reference to a resource inside a prompt. Rendering does not fetch it.
#[derive(Debug)]
pub struct EmbeddedResource {
    pub uri: String,
    pub mime_type: Option<String>,
    pub annotation: Option<ResourceAnnotation>,
}

/// The content of a message: text, or a resource reference with optional
/// text.
#[derive(Debug)]
#[allow(inconsistent_fields)]
pub enum PromptContent {
    Text { text: String },
    EmbeddedResource { resource: EmbeddedResource, text: Option<String> },
}

/// One message of a prompt.
#[derive(Debug)]
pub struct PromptMessage {
    pub role: MessageRole,
    pub content: PromptContent,
}

/// A declared parameter of a prompt.
#[derive(Debug)]
pub struct PromptParameter {
    pub name: String,
    pub description: String,
    pub required: bool,
    /// JSON schema of the values; advisory, not enforced when rendering.
    pub schema: Option<JsonValue>,
    pub default: Option<JsonValue>,
}

/// A prompt: a named template of messages with declared parameters.
#[derive(Debug)]
pub struct Prompt {
    pub name: String,
    pub description: String,
    pub version: String,
    pub parameters: Vec<PromptParameter>,
    pub messages: Vec<PromptMessage>,
    pub metadata: Vec<(String, JsonValue)>,
}

/// A request to render a prompt with arguments, in the order in which they
/// are substituted.
#[derive(Debug)]
pub struct GetPromptRequest {
    pub name: String,
    pub arguments: Option<Vec<(String, JsonValue)>>,
}

/// A rendered prompt.
#[derive(Debug)]
pub struct GetPromptResult {
    pub name: String,
    pub messages: Vec<PromptMessage>,
    pub description: String,
}

/// A group of prompts. The names are hints: a name need not belong to a
/// stored prompt.
#[derive(Debug)]
pub struct PromptCategory {
    pub id: String,
    pub name: String,
    pub description: String,
    pub prompts: Vec<String>,
}

/// The mathematical value of a `ResourceAnnotation`.
pub ghost struct ResourceAnnotationView {
    pub description: Seq<char>,
    pub role: Seq<char>,
}

/// The mathematical value of an `EmbeddedResource`.
pub ghost struct EmbeddedResourceView {
    pub uri: Seq<char>,
    pub mime_type: Option<Seq<char>>,
    pub annotation: Option<ResourceAnnotationView>,
}

/// The mathematical value of a `PromptContent`.
#[allow(inconsistent_fields)]
pub ghost enum PromptContentView {
    Text { text: Seq<char> },
    EmbeddedResource { resource: EmbeddedResourceView, text: Option<Seq<char>> },
}

/// The mathematical value of a `PromptMessage`.
pub ghost struct PromptMessageView {
    pub role: MessageRole,
    pub content: PromptContentView,
}

/// The mathematical value of a `PromptParameter`.
pub ghost struct PromptParameterView {
    pub name: Seq<char>,
    pub description: Seq<char>,
    pub required: bool,
    pub schema: Option<JsonView>,
    pub default: Option<JsonView>,
}

/// The mathematical value of a `Prompt`.
pub ghost struct PromptView {
    pub name: Seq<char>,
    pub description: Seq<char>,
    pub version: Seq<char>,
    pub parameters: Seq<PromptParameterView>,
    pub messages: Seq<PromptMessageView>,
    pub metadata: Seq<(Seq<char>, JsonView)>,
}

/// The mathematical value of a `GetPromptResult`.
pub ghost struct GetPromptResultView {
    pub name: Seq<char>,
    pub messages: Seq<PromptMessageView>,
    pub description: Seq<char>,
}

/// The mathematical value of a `PromptCategory`.
pub ghost struct PromptCategoryView {
    pub id: Seq<char>,
    pub name: Seq<char>,
    pub description: Seq<char>,
    pub prompts: Seq<Seq<char>>,
}

/// The view of an optional JSON value.
pub open spec fn opt_json(o: Option<JsonValue>) -> Option<JsonView> {
    match o {
        Some(v) => Some(v@),
        None => None,
    }
}

impl View for ResourceAnnotation {
    type V = ResourceAnnotationView;

    open spec fn view(&self) -> ResourceAnnotationView {
        ResourceAnnotationView { description: self.description@, role: self.role@ }
    }
}

impl View for EmbeddedResource {
    type V = EmbeddedResourceView;

    open spec fn view(&self) -> EmbeddedResourceView {
        EmbeddedResourceView {
            uri: self.uri@,
            mime_type: opt_text(self.mime_type),
            annotation: match self.annotation {
                Some(a) => Some(a@),
                None => None,
            },
        }
    }
}

impl View for PromptContent {
    type V = PromptContentView;

    open spec fn view(&self) -> PromptContentView {
        match self {
            PromptContent::Text { text } => PromptContentView::Text { text: text@ },
            PromptContent::EmbeddedResource { resource, text } => {
                PromptContentView::EmbeddedResource { resource: resource@, text: opt_text(*text) }
            },
        }
    }
}

impl View for PromptMessage {
    type V = PromptMessageView;

    open spec fn view(&self) -> PromptMessageView {
        PromptMessageView { role: self.role, content: self.content@ }
    }
}

impl View for PromptParameter {
    type V = PromptParameterView;

    open spec fn view(&self) -> PromptParameterView {
        PromptParameterView {
            name: self.name@,
            description: self.description@,
            required: self.required,
            schema: opt_json(self.schema),
            default: opt_json(self.default),
        }
    }
}

/// The views of a sequence of messages.
pub open spec fn messages_view(messages: Seq<PromptMessage>) -> Seq<PromptMessageView> {
    Seq::new(messages.len(), |i: int| messages[i]@)
}

/// The views of a sequence of parameters.
pub open spec fn parameters_view(parameters: Seq<PromptParameter>) -> Seq<PromptParameterView> {
    Seq::new(parameters.len(), |i: int| parameters[i]@)
}

impl View for Prompt {
    type V = PromptView;

    open spec fn view(&self) -> PromptView {
        PromptView {
            name: self.name@,
            description: self.description@,
            version: self.version@,
            parameters: parameters_view(self.parameters@),
            messages: messages_view(self.messages@),
            metadata: members_view(self.metadata@),
        }
    }
}

impl View for PromptCategory {
    type V = PromptCategoryView;

    open spec fn view(&self) -> PromptCategoryView {
        PromptCategoryView {
            id: self.id@,
            name: self.name@,
            description: self.description@,
            prompts: strings_view(self.prompts@),
        }
    }
}

/// The views of a sequence of categories.
pub open spec fn categories_view(categories: Seq<PromptCategory>) -> Seq<PromptCategoryView> {
    Seq::new(categories.len(), |i: int| categories[i]@)
}

impl View for GetPromptResult {
    type V = GetPromptResultView;

    open spec fn view(&self) -> GetPromptResultView {
        GetPromptResultView {
            name: self.name@,
            messages: messages_view(self.messages@),
            description: self.description@,
        }
    }
}

/// The lower-case name of a role.
pub open spec fn role_name(role: MessageRole) -> Seq<char> {
    match role {
        MessageRole::System => "system"@,
        MessageRole::User => "user"@,
        MessageRole::Assistant => "assistant"@,
    }
}

impl MessageRole {
    /// The lower-case name of the role.
    pub fn name(&self) -> (out: &'static str)
        ensures
            out@ == role_name(*self),
    {
        match self {
            MessageRole::System => "system",
            MessageRole::User => "user",
            MessageRole::Assistant => "assistant",
        }
    }
}

/// A copy of an optional JSON value.
pub fn clone_opt_json(o: &Option<JsonValue>) -> (copy: Option<JsonValue>)
    ensures
        opt_json(copy) == opt_json(*o),
{
    match o {
        Some(v) => Some(v.clone()),
        None => None,
    }
}

impl Clone for ResourceAnnotation {
    fn clone(&self) -> (copy: Self)
        ensures
            copy == *self,
    {
        ResourceAnnotation { description: self.description.clone(), role: self.role.clone() }
    }
}

impl Clone for EmbeddedResource {
    fn clone(&self) -> (copy: Self)
        ensures
            copy == *self,
    {
        EmbeddedResource {
            uri: self.uri.clone(),
            mime_type: clone_opt(&self.mime_type),
            annotation: match &self.annotation {
                Some(a) => Some(a.clone()),
                None => None,
            },
        }
    }
}

impl Clone for PromptContent {
    fn clone(&self) -> (copy: Self)
        ensures
            copy == *self,
    {
        match self {
            PromptContent::Text { text } => PromptContent::Text { text: text.clone() },
            PromptContent::EmbeddedResource { resource, text } => PromptContent::EmbeddedResource {
                resource: resource.clone(),
                text: clone_opt(text),
            },
        }
    }
}

impl Clone for PromptMessage {
    fn clone(&self) -> (copy: Self)
        ensures
            copy == *self,
    {
        PromptMessage { role: self.role, content: self.content.clone() }
    }
}

impl Clone for PromptParameter {
    fn clone(&self) -> (copy: Self)
        ensures
            copy@ == self@,
    {
        PromptParameter {
            name: self.name.clone(),
            description: self.description.clone(),
            required: self.required,
            schema: clone_opt_json(&self.schema),
            default: clone_opt_json(&self.default),
        }
    }
}

impl Clone for Prompt {
    fn clone(&self) -> (copy: Self)
        ensures
            copy@ == self@,
    {
        let mut parameters: Vec<PromptParameter> = Vec::new();
        let mut i: usize = 0;
        while i < self.parameters.len()
            invariant
                i <= self.parameters.len(),
                parameters.len() == i,
                forall|k: int| 0 <= k < i ==> parameters@[k]@ == self.parameters@[k]@,
            decreases self.parameters.len() - i,
        {
            parameters.push(self.parameters[i].clone());
            i += 1;
        }
        let mut messages: Vec<PromptMessage> = Vec::new();
        let mut j: usize = 0;
        while j < self.messages.len()
            invariant
                j <= self.messages.len(),
                messages.len() == j,
                forall|k: int| 0 <= k < j ==> messages@[k] == self.messages@[k],
            decreases self.messages.len() - j,
        {
            messages.push(self.messages[j].clone());
            j += 1;
        }
        assert(parameters_view(parameters@) =~= parameters_view(self.parameters@));
        assert(messages_view(messages@) =~= messages_view(self.messages@));
        Prompt {
            name: self.name.clone(),
            description: self.description.clone(),
            version: self.version.clone(),
            parameters,
            messages,
            metadata: clone_members(&self.metadata),
        }
    }
}

impl Clone for PromptCategory {
    fn clone(&self) -> (copy: Self)
        ensures
            copy@ == self@,
    {
        let mut prompts: Vec<String> = Vec::new();
        let mut i: usize = 0;
        while i < self.prompts.len()
            invariant
                i <= self.prompts.len(),
                prompts@ == self.prompts@.take(i as int),
            decreases self.prompts.len() - i,
        {
            prompts.push(self.prompts[i].clone());
            assert(prompts@ =~= self.prompts@.take(i + 1));
            i += 1;
        }
        assert(self.prompts@.take(i as int) =~= self.prompts@);
        PromptCategory {
            id: self.id.clone(),
            name: self.name.clone(),
            description: self.description.clone(),
            prompts,
        }
    }
}

/// An argument named `name` is supplied.
pub open spec fn supplies(args: Seq<(Seq<char>, JsonView)>, name: Seq<char>) -> bool {
    member_index(args, name) is Some
}

/// The error for a required parameter that no argument supplies.
pub open spec fn not_provided(name: Seq<char>) -> McpErrorView {
    McpErrorView::Validation { message: "Required parameter '"@ + name + "' not provided"@ }
}

/// The error for a required parameter whose placeholder the template lacks.
pub open spec fn not_in_template(name: Seq<char>) -> McpErrorView {
    McpErrorView::Validation { message: "Parameter '"@ + name + "' not found in template"@ }
}

/// What is wrong with the first required name that fails: it is not
/// supplied, or the template has no placeholder for it. `None` where every
/// required name passes.
pub open spec fn first_violation(
    template: Seq<char>,
    args: Seq<(Seq<char>, JsonView)>,
    required: Seq<Seq<char>>,
) -> Option<McpErrorView>
    decreases required.len(),
{
    if required.len() == 0 {
        None
    } else if !supplies(args, required[0]) {
        Some(not_provided(required[0]))
    } else if !contains_pattern(template, placeholder(required[0])) {
        Some(not_in_template(required[0]))
    } else {
        first_violation(template, args, required.drop_first())
    }
}

/// The text of a message where it has one: the text itself, or the text
/// that goes with an embedded resource.
pub open spec fn message_text(message: PromptMessageView) -> Option<Seq<char>> {
    match message.content {
        PromptContentView::Text { text } => Some(text),
        PromptContentView::EmbeddedResource { text, .. } => text,
    }
}

/// A rendered message holds no placeholder of a supplied name, where the
/// arguments substitute cleanly into its text.
pub proof fn lemma_rendered_message_clean(
    message: PromptMessageView,
    args: Seq<(Seq<char>, JsonView)>,
    which: int,
)
    requires
        message_text(message) matches Some(text) ==> substitutes_cleanly(text, args),
        0 <= which < args.len(),
    ensures
        message_text(rendered_message(message, args)) matches Some(text) ==> !contains_pattern(
            text,
            placeholder(args[which].0),
        ),
{
    match message.content {
        PromptContentView::Text { text } => {
            lemma_placeholders_gone(text, args, which);
        },
        PromptContentView::EmbeddedResource { resource, text } => {
            match text {
                Some(t) => {
                    lemma_placeholders_gone(t, args, which);
                },
                None => {},
            }
        },
    }
}

/// The characters of each text.
pub open spec fn strings_view(items: Seq<String>) -> Seq<Seq<char>> {
    Seq::new(items.len(), |i: int| items[i]@)
}

/// An engine that substitutes arguments into templates.
pub trait TemplateEngine {
    /// Substitutes the arguments into the template.
    fn substitute(&self, template: &str, params: &Vec<(String, JsonValue)>) -> McpResult<String>;

    /// Checks that every required parameter is supplied and used.
    fn validate_parameters(
        &self,
        template: &str,
        params: &Vec<(String, JsonValue)>,
        required: &Vec<String>,
    ) -> McpResult<()>;
}

/// The engine of `{{name}}` placeholders: plain replacement, no conditions,
/// no loops.
#[derive(Debug, Clone, Copy)]
pub struct SimpleTemplateEngine;

/// The placeholder of `name`.
pub fn placeholder_of(name: &str) -> (out: String)
    ensures
        out@ == placeholder(name@),
{
    proof {
        reveal_strlit("{{");
        reveal_strlit("}}");
    }
    let out = join3("{{", name, "}}");
    assert(out@ =~= placeholder(name@));
    out
}

impl TemplateEngine for SimpleTemplateEngine {
    fn substitute(&self, template: &str, params: &Vec<(String, JsonValue)>) -> (out: McpResult<
        String,
    >)
        ensures
            out matches Ok(text) && text@ == substituted(template@, members_view(params@)),
    {
        let ghost args = members_view(params@);
        let mut result = template.to_owned();
        let mut i: usize = 0;
        assert(args.take(0) =~= Seq::empty());
        while i < params.len()
            invariant
                i <= params.len(),
                args == members_view(params@),
                result@ == substituted(template@, args.take(i as int)),
            decreases params.len() - i,
        {
            let pattern = placeholder_of(params[i].0.as_str());
            let replacement = params[i].1.to_inline();
            proof {
                assert(args.take(i + 1).drop_last() =~= args.take(i as int));
                assert(args.take(i + 1).last() == args[i as int]);
            }
            result = replace_all(result.as_str(), pattern.as_str(), replacement.as_str());
            i += 1;
        }
        assert(args.take(i as int) =~= args);
        Ok(result)
    }

    fn validate_parameters(
        &self,
        template: &str,
        params: &Vec<(String, JsonValue)>,
        required: &Vec<String>,
    ) -> (checked: McpResult<()>)
        ensures
            match first_violation(template@, members_view(params@), strings_view(required@)) {
                Some(e) => checked matches Err(got) && got@ == e,
                None => checked is Ok,
            },
    {
        let ghost args = members_view(params@);
        let ghost names = strings_view(required@);
        let mut i: usize = 0;
        assert(names.skip(0) =~= names);
        while i < required.len()
            invariant
                i <= required.len(),
                args == members_view(params@),
                names == strings_view(required@),
                first_violation(template@, args, names) == first_violation(
                    template@,
                    args,
                    names.skip(i as int),
                ),
            decreases required.len() - i,
        {
            let name = required[i].as_str();
            proof {
                assert(names.skip(i as int)[0] == name@);
                assert(names.skip(i as int).drop_first() =~= names.skip(i + 1));
            }
            if find_member(params, name).is_none() {
                return Err(
                    McpError::Validation {
                        message: join3("Required parameter '", name, "' not provided"),
                    },
                );
            }
            let pattern = placeholder_of(name);
            if !text_contains(template, pattern.as_str()) {
                return Err(
                    McpError::Validation {
                        message: join3("Parameter '", name, "' not found in template"),
                    },
                );
            }
            i += 1;
        }
        Ok(())
    }
}

/// A message after the arguments were substituted into its text. The role
/// stays, and so does the reference of an embedded resource.
pub open spec fn rendered_message(
    message: PromptMessageView,
    args: Seq<(Seq<char>, JsonView)>,
) -> PromptMessageView {
    PromptMessageView {
        role: message.role,
        content: match message.content {
            PromptContentView::Text { text } => PromptContentView::Text {
                text: substituted(text, args),
            },
            PromptContentView::EmbeddedResource { resource, text } => {
                PromptContentView::EmbeddedResource {
                    resource,
                    text: match text {
                        Some(t) => Some(substituted(t, args)),
                        None => None,
                    },
                }
            },
        },
    }
}

/// The messages after the arguments were substituted, in their order.
pub open spec fn rendered_messages(
    messages: Seq<PromptMessageView>,
    args: Seq<(Seq<char>, JsonView)>,
) -> Seq<PromptMessageView> {
    Seq::new(messages.len(), |i: int| rendered_message(messages[i], args))
}

/// The name of the first required parameter that no argument supplies.
pub open spec fn first_missing(
    parameters: Seq<PromptParameterView>,
    args: Seq<(Seq<char>, JsonView)>,
) -> Option<Seq<char>>
    decreases parameters.len(),
{
    if parameters.len() == 0 {
        None
    } else if parameters[0].required && !supplies(args, parameters[0].name) {
        Some(parameters[0].name)
    } else {
        first_missing(parameters.drop_first(), args)
    }
}

/// What rendering a prompt with arguments gives: a validation error that
/// names the first required parameter left out, or the prompt's name, its
/// messages and its description with the arguments substituted.
pub open spec fn rendered(prompt: PromptView, args: Seq<(Seq<char>, JsonView)>) -> Result<
    GetPromptResultView,
    McpErrorView,
> {
    match first_missing(prompt.parameters, args) {
        Some(name) => Err(not_provided(name)),
        None => Ok(
            GetPromptResultView {
                name: prompt.name,
                messages: rendered_messages(prompt.messages, args),
                description: substituted(prompt.description, args),
            },
        ),
    }
}

/// A rendered prompt holds no placeholder of a supplied name, neither in
/// the text of a message nor in the description, where the arguments
/// substitute cleanly into them; and it has the messages of the prompt, one
/// for one, each with its role.
pub proof fn lemma_rendered_clean(
    prompt: PromptView,
    args: Seq<(Seq<char>, JsonView)>,
    which: int,
    at: int,
)
    requires
        0 <= which < args.len(),
        0 <= at < prompt.messages.len(),
        message_text(prompt.messages[at]) matches Some(text) ==> substitutes_cleanly(text, args),
        substitutes_cleanly(prompt.description, args),
        rendered(prompt, args) is Ok,
    ensures
        rendered(prompt, args)->Ok_0.messages.len() == prompt.messages.len(),
        rendered(prompt, args)->Ok_0.messages[at].role == prompt.messages[at].role,
        message_text(rendered(prompt, args)->Ok_0.messages[at]) matches Some(text)
            ==> !contains_pattern(text, placeholder(args[which].0)),
        !contains_pattern(rendered(prompt, args)->Ok_0.description, placeholder(args[which].0)),
{
    lemma_rendered_message_clean(prompt.messages[at], args, which);
    lemma_placeholders_gone(prompt.description, args, which);
}

/// The names of a sequence of prompts.
pub open spec fn prompt_names(stored: Seq<PromptView>) -> Seq<Seq<char>> {
    Seq::new(stored.len(), |i: int| stored[i].name)
}

/// What a store of prompts answers to a request: that it has no prompt of
/// that name, or the rendering of the prompt it has.
pub open spec fn answer(stored: Seq<PromptView>, name: Seq<char>, args: Seq<(Seq<char>, JsonView)>)
    -> Result<GetPromptResultView, McpErrorView> {
    match index_of_text(prompt_names(stored), name) {
        Some(i) => rendered(stored[i], args),
        None => Err(McpErrorView::PromptNotFound { name }),
    }
}

/// What checking arguments against a stored prompt gives.
pub open spec fn checked(stored: Seq<PromptView>, name: Seq<char>, args: Seq<(Seq<char>, JsonView)>)
    -> Result<(), McpErrorView> {
    match index_of_text(prompt_names(stored), name) {
        Some(i) => match first_missing(stored[i].parameters, args) {
            Some(missing) => Err(not_provided(missing)),
            None => Ok(()),
        },
        None => Err(McpErrorView::PromptNotFound { name }),
    }
}

/// The store after `prompt` was put into it: in the place of the prompt that
/// had its name, or at the end where there was none.
pub open spec fn prompts_with(stored: Seq<PromptView>, prompt: PromptView) -> Seq<PromptView> {
    match index_of_text(prompt_names(stored), prompt.name) {
        Some(i) => stored.update(i, prompt),
        None => stored.push(prompt),
    }
}

/// A store answers for the name of the prompt that was put into it last
/// with the rendering of that prompt, and for every other name as it did
/// before.
pub proof fn lemma_prompts_with(
    stored: Seq<PromptView>,
    prompt: PromptView,
    name: Seq<char>,
    args: Seq<(Seq<char>, JsonView)>,
)
    ensures
        answer(prompts_with(stored, prompt), name, args) == if name == prompt.name {
            rendered(prompt, args)
        } else {
            answer(stored, name, args)
        },
{
    let keys = prompt_names(stored);
    let after = prompts_with(stored, prompt);
    lemma_index_of_text(keys, prompt.name);
    lemma_index_of_text(keys, name);
    match index_of_text(keys, prompt.name) {
        Some(i) => {
            assert(prompt_names(after) =~= keys);
        },
        None => {
            assert(prompt_names(after) =~= keys.push(prompt.name));
            lemma_index_of_pushed(keys, prompt.name, name);
        },
    }
}

/// The arguments of a request: those it carries, or none.
pub open spec fn request_args(arguments: Option<Vec<(String, JsonValue)>>) -> Seq<
    (Seq<char>, JsonView),
> {
    match arguments {
        Some(args) => members_view(args@),
        None => Seq::empty(),
    }
}

/// The view of a rendering.
pub open spec fn result_view(outcome: McpResult<GetPromptResult>) -> Result<
    GetPromptResultView,
    McpErrorView,
> {
    match outcome {
        Ok(result) => Ok(result@),
        Err(e) => Err(e@),
    }
}

/// The view of a check.
pub open spec fn unit_view(outcome: McpResult<()>) -> Result<(), McpErrorView> {
    match outcome {
        Ok(_) => Ok(()),
        Err(e) => Err(e@),
    }
}

/// The views of a sequence of prompts.
pub open spec fn prompts_view(prompts: Seq<Prompt>) -> Seq<PromptView> {
    Seq::new(prompts.len(), |i: int| prompts[i]@)
}

/// The view of a listing of prompts.
pub open spec fn listing_view(listed: McpResult<Vec<Prompt>>) -> Result<
    Seq<PromptView>,
    McpErrorView,
> {
    match listed {
        Ok(prompts) => Ok(prompts_view(prompts@)),
        Err(e) => Err(e@),
    }
}

/// A store of prompts that lists and renders them.
///
/// A registry is read while requests are served: what it lists and what it
/// renders are functions of the registry, the request and the context,
/// named `listing` and `rendering`.
pub trait PromptRegistry {
    /// What the registry answers when asked for its prompts.
    spec fn listing(&self, context: &SecurityContext) -> Result<Seq<PromptView>, McpErrorView>;

    /// What the registry answers when asked to render the prompt `name`
    /// with `args`.
    spec fn rendering(
        &self,
        name: Seq<char>,
        args: Seq<(Seq<char>, JsonView)>,
        context: &SecurityContext,
    ) -> Result<GetPromptResultView, McpErrorView>;

    /// The prompts on offer.
    fn list_prompts(&self, context: &SecurityContext) -> (listed: McpResult<Vec<Prompt>>)
        ensures
            listing_view(listed) == self.listing(context),
    ;

    /// The prompt named `name`, if there is one.
    fn get_prompt(&self, name: &str, context: &SecurityContext) -> McpResult<Option<Prompt>>;

    /// Renders a prompt with arguments.
    fn get_prompt_with_args(&self, request: GetPromptRequest, context: &SecurityContext) -> (out:
        McpResult<GetPromptResult>)
        ensures
            result_view(out) == self.rendering(
                request.name@,
                request_args(request.arguments),
                context,
            ),
    ;

    /// The categories of the prompts.
    fn list_categories(&self, context: &SecurityContext) -> McpResult<Vec<PromptCategory>>;

    /// Whether a prompt named `name` is stored.
    fn prompt_exists(&self, name: &str, context: &SecurityContext) -> McpResult<bool>;

    /// Checks arguments against the parameters of a prompt.
    fn validate_prompt_parameters(
        &self,
        name: &str,
        params: &Vec<(String, JsonValue)>,
        context: &SecurityContext,
    ) -> McpResult<()>;
}

/// A prompt registry held in memory.
pub struct InMemoryPromptRegistry {
    prompts: Vec<Prompt>,
    categories: Vec<PromptCategory>,
    template_engine: SimpleTemplateEngine,
}

/// The prompt that `add_workflow_prompt` builds: version `1.0.0`, a system
/// message and a user message, and the metadata entry `type: workflow`.
pub open spec fn workflow_prompt(
    name: Seq<char>,
    description: Seq<char>,
    system_prompt: Seq<char>,
    user_template: Seq<char>,
    parameters: Seq<PromptParameterView>,
) -> PromptView {
    PromptView {
        name,
        description,
        version: "1.0.0"@,
        parameters,
        messages: seq![
            PromptMessageView {
                role: MessageRole::System,
                content: PromptContentView::Text { text: system_prompt },
            },
            PromptMessageView {
                role: MessageRole::User,
                content: PromptContentView::Text { text: user_template },
            },
        ],
        metadata: seq![("type"@, JsonView::String("workflow"@))],
    }
}

/// The schema of the parameter `analysis_type`.
pub open spec fn analysis_type_schema() -> JsonView {
    JsonView::Object(
        seq![
            (
                "enum"@,
                JsonView::Array(
                    seq![
                        JsonView::String("security"@),
                        JsonView::String("performance"@),
                        JsonView::String("style"@),
                        JsonView::String("all"@),
                    ],
                ),
            ),
            ("type"@, JsonView::String("string"@)),
        ],
    )
}

/// The schema of the parameter `focus_areas`.
pub open spec fn focus_areas_schema() -> JsonView {
    JsonView::Object(
        seq![
            ("items"@, JsonView::Object(seq![("type"@, JsonView::String("string"@))])),
            ("type"@, JsonView::String("array"@)),
        ],
    )
}

/// The prompt that `add_code_analysis_prompt` builds over a resource: the
/// required parameter `analysis_type`, the optional `focus_areas`, a system
/// message, and a user message that embeds the resource.
pub open spec fn code_analysis_prompt(
    name: Seq<char>,
    description: Seq<char>,
    resource_uri: Seq<char>,
) -> PromptView {
    PromptView {
        name,
        description,
        version: "1.0.0"@,
        parameters: seq![
            PromptParameterView {
                name: "analysis_type"@,
                description: "Type of analysis to perform (security, performance, style)"@,
                required: true,
                schema: Some(analysis_type_schema()),
                default: None,
            },
            PromptParameterView {
                name: "focus_areas"@,
                description: "Specific areas to focus on"@,
                required: false,
                schema: Some(focus_areas_schema()),
                default: Some(JsonView::Array(Seq::empty())),
            },
        ],
        messages: seq![
            PromptMessageView {
                role: MessageRole::System,
                content: PromptContentView::Text {
                    text: "You are an expert in code analysis. Analyze the provided code and give detailed feedback based on the requested analysis type."@,
                },
            },
            PromptMessageView {
                role: MessageRole::User,
                content: PromptContentView::EmbeddedResource {
                    resource: EmbeddedResourceView {
                        uri: resource_uri,
                        mime_type: Some("text/plain"@),
                        annotation: Some(
                            ResourceAnnotationView {
                                description: "Source code to analyze"@,
                                role: "primary_input"@,
                            },
                        ),
                    },
                    text: Some(
                        "Please perform a {{analysis_type}} analysis of this code{{#if focus_areas}} focusing on: {{focus_areas}}{{/if}}. Provide specific recommendations."@,
                    ),
                },
            },
        ],
        metadata: seq![
            ("type"@, JsonView::String("code_analysis"@)),
            ("resource_dependent"@, JsonView::Bool(true)),
        ],
    }
}

/// A JSON array of the given strings.
fn string_array(items: &Vec<&'static str>) -> (out: JsonValue)
    ensures
        out@ == JsonView::Array(Seq::new(items@.len(), |i: int| JsonView::String(items@[i]@))),
{
    let mut values: Vec<JsonValue> = Vec::new();
    let mut i: usize = 0;
    while i < items.len()
        invariant
            i <= items.len(),
            values.len() == i,
            forall|k: int| 0 <= k < i ==> values@[k]@ == JsonView::String(items@[k]@),
        decreases items.len() - i,
    {
        values.push(JsonValue::string(items[i]));
        i += 1;
    }
    assert(crate::json::items_view(values@) =~= Seq::new(
        items@.len(),
        |i: int| JsonView::String(items@[i]@),
    ));
    JsonValue::Array(values)
}

/// A JSON object of two members.
fn object2(first: &str, a: JsonValue, second: &str, b: JsonValue) -> (out: JsonValue)
    ensures
        out@ == JsonView::Object(seq![(first@, a@), (second@, b@)]),
{
    let mut members: Vec<(String, JsonValue)> = Vec::new();
    members.push((first.to_owned(), a));
    members.push((second.to_owned(), b));
    assert(members_view(members@) =~= seq![(first@, a@), (second@, b@)]);
    JsonValue::Object(members)
}

/// A JSON object of one member.
fn object1(first: &str, a: JsonValue) -> (out: JsonValue)
    ensures
        out@ == JsonView::Object(seq![(first@, a@)]),
{
    let mut members: Vec<(String, JsonValue)> = Vec::new();
    members.push((first.to_owned(), a));
    assert(members_view(members@) =~= seq![(first@, a@)]);
    JsonValue::Object(members)
}

impl InMemoryPromptRegistry {
    /// The prompts held, in the order in which their names first came.
    pub closed spec fn stored(&self) -> Seq<PromptView> {
        prompts_view(self.prompts@)
    }

    /// The categories held, in the order in which they came.
    pub closed spec fn grouped(&self) -> Seq<PromptCategoryView> {
        categories_view(self.categories@)
    }

    /// No two prompts share a name.
    pub open spec fn wf(&self) -> bool {
        pairwise_distinct(prompt_names(self.stored()))
    }

    /// An empty registry.
    pub fn new() -> (registry: InMemoryPromptRegistry)
        ensures
            registry.wf(),
            registry.stored().len() == 0,
            registry.grouped().len() == 0,
    {
        InMemoryPromptRegistry {
            prompts: Vec::new(),
            categories: Vec::new(),
            template_engine: SimpleTemplateEngine,
        }
    }

    /// Position of the prompt named `name`.
    fn position(&self, name: &str) -> (found: Option<usize>)
        ensures
            match found {
                Some(i) => i < self.prompts.len() && index_of_text(
                    prompt_names(self.stored()),
                    name@,
                ) == Some(i as int),
                None => index_of_text(prompt_names(self.stored()), name@) is None,
            },
    {
        let ghost keys = prompt_names(self.stored());
        let mut i: usize = 0;
        while i < self.prompts.len()
            invariant
                i <= self.prompts.len(),
                keys == prompt_names(self.stored()),
                keys.len() == self.prompts.len(),
                forall|j: int| 0 <= j < i ==> keys[j] != name@,
            decreases self.prompts.len() - i,
        {
            assert(keys[i as int] == self.prompts@[i as int].name@);
            if text_equal(self.prompts[i].name.as_str(), name) {
                proof {
                    lemma_index_of_text(keys, name@);
                }
                return Some(i);
            }
            i += 1;
        }
        proof {
            lemma_index_of_text(keys, name@);
        }
        None
    }

    /// Puts `prompt` into the registry, in the place of the prompt that had
    /// its name if there was one.
    pub fn add_prompt(&mut self, prompt: Prompt)
        requires
            old(self).wf(),
        ensures
            final(self).wf(),
            final(self).stored() == prompts_with(old(self).stored(), prompt@),
            final(self).grouped() == old(self).grouped(),
    {
        let ghost before = self.stored();
        let ghost keys = prompt_names(before);
        proof {
            lemma_index_of_text(keys, prompt.name@);
        }
        match self.position(prompt.name.as_str()) {
            Some(i) => {
                self.prompts.set(i, prompt);
                proof {
                    assert(self.stored() =~= before.update(i as int, prompt@));
                    assert(prompt_names(self.stored()) =~= keys);
                }
            },
            None => {
                self.prompts.push(prompt);
                proof {
                    assert(self.stored() =~= before.push(prompt@));
                    assert(prompt_names(self.stored()) =~= keys.push(prompt.name@));
                }
            },
        }
    }

    /// Adds a category to the list.
    pub fn add_category(&mut self, category: PromptCategory)
        ensures
            final(self).grouped() == old(self).grouped().push(category@),
            final(self).stored() == old(self).stored(),
    {
        let ghost before = self.grouped();
        self.categories.push(category);
        assert(self.grouped() =~= before.push(category@));
    }

    /// Stores a prompt of two messages: `system_prompt` spoken by the
    /// system, then `user_template` spoken by the user.
    pub fn add_workflow_prompt(
        &mut self,
        name: &str,
        description: &str,
        system_prompt: &str,
        user_template: &str,
        parameters: Vec<PromptParameter>,
    )
        requires
            old(self).wf(),
        ensures
            final(self).wf(),
            final(self).stored() == prompts_with(
                old(self).stored(),
                workflow_prompt(
                    name@,
                    description@,
                    system_prompt@,
                    user_template@,
                    parameters_view(parameters@),
                ),
            ),
            final(self).grouped() == old(self).grouped(),
    {
        let mut messages: Vec<PromptMessage> = Vec::new();
        messages.push(
            PromptMessage {
                role: MessageRole::System,
                content: PromptContent::Text { text: system_prompt.to_owned() },
            },
        );
        messages.push(
            PromptMessage {
                role: MessageRole::User,
                content: PromptContent::Text { text: user_template.to_owned() },
            },
        );
        let mut metadata: Vec<(String, JsonValue)> = Vec::new();
        metadata.push(("type".to_owned(), JsonValue::string("workflow")));
        let prompt = Prompt {
            name: name.to_owned(),
            description: description.to_owned(),
            version: "1.0.0".to_owned(),
            parameters,
            messages,
            metadata,
        };
        proof {
            let built = workflow_prompt(
                name@,
                description@,
                system_prompt@,
                user_template@,
                parameters_view(parameters@),
            );
            assert(messages_view(prompt.messages@) =~= built.messages);
            assert(members_view(prompt.metadata@) =~= built.metadata);
        }
        self.add_prompt(prompt);
    }

    /// Stores a prompt that asks for an analysis of the resource at
    /// `resource_uri`.
    pub fn add_code_analysis_prompt(&mut self, name: &str, description: &str, resource_uri: &str)
        requires
            old(self).wf(),
        ensures
            final(self).wf(),
            final(self).stored() == prompts_with(
                old(self).stored(),
                code_analysis_prompt(name@, description@, resource_uri@),
            ),
            final(self).grouped() == old(self).grouped(),
    {
        let mut kinds: Vec<&'static str> = Vec::new();
        kinds.push("security");
        kinds.push("performance");
        kinds.push("style");
        kinds.push("all");
        let kinds_json = string_array(&kinds);
        let type_schema = object2("enum", kinds_json, "type", JsonValue::string("string"));
        let items_schema = object1("type", JsonValue::string("string"));
        let areas_schema = object2("items", items_schema, "type", JsonValue::string("array"));
        let mut parameters: Vec<PromptParameter> = Vec::new();
        parameters.push(
            PromptParameter {
                name: "analysis_type".to_owned(),
                description: "Type of analysis to perform (security, performance, style)".to_owned(),
                required: true,
                schema: Some(type_schema),
                default: None,
            },
        );
        parameters.push(
            PromptParameter {
                name: "focus_areas".to_owned(),
                description: "Specific areas to focus on".to_owned(),
                required: false,
                schema: Some(areas_schema),
                default: Some(JsonValue::Array(Vec::new())),
            },
        );
        let mut messages: Vec<PromptMessage> = Vec::new();
        messages.push(
            PromptMessage {
                role: MessageRole::System,
                content: PromptContent::Text {
                    text: "You are an expert in code analysis. Analyze the provided code and give detailed feedback based on the requested analysis type.".to_owned(),
                },
            },
        );
        messages.push(
            PromptMessage {
                role: MessageRole::User,
                content: PromptContent::EmbeddedResource {
                    resource: EmbeddedResource {
                        uri: resource_uri.to_owned(),
                        mime_type: Some("text/plain".to_owned()),
                        annotation: Some(
                            ResourceAnnotation {
                                description: "Source code to analyze".to_owned(),
                                role: "primary_input".to_owned(),
                            },
                        ),
                    },
                    text: Some(
                        "Please perform a {{analysis_type}} analysis of this code{{#if focus_areas}} focusing on: {{focus_areas}}{{/if}}. Provide specific recommendations.".to_owned(),
                    ),
                },
            },
        );
        let mut metadata: Vec<(String, JsonValue)> = Vec::new();
        metadata.push(("type".to_owned(), JsonValue::string("code_analysis")));
        metadata.push(("resource_dependent".to_owned(), JsonValue::Bool(true)));
        let prompt = Prompt {
            name: name.to_owned(),
            description: description.to_owned(),
            version: "1.0.0".to_owned(),
            parameters,
            messages,
            metadata,
        };
        proof {
            let built = code_analysis_prompt(name@, description@, resource_uri@);
            assert(kinds_json@ == analysis_type_schema()->Object_0[0].1) by {
                assert(Seq::new(kinds@.len(), |i: int| JsonView::String(kinds@[i]@)) =~= seq![
                    JsonView::String("security"@),
                    JsonView::String("performance"@),
                    JsonView::String("style"@),
                    JsonView::String("all"@),
                ]);
            }
            assert(prompt.parameters@[1].default->0@ == JsonView::Array(Seq::empty())) by {
                assert(crate::json::items_view(Seq::<JsonValue>::empty()) =~= Seq::empty());
            }
            assert(parameters_view(prompt.parameters@) =~= built.parameters);
            assert(messages_view(prompt.messages@) =~= built.messages);
            assert(members_view(prompt.metadata@) =~= built.metadata);
        }
        self.add_prompt(prompt);
    }

    /// Renders one message: substitutes the arguments into its text.
    pub fn render_message(&self, message: &PromptMessage, params: &Vec<(String, JsonValue)>) -> (out:
        McpResult<PromptMessage>)
        ensures
            out matches Ok(rendered) && rendered@ == rendered_message(
                message@,
                members_view(params@),
            ),
    {
        let content = match &message.content {
            PromptContent::Text { text } => {
                match self.template_engine.substitute(text.as_str(), params) {
                    Ok(rendered) => PromptContent::Text { text: rendered },
                    Err(e) => {
                        return Err(e);
                    },
                }
            },
            PromptContent::EmbeddedResource { resource, text } => {
                let rendered = match text {
                    Some(t) => match self.template_engine.substitute(t.as_str(), params) {
                        Ok(rendered) => Some(rendered),
                        Err(e) => {
                            return Err(e);
                        },
                    },
                    None => None,
                };
                PromptContent::EmbeddedResource { resource: resource.clone(), text: rendered }
            },
        };
        Ok(PromptMessage { role: message.role, content })
    }

    /// Name of the first required parameter of `prompt` that `params` does
    /// not supply.
    fn find_missing<'a>(prompt: &'a Prompt, params: &Vec<(String, JsonValue)>) -> (missing: Option<
        &'a str,
    >)
        ensures
            match missing {
                Some(name) => first_missing(prompt@.parameters, members_view(params@)) == Some(
                    name@,
                ),
                None => first_missing(prompt@.parameters, members_view(params@)) is None,
            },
    {
        let ghost all = prompt@.parameters;
        let ghost args = members_view(params@);
        let mut i: usize = 0;
        assert(all.skip(0) =~= all);
        while i < prompt.parameters.len()
            invariant
                i <= prompt.parameters.len(),
                all == prompt@.parameters,
                args == members_view(params@),
                first_missing(all, args) == first_missing(all.skip(i as int), args),
            decreases prompt.parameters.len() - i,
        {
            let parameter = &prompt.parameters[i];
            proof {
                assert(all.skip(i as int)[0] == parameter@);
                assert(all.skip(i as int).drop_first() =~= all.skip(i + 1));
            }
            if parameter.required && find_member(params, parameter.name.as_str()).is_none() {
                return Some(parameter.name.as_str());
            }
            i += 1;
        }
        None
    }

    /// Renders `prompt` with `params`.
    fn render(&self, prompt: &Prompt, params: &Vec<(String, JsonValue)>) -> (out: McpResult<
        GetPromptResult,
    >)
        ensures
            result_view(out) == rendered(prompt@, members_view(params@)),
    {
        let ghost args = members_view(params@);
        match Self::find_missing(prompt, params) {
            Some(name) => {
                return Err(
                    McpError::Validation {
                        message: join3("Required parameter '", name, "' not provided"),
                    },
                );
            },
            None => {},
        }
        let mut messages: Vec<PromptMessage> = Vec::new();
        let mut i: usize = 0;
        while i < prompt.messages.len()
            invariant
                i <= prompt.messages.len(),
                messages.len() == i,
                args == members_view(params@),
                forall|k: int|
                    0 <= k < i ==> messages@[k]@ == rendered_message(prompt.messages@[k]@, args),
            decreases prompt.messages.len() - i,
        {
            match self.render_message(&prompt.messages[i], params) {
                Ok(message) => {
                    messages.push(message);
                },
                Err(e) => {
                    return Err(e);
                },
            }
            i += 1;
        }
        let description = match self.template_engine.substitute(prompt.description.as_str(), params) {
            Ok(text) => text,
            Err(e) => {
                return Err(e);
            },
        };
        assert(messages_view(messages@) =~= rendered_messages(prompt@.messages, args));
        Ok(GetPromptResult { name: prompt.name.clone(), messages, description })
    }
}

impl Default for InMemoryPromptRegistry {
    /// An empty registry.
    fn default() -> (registry: Self)
        ensures
            registry.wf(),
            registry.stored().len() == 0,
            registry.grouped().len() == 0,
    {
        InMemoryPromptRegistry::new()
    }
}

impl PromptRegistry for InMemoryPromptRegistry {
    open spec fn listing(&self, context: &SecurityContext) -> Result<Seq<PromptView>, McpErrorView> {
        Ok(self.stored())
    }

    open spec fn rendering(
        &self,
        name: Seq<char>,
        args: Seq<(Seq<char>, JsonView)>,
        context: &SecurityContext,
    ) -> Result<GetPromptResultView, McpErrorView> {
        answer(self.stored(), name, args)
    }

    fn list_prompts(&self, context: &SecurityContext) -> (listed: McpResult<Vec<Prompt>>) {
        let mut out: Vec<Prompt> = Vec::new();
        let mut i: usize = 0;
        while i < self.prompts.len()
            invariant
                i <= self.prompts.len(),
                out.len() == i,
                forall|k: int| 0 <= k < i ==> out@[k]@ == self.prompts@[k]@,
            decreases self.prompts.len() - i,
        {
            out.push(self.prompts[i].clone());
            i += 1;
        }
        assert(prompts_view(out@) =~= self.stored());
        Ok(out)
    }

    fn get_prompt(&self, name: &str, context: &SecurityContext) -> (found: McpResult<Option<Prompt>>)
        ensures
            found matches Ok(prompt) && match index_of_text(prompt_names(self.stored()), name@) {
                Some(i) => prompt matches Some(p) && p@ == self.stored()[i],
                None => prompt is None,
            },
    {
        match self.position(name) {
            Some(i) => Ok(Some(self.prompts[i].clone())),
            None => Ok(None),
        }
    }

    fn get_prompt_with_args(&self, request: GetPromptRequest, context: &SecurityContext) -> (out:
        McpResult<GetPromptResult>) {
        let params = match request.arguments {
            Some(args) => args,
            None => Vec::new(),
        };
        proof {
            if request.arguments is None {
                assert(members_view(params@) =~= Seq::empty());
            }
        }
        match self.position(request.name.as_str()) {
            Some(i) => self.render(&self.prompts[i], &params),
            None => Err(McpError::PromptNotFound { name: request.name }),
        }
    }

    fn list_categories(&self, context: &SecurityContext) -> (listed: McpResult<Vec<PromptCategory>>)
        ensures
            listed matches Ok(categories) && categories_view(categories@) == self.grouped(),
    {
        let mut out: Vec<PromptCategory> = Vec::new();
        let mut i: usize = 0;
        while i < self.categories.len()
            invariant
                i <= self.categories.len(),
                out.len() == i,
                forall|k: int| 0 <= k < i ==> out@[k]@ == self.categories@[k]@,
            decreases self.categories.len() - i,
        {
            out.push(self.categories[i].clone());
            i += 1;
        }
        assert(categories_view(out@) =~= self.grouped());
        Ok(out)
    }

    fn prompt_exists(&self, name: &str, context: &SecurityContext) -> (exists: McpResult<bool>)
        ensures
            exists matches Ok(yes) && yes == (index_of_text(prompt_names(self.stored()), name@)
                is Some),
    {
        Ok(self.position(name).is_some())
    }

    fn validate_prompt_parameters(
        &self,
        name: &str,
        params: &Vec<(String, JsonValue)>,
        context: &SecurityContext,
    ) -> (valid: McpResult<()>)
        ensures
            unit_view(valid) == checked(self.stored(), name@, members_view(params@)),
    {
        match self.position(name) {
            Some(i) => match Self::find_missing(&self.prompts[i], params) {
                Some(missing) => Err(
                    McpError::Validation {
                        message: join3("Required parameter '", missing, "' not provided"),
                    },
                ),
                None => Ok(()),
            },
            None => Err(McpError::PromptNotFound { name: name.to_owned() }),
        }
    }
}

} // verus!

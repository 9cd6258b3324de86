//! The interface to tools and to the state that a server is built around.

use vstd::prelude::*;
use crate::error::McpError;
use crate::error::McpErrorView;
use crate::error::McpResult;
use crate::json::clone_members;
use crate::json::JsonValue;
use crate::json::JsonView;
use crate::json::members_view;
use crate::prompt::PromptRegistry;
use crate::protocol::Tool;
use crate::resource::ResourceRegistry;
use crate::security::ClientContext;
use crate::security::SecurityContext;
use crate::security::SecurityContextView;
use crate::wire::no_members;
use crate::wire::push_member;

verus! {

/// What a tool is run with: the rights of the caller and the arguments.
#[derive(Debug)]
pub struct ToolExecutionContext {
    pub security: SecurityContext,
    pub arguments: JsonValue,
}

/// The mathematical value of a `ToolExecutionContext`.
pub ghost struct ToolExecutionContextView {
    pub security: SecurityContextView,
    pub arguments: JsonView,
}

impl View for ToolExecutionContext {
    type V = ToolExecutionContextView;

    open spec fn view(&self) -> ToolExecutionContextView {
        ToolExecutionContextView { security: self.security@, arguments: self.arguments@ }
    }
}

impl ToolExecutionContext {
    /// A context with the given rights and `null` as arguments.
    pub fn new(security: SecurityContext) -> (context: Self)
        ensures
            context.security == security,
            context.arguments@ is Null,
    {
        ToolExecutionContext { security, arguments: JsonValue::Null }
    }

    /// The same context with `arguments`.
    pub fn with_arguments(self, arguments: JsonValue) -> (context: Self)
        ensures
            context.security == self.security,
            context.arguments == arguments,
    {
        ToolExecutionContext { security: self.security, arguments }
    }
}

/// A store of tools. Whether a caller may see or run a tool is for the
/// registry to decide: the server filters nothing.
pub trait ToolRegistry {
    /// The tools that `context` may see.
    fn list_tools(&self, context: &SecurityContext) -> McpResult<Vec<Tool>>;

    /// Runs the tool named `name` and hands back its result.
    fn execute_tool(&self, name: &str, context: ToolExecutionContext) -> McpResult<JsonValue>;
}

/// What authenticates clients and authorizes their actions.
pub trait McpAuth {
    /// The rights of a client.
    fn authenticate(&self, client: &ClientContext) -> McpResult<SecurityContext>;

    /// Whether `context` may perform `action` on `resource`.
    fn authorize(&self, context: &SecurityContext, resource: &str, action: &str) -> bool;
}

/// The name and version that a server advertises.
#[derive(Debug)]
pub struct ServerInfo {
    pub name: String,
    pub version: String,
    pub metadata: Vec<(String, JsonValue)>,
}

/// What a server is built around: its registries, its authenticator and
/// its handlers for initialization and for methods of its own.
///
/// The registries are fixed while requests are served: `resources` and
/// `prompts` name what `resource_registry` and `prompt_registry` hand out.
pub trait McpServerState {
    type ToolRegistry: ToolRegistry;

    type AuthManager: McpAuth;

    type Resources: ResourceRegistry;

    type Prompts: PromptRegistry;

    /// The resource registry of the server, if it has one.
    spec fn resources(&self) -> Option<Self::Resources>;

    /// The prompt registry of the server, if it has one.
    spec fn prompts(&self) -> Option<Self::Prompts>;

    fn tool_registry(&self) -> &Self::ToolRegistry;

    fn auth_manager(&self) -> &Self::AuthManager;

    fn resource_registry(&self) -> (registry: Option<&Self::Resources>)
        ensures
            match registry {
                Some(r) => self.resources() == Some(*r),
                None => self.resources() is None,
            },
    ;

    fn prompt_registry(&self) -> (registry: Option<&Self::Prompts>)
        ensures
            match registry {
                Some(p) => self.prompts() == Some(*p),
                None => self.prompts() is None,
            },
    ;

    fn server_info(&self) -> ServerInfo;

    /// Handles `initialize` and hands back its result.
    fn initialize(&self, params: JsonValue) -> McpResult<JsonValue>;

    /// Handles a method that is not a standard one. An unknown method is
    /// answered with a method-not-found error.
    fn handle_custom_method(
        &self,
        name: &str,
        params: Option<JsonValue>,
        context: &SecurityContext,
    ) -> McpResult<Option<JsonValue>>;
}

impl Clone for ServerInfo {
    fn clone(&self) -> (copy: Self)
        ensures
            copy.name == self.name,
            copy.version == self.version,
            members_view(copy.metadata@) == members_view(self.metadata@),
    {
        ServerInfo {
            name: self.name.clone(),
            version: self.version.clone(),
            metadata: clone_members(&self.metadata),
        }
    }
}

/// What the plain server state answers `initialize` with: the name and the
/// version of the server.
pub open spec fn identity_json(name: Seq<char>, version: Seq<char>) -> JsonView {
    JsonView::Object(
        seq![("name"@, JsonView::String(name)), ("version"@, JsonView::String(version))],
    )
}

/// A server state made of its parts: a tool registry, an authenticator,
/// and the resource and prompt registries that the server has. It knows no
/// methods of its own.
pub struct ServerState<T: ToolRegistry, A: McpAuth, R: ResourceRegistry, P: PromptRegistry> {
    pub tools: T,
    pub auth: A,
    pub resources: Option<R>,
    pub prompts: Option<P>,
    pub info: ServerInfo,
}

impl<T: ToolRegistry, A: McpAuth, R: ResourceRegistry, P: PromptRegistry> McpServerState
    for ServerState<T, A, R, P> {
    type ToolRegistry = T;

    type AuthManager = A;

    type Resources = R;

    type Prompts = P;

    open spec fn resources(&self) -> Option<R> {
        self.resources
    }

    open spec fn prompts(&self) -> Option<P> {
        self.prompts
    }

    fn tool_registry(&self) -> (registry: &T)
        ensures
            *registry == self.tools,
    {
        &self.tools
    }

    fn auth_manager(&self) -> (auth: &A)
        ensures
            *auth == self.auth,
    {
        &self.auth
    }

    fn resource_registry(&self) -> (registry: Option<&R>) {
        match &self.resources {
            Some(r) => Some(r),
            None => None,
        }
    }

    fn prompt_registry(&self) -> (registry: Option<&P>) {
        match &self.prompts {
            Some(p) => Some(p),
            None => None,
        }
    }

    fn server_info(&self) -> (info: ServerInfo)
        ensures
            info.name == self.info.name,
            info.version == self.info.version,
            members_view(info.metadata@) == members_view(self.info.metadata@),
    {
        self.info.clone()
    }

    fn initialize(&self, params: JsonValue) -> (answer: McpResult<JsonValue>)
        ensures
            answer matches Ok(value) && value@ == identity_json(
                self.info.name@,
                self.info.version@,
            ),
    {
        let mut members = no_members();
        push_member(&mut members, "name", JsonValue::string(self.info.name.as_str()));
        push_member(&mut members, "version", JsonValue::string(self.info.version.as_str()));
        assert(members_view(members@) =~= identity_json(
            self.info.name@,
            self.info.version@,
        )->Object_0);
        Ok(JsonValue::Object(members))
    }

    fn handle_custom_method(
        &self,
        name: &str,
        params: Option<JsonValue>,
        context: &SecurityContext,
    ) -> (answer: McpResult<Option<JsonValue>>)
        ensures
            answer matches Err(e) && e@ == (McpErrorView::MethodNotFound { method: name@ }),
    {
        Err(McpError::MethodNotFound { method: name.to_owned() })
    }
}

} // verus!
